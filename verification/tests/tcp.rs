use netproto::ip_checksum::data;
use netproto::ipv4::{IpProtocol, Ipv4Address, Ipv4Packet};
use netproto::tcp::{
    Received, TcpConnection, TcpHeader, TcpKind, TcpOptions, TcpPacket, TcpState, ACK, CWR, ECE,
    FIN, NS, PSH, RST, SYN, URG,
};
use netproto::{HeapTxPacket, Parse, ParseError, TxPacket, WriteOut};
use std::borrow::Cow;

fn serialized<T: WriteOut>(record: &T) -> Vec<u8> {
    let mut tx = HeapTxPacket::new(record.len());
    record.write_out(&mut tx).unwrap();
    assert_eq!(tx.len(), record.len());
    tx.as_slice().to_vec()
}

fn client() -> Ipv4Address {
    Ipv4Address::new(10, 0, 0, 1)
}

fn server() -> Ipv4Address {
    Ipv4Address::new(10, 0, 0, 2)
}

fn listener() -> TcpConnection {
    TcpConnection::new((client(), server(), 40000, 80))
}

fn segment(seq: u32, ack: u32, flags: u8, payload: &[u8]) -> TcpPacket<&[u8]> {
    TcpPacket {
        header: TcpHeader {
            src_port: 40000,
            dst_port: 80,
            sequence_number: seq,
            ack_number: ack,
            options: TcpOptions::from_bytes(0x50, flags),
            window_size: 8192,
        },
        payload,
    }
}

fn silent<'d>(_: &TcpConnection, _: &'d [u8]) -> Option<Cow<'d, [u8]>> {
    panic!("the application must not be asked")
}

fn echo<'d>(_: &TcpConnection, payload: &'d [u8]) -> Option<Cow<'d, [u8]>> {
    Some(Cow::Borrowed(payload))
}

fn nothing<'d>(_: &TcpConnection, _: &'d [u8]) -> Option<Cow<'d, [u8]>> {
    None
}

/// Hands a segment to the endpoint and keeps the answer beyond the segment.
fn deliver<F>(conn: &mut TcpConnection, packet: TcpPacket<&[u8]>, f: F) -> Option<TcpPacket<Vec<u8>>>
where
    for<'d> F: FnMut(&TcpConnection, &'d [u8]) -> Option<Cow<'d, [u8]>>,
{
    conn.handle_packet(&packet, f)
        .map(|reply| TcpPacket { header: reply.header, payload: reply.payload.into_owned() })
}

fn established() -> TcpConnection {
    let mut conn = listener();
    deliver(&mut conn, segment(1000, 0, 0x02, &[]), silent).unwrap();
    assert!(deliver(&mut conn, segment(1001, 0x12346, 0x10, &[]), silent).is_none());
    assert_eq!(conn.state(), TcpState::Established);
    conn
}

#[test]
fn options_start_with_five_words_and_no_flag() {
    let options = TcpOptions::new();
    assert_eq!(options, TcpOptions::from_bytes(0x50, 0x00));
    assert_eq!(options.header_len(), 5);
    assert_eq!(options.flags(), 0);
    assert!(!options.ns() && !options.cwr() && !options.ece() && !options.urg());
    assert!(!options.ack() && !options.psh() && !options.rst() && !options.syn());
    assert!(!options.fin());
}

#[test]
fn header_length_is_the_high_nibble() {
    assert_eq!(TcpOptions::from_bytes(0x00, 0).header_len(), 0);
    assert_eq!(TcpOptions::from_bytes(0x5f, 0xff).header_len(), 5);
    assert_eq!(TcpOptions::from_bytes(0xa1, 0).header_len(), 10);
    assert_eq!(TcpOptions::from_bytes(0xff, 0).header_len(), 15);
}

#[test]
fn each_flag_has_its_bit() {
    let tests: [(u8, u8, u16); 9] = [
        (0x00, 0x01, FIN),
        (0x00, 0x02, SYN),
        (0x00, 0x04, RST),
        (0x00, 0x08, PSH),
        (0x00, 0x10, ACK),
        (0x00, 0x20, URG),
        (0x00, 0x40, ECE),
        (0x00, 0x80, CWR),
        (0x01, 0x00, NS),
    ];
    for (first, second, flag) in tests {
        let options = TcpOptions::from_bytes(0x50 | first, second);
        assert_eq!(options.flags(), flag);
        assert!(options.contains(flag));
        assert_eq!(options.fin(), flag == FIN);
        assert_eq!(options.syn(), flag == SYN);
        assert_eq!(options.rst(), flag == RST);
        assert_eq!(options.psh(), flag == PSH);
        assert_eq!(options.ack(), flag == ACK);
        assert_eq!(options.urg(), flag == URG);
        assert_eq!(options.ece(), flag == ECE);
        assert_eq!(options.cwr(), flag == CWR);
        assert_eq!(options.ns(), flag == NS);
    }
    assert_eq!([FIN, SYN, RST, PSH, ACK, URG, ECE, CWR, NS].iter().sum::<u16>(), 0x1ff);
}

#[test]
fn flag_set_supports_union_intersection_and_contains() {
    let options = TcpOptions::from_bytes(0x51, 0x12);
    assert_eq!(options.flags(), NS | ACK | SYN);
    assert!(options.contains(SYN | ACK));
    assert!(options.contains(0));
    assert!(!options.contains(SYN | FIN));
    assert_eq!(options.flags() & (SYN | FIN), SYN);
    assert_eq!(TcpOptions::from_bytes(0xfe, 0x00).flags(), 0);
}

#[test]
fn setters_change_one_flag() {
    let mut options = TcpOptions::from_bytes(0x50, 0x00);
    options.set_ack(true);
    assert_eq!(options, TcpOptions::from_bytes(0x50, 0x10));
    options.set_syn(true);
    assert_eq!(options, TcpOptions::from_bytes(0x50, 0x12));
    options.set_fin(true);
    assert_eq!(options, TcpOptions::from_bytes(0x50, 0x13));
    options.set_ack(false);
    assert_eq!(options, TcpOptions::from_bytes(0x50, 0x03));
    options.set_syn(false);
    options.set_fin(false);
    options.set_fin(false);
    assert_eq!(options, TcpOptions::from_bytes(0x50, 0x00));
    assert_eq!(TcpOptions::new_ack(), TcpOptions::from_bytes(0x50, 0x10));
    assert_eq!(TcpOptions::new_syn_ack(), TcpOptions::from_bytes(0x50, 0x12));
}

#[test]
fn segment_alone_carries_the_sum_of_its_own_bytes() {
    let packet = TcpPacket {
        header: TcpHeader {
            src_port: 80,
            dst_port: 40000,
            sequence_number: 0x12345,
            ack_number: 1001,
            options: TcpOptions::new_syn_ack(),
            window_size: 1000,
        },
        payload: Vec::<u8>::new(),
    };
    assert_eq!(packet.len(), 20);
    assert_eq!(
        serialized(&packet),
        vec![
            0x00, 0x50, 0x9c, 0x40, 0x00, 0x01, 0x23, 0x45, 0x00, 0x00, 0x03, 0xe9, 0x50, 0x12,
            0x03, 0xe8, 0xe8, 0x45, 0x00, 0x00,
        ]
    );
}

#[test]
fn segment_under_ipv4_carries_the_pseudo_header_too() {
    let packet = TcpPacket {
        header: TcpHeader {
            src_port: 80,
            dst_port: 40000,
            sequence_number: 0x12345,
            ack_number: 1001,
            options: TcpOptions::new_syn_ack(),
            window_size: 1000,
        },
        payload: Vec::<u8>::new(),
    };
    let ip = Ipv4Packet::new_tcp(server(), client(), packet);
    assert_eq!(ip.header.protocol, IpProtocol::Tcp);
    let bytes = serialized(&ip);
    assert_eq!(bytes.len(), 40);
    assert_eq!(&bytes[..4], &[0x45, 0x00, 0x00, 0x28]);
    assert_eq!(bytes[9], 6);
    assert_eq!(&bytes[10..12], &[0x26, 0xce]);
    assert_eq!(&bytes[36..38], &[0xd4, 0x28]);
    let mut summed = vec![10, 0, 0, 2, 10, 0, 0, 1, 0, 6, 0, 20];
    summed.extend_from_slice(&bytes[20..]);
    assert_eq!(data(&summed), 0xffff);
}

#[test]
fn pseudo_header_and_segment_sum_to_all_ones() {
    for len in [0usize, 1, 2, 9, 16, 1459, 1460] {
        let payload: Vec<u8> = (0..len).map(|i| (i * 13 + 1) as u8).collect();
        let packet = TcpPacket {
            header: TcpHeader {
                src_port: 443,
                dst_port: 51000,
                sequence_number: 0xffff_fff0,
                ack_number: 0x8000_0000,
                options: TcpOptions::from_bytes(0x51, 0x18),
                window_size: 0xffff,
            },
            payload,
        };
        let ip = Ipv4Packet::new_tcp(
            Ipv4Address::new(172, 16, 0, 1),
            Ipv4Address::new(172, 16, 255, 254),
            packet,
        );
        let bytes = serialized(&ip);
        let mut summed = vec![172, 16, 0, 1, 172, 16, 255, 254, 0, 6];
        summed.extend_from_slice(&((len + 20) as u16).to_be_bytes());
        summed.extend_from_slice(&bytes[20..]);
        assert_eq!(data(&summed), 0xffff, "{}", len);
        assert_eq!(data(&bytes[..20]), 0xffff, "{}", len);
    }
}

#[test]
fn serialized_segment_always_states_five_header_words() {
    let payload: &[u8] = &[1, 2, 3];
    let packet = TcpPacket {
        header: TcpHeader {
            src_port: 1,
            dst_port: 2,
            sequence_number: 3,
            ack_number: 4,
            options: TcpOptions::from_bytes(0x81, 0x18),
            window_size: 5,
        },
        payload,
    };
    let bytes = serialized(&packet);
    assert_eq!(bytes.len(), 23);
    assert_eq!(bytes[12], 0x51);
    assert_eq!(bytes[13], 0x18);
    assert_eq!(&bytes[18..20], &[0, 0]);
    assert_eq!(&bytes[20..], payload);
}

#[test]
fn serialized_segment_parses_to_its_fields() {
    let payload: &[u8] = b"GET /\r\n\r\n";
    let packet = segment(1001, 0x12346, 0x18, payload);
    let bytes = serialized(&packet);
    let parsed: TcpPacket<&[u8]> = TcpPacket::parse(&bytes).unwrap();
    assert_eq!(parsed.header, packet.header);
    assert_eq!(parsed.payload, payload);
    let tree: TcpPacket<TcpKind> = TcpPacket::parse(&bytes).unwrap();
    assert_eq!(tree.header, packet.header);
    assert!(matches!(tree.payload, TcpKind::Unknown(rest) if rest == payload));
}

#[test]
fn parser_skips_the_options_in_the_header() {
    let mut bytes = vec![0x9c, 0x40, 0x00, 0x50, 0xde, 0xad, 0xbe, 0xef, 0x01, 0x02, 0x03, 0x04];
    bytes.extend_from_slice(&[0x60, 0x02, 0x20, 0x00, 0xaa, 0xbb, 0x00, 0x00]);
    bytes.extend_from_slice(&[2, 4, 5, 0xb4]);
    bytes.extend_from_slice(b"data");
    let parsed: TcpPacket<&[u8]> = TcpPacket::parse(&bytes).unwrap();
    assert_eq!(parsed.header.src_port, 40000);
    assert_eq!(parsed.header.dst_port, 80);
    assert_eq!(parsed.header.sequence_number, 0xdeadbeef);
    assert_eq!(parsed.header.ack_number, 0x01020304);
    assert_eq!(parsed.header.options.header_len(), 6);
    assert_eq!(parsed.header.options.flags(), SYN);
    assert_eq!(parsed.header.window_size, 0x2000);
    assert_eq!(parsed.payload, b"data");
}

#[test]
fn short_segment_is_truncated() {
    let bytes = serialized(&segment(1, 2, 0x10, &[]));
    let parsed: Result<TcpPacket<&[u8]>, ParseError> = TcpPacket::parse(&bytes[..19]);
    assert_eq!(parsed.err(), Some(ParseError::Truncated(19)));
    let mut long_header = bytes.clone();
    long_header[12] = 0x60;
    let parsed: Result<TcpPacket<&[u8]>, ParseError> = TcpPacket::parse(&long_header);
    assert_eq!(parsed.err(), Some(ParseError::Truncated(20)));
    let tree: Result<TcpPacket<TcpKind>, ParseError> = TcpPacket::parse(&long_header);
    assert_eq!(tree.err(), Some(ParseError::Truncated(20)));
    long_header.extend_from_slice(&[0; 4]);
    let parsed: TcpPacket<&[u8]> = TcpPacket::parse(&long_header).unwrap();
    assert_eq!(parsed.payload.len(), 0);
}

#[test]
fn new_connection_listens() {
    let conn = listener();
    assert_eq!(conn.state(), TcpState::Listen);
    assert_eq!(conn.sequence_number(), 0x12345);
    assert_eq!(conn.ack_number(), 0);
    assert_eq!(conn.window_size(), 1000);
}

#[test]
fn three_way_handshake() {
    let mut conn = listener();
    let reply = deliver(&mut conn, segment(1000, 0, 0x02, &[]), silent).unwrap();
    assert_eq!(reply.header.src_port, 80);
    assert_eq!(reply.header.dst_port, 40000);
    assert_eq!(reply.header.sequence_number, 0x12345);
    assert_eq!(reply.header.ack_number, 1001);
    assert_eq!(reply.header.window_size, 1000);
    assert_eq!(reply.header.options.flags(), SYN | ACK);
    assert_eq!(reply.header.options.header_len(), 5);
    assert!(reply.payload.is_empty());
    assert_eq!(conn.state(), TcpState::SynReceived);

    let reply = deliver(&mut conn, segment(1001, 0x12346, 0x10, &[]), silent);
    assert!(reply.is_none());
    assert_eq!(conn.state(), TcpState::Established);
    assert_eq!(conn.sequence_number(), 0x12346);
    assert_eq!(conn.ack_number(), 1001);
}

#[test]
fn data_exchange_and_close() {
    let mut conn = established();
    let request = segment(1001, 0x12346, 0x18, b"GET /\r\n\r\n");
    let mut asked = Vec::new();
    let reply = conn
        .handle_packet(&request, |conn: &TcpConnection, payload: &[u8]| -> Option<Cow<[u8]>> {
            asked.extend_from_slice(payload);
            assert_eq!(conn.ack_number(), 1010);
            assert_eq!(conn.sequence_number(), 0x12346);
            Some(Cow::from(&b"HTTP/1.0 200\r\n\r\n"[..]))
        })
        .unwrap();
    assert_eq!(asked, b"GET /\r\n\r\n");
    assert_eq!(reply.header.options.flags(), ACK);
    assert_eq!(reply.header.sequence_number, 0x12346);
    assert_eq!(reply.header.ack_number, 1010);
    assert_eq!(reply.header.src_port, 80);
    assert_eq!(reply.header.dst_port, 40000);
    assert_eq!(reply.header.window_size, 1000);
    assert_eq!(&reply.payload[..], b"HTTP/1.0 200\r\n\r\n");
    assert_eq!(conn.sequence_number(), 0x12356);
    assert_eq!(conn.ack_number(), 1010);
    assert_eq!(conn.state(), TcpState::Established);

    let reply = deliver(&mut conn, segment(1010, 0x12356, 0x11, &[]), silent).unwrap();
    assert_eq!(reply.header.options.flags(), ACK | FIN);
    assert_eq!(reply.header.sequence_number, 0x12356);
    assert_eq!(reply.header.ack_number, 1011);
    assert!(reply.payload.is_empty());
    assert_eq!(conn.state(), TcpState::LastAck);
    assert_eq!(conn.sequence_number(), 0x12357);

    let reply = deliver(&mut conn, segment(1011, 0x12357, 0x10, &[]), silent);
    assert!(reply.is_none());
    assert_eq!(conn.state(), TcpState::Closed);

    let reply = deliver(&mut conn, segment(1011, 0x12357, 0x02, &[]), silent);
    assert!(reply.is_none());
    assert_eq!(conn.state(), TcpState::Closed);
    assert_eq!(conn.sequence_number(), 0x12357);
}

#[test]
fn bare_ack_gets_no_answer() {
    let mut conn = established();
    assert!(deliver(&mut conn, segment(1001, 0x12346, 0x10, &[]), silent).is_none());
    assert_eq!(conn.state(), TcpState::Established);
    assert_eq!(conn.sequence_number(), 0x12346);
    assert_eq!(conn.ack_number(), 1001);
}

#[test]
fn ack_with_data_is_delivered() {
    let mut conn = established();
    let packet = segment(1001, 0x12346, 0x10, b"abc");
    let reply = conn
        .handle_packet(&packet, echo)
        .unwrap();
    assert!(matches!(reply.payload, Cow::Borrowed(_)));
    assert_eq!(&reply.payload[..], b"abc");
    assert_eq!(reply.header.ack_number, 1004);
    assert_eq!(conn.ack_number(), 1004);
    assert_eq!(conn.sequence_number(), 0x12349);
}

#[test]
fn data_without_an_answer_is_acknowledged() {
    let mut conn = established();
    let reply = deliver(&mut conn, segment(1001, 0x12346, 0x18, b"hello"), nothing)
        .unwrap();
    assert_eq!(reply.header.options.flags(), ACK);
    assert_eq!(reply.header.sequence_number, 0x12346);
    assert_eq!(reply.header.ack_number, 1006);
    assert!(reply.payload.is_empty());
    assert_eq!(conn.sequence_number(), 0x12346);
    assert_eq!(conn.ack_number(), 1006);
}

#[test]
fn empty_answer_sends_an_empty_segment() {
    let mut conn = established();
    let reply = deliver(&mut conn, segment(1001, 0x12346, 0x18, b"x"), |_: &TcpConnection, _: &[u8]| {
            Some(Cow::Owned(Vec::new()))
        })
        .unwrap();
    assert!(reply.payload.is_empty());
    assert_eq!(conn.sequence_number(), 0x12346);
    assert_eq!(conn.ack_number(), 1002);
}

#[test]
fn old_segment_is_dropped() {
    let mut conn = established();
    assert!(!conn.is_out_of_order(&segment(1000, 0x12346, 0x18, b"late")));
    assert!(deliver(&mut conn, segment(1000, 0x12346, 0x18, b"late"), silent).is_none());
    assert!(deliver(&mut conn, segment(0, 0x12346, 0x11, &[]), silent).is_none());
    assert_eq!(conn.state(), TcpState::Established);
    assert_eq!(conn.sequence_number(), 0x12346);
    assert_eq!(conn.ack_number(), 1001);
}

#[test]
fn segment_ahead_of_its_turn_is_recognised() {
    let conn = established();
    assert!(conn.is_out_of_order(&segment(1002, 0x12346, 0x18, b"early")));
    assert!(!conn.is_out_of_order(&segment(1001, 0x12346, 0x18, b"now")));
    let listening = listener();
    assert!(!listening.is_out_of_order(&segment(5000, 0, 0x02, &[])));
}

#[test]
fn reset_in_sequence_goes_to_the_application_like_other_segments() {
    let mut conn = established();
    let reply = deliver(&mut conn, segment(1001, 0x12346, 0x04, &[]), nothing);
    assert_eq!(reply.unwrap().header.options.flags(), ACK);
    assert_eq!(conn.state(), TcpState::Established);
}

#[test]
fn fin_with_data_acknowledges_data_and_fin() {
    let mut conn = established();
    let reply = deliver(&mut conn, segment(1001, 0x12346, 0x19, b"bye"), silent).unwrap();
    assert_eq!(reply.header.options.flags(), ACK | FIN);
    assert_eq!(reply.header.ack_number, 1005);
    assert_eq!(conn.ack_number(), 1005);
    assert_eq!(conn.state(), TcpState::LastAck);
    assert_eq!(conn.sequence_number(), 0x12347);
}

#[test]
fn flags_must_match_exactly_outside_the_established_state() {
    for flags in [0x00u8, 0x10, 0x12, 0x03, 0x06, 0x0a, 0x22, 0x42, 0x82] {
        let mut conn = listener();
        assert!(deliver(&mut conn, segment(1000, 0, flags, &[]), silent).is_none());
        assert_eq!(conn.state(), TcpState::Listen, "{:#x}", flags);
        assert_eq!(conn.ack_number(), 0);
    }
    let mut conn = listener();
    let with_ns = TcpPacket {
        header: TcpHeader { options: TcpOptions::from_bytes(0x51, 0x02), ..segment(1, 0, 0, &[]).header },
        payload: &[] as &[u8],
    };
    assert!(conn.handle_packet(&with_ns, silent).is_none());
    assert_eq!(conn.state(), TcpState::Listen);

    let mut conn = listener();
    deliver(&mut conn, segment(1000, 0, 0x02, &[]), silent).unwrap();
    for flags in [0x00u8, 0x18, 0x11, 0x04, 0x14] {
        assert!(deliver(&mut conn, segment(1001, 0x12346, flags, &[]), silent).is_none());
        assert_eq!(conn.state(), TcpState::SynReceived, "{:#x}", flags);
    }
    assert_eq!(conn.sequence_number(), 0x12345);
}

#[test]
fn repeated_syn_is_answered_again_with_the_same_sequence_number() {
    let mut conn = listener();
    let first = deliver(&mut conn, segment(1000, 0, 0x02, &[]), silent).unwrap();
    let second = deliver(&mut conn, segment(2000, 0, 0x02, &[]), silent).unwrap();
    assert_eq!(first.header.sequence_number, 0x12345);
    assert_eq!(second.header.sequence_number, 0x12345);
    assert_eq!(second.header.ack_number, 2001);
    assert_eq!(conn.state(), TcpState::SynReceived);
    assert_eq!(conn.sequence_number(), 0x12345);
    assert!(deliver(&mut conn, segment(2001, 0x12346, 0x10, &[]), silent).is_none());
    assert_eq!(conn.sequence_number(), 0x12346);
}

#[test]
fn last_ack_waits_for_a_bare_ack() {
    let mut conn = established();
    deliver(&mut conn, segment(1001, 0x12346, 0x11, &[]), silent).unwrap();
    for flags in [0x11u8, 0x18, 0x02, 0x04] {
        assert!(deliver(&mut conn, segment(1002, 0x12347, flags, &[]), silent).is_none());
        assert_eq!(conn.state(), TcpState::LastAck);
    }
    assert!(deliver(&mut conn, segment(1002, 0x12347, 0x10, &[]), silent).is_none());
    assert_eq!(conn.state(), TcpState::Closed);
}

#[test]
fn acknowledgment_number_wraps_around() {
    let mut conn = listener();
    let reply = deliver(&mut conn, segment(0xffff_ffff, 0, 0x02, &[]), silent).unwrap();
    assert_eq!(reply.header.ack_number, 0);
    assert_eq!(conn.ack_number(), 0);
    assert!(deliver(&mut conn, segment(0, 0x12346, 0x10, &[]), silent).is_none());
    assert_eq!(conn.state(), TcpState::Established);

    let mut conn = listener();
    deliver(&mut conn, segment(0xffff_fffd, 0, 0x02, &[]), silent).unwrap();
    deliver(&mut conn, segment(0xffff_fffe, 0x12346, 0x10, &[]), silent);
    let reply = deliver(&mut conn, segment(0xffff_fffe, 0, 0x18, b"abcd"), nothing)
        .unwrap();
    assert_eq!(reply.header.ack_number, 2);
    assert_eq!(conn.ack_number(), 2);
}

#[test]
fn sequence_number_wraps_around() {
    let mut conn = established();
    let answer = vec![0u8; 0x100_0000];
    for round in 0..255u32 {
        let reply = conn.respond(Some(Cow::Borrowed(&answer[..])));
        assert_eq!(reply.header.sequence_number, 0x12346 + round * 0x100_0000);
    }
    assert_eq!(conn.sequence_number(), 0xff01_2346);
    let reply = conn.respond(Some(Cow::Owned(answer.clone())));
    assert_eq!(reply.header.sequence_number, 0xff01_2346);
    assert_eq!(conn.sequence_number(), 0x0001_2346);
}

#[test]
fn receive_and_respond_split_the_work_of_handle_packet() {
    let mut conn = listener();
    match conn.receive(&segment(1000, 0, 0x02, &[])) {
        Received::Reply(reply) => assert_eq!(reply.header.options.flags(), SYN | ACK),
        other => panic!("{:?}", other),
    }
    assert!(matches!(conn.receive(&segment(1001, 0x12346, 0x10, &[])), Received::Nothing));
    assert!(matches!(conn.receive(&segment(1001, 0x12346, 0x18, b"abcd")), Received::Data));
    assert_eq!(conn.ack_number(), 1005);
    let reply = conn.respond(Some(Cow::Owned(vec![1, 2, 3])));
    assert_eq!(reply.header.sequence_number, 0x12346);
    assert_eq!(reply.header.ack_number, 1005);
    assert_eq!(reply.header.options.flags(), ACK);
    assert_eq!(&reply.payload[..], &[1, 2, 3]);
    assert_eq!(conn.sequence_number(), 0x12349);
    let reply = conn.respond(None);
    assert_eq!(reply.header.sequence_number, 0x12349);
    assert!(reply.payload.is_empty());
    assert_eq!(conn.sequence_number(), 0x12349);
}

#[test]
fn sequence_number_counts_what_was_sent() {
    let mut conn = listener();
    let start = conn.sequence_number();
    let mut syns = 0u32;
    let mut fins = 0u32;
    let mut bytes = 0u32;
    let mut previous = start;
    let arrivals: [(u32, u8, &[u8], Option<&[u8]>); 7] = [
        (1000, 0x02, b"", None),
        (1001, 0x10, b"", None),
        (1001, 0x18, b"one", Some(b"first answer")),
        (1004, 0x10, b"", None),
        (1004, 0x18, b"two", None),
        (1007, 0x18, b"three", Some(b"x")),
        (1012, 0x11, b"", None),
    ];
    for (seq, flags, payload, answer) in arrivals {
        let packet = segment(seq, 0, flags, payload);
        let reply = conn.handle_packet(&packet, |_: &TcpConnection, _: &[u8]| {
            answer.map(|bytes| Cow::Owned(bytes.to_vec()))
        });
        if let Some(reply) = reply {
            if reply.header.options.syn() {
                syns += 1;
            }
            if reply.header.options.fin() {
                fins += 1;
            }
            bytes += reply.payload.len() as u32;
        }
        assert!(conn.sequence_number() >= previous);
        previous = conn.sequence_number();
    }
    assert_eq!((syns, fins, bytes), (1, 1, 13));
    assert_eq!(conn.sequence_number(), start + syns + fins + bytes);
    assert_eq!(conn.state(), TcpState::LastAck);
}

#[test]
fn answer_of_the_endpoint_serializes_under_ipv4() {
    let mut conn = established();
    let request = segment(1001, 0x12346, 0x18, b"GET /\r\n\r\n");
    let reply = conn
        .handle_packet(&request, |_: &TcpConnection, _: &[u8]| -> Option<Cow<[u8]>> {
            Some(Cow::Owned(b"HTTP/1.0 200\r\n\r\n".to_vec()))
        })
        .unwrap();
    assert_eq!(reply.len(), 36);
    let alone = serialized(&reply);
    assert_eq!(&alone[16..18], &[0x83, 0xc1]);
    let bytes = serialized(&Ipv4Packet::new_tcp(server(), client(), reply));
    assert_eq!(bytes.len(), 56);
    assert_eq!(&bytes[20..24], &[0x00, 0x50, 0x9c, 0x40]);
    assert_eq!(&bytes[24..28], &[0x00, 0x01, 0x23, 0x46]);
    assert_eq!(&bytes[28..32], &[0x00, 0x00, 0x03, 0xf2]);
    assert_eq!(&bytes[32..34], &[0x50, 0x10]);
    assert_eq!(&bytes[34..36], &[0x03, 0xe8]);
    assert_eq!(&bytes[40..], b"HTTP/1.0 200\r\n\r\n");
    let mut summed = vec![10, 0, 0, 2, 10, 0, 0, 1, 0, 6, 0, 36];
    summed.extend_from_slice(&bytes[20..]);
    assert_eq!(data(&summed), 0xffff);
}

#[test]
fn borrowed_and_owned_payloads_write_the_same_bytes() {
    let bytes = [1u8, 2, 3];
    let borrowed: Cow<[u8]> = Cow::Borrowed(&bytes);
    let owned: Cow<[u8]> = Cow::Owned(bytes.to_vec());
    assert_eq!(WriteOut::len(&borrowed), 3);
    assert_eq!(WriteOut::len(&owned), 3);
    assert_eq!(serialized(&borrowed), vec![1, 2, 3]);
    assert_eq!(serialized(&owned), vec![1, 2, 3]);
}
