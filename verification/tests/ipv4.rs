use netproto::ip_checksum::data;
use netproto::ipv4::{IpProtocol, Ipv4Address, Ipv4Kind, Ipv4Packet};
use netproto::udp::{UdpKind, UdpPacket};
use netproto::write_out::Empty;
use netproto::{HeapTxPacket, Parse, ParseError, TxPacket, WriteOut};

fn serialized<T: WriteOut>(record: &T) -> Vec<u8> {
    let mut tx = HeapTxPacket::new(record.len());
    record.write_out(&mut tx).unwrap();
    assert_eq!(tx.len(), record.len());
    tx.as_slice().to_vec()
}

#[test]
fn protocol_maps_to_its_number_and_back() {
    assert_eq!(IpProtocol::Icmp.number(), 1);
    assert_eq!(IpProtocol::Tcp.number(), 6);
    assert_eq!(IpProtocol::Udp.number(), 17);
    assert_eq!(IpProtocol::Unknown(89).number(), 89);
    assert_eq!(IpProtocol::from_number(1), IpProtocol::Icmp);
    assert_eq!(IpProtocol::from_number(6), IpProtocol::Tcp);
    assert_eq!(IpProtocol::from_number(17), IpProtocol::Udp);
    assert_eq!(IpProtocol::from_number(89), IpProtocol::Unknown(89));
    for number in 0..=255u8 {
        assert_eq!(IpProtocol::from_number(number).number(), number);
    }
}

#[test]
fn ipv4_addresses_are_made_from_bytes() {
    let address = Ipv4Address::from_bytes(&[141, 52, 46, 162]);
    assert_eq!(address, Ipv4Address::new(141, 52, 46, 162));
    assert_eq!(address.as_bytes(), [141, 52, 46, 162]);
}

#[test]
fn address_text_is_decimal_with_dots() {
    assert_eq!(Ipv4Address::new(141, 52, 46, 162).to_string(), "141.52.46.162");
    assert_eq!(Ipv4Address::new(0, 0, 0, 0).to_string(), "0.0.0.0");
    assert_eq!(Ipv4Address::new(255, 10, 9, 100).to_string(), "255.10.9.100");
}

#[test]
fn header_holds_the_fixed_fields() {
    let payload: &[u8] = &[1, 2, 3, 4, 5];
    let packet = Ipv4Packet::new(
        Ipv4Address::new(10, 0, 0, 1),
        Ipv4Address::new(10, 0, 0, 2),
        IpProtocol::Unknown(253),
        payload,
    );
    assert_eq!(packet.header_len(), 20);
    assert_eq!(packet.len(), 25);
    let bytes = serialized(&packet);
    assert_eq!(bytes[0], 0x45);
    assert_eq!(bytes[1], 0x00);
    assert_eq!(&bytes[2..4], &[0, 25]);
    assert_eq!(&bytes[4..6], &[0, 0]);
    assert_eq!(&bytes[6..8], &[0x40, 0x00]);
    assert_eq!(bytes[8], 64);
    assert_eq!(bytes[9], 253);
    assert_eq!(&bytes[12..16], &[10, 0, 0, 1]);
    assert_eq!(&bytes[16..20], &[10, 0, 0, 2]);
    assert_eq!(&bytes[20..], payload);
}

#[test]
fn header_bytes_sum_to_all_ones() {
    for protocol in [IpProtocol::Icmp, IpProtocol::Udp, IpProtocol::Tcp, IpProtocol::Unknown(0)] {
        for len in [0usize, 1, 2, 255, 1480] {
            let payload = vec![0xa5u8; len];
            let packet = Ipv4Packet::new(
                Ipv4Address::new(192, 168, 1, 10),
                Ipv4Address::new(192, 168, 1, 20),
                protocol,
                payload,
            );
            let bytes = serialized(&packet);
            assert_eq!(data(&bytes[..20]), 0xffff);
        }
    }
}

#[test]
fn header_of_all_zero_addresses_sums_to_all_ones() {
    let packet = Ipv4Packet::new(
        Ipv4Address::new(0, 0, 0, 0),
        Ipv4Address::new(0, 0, 0, 0),
        IpProtocol::Unknown(0),
        Empty,
    );
    let bytes = serialized(&packet);
    assert_eq!(data(&bytes), 0xffff);
    assert_eq!(&bytes[10..12], &[0x3a, 0xeb]);
}

#[test]
fn raw_payload_is_written_unchanged_under_udp_protocol() {
    let payload: &[u8] = &[0x04, 0xd2, 0x16, 0x2e, 0x00, 0x0b, 0xd7, 0xff, b'h', b'i', b'!'];
    let packet = Ipv4Packet::new(
        Ipv4Address::new(192, 168, 1, 10),
        Ipv4Address::new(192, 168, 1, 20),
        IpProtocol::Udp,
        payload,
    );
    let bytes = serialized(&packet);
    assert_eq!(&bytes[20..], payload);
}

#[test]
fn ipv4_serialized_datagram_parses_to_its_fields() {
    let payload: &[u8] = &[9, 8, 7, 6];
    let packet = Ipv4Packet::new(
        Ipv4Address::new(1, 2, 3, 4),
        Ipv4Address::new(5, 6, 7, 8),
        IpProtocol::Icmp,
        payload,
    );
    let bytes = serialized(&packet);
    let parsed: Ipv4Packet<&[u8]> = Ipv4Packet::parse(&bytes).unwrap();
    assert_eq!(parsed.header, packet.header);
    assert_eq!(parsed.payload, payload);
}

#[test]
fn parser_does_not_look_at_the_checksum() {
    let mut bytes = vec![0u8; 24];
    bytes[9] = 17;
    bytes[12..16].copy_from_slice(&[1, 2, 3, 4]);
    bytes[16..20].copy_from_slice(&[5, 6, 7, 8]);
    bytes[20..].copy_from_slice(&[0xaa, 0xbb, 0xcc, 0xdd]);
    let parsed: Ipv4Packet<&[u8]> = Ipv4Packet::parse(&bytes).unwrap();
    assert_eq!(parsed.header.src_addr, Ipv4Address::new(1, 2, 3, 4));
    assert_eq!(parsed.header.dst_addr, Ipv4Address::new(5, 6, 7, 8));
    assert_eq!(parsed.header.protocol, IpProtocol::Udp);
    assert_eq!(parsed.payload, &[0xaa, 0xbb, 0xcc, 0xdd]);
}

#[test]
fn ipv4_short_datagram_is_truncated() {
    let bytes = [0u8; 19];
    let raw: Result<Ipv4Packet<&[u8]>, ParseError> = Ipv4Packet::parse(&bytes);
    assert_eq!(raw.err(), Some(ParseError::Truncated(19)));
    let tree: Result<Ipv4Packet<Ipv4Kind>, ParseError> = Ipv4Packet::parse(&bytes);
    assert_eq!(tree.err(), Some(ParseError::Truncated(19)));
    let empty: Result<Ipv4Packet<&[u8]>, ParseError> = Ipv4Packet::parse(&[]);
    assert_eq!(empty.err(), Some(ParseError::Truncated(0)));
}

#[test]
fn tree_parse_keeps_an_unknown_protocol_as_bytes() {
    let payload: &[u8] = &[1, 2, 3];
    let packet = Ipv4Packet::new(
        Ipv4Address::new(1, 2, 3, 4),
        Ipv4Address::new(5, 6, 7, 8),
        IpProtocol::Unknown(47),
        payload,
    );
    let bytes = serialized(&packet);
    let parsed: Ipv4Packet<Ipv4Kind> = Ipv4Packet::parse(&bytes).unwrap();
    match parsed.payload {
        Ipv4Kind::Unknown(number, rest) => {
            assert_eq!(number, 47);
            assert_eq!(rest, payload);
        }
        other => panic!("{:?}", other),
    }
}

#[test]
fn tree_parse_does_not_read_tcp() {
    let payload = vec![0u8; 20];
    let packet = Ipv4Packet::new(
        Ipv4Address::new(1, 2, 3, 4),
        Ipv4Address::new(5, 6, 7, 8),
        IpProtocol::Tcp,
        payload,
    );
    let bytes = serialized(&packet);
    let parsed: Result<Ipv4Packet<Ipv4Kind>, ParseError> = Ipv4Packet::parse(&bytes);
    assert!(matches!(parsed, Err(ParseError::Unimplemented(_))));
}

#[test]
fn tree_parse_reads_udp_under_ipv4() {
    let payload: &[u8] = b"hi!";
    let packet = Ipv4Packet::new_udp(
        Ipv4Address::new(192, 168, 1, 10),
        Ipv4Address::new(192, 168, 1, 20),
        UdpPacket::new(1234, 5678, payload),
    );
    let bytes = serialized(&packet);
    let parsed: Ipv4Packet<Ipv4Kind> = Ipv4Packet::parse(&bytes).unwrap();
    assert_eq!(parsed.header.protocol, IpProtocol::Udp);
    match parsed.payload {
        Ipv4Kind::Udp(udp) => {
            assert_eq!(udp.header.src_port, 1234);
            assert_eq!(udp.header.dst_port, 5678);
            assert!(matches!(udp.payload, UdpKind::Unknown(rest) if rest == payload));
        }
        other => panic!("{:?}", other),
    }
}

#[test]
fn tree_parse_hands_on_the_error_of_the_payload() {
    let payload: &[u8] = &[1, 2, 3];
    let packet = Ipv4Packet::new(
        Ipv4Address::new(1, 2, 3, 4),
        Ipv4Address::new(5, 6, 7, 8),
        IpProtocol::Udp,
        payload,
    );
    let bytes = serialized(&packet);
    let parsed: Result<Ipv4Packet<Ipv4Kind>, ParseError> = Ipv4Packet::parse(&bytes);
    assert_eq!(parsed.err(), Some(ParseError::Truncated(3)));
}
