//! TCP segments and a passive TCP endpoint.

use crate::bits::{bit_at, bit_range, get_bit, get_bits, set_bit, with_bit};
use crate::ip_checksum::{sealed, write_checksum};
use crate::ipv4::Ipv4Address;
use crate::parse::{Parse, ParseError};
use crate::tx_packet::{lemma_split_appended, TxPacket};
use crate::wire::{be16, be16_bytes, be32, be32_bytes, read_u16, read_u32};
use crate::write_out::WriteOut;
use std::borrow::Cow;
use vstd::prelude::*;
use vstd::slice::slice_subrange;

verus! {

/// The length of a TCP header without options.
pub const TCP_HEADER_LEN: usize = 20;

/// The offset of the checksum in the TCP header.
pub const TCP_CHECKSUM_OFFSET: usize = 16;

/// No more data from the sender.
pub const FIN: u16 = 0x001;

/// Synchronize sequence numbers.
pub const SYN: u16 = 0x002;

/// Reset the connection.
pub const RST: u16 = 0x004;

/// Push the data to the application.
pub const PSH: u16 = 0x008;

/// The acknowledgment number is significant.
pub const ACK: u16 = 0x010;

/// The urgent pointer is significant.
pub const URG: u16 = 0x020;

/// Congestion was experienced on the path.
pub const ECE: u16 = 0x040;

/// The congestion window was reduced.
pub const CWR: u16 = 0x080;

/// The nonce sum.
pub const NS: u16 = 0x100;

/// The two bytes at offset 12 of a TCP header: the header length in 32-bit
/// words in the high four bits of the first, and nine flags in the lowest bit
/// of the first and all of the second.
#[derive(Debug, Clone, Copy, PartialEq, Eq)]
pub struct TcpOptions {
    pub header_len: u8,
    pub flags: u8,
}

impl TcpOptions {
    /// The header length in 32-bit words.
    pub open spec fn spec_header_len(&self) -> u8 {
        self.header_len / 16
    }

    /// The nine flags as one set: `NS` is bit 8, the others are the bits of
    /// the second byte.
    pub open spec fn spec_flags(&self) -> u16 {
        ((self.header_len % 2) * 0x100 + self.flags) as u16
    }

    /// A header of five words with no flag set.
    pub fn new() -> (options: Self)
        ensures
            options == (TcpOptions { header_len: 0x50, flags: 0 }),
    {
        assert(5u8 << 4 == 0x50u8) by (bit_vector);
        TcpOptions { header_len: 5 << 4, flags: 0 }
    }

    /// The two bytes as they were read.
    pub fn from_bytes(header_len: u8, flags: u8) -> (options: Self)
        ensures
            options == (TcpOptions { header_len, flags }),
    {
        TcpOptions { header_len, flags }
    }

    /// A header of five words with only `ACK` set.
    pub fn new_ack() -> (options: Self)
        ensures
            options == (TcpOptions { header_len: 0x50, flags: 0x10 }),
            options.spec_flags() == ACK,
    {
        let mut options = Self::new();
        options.set_ack(true);
        assert(with_bit(0, 4, true) == 0x10) by (bit_vector);
        options
    }

    /// A header of five words with `SYN` and `ACK` set.
    pub fn new_syn_ack() -> (options: Self)
        ensures
            options == (TcpOptions { header_len: 0x50, flags: 0x12 }),
            options.spec_flags() == SYN | ACK,
    {
        let mut options = Self::new();
        options.set_syn(true);
        options.set_ack(true);
        assert(with_bit(with_bit(0, 1, true), 4, true) == 0x12) by (bit_vector);
        assert(0x002u16 | 0x010u16 == 0x12u16) by (bit_vector);
        options
    }

    /// The header length in 32-bit words.
    pub fn header_len(&self) -> (words: u8)
        ensures
            words == self.spec_header_len(),
    {
        let value = self.header_len;
        assert(bit_range(value, 4, 8) == value / 16) by (bit_vector);
        get_bits(self.header_len, 4, 8)
    }

    /// The nine flags as one set.
    pub fn flags(&self) -> (flags: u16)
        ensures
            flags == self.spec_flags(),
    {
        let first = self.header_len;
        let second = self.flags;
        assert(bit_at(first, 0) == (first % 2 == 1)) by (bit_vector);
        assert(0x100u16 | (second as u16) == 0x100 + second) by (bit_vector);
        if self.ns() {
            NS | (self.flags as u16)
        } else {
            self.flags as u16
        }
    }

    /// Whether every flag of `mask` is set.
    pub fn contains(&self, mask: u16) -> (all: bool)
        ensures
            all == (self.spec_flags() & mask == mask),
    {
        self.flags() & mask == mask
    }

    /// Whether `NS` is set.
    pub fn ns(&self) -> (set: bool)
        ensures
            set == bit_at(self.header_len, 0),
    {
        get_bit(self.header_len, 0)
    }

    /// Whether `CWR` is set.
    pub fn cwr(&self) -> (set: bool)
        ensures
            set == bit_at(self.flags, 7),
    {
        get_bit(self.flags, 7)
    }

    /// Whether `ECE` is set.
    pub fn ece(&self) -> (set: bool)
        ensures
            set == bit_at(self.flags, 6),
    {
        get_bit(self.flags, 6)
    }

    /// Whether `URG` is set.
    pub fn urg(&self) -> (set: bool)
        ensures
            set == bit_at(self.flags, 5),
    {
        get_bit(self.flags, 5)
    }

    /// Whether `ACK` is set.
    pub fn ack(&self) -> (set: bool)
        ensures
            set == bit_at(self.flags, 4),
    {
        get_bit(self.flags, 4)
    }

    /// Sets or clears `ACK`.
    pub fn set_ack(&mut self, value: bool)
        ensures
            *final(self) == (TcpOptions {
                flags: with_bit(old(self).flags, 4, value),
                ..*old(self)
            }),
    {
        set_bit(&mut self.flags, 4, value);
    }

    /// Whether `PSH` is set.
    pub fn psh(&self) -> (set: bool)
        ensures
            set == bit_at(self.flags, 3),
    {
        get_bit(self.flags, 3)
    }

    /// Whether `RST` is set.
    pub fn rst(&self) -> (set: bool)
        ensures
            set == bit_at(self.flags, 2),
    {
        get_bit(self.flags, 2)
    }

    /// Whether `SYN` is set.
    pub fn syn(&self) -> (set: bool)
        ensures
            set == bit_at(self.flags, 1),
    {
        get_bit(self.flags, 1)
    }

    /// Sets or clears `SYN`.
    pub fn set_syn(&mut self, value: bool)
        ensures
            *final(self) == (TcpOptions {
                flags: with_bit(old(self).flags, 1, value),
                ..*old(self)
            }),
    {
        set_bit(&mut self.flags, 1, value);
    }

    /// Whether `FIN` is set.
    pub fn fin(&self) -> (set: bool)
        ensures
            set == bit_at(self.flags, 0),
    {
        get_bit(self.flags, 0)
    }

    /// Sets or clears `FIN`.
    pub fn set_fin(&mut self, value: bool)
        ensures
            *final(self) == (TcpOptions {
                flags: with_bit(old(self).flags, 0, value),
                ..*old(self)
            }),
    {
        set_bit(&mut self.flags, 0, value);
    }
}

/// Each single-flag test reads the bit of its flag in the flag set.
pub proof fn lemma_flag_tests(options: TcpOptions)
    ensures
        bit_at(options.header_len, 0) == (options.spec_flags() & NS != 0),
        bit_at(options.flags, 7) == (options.spec_flags() & CWR != 0),
        bit_at(options.flags, 6) == (options.spec_flags() & ECE != 0),
        bit_at(options.flags, 5) == (options.spec_flags() & URG != 0),
        bit_at(options.flags, 4) == (options.spec_flags() & ACK != 0),
        bit_at(options.flags, 3) == (options.spec_flags() & PSH != 0),
        bit_at(options.flags, 2) == (options.spec_flags() & RST != 0),
        bit_at(options.flags, 1) == (options.spec_flags() & SYN != 0),
        bit_at(options.flags, 0) == (options.spec_flags() & FIN != 0),
{
    let first = options.header_len;
    let second = options.flags;
    let all = options.spec_flags();
    assert(all == ((first % 2) as u16) << 8 | (second as u16)) by (bit_vector)
        requires
            all == ((first % 2) * 0x100 + second) as u16,
    ;
    assert(({
        let all = ((first % 2) as u16) << 8 | (second as u16);
        &&& bit_at(first, 0) == (all & 0x100 != 0)
        &&& bit_at(second, 7) == (all & 0x080 != 0)
        &&& bit_at(second, 6) == (all & 0x040 != 0)
        &&& bit_at(second, 5) == (all & 0x020 != 0)
        &&& bit_at(second, 4) == (all & 0x010 != 0)
        &&& bit_at(second, 3) == (all & 0x008 != 0)
        &&& bit_at(second, 2) == (all & 0x004 != 0)
        &&& bit_at(second, 1) == (all & 0x002 != 0)
        &&& bit_at(second, 0) == (all & 0x001 != 0)
    })) by (bit_vector);
}

/// The header of a TCP segment, as far as it varies.
#[derive(Debug, Clone, Copy, PartialEq, Eq)]
pub struct TcpHeader {
    pub src_port: u16,
    pub dst_port: u16,
    pub sequence_number: u32,
    pub ack_number: u32,
    pub options: TcpOptions,
    pub window_size: u16,
}

/// A TCP segment with a payload of type `T`.
#[derive(Debug, Clone, Copy, PartialEq, Eq)]
pub struct TcpPacket<T> {
    pub header: TcpHeader,
    pub payload: T,
}

/// The first of the two bytes at offset 12 as it is written: a header of
/// five words, and the low four bits as the segment holds them.
pub open spec fn written_header_len(header_len: u8) -> u8 {
    0x50u8 | (header_len & 0x0fu8)
}

/// The segment with a blank checksum field and no urgent pointer.
pub open spec fn tcp_blank(header: TcpHeader, payload: Seq<u8>) -> Seq<u8> {
    be16_bytes(header.src_port) + be16_bytes(header.dst_port) + be32_bytes(header.sequence_number)
        + be32_bytes(header.ack_number) + seq![
        written_header_len(header.options.header_len),
        header.options.flags,
    ] + be16_bytes(header.window_size) + be16_bytes(0) + be16_bytes(0) + payload
}

impl<T: WriteOut> WriteOut for TcpPacket<T> {
    open spec fn writable(&self) -> bool {
        self.payload.writable() && self.payload.wire().len() + TCP_HEADER_LEN <= usize::MAX
    }

    /// The segment with the checksum over its own bytes; the enclosing IPv4
    /// layer adds the pseudo-header.
    open spec fn wire(&self) -> Seq<u8> {
        sealed(tcp_blank(self.header, self.payload.wire()), TCP_CHECKSUM_OFFSET as int)
    }

    open spec fn open_checksum(&self) -> Option<int> {
        Some(TCP_CHECKSUM_OFFSET as int)
    }

    fn len(&self) -> (n: usize) {
        self.payload.len() + 6 * 2 + 2 * 4
    }

    fn write_out<P: TxPacket>(&self, packet: &mut P) -> (r: Result<(), ()>) {
        let ghost start = packet@;
        let ghost blank = tcp_blank(self.header, self.payload.wire());
        let start_index = packet.len();

        packet.push_u16(self.header.src_port)?;
        packet.push_u16(self.header.dst_port)?;
        packet.push_u32(self.header.sequence_number)?;
        packet.push_u32(self.header.ack_number)?;
        packet.push_byte(5 << 4 | self.header.options.header_len & 0x0f)?;
        packet.push_byte(self.header.options.flags)?;
        packet.push_u16(self.header.window_size)?;
        let checksum_idx = packet.push_u16(0)?;
        packet.push_u16(0)?;
        self.payload.write_out(packet)?;
        proof {
            let first = self.header.options.header_len;
            assert(5u8 << 4 | first & 0x0f == 0x50u8 | (first & 0x0fu8)) by (bit_vector);
            assert(packet@ =~= start + blank);
            lemma_split_appended(packet@, start, blank);
        }
        write_checksum(packet, start_index, checksum_idx);
        Ok(())
    }

    fn open_checksum_offset(&self) -> (offset: Option<usize>) {
        Some(TCP_CHECKSUM_OFFSET)
    }
}

/// The offset at which the payload of a received segment starts: the header
/// length that the segment states, in bytes.
pub open spec fn payload_offset(data: Seq<u8>) -> int {
    (data[12] / 16) * 4
}

/// What the header bytes of a received segment say.
pub open spec fn parsed_tcp_header(data: Seq<u8>) -> TcpHeader {
    TcpHeader {
        src_port: be16(data[0], data[1]),
        dst_port: be16(data[2], data[3]),
        sequence_number: be32(data[4], data[5], data[6], data[7]),
        ack_number: be32(data[8], data[9], data[10], data[11]),
        options: TcpOptions { header_len: data[12], flags: data[13] },
        window_size: be16(data[14], data[15]),
    }
}

/// Whether `result` is what reading `data` as a TCP segment gives. Options
/// in the header are skipped.
pub open spec fn tcp_parses_to<'a>(
    data: Seq<u8>,
    result: Result<TcpPacket<&'a [u8]>, ParseError>,
) -> bool {
    match result {
        Ok(packet) => {
            &&& data.len() >= TCP_HEADER_LEN
            &&& data.len() >= payload_offset(data)
            &&& packet.header == parsed_tcp_header(data)
            &&& packet.payload@ == data.skip(payload_offset(data))
        },
        Err(error) => {
            &&& data.len() < TCP_HEADER_LEN || data.len() < payload_offset(data)
            &&& error == ParseError::Truncated(data.len() as usize)
        },
    }
}

impl<'a> Parse<'a> for TcpPacket<&'a [u8]> {
    open spec fn parses_to(data: Seq<u8>, result: Result<Self, ParseError>) -> bool {
        tcp_parses_to(data, result)
    }

    fn parse(data: &'a [u8]) -> (result: Result<Self, ParseError>) {
        if data.len() < TCP_HEADER_LEN {
            return Err(ParseError::Truncated(data.len()));
        }
        let options = TcpOptions::from_bytes(data[12], data[13]);
        let header_len_bytes = options.header_len() as usize * 4;
        if data.len() < header_len_bytes {
            return Err(ParseError::Truncated(data.len()));
        }
        Ok(
            TcpPacket {
                header: TcpHeader {
                    src_port: read_u16(slice_subrange(data, 0, 2)),
                    dst_port: read_u16(slice_subrange(data, 2, 4)),
                    sequence_number: read_u32(slice_subrange(data, 4, 8)),
                    ack_number: read_u32(slice_subrange(data, 8, 12)),
                    options: options,
                    window_size: read_u16(slice_subrange(data, 14, 16)),
                },
                payload: slice_subrange(data, header_len_bytes, data.len()),
            },
        )
    }
}

/// What a TCP segment carries.
#[derive(Debug)]
pub enum TcpKind<'a> {
    Unknown(&'a [u8]),
}

/// Whether `result` is what reading `data` as a TCP segment and its payload
/// gives.
pub open spec fn tcp_tree_parses_to<'a>(
    data: Seq<u8>,
    result: Result<TcpPacket<TcpKind<'a>>, ParseError>,
) -> bool {
    match result {
        Ok(packet) => {
            &&& data.len() >= TCP_HEADER_LEN
            &&& data.len() >= payload_offset(data)
            &&& packet.header == parsed_tcp_header(data)
            &&& packet.payload matches TcpKind::Unknown(payload)
            &&& payload@ == data.skip(payload_offset(data))
        },
        Err(error) => {
            &&& data.len() < TCP_HEADER_LEN || data.len() < payload_offset(data)
            &&& error == ParseError::Truncated(data.len() as usize)
        },
    }
}

impl<'a> Parse<'a> for TcpPacket<TcpKind<'a>> {
    open spec fn parses_to(data: Seq<u8>, result: Result<Self, ParseError>) -> bool {
        tcp_tree_parses_to(data, result)
    }

    fn parse(data: &'a [u8]) -> (result: Result<Self, ParseError>) {
        let tcp: TcpPacket<&'a [u8]> = TcpPacket::parse(data)?;
        Ok(TcpPacket { header: tcp.header, payload: TcpKind::Unknown(tcp.payload) })
    }
}

/// The state of a TCP endpoint. Only `Closed`, `Listen`, `SynReceived`,
/// `Established` and `LastAck` are ever entered by the passive endpoint.
#[derive(Debug, PartialEq, Eq, Clone, Copy)]
pub enum TcpState {
    Closed,
    Listen,
    SynSent,
    SynReceived,
    Established,
    FinWait1,
    FinWait2,
    CloseWait,
    Closing,
    LastAck,
    TimeWait,
}

/// The sequence number with which every connection starts to send.
pub const INITIAL_SEQUENCE_NUMBER: u32 = 0x12345;

/// The window that every connection announces.
pub const WINDOW_SIZE: u16 = 1000;

/// What a connection holds: the four-tuple it is bound to, its state, the
/// next sequence number to send, the next sequence number expected from the
/// peer, and the window it announces.
pub struct Endpoint {
    pub src_ip: Ipv4Address,
    pub dst_ip: Ipv4Address,
    pub src_port: u16,
    pub dst_port: u16,
    pub state: TcpState,
    pub snd_seq: u32,
    pub rcv_ack: u32,
    pub window: u16,
}

/// One side of a TCP connection that only ever answers.
#[derive(Debug)]
pub struct TcpConnection {
    src_ip: Ipv4Address,
    dst_ip: Ipv4Address,
    src_port: u16,
    dst_port: u16,
    state: TcpState,
    sequence_number: u32,
    ack_number: u32,
    window_size: u16,
}

impl View for TcpConnection {
    type V = Endpoint;

    closed spec fn view(&self) -> Endpoint {
        Endpoint {
            src_ip: self.src_ip,
            dst_ip: self.dst_ip,
            src_port: self.src_port,
            dst_port: self.dst_port,
            state: self.state,
            snd_seq: self.sequence_number,
            rcv_ack: self.ack_number,
            window: self.window_size,
        }
    }
}

/// A sequence number advanced by `n`, modulo 2^32.
pub open spec fn seq_add(number: u32, n: nat) -> u32 {
    ((number + n) % 0x1_0000_0000) as u32
}

/// How an endpoint takes an arriving segment.
pub enum Arrival {
    /// The segment changes nothing and gets no answer.
    Dropped,
    /// A connection request: it is answered with `SYN` and `ACK`.
    Syn,
    /// The acknowledgment that completes the handshake.
    HandshakeAck,
    /// The acknowledgment of the endpoint's own `FIN`.
    LastAck,
    /// A bare acknowledgment in sequence: it is taken without an answer.
    BareAck,
    /// An in-sequence segment with `FIN`: it is answered with `ACK` and
    /// `FIN`.
    Fin,
    /// An in-sequence segment for the application.
    Data,
}

/// Whether a segment is ahead of what an established endpoint expects: data
/// before it is missing, and the endpoint has no way to go on.
pub open spec fn out_of_order(conn: Endpoint, header: TcpHeader) -> bool {
    conn.state == TcpState::Established && header.sequence_number > conn.rcv_ack
}

/// How `conn` takes a segment with the given header and payload length.
/// Outside the established state the flags must match exactly. An established
/// endpoint drops a segment that it has seen before; one that is ahead of its
/// turn must not be handed to it at all (see `out_of_order`).
pub open spec fn arrival(conn: Endpoint, header: TcpHeader, payload_len: nat) -> Arrival {
    let flags = header.options.spec_flags();
    match conn.state {
        TcpState::Listen => if flags == SYN {
            Arrival::Syn
        } else {
            Arrival::Dropped
        },
        TcpState::SynReceived => if flags == SYN {
            Arrival::Syn
        } else if flags == ACK {
            Arrival::HandshakeAck
        } else {
            Arrival::Dropped
        },
        TcpState::LastAck => if flags == ACK {
            Arrival::LastAck
        } else {
            Arrival::Dropped
        },
        TcpState::Established => if header.sequence_number != conn.rcv_ack {
            Arrival::Dropped
        } else if flags == ACK && payload_len == 0 {
            Arrival::BareAck
        } else if flags & FIN != 0 {
            Arrival::Fin
        } else {
            Arrival::Data
        },
        _ => Arrival::Dropped,
    }
}

/// The endpoint after it has taken a segment, before the application has
/// answered.
pub open spec fn after_receive(conn: Endpoint, header: TcpHeader, payload_len: nat) -> Endpoint {
    match arrival(conn, header, payload_len) {
        Arrival::Dropped | Arrival::BareAck => conn,
        Arrival::Syn => Endpoint {
            state: TcpState::SynReceived,
            rcv_ack: seq_add(header.sequence_number, 1),
            ..conn
        },
        Arrival::HandshakeAck => Endpoint {
            state: TcpState::Established,
            snd_seq: seq_add(conn.snd_seq, 1),
            ..conn
        },
        Arrival::LastAck => Endpoint { state: TcpState::Closed, ..conn },
        Arrival::Fin => Endpoint {
            state: TcpState::LastAck,
            snd_seq: seq_add(conn.snd_seq, 1),
            rcv_ack: seq_add(seq_add(conn.rcv_ack, payload_len), 1),
            ..conn
        },
        Arrival::Data => Endpoint { rcv_ack: seq_add(conn.rcv_ack, payload_len), ..conn },
    }
}

/// The header of a segment that `conn` sends with the given flags: the ports
/// swapped, the current sequence and acknowledgment numbers, the window.
pub open spec fn outgoing_header(conn: Endpoint, flags: u8) -> TcpHeader {
    TcpHeader {
        src_port: conn.dst_port,
        dst_port: conn.src_port,
        sequence_number: conn.snd_seq,
        ack_number: conn.rcv_ack,
        options: TcpOptions { header_len: 0x50, flags },
        window_size: conn.window,
    }
}

/// The header of the segment, without payload, with which the endpoint
/// answers a segment by itself.
pub open spec fn own_reply(conn: Endpoint, header: TcpHeader, payload_len: nat) -> Option<
    TcpHeader,
> {
    match arrival(conn, header, payload_len) {
        Arrival::Syn => Some(outgoing_header(after_receive(conn, header, payload_len), 0x12)),
        Arrival::Fin => Some(
            outgoing_header(
                Endpoint { snd_seq: conn.snd_seq, ..after_receive(conn, header, payload_len) },
                0x11,
            ),
        ),
        _ => None,
    }
}

/// The endpoint after it has sent `len` bytes of the application's answer.
pub open spec fn after_respond(conn: Endpoint, len: nat) -> Endpoint {
    Endpoint { snd_seq: seq_add(conn.snd_seq, len), ..conn }
}

/// What taking a segment asks of the caller.
#[derive(Debug)]
pub enum Received {
    /// Nothing is to be sent.
    Nothing,
    /// This segment is to be sent.
    Reply(TcpPacket<Cow<'static, [u8]>>),
    /// The payload is for the application; its answer goes to `respond`.
    Data,
}

/// Whether taking a segment leaves the endpoint as `after` and asks
/// `received` of the caller.
pub open spec fn taken_as(
    conn: Endpoint,
    header: TcpHeader,
    payload_len: nat,
    after: Endpoint,
    received: Received,
) -> bool {
    &&& after == after_receive(conn, header, payload_len)
    &&& match received {
        Received::Nothing => {
            &&& own_reply(conn, header, payload_len) is None
            &&& !(arrival(conn, header, payload_len) is Data)
        },
        Received::Reply(segment) => {
            &&& own_reply(conn, header, payload_len) == Some(segment.header)
            &&& segment.payload@ == Seq::<u8>::empty()
        },
        Received::Data => arrival(conn, header, payload_len) is Data,
    }
}

impl TcpConnection {
    /// A listening endpoint bound to the four-tuple (source address,
    /// destination address, source port, destination port) of the segments
    /// it will receive.
    pub fn new(id: (Ipv4Address, Ipv4Address, u16, u16)) -> (conn: TcpConnection)
        ensures
            conn@ == (Endpoint {
                src_ip: id.0,
                dst_ip: id.1,
                src_port: id.2,
                dst_port: id.3,
                state: TcpState::Listen,
                snd_seq: INITIAL_SEQUENCE_NUMBER,
                rcv_ack: 0,
                window: WINDOW_SIZE,
            }),
    {
        TcpConnection {
            src_ip: id.0,
            dst_ip: id.1,
            src_port: id.2,
            dst_port: id.3,
            state: TcpState::Listen,
            sequence_number: INITIAL_SEQUENCE_NUMBER,
            ack_number: 0,
            window_size: WINDOW_SIZE,
        }
    }

    /// The state of the connection.
    pub fn state(&self) -> (state: TcpState)
        ensures
            state == self@.state,
    {
        self.state
    }

    /// The next sequence number that the endpoint sends.
    pub fn sequence_number(&self) -> (number: u32)
        ensures
            number == self@.snd_seq,
    {
        self.sequence_number
    }

    /// The next sequence number that the endpoint expects from its peer.
    pub fn ack_number(&self) -> (number: u32)
        ensures
            number == self@.rcv_ack,
    {
        self.ack_number
    }

    /// The window that the endpoint announces.
    pub fn window_size(&self) -> (window: u16)
        ensures
            window == self@.window,
    {
        self.window_size
    }

    /// Whether `packet` is ahead of what the established endpoint expects.
    /// Such a segment must not be handed to the endpoint.
    pub fn is_out_of_order(&self, packet: &TcpPacket<&[u8]>) -> (ahead: bool)
        ensures
            ahead == out_of_order(self@, packet.header),
    {
        match self.state {
            TcpState::Established => packet.header.sequence_number > self.ack_number,
            _ => false,
        }
    }

    /// A segment without payload from this endpoint to its peer.
    fn outgoing(&self, options: TcpOptions) -> (segment: TcpPacket<Cow<'static, [u8]>>)
        requires
            options.header_len == 0x50,
        ensures
            segment.header == outgoing_header(self@, options.flags),
            segment.payload@ == Seq::<u8>::empty(),
    {
        TcpPacket {
            header: TcpHeader {
                src_port: self.dst_port,
                dst_port: self.src_port,
                sequence_number: self.sequence_number,
                ack_number: self.ack_number,
                window_size: self.window_size,
                options: options,
            },
            payload: no_payload(),
        }
    }

    /// Takes a segment while the connection waits for its handshake.
    fn receive_opening(&mut self, packet: &TcpPacket<&[u8]>) -> (received: Received)
        requires
            old(self)@.state is Listen || old(self)@.state is SynReceived,
        ensures
            taken_as(
                old(self)@,
                packet.header,
                packet.payload@.len(),
                final(self)@,
                received,
            ),
    {
        let flags = packet.header.options.flags();
        if flags == SYN {
            self.ack_number = advanced(packet.header.sequence_number, 1);
            self.state = TcpState::SynReceived;
            Received::Reply(self.outgoing(TcpOptions::new_syn_ack()))
        } else if flags == ACK && matches!(self.state, TcpState::SynReceived) {
            self.sequence_number = advanced(self.sequence_number, 1);
            self.state = TcpState::Established;
            Received::Nothing
        } else {
            Received::Nothing
        }
    }

    /// Takes a segment while the connection is established.
    fn receive_established(&mut self, packet: &TcpPacket<&[u8]>) -> (received: Received)
        requires
            old(self)@.state is Established,
        ensures
            taken_as(
                old(self)@,
                packet.header,
                packet.payload@.len(),
                final(self)@,
                received,
            ),
    {
        let flags = packet.header.options.flags();
        if packet.header.sequence_number != self.ack_number {
            return Received::Nothing;
        }
        if flags == ACK && packet.payload.len() == 0 {
            return Received::Nothing;
        }
        self.ack_number = advanced(self.ack_number, packet.payload.len());
        proof {
            lemma_flag_tests(packet.header.options);
        }
        if packet.header.options.fin() {
            self.ack_number = advanced(self.ack_number, 1);
            let mut options = TcpOptions::new_ack();
            options.set_fin(true);
            assert(with_bit(0x10, 0, true) == 0x11) by (bit_vector);
            let segment = self.outgoing(options);
            self.state = TcpState::LastAck;
            self.sequence_number = advanced(self.sequence_number, 1);
            Received::Reply(segment)
        } else {
            Received::Data
        }
    }

    /// Takes an arriving segment whose four-tuple is that of the connection:
    /// moves the state machine, and says what is to be done next.
    pub fn receive(&mut self, packet: &TcpPacket<&[u8]>) -> (received: Received)
        requires
            !out_of_order(old(self)@, packet.header),
        ensures
            taken_as(
                old(self)@,
                packet.header,
                packet.payload@.len(),
                final(self)@,
                received,
            ),
    {
        match self.state {
            TcpState::Listen | TcpState::SynReceived => self.receive_opening(packet),
            TcpState::Established => self.receive_established(packet),
            TcpState::LastAck => {
                if packet.header.options.flags() == ACK {
                    self.state = TcpState::Closed;
                }
                Received::Nothing
            },
            _ => Received::Nothing,
        }
    }

    /// Builds the segment that acknowledges delivered data and carries the
    /// application's answer, if there is one, and advances the sequence
    /// number past the answer.
    pub fn respond<'d>(&mut self, answer: Option<Cow<'d, [u8]>>) -> (segment: TcpPacket<
        Cow<'d, [u8]>,
    >)
        ensures
            segment.header == outgoing_header(old(self)@, 0x10),
            segment.payload@ == match answer {
                Some(bytes) => bytes@,
                None => Seq::<u8>::empty(),
            },
            final(self)@ == after_respond(old(self)@, segment.payload@.len()),
    {
        let header = self.outgoing(TcpOptions::new_ack()).header;
        match answer {
            Some(payload) => {
                self.sequence_number = advanced(self.sequence_number, payload_len(&payload));
                TcpPacket { header, payload }
            },
            None => TcpPacket { header, payload: no_payload() },
        }
    }

    /// Takes an arriving segment and, where it carries data for the
    /// application, hands the payload to `f` and sends what `f` answers.
    /// Returns the segment to send, if any.
    pub fn handle_packet<'a, F>(&mut self, packet: &'a TcpPacket<&[u8]>, mut f: F) -> (reply:
        Option<TcpPacket<Cow<'a, [u8]>>>) where
        for <'d>F: FnMut(&TcpConnection, &'d [u8]) -> Option<Cow<'d, [u8]>>,

        requires
            !out_of_order(old(self)@, packet.header),
            forall|conn: TcpConnection|
                conn@ == after_receive(old(self)@, packet.header, packet.payload@.len())
                    ==> f.requires((&conn, packet.payload)),
        ensures
            match arrival(old(self)@, packet.header, packet.payload@.len()) {
                Arrival::Data => exists|conn: TcpConnection, answer: Option<Cow<'a, [u8]>>|
                    {
                        &&& conn@ == after_receive(
                            old(self)@,
                            packet.header,
                            packet.payload@.len(),
                        )
                        &&& f.ensures((&conn, packet.payload), answer)
                        &&& reply matches Some(segment)
                        &&& segment.header == outgoing_header(conn@, 0x10)
                        &&& segment.payload@ == match answer {
                            Some(bytes) => bytes@,
                            None => Seq::<u8>::empty(),
                        }
                        &&& final(self)@ == after_respond(conn@, segment.payload@.len())
                    },
                _ => {
                    &&& final(self)@ == after_receive(
                        old(self)@,
                        packet.header,
                        packet.payload@.len(),
                    )
                    &&& match reply {
                        Some(segment) => {
                            &&& own_reply(old(self)@, packet.header, packet.payload@.len())
                                == Some(segment.header)
                            &&& segment.payload@ == Seq::<u8>::empty()
                        },
                        None => own_reply(old(self)@, packet.header, packet.payload@.len())
                            is None,
                    }
                },
            },
    {
        match self.receive(packet) {
            Received::Nothing => None,
            Received::Reply(segment) => Some(segment),
            Received::Data => {
                let answer = f(&*self, packet.payload);
                Some(self.respond(answer))
            },
        }
    }
}

/// A payload of no bytes, which needs no memory of its own.
fn no_payload() -> (payload: Cow<'static, [u8]>)
    ensures
        payload@ == Seq::<u8>::empty(),
{
    let nothing: &'static [u8] = &[];
    Cow::Borrowed(nothing)
}

/// The number of bytes in a payload.
fn payload_len(payload: &Cow<'_, [u8]>) -> (n: usize)
    ensures
        n == payload@.len(),
{
    match payload {
        Cow::Borrowed(bytes) => bytes.len(),
        Cow::Owned(bytes) => bytes.len(),
    }
}

/// A sequence number advanced by a length, modulo 2^32.
fn advanced(number: u32, by: usize) -> (next: u32)
    ensures
        next == seq_add(number, by as nat),
{
    assert((by & 0xffff_ffff) as u64 == (by as u64) % 0x1_0000_0000) by (bit_vector);
    let low: u32 = (by & 0xffff_ffff) as u32;
    proof {
        vstd::arithmetic::div_mod::lemma_add_mod_noop(
            number as int,
            by as int,
            0x1_0000_0000,
        );
        vstd::arithmetic::div_mod::lemma_add_mod_noop(
            number as int,
            low as int,
            0x1_0000_0000,
        );
        vstd::arithmetic::div_mod::lemma_mod_twice(by as int, 0x1_0000_0000);
    }
    number.wrapping_add(low)
}

/// One segment that arrives, with the length of what the application
/// answers should the segment be delivered to it.
pub struct Exchange {
    pub header: TcpHeader,
    pub payload_len: nat,
    pub answer_len: nat,
}

/// The endpoint after one exchange: the segment is taken and, where it was
/// delivered to the application, the answer is sent.
pub open spec fn step(conn: Endpoint, exchange: Exchange) -> Endpoint {
    let taken = after_receive(conn, exchange.header, exchange.payload_len);
    if arrival(conn, exchange.header, exchange.payload_len) is Data {
        after_respond(taken, exchange.answer_len)
    } else {
        taken
    }
}

/// The endpoint after a sequence of exchanges.
pub open spec fn run(conn: Endpoint, trace: Seq<Exchange>) -> Endpoint
    decreases trace.len(),
{
    if trace.len() == 0 {
        conn
    } else {
        step(run(conn, trace.drop_last()), trace.last())
    }
}

/// How the endpoint takes the last segment of a sequence of exchanges.
pub open spec fn last_arrival(conn: Endpoint, trace: Seq<Exchange>) -> Arrival
    recommends
        trace.len() > 0,
{
    arrival(run(conn, trace.drop_last()), trace.last().header, trace.last().payload_len)
}

/// How many segments of a sequence of exchanges the endpoint takes in the
/// given way.
pub open spec fn occurrences(conn: Endpoint, trace: Seq<Exchange>, kind: Arrival) -> nat
    decreases trace.len(),
{
    if trace.len() == 0 {
        0
    } else if last_arrival(conn, trace) == kind {
        occurrences(conn, trace.drop_last(), kind) + 1
    } else {
        occurrences(conn, trace.drop_last(), kind)
    }
}

/// How many bytes the endpoint sends for the application over a sequence of
/// exchanges.
pub open spec fn answered_bytes(conn: Endpoint, trace: Seq<Exchange>) -> nat
    decreases trace.len(),
{
    if trace.len() == 0 {
        0
    } else if last_arrival(conn, trace) is Data {
        answered_bytes(conn, trace.drop_last()) + trace.last().answer_len
    } else {
        answered_bytes(conn, trace.drop_last())
    }
}

/// Whether no segment of a sequence of exchanges is ahead of what the
/// endpoint expects when it arrives.
pub open spec fn in_order(conn: Endpoint, trace: Seq<Exchange>) -> bool
    decreases trace.len(),
{
    trace.len() == 0 || {
        &&& in_order(conn, trace.drop_last())
        &&& !out_of_order(run(conn, trace.drop_last()), trace.last().header)
    }
}

/// Advancing a sequence number twice is advancing it by the sum.
pub proof fn lemma_seq_add_twice(number: u32, a: nat, b: nat)
    ensures
        seq_add(seq_add(number, a), b) == seq_add(number, a + b),
        seq_add(number, 0) == number,
{
    vstd::arithmetic::div_mod::lemma_add_mod_noop((number + a) as int, b as int, 0x1_0000_0000);
    vstd::arithmetic::div_mod::lemma_mod_twice((number + a) as int, 0x1_0000_0000);
    vstd::arithmetic::div_mod::lemma_add_mod_noop(
        ((number + a) % 0x1_0000_0000) as int,
        b as int,
        0x1_0000_0000,
    );
}

/// Over any sequence of exchanges the sequence number only moves forward,
/// modulo 2^32: by one for every handshake that was completed, by one for
/// every `FIN` that was sent, and by the length of every answer that was
/// sent for the application.
pub proof fn lemma_sequence_number_advances(conn: Endpoint, trace: Seq<Exchange>)
    ensures
        run(conn, trace).snd_seq == seq_add(
            conn.snd_seq,
            occurrences(conn, trace, Arrival::HandshakeAck) + occurrences(
                conn,
                trace,
                Arrival::Fin,
            ) + answered_bytes(conn, trace),
        ),
    decreases trace.len(),
{
    if trace.len() == 0 {
        lemma_seq_add_twice(conn.snd_seq, 0, 0);
    } else {
        let before = trace.drop_last();
        lemma_sequence_number_advances(conn, before);
        let so_far = occurrences(conn, before, Arrival::HandshakeAck) + occurrences(
            conn,
            before,
            Arrival::Fin,
        ) + answered_bytes(conn, before);
        lemma_seq_add_twice(conn.snd_seq, so_far, 0);
        lemma_seq_add_twice(conn.snd_seq, so_far, 1);
        lemma_seq_add_twice(conn.snd_seq, so_far, trace.last().answer_len);
    }
}

/// Over a sequence of exchanges in which no segment arrives ahead of its
/// turn and every `SYN` that was answered had its handshake completed, the
/// sequence number is the one at the start plus the number of `SYN`s sent,
/// the number of `FIN`s sent and the number of bytes sent for the
/// application, modulo 2^32.
pub proof fn lemma_sequence_number_counts_what_was_sent(conn: Endpoint, trace: Seq<Exchange>)
    requires
        in_order(conn, trace),
        occurrences(conn, trace, Arrival::Syn) == occurrences(conn, trace, Arrival::HandshakeAck),
    ensures
        run(conn, trace).snd_seq == seq_add(
            conn.snd_seq,
            occurrences(conn, trace, Arrival::Syn) + occurrences(conn, trace, Arrival::Fin)
                + answered_bytes(conn, trace),
        ),
{
    lemma_sequence_number_advances(conn, trace);
}

} // verus!
