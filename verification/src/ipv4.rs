//! IPv4 datagrams without options.

use crate::icmp::{echo_parses_to, IcmpPacket};
use crate::ip_checksum;
use crate::ip_checksum::{
    combine_sum, complement, data_sum, pseudo_header_bytes, pseudo_header_sum, sealed,
};
use crate::parse::{Parse, ParseError};
use crate::text::{decimal, format_decimal, push_str};
use crate::tx_packet::{patched, TxPacket};
use crate::tcp::{tcp_blank, TcpPacket};
use crate::udp::{udp_blank, udp_tree_parses_to, UdpKind, UdpPacket};
use crate::wire::{be16, be16_bytes};
use crate::write_out::WriteOut;
use vstd::prelude::*;
use vstd::slice::slice_subrange;

verus! {

/// The length of the IPv4 header, which never holds options.
pub const IPV4_HEADER_LEN: usize = 20;

/// An IPv4 address.
#[derive(Debug, Clone, Copy, PartialEq, Eq, PartialOrd, Ord)]
pub struct Ipv4Address(pub [u8; 4]);

impl View for Ipv4Address {
    type V = Seq<u8>;

    open spec fn view(&self) -> Seq<u8> {
        self.0@
    }
}

impl Ipv4Address {
    /// The address `a0.a1.a2.a3`.
    pub fn new(a0: u8, a1: u8, a2: u8, a3: u8) -> (address: Self)
        ensures
            address@ == seq![a0, a1, a2, a3],
    {
        let addr = [a0, a1, a2, a3];
        assert(addr@ =~= seq![a0, a1, a2, a3]);
        Ipv4Address(addr)
    }

    /// The address held in a slice of exactly four bytes.
    pub fn from_bytes(bytes: &[u8]) -> (address: Self)
        requires
            bytes@.len() == 4,
        ensures
            address@ == bytes@,
    {
        let inner = [bytes[0], bytes[1], bytes[2], bytes[3]];
        assert(inner@ =~= bytes@);
        Ipv4Address(inner)
    }

    /// The four bytes of the address.
    pub fn as_bytes(&self) -> (bytes: [u8; 4])
        ensures
            bytes@ == self@,
    {
        self.0
    }
}

/// The text form of an address: its four bytes in decimal, with dots between
/// them.
pub open spec fn ipv4_address_text(bytes: Seq<u8>) -> Seq<char> {
    decimal(bytes[0]) + seq!['.'] + decimal(bytes[1]) + seq!['.'] + decimal(bytes[2]) + seq!['.']
        + decimal(bytes[3])
}

impl Ipv4Address {
    /// The address as text, such as `141.52.46.162`.
    pub fn to_string(&self) -> (text: String)
        ensures
            text@ == ipv4_address_text(self@),
    {
        proof {
            reveal_strlit(".");
        }
        let mut text = format_decimal(self.0[0]);
        push_str(&mut text, ".");
        let second = format_decimal(self.0[1]);
        push_str(&mut text, second.as_str());
        push_str(&mut text, ".");
        let third = format_decimal(self.0[2]);
        push_str(&mut text, third.as_str());
        push_str(&mut text, ".");
        let fourth = format_decimal(self.0[3]);
        push_str(&mut text, fourth.as_str());
        assert(text@ =~= ipv4_address_text(self@));
        text
    }
}

/// Two addresses with the same bytes are the same address.
pub proof fn lemma_ipv4_address_by_bytes(a: Ipv4Address, b: Ipv4Address)
    requires
        a@ == b@,
    ensures
        a == b,
{
    assert(a.0 =~= b.0);
}

/// The protocol that an IPv4 datagram carries.
#[derive(Debug, Clone, Copy, PartialEq, Eq)]
pub enum IpProtocol {
    Icmp,
    Udp,
    Tcp,
    Unknown(u8),
}

impl IpProtocol {
    /// The protocol that a number on the wire stands for.
    pub open spec fn spec_from_number(number: u8) -> IpProtocol {
        if number == 1 {
            IpProtocol::Icmp
        } else if number == 6 {
            IpProtocol::Tcp
        } else if number == 17 {
            IpProtocol::Udp
        } else {
            IpProtocol::Unknown(number)
        }
    }

    /// The number that stands for the protocol on the wire.
    pub open spec fn spec_number(&self) -> u8 {
        match *self {
            IpProtocol::Icmp => 1,
            IpProtocol::Tcp => 6,
            IpProtocol::Udp => 17,
            IpProtocol::Unknown(number) => number,
        }
    }

    /// The protocol that a number on the wire stands for.
    pub fn from_number(number: u8) -> (protocol: IpProtocol)
        ensures
            protocol == Self::spec_from_number(number),
    {
        if number == 1 {
            IpProtocol::Icmp
        } else if number == 6 {
            IpProtocol::Tcp
        } else if number == 17 {
            IpProtocol::Udp
        } else {
            IpProtocol::Unknown(number)
        }
    }

    /// The number that stands for the protocol on the wire.
    pub fn number(&self) -> (number: u8)
        ensures
            number == self.spec_number(),
    {
        match *self {
            IpProtocol::Icmp => 1,
            IpProtocol::Tcp => 6,
            IpProtocol::Udp => 17,
            IpProtocol::Unknown(number) => number,
        }
    }
}

/// Every number maps to a protocol that maps back to it, and a protocol that
/// came from a number is restored from its own number.
pub proof fn lemma_ip_protocol_roundtrip(number: u8)
    ensures
        IpProtocol::spec_from_number(number).spec_number() == number,
        IpProtocol::spec_from_number(IpProtocol::spec_from_number(number).spec_number())
            == IpProtocol::spec_from_number(number),
{
}

/// The header of an IPv4 datagram, as far as it varies.
#[derive(Debug, Clone, Copy, PartialEq, Eq)]
pub struct Ipv4Header {
    pub src_addr: Ipv4Address,
    pub dst_addr: Ipv4Address,
    pub protocol: IpProtocol,
}

/// An IPv4 datagram with a payload of type `T`.
#[derive(Debug, Clone, Copy, PartialEq, Eq)]
pub struct Ipv4Packet<T> {
    pub header: Ipv4Header,
    pub payload: T,
}

/// The twenty header bytes with the given total length and checksum: version
/// 4, five header words, no service bits, identification zero, the
/// don't-fragment flag, a time to live of 64.
pub open spec fn ipv4_header_fields(header: Ipv4Header, total_len: u16, checksum: u16) -> Seq<u8> {
    seq![0x45u8, 0u8] + be16_bytes(total_len) + seq![
        0u8,
        0u8,
        0x40u8,
        0u8,
        64u8,
        header.protocol.spec_number(),
    ] + be16_bytes(checksum) + header.src_addr@ + header.dst_addr@
}

/// The twenty header bytes as they go on the wire, checksum included.
pub open spec fn ipv4_header_bytes(header: Ipv4Header, total_len: u16) -> Seq<u8> {
    ipv4_header_fields(
        header,
        total_len,
        complement(data_sum(ipv4_header_fields(header, total_len, 0))),
    )
}

/// The total length that the header states for a datagram with the given
/// payload.
pub open spec fn ipv4_total_len(payload: Seq<u8>) -> u16 {
    (IPV4_HEADER_LEN + payload.len()) as u16
}

/// A transport segment whose checksum at offset `at` has been completed with
/// the pseudo-header sum of the datagram that carries it.
pub open spec fn with_pseudo_header(header: Ipv4Header, segment: Seq<u8>, at: int) -> Seq<u8> {
    let own = be16(segment[at], segment[at + 1]);
    let pseudo = complement(
        pseudo_header_sum(
            header.src_addr,
            header.dst_addr,
            header.protocol,
            segment.len() as u16,
        ),
    );
    patched(segment, at, be16_bytes(combine_sum(seq![own, pseudo])))
}

/// The bytes that follow the header: the payload, with its checksum
/// completed where it has one that waits for the pseudo-header.
pub open spec fn ipv4_body(header: Ipv4Header, payload: Seq<u8>, open: Option<int>) -> Seq<u8> {
    match open {
        Some(at) => with_pseudo_header(header, payload, at),
        None => payload,
    }
}

impl<T> Ipv4Packet<UdpPacket<T>> {
    /// The datagram that `new_udp` builds.
    pub open spec fn spec_new_udp(
        src_addr: Ipv4Address,
        dst_addr: Ipv4Address,
        udp: UdpPacket<T>,
    ) -> Self {
        Ipv4Packet {
            header: Ipv4Header { src_addr, dst_addr, protocol: IpProtocol::Udp },
            payload: udp,
        }
    }

    /// A datagram that carries a UDP datagram.
    pub fn new_udp(src_addr: Ipv4Address, dst_addr: Ipv4Address, udp: UdpPacket<T>) -> (packet:
        Self)
        ensures
            packet == Self::spec_new_udp(src_addr, dst_addr, udp),
    {
        Ipv4Packet {
            header: Ipv4Header {
                src_addr: src_addr,
                dst_addr: dst_addr,
                protocol: IpProtocol::Udp,
            },
            payload: udp,
        }
    }
}

impl<T> Ipv4Packet<IcmpPacket<T>> {
    /// A datagram that carries an ICMP message.
    pub fn new_icmp(src_addr: Ipv4Address, dst_addr: Ipv4Address, icmp: IcmpPacket<T>) -> (packet:
        Self)
        ensures
            packet.header == (Ipv4Header { src_addr, dst_addr, protocol: IpProtocol::Icmp }),
            packet.payload == icmp,
    {
        Ipv4Packet {
            header: Ipv4Header {
                src_addr: src_addr,
                dst_addr: dst_addr,
                protocol: IpProtocol::Icmp,
            },
            payload: icmp,
        }
    }
}

impl<T> Ipv4Packet<TcpPacket<T>> {
    /// A datagram that carries a TCP segment.
    pub fn new_tcp(src_addr: Ipv4Address, dst_addr: Ipv4Address, tcp: TcpPacket<T>) -> (packet:
        Self)
        ensures
            packet.header == (Ipv4Header { src_addr, dst_addr, protocol: IpProtocol::Tcp }),
            packet.payload == tcp,
    {
        Ipv4Packet {
            header: Ipv4Header {
                src_addr: src_addr,
                dst_addr: dst_addr,
                protocol: IpProtocol::Tcp,
            },
            payload: tcp,
        }
    }
}

impl<T> Ipv4Packet<T> {
    /// A datagram that carries `payload` under the given protocol number.
    pub fn new(
        src_addr: Ipv4Address,
        dst_addr: Ipv4Address,
        protocol: IpProtocol,
        payload: T,
    ) -> (packet: Self)
        ensures
            packet.header == (Ipv4Header { src_addr, dst_addr, protocol }),
            packet.payload == payload,
    {
        Ipv4Packet { header: Ipv4Header { src_addr, dst_addr, protocol }, payload }
    }

    /// The length of the header in bytes.
    pub fn header_len(&self) -> (n: u8)
        ensures
            n == IPV4_HEADER_LEN,
    {
        20
    }
}

/// The header on the wire is the blank header with its checksum field
/// filled in.
pub proof fn lemma_ipv4_header_is_patched(header: Ipv4Header, total_len: u16)
    ensures
        ipv4_header_fields(header, total_len, 0).len() == IPV4_HEADER_LEN,
        be16(
            ipv4_header_fields(header, total_len, 0)[10],
            ipv4_header_fields(header, total_len, 0)[11],
        ) == 0,
        ipv4_header_bytes(header, total_len) == patched(
            ipv4_header_fields(header, total_len, 0),
            10,
            be16_bytes(complement(data_sum(ipv4_header_fields(header, total_len, 0)))),
        ),
{
    let blank = ipv4_header_fields(header, total_len, 0);
    assert(be16_bytes(0) =~= seq![0u8, 0u8]);
    assert(ipv4_header_bytes(header, total_len) =~= patched(
        blank,
        10,
        be16_bytes(complement(data_sum(blank))),
    ));
}

impl<T: WriteOut> Ipv4Packet<T> {
    /// Appends the header with a blank checksum field.
    fn write_out_impl<P: TxPacket>(&self, packet: &mut P, total_len: u16) -> (r: Result<(), ()>)
        ensures
            final(packet).capacity() == old(packet).capacity(),
            r is Ok <==> old(packet)@.len() + IPV4_HEADER_LEN <= old(packet).capacity(),
            r is Ok ==> final(packet)@ == old(packet)@ + ipv4_header_fields(
                self.header,
                total_len,
                0,
            ),
            r is Err ==> old(packet)@.is_prefix_of(final(packet)@),
    {
        let ghost start = packet@;
        packet.push_byte(4 << 4 | self.header_len() / 4)?;
        packet.push_byte(0)?;
        packet.push_u16(total_len)?;
        packet.push_u16(0)?;
        packet.push_u16(1 << 14)?;
        packet.push_byte(64)?;
        packet.push_byte(self.header.protocol.number())?;
        packet.push_u16(0)?;
        let src = self.header.src_addr.as_bytes();
        packet.push_bytes(src.as_slice())?;
        let dst = self.header.dst_addr.as_bytes();
        packet.push_bytes(dst.as_slice())?;
        proof {
            assert(4u8 << 4 | 20u8 / 4 == 0x45u8) by (bit_vector);
            assert(1u16 << 14 == 0x4000u16) by (bit_vector);
            assert(be16_bytes(0x4000) =~= seq![0x40u8, 0u8]);
            assert(be16_bytes(0) =~= seq![0u8, 0u8]);
            assert(packet@ =~= start + ipv4_header_fields(self.header, total_len, 0));
        }
        Ok(())
    }

    /// Completes the payload's checksum, where it waits for the
    /// pseudo-header, in the bytes that start at `payload_start`.
    fn complete_payload_checksum<P: TxPacket>(
        &self,
        packet: &mut P,
        payload_start: usize,
        payload_len: usize,
    )
        requires
            self.writable(),
            payload_len == self.payload.wire().len(),
            payload_start + payload_len == old(packet)@.len(),
            old(packet)@.skip(payload_start as int) == self.payload.wire(),
        ensures
            final(packet).capacity() == old(packet).capacity(),
            final(packet)@ == old(packet)@.take(payload_start as int) + ipv4_body(
                self.header,
                self.payload.wire(),
                self.payload.open_checksum(),
            ),
    {
        let ghost before = packet@.take(payload_start as int);
        let ghost segment = self.payload.wire();
        let end = packet.len();
        assert(packet@ =~= before + segment + Seq::<u8>::empty());
        match self.payload.open_checksum_offset() {
            Some(at) => {
                let sum = ip_checksum::pseudo_header(
                    &self.header.src_addr,
                    &self.header.dst_addr,
                    self.header.protocol,
                    payload_len,
                );
                let pseudo = !sum;
                assert(pseudo == complement(sum)) by (bit_vector)
                    requires
                        pseudo == !sum,
                ;
                let fold = |checksum: u16| -> (folded: u16)
                    ensures
                        folded == combine_sum(seq![checksum, pseudo]),
                    {
                        let both = [checksum, pseudo];
                        assert(both@ =~= seq![checksum, pseudo]);
                        ip_checksum::combine(both.as_slice())
                    };
                let ghost own = be16(segment[at as int], segment[at + 1]);
                let ghost patch = be16_bytes(combine_sum(seq![own, pseudo]));
                proof {
                    crate::tx_packet::lemma_patched_middle(
                        before,
                        segment,
                        Seq::<u8>::empty(),
                        at as int,
                        patch,
                    );
                }
                packet.update_u16(payload_start + at, fold);
                assert(packet@ =~= before + with_pseudo_header(self.header, segment, at as int));
            },
            None => {},
        }
    }
}

impl<T: WriteOut> WriteOut for Ipv4Packet<T> {
    open spec fn writable(&self) -> bool {
        self.payload.writable() && self.payload.wire().len() + IPV4_HEADER_LEN <= 0xffff
    }

    open spec fn wire(&self) -> Seq<u8> {
        ipv4_header_bytes(self.header, ipv4_total_len(self.payload.wire())) + ipv4_body(
            self.header,
            self.payload.wire(),
            self.payload.open_checksum(),
        )
    }

    open spec fn open_checksum(&self) -> Option<int> {
        None
    }

    fn len(&self) -> (n: usize) {
        self.payload.len() + self.header_len() as usize
    }

    fn write_out<P: TxPacket>(&self, packet: &mut P) -> (r: Result<(), ()>) {
        let ghost start = packet@;
        let start_index = packet.len();
        let payload_len = self.payload.len();
        let total_len: u16 = (payload_len + self.header_len() as usize) as u16;
        let ghost blank = ipv4_header_fields(self.header, total_len, 0);
        let ghost body = ipv4_body(self.header, self.payload.wire(), self.payload.open_checksum());

        self.write_out_impl(packet, total_len)?;
        let payload_start = packet.len();
        self.payload.write_out(packet)?;
        assert(packet@.skip(payload_start as int) =~= self.payload.wire());
        assert(packet@.take(payload_start as int) =~= start + blank);
        self.complete_payload_checksum(packet, payload_start, payload_len);
        assert(body.len() == self.payload.wire().len());

        proof {
            lemma_ipv4_header_is_patched(self.header, total_len);
            assert(packet@.subrange(start_index as int, start_index + 20) =~= blank);
        }
        let sum = ip_checksum::data(packet.get_bytes(start_index, 20));
        let checksum = !sum;
        assert(checksum == complement(sum)) by (bit_vector)
            requires
                checksum == !sum,
        ;
        proof {
            crate::tx_packet::lemma_patched_middle(start, blank, body, 10, be16_bytes(checksum));
        }
        packet.set_u16(start_index + 10, checksum);
        Ok(())
    }

    fn open_checksum_offset(&self) -> (offset: Option<usize>) {
        None
    }
}

/// Whether `result` is what reading `data` as an IPv4 datagram gives. The
/// header checksum is not looked at.
pub open spec fn ipv4_parses_to<'a>(
    data: Seq<u8>,
    result: Result<Ipv4Packet<&'a [u8]>, ParseError>,
) -> bool {
    match result {
        Ok(packet) => {
            &&& data.len() >= IPV4_HEADER_LEN
            &&& packet.header.src_addr@ == data.subrange(12, 16)
            &&& packet.header.dst_addr@ == data.subrange(16, 20)
            &&& packet.header.protocol == IpProtocol::spec_from_number(data[9])
            &&& packet.payload@ == data.skip(IPV4_HEADER_LEN as int)
        },
        Err(error) => data.len() < IPV4_HEADER_LEN && error == ParseError::Truncated(
            data.len() as usize,
        ),
    }
}

impl<'a> Parse<'a> for Ipv4Packet<&'a [u8]> {
    open spec fn parses_to(data: Seq<u8>, result: Result<Self, ParseError>) -> bool {
        ipv4_parses_to(data, result)
    }

    fn parse(data: &'a [u8]) -> (result: Result<Self, ParseError>) {
        if data.len() < IPV4_HEADER_LEN {
            return Err(ParseError::Truncated(data.len()));
        }
        Ok(
            Ipv4Packet {
                header: Ipv4Header {
                    src_addr: Ipv4Address::from_bytes(slice_subrange(data, 12, 16)),
                    dst_addr: Ipv4Address::from_bytes(slice_subrange(data, 16, 20)),
                    protocol: IpProtocol::from_number(data[9]),
                },
                payload: slice_subrange(data, IPV4_HEADER_LEN, data.len()),
            },
        )
    }
}

/// What an IPv4 datagram carries.
#[derive(Debug)]
pub enum Ipv4Kind<'a> {
    Udp(UdpPacket<UdpKind<'a>>),
    Icmp(IcmpPacket<&'a [u8]>),
    Unknown(u8, &'a [u8]),
}

/// Whether `result` is what reading `data` as an IPv4 datagram and its
/// payload gives. UDP and ICMP payloads are read as such, and an error in
/// them is the error of the datagram; a TCP payload is not read; any other
/// payload is kept as bytes with its protocol number.
pub open spec fn ipv4_tree_parses_to<'a>(
    data: Seq<u8>,
    result: Result<Ipv4Packet<Ipv4Kind<'a>>, ParseError>,
) -> bool {
    let payload = data.skip(20);
    match result {
        Ok(packet) => {
            &&& data.len() >= IPV4_HEADER_LEN
            &&& packet.header.src_addr@ == data.subrange(12, 16)
            &&& packet.header.dst_addr@ == data.subrange(16, 20)
            &&& packet.header.protocol == IpProtocol::spec_from_number(data[9])
            &&& match packet.payload {
                Ipv4Kind::Udp(udp) => packet.header.protocol is Udp && udp_tree_parses_to(
                    payload,
                    Ok(udp),
                ),
                Ipv4Kind::Icmp(message) => packet.header.protocol is Icmp && echo_parses_to(
                    payload,
                    Ok(message),
                ),
                Ipv4Kind::Unknown(number, bytes) => {
                    &&& packet.header.protocol == IpProtocol::Unknown(number)
                    &&& bytes@ == payload
                },
            }
        },
        Err(error) => if data.len() < IPV4_HEADER_LEN {
            error matches ParseError::Truncated(len) && len == data.len()
        } else {
            match IpProtocol::spec_from_number(data[9]) {
                IpProtocol::Udp => udp_tree_parses_to(payload, Err(error)),
                IpProtocol::Icmp => echo_parses_to(payload, Err(error)),
                IpProtocol::Tcp => error == ParseError::Unimplemented(
                    "unimplemented ip protocol",
                ),
                IpProtocol::Unknown(_) => false,
            }
        },
    }
}

impl<'a> Parse<'a> for Ipv4Packet<Ipv4Kind<'a>> {
    open spec fn parses_to(data: Seq<u8>, result: Result<Self, ParseError>) -> bool {
        ipv4_tree_parses_to(data, result)
    }

    fn parse(data: &'a [u8]) -> (result: Result<Self, ParseError>) {
        let ip: Ipv4Packet<&'a [u8]> = Ipv4Packet::parse(data)?;
        match ip.header.protocol {
            IpProtocol::Udp => {
                let udp: UdpPacket<UdpKind<'a>> = UdpPacket::parse(ip.payload)?;
                Ok(Ipv4Packet { header: ip.header, payload: Ipv4Kind::Udp(udp) })
            },
            IpProtocol::Icmp => {
                let icmp: IcmpPacket<&'a [u8]> = IcmpPacket::parse(ip.payload)?;
                Ok(Ipv4Packet { header: ip.header, payload: Ipv4Kind::Icmp(icmp) })
            },
            IpProtocol::Unknown(number) => {
                Ok(Ipv4Packet { header: ip.header, payload: Ipv4Kind::Unknown(number, ip.payload) })
            },
            IpProtocol::Tcp => Err(ParseError::Unimplemented("unimplemented ip protocol")),
        }
    }
}

/// The one's-complement sum of the twenty header bytes of a serialized
/// datagram is `0xffff`.
pub proof fn lemma_ipv4_header_checksum<T: WriteOut>(packet: Ipv4Packet<T>)
    requires
        packet.writable(),
    ensures
        packet.wire().len() >= IPV4_HEADER_LEN,
        data_sum(packet.wire().subrange(0, IPV4_HEADER_LEN as int)) == 0xffff,
{
    let total_len = (IPV4_HEADER_LEN + packet.payload.wire().len()) as u16;
    let blank = ipv4_header_fields(packet.header, total_len, 0);
    lemma_ipv4_header_is_patched(packet.header, total_len);
    assert(packet.wire().subrange(0, IPV4_HEADER_LEN as int) =~= ipv4_header_bytes(
        packet.header,
        total_len,
    ));
    ip_checksum::lemma_checksum_completes(blank, 10);
}

/// Where the payload of a datagram is a segment that carries the complement
/// of its own sum at `at` and leaves that checksum open, the bytes after
/// the IPv4 header add up, together with the pseudo-header, to `0xffff`.
pub proof fn lemma_transport_checksum<T: WriteOut>(packet: Ipv4Packet<T>, blank: Seq<u8>, at: int)
    requires
        packet.writable(),
        packet.header.protocol.spec_number() != 0,
        packet.payload.open_checksum() == Some(at),
        packet.payload.wire() == sealed(blank, at),
        0 <= at,
        at % 2 == 0,
        at + 2 <= blank.len(),
        be16(blank[at], blank[at + 1]) == 0,
    ensures
        packet.wire().len() == IPV4_HEADER_LEN + blank.len(),
        data_sum(
            pseudo_header_bytes(
                packet.header.src_addr,
                packet.header.dst_addr,
                packet.header.protocol,
                blank.len() as u16,
            ) + packet.wire().skip(IPV4_HEADER_LEN as int),
        ) == 0xffff,
{
    let header = packet.header;
    let segment = packet.payload.wire();
    let total_len = (IPV4_HEADER_LEN + segment.len()) as u16;
    let pseudo = pseudo_header_bytes(
        header.src_addr,
        header.dst_addr,
        header.protocol,
        blank.len() as u16,
    );
    let own = complement(data_sum(blank));
    let both = combine_sum(seq![own, complement(data_sum(pseudo))]);
    lemma_ipv4_header_is_patched(header, total_len);
    assert(packet.wire().skip(IPV4_HEADER_LEN as int) =~= with_pseudo_header(header, segment, at));
    crate::wire::lemma_be_roundtrip(own, 0);
    assert(be16(segment[at], segment[at + 1]) == own);
    assert(with_pseudo_header(header, segment, at) =~= patched(blank, at, be16_bytes(both)));
    ip_checksum::lemma_pseudo_header_words(
        header.src_addr,
        header.dst_addr,
        header.protocol,
        blank.len() as u16,
    );
    ip_checksum::lemma_pseudo_checksum_completes(pseudo, blank, at);
}

/// In a serialized datagram that carries UDP, the pseudo-header and the UDP
/// bytes together add up to `0xffff`.
pub proof fn lemma_udp_checksum<T: WriteOut>(packet: Ipv4Packet<UdpPacket<T>>)
    requires
        packet.writable(),
        packet.header.protocol == IpProtocol::Udp,
    ensures
        data_sum(
            pseudo_header_bytes(
                packet.header.src_addr,
                packet.header.dst_addr,
                IpProtocol::Udp,
                (packet.wire().len() - IPV4_HEADER_LEN) as u16,
            ) + packet.wire().skip(IPV4_HEADER_LEN as int),
        ) == 0xffff,
{
    let blank = udp_blank(packet.payload.header, packet.payload.payload.wire());
    assert(be16_bytes(0) =~= seq![0u8, 0u8]);
    lemma_transport_checksum(packet, blank, 6);
}

/// In a serialized datagram that carries TCP, the pseudo-header and the TCP
/// bytes together add up to `0xffff`.
pub proof fn lemma_tcp_checksum<T: WriteOut>(packet: Ipv4Packet<TcpPacket<T>>)
    requires
        packet.writable(),
        packet.header.protocol == IpProtocol::Tcp,
    ensures
        data_sum(
            pseudo_header_bytes(
                packet.header.src_addr,
                packet.header.dst_addr,
                IpProtocol::Tcp,
                (packet.wire().len() - IPV4_HEADER_LEN) as u16,
            ) + packet.wire().skip(IPV4_HEADER_LEN as int),
        ) == 0xffff,
{
    let blank = tcp_blank(packet.payload.header, packet.payload.payload.wire());
    assert(be16_bytes(0) =~= seq![0u8, 0u8]);
    lemma_transport_checksum(packet, blank, 16);
}

/// Reading back a serialized datagram gives the header of the datagram and
/// the bytes that follow the header. The protocol of the datagram must be
/// the one that its own number stands for.
pub proof fn lemma_ipv4_roundtrip<'a, T: WriteOut>(
    packet: Ipv4Packet<T>,
    result: Result<Ipv4Packet<&'a [u8]>, ParseError>,
)
    requires
        packet.writable(),
        packet.header.protocol == IpProtocol::spec_from_number(
            packet.header.protocol.spec_number(),
        ),
        ipv4_parses_to(packet.wire(), result),
    ensures
        result matches Ok(parsed) && parsed.header == packet.header && parsed.payload@
            == ipv4_body(packet.header, packet.payload.wire(), packet.payload.open_checksum()),
{
    let wire = packet.wire();
    let total_len = (IPV4_HEADER_LEN + packet.payload.wire().len()) as u16;
    let body = ipv4_body(packet.header, packet.payload.wire(), packet.payload.open_checksum());
    lemma_ipv4_header_is_patched(packet.header, total_len);
    let parsed = result->Ok_0;
    assert(wire.subrange(12, 16) =~= packet.header.src_addr@);
    assert(wire.subrange(16, 20) =~= packet.header.dst_addr@);
    assert(wire.skip(IPV4_HEADER_LEN as int) =~= body);
    lemma_ipv4_address_by_bytes(parsed.header.src_addr, packet.header.src_addr);
    lemma_ipv4_address_by_bytes(parsed.header.dst_addr, packet.header.dst_addr);
}

} // verus!
