//! Ethernet II frames.

use crate::arp::{arp_parses_to, ArpPacket};
use crate::ipv4::{ipv4_tree_parses_to, Ipv4Kind, Ipv4Packet};
use crate::parse::{Parse, ParseError};
use crate::text::{format_hex_pair, hex_pair, push_str};
use crate::tx_packet::TxPacket;
use crate::wire::{be16, be16_bytes, read_u16};
use crate::write_out::WriteOut;
use vstd::prelude::*;
use vstd::slice::slice_subrange;

verus! {

/// The shortest frame that the parser accepts.
pub const MIN_FRAME_LEN: usize = 60;

/// The length of the Ethernet header.
pub const ETHERNET_HEADER_LEN: usize = 14;

/// A MAC address.
#[derive(Debug, Clone, Copy, PartialEq, Eq)]
pub struct EthernetAddress(pub [u8; 6]);

impl View for EthernetAddress {
    type V = Seq<u8>;

    open spec fn view(&self) -> Seq<u8> {
        self.0@
    }
}

impl EthernetAddress {
    /// The address with the given six bytes.
    pub fn new(addr: [u8; 6]) -> (address: Self)
        ensures
            address@ == addr@,
    {
        EthernetAddress(addr)
    }

    /// The address held in a slice of exactly six bytes.
    pub fn from_bytes(bytes: &[u8]) -> (address: Self)
        requires
            bytes@.len() == 6,
        ensures
            address@ == bytes@,
    {
        let addr = [bytes[0], bytes[1], bytes[2], bytes[3], bytes[4], bytes[5]];
        assert(addr@ =~= bytes@);
        EthernetAddress::new(addr)
    }

    /// The address to which every station listens.
    pub fn broadcast() -> (address: Self)
        ensures
            address@ == seq![0xffu8, 0xffu8, 0xffu8, 0xffu8, 0xffu8, 0xffu8],
    {
        let addr = [0xffu8, 0xffu8, 0xffu8, 0xffu8, 0xffu8, 0xffu8];
        assert(addr@ =~= seq![0xffu8, 0xffu8, 0xffu8, 0xffu8, 0xffu8, 0xffu8]);
        Self::new(addr)
    }

    /// The six bytes of the address.
    pub fn as_bytes(&self) -> (bytes: [u8; 6])
        ensures
            bytes@ == self@,
    {
        self.0
    }
}

/// The text form of an address: its six bytes as two hexadecimal digits
/// each, with colons between them.
pub open spec fn ethernet_address_text(bytes: Seq<u8>) -> Seq<char> {
    hex_pair(bytes[0]) + seq![':'] + hex_pair(bytes[1]) + seq![':'] + hex_pair(bytes[2]) + seq![
        ':',
    ] + hex_pair(bytes[3]) + seq![':'] + hex_pair(bytes[4]) + seq![':'] + hex_pair(bytes[5])
}

impl EthernetAddress {
    /// The address as text, such as `00:08:dc:ab:cd:ef`.
    pub fn to_string(&self) -> (text: String)
        ensures
            text@ == ethernet_address_text(self@),
    {
        proof {
            reveal_strlit(":");
        }
        let mut text = format_hex_pair(self.0[0]);
        let mut i: usize = 1;
        while i < 6
            invariant
                1 <= i <= 6,
                ":"@ == seq![':'],
                text@ == ethernet_address_text(self@).take(3 * i - 1),
            decreases 6 - i,
        {
            let ghost before = text@;
            push_str(&mut text, ":");
            let pair = format_hex_pair(self.0[i]);
            push_str(&mut text, pair.as_str());
            assert(text@ =~= before + seq![':'] + hex_pair(self@[i as int]));
            assert(text@ =~= ethernet_address_text(self@).take(3 * (i + 1) - 1));
            i += 1;
        }
        assert(ethernet_address_text(self@).take(17) =~= ethernet_address_text(self@));
        text
    }
}

/// Two addresses with the same bytes are the same address.
pub proof fn lemma_ethernet_address_by_bytes(a: EthernetAddress, b: EthernetAddress)
    requires
        a@ == b@,
    ensures
        a == b,
{
    assert(a.0 =~= b.0);
}

/// What an Ethernet frame carries.
#[derive(Debug, Clone, Copy, PartialEq, Eq)]
pub enum EtherType {
    Ipv4,
    Arp,
    Unknown(u16),
}

impl EtherType {
    /// The type that a number on the wire stands for.
    pub open spec fn spec_from_number(number: u16) -> EtherType {
        if number == 0x0800 {
            EtherType::Ipv4
        } else if number == 0x0806 {
            EtherType::Arp
        } else {
            EtherType::Unknown(number)
        }
    }

    /// The number that stands for the type on the wire.
    pub open spec fn spec_number(&self) -> u16 {
        match *self {
            EtherType::Ipv4 => 0x0800,
            EtherType::Arp => 0x0806,
            EtherType::Unknown(number) => number,
        }
    }

    /// The type that a number on the wire stands for.
    pub fn from_number(number: u16) -> (ether_type: EtherType)
        ensures
            ether_type == Self::spec_from_number(number),
    {
        if number == 0x0800 {
            EtherType::Ipv4
        } else if number == 0x0806 {
            EtherType::Arp
        } else {
            EtherType::Unknown(number)
        }
    }

    /// The number that stands for the type on the wire.
    pub fn number(&self) -> (number: u16)
        ensures
            number == self.spec_number(),
    {
        match *self {
            EtherType::Ipv4 => 0x0800,
            EtherType::Arp => 0x0806,
            EtherType::Unknown(number) => number,
        }
    }
}

/// Every number maps to a type that maps back to it, and a type that came
/// from a number is restored from its own number.
pub proof fn lemma_ether_type_roundtrip(number: u16)
    ensures
        EtherType::spec_from_number(number).spec_number() == number,
        EtherType::spec_from_number(EtherType::spec_from_number(number).spec_number())
            == EtherType::spec_from_number(number),
{
}

/// The header of an Ethernet frame.
#[derive(Debug)]
pub struct EthernetHeader {
    pub src_addr: EthernetAddress,
    pub dst_addr: EthernetAddress,
    pub ether_type: EtherType,
}

/// An Ethernet frame with a payload of type `T`.
#[derive(Debug)]
pub struct EthernetPacket<T> {
    pub header: EthernetHeader,
    pub payload: T,
}

/// The fourteen bytes of an Ethernet header.
pub open spec fn ethernet_header_bytes(header: EthernetHeader) -> Seq<u8> {
    header.dst_addr@ + header.src_addr@ + be16_bytes(header.ether_type.spec_number())
}

impl<'a> EthernetPacket<&'a [u8]> {
    /// A frame that carries raw bytes.
    pub fn new(
        src_addr: EthernetAddress,
        dst_addr: EthernetAddress,
        ether_type: EtherType,
        data: &'a [u8],
    ) -> (packet: Self)
        ensures
            packet.header.src_addr == src_addr,
            packet.header.dst_addr == dst_addr,
            packet.header.ether_type == ether_type,
            packet.payload@ == data@,
    {
        EthernetPacket {
            header: EthernetHeader {
                src_addr: src_addr,
                dst_addr: dst_addr,
                ether_type: ether_type,
            },
            payload: data,
        }
    }
}

impl<T> EthernetPacket<Ipv4Packet<T>> {
    /// The frame that `new_ipv4` builds.
    pub open spec fn spec_new_ipv4(
        src_addr: EthernetAddress,
        dst_addr: EthernetAddress,
        ip_data: Ipv4Packet<T>,
    ) -> Self {
        EthernetPacket {
            header: EthernetHeader { src_addr, dst_addr, ether_type: EtherType::Ipv4 },
            payload: ip_data,
        }
    }

    /// A frame that carries an IPv4 datagram.
    pub fn new_ipv4(
        src_addr: EthernetAddress,
        dst_addr: EthernetAddress,
        ip_data: Ipv4Packet<T>,
    ) -> (packet: Self)
        ensures
            packet == Self::spec_new_ipv4(src_addr, dst_addr, ip_data),
    {
        EthernetPacket {
            header: EthernetHeader {
                src_addr: src_addr,
                dst_addr: dst_addr,
                ether_type: EtherType::Ipv4,
            },
            payload: ip_data,
        }
    }
}

impl<T: WriteOut> WriteOut for EthernetPacket<T> {
    open spec fn writable(&self) -> bool {
        self.payload.writable() && self.payload.wire().len() + ETHERNET_HEADER_LEN <= usize::MAX
    }

    open spec fn wire(&self) -> Seq<u8> {
        ethernet_header_bytes(self.header) + self.payload.wire()
    }

    open spec fn open_checksum(&self) -> Option<int> {
        None
    }

    fn len(&self) -> (n: usize) {
        self.payload.len() + 2 * 6 + 2
    }

    fn write_out<P: TxPacket>(&self, packet: &mut P) -> (r: Result<(), ()>) {
        let ghost start = packet@;
        let dst = self.header.dst_addr.as_bytes();
        if packet.push_bytes(dst.as_slice()).is_err() {
            return Err(());
        }
        let src = self.header.src_addr.as_bytes();
        if packet.push_bytes(src.as_slice()).is_err() {
            return Err(());
        }
        if packet.push_u16(self.header.ether_type.number()).is_err() {
            return Err(());
        }
        assert(packet@ =~= start + ethernet_header_bytes(self.header));
        let r = self.payload.write_out(packet);
        proof {
            if r is Ok {
                assert(packet@ =~= start + self.wire());
            }
        }
        r
    }

    fn open_checksum_offset(&self) -> (offset: Option<usize>) {
        None
    }
}

/// Whether `result` is what reading `data` as an Ethernet frame gives.
pub open spec fn ethernet_parses_to<'a>(
    data: Seq<u8>,
    result: Result<EthernetPacket<&'a [u8]>, ParseError>,
) -> bool {
    match result {
        Ok(packet) => {
            &&& data.len() >= MIN_FRAME_LEN
            &&& packet.header.dst_addr@ == data.subrange(0, 6)
            &&& packet.header.src_addr@ == data.subrange(6, 12)
            &&& packet.header.ether_type == EtherType::spec_from_number(be16(data[12], data[13]))
            &&& packet.payload@ == data.skip(ETHERNET_HEADER_LEN as int)
        },
        Err(error) => data.len() < MIN_FRAME_LEN && error == ParseError::Truncated(
            data.len() as usize,
        ),
    }
}

impl<'a> Parse<'a> for EthernetPacket<&'a [u8]> {
    open spec fn parses_to(data: Seq<u8>, result: Result<Self, ParseError>) -> bool {
        ethernet_parses_to(data, result)
    }

    fn parse(data: &'a [u8]) -> (result: Result<Self, ParseError>) {
        if data.len() < MIN_FRAME_LEN {
            return Err(ParseError::Truncated(data.len()));
        }
        let dst_mac = EthernetAddress::from_bytes(slice_subrange(data, 0, 6));
        let src_mac = EthernetAddress::from_bytes(slice_subrange(data, 6, 12));
        let ether_type = EtherType::from_number(read_u16(slice_subrange(data, 12, 14)));
        let payload = slice_subrange(data, ETHERNET_HEADER_LEN, data.len());
        Ok(EthernetPacket::new(src_mac, dst_mac, ether_type, payload))
    }
}

/// What an Ethernet frame carries.
#[derive(Debug)]
pub enum EthernetKind<'a> {
    Ipv4(Ipv4Packet<Ipv4Kind<'a>>),
    Arp(ArpPacket),
    Unknown(&'a [u8]),
}

/// Whether `result` is what reading `data` as an Ethernet frame and its
/// payload gives. IPv4 and ARP payloads are read as such, and an error in
/// them is the error of the frame; a frame of any other type is not read.
pub open spec fn frame_parses_to<'a>(
    data: Seq<u8>,
    result: Result<EthernetPacket<EthernetKind<'a>>, ParseError>,
) -> bool {
    let payload = data.skip(14);
    let ether_type = EtherType::spec_from_number(be16(data[12], data[13]));
    match result {
        Ok(packet) => {
            &&& data.len() >= MIN_FRAME_LEN
            &&& packet.header.dst_addr@ == data.subrange(0, 6)
            &&& packet.header.src_addr@ == data.subrange(6, 12)
            &&& packet.header.ether_type == ether_type
            &&& match packet.payload {
                EthernetKind::Ipv4(ip) => ether_type is Ipv4 && ipv4_tree_parses_to(
                    payload,
                    Ok(ip),
                ),
                EthernetKind::Arp(arp) => ether_type is Arp && arp_parses_to(
                    payload,
                    Ok(arp),
                ),
                EthernetKind::Unknown(_) => false,
            }
        },
        Err(error) => if data.len() < MIN_FRAME_LEN {
            error matches ParseError::Truncated(len) && len == data.len()
        } else {
            match ether_type {
                EtherType::Ipv4 => ipv4_tree_parses_to(payload, Err(error)),
                EtherType::Arp => arp_parses_to(payload, Err(error)),
                EtherType::Unknown(_) => error == ParseError::Unimplemented(
                    "unknown ether type",
                ),
            }
        },
    }
}

impl<'a> Parse<'a> for EthernetPacket<EthernetKind<'a>> {
    open spec fn parses_to(data: Seq<u8>, result: Result<Self, ParseError>) -> bool {
        frame_parses_to(data, result)
    }

    fn parse(data: &'a [u8]) -> (result: Result<Self, ParseError>) {
        let ethernet: EthernetPacket<&'a [u8]> = EthernetPacket::parse(data)?;
        match ethernet.header.ether_type {
            EtherType::Ipv4 => {
                let ipv4: Ipv4Packet<Ipv4Kind<'a>> = Ipv4Packet::parse(ethernet.payload)?;
                Ok(EthernetPacket { header: ethernet.header, payload: EthernetKind::Ipv4(ipv4) })
            },
            EtherType::Arp => {
                let arp = ArpPacket::parse(ethernet.payload)?;
                Ok(EthernetPacket { header: ethernet.header, payload: EthernetKind::Arp(arp) })
            },
            EtherType::Unknown(_) => Err(ParseError::Unimplemented("unknown ether type")),
        }
    }
}

/// Reading back a serialized frame of at least sixty bytes gives the header
/// of the frame and the bytes of its payload. The type of the frame must be
/// the one that its own number stands for.
pub proof fn lemma_ethernet_roundtrip<'a, T: WriteOut>(
    packet: EthernetPacket<T>,
    result: Result<EthernetPacket<&'a [u8]>, ParseError>,
)
    requires
        packet.wire().len() >= MIN_FRAME_LEN,
        packet.header.ether_type == EtherType::spec_from_number(
            packet.header.ether_type.spec_number(),
        ),
        ethernet_parses_to(packet.wire(), result),
    ensures
        result matches Ok(parsed) && parsed.header == packet.header && parsed.payload@
            == packet.payload.wire(),
{
    let wire = packet.wire();
    let parsed = result->Ok_0;
    crate::wire::lemma_be_roundtrip(packet.header.ether_type.spec_number(), 0);
    assert(wire.subrange(0, 6) =~= packet.header.dst_addr@);
    assert(wire.subrange(6, 12) =~= packet.header.src_addr@);
    assert(wire.skip(ETHERNET_HEADER_LEN as int) =~= packet.payload.wire());
    lemma_ethernet_address_by_bytes(parsed.header.dst_addr, packet.header.dst_addr);
    lemma_ethernet_address_by_bytes(parsed.header.src_addr, packet.header.src_addr);
}

/// Serializing what was read from a frame gives the frame again, byte for
/// byte.
pub proof fn lemma_ethernet_reserialize<'a>(data: Seq<u8>, parsed: EthernetPacket<&'a [u8]>)
    requires
        ethernet_parses_to(data, Ok(parsed)),
    ensures
        parsed.wire() == data,
{
    crate::wire::lemma_be16_bytes_of_value(data[12], data[13]);
    lemma_ether_type_roundtrip(be16(data[12], data[13]));
    assert(parsed.wire() =~= data);
}

} // verus!
