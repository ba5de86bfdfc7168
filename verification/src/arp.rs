//! ARP over Ethernet and IPv4.

use crate::ethernet::{EtherType, EthernetAddress, EthernetHeader, EthernetPacket};
use crate::ipv4::Ipv4Address;
use crate::parse::{Parse, ParseError};
use crate::tx_packet::TxPacket;
use crate::wire::{be16, be16_bytes, read_u16};
use crate::write_out::WriteOut;
use vstd::prelude::*;
use vstd::slice::slice_subrange;

verus! {

/// The length of an ARP packet for Ethernet and IPv4.
pub const ARP_LEN: usize = 28;

/// An ARP packet for Ethernet and IPv4.
#[derive(Debug, Clone, Copy, PartialEq, Eq)]
pub struct ArpPacket {
    pub operation: ArpOperation,
    pub src_mac: EthernetAddress,
    pub dst_mac: EthernetAddress,
    pub src_ip: Ipv4Address,
    pub dst_ip: Ipv4Address,
}

/// What an ARP packet asks or tells.
#[derive(Debug, Clone, Copy, PartialEq, Eq)]
pub enum ArpOperation {
    Request,
    Response,
}

impl ArpOperation {
    /// The number that stands for the operation on the wire.
    pub open spec fn spec_number(&self) -> u16 {
        match *self {
            ArpOperation::Request => 1,
            ArpOperation::Response => 2,
        }
    }
}

impl ArpPacket {
    /// The answer to a request: the station `mac` claims the address that
    /// was asked for, and tells the asker.
    pub open spec fn spec_response(&self, mac: EthernetAddress) -> ArpPacket {
        ArpPacket {
            operation: ArpOperation::Response,
            src_mac: mac,
            dst_mac: self.src_mac,
            src_ip: self.dst_ip,
            dst_ip: self.src_ip,
        }
    }

    /// The answer to this request, sent by the station `mac`.
    pub fn response(&self, mac: EthernetAddress) -> (response: ArpPacket)
        requires
            self.operation == ArpOperation::Request,
        ensures
            response == self.spec_response(mac),
    {
        ArpPacket {
            operation: ArpOperation::Response,
            src_mac: mac,
            dst_mac: self.src_mac,
            src_ip: self.dst_ip,
            dst_ip: self.src_ip,
        }
    }

    /// The answer to this request in a frame from `mac` to the asker.
    pub fn response_packet(&self, mac: EthernetAddress) -> (packet: EthernetPacket<ArpPacket>)
        requires
            self.operation == ArpOperation::Request,
        ensures
            packet == EthernetPacket::spec_new_arp(mac, self.src_mac, self.spec_response(mac)),
    {
        let response = self.response(mac);
        EthernetPacket::new_arp(mac, self.src_mac, response)
    }
}

/// A broadcast frame in which `src_mac`, at `src_ip`, asks who has `dst_ip`.
/// The target hardware address of the request is all zero.
pub fn new_request_packet(
    src_mac: EthernetAddress,
    src_ip: Ipv4Address,
    dst_ip: Ipv4Address,
) -> (packet: EthernetPacket<ArpPacket>)
    ensures
        packet.header.src_addr == src_mac,
        packet.header.dst_addr@ == seq![0xffu8, 0xffu8, 0xffu8, 0xffu8, 0xffu8, 0xffu8],
        packet.header.ether_type == EtherType::Arp,
        packet.payload.operation == ArpOperation::Request,
        packet.payload.src_mac == src_mac,
        packet.payload.dst_mac@ == seq![0u8, 0u8, 0u8, 0u8, 0u8, 0u8],
        packet.payload.src_ip == src_ip,
        packet.payload.dst_ip == dst_ip,
{
    let unknown = [0u8, 0u8, 0u8, 0u8, 0u8, 0u8];
    assert(unknown@ =~= seq![0u8, 0u8, 0u8, 0u8, 0u8, 0u8]);
    let arp = ArpPacket {
        operation: ArpOperation::Request,
        src_mac: src_mac,
        dst_mac: EthernetAddress::new(unknown),
        src_ip: src_ip,
        dst_ip: dst_ip,
    };
    EthernetPacket::new_arp(src_mac, EthernetAddress::broadcast(), arp)
}

impl EthernetPacket<ArpPacket> {
    /// The frame that `new_arp` builds.
    pub open spec fn spec_new_arp(
        src_addr: EthernetAddress,
        dst_addr: EthernetAddress,
        arp_data: ArpPacket,
    ) -> Self {
        EthernetPacket {
            header: EthernetHeader { src_addr, dst_addr, ether_type: EtherType::Arp },
            payload: arp_data,
        }
    }

    /// A frame that carries an ARP packet.
    pub fn new_arp(
        src_addr: EthernetAddress,
        dst_addr: EthernetAddress,
        arp_data: ArpPacket,
    ) -> (packet: Self)
        ensures
            packet == Self::spec_new_arp(src_addr, dst_addr, arp_data),
    {
        EthernetPacket {
            header: EthernetHeader {
                src_addr: src_addr,
                dst_addr: dst_addr,
                ether_type: EtherType::Arp,
            },
            payload: arp_data,
        }
    }
}

/// The eight bytes that start every ARP packet for Ethernet and IPv4:
/// hardware type 1, protocol type `0x0800`, address sizes 6 and 4, and the
/// operation.
pub open spec fn arp_preamble(operation: ArpOperation) -> Seq<u8> {
    be16_bytes(1) + be16_bytes(0x0800) + seq![6u8, 4u8] + be16_bytes(operation.spec_number())
}

/// Whether the first six bytes of `data` name Ethernet and IPv4 with their
/// address sizes.
pub open spec fn arp_constants_match(data: Seq<u8>) -> bool {
    &&& be16(data[0], data[1]) == 1
    &&& be16(data[2], data[3]) == 0x0800
    &&& data[4] == 6
    &&& data[5] == 4
}

impl WriteOut for ArpPacket {
    open spec fn writable(&self) -> bool {
        true
    }

    open spec fn wire(&self) -> Seq<u8> {
        arp_preamble(self.operation) + self.src_mac@ + self.src_ip@ + self.dst_mac@ + self.dst_ip@
    }

    open spec fn open_checksum(&self) -> Option<int> {
        None
    }

    fn len(&self) -> (n: usize) {
        28
    }

    fn write_out<P: TxPacket>(&self, packet: &mut P) -> (r: Result<(), ()>) {
        let ghost start = packet@;
        packet.push_u16(1)?;
        packet.push_u16(0x0800)?;
        packet.push_byte(6)?;
        packet.push_byte(4)?;
        packet.push_u16(
            match self.operation {
                ArpOperation::Request => 1,
                ArpOperation::Response => 2,
            },
        )?;
        let src_mac = self.src_mac.as_bytes();
        packet.push_bytes(src_mac.as_slice())?;
        let src_ip = self.src_ip.as_bytes();
        packet.push_bytes(src_ip.as_slice())?;
        let dst_mac = self.dst_mac.as_bytes();
        packet.push_bytes(dst_mac.as_slice())?;
        let dst_ip = self.dst_ip.as_bytes();
        packet.push_bytes(dst_ip.as_slice())?;
        assert(packet@ =~= start + self.wire());
        Ok(())
    }

    fn open_checksum_offset(&self) -> (offset: Option<usize>) {
        None
    }
}

/// Whether `result` is what reading `data` as an ARP packet gives.
pub open spec fn arp_parses_to(
    data: Seq<u8>,
    result: Result<ArpPacket, ParseError>,
) -> bool {
    match result {
        Ok(packet) => {
            &&& data.len() >= ARP_LEN
            &&& arp_constants_match(data)
            &&& packet.operation.spec_number() == be16(data[6], data[7])
            &&& packet.src_mac@ == data.subrange(8, 14)
            &&& packet.src_ip@ == data.subrange(14, 18)
            &&& packet.dst_mac@ == data.subrange(18, 24)
            &&& packet.dst_ip@ == data.subrange(24, 28)
        },
        Err(error) => if data.len() < ARP_LEN {
            error == ParseError::Truncated(data.len() as usize)
        } else if !arp_constants_match(data) {
            error == ParseError::Malformed("unexpected ARP hardware or protocol type")
        } else {
            &&& be16(data[6], data[7]) != 1
            &&& be16(data[6], data[7]) != 2
            &&& error == ParseError::Malformed("invalid value in ARP operation field")
        },
    }
}

impl<'a> Parse<'a> for ArpPacket {
    open spec fn parses_to(data: Seq<u8>, result: Result<Self, ParseError>) -> bool {
        arp_parses_to(data, result)
    }

    fn parse(data: &'a [u8]) -> (result: Result<Self, ParseError>) {
        if data.len() < ARP_LEN {
            return Err(ParseError::Truncated(data.len()));
        }
        if read_u16(slice_subrange(data, 0, 2)) != 1 || read_u16(slice_subrange(data, 2, 4))
            != 0x0800 || data[4] != 6 || data[5] != 4 {
            return Err(ParseError::Malformed("unexpected ARP hardware or protocol type"));
        }
        let number = read_u16(slice_subrange(data, 6, 8));
        let operation = if number == 1 {
            ArpOperation::Request
        } else if number == 2 {
            ArpOperation::Response
        } else {
            return Err(ParseError::Malformed("invalid value in ARP operation field"));
        };
        Ok(
            ArpPacket {
                operation: operation,
                src_mac: EthernetAddress::from_bytes(slice_subrange(data, 8, 14)),
                dst_mac: EthernetAddress::from_bytes(slice_subrange(data, 18, 24)),
                src_ip: Ipv4Address::from_bytes(slice_subrange(data, 14, 18)),
                dst_ip: Ipv4Address::from_bytes(slice_subrange(data, 24, 28)),
            },
        )
    }
}

/// Reading back a serialized ARP packet gives the packet.
pub proof fn lemma_arp_roundtrip(packet: ArpPacket, result: Result<ArpPacket, ParseError>)
    requires
        arp_parses_to(packet.wire(), result),
    ensures
        result == Ok::<ArpPacket, ParseError>(packet),
{
    let wire = packet.wire();
    crate::wire::lemma_be_roundtrip(1, 0);
    crate::wire::lemma_be_roundtrip(0x0800, 0);
    crate::wire::lemma_be_roundtrip(packet.operation.spec_number(), 0);
    assert(arp_constants_match(wire));
    assert(be16(wire[6], wire[7]) == packet.operation.spec_number());
    let parsed = result->Ok_0;
    assert(wire.subrange(8, 14) =~= packet.src_mac@);
    assert(wire.subrange(14, 18) =~= packet.src_ip@);
    assert(wire.subrange(18, 24) =~= packet.dst_mac@);
    assert(wire.subrange(24, 28) =~= packet.dst_ip@);
    crate::ethernet::lemma_ethernet_address_by_bytes(parsed.src_mac, packet.src_mac);
    crate::ethernet::lemma_ethernet_address_by_bytes(parsed.dst_mac, packet.dst_mac);
    crate::ipv4::lemma_ipv4_address_by_bytes(parsed.src_ip, packet.src_ip);
    crate::ipv4::lemma_ipv4_address_by_bytes(parsed.dst_ip, packet.dst_ip);
}

/// Serializing what was read as an ARP packet gives the first twenty-eight
/// bytes that were read.
pub proof fn lemma_arp_reserialize(data: Seq<u8>, parsed: ArpPacket)
    requires
        arp_parses_to(data, Ok(parsed)),
    ensures
        parsed.wire() == data.take(ARP_LEN as int),
{
    crate::wire::lemma_be16_bytes_of_value(data[0], data[1]);
    crate::wire::lemma_be16_bytes_of_value(data[2], data[3]);
    crate::wire::lemma_be16_bytes_of_value(data[6], data[7]);
    assert(parsed.wire() =~= data.take(ARP_LEN as int));
}

} // verus!
