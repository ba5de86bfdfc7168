//! ICMP echo requests and replies.

use crate::ethernet::{
    frame_parses_to, lemma_ethernet_address_by_bytes, EtherType, EthernetAddress, EthernetKind,
    EthernetPacket,
};
use crate::ip_checksum::{data_sum, lemma_checksum_completes, sealed, write_checksum};
use crate::ipv4::{
    ipv4_total_len, ipv4_tree_parses_to, lemma_ipv4_address_by_bytes,
    lemma_ipv4_header_is_patched, IpProtocol, Ipv4Address, Ipv4Header, Ipv4Kind, Ipv4Packet,
};
use crate::parse::{Parse, ParseError};
use crate::tx_packet::{lemma_split_appended, TxPacket};
use crate::wire::{be16, be16_bytes, read_u16};
use crate::write_out::WriteOut;
use vstd::prelude::*;
use vstd::slice::slice_subrange;

verus! {

/// The length of the ICMP echo header.
pub const ICMP_HEADER_LEN: usize = 8;

/// The offset of the checksum in the ICMP header.
pub const ICMP_CHECKSUM_OFFSET: usize = 2;

/// The kind of an ICMP message, with the fields of that kind.
#[derive(Debug, Clone, Copy, PartialEq, Eq)]
pub enum IcmpType {
    EchoRequest { id: u16, sequence_number: u16 },
    EchoReply { id: u16, sequence_number: u16 },
}

impl IcmpType {
    /// The type byte on the wire: 8 for a request, 0 for a reply.
    pub open spec fn type_byte(&self) -> u8 {
        match *self {
            IcmpType::EchoRequest { .. } => 8,
            IcmpType::EchoReply { .. } => 0,
        }
    }

    /// The identifier of the echo exchange.
    pub open spec fn id(&self) -> u16 {
        match *self {
            IcmpType::EchoRequest { id, .. } => id,
            IcmpType::EchoReply { id, .. } => id,
        }
    }

    /// The sequence number within the echo exchange.
    pub open spec fn sequence_number(&self) -> u16 {
        match *self {
            IcmpType::EchoRequest { sequence_number, .. } => sequence_number,
            IcmpType::EchoReply { sequence_number, .. } => sequence_number,
        }
    }
}

/// An ICMP echo message with data of type `T`.
#[derive(Debug, Clone, Copy, PartialEq, Eq)]
pub struct IcmpPacket<T> {
    pub type_: IcmpType,
    pub data: T,
}

impl<T: Clone> IcmpPacket<T> {
    /// The reply to this echo request: same identifier, sequence number and
    /// data.
    pub fn echo_reply(&self) -> (reply: IcmpPacket<T>)
        requires
            self.type_ is EchoRequest,
        ensures
            reply.type_ == (IcmpType::EchoReply {
                id: self.type_.id(),
                sequence_number: self.type_.sequence_number(),
            }),
            cloned(self.data, reply.data),
    {
        let (id, sequence_number) = match self.type_ {
            IcmpType::EchoRequest { id, sequence_number } => (id, sequence_number),
            IcmpType::EchoReply { id, sequence_number } => (id, sequence_number),
        };
        IcmpPacket { type_: IcmpType::EchoReply { id, sequence_number }, data: self.data.clone() }
    }

    /// The reply to this echo request in an IPv4 datagram in an Ethernet
    /// frame.
    pub fn echo_reply_packet(
        &self,
        src_mac: EthernetAddress,
        dst_mac: EthernetAddress,
        src_ip: Ipv4Address,
        dst_ip: Ipv4Address,
    ) -> (packet: EthernetPacket<Ipv4Packet<IcmpPacket<T>>>)
        requires
            self.type_ is EchoRequest,
        ensures
            packet.header.src_addr == src_mac,
            packet.header.dst_addr == dst_mac,
            packet.header.ether_type == EtherType::Ipv4,
            packet.payload.header == (Ipv4Header {
                src_addr: src_ip,
                dst_addr: dst_ip,
                protocol: IpProtocol::Icmp,
            }),
            packet.payload.payload.type_ == (IcmpType::EchoReply {
                id: self.type_.id(),
                sequence_number: self.type_.sequence_number(),
            }),
            cloned(self.data, packet.payload.payload.data),
    {
        let reply = self.echo_reply();
        EthernetPacket::new_ipv4(src_mac, dst_mac, Ipv4Packet::new_icmp(src_ip, dst_ip, reply))
    }
}

/// The message with a blank checksum field.
pub open spec fn icmp_blank(type_: IcmpType, data: Seq<u8>) -> Seq<u8> {
    seq![type_.type_byte(), 0u8] + be16_bytes(0) + be16_bytes(type_.id()) + be16_bytes(
        type_.sequence_number(),
    ) + data
}

impl<T: WriteOut> WriteOut for IcmpPacket<T> {
    open spec fn writable(&self) -> bool {
        self.data.writable() && self.data.wire().len() + ICMP_HEADER_LEN <= usize::MAX
    }

    /// The message with the checksum over all of its bytes.
    open spec fn wire(&self) -> Seq<u8> {
        sealed(icmp_blank(self.type_, self.data.wire()), 2)
    }

    open spec fn open_checksum(&self) -> Option<int> {
        None
    }

    fn len(&self) -> (n: usize) {
        self.data.len() + 4 * 2
    }

    fn write_out<P: TxPacket>(&self, packet: &mut P) -> (r: Result<(), ()>) {
        let ghost start = packet@;
        let ghost blank = icmp_blank(self.type_, self.data.wire());
        let start_index = packet.len();

        match self.type_ {
            IcmpType::EchoRequest { .. } => {
                packet.push_byte(8)?;
                packet.push_byte(0)?;
            },
            IcmpType::EchoReply { .. } => {
                packet.push_byte(0)?;
                packet.push_byte(0)?;
            },
        }
        let checksum_idx = packet.push_u16(0)?;
        match self.type_ {
            IcmpType::EchoRequest { id, sequence_number } | IcmpType::EchoReply {
                id,
                sequence_number,
            } => {
                packet.push_u16(id)?;
                packet.push_u16(sequence_number)?;
            },
        }
        self.data.write_out(packet)?;
        proof {
            assert(packet@ =~= start + blank);
            lemma_split_appended(packet@, start, blank);
        }
        write_checksum(packet, start_index, checksum_idx);
        Ok(())
    }

    fn open_checksum_offset(&self) -> (offset: Option<usize>) {
        None
    }
}

/// Whether `result` is what reading `data` as an ICMP message gives.
pub open spec fn echo_parses_to<'a>(
    data: Seq<u8>,
    result: Result<IcmpPacket<&'a [u8]>, ParseError>,
) -> bool {
    match result {
        Ok(packet) => {
            &&& data.len() >= ICMP_HEADER_LEN
            &&& data[0] == 8
            &&& data[1] == 0
            &&& packet.type_ == (IcmpType::EchoRequest {
                id: be16(data[4], data[5]),
                sequence_number: be16(data[6], data[7]),
            })
            &&& packet.data@ == data.skip(8)
        },
        Err(error) => if data.len() < ICMP_HEADER_LEN {
            error matches ParseError::Truncated(len) && len == data.len()
        } else {
            &&& !(data[0] == 8 && data[1] == 0)
            &&& error == ParseError::Unimplemented("unknown ICMP packet type")
        },
    }
}

impl<'a> Parse<'a> for IcmpPacket<&'a [u8]> {
    open spec fn parses_to(data: Seq<u8>, result: Result<Self, ParseError>) -> bool {
        echo_parses_to(data, result)
    }

    fn parse(data: &'a [u8]) -> (result: Result<Self, ParseError>) {
        if data.len() < ICMP_HEADER_LEN {
            return Err(ParseError::Truncated(data.len()));
        }
        if !(data[0] == 8 && data[1] == 0) {
            return Err(ParseError::Unimplemented("unknown ICMP packet type"));
        }
        let type_ = IcmpType::EchoRequest {
            id: read_u16(slice_subrange(data, 4, 6)),
            sequence_number: read_u16(slice_subrange(data, 6, 8)),
        };
        Ok(IcmpPacket { type_: type_, data: slice_subrange(data, ICMP_HEADER_LEN, data.len()) })
    }
}

/// Reading back a serialized echo request gives the request: its
/// identifier, its sequence number and the bytes of its data.
pub proof fn lemma_echo_request_roundtrip<'a, T: WriteOut>(
    packet: IcmpPacket<T>,
    result: Result<IcmpPacket<&'a [u8]>, ParseError>,
)
    requires
        packet.writable(),
        packet.type_ is EchoRequest,
        echo_parses_to(packet.wire(), result),
    ensures
        result matches Ok(parsed) && parsed.type_ == packet.type_ && parsed.data@
            == packet.data.wire(),
{
    let wire = packet.wire();
    crate::wire::lemma_be_roundtrip(packet.type_.id(), 0);
    crate::wire::lemma_be_roundtrip(packet.type_.sequence_number(), 0);
    assert(wire.skip(8) =~= packet.data.wire());
}

/// The bytes of every serialized message add up to `0xffff`.
pub proof fn lemma_echo_checksum<T: WriteOut>(packet: IcmpPacket<T>)
    requires
        packet.writable(),
    ensures
        data_sum(packet.wire()) == 0xffff,
{
    let blank = icmp_blank(packet.type_, packet.data.wire());
    assert(be16_bytes(0) =~= seq![0u8, 0u8]);
    lemma_checksum_completes(blank, 2);
}

/// The reply that `echo_reply` builds for an echo request that was read back
/// from its serialized form has the identifier, the sequence number and the
/// data of the request, and its own bytes add up to `0xffff`.
pub proof fn lemma_echo_reply_of_parsed_request<'a, T: WriteOut>(
    request: IcmpPacket<T>,
    parsed: IcmpPacket<&'a [u8]>,
    reply: IcmpPacket<&'a [u8]>,
)
    requires
        request.writable(),
        request.type_ is EchoRequest,
        echo_parses_to(request.wire(), Ok(parsed)),
        reply.type_ == (IcmpType::EchoReply {
            id: parsed.type_.id(),
            sequence_number: parsed.type_.sequence_number(),
        }),
        cloned(parsed.data, reply.data),
    ensures
        reply.type_ == (IcmpType::EchoReply {
            id: request.type_.id(),
            sequence_number: request.type_.sequence_number(),
        }),
        reply.type_.type_byte() == 0,
        reply.data@ == request.data.wire(),
        reply.writable(),
        data_sum(reply.wire()) == 0xffff,
{
    lemma_echo_request_roundtrip(request, Ok(parsed));
    lemma_echo_checksum(reply);
}

/// Reading back, down to the innermost layer, a serialized IPv4 datagram that
/// carries an echo request gives the header of the datagram and the request.
pub proof fn lemma_echo_datagram_roundtrip<'a, T: WriteOut>(
    packet: Ipv4Packet<IcmpPacket<T>>,
    result: Result<Ipv4Packet<Ipv4Kind<'a>>, ParseError>,
)
    requires
        packet.writable(),
        packet.header.protocol == IpProtocol::Icmp,
        packet.payload.type_ is EchoRequest,
        ipv4_tree_parses_to(packet.wire(), result),
    ensures
        ({
            &&& result matches Ok(datagram)
            &&& datagram.header == packet.header
            &&& datagram.payload matches Ipv4Kind::Icmp(message)
            &&& message.type_ == packet.payload.type_
            &&& message.data@ == packet.payload.data.wire()
        }),
{
    let wire = packet.wire();
    lemma_ipv4_header_is_patched(packet.header, ipv4_total_len(packet.payload.wire()));
    assert(wire.skip(20) =~= packet.payload.wire());
    assert(wire.subrange(12, 16) =~= packet.header.src_addr@);
    assert(wire.subrange(16, 20) =~= packet.header.dst_addr@);
    assert(wire[9] == 1);
    match result {
        Ok(datagram) => {
            lemma_ipv4_address_by_bytes(datagram.header.src_addr, packet.header.src_addr);
            lemma_ipv4_address_by_bytes(datagram.header.dst_addr, packet.header.dst_addr);
            lemma_echo_request_roundtrip(packet.payload, Ok(datagram.payload->Icmp_0));
        },
        Err(error) => {
            lemma_echo_request_roundtrip(packet.payload, Err(error));
        },
    }
}

/// Reading back, down to the innermost layer, a serialized frame of at least
/// sixty bytes that carries an echo request gives the headers of the frame
/// and of the datagram, and the request.
pub proof fn lemma_echo_frame_roundtrip<'a, T: WriteOut>(
    packet: EthernetPacket<Ipv4Packet<IcmpPacket<T>>>,
    result: Result<EthernetPacket<EthernetKind<'a>>, ParseError>,
)
    requires
        packet.writable(),
        packet.wire().len() >= 60,
        packet.header.ether_type == EtherType::Ipv4,
        packet.payload.header.protocol == IpProtocol::Icmp,
        packet.payload.payload.type_ is EchoRequest,
        frame_parses_to(packet.wire(), result),
    ensures
        ({
            &&& result matches Ok(frame)
            &&& frame.header == packet.header
            &&& frame.payload matches EthernetKind::Ipv4(datagram)
            &&& datagram.header == packet.payload.header
            &&& datagram.payload matches Ipv4Kind::Icmp(message)
            &&& message.type_ == packet.payload.payload.type_
            &&& message.data@ == packet.payload.payload.data.wire()
        }),
{
    let wire = packet.wire();
    crate::wire::lemma_be_roundtrip(0x0800, 0);
    assert(wire.skip(14) =~= packet.payload.wire());
    assert(wire.subrange(0, 6) =~= packet.header.dst_addr@);
    assert(wire.subrange(6, 12) =~= packet.header.src_addr@);
    assert(be16(wire[12], wire[13]) == 0x0800);
    match result {
        Ok(frame) => {
            lemma_ethernet_address_by_bytes(frame.header.dst_addr, packet.header.dst_addr);
            lemma_ethernet_address_by_bytes(frame.header.src_addr, packet.header.src_addr);
            lemma_echo_datagram_roundtrip(packet.payload, Ok(frame.payload->Ipv4_0));
        },
        Err(error) => {
            lemma_echo_datagram_roundtrip(packet.payload, Err(error));
        },
    }
}

} // verus!
