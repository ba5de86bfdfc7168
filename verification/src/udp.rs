//! UDP datagrams.

use crate::dhcp::{dhcp_parses_to, DhcpPacket, DHCP_CLIENT_PORT, DHCP_SERVER_PORT};
use crate::ethernet::{
    frame_parses_to, lemma_ethernet_address_by_bytes, EtherType, EthernetAddress, EthernetKind,
    EthernetPacket, MIN_FRAME_LEN,
};
use crate::ip_checksum::{combine_sum, complement, pseudo_header_sum, sealed, write_checksum};
use crate::ipv4::{
    ipv4_tree_parses_to, lemma_ipv4_address_by_bytes, IpProtocol, Ipv4Address, Ipv4Kind,
    Ipv4Packet,
};
use crate::parse::{Parse, ParseError};
use crate::tx_packet::{patched, TxPacket};
use crate::wire::{be16, be16_bytes, read_u16};
use crate::write_out::WriteOut;
use vstd::prelude::*;
use vstd::slice::slice_subrange;

verus! {

/// The length of the UDP header.
pub const UDP_HEADER_LEN: usize = 8;

/// The offset of the checksum in the UDP header.
pub const UDP_CHECKSUM_OFFSET: usize = 6;

/// A UDP datagram in an IPv4 datagram in an Ethernet frame.
pub fn new_udp_packet<T>(
    src_mac: EthernetAddress,
    dst_mac: EthernetAddress,
    src_ip: Ipv4Address,
    dst_ip: Ipv4Address,
    src_port: u16,
    dst_port: u16,
    payload: T,
) -> (packet: EthernetPacket<Ipv4Packet<UdpPacket<T>>>)
    ensures
        packet == EthernetPacket::spec_new_ipv4(
            src_mac,
            dst_mac,
            Ipv4Packet::spec_new_udp(
                src_ip,
                dst_ip,
                (UdpPacket { header: UdpHeader { src_port, dst_port }, payload }),
            ),
        ),
{
    EthernetPacket::new_ipv4(
        src_mac,
        dst_mac,
        Ipv4Packet::new_udp(src_ip, dst_ip, UdpPacket::new(src_port, dst_port, payload)),
    )
}

/// The header of a UDP datagram, as far as it varies.
#[derive(Debug, Clone, Copy, PartialEq, Eq)]
pub struct UdpHeader {
    pub src_port: u16,
    pub dst_port: u16,
}

/// A UDP datagram with a payload of type `T`.
#[derive(Debug, Clone, Copy, PartialEq, Eq)]
pub struct UdpPacket<T> {
    pub header: UdpHeader,
    pub payload: T,
}

impl<T> UdpPacket<T> {
    /// A datagram between the given ports.
    pub fn new(src_port: u16, dst_port: u16, payload: T) -> (packet: Self)
        ensures
            packet == (UdpPacket { header: UdpHeader { src_port, dst_port }, payload }),
    {
        UdpPacket { header: UdpHeader { src_port, dst_port }, payload }
    }
}

/// The datagram with a blank checksum field.
pub open spec fn udp_blank(header: UdpHeader, payload: Seq<u8>) -> Seq<u8> {
    be16_bytes(header.src_port) + be16_bytes(header.dst_port) + be16_bytes(
        (UDP_HEADER_LEN + payload.len()) as u16,
    ) + be16_bytes(0) + payload
}

impl<T: WriteOut> WriteOut for UdpPacket<T> {
    open spec fn writable(&self) -> bool {
        self.payload.writable() && self.payload.wire().len() + UDP_HEADER_LEN <= 0xffff
    }

    /// The datagram with the checksum over its own bytes; the enclosing IPv4
    /// layer adds the pseudo-header.
    open spec fn wire(&self) -> Seq<u8> {
        sealed(udp_blank(self.header, self.payload.wire()), UDP_CHECKSUM_OFFSET as int)
    }

    open spec fn open_checksum(&self) -> Option<int> {
        Some(UDP_CHECKSUM_OFFSET as int)
    }

    fn len(&self) -> (n: usize) {
        self.payload.len() + 4 * 2
    }

    fn write_out<P: TxPacket>(&self, packet: &mut P) -> (r: Result<(), ()>) {
        let ghost start = packet@;
        let ghost blank = udp_blank(self.header, self.payload.wire());
        let start_index = packet.len();
        let length: u16 = self.len() as u16;

        packet.push_u16(self.header.src_port)?;
        packet.push_u16(self.header.dst_port)?;
        packet.push_u16(length)?;
        let checksum_idx = packet.push_u16(0)?;
        self.payload.write_out(packet)?;
        proof {
            assert(packet@ =~= start + blank);
            assert(packet@.take(start_index as int) =~= start);
            assert(packet@.skip(start_index as int) =~= blank);
        }
        write_checksum(packet, start_index, checksum_idx);
        Ok(())
    }

    fn open_checksum_offset(&self) -> (offset: Option<usize>) {
        Some(UDP_CHECKSUM_OFFSET)
    }
}

/// Whether `result` is what reading `data` as a UDP datagram gives.
pub open spec fn udp_parses_to<'a>(
    data: Seq<u8>,
    result: Result<UdpPacket<&'a [u8]>, ParseError>,
) -> bool {
    match result {
        Ok(packet) => {
            &&& data.len() >= UDP_HEADER_LEN
            &&& packet.header.src_port == be16(data[0], data[1])
            &&& packet.header.dst_port == be16(data[2], data[3])
            &&& packet.payload@ == data.skip(UDP_HEADER_LEN as int)
        },
        Err(error) => data.len() < UDP_HEADER_LEN && error == ParseError::Truncated(
            data.len() as usize,
        ),
    }
}

impl<'a> Parse<'a> for UdpPacket<&'a [u8]> {
    open spec fn parses_to(data: Seq<u8>, result: Result<Self, ParseError>) -> bool {
        udp_parses_to(data, result)
    }

    fn parse(data: &'a [u8]) -> (result: Result<Self, ParseError>) {
        if data.len() < UDP_HEADER_LEN {
            return Err(ParseError::Truncated(data.len()));
        }
        Ok(
            UdpPacket {
                header: UdpHeader {
                    src_port: read_u16(slice_subrange(data, 0, 2)),
                    dst_port: read_u16(slice_subrange(data, 2, 4)),
                },
                payload: slice_subrange(data, UDP_HEADER_LEN, data.len()),
            },
        )
    }
}

/// What a UDP datagram carries.
#[derive(Debug)]
pub enum UdpKind<'a> {
    Dhcp(DhcpPacket),
    Unknown(&'a [u8]),
}

/// Whether a datagram runs between a DHCP client and a DHCP server.
pub open spec fn is_dhcp(header: UdpHeader) -> bool {
    ||| header.src_port == DHCP_SERVER_PORT && header.dst_port == DHCP_CLIENT_PORT
    ||| header.src_port == DHCP_CLIENT_PORT && header.dst_port == DHCP_SERVER_PORT
}

/// What the header bytes of a received datagram say.
pub open spec fn parsed_udp_header(data: Seq<u8>) -> UdpHeader {
    UdpHeader { src_port: be16(data[0], data[1]), dst_port: be16(data[2], data[3]) }
}

/// Whether `result` is what reading `data` as a UDP datagram and its payload
/// gives. A datagram between the DHCP ports is read as a DHCP message, and an
/// error in that message is the error of the datagram.
pub open spec fn udp_tree_parses_to<'a>(
    data: Seq<u8>,
    result: Result<UdpPacket<UdpKind<'a>>, ParseError>,
) -> bool {
    let payload = data.skip(UDP_HEADER_LEN as int);
    match result {
        Ok(packet) => {
            &&& data.len() >= UDP_HEADER_LEN
            &&& packet.header == parsed_udp_header(data)
            &&& match packet.payload {
                UdpKind::Dhcp(message) => is_dhcp(packet.header) && dhcp_parses_to(
                    payload,
                    Ok(message),
                ),
                UdpKind::Unknown(bytes) => !is_dhcp(packet.header) && bytes@ == payload,
            }
        },
        Err(error) => if data.len() < UDP_HEADER_LEN {
            error == ParseError::Truncated(data.len() as usize)
        } else {
            is_dhcp(parsed_udp_header(data)) && dhcp_parses_to(payload, Err(error))
        },
    }
}

impl<'a> Parse<'a> for UdpPacket<UdpKind<'a>> {
    open spec fn parses_to(data: Seq<u8>, result: Result<Self, ParseError>) -> bool {
        udp_tree_parses_to(data, result)
    }

    fn parse(data: &'a [u8]) -> (result: Result<Self, ParseError>) {
        let udp: UdpPacket<&'a [u8]> = UdpPacket::parse(data)?;
        let from_server = udp.header.src_port == DHCP_SERVER_PORT && udp.header.dst_port
            == DHCP_CLIENT_PORT;
        let from_client = udp.header.src_port == DHCP_CLIENT_PORT && udp.header.dst_port
            == DHCP_SERVER_PORT;
        if from_server || from_client {
            let dhcp = DhcpPacket::parse(udp.payload)?;
            Ok(UdpPacket { header: udp.header, payload: UdpKind::Dhcp(dhcp) })
        } else {
            Ok(UdpPacket { header: udp.header, payload: UdpKind::Unknown(udp.payload) })
        }
    }
}

/// Reading back a serialized datagram gives the ports of the datagram and
/// the bytes of its payload.
pub proof fn lemma_udp_roundtrip<'a, T: WriteOut>(
    packet: UdpPacket<T>,
    result: Result<UdpPacket<&'a [u8]>, ParseError>,
)
    requires
        packet.writable(),
        udp_parses_to(packet.wire(), result),
    ensures
        result matches Ok(parsed) && parsed.header == packet.header && parsed.payload@
            == packet.payload.wire(),
{
    let wire = packet.wire();
    crate::wire::lemma_be_roundtrip(packet.header.src_port, 0);
    crate::wire::lemma_be_roundtrip(packet.header.dst_port, 0);
    assert(wire.skip(UDP_HEADER_LEN as int) =~= packet.payload.wire());
}

/// Reading back a serialized datagram outside the DHCP ports, whatever its
/// checksum was completed to, gives the ports of the datagram and the bytes
/// of its payload.
pub proof fn lemma_udp_tree_roundtrip<'a, T: WriteOut>(
    packet: UdpPacket<T>,
    checksum: Seq<u8>,
    result: Result<UdpPacket<UdpKind<'a>>, ParseError>,
)
    requires
        packet.writable(),
        !is_dhcp(packet.header),
        checksum.len() == 2,
        udp_tree_parses_to(patched(packet.wire(), 6, checksum), result),
    ensures
        ({
            &&& result matches Ok(udp)
            &&& udp.header == packet.header
            &&& udp.payload matches UdpKind::Unknown(bytes)
            &&& bytes@ == packet.payload.wire()
        }),
{
    let segment = patched(packet.wire(), 6, checksum);
    crate::wire::lemma_be_roundtrip(packet.header.src_port, 0);
    crate::wire::lemma_be_roundtrip(packet.header.dst_port, 0);
    assert(parsed_udp_header(segment) == packet.header);
    assert(segment.skip(UDP_HEADER_LEN as int) =~= packet.payload.wire());
}

/// Reading back, down to the innermost layer, a serialized IPv4 datagram that
/// carries a UDP datagram outside the DHCP ports gives the headers of both
/// layers and the bytes of the payload.
pub proof fn lemma_udp_datagram_roundtrip<'a, T: WriteOut>(
    packet: Ipv4Packet<UdpPacket<T>>,
    result: Result<Ipv4Packet<Ipv4Kind<'a>>, ParseError>,
)
    requires
        packet.writable(),
        packet.header.protocol == IpProtocol::Udp,
        !is_dhcp(packet.payload.header),
        ipv4_tree_parses_to(packet.wire(), result),
    ensures
        ({
            &&& result matches Ok(datagram)
            &&& datagram.header == packet.header
            &&& datagram.payload matches Ipv4Kind::Udp(udp)
            &&& udp.header == packet.payload.header
            &&& udp.payload matches UdpKind::Unknown(bytes)
            &&& bytes@ == packet.payload.payload.wire()
        }),
{
    let wire = packet.wire();
    let udp = packet.payload;
    let total_len = (20 + udp.wire().len()) as u16;
    let own = be16(udp.wire()[6], udp.wire()[7]);
    let pseudo = complement(
        pseudo_header_sum(
            packet.header.src_addr,
            packet.header.dst_addr,
            packet.header.protocol,
            udp.wire().len() as u16,
        ),
    );
    let checksum = be16_bytes(combine_sum(seq![own, pseudo]));
    let segment = patched(udp.wire(), 6, checksum);
    crate::ipv4::lemma_ipv4_header_is_patched(packet.header, total_len);
    assert(wire.skip(20) =~= segment);
    assert(wire.subrange(12, 16) =~= packet.header.src_addr@);
    assert(wire.subrange(16, 20) =~= packet.header.dst_addr@);
    assert(wire[9] == 17);
    match result {
        Ok(datagram) => {
            lemma_ipv4_address_by_bytes(datagram.header.src_addr, packet.header.src_addr);
            lemma_ipv4_address_by_bytes(datagram.header.dst_addr, packet.header.dst_addr);
            lemma_udp_tree_roundtrip(udp, checksum, Ok(datagram.payload->Udp_0));
        },
        Err(error) => {
            lemma_udp_tree_roundtrip(udp, checksum, Err(error));
        },
    }
}

/// Reading back, down to the innermost layer, a serialized frame of at least
/// sixty bytes that carries a UDP datagram outside the DHCP ports gives the
/// headers of all three layers and the bytes of the payload.
pub proof fn lemma_udp_frame_roundtrip<'a, T: WriteOut>(
    packet: EthernetPacket<Ipv4Packet<UdpPacket<T>>>,
    result: Result<EthernetPacket<EthernetKind<'a>>, ParseError>,
)
    requires
        packet.writable(),
        packet.wire().len() >= MIN_FRAME_LEN,
        packet.header.ether_type == EtherType::Ipv4,
        packet.payload.header.protocol == IpProtocol::Udp,
        !is_dhcp(packet.payload.payload.header),
        frame_parses_to(packet.wire(), result),
    ensures
        ({
            &&& result matches Ok(frame)
            &&& frame.header == packet.header
            &&& frame.payload matches EthernetKind::Ipv4(datagram)
            &&& datagram.header == packet.payload.header
            &&& datagram.payload matches Ipv4Kind::Udp(udp)
            &&& udp.header == packet.payload.payload.header
            &&& udp.payload matches UdpKind::Unknown(bytes)
            &&& bytes@ == packet.payload.payload.payload.wire()
        }),
{
    let wire = packet.wire();
    crate::wire::lemma_be_roundtrip(0x0800, 0);
    assert(wire.skip(14) =~= packet.payload.wire());
    assert(wire.subrange(0, 6) =~= packet.header.dst_addr@);
    assert(wire.subrange(6, 12) =~= packet.header.src_addr@);
    assert(be16(wire[12], wire[13]) == 0x0800);
    match result {
        Ok(frame) => {
            lemma_ethernet_address_by_bytes(frame.header.dst_addr, packet.header.dst_addr);
            lemma_ethernet_address_by_bytes(frame.header.src_addr, packet.header.src_addr);
            lemma_udp_datagram_roundtrip(packet.payload, Ok(frame.payload->Ipv4_0));
        },
        Err(error) => {
            lemma_udp_datagram_roundtrip(packet.payload, Err(error));
        },
    }
}

} // verus!
