//! DHCPv4: the messages a client sends, and the answers it reads.

use crate::ethernet::{EthernetAddress, EthernetPacket};
use crate::ipv4::{Ipv4Address, Ipv4Packet};
use crate::parse::{Parse, ParseError};
use crate::tx_packet::TxPacket;
use crate::udp::{UdpHeader, UdpPacket};
use crate::wire::{be16_bytes, be32, be32_bytes, read_u32};
use crate::write_out::WriteOut;
use vstd::prelude::*;
use vstd::slice::slice_subrange;

verus! {

/// The length of a DHCP message up to and including the magic cookie.
pub const DHCP_FIXED_LEN: usize = 240;

/// The magic cookie that precedes the options.
pub const DHCP_MAGIC_COOKIE: u32 = 0x63825363;

/// The transaction identifier of the messages built here.
pub const DHCP_TRANSACTION_ID: u32 = 0x12345678;

/// The port on which a DHCP client listens.
pub const DHCP_CLIENT_PORT: u16 = 68;

/// The port on which a DHCP server listens.
pub const DHCP_SERVER_PORT: u16 = 67;

/// A broadcast frame from `mac`, from the unspecified address and the client
/// port to the broadcast address and the server port, that carries `message`.
pub open spec fn client_broadcast(mac: EthernetAddress, message: DhcpPacket) -> EthernetPacket<
    Ipv4Packet<UdpPacket<DhcpPacket>>,
> {
    EthernetPacket::spec_new_ipv4(
        mac,
        EthernetAddress([0xffu8, 0xffu8, 0xffu8, 0xffu8, 0xffu8, 0xffu8]),
        Ipv4Packet::spec_new_udp(
            Ipv4Address([0u8, 0u8, 0u8, 0u8]),
            Ipv4Address([0xffu8, 0xffu8, 0xffu8, 0xffu8]),
            (UdpPacket {
                header: UdpHeader { src_port: DHCP_CLIENT_PORT, dst_port: DHCP_SERVER_PORT },
                payload: message,
            }),
        ),
    )
}

/// Wraps a client message for broadcast.
fn new_client_broadcast(mac: EthernetAddress, message: DhcpPacket) -> (packet: EthernetPacket<
    Ipv4Packet<UdpPacket<DhcpPacket>>,
>)
    ensures
        packet == client_broadcast(mac, message),
{
    let udp = UdpPacket::new(DHCP_CLIENT_PORT, DHCP_SERVER_PORT, message);
    let ip = Ipv4Packet::new_udp(
        Ipv4Address([0u8, 0u8, 0u8, 0u8]),
        Ipv4Address([0xffu8, 0xffu8, 0xffu8, 0xffu8]),
        udp,
    );
    EthernetPacket::new_ipv4(
        mac,
        EthernetAddress([0xffu8, 0xffu8, 0xffu8, 0xffu8, 0xffu8, 0xffu8]),
        ip,
    )
}

/// The broadcast frame with which the client `mac` looks for servers.
pub fn new_discover_msg(mac: EthernetAddress) -> (packet: EthernetPacket<
    Ipv4Packet<UdpPacket<DhcpPacket>>,
>)
    ensures
        packet == client_broadcast(
            mac,
            DhcpPacket {
                mac,
                transaction_id: DHCP_TRANSACTION_ID,
                operation: DhcpType::Discover,
            },
        ),
{
    let dhcp_discover = DhcpPacket {
        mac: mac,
        transaction_id: DHCP_TRANSACTION_ID,
        operation: DhcpType::Discover,
    };
    new_client_broadcast(mac, dhcp_discover)
}

/// The broadcast frame with which the client `mac` asks the server
/// `dhcp_server_ip` for the address `ip`.
pub fn new_request_msg(
    mac: EthernetAddress,
    ip: Ipv4Address,
    dhcp_server_ip: Ipv4Address,
) -> (packet: EthernetPacket<Ipv4Packet<UdpPacket<DhcpPacket>>>)
    ensures
        packet == client_broadcast(
            mac,
            DhcpPacket {
                mac,
                transaction_id: DHCP_TRANSACTION_ID,
                operation: DhcpType::Request { ip, dhcp_server_ip },
            },
        ),
{
    let dhcp_request = DhcpPacket {
        mac: mac,
        transaction_id: DHCP_TRANSACTION_ID,
        operation: DhcpType::Request { ip, dhcp_server_ip },
    };
    new_client_broadcast(mac, dhcp_request)
}

/// A DHCP message.
#[derive(Debug, Clone, Copy, PartialEq, Eq)]
pub struct DhcpPacket {
    pub mac: EthernetAddress,
    pub transaction_id: u32,
    pub operation: DhcpType,
}

/// The kind of a DHCP message, with the addresses of that kind.
#[derive(Debug, Clone, Copy, PartialEq, Eq)]
pub enum DhcpType {
    Discover,
    Request { ip: Ipv4Address, dhcp_server_ip: Ipv4Address },
    Offer { ip: Ipv4Address, dhcp_server_ip: Ipv4Address },
    Ack { ip: Ipv4Address },
}

impl DhcpType {
    /// The first byte of a message of this kind: 1 for what a client sends,
    /// 2 for what a server sends.
    pub open spec fn op_byte(&self) -> u8 {
        match *self {
            DhcpType::Discover | DhcpType::Request { .. } => 1,
            DhcpType::Offer { .. } | DhcpType::Ack { .. } => 2,
        }
    }
}

/// `count` zero bytes.
pub open spec fn zeros(count: nat) -> Seq<u8> {
    Seq::new(count, |i: int| 0u8)
}

/// The 240 bytes that start a message: the direction, Ethernet as the
/// hardware, no hops, the transaction, no seconds, the broadcast flag, no
/// addresses, the client's hardware address, no server or file name, and the
/// magic cookie.
pub open spec fn dhcp_fixed(message: DhcpPacket) -> Seq<u8> {
    seq![message.operation.op_byte(), 1u8, 6u8, 0u8] + be32_bytes(message.transaction_id)
        + be16_bytes(0) + be16_bytes(
        0x8000,
    ) + zeros(16) + message.mac@ + zeros(10) + zeros(64) + zeros(128) + be32_bytes(
        DHCP_MAGIC_COOKIE,
    )
}

/// The options of a message from a client, end marker included. A discover
/// names its type and asks for subnet mask, router, domain name and name
/// server; a request names its type, the address it asks for and the server
/// it asks.
pub open spec fn dhcp_options(operation: DhcpType) -> Seq<u8> {
    match operation {
        DhcpType::Discover => seq![53u8, 1u8, 1u8, 55u8, 4u8, 1u8, 3u8, 15u8, 6u8, 255u8],
        DhcpType::Request { ip, dhcp_server_ip } => seq![53u8, 1u8, 3u8, 50u8, 4u8] + ip@
            + seq![54u8, 4u8] + dhcp_server_ip@ + seq![255u8],
        _ => Seq::empty(),
    }
}

/// Appends `count` zero bytes.
fn push_zeros<P: TxPacket>(packet: &mut P, count: usize) -> (r: Result<(), ()>)
    ensures
        final(packet).capacity() == old(packet).capacity(),
        r is Ok <==> old(packet)@.len() + count <= old(packet).capacity(),
        r is Ok ==> final(packet)@ == old(packet)@ + zeros(count as nat),
        r is Err ==> old(packet)@.is_prefix_of(final(packet)@),
{
    let start_index = packet.len();
    let mut done: usize = 0;
    while done < count
        invariant
            done <= count,
            start_index == old(packet)@.len(),
            packet@.len() <= packet.capacity(),
            packet.capacity() == old(packet).capacity(),
            packet@ == old(packet)@ + zeros(done as nat),
        decreases count - done,
    {
        if packet.push_byte(0).is_err() {
            return Err(());
        }
        assert(zeros(done as nat).push(0u8) =~= zeros((done + 1) as nat));
        assert(packet@ =~= old(packet)@ + zeros((done + 1) as nat));
        done += 1;
    }
    Ok(())
}

impl DhcpPacket {
    /// Appends the fixed part of the message.
    fn write_fixed<P: TxPacket>(&self, packet: &mut P) -> (r: Result<(), ()>)
        ensures
            final(packet).capacity() == old(packet).capacity(),
            r is Ok <==> old(packet)@.len() + DHCP_FIXED_LEN <= old(packet).capacity(),
            r is Ok ==> final(packet)@ == old(packet)@ + dhcp_fixed(*self),
            r is Err ==> old(packet)@.is_prefix_of(final(packet)@),
    {
        let ghost start = packet@;
        let operation = match self.operation {
            DhcpType::Discover | DhcpType::Request { .. } => 1,
            DhcpType::Offer { .. } | DhcpType::Ack { .. } => 2,
        };
        packet.push_byte(operation)?;
        packet.push_byte(1)?;
        packet.push_byte(6)?;
        packet.push_byte(0)?;
        packet.push_u32(self.transaction_id)?;
        packet.push_u16(0)?;
        packet.push_u16(1 << 15)?;
        assert(1u16 << 15 == 0x8000u16) by (bit_vector);
        let ghost head = packet@;
        assert(head =~= start + (seq![self.operation.op_byte(), 1u8, 6u8, 0u8] + be32_bytes(
            self.transaction_id,
        )
            + be16_bytes(0) + be16_bytes(0x8000)));
        push_zeros(packet, 16)?;
        let mac = self.mac.as_bytes();
        packet.push_bytes(mac.as_slice())?;
        push_zeros(packet, 10)?;
        push_zeros(packet, 64)?;
        push_zeros(packet, 128)?;
        packet.push_u32(DHCP_MAGIC_COOKIE)?;
        assert(packet@ =~= start + dhcp_fixed(*self));
        Ok(())
    }

    /// Appends the options of the message.
    fn write_options<P: TxPacket>(&self, packet: &mut P) -> (r: Result<(), ()>)
        requires
            self.writable(),
        ensures
            final(packet).capacity() == old(packet).capacity(),
            r is Ok <==> old(packet)@.len() + dhcp_options(self.operation).len() <= old(
                packet,
            ).capacity(),
            r is Ok ==> final(packet)@ == old(packet)@ + dhcp_options(self.operation),
            r is Err ==> old(packet)@.is_prefix_of(final(packet)@),
    {
        let ghost start = packet@;
        match self.operation {
            DhcpType::Discover => {
                packet.push_byte(53)?;
                packet.push_byte(1)?;
                packet.push_byte(1)?;
                packet.push_byte(55)?;
                packet.push_byte(4)?;
                packet.push_byte(1)?;
                packet.push_byte(3)?;
                packet.push_byte(15)?;
                packet.push_byte(6)?;
                packet.push_byte(255)?;
            },
            DhcpType::Request { ip, dhcp_server_ip } => {
                packet.push_byte(53)?;
                packet.push_byte(1)?;
                packet.push_byte(3)?;
                packet.push_byte(50)?;
                packet.push_byte(4)?;
                let requested = ip.as_bytes();
                packet.push_bytes(requested.as_slice())?;
                packet.push_byte(54)?;
                packet.push_byte(4)?;
                let server = dhcp_server_ip.as_bytes();
                packet.push_bytes(server.as_slice())?;
                packet.push_byte(255)?;
            },
            DhcpType::Offer { .. } | DhcpType::Ack { .. } => {},
        }
        assert(packet@ =~= start + dhcp_options(self.operation));
        Ok(())
    }
}

impl WriteOut for DhcpPacket {
    /// Only what a client sends can be written.
    open spec fn writable(&self) -> bool {
        self.operation is Discover || self.operation is Request
    }

    open spec fn wire(&self) -> Seq<u8> {
        dhcp_fixed(*self) + dhcp_options(self.operation)
    }

    open spec fn open_checksum(&self) -> Option<int> {
        None
    }

    fn len(&self) -> (n: usize) {
        240 + match self.operation {
            DhcpType::Discover => 10,
            DhcpType::Request { .. } => 16,
            DhcpType::Offer { .. } => 0,
            DhcpType::Ack { .. } => 0,
        }
    }

    fn write_out<P: TxPacket>(&self, packet: &mut P) -> (r: Result<(), ()>) {
        let ghost start = packet@;
        self.write_fixed(packet)?;
        self.write_options(packet)?;
        assert(packet@ =~= start + self.wire());
        Ok(())
    }

    fn open_checksum_offset(&self) -> (offset: Option<usize>) {
        None
    }
}

/// What the search for the message type among the options gives.
#[derive(Debug, Clone, Copy, PartialEq, Eq)]
pub enum MessageTypeScan {
    /// The message type option holds this value.
    Found(u8),
    /// The options end without a message type.
    Missing,
    /// An option runs past the end of the message.
    Overrun,
}

/// Searches the options of `data`, from offset `at` on, for the first option
/// with tag 53 and length 1. Every option is a tag, a length and that many
/// bytes; the tag 255, or the end of the message, ends the options.
pub open spec fn scan_message_type(data: Seq<u8>, at: int) -> MessageTypeScan
    decreases data.len() - at,
{
    if at < 0 || at >= data.len() || data[at] == 255 {
        MessageTypeScan::Missing
    } else if at + 1 >= data.len() {
        MessageTypeScan::Overrun
    } else if data[at] == 53 && data[at + 1] == 1 {
        if at + 2 < data.len() {
            MessageTypeScan::Found(data[at + 2])
        } else {
            MessageTypeScan::Overrun
        }
    } else if at + 2 + data[at + 1] > data.len() {
        MessageTypeScan::Overrun
    } else {
        scan_message_type(data, at + 2 + data[at + 1])
    }
}

/// Whether the four bytes before the options are the magic cookie.
pub open spec fn has_magic_cookie(data: Seq<u8>) -> bool {
    be32(data[236], data[237], data[238], data[239]) == DHCP_MAGIC_COOKIE
}

/// Searches the options behind the magic cookie for the message type.
fn parse_message_type_tag(data: &[u8]) -> (found: MessageTypeScan)
    requires
        data@.len() >= DHCP_FIXED_LEN,
    ensures
        found == scan_message_type(data@, DHCP_FIXED_LEN as int),
{
    let mut at: usize = DHCP_FIXED_LEN;
    while at < data.len()
        invariant
            DHCP_FIXED_LEN <= at <= data.len(),
            scan_message_type(data@, at as int) == scan_message_type(data@, DHCP_FIXED_LEN as int),
        decreases data.len() - at,
    {
        let code = data[at];
        if code == 255 {
            return MessageTypeScan::Missing;
        }
        if data.len() - at < 2 {
            return MessageTypeScan::Overrun;
        }
        let len = data[at + 1];
        if code == 53 && len == 1 {
            if data.len() - at > 2 {
                return MessageTypeScan::Found(data[at + 2]);
            } else {
                return MessageTypeScan::Overrun;
            }
        }
        let step: usize = 2 + len as usize;
        if data.len() - at < step {
            return MessageTypeScan::Overrun;
        }
        at += step;
    }
    MessageTypeScan::Missing
}

/// Whether `result` is what reading `data` as a DHCP message gives. Only an
/// offer or an acknowledgment is read; the addresses come from the fixed part
/// of the message.
pub open spec fn dhcp_parses_to(
    data: Seq<u8>,
    result: Result<DhcpPacket, ParseError>,
) -> bool {
    let found = scan_message_type(data, DHCP_FIXED_LEN as int);
    match result {
        Ok(message) => {
            &&& data.len() >= DHCP_FIXED_LEN
            &&& has_magic_cookie(data)
            &&& message.mac@ == data.subrange(28, 34)
            &&& message.transaction_id == be32(data[4], data[5], data[6], data[7])
            &&& match message.operation {
                DhcpType::Offer { ip, dhcp_server_ip } => {
                    &&& found == MessageTypeScan::Found(2)
                    &&& ip@ == data.subrange(16, 20)
                    &&& dhcp_server_ip@ == data.subrange(20, 24)
                },
                DhcpType::Ack { ip } => {
                    &&& found == MessageTypeScan::Found(5)
                    &&& ip@ == data.subrange(16, 20)
                },
                _ => false,
            }
        },
        Err(error) => if data.len() < DHCP_FIXED_LEN {
            error == ParseError::Unimplemented("dhcp message without options")
        } else if !has_magic_cookie(data) {
            error == ParseError::Unimplemented("dhcp magic cookie missing")
        } else {
            match found {
                MessageTypeScan::Missing => error == ParseError::Unimplemented(
                    "dhcp message type missing",
                ),
                MessageTypeScan::Overrun => error == ParseError::Malformed(
                    "dhcp option exceeds the message",
                ),
                MessageTypeScan::Found(kind) => if kind == 1 {
                    error == ParseError::Unimplemented("dhcp discover")
                } else if kind == 3 {
                    error == ParseError::Unimplemented("dhcp request")
                } else {
                    &&& kind != 2
                    &&& kind != 5
                    &&& error == ParseError::Unimplemented("unknown dhcp message type")
                },
            }
        },
    }
}

impl<'a> Parse<'a> for DhcpPacket {
    open spec fn parses_to(data: Seq<u8>, result: Result<Self, ParseError>) -> bool {
        dhcp_parses_to(data, result)
    }

    fn parse(data: &'a [u8]) -> (result: Result<Self, ParseError>) {
        if data.len() < DHCP_FIXED_LEN {
            return Err(ParseError::Unimplemented("dhcp message without options"));
        }
        if read_u32(slice_subrange(data, 236, 240)) != DHCP_MAGIC_COOKIE {
            return Err(ParseError::Unimplemented("dhcp magic cookie missing"));
        }
        let kind = match parse_message_type_tag(data) {
            MessageTypeScan::Found(kind) => kind,
            MessageTypeScan::Missing => {
                return Err(ParseError::Unimplemented("dhcp message type missing"));
            },
            MessageTypeScan::Overrun => {
                return Err(ParseError::Malformed("dhcp option exceeds the message"));
            },
        };
        let operation = if kind == 1 {
            return Err(ParseError::Unimplemented("dhcp discover"));
        } else if kind == 2 {
            let ip = Ipv4Address::from_bytes(slice_subrange(data, 16, 20));
            let dhcp_server_ip = Ipv4Address::from_bytes(slice_subrange(data, 20, 24));
            DhcpType::Offer { ip, dhcp_server_ip }
        } else if kind == 3 {
            return Err(ParseError::Unimplemented("dhcp request"));
        } else if kind == 5 {
            let ip = Ipv4Address::from_bytes(slice_subrange(data, 16, 20));
            DhcpType::Ack { ip }
        } else {
            return Err(ParseError::Unimplemented("unknown dhcp message type"));
        };
        Ok(
            DhcpPacket {
                mac: EthernetAddress::from_bytes(slice_subrange(data, 28, 34)),
                transaction_id: read_u32(slice_subrange(data, 4, 8)),
                operation: operation,
            },
        )
    }
}

/// Reading back a serialized client message gives no message: a discover
/// and a request are not read.
pub proof fn lemma_client_message_is_not_read(
    message: DhcpPacket,
    result: Result<DhcpPacket, ParseError>,
)
    requires
        message.writable(),
        dhcp_parses_to(message.wire(), result),
    ensures
        message.operation is Discover ==> result == Err::<DhcpPacket, ParseError>(
            ParseError::Unimplemented("dhcp discover"),
        ),
        message.operation is Request ==> result == Err::<DhcpPacket, ParseError>(
            ParseError::Unimplemented("dhcp request"),
        ),
{
    let wire = message.wire();
    let fixed = dhcp_fixed(message);
    let options = dhcp_options(message.operation);
    assert(fixed.len() == DHCP_FIXED_LEN);
    assert(fixed.skip(236) =~= be32_bytes(DHCP_MAGIC_COOKIE));
    crate::wire::lemma_be_roundtrip(0, DHCP_MAGIC_COOKIE);
    assert(wire[236] == fixed.skip(236)[0] && wire[237] == fixed.skip(236)[1] && wire[238]
        == fixed.skip(236)[2] && wire[239] == fixed.skip(236)[3]);
    assert(has_magic_cookie(wire));
    assert(wire[240] == options[0] && wire[241] == options[1] && wire[242] == options[2]);
    assert(scan_message_type(wire, 240) == MessageTypeScan::Found(options[2]));
}

} // verus!
