//! Wire formats for Ethernet II, ARP, IPv4, ICMP echo, UDP, DHCPv4 and TCP,
//! with a passive TCP endpoint.
//!
//! Every record has a mathematical model of the bytes it serializes to, and
//! the writers and parsers are proved against that model.

pub mod arp;
pub mod bits;
pub mod dhcp;
pub mod ethernet;
pub mod icmp;
pub mod ip_checksum;
pub mod ipv4;
pub mod parse;
pub mod tcp;
pub mod text;
pub mod tx_packet;
pub mod udp;
pub mod wire;
pub mod write_out;

pub use parse::{parse, Parse, ParseError};
pub use tx_packet::{HeapTxPacket, TxPacket};
pub use write_out::WriteOut;
