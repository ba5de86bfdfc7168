//! Parsing of received bytes into typed records.

use crate::ethernet::{frame_parses_to, EthernetKind, EthernetPacket};
use vstd::prelude::*;

verus! {

/// Why a parse gave no record.
#[derive(Debug, Clone, Copy, PartialEq, Eq)]
pub enum ParseError {
    /// The input is well formed but holds something that is not modelled.
    Unimplemented(&'static str),
    /// A fixed field holds a value outside the accepted set.
    Malformed(&'static str),
    /// The input, of the given length, is too short for the layer.
    Truncated(usize),
}

/// A record that can be read from bytes.
pub trait Parse<'a>: Sized {
    /// Whether `result` is what parsing `data` gives. For every `data` the
    /// relation fixes the error, or every field and the bytes of every
    /// payload of the record.
    spec fn parses_to(data: Seq<u8>, result: Result<Self, ParseError>) -> bool;

    /// Parses `data`.
    fn parse(data: &'a [u8]) -> (result: Result<Self, ParseError>)
        ensures
            Self::parses_to(data@, result),
    ;
}

/// Parses a received Ethernet frame down to its innermost known layer.
pub fn parse(data: &[u8]) -> (result: Result<EthernetPacket<EthernetKind<'_>>, ParseError>)
    ensures
        frame_parses_to(data@, result),
{
    EthernetPacket::parse(data)
}

} // verus!
