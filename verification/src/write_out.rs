//! Serialization of a record into a transmit buffer, and the plain payloads
//! that end a stack of layers.

use crate::tx_packet::TxPacket;
use std::borrow::Cow;
use vstd::prelude::*;

verus! {

/// A record that has a wire format.
pub trait WriteOut {
    /// Whether the record can be written at all: every length that the format
    /// stores fits the field that stores it.
    spec fn writable(&self) -> bool;

    /// The bytes that the record serializes to.
    spec fn wire(&self) -> Seq<u8>;

    /// The offset inside `wire()` of a checksum that is still missing the
    /// pseudo-header sum, which only an enclosing IPv4 layer can add.
    spec fn open_checksum(&self) -> Option<int>;

    /// The length of the serialized record.
    fn len(&self) -> (n: usize)
        requires
            self.writable(),
        ensures
            n == self.wire().len(),
    ;

    /// Appends the serialized record to `packet`. It fails exactly when the
    /// record does not fit; what was appended before the failure stays.
    fn write_out<P: TxPacket>(&self, packet: &mut P) -> (r: Result<(), ()>)
        requires
            self.writable(),
        ensures
            final(packet).capacity() == old(packet).capacity(),
            r is Ok <==> old(packet)@.len() + self.wire().len() <= old(packet).capacity(),
            r is Ok ==> final(packet)@ == old(packet)@ + self.wire(),
            r is Err ==> old(packet)@.is_prefix_of(final(packet)@),
    ;

    /// The offset that `open_checksum` names, for the enclosing layer.
    fn open_checksum_offset(&self) -> (offset: Option<usize>)
        ensures
            match offset {
                Some(at) => self.open_checksum() == Some(at as int) && at + 2
                    <= self.wire().len(),
                None => self.open_checksum() is None,
            },
    ;
}

impl<'a> WriteOut for &'a [u8] {
    open spec fn writable(&self) -> bool {
        true
    }

    open spec fn wire(&self) -> Seq<u8> {
        self@
    }

    open spec fn open_checksum(&self) -> Option<int> {
        None
    }

    fn len(&self) -> (n: usize) {
        <[u8]>::len(self)
    }

    fn write_out<P: TxPacket>(&self, packet: &mut P) -> (r: Result<(), ()>) {
        match packet.push_bytes(self) {
            Ok(_) => Ok(()),
            Err(_) => Err(()),
        }
    }

    fn open_checksum_offset(&self) -> (offset: Option<usize>) {
        None
    }
}

impl WriteOut for Vec<u8> {
    open spec fn writable(&self) -> bool {
        true
    }

    open spec fn wire(&self) -> Seq<u8> {
        self@
    }

    open spec fn open_checksum(&self) -> Option<int> {
        None
    }

    fn len(&self) -> (n: usize) {
        Vec::len(self)
    }

    fn write_out<P: TxPacket>(&self, packet: &mut P) -> (r: Result<(), ()>) {
        match packet.push_bytes(self.as_slice()) {
            Ok(_) => Ok(()),
            Err(_) => Err(()),
        }
    }

    fn open_checksum_offset(&self) -> (offset: Option<usize>) {
        None
    }
}

impl<'a> WriteOut for Cow<'a, [u8]> {
    open spec fn writable(&self) -> bool {
        true
    }

    open spec fn wire(&self) -> Seq<u8> {
        self@
    }

    open spec fn open_checksum(&self) -> Option<int> {
        None
    }

    fn len(&self) -> (n: usize) {
        match self {
            Cow::Borrowed(bytes) => <[u8]>::len(bytes),
            Cow::Owned(bytes) => Vec::len(bytes),
        }
    }

    fn write_out<P: TxPacket>(&self, packet: &mut P) -> (r: Result<(), ()>) {
        let pushed = match self {
            Cow::Borrowed(bytes) => packet.push_bytes(bytes),
            Cow::Owned(bytes) => packet.push_bytes(bytes.as_slice()),
        };
        match pushed {
            Ok(_) => Ok(()),
            Err(_) => Err(()),
        }
    }

    fn open_checksum_offset(&self) -> (offset: Option<usize>) {
        None
    }
}

/// The payload of no bytes.
#[derive(Debug, Clone, Copy, PartialEq, Eq)]
pub struct Empty;

impl WriteOut for Empty {
    open spec fn writable(&self) -> bool {
        true
    }

    open spec fn wire(&self) -> Seq<u8> {
        Seq::empty()
    }

    open spec fn open_checksum(&self) -> Option<int> {
        None
    }

    fn len(&self) -> (n: usize) {
        0
    }

    fn write_out<P: TxPacket>(&self, packet: &mut P) -> (r: Result<(), ()>) {
        let n = packet.len();
        assert(packet@ + Seq::<u8>::empty() =~= packet@);
        Ok(())
    }

    fn open_checksum_offset(&self) -> (offset: Option<usize>) {
        None
    }
}

} // verus!
