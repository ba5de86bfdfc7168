//! The transmit buffer: an append-only byte builder of fixed capacity, with
//! patch points inside what has been appended.

use crate::ethernet::EthernetPacket;
use crate::wire::{be16, be16_bytes, be32_bytes, read_u16, write_u16, write_u32};
use crate::write_out::WriteOut;
use vstd::prelude::*;

verus! {

/// `bytes` with the range starting at `index` overwritten by `patch`.
pub open spec fn patched(bytes: Seq<u8>, index: int, patch: Seq<u8>) -> Seq<u8> {
    Seq::new(
        bytes.len(),
        |i: int|
            if index <= i < index + patch.len() {
                patch[i - index]
            } else {
                bytes[i]
            },
    )
}

/// Patching inside the middle one of three pieces leaves the outer two alone.
pub proof fn lemma_patched_middle(
    before: Seq<u8>,
    middle: Seq<u8>,
    after: Seq<u8>,
    at: int,
    patch: Seq<u8>,
)
    requires
        0 <= at,
        at + patch.len() <= middle.len(),
    ensures
        patched(before + middle + after, before.len() + at, patch) == before + patched(
            middle,
            at,
            patch,
        ) + after,
{
    assert(patched(before + middle + after, before.len() + at, patch) =~= before + patched(
        middle,
        at,
        patch,
    ) + after);
}

/// What was appended to a buffer can be cut off again at the old length.
pub proof fn lemma_split_appended(whole: Seq<u8>, before: Seq<u8>, appended: Seq<u8>)
    requires
        whole == before + appended,
    ensures
        whole.take(before.len() as int) == before,
        whole.skip(before.len() as int) == appended,
{
    assert(whole.take(before.len() as int) =~= before);
    assert(whole.skip(before.len() as int) =~= appended);
}

/// A byte sink for one outgoing frame. Its view is what has been appended so
/// far; its capacity never changes.
pub trait TxPacket: View<V = Seq<u8>> + Sized {
    /// The number of bytes the buffer can hold in all.
    spec fn capacity(&self) -> nat;

    /// Appends `bytes` and returns the offset at which they start, or fails
    /// and leaves the buffer as it was when they do not fit.
    fn push_bytes(&mut self, bytes: &[u8]) -> (r: Result<usize, ()>)
        ensures
            final(self).capacity() == old(self).capacity(),
            r is Ok <==> old(self)@.len() + bytes@.len() <= old(self).capacity(),
            r matches Ok(index) ==> index == old(self)@.len() && final(self)@ == old(self)@
                + bytes@,
            r is Err ==> final(self)@ == old(self)@,
    ;

    /// The number of bytes appended so far, which never exceeds the capacity.
    fn len(&self) -> (n: usize)
        ensures
            n == self@.len(),
            n <= self.capacity(),
    ;

    /// The `len` appended bytes that start at `index`.
    fn get_bytes(&self, index: usize, len: usize) -> (r: &[u8])
        requires
            index + len <= self@.len(),
        ensures
            r@ == self@.subrange(index as int, index + len),
    ;

    /// Overwrites appended bytes, starting at `index`, with `bytes`.
    fn set_bytes(&mut self, index: usize, bytes: &[u8])
        requires
            index + bytes@.len() <= old(self)@.len(),
        ensures
            final(self).capacity() == old(self).capacity(),
            final(self)@ == patched(old(self)@, index as int, bytes@),
    ;

    /// Appends one byte.
    fn push_byte(&mut self, value: u8) -> (r: Result<usize, ()>)
        ensures
            final(self).capacity() == old(self).capacity(),
            r is Ok <==> old(self)@.len() + 1 <= old(self).capacity(),
            r matches Ok(index) ==> index == old(self)@.len() && final(self)@ == old(self)@
                + seq![value],
            r is Err ==> final(self)@ == old(self)@,
    {
        let bytes = [value];
        self.push_bytes(bytes.as_slice())
    }

    /// Appends a 16-bit value, most significant byte first.
    fn push_u16(&mut self, value: u16) -> (r: Result<usize, ()>)
        ensures
            final(self).capacity() == old(self).capacity(),
            r is Ok <==> old(self)@.len() + 2 <= old(self).capacity(),
            r matches Ok(index) ==> index == old(self)@.len() && final(self)@ == old(self)@
                + be16_bytes(value),
            r is Err ==> final(self)@ == old(self)@,
    {
        let mut bytes = [0u8, 0u8];
        write_u16(&mut bytes, value);
        self.push_bytes(bytes.as_slice())
    }

    /// Appends a 32-bit value, most significant byte first.
    fn push_u32(&mut self, value: u32) -> (r: Result<usize, ()>)
        ensures
            final(self).capacity() == old(self).capacity(),
            r is Ok <==> old(self)@.len() + 4 <= old(self).capacity(),
            r matches Ok(index) ==> index == old(self)@.len() && final(self)@ == old(self)@
                + be32_bytes(value),
            r is Err ==> final(self)@ == old(self)@,
    {
        let mut bytes = [0u8, 0u8, 0u8, 0u8];
        write_u32(&mut bytes, value);
        self.push_bytes(bytes.as_slice())
    }

    /// Overwrites the two appended bytes at `index` with a 16-bit value, most
    /// significant byte first.
    fn set_u16(&mut self, index: usize, value: u16)
        requires
            index + 2 <= old(self)@.len(),
        ensures
            final(self).capacity() == old(self).capacity(),
            final(self)@ == patched(old(self)@, index as int, be16_bytes(value)),
    {
        let mut bytes = [0u8, 0u8];
        write_u16(&mut bytes, value);
        self.set_bytes(index, bytes.as_slice())
    }

    /// Reads the 16-bit value at `index`, hands it to `f`, and writes back
    /// what `f` returns.
    fn update_u16<F>(&mut self, index: usize, f: F) where F: FnOnce(u16) -> u16
        requires
            index + 2 <= old(self)@.len(),
            f.requires((be16(old(self)@[index as int], old(self)@[index + 1]),)),
        ensures
            final(self).capacity() == old(self).capacity(),
            exists|value: u16|
                f.ensures((be16(old(self)@[index as int], old(self)@[index + 1]),), value)
                    && final(self)@ == patched(old(self)@, index as int, be16_bytes(value)),
    {
        let value = read_u16(self.get_bytes(index, 2));
        let value = f(value);
        self.set_u16(index, value);
    }
}

/// `Vec::into_boxed_slice`: the same elements in the same order, in a box.
#[verifier::external_body]
fn vec_into_boxed_slice(bytes: Vec<u8>) -> (boxed: Box<[u8]>)
    ensures
        boxed@ == bytes@,
{
    bytes.into_boxed_slice()
}

/// A transmit buffer on the heap, with the capacity it was made for.
pub struct HeapTxPacket {
    data: Vec<u8>,
    room: usize,
}

impl View for HeapTxPacket {
    type V = Seq<u8>;

    closed spec fn view(&self) -> Seq<u8> {
        self.data@
    }
}

impl HeapTxPacket {
    /// An empty buffer that takes up to `max_len` bytes.
    pub fn new(max_len: usize) -> (packet: HeapTxPacket)
        ensures
            packet@ == Seq::<u8>::empty(),
            packet.capacity() == max_len,
    {
        HeapTxPacket { data: Vec::with_capacity(max_len), room: max_len }
    }

    /// Serializes a frame into a buffer of exactly its length.
    pub fn write_out<T: WriteOut>(packet: EthernetPacket<T>) -> (r: Result<HeapTxPacket, ()>)
        requires
            packet.writable(),
        ensures
            r matches Ok(tx_packet) && tx_packet@ == packet.wire(),
    {
        let mut tx_packet = HeapTxPacket::new(packet.len());
        packet.write_out(&mut tx_packet)?;
        assert(tx_packet@ =~= packet.wire());
        Ok(tx_packet)
    }

    /// The appended bytes as a boxed slice.
    pub fn into_boxed_slice(self) -> (bytes: Box<[u8]>)
        ensures
            bytes@ == self@,
    {
        vec_into_boxed_slice(self.data)
    }

    /// The bytes appended so far.
    pub fn as_slice(&self) -> (bytes: &[u8])
        ensures
            bytes@ == self@,
    {
        self.data.as_slice()
    }
}

impl TxPacket for HeapTxPacket {
    closed spec fn capacity(&self) -> nat {
        self.data@.len() + self.room as nat
    }

    fn push_bytes(&mut self, bytes: &[u8]) -> (r: Result<usize, ()>) {
        if self.room < bytes.len() {
            Err(())
        } else {
            let index = self.data.len();
            let mut i: usize = 0;
            while i < bytes.len()
                invariant
                    i <= bytes.len(),
                    self.room == old(self).room,
                    self.data@ == old(self).data@ + bytes@.take(i as int),
                decreases bytes.len() - i,
            {
                self.data.push(bytes[i]);
                proof {
                    assert(bytes@.take(i + 1) =~= bytes@.take(i as int).push(bytes@[i as int]));
                }
                i += 1;
            }
            assert(bytes@.take(i as int) =~= bytes@);
            self.room = self.room - bytes.len();
            Ok(index)
        }
    }

    fn len(&self) -> (n: usize) {
        self.data.len()
    }

    fn get_bytes(&self, index: usize, len: usize) -> (r: &[u8]) {
        let total = self.data.len();
        vstd::slice::slice_subrange(self.data.as_slice(), index, index + len)
    }

    fn set_bytes(&mut self, index: usize, bytes: &[u8]) {
        let total = self.data.len();
        let mut i: usize = 0;
        while i < bytes.len()
            invariant
                i <= bytes.len(),
                index + bytes@.len() <= total == old(self).data@.len(),
                self.room == old(self).room,
                self.data@ == patched(old(self).data@, index as int, bytes@.take(i as int)),
            decreases bytes.len() - i,
        {
            self.data.set(index + i, bytes[i]);
            i += 1;
        }
        assert(bytes@.take(i as int) =~= bytes@);
    }
}

} // verus!
