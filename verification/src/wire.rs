//! Big-endian integers on the wire.

use byteorder::{ByteOrder, NetworkEndian};
use vstd::prelude::*;

verus! {

/// The 16-bit value whose big-endian encoding is `hi, lo`.
pub open spec fn be16(hi: u8, lo: u8) -> u16 {
    (hi as int * 256 + lo as int) as u16
}

/// The 32-bit value whose big-endian encoding is `b0, b1, b2, b3`.
pub open spec fn be32(b0: u8, b1: u8, b2: u8, b3: u8) -> u32 {
    (b0 as int * 0x100_0000 + b1 as int * 0x1_0000 + b2 as int * 0x100 + b3 as int) as u32
}

/// The big-endian encoding of a 16-bit value.
pub open spec fn be16_bytes(value: u16) -> Seq<u8> {
    seq![(value / 256) as u8, (value % 256) as u8]
}

/// The big-endian encoding of a 32-bit value.
pub open spec fn be32_bytes(value: u32) -> Seq<u8> {
    seq![
        (value / 0x100_0000) as u8,
        ((value / 0x1_0000) % 256) as u8,
        ((value / 0x100) % 256) as u8,
        (value % 256) as u8,
    ]
}

/// Decoding inverts encoding, for both widths.
pub proof fn lemma_be_roundtrip(v16: u16, v32: u32)
    ensures
        be16(be16_bytes(v16)[0], be16_bytes(v16)[1]) == v16,
        be32(be32_bytes(v32)[0], be32_bytes(v32)[1], be32_bytes(v32)[2], be32_bytes(v32)[3])
            == v32,
{
}

/// Encoding inverts decoding of a 16-bit value.
pub proof fn lemma_be16_bytes_of_value(b0: u8, b1: u8)
    ensures
        be16_bytes(be16(b0, b1)) =~= seq![b0, b1],
{
    let v: int = b0 as int * 256 + b1 as int;
    assert(v / 256 == b0 as int && v % 256 == b1 as int);
}

/// `byteorder::NetworkEndian::read_u16`: the first two bytes of `buf`, read
/// most significant byte first. It panics on a shorter buffer.
#[verifier::external_body]
pub(crate) fn read_u16(buf: &[u8]) -> (value: u16)
    requires
        buf@.len() >= 2,
    ensures
        value == be16(buf@[0], buf@[1]),
{
    NetworkEndian::read_u16(buf)
}

/// `byteorder::NetworkEndian::read_u32`: the first four bytes of `buf`, read
/// most significant byte first. It panics on a shorter buffer.
#[verifier::external_body]
pub(crate) fn read_u32(buf: &[u8]) -> (value: u32)
    requires
        buf@.len() >= 4,
    ensures
        value == be32(buf@[0], buf@[1], buf@[2], buf@[3]),
{
    NetworkEndian::read_u32(buf)
}

/// `byteorder::NetworkEndian::write_u16`: stores `value` into a two-byte
/// buffer, most significant byte first.
#[verifier::external_body]
pub(crate) fn write_u16(buf: &mut [u8; 2], value: u16)
    ensures
        final(buf)@ == be16_bytes(value),
{
    NetworkEndian::write_u16(buf, value)
}

/// `byteorder::NetworkEndian::write_u32`: stores `value` into a four-byte
/// buffer, most significant byte first.
#[verifier::external_body]
pub(crate) fn write_u32(buf: &mut [u8; 4], value: u32)
    ensures
        final(buf)@ == be32_bytes(value),
{
    NetworkEndian::write_u32(buf, value)
}

} // verus!
