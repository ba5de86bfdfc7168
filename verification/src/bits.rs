//! Single bits and bit ranges of a byte.

use bit_field::BitField;
use vstd::prelude::*;

verus! {

/// Whether bit `bit` of `value` is set; bit 0 is the least significant.
pub open spec fn bit_at(value: u8, bit: usize) -> bool {
    value & (1u8 << (bit as u8)) != 0
}

/// `value` with bit `bit` set or cleared.
pub open spec fn with_bit(value: u8, bit: usize, on: bool) -> u8 {
    if on {
        value | (1u8 << (bit as u8))
    } else {
        value & !(1u8 << (bit as u8))
    }
}

/// The bits `start..end` of `value`, moved down to bit 0.
pub open spec fn bit_range(value: u8, start: usize, end: usize) -> u8 {
    if start == end {
        0
    } else {
        ((value << ((8 - end) as u8)) >> ((8 - end) as u8)) >> (start as u8)
    }
}

/// `bit_field::BitField::get_bit` on a byte: whether the bit at the given
/// index is set. It panics on an index of 8 or more.
#[verifier::external_body]
pub(crate) fn get_bit(value: u8, bit: usize) -> (set: bool)
    requires
        bit < 8,
    ensures
        set == bit_at(value, bit),
{
    value.get_bit(bit)
}

/// `bit_field::BitField::set_bit` on a byte: sets or clears the bit at the
/// given index and leaves the others. It panics on an index of 8 or more.
#[verifier::external_body]
pub(crate) fn set_bit(value: &mut u8, bit: usize, on: bool)
    requires
        bit < 8,
    ensures
        *final(value) == with_bit(*old(value), bit, on),
{
    value.set_bit(bit, on);
}

/// `bit_field::BitField::get_bits` on a byte with the range `start..end`:
/// the bits of that range, moved down to bit 0. It panics unless
/// `start <= end <= 8` and `start < 8`.
#[verifier::external_body]
pub(crate) fn get_bits(value: u8, start: usize, end: usize) -> (bits: u8)
    requires
        start < 8,
        start <= end <= 8,
    ensures
        bits == bit_range(value, start, end),
{
    value.get_bits(start..end)
}

} // verus!
