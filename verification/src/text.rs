//! Text forms: addresses as people write them, and hex dumps of bytes.

use vstd::prelude::*;

verus! {

/// The lower-case hexadecimal digit for a value below sixteen.
pub open spec fn hex_digit(value: int) -> char {
    seq!['0', '1', '2', '3', '4', '5', '6', '7', '8', '9', 'a', 'b', 'c', 'd', 'e', 'f'][value]
}

/// The two hexadecimal digits of a byte.
pub open spec fn hex_pair(value: u8) -> Seq<char> {
    seq![hex_digit(value as int / 16), hex_digit(value as int % 16)]
}

/// The hexadecimal digits of a number, without leading zeros.
pub open spec fn hex_digits(value: nat) -> Seq<char>
    decreases value,
{
    if value < 16 {
        seq![hex_digit(value as int)]
    } else {
        hex_digits(value / 16).push(hex_digit(value as int % 16))
    }
}

/// The hexadecimal digits of a number, filled up with zeros to four.
pub open spec fn hex_offset(value: nat) -> Seq<char> {
    let digits = hex_digits(value);
    if digits.len() >= 4 {
        digits
    } else {
        Seq::new((4 - digits.len()) as nat, |i: int| '0') + digits
    }
}

/// The decimal digit for a value below ten.
pub open spec fn decimal_digit(value: int) -> char {
    seq!['0', '1', '2', '3', '4', '5', '6', '7', '8', '9'][value]
}

/// The decimal digits of a byte, without leading zeros.
pub open spec fn decimal(value: u8) -> Seq<char> {
    if value >= 100 {
        seq![
            decimal_digit(value as int / 100),
            decimal_digit((value as int / 10) % 10),
            decimal_digit(value as int % 10),
        ]
    } else if value >= 10 {
        seq![decimal_digit(value as int / 10), decimal_digit(value as int % 10)]
    } else {
        seq![decimal_digit(value as int)]
    }
}

/// `format!` with `{:02x}` on a byte: lower-case hexadecimal, two digits wide,
/// filled up with a zero.
#[verifier::external_body]
pub(crate) fn format_hex_pair(value: u8) -> (text: String)
    ensures
        text@ == hex_pair(value),
{
    format!("{:02x}", value)
}

/// `format!` with `{:04x}` on an offset: lower-case hexadecimal, at least
/// four digits wide, filled up with zeros.
#[verifier::external_body]
pub(crate) fn format_hex_offset(value: usize) -> (text: String)
    ensures
        text@ == hex_offset(value as nat),
{
    format!("{:04x}", value)
}

/// `format!` with `{}` on a byte: decimal, without leading zeros.
#[verifier::external_body]
pub(crate) fn format_decimal(value: u8) -> (text: String)
    ensures
        text@ == decimal(value),
{
    format!("{}", value)
}

/// `String::push_str`: appends the characters of `piece`.
#[verifier::external_body]
pub(crate) fn push_str(text: &mut String, piece: &str)
    ensures
        final(text)@ == old(text)@ + piece@,
{
    text.push_str(piece)
}

/// The part of a hex dump that shows `bytes`: sixteen bytes to a row, every
/// row on a new line behind its four-digit offset and two spaces, every byte
/// as a space and two hexadecimal digits.
pub open spec fn hex_dump_rows(bytes: Seq<u8>) -> Seq<char>
    decreases bytes.len(),
{
    if bytes.len() == 0 {
        Seq::empty()
    } else {
        let index = (bytes.len() - 1) as nat;
        let row_start = if index % 16 == 0 {
            seq!['\n'] + hex_offset(index) + seq![' ', ' ']
        } else {
            Seq::empty()
        };
        hex_dump_rows(bytes.drop_last()) + row_start + seq![' '] + hex_pair(bytes.last())
    }
}

/// The hex dump of `bytes`: its rows and a final line break.
pub open spec fn hex_dump(bytes: Seq<u8>) -> Seq<char> {
    hex_dump_rows(bytes) + seq!['\n']
}

/// Bytes to be shown as a hex dump.
pub struct HexDumpPrint<'a>(pub &'a [u8]);

impl<'a> HexDumpPrint<'a> {
    /// The hex dump of the bytes.
    pub fn to_string(&self) -> (text: String)
        ensures
            text@ == hex_dump(self.0@),
    {
        let bytes = self.0;
        let mut text = String::new();
        let mut i: usize = 0;
        proof {
            reveal_strlit("\n");
            reveal_strlit("  ");
            reveal_strlit(" ");
            assert(bytes@.take(0) =~= Seq::<u8>::empty());
        }
        while i < bytes.len()
            invariant
                i <= bytes.len(),
                "\n"@ == seq!['\n'],
                "  "@ == seq![' ', ' '],
                " "@ == seq![' '],
                text@ == hex_dump_rows(bytes@.take(i as int)),
            decreases bytes.len() - i,
        {
            let ghost before = text@;
            let ghost shown = bytes@.take(i + 1);
            proof {
                assert(shown.drop_last() =~= bytes@.take(i as int));
                assert(shown.last() == bytes@[i as int]);
            }
            if i % 16 == 0 {
                push_str(&mut text, "\n");
                let offset = format_hex_offset(i);
                push_str(&mut text, offset.as_str());
                push_str(&mut text, "  ");
            }
            push_str(&mut text, " ");
            let pair = format_hex_pair(bytes[i]);
            push_str(&mut text, pair.as_str());
            proof {
                let row_start = if i % 16 == 0 {
                    seq!['\n'] + hex_offset(i as nat) + seq![' ', ' ']
                } else {
                    Seq::empty()
                };
                assert(text@ =~= before + row_start + seq![' '] + hex_pair(bytes@[i as int]));
            }
            i += 1;
        }
        proof {
            assert(bytes@.take(i as int) =~= bytes@);
        }
        push_str(&mut text, "\n");
        text
    }
}

} // verus!
