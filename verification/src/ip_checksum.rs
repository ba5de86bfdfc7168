//! The Internet checksum: sixteen-bit one's-complement sums over byte ranges.

use crate::ipv4::{IpProtocol, Ipv4Address};
use crate::tx_packet::{patched, TxPacket};
use crate::wire::{be16, be16_bytes, read_u16, write_u16};
use vstd::prelude::*;

verus! {

/// A natural number reduced to a sixteen-bit one's-complement value: zero
/// stays zero, and every other number lands in `1..=0xffff` by casting out
/// `0xffff`.
pub open spec fn ones(x: nat) -> nat {
    if x == 0 {
        0
    } else if x % 0xffff == 0 {
        0xffff
    } else {
        x % 0xffff
    }
}

/// The plain sum of the big-endian 16-bit words of `bytes`; an odd trailing
/// byte counts as the high byte of a word whose low byte is zero.
pub open spec fn word_sum(bytes: Seq<u8>) -> nat
    decreases bytes.len(),
{
    if bytes.len() == 0 {
        0
    } else if bytes.len() % 2 == 1 {
        word_sum(bytes.drop_last()) + bytes.last() as nat * 256
    } else {
        word_sum(bytes.subrange(0, bytes.len() - 2)) + be16(
            bytes[bytes.len() - 2],
            bytes[bytes.len() - 1],
        ) as nat
    }
}

/// The sixteen-bit one's-complement sum of `bytes`, before the final
/// complement.
pub open spec fn data_sum(bytes: Seq<u8>) -> u16 {
    ones(word_sum(bytes)) as u16
}

/// The plain sum of a sequence of 16-bit values.
pub open spec fn value_sum(values: Seq<u16>) -> nat
    decreases values.len(),
{
    if values.len() == 0 {
        0
    } else {
        value_sum(values.drop_last()) + values.last() as nat
    }
}

/// The one's-complement sum of several one's-complement sums.
pub open spec fn combine_sum(values: Seq<u16>) -> u16 {
    ones(value_sum(values)) as u16
}

/// One folding step of an accumulator: the high half added to the low half.
pub open spec fn fold_once(word: nat) -> nat {
    word / 0x1_0000 + word % 0x1_0000
}

/// Folding the carries of a 32-bit accumulator twice gives its
/// one's-complement reduction.
pub proof fn lemma_fold_is_ones(word: u32)
    ensures
        fold_once(word as nat) < 0x2_0000,
        fold_once(fold_once(word as nat)) == ones(word as nat),
{
    let w = word as int;
    let s = fold_once(word as nat) as int;
    let r = fold_once(s as nat) as int;
    vstd::arithmetic::div_mod::lemma_fundamental_div_mod(w, 0x1_0000);
    vstd::arithmetic::div_mod::lemma_fundamental_div_mod(s, 0x1_0000);
    assert(w == 0xffff * (w / 0x1_0000) + s);
    assert(s == 0xffff * (s / 0x1_0000) + r);
    vstd::arithmetic::div_mod::lemma_mod_multiples_vanish(w / 0x1_0000, s, 0xffff);
    vstd::arithmetic::div_mod::lemma_mod_multiples_vanish(s / 0x1_0000, r, 0xffff);
    assert(w % 0xffff == r % 0xffff);
    assert(s / 0x1_0000 <= 1);
    assert(s / 0x1_0000 == 1 ==> s % 0x1_0000 < 0xffff);
    assert(0 <= r <= 0xffff);
    assert(r == 0 <==> w == 0);
    if r == 0xffff {
        assert(r % 0xffff == 0);
    } else {
        assert(r % 0xffff == r);
    }
}

/// Reducing either operand first does not change a reduced sum.
pub proof fn lemma_ones_add(a: nat, b: nat)
    ensures
        ones(ones(a) + b) == ones(a + b),
        ones(a + ones(b)) == ones(a + b),
        ones(ones(a)) == ones(a),
        ones(a) <= 0xffff,
        ones(a) == 0 <==> a == 0,
{
    assert(ones(a) % 0xffff == a % 0xffff);
    assert(ones(b) % 0xffff == b % 0xffff);
    vstd::arithmetic::div_mod::lemma_add_mod_noop(a as int, b as int, 0xffff);
    vstd::arithmetic::div_mod::lemma_add_mod_noop(ones(a) as int, b as int, 0xffff);
    vstd::arithmetic::div_mod::lemma_add_mod_noop(a as int, ones(b) as int, 0xffff);
}

/// Folds the carries of a 32-bit accumulator into sixteen bits.
fn propagate_carries(word: u32) -> (folded: u16)
    ensures
        folded as nat == ones(word as nat),
{
    proof {
        lemma_fold_is_ones(word);
        assert(word >> 16 == word / 0x1_0000 && word & 0xffff == word % 0x1_0000) by (bit_vector);
    }
    let sum: u32 = (word >> 16) + (word & 0xffff);
    proof {
        assert(sum >> 16 == sum / 0x1_0000 && sum & 0xffff == sum % 0x1_0000) by (bit_vector);
    }
    let folded: u32 = (sum >> 16) + (sum & 0xffff);
    folded as u16
}

/// Computes the one's-complement sum of `bytes`, without the final
/// complement. The accumulator is folded after every word, so no input is
/// too long for it.
pub fn data(bytes: &[u8]) -> (sum: u16)
    ensures
        sum == data_sum(bytes@),
{
    let mut accum: u32 = 0;
    let mut i: usize = 0;
    while bytes.len() - i >= 2
        invariant
            i <= bytes.len(),
            i % 2 == 0,
            accum <= 0xffff,
            accum as nat == ones(word_sum(bytes@.take(i as int))),
        decreases bytes.len() - i,
    {
        let word: u32 = read_u16(vstd::slice::slice_subrange(bytes, i, i + 2)) as u32;
        proof {
            let after = bytes@.take(i + 2);
            assert(after.subrange(0, after.len() - 2) =~= bytes@.take(i as int));
            lemma_ones_add(word_sum(bytes@.take(i as int)), word as nat);
        }
        accum = propagate_carries(accum + word) as u32;
        i += 2;
    }
    if i < bytes.len() {
        let word: u32 = (bytes[i] as u32) << 8;
        proof {
            assert(bytes@.drop_last() =~= bytes@.take(i as int));
            let b: u8 = bytes[i as int];
            assert((b as u32) << 8 == b as u32 * 256) by (bit_vector);
            lemma_ones_add(word_sum(bytes@.take(i as int)), word as nat);
        }
        accum = propagate_carries(accum + word) as u32;
    } else {
        assert(bytes@.take(i as int) =~= bytes@);
    }
    accum as u16
}

/// Combines several one's-complement sums into one.
pub fn combine(checksums: &[u16]) -> (sum: u16)
    ensures
        sum == combine_sum(checksums@),
{
    let mut accum: u32 = 0;
    let mut i: usize = 0;
    while i < checksums.len()
        invariant
            i <= checksums.len(),
            accum <= 0xffff,
            accum as nat == ones(value_sum(checksums@.take(i as int))),
        decreases checksums.len() - i,
    {
        let word: u32 = checksums[i] as u32;
        proof {
            assert(checksums@.take(i + 1).drop_last() =~= checksums@.take(i as int));
            lemma_ones_add(value_sum(checksums@.take(i as int)), word as nat);
        }
        accum = propagate_carries(accum + word) as u32;
        i += 1;
    }
    assert(checksums@.take(i as int) =~= checksums@);
    accum as u16
}

/// The twelve bytes of the IPv4 pseudo-header: both addresses, a zero byte,
/// the protocol number and the 16-bit length of the transport segment.
pub open spec fn pseudo_header_bytes(
    src_addr: Ipv4Address,
    dst_addr: Ipv4Address,
    protocol: IpProtocol,
    length: u16,
) -> Seq<u8> {
    src_addr@ + dst_addr@ + seq![0u8, protocol.spec_number()] + be16_bytes(length)
}

/// The one's-complement sum of the IPv4 pseudo-header.
pub open spec fn pseudo_header_sum(
    src_addr: Ipv4Address,
    dst_addr: Ipv4Address,
    protocol: IpProtocol,
    length: u16,
) -> u16 {
    data_sum(pseudo_header_bytes(src_addr, dst_addr, protocol, length))
}

/// The complement of a one's-complement sum: the value that goes on the wire.
pub open spec fn complement(sum: u16) -> u16 {
    (0xffff - sum) as u16
}

/// Computes the one's-complement sum of the IPv4 pseudo-header. Only the low
/// sixteen bits of `length` take part, as only they fit the header.
pub fn pseudo_header(
    src_addr: &Ipv4Address,
    dst_addr: &Ipv4Address,
    protocol: IpProtocol,
    length: usize,
) -> (sum: u16)
    ensures
        sum == pseudo_header_sum(*src_addr, *dst_addr, protocol, (length % 0x1_0000) as u16),
{
    let low: u16 = (length % 0x1_0000) as u16;
    let mut length_bytes = [0u8, 0u8];
    write_u16(&mut length_bytes, low);
    let proto_len = [0u8, protocol.number(), length_bytes[0], length_bytes[1]];
    let src = src_addr.as_bytes();
    let dst = dst_addr.as_bytes();
    let sums = [data(src.as_slice()), data(dst.as_slice()), data(proto_len.as_slice())];
    proof {
        let all = pseudo_header_bytes(*src_addr, *dst_addr, protocol, low);
        assert(proto_len@ =~= seq![0u8, protocol.spec_number()] + be16_bytes(low));
        assert(all =~= src@ + (dst@ + proto_len@));
        lemma_word_sum_concat(dst@, proto_len@);
        lemma_word_sum_concat(src@, dst@ + proto_len@);
        let s = sums@;
        assert(s.drop_last().drop_last().drop_last() =~= Seq::<u16>::empty());
        assert(value_sum(s.drop_last().drop_last().drop_last()) == 0);
        assert(value_sum(s.drop_last().drop_last()) == s[0] as nat);
        assert(value_sum(s.drop_last()) == s[0] as nat + s[1] as nat);
        assert(value_sum(s) == s[0] as nat + s[1] as nat + s[2] as nat);
        lemma_ones_add(word_sum(src@), word_sum(dst@) + word_sum(proto_len@));
        lemma_ones_add(word_sum(dst@), word_sum(proto_len@));
        lemma_ones_add(word_sum(proto_len@), ones(word_sum(dst@)));
        lemma_ones_add(ones(word_sum(dst@)) + ones(word_sum(proto_len@)), ones(word_sum(src@)));
        lemma_ones_add(word_sum(dst@) + word_sum(proto_len@), ones(word_sum(src@)));
    }
    combine(sums.as_slice())
}

/// `bytes` with the blank checksum field at `at` filled with the complement
/// of the one's-complement sum of `bytes`.
pub open spec fn sealed(bytes: Seq<u8>, at: int) -> Seq<u8> {
    patched(bytes, at, be16_bytes(complement(data_sum(bytes))))
}

/// Sums everything that was appended from `start_index` on and stores the
/// complement of the sum in the two bytes at `checksum_idx`.
pub fn write_checksum<P: TxPacket>(packet: &mut P, start_index: usize, checksum_idx: usize)
    requires
        start_index <= checksum_idx,
        checksum_idx + 2 <= old(packet)@.len(),
    ensures
        final(packet).capacity() == old(packet).capacity(),
        final(packet)@ == old(packet)@.take(start_index as int) + sealed(
            old(packet)@.skip(start_index as int),
            checksum_idx - start_index,
        ),
{
    let end_index = packet.len();
    let sum = data(packet.get_bytes(start_index, end_index - start_index));
    let checksum = !sum;
    assert(checksum == complement(sum)) by (bit_vector)
        requires
            checksum == !sum,
    ;
    proof {
        let before = packet@.take(start_index as int);
        let range = packet@.skip(start_index as int);
        assert(packet@.subrange(start_index as int, end_index as int) =~= range);
        assert(packet@ =~= before + range + Seq::<u8>::empty());
        crate::tx_packet::lemma_patched_middle(
            before,
            range,
            Seq::<u8>::empty(),
            checksum_idx - start_index,
            be16_bytes(checksum),
        );
        assert(before + sealed(range, checksum_idx - start_index) + Seq::<u8>::empty() =~= before
            + sealed(range, checksum_idx - start_index));
    }
    packet.set_u16(checksum_idx, checksum);
}

/// The word sum of two pieces is the sum of their word sums, where the first
/// piece ends on a word boundary.
pub proof fn lemma_word_sum_concat(a: Seq<u8>, b: Seq<u8>)
    requires
        a.len() % 2 == 0,
    ensures
        word_sum(a + b) == word_sum(a) + word_sum(b),
    decreases b.len(),
{
    if b.len() == 0 {
        assert(a + b =~= a);
    } else if b.len() % 2 == 1 {
        assert((a + b).drop_last() =~= a + b.drop_last());
        lemma_word_sum_concat(a, b.drop_last());
    } else {
        assert((a + b).subrange(0, (a + b).len() - 2) =~= a + b.subrange(0, b.len() - 2));
        lemma_word_sum_concat(a, b.subrange(0, b.len() - 2));
    }
}

/// Overwriting one aligned 16-bit word changes the word sum by the
/// difference of the two words.
pub proof fn lemma_word_sum_patched(bytes: Seq<u8>, at: int, value: u16)
    requires
        0 <= at,
        at % 2 == 0,
        at + 2 <= bytes.len(),
    ensures
        word_sum(patched(bytes, at, be16_bytes(value))) + be16(bytes[at], bytes[at + 1]) as nat
            == word_sum(bytes) + value as nat,
{
    let head = bytes.subrange(0, at);
    let old_word = bytes.subrange(at, at + 2);
    let new_word = be16_bytes(value);
    let tail = bytes.subrange(at + 2, bytes.len() as int);
    assert(bytes =~= head + (old_word + tail));
    assert(patched(bytes, at, new_word) =~= head + (new_word + tail));
    lemma_word_sum_concat(old_word, tail);
    lemma_word_sum_concat(new_word, tail);
    lemma_word_sum_concat(head, old_word + tail);
    lemma_word_sum_concat(head, new_word + tail);
    assert(old_word.subrange(0, 0) =~= Seq::<u8>::empty());
    assert(new_word.subrange(0, 0) =~= Seq::<u8>::empty());
    assert(word_sum(Seq::<u8>::empty()) == 0);
    assert(word_sum(old_word) == be16(bytes[at], bytes[at + 1]) as nat);
    crate::wire::lemma_be_roundtrip(value, 0);
    assert(word_sum(new_word) == value as nat);
}

/// A range whose blank checksum field is filled with the complement of the
/// range's own sum adds up to `0xffff`.
pub proof fn lemma_checksum_completes(bytes: Seq<u8>, at: int)
    requires
        0 <= at,
        at % 2 == 0,
        at + 2 <= bytes.len(),
        be16(bytes[at], bytes[at + 1]) == 0,
    ensures
        data_sum(patched(bytes, at, be16_bytes(complement(data_sum(bytes))))) == 0xffff,
{
    let w = word_sum(bytes);
    let c = complement(data_sum(bytes));
    lemma_word_sum_patched(bytes, at, c);
    lemma_ones_add(w, 0);
    let total = w + c as nat;
    assert(total == w + 0xffff - ones(w));
    lemma_multiple_of_ffff(w);
    assert(total % 0xffff == 0);
}

/// The word sum of the pseudo-header, piece by piece; it is positive where
/// the protocol number is.
pub proof fn lemma_pseudo_header_words(
    src_addr: Ipv4Address,
    dst_addr: Ipv4Address,
    protocol: IpProtocol,
    length: u16,
)
    ensures
        pseudo_header_bytes(src_addr, dst_addr, protocol, length).len() == 12,
        word_sum(pseudo_header_bytes(src_addr, dst_addr, protocol, length)) == word_sum(src_addr@)
            + word_sum(dst_addr@) + protocol.spec_number() as nat + length as nat,
{
    let proto = seq![0u8, protocol.spec_number()];
    let len = be16_bytes(length);
    assert(pseudo_header_bytes(src_addr, dst_addr, protocol, length) =~= src_addr@ + (dst_addr@ + (
    proto + len)));
    lemma_word_sum_concat(proto, len);
    lemma_word_sum_concat(dst_addr@, proto + len);
    lemma_word_sum_concat(src_addr@, dst_addr@ + (proto + len));
    assert(proto.subrange(0, 0) =~= Seq::<u8>::empty());
    assert(len.subrange(0, 0) =~= Seq::<u8>::empty());
    assert(word_sum(Seq::<u8>::empty()) == 0);
    crate::wire::lemma_be_roundtrip(length, 0);
}

/// A transport segment whose blank checksum field is filled with the
/// combination of the complement of its own sum and the complement of the
/// pseudo-header's sum adds up, together with the pseudo-header, to `0xffff`.
pub proof fn lemma_pseudo_checksum_completes(pseudo: Seq<u8>, blank: Seq<u8>, at: int)
    requires
        pseudo.len() % 2 == 0,
        word_sum(pseudo) > 0,
        0 <= at,
        at % 2 == 0,
        at + 2 <= blank.len(),
        be16(blank[at], blank[at + 1]) == 0,
    ensures
        data_sum(
            pseudo + patched(
                blank,
                at,
                be16_bytes(
                    combine_sum(
                        seq![complement(data_sum(blank)), complement(data_sum(pseudo))],
                    ),
                ),
            ),
        ) == 0xffff,
{
    let w = word_sum(blank);
    let p = word_sum(pseudo);
    let own = complement(data_sum(blank));
    let other = complement(data_sum(pseudo));
    let pair = seq![own, other];
    let c = combine_sum(pair);
    lemma_ones_add(w, 0);
    lemma_ones_add(p, 0);
    assert(pair.drop_last().drop_last() =~= Seq::<u16>::empty());
    assert(value_sum(pair.drop_last().drop_last()) == 0);
    assert(value_sum(pair.drop_last()) == own as nat);
    assert(value_sum(pair) == own as nat + other as nat);
    let raw = own as nat + other as nat;
    lemma_ones_add(raw, 0);
    assert(c as nat == ones(raw));
    lemma_word_sum_patched(blank, at, c);
    lemma_word_sum_concat(pseudo, patched(blank, at, be16_bytes(c)));
    let total = p + w + c as nat;
    assert(word_sum(pseudo + patched(blank, at, be16_bytes(c))) == total);
    lemma_multiple_of_ffff(w);
    lemma_multiple_of_ffff(p);
    lemma_multiple_of_ffff(raw);
    let a = (w + 0xffff - ones(w)) as int;
    let b = (p + 0xffff - ones(p)) as int;
    let d = (raw + 0xffff - ones(raw)) as int;
    assert(total + d == a + b + 0xffff);
    vstd::arithmetic::div_mod::lemma_add_mod_noop(a, b, 0xffff);
    vstd::arithmetic::div_mod::lemma_add_mod_noop(a + b, 0xffff, 0xffff);
    assert((total + d) % 0xffff == 0);
    vstd::arithmetic::div_mod::lemma_add_mod_noop(total as int, d, 0xffff);
    assert((total as int % 0xffff + 0) % 0xffff == 0);
    vstd::arithmetic::div_mod::lemma_mod_twice(total as int, 0xffff);
    assert(total % 0xffff == 0);
}

/// A number and its one's-complement reduction differ by a multiple of
/// `0xffff`.
pub proof fn lemma_multiple_of_ffff(x: nat)
    ensures
        (x + 0xffff - ones(x)) % 0xffff == 0,
        x >= ones(x),
{
    let q = x / 0xffff;
    vstd::arithmetic::div_mod::lemma_fundamental_div_mod(x as int, 0xffff);
    if x != 0 && x % 0xffff == 0 {
        assert(x + 0xffff - ones(x) == 0xffff * q);
        vstd::arithmetic::div_mod::lemma_mod_multiples_basic(q as int, 0xffff);
    } else {
        assert(x + 0xffff - ones(x) == 0xffff * (q + 1));
        vstd::arithmetic::div_mod::lemma_mod_multiples_basic(q as int + 1, 0xffff);
    }
}

} // verus!
