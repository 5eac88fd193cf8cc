//! Big-endian encoding of 64-bit integers.

use vstd::prelude::*;

verus! {

/// The last `width` base-256 digits of `value`, most significant first.
pub open spec fn be_bytes(value: nat, width: nat) -> Seq<u8>
    decreases width,
{
    if width == 0 {
        Seq::empty()
    } else {
        be_bytes(value / 256, (width - 1) as nat).push((value % 256) as u8)
    }
}

/// The number whose base-256 digits, most significant first, are `digits`.
pub open spec fn be_value(digits: Seq<u8>) -> nat
    decreases digits.len(),
{
    if digits.len() == 0 {
        0
    } else {
        be_value(digits.drop_last()) * 256 + digits.last() as nat
    }
}

/// 256 to the power of `exponent`.
pub open spec fn pow256(exponent: nat) -> nat
    decreases exponent,
{
    if exponent == 0 {
        1
    } else {
        256 * pow256((exponent - 1) as nat)
    }
}

/// `width` digits are written, whatever the number.
pub proof fn lemma_be_bytes_len(value: nat, width: nat)
    ensures
        be_bytes(value, width).len() == width,
    decreases width,
{
    if width > 0 {
        lemma_be_bytes_len(value / 256, (width - 1) as nat);
    }
}

/// Reading back the digits of a number that fits in `width` digits gives the number.
pub proof fn lemma_be_value_of_bytes(value: nat, width: nat)
    requires
        value < pow256(width),
    ensures
        be_value(be_bytes(value, width)) == value,
    decreases width,
{
    if width > 0 {
        lemma_be_value_of_bytes(value / 256, (width - 1) as nat);
        let digits = be_bytes(value, width);
        assert(digits.drop_last() =~= be_bytes(value / 256, (width - 1) as nat));
    }
}

/// Writing out the number that some digits stand for gives the digits.
pub proof fn lemma_be_bytes_of_value(digits: Seq<u8>)
    ensures
        be_bytes(be_value(digits), digits.len()) == digits,
        be_value(digits) < pow256(digits.len()),
    decreases digits.len(),
{
    if digits.len() > 0 {
        let rest = digits.drop_last();
        lemma_be_bytes_of_value(rest);
        let value = be_value(digits);
        assert(value / 256 == be_value(rest));
        assert(value % 256 == digits.last() as nat);
        assert(be_bytes(value, digits.len()) =~= digits);
    } else {
        assert(be_bytes(0, 0) =~= digits);
    }
}

/// 64-bit numbers are exactly the eight-digit ones.
pub proof fn lemma_pow256_of_8()
    ensures
        pow256(8) == u64::MAX + 1,
{
    reveal_with_fuel(pow256, 9);
}

/// The eight big-endian bytes of `value`.
pub fn u64_to_be(value: u64) -> (bytes: [u8; 8])
    ensures
        bytes@ == be_bytes(value as nat, 8),
{
    let v7: u64 = value / 256;
    let v6: u64 = v7 / 256;
    let v5: u64 = v6 / 256;
    let v4: u64 = v5 / 256;
    let v3: u64 = v4 / 256;
    let v2: u64 = v3 / 256;
    let v1: u64 = v2 / 256;
    let bytes: [u8; 8] = [
        (v1 % 256) as u8,
        (v2 % 256) as u8,
        (v3 % 256) as u8,
        (v4 % 256) as u8,
        (v5 % 256) as u8,
        (v6 % 256) as u8,
        (v7 % 256) as u8,
        (value % 256) as u8,
    ];
    proof {
        reveal_with_fuel(be_bytes, 9);
        assert(bytes@ =~= be_bytes(value as nat, 8));
    }
    bytes
}

/// The number that the eight bytes from `start` on stand for, most significant first.
pub fn u64_from_be(bytes: &[u8], start: usize) -> (value: u64)
    requires
        start + 8 <= bytes@.len(),
    ensures
        value as nat == be_value(bytes@.subrange(start as int, start + 8)),
{
    let ghost digits = bytes@.subrange(start as int, start + 8);
    let len: usize = bytes.len();
    let mut value: u64 = 0;
    let mut i: usize = 0;
    while i < 8
        invariant
            i <= 8,
            start + 8 <= len,
            len == bytes@.len(),
            digits == bytes@.subrange(start as int, start + 8),
            value as nat == be_value(digits.take(i as int)),
        decreases 8 - i,
    {
        proof {
            let next = digits.take(i + 1);
            assert(next.drop_last() =~= digits.take(i as int));
            assert(next.last() == bytes@[start + i]);
            lemma_be_bytes_of_value(next);
            lemma_pow256_monotonic((i + 1) as nat, 8);
            lemma_pow256_of_8();
        }
        value = value * 256 + bytes[start + i] as u64;
        i = i + 1;
    }
    assert(digits.take(8) =~= digits);
    value
}

proof fn lemma_pow256_monotonic(a: nat, b: nat)
    requires
        a <= b,
    ensures
        pow256(a) <= pow256(b),
    decreases b,
{
    if a < b {
        lemma_pow256_monotonic(a, (b - 1) as nat);
    }
}

/// The number that eight bytes stand for, most significant first.
pub open spec fn big_endian(b: Seq<u8>) -> int {
    b[0] * 0x100_0000_0000_0000 + b[1] * 0x1_0000_0000_0000 + b[2] * 0x100_0000_0000 + b[3]
        * 0x1_0000_0000 + b[4] * 0x100_0000 + b[5] * 0x1_0000 + b[6] * 0x100 + b[7]
}

/// Eight bytes read most significant first, written out.
pub proof fn lemma_big_endian(b: Seq<u8>)
    requires
        b.len() == 8,
    ensures
        be_value(b) == big_endian(b),
        be_bytes(big_endian(b) as nat, 8) == b,
{
    reveal_with_fuel(be_value, 9);
    lemma_be_bytes_of_value(b);
}

/// A number is written as the eight bytes that stand for it, most significant first.
pub proof fn law_u64_written(value: u64, bytes: [u8; 8])
    requires
        call_ensures(u64_to_be, (value,), bytes),
    ensures
        big_endian(bytes@) == value,
{
    lemma_pow256_of_8();
    lemma_be_value_of_bytes(value as nat, 8);
    lemma_be_bytes_len(value as nat, 8);
    lemma_big_endian(bytes@);
}

/// A number is read from the eight bytes at its place, most significant first.
pub proof fn law_u64_read(bytes: &[u8], start: usize, value: u64)
    requires
        start + 8 <= bytes@.len(),
        call_ensures(u64_from_be, (bytes, start), value),
    ensures
        value == big_endian(bytes@.subrange(start as int, start + 8)),
{
    lemma_big_endian(bytes@.subrange(start as int, start + 8));
}

} // verus!
