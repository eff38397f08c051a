//! Bit-level views of 64-bit words and the primitives the page bitmap
//! builds on.

use vstd::prelude::*;

verus! {

/// Bit `i` of `w` is set.
pub open spec fn bit_set(w: u64, i: int) -> bool {
    (w >> (i as u64)) & 1u64 == 1u64
}

/// Bit `i` of the byte `b` is set.
pub open spec fn byte_bit_set(b: u8, i: int) -> bool {
    (b >> (i as u8)) & 1u8 == 1u8
}

/// Byte `j` of `w` (bits `8 * j .. 8 * j + 8`) has all its bits set.
pub open spec fn byte_full(w: u64, j: int) -> bool {
    (w >> ((8 * j) as u64)) & 0xffu64 == 0xffu64
}

/// `r` holds one bit per byte of `x`: bit `j` is set exactly when byte `j`
/// of `x` is `0xff`.
pub open spec fn is_collapse_of(r: u8, x: u64) -> bool {
    forall|j: int| 0 <= j < 8 ==> #[trigger] byte_bit_set(r, j) == byte_full(x, j)
}

spec fn collapse_expr(x: u64) -> u8 {
    let tmp = (((x & 0x7f7f_7f7f_7f7f_7f7fu64) + 0x0101_0101_0101_0101u64) as u64) & x
        & 0x8080_8080_8080_8080u64;
    let bits = tmp >> 7u64;
    ((bits & 1u64) | (((bits >> 8u64) & 1u64) << 1u64) | (((bits >> 16u64) & 1u64) << 2u64)
        | (((bits >> 24u64) & 1u64) << 3u64) | (((bits >> 32u64) & 1u64) << 4u64) | (((bits
        >> 40u64) & 1u64) << 5u64) | (((bits >> 48u64) & 1u64) << 6u64) | (((bits >> 56u64)
        & 1u64) << 7u64)) as u8
}

proof fn lemma_collapse_expr(x: u64)
    by (bit_vector)
    ensures
        (x & 0x7f7f_7f7f_7f7f_7f7fu64) + 0x0101_0101_0101_0101u64 <= 0xffff_ffff_ffff_ffffu64,
        byte_bit_set(collapse_expr(x), 0) == byte_full(x, 0),
        byte_bit_set(collapse_expr(x), 1) == byte_full(x, 1),
        byte_bit_set(collapse_expr(x), 2) == byte_full(x, 2),
        byte_bit_set(collapse_expr(x), 3) == byte_full(x, 3),
        byte_bit_set(collapse_expr(x), 4) == byte_full(x, 4),
        byte_bit_set(collapse_expr(x), 5) == byte_full(x, 5),
        byte_bit_set(collapse_expr(x), 6) == byte_full(x, 6),
        byte_bit_set(collapse_expr(x), 7) == byte_full(x, 7),
{
}

/// For each of the 8 bytes of `x`, the corresponding bit of the result is
/// set exactly when that byte is `0b1111_1111`: a bitwise AND over the bits
/// of each byte. Branchless, as it runs once per level on every update.
pub fn collapse_8bit_and(x: u64) -> (r: u8)
    ensures
        is_collapse_of(r, x),
{
    proof {
        lemma_collapse_expr(x);
    }
    // Bit 7 of each byte of `full` is set when the low seven bits of that
    // byte are all ones (adding one carries into bit 7, never further) and
    // bit 7 itself is set.
    let low = x & 0x7f7f_7f7f_7f7f_7f7f;
    let full = (low + 0x0101_0101_0101_0101) & x & 0x8080_8080_8080_8080;

    // Each byte now holds either 0 or 1.
    let bits = full >> 7;

    // Gather the eight bits into one byte.
    let b0 = bits & 1;
    let b1 = ((bits >> 8) & 1) << 1;
    let b2 = ((bits >> 16) & 1) << 2;
    let b3 = ((bits >> 24) & 1) << 3;
    let b4 = ((bits >> 32) & 1) << 4;
    let b5 = ((bits >> 40) & 1) << 5;
    let b6 = ((bits >> 48) & 1) << 6;
    let b7 = ((bits >> 56) & 1) << 7;
    let r = (b0 | b1 | b2 | b3 | b4 | b5 | b6 | b7) as u8;
    assert(r == collapse_expr(x));
    proof {
        assert forall|j: int| 0 <= j < 8 implies #[trigger] byte_bit_set(r, j) == byte_full(
            x,
            j,
        ) by {
            if j == 0 {
            } else if j == 1 {
            } else if j == 2 {
            } else if j == 3 {
            } else if j == 4 {
            } else if j == 5 {
            } else if j == 6 {
            } else {
            }
        }
    }
    r
}

/// Position of the lowest clear bit of `n`.
pub fn first_clear_bit(n: u64) -> (r: usize)
    requires
        n != u64::MAX,
    ensures
        r < 64,
        !bit_set(n, r as int),
        forall|i: int| 0 <= i < r ==> #[trigger] bit_set(n, i),
{
    proof {
        vstd::std_specs::bits::axiom_u64_trailing_ones(n);
    }
    let r = n.trailing_ones();
    proof {
        assert forall|i: int| 0 <= i < r implies #[trigger] bit_set(n, i) by {
            let j = i as u64;
            assert((n >> j) & 1u64 == 1u64);
        }
    }
    r as usize
}

} // verus!
verus! {

/// Byte `j` of `w`.
pub open spec fn byte_of(w: u64, j: int) -> u8 {
    ((w >> ((8 * j) as u64)) & 0xffu64) as u8
}

/// `w` with byte `j` replaced by `v`.
pub open spec fn with_byte(w: u64, j: int, v: u8) -> u64 {
    (w & !(0xffu64 << ((8 * j) as u64))) | ((v as u64) << ((8 * j) as u64))
}

/// `w` with bit `t` set.
pub open spec fn with_bit_set(w: u64, t: int) -> u64 {
    w | (1u64 << (t as u64))
}

/// `w` with bit `t` cleared.
pub open spec fn with_bit_clear(w: u64, t: int) -> u64 {
    w & !(1u64 << (t as u64))
}

pub proof fn lemma_with_bit(w: u64, t: u64, u: u64)
    by (bit_vector)
    requires
        t < 64,
        u < 64,
    ensures
        bit_set(with_bit_set(w, t as int), u as int) == (u == t || bit_set(w, u as int)),
        bit_set(with_bit_clear(w, t as int), u as int) == (u != t && bit_set(w, u as int)),
{
}

pub proof fn lemma_with_byte(w: u64, j: u64, v: u8, b: u64)
    by (bit_vector)
    requires
        j < 8,
        b < 8,
    ensures
        byte_of(with_byte(w, j as int, v), b as int) == if b == j {
            v
        } else {
            byte_of(w, b as int)
        },
{
}

pub proof fn lemma_bit_in_byte(w: u64, b: u64, t: u64)
    by (bit_vector)
    requires
        b < 8,
        t < 8,
    ensures
        bit_set(w, (8 * b + t) as int) == byte_bit_set(byte_of(w, b as int), t as int),
{
}

pub proof fn lemma_byte_full(x: u64, t: u64)
    by (bit_vector)
    requires
        t < 8,
    ensures
        byte_full(x, t as int) == (bit_set(x, (8 * t) as int) && bit_set(x, (8 * t + 1) as int)
            && bit_set(x, (8 * t + 2) as int) && bit_set(x, (8 * t + 3) as int) && bit_set(
            x,
            (8 * t + 4) as int,
        ) && bit_set(x, (8 * t + 5) as int) && bit_set(x, (8 * t + 6) as int) && bit_set(
            x,
            (8 * t + 7) as int,
        )),
{
}

pub proof fn lemma_all_ones(u: u64)
    by (bit_vector)
    requires
        u < 64,
    ensures
        bit_set(0xffff_ffff_ffff_ffffu64, u as int),
        u < 8 ==> byte_of(0xffff_ffff_ffff_ffffu64, u as int) == 0xffu8,
        u < 8 ==> byte_full(0xffff_ffff_ffff_ffffu64, u as int),
        u < 8 ==> byte_bit_set(0xffu8, u as int),
{
}

/// Every byte of an all-ones word is `0xff`, and so is its summary.
pub proof fn lemma_all_ones_collapse()
    ensures
        is_collapse_of(0xffu8, 0xffff_ffff_ffff_ffffu64),
        forall|b: int| 0 <= b < 8 ==> #[trigger] byte_of(0xffff_ffff_ffff_ffffu64, b) == 0xffu8,
{
    assert forall|j: int| 0 <= j < 8 implies #[trigger] byte_bit_set(0xffu8, j) == byte_full(
        0xffff_ffff_ffff_ffffu64,
        j,
    ) by {
        lemma_all_ones(j as u64);
    }
    assert forall|b: int| 0 <= b < 8 implies #[trigger] byte_of(0xffff_ffff_ffff_ffffu64, b)
        == 0xffu8 by {
        lemma_all_ones(b as u64);
    }
}

/// `w` with byte `j` replaced by `v`.
pub fn set_byte(w: u64, j: usize, v: u8) -> (r: u64)
    requires
        j < 8,
    ensures
        r == with_byte(w, j as int, v),
{
    let shift = (8 * j) as u64;
    (w & !(0xffu64 << shift)) | ((v as u64) << shift)
}

} // verus!

verus! {

pub proof fn lemma_test_bit(w: u64, t: u64)
    by (bit_vector)
    requires
        t < 64,
    ensures
        (w & (1u64 << t) == 0u64) == !bit_set(w, t as int),
{
}

} // verus!

verus! {

proof fn lemma_clear_bits(w: u64, lo: u64, hi: u64, u: u64)
    by (bit_vector)
    requires
        lo < hi < 64,
        u < 64,
    ensures
        (1u64 << lo) >= 1u64,
        (1u64 << hi) >= 1u64,
        bit_set(w & ((((1u64 << lo) - 1u64) as u64) | !(((1u64 << hi) - 1u64) as u64)), u as int)
            == (bit_set(w, u as int) && !(lo <= u && u < hi)),
{
}

proof fn lemma_clear_bits_top(w: u64, lo: u64, u: u64)
    by (bit_vector)
    requires
        lo < 64,
        u < 64,
    ensures
        (1u64 << lo) >= 1u64,
        bit_set(w & (((1u64 << lo) - 1u64) as u64), u as int) == (bit_set(w, u as int) && u < lo),
{
}

/// `w` with bits `lo .. hi` cleared and the others kept.
pub fn clear_bits(w: u64, lo: u64, hi: u64) -> (r: u64)
    requires
        lo < hi <= 64,
    ensures
        forall|u: int| 0 <= u < 64 ==> #[trigger] bit_set(r, u) == (bit_set(w, u) && !(lo <= u < hi)),
{
    if hi == 64 {
        proof {
            lemma_clear_bits_top(w, lo, 0);
        }
        let r = w & ((1u64 << lo) - 1);
        proof {
            assert forall|u: int| 0 <= u < 64 implies #[trigger] bit_set(r, u) == (bit_set(w, u)
                && !(lo <= u < hi)) by {
                lemma_clear_bits_top(w, lo, u as u64);
            }
        }
        r
    } else {
        proof {
            lemma_clear_bits(w, lo, hi, 0);
        }
        let r = w & (((1u64 << lo) - 1) | !((1u64 << hi) - 1));
        proof {
            assert forall|u: int| 0 <= u < 64 implies #[trigger] bit_set(r, u) == (bit_set(w, u)
                && !(lo <= u < hi)) by {
                lemma_clear_bits(w, lo, hi, u as u64);
            }
        }
        r
    }
}

} // verus!

verus! {

/// The low `width` bits set.
pub open spec fn field_mask(width: u64) -> u64 {
    if width >= 64 {
        u64::MAX
    } else {
        ((1u64 << width) - 1u64) as u64
    }
}

/// The field of `width` bits at bit `offset` of `bits`.
pub open spec fn field_of(bits: u64, offset: u64, width: u64) -> u64 {
    (bits >> offset) & field_mask(width)
}

/// `bits` with the field of `width` bits at bit `offset` replaced by
/// `value`.
pub open spec fn with_field_of(bits: u64, offset: u64, width: u64, value: u64) -> u64 {
    (bits & !(field_mask(width) << offset)) | (value << offset)
}

proof fn lemma_field_mask(width: u64)
    by (bit_vector)
    requires
        0 < width < 64,
    ensures
        (1u64 << width) >= 1u64,
{
}

proof fn lemma_all_mask(x: u64)
    by (bit_vector)
    ensures
        x & 0xffff_ffff_ffff_ffffu64 == x,
{
}

/// The field of `width` bits at bit `offset` of `bits`.
pub fn get_field(bits: u64, offset: u64, width: u64) -> (r: u64)
    requires
        offset < 64,
        0 < width,
        offset + width <= 64,
    ensures
        r == field_of(bits, offset, width),
{
    if width == 64 {
        proof {
            lemma_all_mask(bits >> offset);
        }
        bits >> offset
    } else {
        proof {
            lemma_field_mask(width);
        }
        (bits >> offset) & ((1u64 << width) - 1)
    }
}

/// `bits` with the field of `width` bits at bit `offset` replaced by
/// `value`.
pub fn set_field(bits: u64, offset: u64, width: u64, value: u64) -> (r: u64)
    requires
        offset < 64,
        0 < width,
        offset + width <= 64,
    ensures
        r == with_field_of(bits, offset, width, value),
{
    let mask = if width == 64 {
        u64::MAX
    } else {
        proof {
            lemma_field_mask(width);
        }
        (1u64 << width) - 1
    };
    (bits & !(mask << offset)) | (value << offset)
}

} // verus!

verus! {

/// A byte is determined by its eight bits.
pub proof fn lemma_byte_from_bits(a: u8, b: u8)
    by (bit_vector)
    requires
        byte_bit_set(a, 0) == byte_bit_set(b, 0),
        byte_bit_set(a, 1) == byte_bit_set(b, 1),
        byte_bit_set(a, 2) == byte_bit_set(b, 2),
        byte_bit_set(a, 3) == byte_bit_set(b, 3),
        byte_bit_set(a, 4) == byte_bit_set(b, 4),
        byte_bit_set(a, 5) == byte_bit_set(b, 5),
        byte_bit_set(a, 6) == byte_bit_set(b, 6),
        byte_bit_set(a, 7) == byte_bit_set(b, 7),
    ensures
        a == b,
{
}

/// Only one byte summarises a word.
pub proof fn lemma_collapse_unique(a: u8, b: u8, x: u64)
    requires
        is_collapse_of(a, x),
        is_collapse_of(b, x),
    ensures
        a == b,
{
    assert(byte_bit_set(a, 0) == byte_bit_set(b, 0));
    assert(byte_bit_set(a, 1) == byte_bit_set(b, 1));
    assert(byte_bit_set(a, 2) == byte_bit_set(b, 2));
    assert(byte_bit_set(a, 3) == byte_bit_set(b, 3));
    assert(byte_bit_set(a, 4) == byte_bit_set(b, 4));
    assert(byte_bit_set(a, 5) == byte_bit_set(b, 5));
    assert(byte_bit_set(a, 6) == byte_bit_set(b, 6));
    assert(byte_bit_set(a, 7) == byte_bit_set(b, 7));
    lemma_byte_from_bits(a, b);
}

} // verus!
