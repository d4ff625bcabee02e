//! Single-precision numbers as bit patterns.
//!
//! A real quantity travels through this library as the 32 bits of an
//! IEEE 754 single-precision number: one sign bit, eight exponent bits and
//! twenty-three fraction bits. Nothing here does arithmetic on such numbers.
//! What is done is exact: telling zero and NaN from the rest, comparing two
//! numbers, ranking them in the standard's total order, and cutting a number
//! down to a byte.

use vstd::prelude::*;

verus! {

/// The sign bit; it is also the pattern of minus zero.
pub const SIGN: u32 = 0x8000_0000;

/// The pattern of plus zero.
pub const ZERO: u32 = 0;

/// The pattern of one.
pub const ONE: u32 = 0x3f80_0000;

/// The pattern of plus infinity. The patterns above it, sign aside, are NaNs.
pub const INFINITY: u32 = 0x7f80_0000;

/// Whether the sign bit is set.
pub open spec fn sign_set(bits: u32) -> bool {
    bits >= SIGN
}

/// The pattern without its sign bit. Below `INFINITY` a larger magnitude is a
/// larger absolute value.
pub open spec fn magnitude(bits: u32) -> int {
    if sign_set(bits) {
        bits - SIGN
    } else {
        bits as int
    }
}

/// Whether the pattern is a NaN.
pub open spec fn nan(bits: u32) -> bool {
    magnitude(bits) > INFINITY
}

/// The place of a number among the numbers: the magnitude, counted downward
/// from zero where the sign is set. Both zeroes stand at 0.
pub open spec fn rank(bits: u32) -> int {
    if sign_set(bits) {
        -magnitude(bits)
    } else {
        magnitude(bits)
    }
}

/// `a < b` as numbers. A NaN is not less than anything, and nothing is less
/// than a NaN.
pub open spec fn less(a: u32, b: u32) -> bool {
    !nan(a) && !nan(b) && rank(a) < rank(b)
}

/// `a == b` as numbers. The two zeroes are equal, and a NaN equals nothing.
pub open spec fn same(a: u32, b: u32) -> bool {
    !nan(a) && !nan(b) && rank(a) == rank(b)
}

/// `a <= b` as numbers.
pub open spec fn at_most(a: u32, b: u32) -> bool {
    less(a, b) || same(a, b)
}

/// The place of a pattern in the total order: the magnitude where the sign
/// is clear, and counted downward from -1 where it is set. Minus zero comes
/// before plus zero, and the NaNs lie beyond the infinities on either side.
pub open spec fn order_key(bits: u32) -> int {
    if sign_set(bits) {
        -1 - magnitude(bits)
    } else {
        magnitude(bits)
    }
}

/// The exponent field of a pattern.
pub open spec fn exponent(bits: u32) -> int {
    magnitude(bits) / 0x80_0000
}

/// The significand of a normal number, as an integer: the fraction bits
/// under the implied leading one. The number's absolute value is this times
/// two to the power `exponent - 150`.
pub open spec fn significand(bits: u32) -> u32 {
    (0x80_0000 + magnitude(bits) % 0x80_0000) as u32
}

/// The byte that a number is cut down to: its whole part where that lies
/// from 0 to 255, the nearer end of that range where it does not, and 0 for
/// a NaN. The fraction is dropped, not rounded.
pub open spec fn truncated(bits: u32) -> u8 {
    if sign_set(bits) || nan(bits) || exponent(bits) < 127 {
        0
    } else if exponent(bits) >= 135 {
        255
    } else {
        (significand(bits) >> ((150 - exponent(bits)) as u32)) as u8
    }
}

/// Tells whether a pattern is a NaN.
pub fn is_nan(bits: u32) -> (r: bool)
    ensures
        r == nan(bits),
{
    let magnitude: u32 = if bits >= SIGN {
        bits - SIGN
    } else {
        bits
    };
    magnitude > INFINITY
}

/// Compares two numbers: whether `a < b`.
pub fn less_than(a: u32, b: u32) -> (r: bool)
    ensures
        r == less(a, b),
{
    if is_nan(a) || is_nan(b) {
        return false;
    }
    if a >= SIGN {
        if b >= SIGN {
            a > b
        } else {
            a > SIGN || b > 0
        }
    } else {
        b < SIGN && a < b
    }
}

/// Compares two numbers: whether `a == b`.
pub fn equals(a: u32, b: u32) -> (r: bool)
    ensures
        r == same(a, b),
{
    if is_nan(a) || is_nan(b) {
        return false;
    }
    a == b || ((a == SIGN || a == ZERO) && (b == SIGN || b == ZERO))
}

/// Computes the key by which the total order compares.
pub fn total_order_key(bits: u32) -> (key: i32)
    ensures
        key == order_key(bits),
{
    if bits < SIGN {
        bits as i32
    } else {
        let magnitude: u32 = bits - SIGN;
        -1 - (magnitude as i32)
    }
}

/// Cuts a number down to a byte.
pub fn truncate(bits: u32) -> (r: u8)
    ensures
        r == truncated(bits),
{
    if bits >= SIGN || bits > INFINITY {
        return 0;
    }
    let exponent: u32 = bits / 0x80_0000;
    if exponent < 127 {
        0
    } else if exponent >= 135 {
        255
    } else {
        let significand: u32 = 0x80_0000 + bits % 0x80_0000;
        let shift: u32 = 150 - exponent;
        assert(significand >> shift <= 255) by (bit_vector)
            requires
                significand < 0x100_0000,
                16 <= shift <= 23,
        ;
        (significand >> shift) as u8
    }
}

/// Less-than is a strict order on the numbers: nothing is less than
/// itself, no two are less than each other, and it carries through a third.
pub proof fn lemma_less_is_strict(a: u32, b: u32, c: u32)
    ensures
        !less(a, a),
        less(a, b) ==> !less(b, a),
        less(a, b) && less(b, c) ==> less(a, c),
{
}

/// Of two numbers, neither a NaN, exactly one of less, equal and greater
/// holds. With a NaN on either side none of them holds.
pub proof fn lemma_comparison_decides(a: u32, b: u32)
    ensures
        !nan(a) && !nan(b) ==> (less(a, b) || same(a, b) || less(b, a)),
        !(less(a, b) && same(a, b)),
        !(less(b, a) && same(a, b)),
        nan(a) || nan(b) ==> !less(a, b) && !same(a, b) && !less(b, a),
{
}

/// The total order ranks every pattern, and no two alike: equal keys mean
/// the same pattern.
pub proof fn lemma_order_total(a: u32, b: u32)
    ensures
        order_key(a) == order_key(b) <==> a == b,
{
}

/// The total order agrees with the comparison of numbers wherever that one
/// decides: the lesser number comes first, and of two equal numbers that
/// differ as patterns, which are the two zeroes, minus zero comes first.
pub proof fn lemma_order_extends_less(a: u32, b: u32)
    ensures
        less(a, b) ==> order_key(a) < order_key(b),
        same(a, b) && a != b ==> (order_key(a) < order_key(b) <==> a == SIGN && b == ZERO),
{
}

/// Cutting drops the fraction: for a number from 1 up to, but not reaching,
/// 256, the byte is the largest whole number that is not above it. Here
/// `s` is the number of fraction bits below the binary point, so that the
/// number is its significand over two to the power `s`.
pub proof fn lemma_truncated_is_floor(bits: u32, s: u32)
    requires
        !sign_set(bits),
        127 <= exponent(bits) < 135,
        s == 150 - exponent(bits),
    ensures
        1 <= truncated(bits) <= 255,
        truncated(bits) * (1u32 << s) <= significand(bits) < (truncated(bits) + 1) * (1u32 << s),
{
    let sig: u32 = significand(bits);
    assert(sig >= 0x80_0000 && sig < 0x100_0000);
    assert(16 <= s <= 23);
    assert(nan(bits) ==> exponent(bits) >= 255);
    let t: u32 = sig >> s;
    assert(t <= 255 && t * (1u32 << s) <= sig && sig < (t + 1) * (1u32 << s) && t >= 1)
        by (bit_vector)
        requires
            t == sig >> s,
            0x80_0000 <= sig < 0x100_0000,
            16 <= s <= 23,
    ;
}

/// What is cut down to 0 and to 255: below one, and every negative number
/// and NaN, gives 0; from 256 upward, plus infinity included, gives 255.
pub proof fn lemma_truncated_saturates(bits: u32)
    ensures
        less(bits, ONE) || nan(bits) ==> truncated(bits) == 0,
        at_most(0x4380_0000, bits) ==> truncated(bits) == 255,
{
}

} // verus!
