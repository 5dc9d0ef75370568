//! Ordering of IEEE-754 binary64 values, read from their bit patterns.
//!
//! A binary64 value is encoded as a sign bit followed by a 63-bit magnitude.
//! Every value that is not NaN compares as its sign-magnitude integer does,
//! with `+0.0` and `-0.0` comparing equal, and NaN compares false with
//! everything. The functions here decide comparisons from the encodings alone.
use vstd::prelude::*;

verus! {

/// The sign bit of a binary64 encoding.
pub const SIGN_BIT: u64 = 0x8000_0000_0000_0000;

/// The 63 bits below the sign bit: exponent and fraction.
pub const MAGNITUDE_MASK: u64 = 0x7fff_ffff_ffff_ffff;

/// The magnitude of an infinity; larger magnitudes encode NaN.
pub const INFINITY_MAGNITUDE: u64 = 0x7ff0_0000_0000_0000;

/// The encoding of `+0.0`.
pub const POSITIVE_ZERO: u64 = 0;

/// Whether the sign bit of `bits` is set.
pub open spec fn sign_set(bits: u64) -> bool {
    bits >= SIGN_BIT
}

/// The magnitude field of `bits` (exponent and fraction), as an integer.
pub open spec fn magnitude_of(bits: u64) -> int {
    if sign_set(bits) {
        bits - SIGN_BIT
    } else {
        bits as int
    }
}

/// `bits` encodes a NaN.
pub open spec fn nan_bits(bits: u64) -> bool {
    magnitude_of(bits) > INFINITY_MAGNITUDE
}

/// `bits` encodes a finite value (neither infinite nor NaN).
pub open spec fn finite_bits(bits: u64) -> bool {
    magnitude_of(bits) < INFINITY_MAGNITUDE
}

/// The position of the encoded value on the number line: its magnitude,
/// negated when the sign bit is set. Both zeros sit at 0.
pub open spec fn ordinal_of(bits: u64) -> int {
    if sign_set(bits) {
        -magnitude_of(bits)
    } else {
        magnitude_of(bits)
    }
}

/// IEEE-754 `a <= b` on encodings.
pub open spec fn bits_le(a: u64, b: u64) -> bool {
    !nan_bits(a) && !nan_bits(b) && ordinal_of(a) <= ordinal_of(b)
}

/// IEEE-754 `a < b` on encodings.
pub open spec fn bits_lt(a: u64, b: u64) -> bool {
    !nan_bits(a) && !nan_bits(b) && ordinal_of(a) < ordinal_of(b)
}

/// The encoded value is finite and strictly greater than zero.
pub open spec fn positive_finite_bits(bits: u64) -> bool {
    finite_bits(bits) && bits_lt(POSITIVE_ZERO, bits)
}

/// The key of an encoding under the IEEE-754 totalOrder predicate: negative
/// encodings in reverse, then positive encodings, so that `-0.0` comes just
/// before `+0.0` and NaNs sit at both ends.
pub open spec fn total_key(bits: u64) -> int {
    if sign_set(bits) {
        0xffff_ffff_ffff_ffff - bits
    } else {
        bits + SIGN_BIT
    }
}

/// The encoding whose totalOrder key is `key`.
pub open spec fn from_total_key(key: u64) -> int {
    if key >= SIGN_BIT {
        key - SIGN_BIT
    } else {
        0xffff_ffff_ffff_ffff - key
    }
}

/// The magnitude field of `bits`.
pub fn magnitude(bits: u64) -> (m: u64)
    ensures
        m == magnitude_of(bits),
        m < SIGN_BIT,
{
    let m: u64 = bits & MAGNITUDE_MASK;
    assert(m == (if bits >= 0x8000_0000_0000_0000u64 { (bits - 0x8000_0000_0000_0000u64) as u64 } else { bits })
        && m < 0x8000_0000_0000_0000u64) by (bit_vector)
        requires
            m == bits & 0x7fff_ffff_ffff_ffffu64,
    ;
    m
}

/// Whether `bits` encodes a NaN.
pub fn is_nan(bits: u64) -> (r: bool)
    ensures
        r == nan_bits(bits),
{
    magnitude(bits) > INFINITY_MAGNITUDE
}

/// Whether `bits` encodes a finite value.
pub fn is_finite(bits: u64) -> (r: bool)
    ensures
        r == finite_bits(bits),
{
    magnitude(bits) < INFINITY_MAGNITUDE
}

/// The signed position of the encoded value on the number line.
pub fn ordinal(bits: u64) -> (o: i64)
    ensures
        o == ordinal_of(bits),
{
    let m: i64 = magnitude(bits) as i64;
    if bits >= SIGN_BIT {
        -m
    } else {
        m
    }
}

/// IEEE-754 `a <= b` on the encodings `a` and `b`.
pub fn le(a: u64, b: u64) -> (r: bool)
    ensures
        r == bits_le(a, b),
{
    !is_nan(a) && !is_nan(b) && ordinal(a) <= ordinal(b)
}

/// IEEE-754 `a < b` on the encodings `a` and `b`.
pub fn lt(a: u64, b: u64) -> (r: bool)
    ensures
        r == bits_lt(a, b),
{
    !is_nan(a) && !is_nan(b) && ordinal(a) < ordinal(b)
}

/// Whether the encoded value is finite and strictly positive; an
/// inverse-variance weight is usable exactly when this holds.
pub fn is_positive_finite(bits: u64) -> (r: bool)
    ensures
        r == positive_finite_bits(bits),
{
    is_finite(bits) && lt(POSITIVE_ZERO, bits)
}

/// The IEEE-754 totalOrder key of an encoding.
pub fn total_order_key(bits: u64) -> (k: u64)
    ensures
        k == total_key(bits),
{
    if bits >= SIGN_BIT {
        let k: u64 = !bits;
        assert(k == 0xffff_ffff_ffff_ffffu64 - bits) by (bit_vector)
            requires
                k == !bits,
        ;
        k
    } else {
        let k: u64 = bits | SIGN_BIT;
        assert(k == bits + 0x8000_0000_0000_0000u64) by (bit_vector)
            requires
                k == bits | 0x8000_0000_0000_0000u64,
                bits < 0x8000_0000_0000_0000u64,
        ;
        k
    }
}

/// The encoding whose IEEE-754 totalOrder key is `key`.
pub fn from_total_order_key(key: u64) -> (bits: u64)
    ensures
        bits == from_total_key(key),
        total_key(bits) == key,
{
    if key >= SIGN_BIT {
        let b: u64 = key & MAGNITUDE_MASK;
        assert(b == key - 0x8000_0000_0000_0000u64) by (bit_vector)
            requires
                b == key & 0x7fff_ffff_ffff_ffffu64,
                key >= 0x8000_0000_0000_0000u64,
        ;
        b
    } else {
        let b: u64 = !key;
        assert(b == 0xffff_ffff_ffff_ffffu64 - key) by (bit_vector)
            requires
                b == !key,
        ;
        b
    }
}

/// `bits` encodes `+0.0` or `-0.0`.
pub open spec fn zero_bits(bits: u64) -> bool {
    magnitude_of(bits) == 0
}

/// Keeps the encoding `value` when `x` is not a zero and gives `+0.0`
/// otherwise, by masking rather than branching. NaN is not a zero.
pub fn zero_masked(x: u64, value: u64) -> (r: u64)
    ensures
        r == (if zero_bits(x) {
            POSITIVE_ZERO
        } else {
            value
        }),
{
    let nonzero: u64 = if magnitude(x) != 0 {
        1
    } else {
        0
    };
    // all ones when `x` is not a zero, all zeros when it is
    let bitmask: u64 = 0u64.wrapping_sub(nonzero);
    let r: u64 = value & bitmask;
    assert((nonzero == 1u64 ==> r == value) && (nonzero == 0u64 ==> r == 0u64)) by (bit_vector)
        requires
            bitmask == 0u64.wrapping_sub(nonzero),
            r == value & bitmask,
    ;
    r
}

/// A weight is usable exactly when its sign bit is clear and its magnitude
/// is neither zero nor that of an infinity or NaN.
pub proof fn positive_finite_iff_positive_magnitude(bits: u64)
    ensures
        positive_finite_bits(bits) <==> (!sign_set(bits) && 0 < magnitude_of(bits)
            < INFINITY_MAGNITUDE),
        0 < bits < INFINITY_MAGNITUDE ==> positive_finite_bits(bits),
{
}

/// The zeros are exactly the encodings `0` and the sign bit alone; every
/// other encoding, NaN included, is kept by `zero_masked`.
pub proof fn zeros_are_the_two_signed_zeros(bits: u64)
    ensures
        zero_bits(bits) <==> (bits == POSITIVE_ZERO || bits == SIGN_BIT),
{
}

/// Comparisons in sign-magnitude terms: for encodings that are not NaN,
/// `a < b` exactly when `a` is negative and `b` is not (unless both are
/// zeros), or both are non-negative with the smaller magnitude, or both
/// negative with the larger magnitude.
pub proof fn lt_in_sign_magnitude(a: u64, b: u64)
    requires
        !nan_bits(a),
        !nan_bits(b),
    ensures
        bits_lt(a, b) <==> (
        (sign_set(a) && !sign_set(b) && (magnitude_of(a) > 0 || magnitude_of(b) > 0))
            || (!sign_set(a) && !sign_set(b) && magnitude_of(a) < magnitude_of(b))
            || (sign_set(a) && sign_set(b) && magnitude_of(a) > magnitude_of(b))),
        bits_le(a, b) <==> !bits_lt(b, a),
{
}

/// `+0.0` and `-0.0` compare equal: each is `<=` the other and neither is `<`.
pub proof fn zeros_compare_equal()
    ensures
        bits_le(POSITIVE_ZERO, SIGN_BIT),
        bits_le(SIGN_BIT, POSITIVE_ZERO),
        !bits_lt(POSITIVE_ZERO, SIGN_BIT),
        !bits_lt(SIGN_BIT, POSITIVE_ZERO),
{
}

/// A NaN compares false with every value, itself included.
pub proof fn nan_is_unordered(a: u64, b: u64)
    requires
        nan_bits(a),
    ensures
        !bits_le(a, b),
        !bits_le(b, a),
        !bits_lt(a, b),
        !bits_lt(b, a),
{
}

/// `<=` is a total preorder on the values that are not NaN.
pub proof fn le_is_total_preorder(a: u64, b: u64, c: u64)
    requires
        !nan_bits(a),
        !nan_bits(b),
        !nan_bits(c),
    ensures
        bits_le(a, a),
        bits_le(a, b) || bits_le(b, a),
        bits_le(a, b) && bits_le(b, c) ==> bits_le(a, c),
        bits_lt(a, b) <==> !bits_le(b, a),
{
}

/// Mixing `<` and `<=` along a chain gives `<`.
pub proof fn lt_le_chain(a: u64, b: u64, c: u64)
    ensures
        bits_lt(a, b) && bits_le(b, c) ==> bits_lt(a, c),
        bits_le(a, b) && bits_lt(b, c) ==> bits_lt(a, c),
        bits_lt(a, b) ==> bits_le(a, b),
{
}

/// The totalOrder key refines IEEE `<=`: keys in order imply values in
/// order, and values strictly in order imply keys strictly in order.
pub proof fn total_key_refines_order(a: u64, b: u64)
    ensures
        total_key(a) <= total_key(b) ==> ordinal_of(a) <= ordinal_of(b),
        bits_lt(a, b) ==> total_key(a) < total_key(b),
{
}

/// The totalOrder key is a bijection onto `u64`: decoding a key gives back
/// the encoding, and distinct encodings have distinct keys.
pub proof fn total_key_round_trip(bits: u64, other: u64)
    ensures
        0 <= total_key(bits) <= u64::MAX,
        from_total_key(total_key(bits) as u64) == bits,
        total_key(bits) == total_key(other) ==> bits == other,
{
}

} // verus!
