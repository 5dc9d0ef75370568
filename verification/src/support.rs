//! Kernel supports: where a compact kernel can be nonzero.
//!
//! A kernel of half-width `a` vanishes away from the origin. The boxcar and
//! Lanczos kernels vanish at `|x| >= a`; the Kaiser-Bessel kernel only at
//! `|x| > a`. Each test is the negation of an IEEE comparison, so a NaN
//! coordinate counts as inside the support.
use vstd::prelude::*;
use crate::ieee::{bits_le, bits_lt, le, lt, magnitude, magnitude_of};

verus! {

/// The encoding of `1.0`.
pub const ONE_BITS: u64 = 0x3ff0_0000_0000_0000;

/// The encoding of `0.0`.
pub const ZERO_BITS: u64 = 0;

/// The encoding of `|x|`: `x` with its sign bit cleared.
pub open spec fn abs_bits(x: u64) -> u64 {
    magnitude_of(x) as u64
}

/// `!(|x| >= a)`: inside a support that excludes its edge.
pub open spec fn inside_open_support(x: u64, a: u64) -> bool {
    !bits_le(a, abs_bits(x))
}

/// `!(|x| > a)`: inside a support that includes its edge.
pub open spec fn inside_closed_support(x: u64, a: u64) -> bool {
    !bits_lt(a, abs_bits(x))
}

/// The encoding of `|x|`.
pub fn abs_encoding(x: u64) -> (r: u64)
    ensures
        r == abs_bits(x),
{
    magnitude(x)
}

/// Whether `x` lies inside the support `|x| < a` (NaN counts as inside).
pub fn in_open_support(x: u64, a: u64) -> (r: bool)
    ensures
        r == inside_open_support(x, a),
{
    !le(a, abs_encoding(x))
}

/// Whether `x` lies inside the support `|x| <= a` (NaN counts as inside).
pub fn in_closed_support(x: u64, a: u64) -> (r: bool)
    ensures
        r == inside_closed_support(x, a),
{
    !lt(a, abs_encoding(x))
}

/// The boxcar kernel of half-width `a` at `x`: `1.0` inside its support,
/// `0.0` at and beyond `|x| = a`.
pub fn boxcar_weight(x: u64, a: u64) -> (w: u64)
    ensures
        w == (if inside_open_support(x, a) {
            ONE_BITS
        } else {
            ZERO_BITS
        }),
{
    if in_open_support(x, a) {
        ONE_BITS
    } else {
        ZERO_BITS
    }
}

/// The supports in terms of magnitudes: a NaN coordinate or half-width
/// counts as inside; otherwise `x` is inside the open support exactly when
/// its magnitude is below the half-width's position, and inside the closed
/// support when it is at most that.
pub proof fn supports_compare_magnitudes(x: u64, a: u64)
    ensures
        inside_open_support(x, a) <==> (crate::ieee::nan_bits(x) || crate::ieee::nan_bits(a)
            || magnitude_of(x) < crate::ieee::ordinal_of(a)),
        inside_closed_support(x, a) <==> (crate::ieee::nan_bits(x) || crate::ieee::nan_bits(a)
            || magnitude_of(x) <= crate::ieee::ordinal_of(a)),
{
}

/// The supports are intervals around zero: a coordinate of no larger
/// magnitude than one inside is inside too.
pub proof fn supports_are_monotone(x: u64, y: u64, a: u64)
    requires
        !crate::ieee::nan_bits(x),
        magnitude_of(y) <= magnitude_of(x),
    ensures
        inside_open_support(x, a) ==> inside_open_support(y, a),
        inside_closed_support(x, a) ==> inside_closed_support(y, a),
{
}

/// The boxcar weight is `1.0` exactly when the magnitude of `x` is below
/// the half-width (or either is NaN), and `0.0` otherwise.
pub proof fn boxcar_weight_in_magnitudes(x: u64, a: u64)
    ensures
        (if inside_open_support(x, a) {
            ONE_BITS
        } else {
            ZERO_BITS
        }) == (if crate::ieee::nan_bits(x) || crate::ieee::nan_bits(a) || magnitude_of(x)
            < crate::ieee::ordinal_of(a) {
            0x3ff0_0000_0000_0000u64
        } else {
            0u64
        }),
{
}

/// The supports are symmetric: `x` and `-x` lie on the same side of the
/// edge.
pub proof fn supports_are_symmetric(x: u64, a: u64)
    ensures
        abs_bits(x) == abs_bits((x ^ 0x8000_0000_0000_0000u64) as u64),
        inside_open_support(x, a) == inside_open_support((x ^ 0x8000_0000_0000_0000u64) as u64, a),
        inside_closed_support(x, a) == inside_closed_support(
            (x ^ 0x8000_0000_0000_0000u64) as u64,
            a,
        ),
{
    let y: u64 = x ^ 0x8000_0000_0000_0000u64;
    assert((x >= 0x8000_0000_0000_0000u64 ==> y == x - 0x8000_0000_0000_0000u64) && (x
        < 0x8000_0000_0000_0000u64 ==> y == x + 0x8000_0000_0000_0000u64)) by (bit_vector)
        requires
            y == x ^ 0x8000_0000_0000_0000u64,
    ;
}

/// The open support lies inside the closed one, and they differ only at
/// the edge `|x| == a`.
pub proof fn open_support_within_closed(x: u64, a: u64)
    ensures
        inside_open_support(x, a) ==> inside_closed_support(x, a),
        inside_closed_support(x, a) && !inside_open_support(x, a) ==> bits_le(a, abs_bits(x))
            && bits_le(abs_bits(x), a),
{
}

} // verus!
