//! The element types an interpolator accepts.
//!
//! Data may be real (`f32`, `f64`) or complex (`Complex<f32>`,
//! `Complex<f64>`); weights are always real. A complex element is stored as
//! two consecutive real components, so it occupies two real slots.
use vstd::prelude::*;

verus! {

/// Restricts the element traits to the element kinds this library knows.
pub trait Sealed {}

/// The element kinds an interpolator accepts.
#[derive(Debug, Clone, Copy, PartialEq, Eq, Structural)]
pub enum SampleKind {
    /// `f32`
    Float32,
    /// `f64`
    Float64,
    /// `Complex<f32>`: two `f32` components.
    Complex64,
    /// `Complex<f64>`: two `f64` components.
    Complex128,
}

impl Sealed for SampleKind {}

/// Whether `k` is a complex kind.
pub open spec fn complex_kind(k: SampleKind) -> bool {
    k == SampleKind::Complex64 || k == SampleKind::Complex128
}

/// The real kind that stores the components of `k`.
pub open spec fn real_kind_of(k: SampleKind) -> SampleKind {
    match k {
        SampleKind::Float32 | SampleKind::Complex64 => SampleKind::Float32,
        SampleKind::Float64 | SampleKind::Complex128 => SampleKind::Float64,
    }
}

/// The number of real slots one element of kind `k` occupies.
pub open spec fn stride_of(k: SampleKind) -> nat {
    if complex_kind(k) {
        2
    } else {
        1
    }
}

/// Data of kind `data` may be weighted by weights of kind `weights`: the
/// weights are real and have the bit depth of the data's components.
pub open spec fn weighting_allowed(data: SampleKind, weights: SampleKind) -> bool {
    weights == real_kind_of(data)
}

impl SampleKind {
    /// Whether this kind is complex.
    pub fn is_complex(self) -> (r: bool)
        ensures
            r == complex_kind(self),
    {
        match self {
            SampleKind::Complex64 | SampleKind::Complex128 => true,
            _ => false,
        }
    }

    /// The real kind that stores the components of this kind.
    pub fn real_kind(self) -> (r: SampleKind)
        ensures
            r == real_kind_of(self),
    {
        match self {
            SampleKind::Float32 | SampleKind::Complex64 => SampleKind::Float32,
            SampleKind::Float64 | SampleKind::Complex128 => SampleKind::Float64,
        }
    }

    /// The number of real slots one element occupies: 2 when complex,
    /// otherwise 1.
    pub fn stride(self) -> (s: usize)
        ensures
            s == stride_of(self),
    {
        if self.is_complex() {
            2
        } else {
            1
        }
    }

    /// The number of real slots that `len` elements occupy.
    pub fn real_len(self, len: usize) -> (n: usize)
        requires
            len * stride_of(self) <= usize::MAX,
        ensures
            n == len * stride_of(self),
    {
        len * self.stride()
    }

    /// Whether data of this kind may carry weights of kind `weights`.
    pub fn accepts_weights(self, weights: SampleKind) -> (r: bool)
        ensures
            r == weighting_allowed(self, weights),
    {
        weights == self.real_kind()
    }
}

/// A real kind is its own real kind, occupies one slot, and may be weighted
/// by itself; a complex kind never serves as weights.
pub proof fn real_kinds_are_their_own_components(k: SampleKind, w: SampleKind)
    ensures
        !complex_kind(k) ==> real_kind_of(k) == k && stride_of(k) == 1,
        real_kind_of(real_kind_of(k)) == real_kind_of(k),
        !complex_kind(real_kind_of(k)),
        weighting_allowed(k, w) ==> !complex_kind(w),
{
}

/// Weights may accompany data exactly in the four pairs of matching bit
/// depth: `f32` data or `Complex<f32>` data with `f32` weights, and `f64`
/// data or `Complex<f64>` data with `f64` weights.
pub proof fn weighting_allowed_pairs(data: SampleKind, weights: SampleKind)
    ensures
        weighting_allowed(data, weights) <==> (
        (data == SampleKind::Float32 && weights == SampleKind::Float32)
            || (data == SampleKind::Float64 && weights == SampleKind::Float64)
            || (data == SampleKind::Complex64 && weights == SampleKind::Float32)
            || (data == SampleKind::Complex128 && weights == SampleKind::Float64)),
{
}

/// The kinds laid out one by one: which are complex, how many real slots an
/// element takes, and which real kind holds its components.
pub proof fn kind_layouts()
    ensures
        !complex_kind(SampleKind::Float32) && stride_of(SampleKind::Float32) == 1
            && real_kind_of(SampleKind::Float32) == SampleKind::Float32,
        !complex_kind(SampleKind::Float64) && stride_of(SampleKind::Float64) == 1
            && real_kind_of(SampleKind::Float64) == SampleKind::Float64,
        complex_kind(SampleKind::Complex64) && stride_of(SampleKind::Complex64) == 2
            && real_kind_of(SampleKind::Complex64) == SampleKind::Float32,
        complex_kind(SampleKind::Complex128) && stride_of(SampleKind::Complex128) == 2
            && real_kind_of(SampleKind::Complex128) == SampleKind::Float64,
{
}

} // verus!
