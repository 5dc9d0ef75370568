//! Placement of fixed-width kernel windows over the input samples.
//!
//! A kernel interpolator gathers `width` consecutive input samples around
//! each output. The window is centred on the input sample nearest to the
//! output, shifted left by the kernel half-width, and clamped so that it
//! stays inside the input samples.
use vstd::prelude::*;
use crate::ieee::{bits_lt, finite_bits, is_finite, lt, POSITIVE_ZERO};
use crate::ieee::bits_le;
use crate::plan::{
    bracket_encloses_output, bracket_of, build_brackets, running_bracket, strictly_increasing, Brackets,
    PlanError,
};

verus! {

/// The widest window a kernel interpolator supports.
pub const MAX_WINDOW_WIDTH: usize = 256;

/// Window widths that a kernel interpolator supports.
pub open spec fn supported_width(w: int) -> bool {
    w == 4 || w == 8 || w == 16 || w == 32 || w == 64 || w == 128 || w == 256
}

/// The smallest supported width that holds `required` taps.
pub open spec fn smallest_width_for(required: int) -> Option<usize> {
    if required <= 4 {
        Some(4)
    } else if required <= 8 {
        Some(8)
    } else if required <= 16 {
        Some(16)
    } else if required <= 32 {
        Some(32)
    } else if required <= 64 {
        Some(64)
    } else if required <= 128 {
        Some(128)
    } else if required <= 256 {
        Some(256)
    } else {
        None
    }
}

/// Chooses the smallest supported window width that covers `required_taps`,
/// or `None` when no supported width is large enough.
pub fn select_window_width(required_taps: usize) -> (w: Option<usize>)
    ensures
        w == smallest_width_for(required_taps as int),
{
    if required_taps <= 4 {
        Some(4)
    } else if required_taps <= 8 {
        Some(8)
    } else if required_taps <= 16 {
        Some(16)
    } else if required_taps <= 32 {
        Some(32)
    } else if required_taps <= 64 {
        Some(64)
    } else if required_taps <= 128 {
        Some(128)
    } else if required_taps <= MAX_WINDOW_WIDTH {
        Some(256)
    } else {
        None
    }
}

/// The selected width is supported, holds the requested taps, and no
/// smaller supported width would; a width is found exactly when the request
/// fits in the widest window.
pub proof fn selected_width_is_smallest(required: int, other: int)
    ensures
        smallest_width_for(required) is Some <==> required <= MAX_WINDOW_WIDTH,
        smallest_width_for(required) matches Some(w) ==> {
            &&& supported_width(w as int)
            &&& required <= w
            &&& (supported_width(other) && required <= other ==> w <= other)
        },
{
}

/// The filter scale is usable: finite and not below zero (`-0.0` is
/// accepted, as `-0.0 < 0.0` is false).
pub open spec fn valid_filter_scale(bits: u64) -> bool {
    finite_bits(bits) && !bits_lt(bits, POSITIVE_ZERO)
}

/// A window start is the shifted centre clamped to `[0, n_in - width]`:
/// it is never below 0 nor above `n_in - width`, it is 0 whenever the
/// shifted centre falls below 0, `n_in - width` whenever it falls beyond,
/// and the shifted centre itself otherwise.
pub proof fn window_start_is_clamped_shift(center: int, half: int, n_in: int, width: int)
    requires
        width <= n_in,
    ensures
        0 <= window_start(center, half, n_in, width) <= n_in - width,
        center - half < 0 ==> window_start(center, half, n_in, width) == 0,
        center - half > n_in - width ==> window_start(center, half, n_in, width) == n_in - width,
        0 <= center - half <= n_in - width ==> window_start(center, half, n_in, width) == center
            - half,
{
}

/// A filter scale is accepted exactly when it is finite and not below zero:
/// its magnitude is below that of infinity, and its sign bit is clear or it
/// is a zero.
pub proof fn filter_scale_accepted_iff_finite_and_not_negative(bits: u64)
    ensures
        valid_filter_scale(bits) <==> (crate::ieee::magnitude_of(bits)
            < crate::ieee::INFINITY_MAGNITUDE && (!crate::ieee::sign_set(bits)
            || crate::ieee::magnitude_of(bits) == 0)),
        bits < crate::ieee::INFINITY_MAGNITUDE ==> valid_filter_scale(bits),
{
}

/// Checks the encoding of a filter scale.
pub fn check_filter_scale(bits: u64) -> (r: Result<(), PlanError>)
    ensures
        r is Ok <==> valid_filter_scale(bits),
        r is Err ==> r == Err::<(), PlanError>(PlanError::InvalidFilterScale),
{
    if !is_finite(bits) || lt(bits, POSITIVE_ZERO) {
        Err(PlanError::InvalidFilterScale)
    } else {
        Ok(())
    }
}

/// Checks the sizes a window of `width` taps needs: at least `width` input
/// samples, at least one output, and a kernel of at most `width` taps.
pub fn check_window_request(n_in: usize, n_out: usize, width: usize, ntaps: usize) -> (r: Result<
    (),
    PlanError,
>)
    ensures
        n_in < width ==> r == Err::<(), PlanError>(PlanError::TooFewInputs { required: width }),
        n_in >= width && n_out < 1 ==> r == Err::<(), PlanError>(PlanError::NoOutputs),
        n_in >= width && n_out >= 1 && ntaps > width ==> r == Err::<(), PlanError>(
            PlanError::KernelTooWide { ntaps, width },
        ),
        n_in >= width && n_out >= 1 && ntaps <= width ==> r is Ok,
{
    if n_in < width {
        return Err(PlanError::TooFewInputs { required: width });
    }
    if n_out < 1 {
        return Err(PlanError::NoOutputs);
    }
    if ntaps > width {
        return Err(PlanError::KernelTooWide { ntaps, width });
    }
    Ok(())
}

/// Checks a request for windows of `width` taps and brackets the outputs.
///
/// Fails as `check_window_request` does, then when the inputs are not
/// strictly increasing.
pub fn build_window_brackets(x_in: &Vec<u64>, x_out: &Vec<u64>, width: usize, ntaps: usize) -> (r:
    Result<Brackets, PlanError>)
    requires
        width >= 2,
    ensures
        x_in@.len() < width ==> r == Err::<Brackets, PlanError>(
            PlanError::TooFewInputs { required: width },
        ),
        x_in@.len() >= width && x_out@.len() < 1 ==> r == Err::<Brackets, PlanError>(
            PlanError::NoOutputs,
        ),
        x_in@.len() >= width && x_out@.len() >= 1 && ntaps > width ==> r == Err::<
            Brackets,
            PlanError,
        >(PlanError::KernelTooWide { ntaps, width }),
        x_in@.len() >= width && x_out@.len() >= 1 && ntaps <= width && !strictly_increasing(x_in@)
            ==> r == Err::<Brackets, PlanError>(PlanError::UnsortedInputs),
        x_in@.len() >= width && x_out@.len() >= 1 && ntaps <= width && strictly_increasing(x_in@)
            ==> r is Ok,
        r matches Ok(b) ==> {
            &&& b.inputs() == x_in@.len()
            &&& b.lower_view().len() == x_out@.len()
            &&& forall|j: int|
                0 <= j < x_out@.len() ==> #[trigger] b.lower_view()[j] == running_bracket(
                    x_in@,
                    x_out@,
                    j,
                )
        },
{
    match check_window_request(x_in.len(), x_out.len(), width, ntaps) {
        Err(e) => Err(e),
        Ok(()) => build_brackets(x_in, x_out),
    }
}

/// The first input sample of a window centred on `center`: `center` moved
/// left by `half`, clamped to `[0, n_in - width]`.
pub open spec fn window_start(center: int, half: int, n_in: int, width: int) -> int {
    let s = center - half;
    if s < 0 {
        0
    } else if s > n_in - width {
        n_in - width
    } else {
        s
    }
}

/// A window always lies inside the inputs, and when the half-width is
/// smaller than the window it contains its centre sample.
pub proof fn window_holds_center(center: int, half: int, n_in: int, width: int)
    requires
        1 <= width <= n_in,
        0 <= center < n_in,
    ensures
        0 <= window_start(center, half, n_in, width),
        window_start(center, half, n_in, width) + width <= n_in,
        0 <= half < width ==> window_start(center, half, n_in, width) <= center
            < window_start(center, half, n_in, width) + width,
        0 <= center - half <= n_in - width ==> window_start(center, half, n_in, width) == center
            - half,
{
}

/// With a half-width of at least one tap and at most two taps less than
/// the window, a window holds both samples of the bracket it is centred on.
pub proof fn window_holds_bracket(lo: int, upper: bool, half: int, n_in: int, width: int)
    requires
        0 <= lo,
        lo + 1 < n_in,
        width <= n_in,
        1 <= half <= width - 2,
    ensures
        window_start(lo + (if upper { 1int } else { 0int }), half, n_in, width) <= lo,
        lo + 1 <= window_start(lo + (if upper { 1int } else { 0int }), half, n_in, width) + width - 1,
{
}

/// An output within the span of the inputs is never outside its window,
/// when the half-width is at least one tap and at most two taps less than
/// the window: only extrapolated outputs can be flagged.
pub proof fn inner_outputs_lie_inside_windows(
    x_in: Seq<u64>,
    xo: u64,
    upper: bool,
    half: int,
    width: int,
)
    requires
        2 <= width <= x_in.len(),
        strictly_increasing(x_in),
        bits_le(x_in[0], xo),
        bits_lt(xo, x_in[x_in.len() - 1]),
        1 <= half <= width - 2,
    ensures
        ({
            let s = window_start(
                bracket_of(x_in, xo) + (if upper { 1int } else { 0int }),
                half,
                x_in.len() as int,
                width,
            );
            !(bits_lt(xo, x_in[s]) || bits_lt(x_in[s + width - 1], xo))
        }),
{
    let n = x_in.len() as int;
    let lo = bracket_of(x_in, xo);
    bracket_encloses_output(x_in, xo);
    window_holds_bracket(lo, upper, half, n, width);
    let s = window_start(lo + (if upper { 1int } else { 0int }), half, n, width);
    if s < lo {
        assert(bits_lt(x_in[s], x_in[lo]));
    }
    if lo + 1 < s + width - 1 {
        assert(bits_lt(x_in[lo + 1], x_in[s + width - 1]));
    }
}

/// The window of each output sample, and whether the output lies outside
/// the span of its window.
pub struct KernelWindows {
    start: Vec<usize>,
    outside: Vec<bool>,
    width: usize,
    n_in: usize,
}

impl KernelWindows {
    /// Each window lies inside the inputs.
    #[verifier::type_invariant]
    spec fn well_formed(self) -> bool {
        &&& self.width >= 1
        &&& self.width <= self.n_in
        &&& self.start@.len() == self.outside@.len()
        &&& forall|j: int|
            0 <= j < self.start@.len() ==> #[trigger] self.start@[j] + self.width <= self.n_in
    }

    /// The first input sample of each window.
    pub closed spec fn start_view(self) -> Seq<usize> {
        self.start@
    }

    /// For each output, whether it lies outside the span of its window.
    pub closed spec fn outside_view(self) -> Seq<bool> {
        self.outside@
    }

    /// The number of taps in each window.
    pub closed spec fn taps(self) -> nat {
        self.width as nat
    }

    /// The number of input samples.
    pub closed spec fn inputs(self) -> nat {
        self.n_in as nat
    }

    /// The first input sample of each window, in output order.
    pub fn starts(&self) -> (v: &Vec<usize>)
        ensures
            v@ == self.start_view(),
            v@.len() == self.outside_view().len(),
            1 <= self.taps() <= self.inputs(),
            forall|j: int| 0 <= j < v@.len() ==> #[trigger] v@[j] + self.taps() <= self.inputs(),
    {
        proof {
            use_type_invariant(self);
        }
        &self.start
    }

    /// For each output, whether it lies outside the span of its window.
    pub fn outside(&self) -> (v: &Vec<bool>)
        ensures
            v@ == self.outside_view(),
    {
        &self.outside
    }

    /// The number of taps in each window.
    pub fn width(&self) -> (w: usize)
        ensures
            w == self.taps(),
    {
        self.width
    }

    /// The number of input samples.
    pub fn n_in(&self) -> (n: usize)
        ensures
            n == self.inputs(),
    {
        self.n_in
    }
}

/// The window start of one output, computed without overflow.
fn clamp_start(center: usize, half: isize, n_in: usize, width: usize) -> (s: usize)
    requires
        width <= n_in,
    ensures
        s == window_start(center as int, half as int, n_in as int, width as int),
{
    let shifted: i128 = center as i128 - half as i128;
    let n_max: usize = n_in - width;
    if shifted < 0 {
        0
    } else if shifted > n_max as i128 {
        n_max
    } else {
        shifted as usize
    }
}

/// Places the window of every output.
///
/// The window of output `j` is centred on the upper sample of its bracket
/// when `upper_nearer[j]` holds and on the lower one otherwise, starts
/// `half_width` samples to the left of that centre, and is clamped to the
/// inputs. An output is outside its window when it lies before the first
/// or after the last sample the window holds.
pub fn place_windows(
    x_in: &Vec<u64>,
    x_out: &Vec<u64>,
    brackets: &Brackets,
    upper_nearer: &Vec<bool>,
    width: usize,
    half_width: isize,
) -> (w: KernelWindows)
    requires
        brackets.inputs() == x_in@.len(),
        brackets.lower_view().len() == x_out@.len(),
        upper_nearer@.len() == x_out@.len(),
        1 <= width <= x_in@.len(),
    ensures
        w.taps() == width,
        w.inputs() == x_in@.len(),
        w.start_view().len() == x_out@.len(),
        w.outside_view().len() == x_out@.len(),
        forall|j: int|
            0 <= j < x_out@.len() ==> #[trigger] w.start_view()[j] == window_start(
                brackets.lower_view()[j] + (if upper_nearer@[j] {
                    1int
                } else {
                    0int
                }),
                half_width as int,
                x_in@.len() as int,
                width as int,
            ),
        forall|j: int|
            0 <= j < x_out@.len() ==> #[trigger] w.outside_view()[j] == (bits_lt(
                x_out@[j],
                x_in@[w.start_view()[j] as int],
            ) || bits_lt(x_in@[w.start_view()[j] + width - 1], x_out@[j])),
{
    let n_in: usize = x_in.len();
    let n_out: usize = x_out.len();
    let lower = brackets.lower_indices();
    let mut start: Vec<usize> = Vec::with_capacity(n_out);
    let mut outside: Vec<bool> = Vec::with_capacity(n_out);
    let mut j: usize = 0;
    while j < n_out
        invariant
            n_in == x_in@.len(),
            n_out == x_out@.len(),
            lower@ == brackets.lower_view(),
            lower@.len() == n_out,
            upper_nearer@.len() == n_out,
            forall|k: int| 0 <= k < lower@.len() ==> #[trigger] lower@[k] + 1 < n_in,
            1 <= width <= n_in,
            j <= n_out,
            start@.len() == j,
            outside@.len() == j,
            forall|k: int| 0 <= k < j ==> #[trigger] start@[k] + width <= n_in,
            forall|k: int|
                0 <= k < j ==> #[trigger] start@[k] == window_start(
                    lower@[k] + (if upper_nearer@[k] {
                        1int
                    } else {
                        0int
                    }),
                    half_width as int,
                    n_in as int,
                    width as int,
                ),
            forall|k: int|
                0 <= k < j ==> #[trigger] outside@[k] == (bits_lt(x_out@[k], x_in@[start@[k] as int])
                    || bits_lt(x_in@[start@[k] + width - 1], x_out@[k])),
        decreases n_out - j,
    {
        let lo: usize = lower[j];
        let center: usize = if upper_nearer[j] {
            lo + 1
        } else {
            lo
        };
        let s: usize = clamp_start(center, half_width, n_in, width);
        let xo: u64 = x_out[j];
        let out: bool = lt(xo, x_in[s]) || lt(x_in[s + width - 1], xo);
        start.push(s);
        outside.push(out);
        j = j + 1;
    }
    KernelWindows { start, outside, width, n_in }
}

} // verus!
