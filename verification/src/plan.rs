//! Bracketing of output samples by input samples.
//!
//! For each output coordinate the plan records the index `lo` of the lower
//! sample of the input pair `(x_in[lo], x_in[lo + 1])` used to interpolate
//! it. The inputs are walked once with a pointer that only moves forward.
use vstd::prelude::*;
use crate::ieee::{bits_le, bits_lt, lt, le};

verus! {

/// Why an interpolation plan cannot be built.
#[derive(Debug, Clone, Copy, PartialEq, Eq, Structural)]
pub enum PlanError {
    /// Fewer input samples than the plan needs.
    TooFewInputs { required: usize },
    /// No output sample was requested.
    NoOutputs,
    /// The input coordinates are not strictly increasing (unsorted,
    /// repeated, or NaN).
    UnsortedInputs,
    /// The kernel has more taps than the window can hold.
    KernelTooWide { ntaps: usize, width: usize },
    /// The filter scale is negative, infinite or NaN.
    InvalidFilterScale,
}

/// Every input coordinate is strictly smaller than every later one.
pub open spec fn strictly_increasing(s: Seq<u64>) -> bool {
    forall|i: int, j: int| 0 <= i < j < s.len() ==> #[trigger] bits_lt(s[i], s[j])
}

/// Every coordinate is `<=` every later one (so none is NaN).
pub open spec fn non_decreasing(s: Seq<u64>) -> bool {
    forall|i: int, j: int| 0 <= i < j < s.len() ==> #[trigger] bits_le(s[i], s[j])
}

/// The largest `k` in `[0, hi]` with `k == 0` or `x_in[k] <= xo`.
pub open spec fn last_at_or_before(x_in: Seq<u64>, xo: u64, hi: int) -> int
    decreases hi,
{
    if hi <= 0 {
        0
    } else if bits_le(x_in[hi], xo) {
        hi
    } else {
        last_at_or_before(x_in, xo, hi - 1)
    }
}

/// The lower bracket of `xo`: the last input sample at or before `xo`,
/// kept within `[0, n_in - 2]` so that a pair always follows it.
pub open spec fn bracket_of(x_in: Seq<u64>, xo: u64) -> int {
    last_at_or_before(x_in, xo, x_in.len() - 2)
}

/// The lower bracket recorded for output `j`: the pointer never moves back,
/// so it is the largest bracket of the outputs up to and including `j`.
pub open spec fn running_bracket(x_in: Seq<u64>, x_out: Seq<u64>, j: int) -> int
    decreases j,
{
    if j <= 0 {
        bracket_of(x_in, x_out[0])
    } else {
        let prev = running_bracket(x_in, x_out, j - 1);
        let here = bracket_of(x_in, x_out[j]);
        if prev >= here {
            prev
        } else {
            here
        }
    }
}

/// `last_at_or_before` is the largest index with the property.
pub proof fn last_at_or_before_is_last(x_in: Seq<u64>, xo: u64, hi: int)
    requires
        hi < x_in.len(),
    ensures
        0 <= last_at_or_before(x_in, xo, hi),
        hi >= 0 ==> last_at_or_before(x_in, xo, hi) <= hi,
        last_at_or_before(x_in, xo, hi) == 0 || bits_le(x_in[last_at_or_before(x_in, xo, hi)], xo),
        forall|k: int|
            last_at_or_before(x_in, xo, hi) < k <= hi ==> !#[trigger] bits_le(x_in[k], xo),
    decreases hi,
{
    if hi > 0 && !bits_le(x_in[hi], xo) {
        last_at_or_before_is_last(x_in, xo, hi - 1);
    }
}

/// Every recorded bracket leaves room for its upper sample.
pub proof fn running_bracket_in_range(x_in: Seq<u64>, x_out: Seq<u64>, j: int)
    requires
        x_in.len() >= 2,
        0 <= j < x_out.len(),
    ensures
        0 <= running_bracket(x_in, x_out, j) <= x_in.len() - 2,
    decreases j,
{
    last_at_or_before_is_last(x_in, x_out[j], x_in.len() - 2);
    if j > 0 {
        running_bracket_in_range(x_in, x_out, j - 1);
    }
}

/// With strictly increasing inputs, an output's bracket encloses it: the
/// lower sample is at or before it (unless it lies before all inputs) and
/// the upper sample is after it (unless it lies at or beyond the last input).
pub proof fn bracket_encloses_output(x_in: Seq<u64>, xo: u64)
    requires
        x_in.len() >= 2,
        strictly_increasing(x_in),
    ensures
        0 <= bracket_of(x_in, xo) <= x_in.len() - 2,
        bits_le(x_in[0], xo) ==> bits_le(x_in[bracket_of(x_in, xo)], xo),
        bits_lt(xo, x_in[x_in.len() - 1]) ==> bits_lt(xo, x_in[bracket_of(x_in, xo) + 1]),
{
    let n = x_in.len();
    let b = bracket_of(x_in, xo);
    last_at_or_before_is_last(x_in, xo, n - 2);
    if bits_lt(xo, x_in[n - 1]) && b + 1 <= n - 2 {
        assert(!bits_le(x_in[b + 1], xo));
        assert(!crate::ieee::nan_bits(xo));
        assert(!crate::ieee::nan_bits(x_in[b + 1])) by {
            assert(bits_lt(x_in[b + 1], x_in[n - 1]));
        }
    }
}

/// A larger output never gets a smaller bracket.
pub proof fn bracket_is_monotone(x_in: Seq<u64>, xa: u64, xb: u64)
    requires
        x_in.len() >= 2,
        strictly_increasing(x_in),
        bits_le(xa, xb),
    ensures
        bracket_of(x_in, xa) <= bracket_of(x_in, xb),
{
    let n = x_in.len();
    last_at_or_before_is_last(x_in, xa, n - 2);
    last_at_or_before_is_last(x_in, xb, n - 2);
    let ba = bracket_of(x_in, xa);
    if ba > 0 && ba > bracket_of(x_in, xb) {
        assert(bits_le(x_in[ba], xb));
    }
}

/// The pointer only moves forward: recorded brackets never decrease.
pub proof fn running_bracket_never_decreases(x_in: Seq<u64>, x_out: Seq<u64>, i: int, j: int)
    requires
        0 <= i <= j < x_out.len(),
    ensures
        running_bracket(x_in, x_out, i) <= running_bracket(x_in, x_out, j),
    decreases j - i,
{
    if i < j {
        running_bracket_never_decreases(x_in, x_out, i, j - 1);
    }
}

/// Outputs before the second input use the first pair, and outputs at or
/// after the second-to-last input use the last pair.
pub proof fn outer_outputs_use_end_pairs(x_in: Seq<u64>, xo: u64)
    requires
        x_in.len() >= 2,
        strictly_increasing(x_in),
    ensures
        bits_lt(xo, x_in[1]) ==> bracket_of(x_in, xo) == 0,
        bits_le(x_in[x_in.len() - 2], xo) ==> bracket_of(x_in, xo) == x_in.len() - 2,
{
    let n = x_in.len();
    last_at_or_before_is_last(x_in, xo, n - 2);
    let b = bracket_of(x_in, xo);
    if bits_lt(xo, x_in[1]) && b > 0 {
        assert(bits_le(x_in[b], xo));
        if b > 1 {
            assert(bits_lt(x_in[1], x_in[b]));
        }
    }
}

/// For sorted outputs the pointer never has to hold back: each output's
/// recorded bracket is its own bracket.
pub proof fn sorted_outputs_get_own_bracket(x_in: Seq<u64>, x_out: Seq<u64>, j: int)
    requires
        x_in.len() >= 2,
        strictly_increasing(x_in),
        non_decreasing(x_out),
        0 <= j < x_out.len(),
    ensures
        running_bracket(x_in, x_out, j) == bracket_of(x_in, x_out[j]),
    decreases j,
{
    if j > 0 {
        sorted_outputs_get_own_bracket(x_in, x_out, j - 1);
        assert(bits_le(x_out[j - 1], x_out[j]));
        bracket_is_monotone(x_in, x_out[j - 1], x_out[j]);
    }
}

/// Checks that every input coordinate is strictly smaller than the next.
pub fn is_strictly_increasing(x: &Vec<u64>) -> (r: bool)
    ensures
        r == strictly_increasing(x@),
{
    let n: usize = x.len();
    if n < 2 {
        return true;
    }
    let mut k: usize = 1;
    while k < n
        invariant
            1 <= k <= n,
            n == x@.len(),
            strictly_increasing(x@.subrange(0, k as int)),
        decreases n - k,
    {
        if !lt(x[k - 1], x[k]) {
            assert(!strictly_increasing(x@)) by {
                assert(!bits_lt(x@[k - 1], x@[k as int]));
            }
            return false;
        }
        assert(strictly_increasing(x@.subrange(0, k + 1))) by {
            let s = x@.subrange(0, k + 1);
            assert forall|i: int, j: int| 0 <= i < j < s.len() implies #[trigger] bits_lt(s[i], s[j]) by {
                if j == k {
                    if i < k - 1 {
                        assert(bits_lt(x@.subrange(0, k as int)[i], x@.subrange(0, k as int)[k - 1]));
                    }
                } else {
                    assert(bits_lt(x@.subrange(0, k as int)[i], x@.subrange(0, k as int)[j]));
                }
            }
        }
        k = k + 1;
    }
    assert(x@.subrange(0, n as int) =~= x@);
    true
}

/// The lower input sample of each output's bracketing pair.
pub struct Brackets {
    lower: Vec<usize>,
    n_in: usize,
}

impl Brackets {
    /// Every bracket leaves room for its upper sample, and there is at least
    /// one output.
    #[verifier::type_invariant]
    spec fn well_formed(self) -> bool {
        &&& self.n_in >= 2
        &&& self.lower@.len() >= 1
        &&& forall|j: int| 0 <= j < self.lower@.len() ==> #[trigger] self.lower@[j] + 1 < self.n_in
    }

    /// The number of input samples the brackets refer to.
    pub closed spec fn inputs(self) -> nat {
        self.n_in as nat
    }

    /// The lower bracket indices, one per output sample.
    pub closed spec fn lower_view(self) -> Seq<usize> {
        self.lower@
    }

    /// The number of output samples.
    pub fn len(&self) -> (n: usize)
        ensures
            n == self.lower_view().len(),
            n >= 1,
    {
        proof {
            use_type_invariant(self);
        }
        self.lower.len()
    }

    /// The number of input samples.
    pub fn n_in(&self) -> (n: usize)
        ensures
            n == self.inputs(),
            n >= 2,
    {
        proof {
            use_type_invariant(self);
        }
        self.n_in
    }

    /// The lower bracket index of output `j`.
    pub fn lower(&self, j: usize) -> (lo: usize)
        requires
            j < self.lower_view().len(),
        ensures
            lo == self.lower_view()[j as int],
            lo + 1 < self.inputs(),
    {
        proof {
            use_type_invariant(self);
        }
        self.lower[j]
    }

    /// All lower bracket indices, in output order.
    pub fn lower_indices(&self) -> (v: &Vec<usize>)
        ensures
            v@ == self.lower_view(),
            self.inputs() >= 2,
            v@.len() >= 1,
            forall|j: int| 0 <= j < v@.len() ==> #[trigger] v@[j] + 1 < self.inputs(),
    {
        proof {
            use_type_invariant(self);
        }
        &self.lower
    }
}

/// Walks the pointer forward from `lo` while the next input sample is at or
/// before `xo`; with strictly increasing inputs this lands on the larger of
/// `lo` and the bracket of `xo`.
fn advance(x_in: &Vec<u64>, xo: u64, lo: usize) -> (r: usize)
    requires
        x_in@.len() >= 2,
        strictly_increasing(x_in@),
        lo <= x_in@.len() - 2,
    ensures
        r == (if lo >= bracket_of(x_in@, xo) { lo as int } else { bracket_of(x_in@, xo) }),
{
    let lo_max: usize = x_in.len() - 2;
    let ghost lo0: int = lo as int;
    let ghost b: int = bracket_of(x_in@, xo);
    proof {
        last_at_or_before_is_last(x_in@, xo, lo_max as int);
    }
    let mut cur: usize = lo;
    while cur < lo_max && le(x_in[cur + 1], xo)
        invariant
            x_in@.len() >= 2,
            lo_max == x_in@.len() - 2,
            strictly_increasing(x_in@),
            lo0 <= cur <= lo_max,
            cur == lo0 || bits_le(x_in@[cur as int], xo),
        decreases lo_max - cur,
    {
        cur = cur + 1;
    }
    proof {
        if cur < lo_max {
            assert(!bits_le(x_in@[cur + 1], xo));
            assert forall|k: int| cur < k <= lo_max implies !#[trigger] bits_le(x_in@[k], xo) by {
                if bits_le(x_in@[k], xo) && k > cur + 1 {
                    assert(bits_lt(x_in@[cur + 1], x_in@[k]));
                }
            }
        }
        if cur > lo0 {
            assert(b >= cur);
        }
    }
    cur
}

/// Builds the lower brackets of all outputs.
///
/// Fails when there are fewer than two inputs, no outputs, or inputs that
/// are not strictly increasing, checked in that order.
pub fn build_brackets(x_in: &Vec<u64>, x_out: &Vec<u64>) -> (r: Result<Brackets, PlanError>)
    ensures
        x_in@.len() < 2 ==> r == Err::<Brackets, PlanError>(PlanError::TooFewInputs { required: 2 }),
        x_in@.len() >= 2 && x_out@.len() < 1 ==> r == Err::<Brackets, PlanError>(PlanError::NoOutputs),
        x_in@.len() >= 2 && x_out@.len() >= 1 && !strictly_increasing(x_in@)
            ==> r == Err::<Brackets, PlanError>(PlanError::UnsortedInputs),
        x_in@.len() >= 2 && x_out@.len() >= 1 && strictly_increasing(x_in@) ==> r is Ok,
        r matches Ok(b) ==> {
            &&& b.inputs() == x_in@.len()
            &&& b.lower_view().len() == x_out@.len()
            &&& forall|j: int|
                0 <= j < x_out@.len() ==> #[trigger] b.lower_view()[j] == running_bracket(
                    x_in@,
                    x_out@,
                    j,
                )
        },
{
    let n_in: usize = x_in.len();
    let n_out: usize = x_out.len();
    if n_in < 2 {
        return Err(PlanError::TooFewInputs { required: 2 });
    }
    if n_out < 1 {
        return Err(PlanError::NoOutputs);
    }
    if !is_strictly_increasing(x_in) {
        return Err(PlanError::UnsortedInputs);
    }
    let mut lower: Vec<usize> = Vec::with_capacity(n_out);
    let mut lo: usize = 0;
    let mut j: usize = 0;
    while j < n_out
        invariant
            n_in == x_in@.len(),
            n_out == x_out@.len(),
            n_in >= 2,
            strictly_increasing(x_in@),
            j <= n_out,
            lower@.len() == j,
            lo <= n_in - 2,
            j == 0 ==> lo == 0,
            j > 0 ==> lo == running_bracket(x_in@, x_out@, j - 1),
            forall|k: int| 0 <= k < j ==> #[trigger] lower@[k] == running_bracket(x_in@, x_out@, k),
            forall|k: int| 0 <= k < j ==> #[trigger] lower@[k] + 1 < n_in,
        decreases n_out - j,
    {
        proof {
            last_at_or_before_is_last(x_in@, x_out@[j as int], n_in - 2);
        }
        let ghost prev: int = lo as int;
        lo = advance(x_in, x_out[j], lo);
        proof {
            if j == 0 {
                assert(lo == bracket_of(x_in@, x_out@[0]));
            } else {
                assert(running_bracket(x_in@, x_out@, j as int) == (if prev >= bracket_of(
                    x_in@,
                    x_out@[j as int],
                ) {
                    prev
                } else {
                    bracket_of(x_in@, x_out@[j as int])
                }));
            }
        }
        lower.push(lo);
        j = j + 1;
    }
    Ok(Brackets { lower, n_in })
}

} // verus!
