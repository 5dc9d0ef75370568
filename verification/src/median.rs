//! Selection of the median of a set of sample spacings.
//!
//! The median spacing of the input coordinates sets how far an output may
//! lie from its bracketing inputs and still be valid. The spacings are
//! ranked by the IEEE-754 totalOrder predicate; when their number is even
//! the median is the midpoint of the two middle spacings, which the caller
//! computes from the two spacings selected here.
use vstd::prelude::*;
use crate::ieee::{from_total_order_key, total_key, total_order_key};

verus! {

/// The totalOrder keys of a sequence of encodings.
pub open spec fn key_seq(s: Seq<u64>) -> Seq<u64> {
    s.map_values(|b: u64| total_key(b) as u64)
}

/// `t` reorders `s` so that `v` stands at position `k`, with nothing larger
/// before it and nothing smaller after it.
pub open spec fn partitioned_at(t: Seq<u64>, s: Seq<u64>, k: int, v: u64) -> bool {
    &&& t.to_multiset() == s.to_multiset()
    &&& t.len() == s.len()
    &&& 0 <= k < t.len()
    &&& t[k] == v
    &&& forall|i: int| 0 <= i < k ==> #[trigger] t[i] <= v
    &&& forall|i: int| k < i < t.len() ==> v <= #[trigger] t[i]
}

/// `v` is the `k`-th smallest element of `s`, counting from 0.
pub open spec fn kth_smallest(s: Seq<u64>, k: int, v: u64) -> bool {
    exists|t: Seq<u64>| #[trigger] partitioned_at(t, s, k, v)
}

/// The number of elements of `t` below `w`.
pub open spec fn count_below(t: Seq<u64>, w: u64) -> nat
    decreases t.len(),
{
    if t.len() == 0 {
        0
    } else {
        count_below(t.drop_last(), w) + if t.last() < w {
            1nat
        } else {
            0nat
        }
    }
}

/// The number of elements below `w` depends only on the multiset of
/// elements, not on their order.
proof fn count_below_of_multiset(t: Seq<u64>, w: u64)
    ensures
        count_below(t, w) == t.to_multiset().filter(|x: u64| x < w).len(),
    decreases t.len(),
{
    broadcast use vstd::seq_lib::group_to_multiset_ensures;
    broadcast use vstd::multiset::group_multiset_axioms;

    let below = |x: u64| x < w;
    if t.len() == 0 {
        assert(t.to_multiset().filter(below) =~= vstd::multiset::Multiset::empty());
    } else {
        let d = t.drop_last();
        let a = t.last();
        count_below_of_multiset(d, w);
        assert(t =~= d.push(a));
        vstd::seq_lib::to_multiset_build(d, a);
        let m = d.to_multiset();
        assert(t.to_multiset() =~= m.insert(a));
        if a < w {
            assert(m.insert(a).filter(below) =~= m.filter(below).insert(a));
        } else {
            assert(m.insert(a).filter(below) =~= m.filter(below));
        }
    }
}

/// A prefix of `m` elements below `w` puts at least `m` elements below `w`.
proof fn count_below_at_least(t: Seq<u64>, w: u64, m: int)
    requires
        0 <= m <= t.len(),
        forall|i: int| 0 <= i < m ==> #[trigger] t[i] < w,
    ensures
        count_below(t, w) >= m,
    decreases t.len(),
{
    if t.len() > 0 {
        let d = t.drop_last();
        if m == t.len() {
            count_below_at_least(d, w, m - 1);
        } else {
            count_below_at_least(d, w, m);
        }
    }
}

/// When everything from position `m` on is at least `w`, at most `m`
/// elements are below `w`.
proof fn count_below_at_most(t: Seq<u64>, w: u64, m: int)
    requires
        0 <= m <= t.len(),
        forall|i: int| m <= i < t.len() ==> w <= #[trigger] t[i],
    ensures
        count_below(t, w) <= m,
    decreases t.len(),
{
    if t.len() > 0 {
        let d = t.drop_last();
        if m == t.len() {
            count_below_at_most(d, w, m - 1);
        } else {
            count_below_at_most(d, w, m);
        }
    }
}

/// The `k`-th smallest element is unique: a selection pins its result.
pub proof fn kth_smallest_is_unique(s: Seq<u64>, k: int, v: u64, w: u64)
    requires
        kth_smallest(s, k, v),
        kth_smallest(s, k, w),
    ensures
        v == w,
{
    let t1 = choose|t: Seq<u64>| #[trigger] partitioned_at(t, s, k, v);
    let t2 = choose|t: Seq<u64>| #[trigger] partitioned_at(t, s, k, w);
    count_below_of_multiset(t1, w);
    count_below_of_multiset(t2, w);
    count_below_of_multiset(t1, v);
    count_below_of_multiset(t2, v);
    if v < w {
        count_below_at_least(t1, w, k + 1);
        count_below_at_most(t2, w, k);
    } else if w < v {
        count_below_at_least(t2, v, k + 1);
        count_below_at_most(t1, v, k);
    }
}

/// Ranks and values agree: the `k`-th smallest element is no larger than
/// the `(k + 1)`-th, so the lower middle spacing never exceeds the upper.
pub proof fn kth_smallest_is_monotone(s: Seq<u64>, k: int, v: u64, w: u64)
    requires
        kth_smallest(s, k, v),
        kth_smallest(s, k + 1, w),
    ensures
        v <= w,
{
    let t1 = choose|t: Seq<u64>| #[trigger] partitioned_at(t, s, k, v);
    let t2 = choose|t: Seq<u64>| #[trigger] partitioned_at(t, s, k + 1, w);
    if w < v {
        count_below_of_multiset(t1, v);
        count_below_of_multiset(t2, v);
        count_below_at_most(t1, v, k);
        count_below_at_least(t2, v, k + 2);
    }
}

/// Reorders `keys` so that the element at `index` is the one a sort would
/// put there, with no larger element before it and no smaller one after it
/// (`slice::select_nth_unstable`; its result is not needed).
#[verifier::external_body]
fn select_nth(keys: &mut Vec<u64>, index: usize)
    requires
        index < old(keys)@.len(),
    ensures
        final(keys)@.len() == old(keys)@.len(),
        final(keys)@.to_multiset() == old(keys)@.to_multiset(),
        forall|i: int| 0 <= i < index ==> #[trigger] final(keys)@[i] <= final(keys)@[index as int],
        forall|i: int|
            index < i < final(keys)@.len() ==> final(keys)@[index as int] <= #[trigger] final(keys)@[i],
{
    keys.select_nth_unstable(index);
}

/// The middle spacing(s): `upper` is the spacing of rank `n / 2`; when the
/// number `n` of spacings is even, `lower` is the spacing of rank `n / 2 - 1`.
#[derive(Debug, Clone, Copy, PartialEq, Eq, Structural)]
pub struct MedianSelection {
    /// Encoding of the spacing of rank `n / 2`.
    pub upper: u64,
    /// Encoding of the spacing of rank `n / 2 - 1`, present when `n` is even.
    pub lower: Option<u64>,
}

/// Selects the middle spacing(s) of `spacings`, given as encodings and
/// ranked by IEEE-754 totalOrder.
pub fn select_median(spacings: &Vec<u64>) -> (m: MedianSelection)
    requires
        spacings@.len() >= 1,
    ensures
        kth_smallest(key_seq(spacings@), (spacings@.len() / 2) as int, total_key(m.upper) as u64),
        m.lower is Some <==> spacings@.len() % 2 == 0,
        m.lower matches Some(l) ==> kth_smallest(
            key_seq(spacings@),
            spacings@.len() / 2 - 1int,
            total_key(l) as u64,
        ),
{
    let n: usize = spacings.len();
    let mut keys: Vec<u64> = Vec::with_capacity(n);
    let mut i: usize = 0;
    while i < n
        invariant
            n == spacings@.len(),
            i <= n,
            keys@ == key_seq(spacings@).subrange(0, i as int),
        decreases n - i,
    {
        keys.push(total_order_key(spacings[i]));
        i = i + 1;
        assert(keys@ =~= key_seq(spacings@).subrange(0, i as int));
    }
    assert(keys@ =~= key_seq(spacings@));
    let ghost unordered: Seq<u64> = keys@;
    let mid: usize = n / 2;
    select_nth(&mut keys, mid);
    let upper_key: u64 = keys[mid];
    assert(partitioned_at(keys@, unordered, mid as int, upper_key));
    let upper: u64 = from_total_order_key(upper_key);
    if n % 2 == 0 {
        let ghost first: Seq<u64> = keys@;
        select_nth(&mut keys, mid - 1);
        let lower_key: u64 = keys[mid - 1];
        assert(keys@.to_multiset() == first.to_multiset());
        assert(partitioned_at(keys@, unordered, mid - 1, lower_key));
        let lower: u64 = from_total_order_key(lower_key);
        MedianSelection { upper, lower: Some(lower) }
    } else {
        MedianSelection { upper, lower: None }
    }
}

} // verus!
