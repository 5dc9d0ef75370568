//! A bounded, first-in-first-out cache of interpolation plans.
//!
//! Building a plan is the costly part of an interpolation, and callers
//! often interpolate many arrays onto the same coordinates. Plans are kept
//! under the exact encodings of their input and output coordinates; when
//! more than `limit` plans are held, the oldest one is dropped.
use vstd::prelude::*;

verus! {

/// The number of plans a cache holds by default.
pub const PLAN_CACHE_LIMIT: usize = 32;

/// The coordinates a plan was built for, as binary64 encodings.
#[derive(Debug)]
pub struct PlanKey {
    /// Encodings of the input coordinates.
    pub x_in_bits: Vec<u64>,
    /// Encodings of the output coordinates.
    pub x_out_bits: Vec<u64>,
}

impl View for PlanKey {
    type V = (Seq<u64>, Seq<u64>);

    open spec fn view(&self) -> (Seq<u64>, Seq<u64>) {
        (self.x_in_bits@, self.x_out_bits@)
    }
}

impl PlanKey {
    /// A key for the given coordinate encodings.
    pub fn new(x_in_bits: Vec<u64>, x_out_bits: Vec<u64>) -> (k: PlanKey)
        ensures
            k@ == (x_in_bits@, x_out_bits@),
    {
        PlanKey { x_in_bits, x_out_bits }
    }
}

/// Whether two sequences of encodings are identical.
fn same_bits(a: &Vec<u64>, b: &Vec<u64>) -> (r: bool)
    ensures
        r == (a@ == b@),
{
    if a.len() != b.len() {
        return false;
    }
    let n: usize = a.len();
    let mut i: usize = 0;
    while i < n
        invariant
            n == a@.len(),
            n == b@.len(),
            i <= n,
            forall|k: int| 0 <= k < i ==> a@[k] == b@[k],
        decreases n - i,
    {
        if a[i] != b[i] {
            return false;
        }
        i = i + 1;
    }
    assert(a@ =~= b@);
    true
}

/// No key occurs twice.
pub open spec fn distinct_keys(keys: Seq<(Seq<u64>, Seq<u64>)>) -> bool {
    forall|i: int, j: int| 0 <= i < j < keys.len() ==> keys[i] != keys[j]
}

/// The plan stored under `key`, if any.
pub open spec fn lookup<P>(keys: Seq<(Seq<u64>, Seq<u64>)>, plans: Seq<P>, key: (Seq<u64>, Seq<u64>)) -> Option<P> {
    if exists|i: int| 0 <= i < keys.len() && keys[i] == key {
        Some(plans[choose|i: int| 0 <= i < keys.len() && keys[i] == key])
    } else {
        None
    }
}

/// The keys after storing a new one: appended at the back, and the front
/// one dropped when more than `limit` would be held.
pub open spec fn keys_after_insert(
    keys: Seq<(Seq<u64>, Seq<u64>)>,
    key: (Seq<u64>, Seq<u64>),
    limit: nat,
) -> Seq<(Seq<u64>, Seq<u64>)> {
    if keys.len() + 1 > limit {
        keys.push(key).drop_first()
    } else {
        keys.push(key)
    }
}

/// The plans after storing a new one, kept in step with the keys.
pub open spec fn plans_after_insert<P>(plans: Seq<P>, plan: P, limit: nat) -> Seq<P> {
    if plans.len() + 1 > limit {
        plans.push(plan).drop_first()
    } else {
        plans.push(plan)
    }
}

/// The views of a vector of keys.
pub open spec fn key_views(keys: Seq<PlanKey>) -> Seq<(Seq<u64>, Seq<u64>)> {
    keys.map_values(|k: PlanKey| k@)
}

/// The position of `key` among `keys`.
fn find_key(keys: &Vec<PlanKey>, key: &PlanKey) -> (r: Option<usize>)
    ensures
        r matches Some(i) ==> i < keys@.len() && key_views(keys@)[i as int] == key@,
        r is None ==> forall|i: int| 0 <= i < keys@.len() ==> key_views(keys@)[i] != key@,
{
    let n: usize = keys.len();
    let mut i: usize = 0;
    while i < n
        invariant
            n == keys@.len(),
            i <= n,
            forall|k: int| 0 <= k < i ==> key_views(keys@)[k] != key@,
        decreases n - i,
    {
        let k = &keys[i];
        if same_bits(&k.x_in_bits, &key.x_in_bits) && same_bits(&k.x_out_bits, &key.x_out_bits) {
            assert(key_views(keys@)[i as int] == key@);
            return Some(i);
        }
        assert(key_views(keys@)[i as int] != key@);
        i = i + 1;
    }
    None
}

/// Plans under their coordinates, oldest first.
pub struct PlanCache<P> {
    keys: Vec<PlanKey>,
    plans: Vec<P>,
    limit: usize,
}

impl<P> PlanCache<P> {
    /// At most `limit` plans, one per key.
    #[verifier::type_invariant]
    spec fn well_formed(self) -> bool {
        &&& self.limit >= 1
        &&& self.keys@.len() == self.plans@.len()
        &&& self.keys@.len() <= self.limit
        &&& distinct_keys(key_views(self.keys@))
    }

    /// The keys held, oldest first.
    pub closed spec fn key_view(self) -> Seq<(Seq<u64>, Seq<u64>)> {
        key_views(self.keys@)
    }

    /// The plans held, in step with `key_view`.
    pub closed spec fn plan_view(self) -> Seq<P> {
        self.plans@
    }

    /// The most plans held at once.
    pub closed spec fn capacity(self) -> nat {
        self.limit as nat
    }

    /// An empty cache holding at most `PLAN_CACHE_LIMIT` plans.
    pub fn new() -> (c: Self)
        ensures
            c.key_view().len() == 0,
            c.plan_view().len() == 0,
            c.capacity() == PLAN_CACHE_LIMIT,
    {
        Self::with_limit(PLAN_CACHE_LIMIT)
    }

    /// An empty cache holding at most `limit` plans.
    pub fn with_limit(limit: usize) -> (c: Self)
        requires
            limit >= 1,
        ensures
            c.key_view().len() == 0,
            c.plan_view().len() == 0,
            c.capacity() == limit,
    {
        let c = PlanCache { keys: Vec::new(), plans: Vec::new(), limit };
        assert(c.keys@.map_values(|k: PlanKey| k@) =~= Seq::<(Seq<u64>, Seq<u64>)>::empty());
        c
    }

    /// What holds of every cache: at most `capacity` plans, one per key.
    pub fn len(&self) -> (n: usize)
        ensures
            n == self.key_view().len(),
            n == self.plan_view().len(),
            n <= self.capacity(),
            self.capacity() >= 1,
            distinct_keys(self.key_view()),
    {
        proof {
            use_type_invariant(self);
        }
        self.keys.len()
    }

    /// The plan stored under `key`, if any.
    pub fn get(&self, key: &PlanKey) -> (r: Option<&P>)
        ensures
            r matches Some(p) ==> lookup(self.key_view(), self.plan_view(), key@) == Some(*p),
            r is None ==> lookup(self.key_view(), self.plan_view(), key@) is None,
    {
        proof {
            use_type_invariant(self);
        }
        match find_key(&self.keys, key) {
            Some(i) => {
                proof {
                    let kv = self.key_view();
                    let c = choose|j: int| 0 <= j < kv.len() && kv[j] == key@;
                    assert(c == i as int) by {
                        if c != i as int {
                            if c < i {
                                assert(kv[c] != kv[i as int]);
                            } else {
                                assert(kv[i as int] != kv[c]);
                            }
                        }
                    }
                }
                Some(&self.plans[i])
            },
            None => None,
        }
    }

    /// Stores `plan` under `key`, dropping the oldest plan when more than
    /// `capacity` would be held. A key that is already held keeps its place
    /// and has its plan replaced.
    pub fn insert(&mut self, key: PlanKey, plan: P)
        ensures
            final(self).capacity() == old(self).capacity(),
            !old(self).key_view().contains(key@) ==> {
                &&& final(self).key_view() == keys_after_insert(
                    old(self).key_view(),
                    key@,
                    old(self).capacity(),
                )
                &&& final(self).plan_view() == plans_after_insert(
                    old(self).plan_view(),
                    plan,
                    old(self).capacity(),
                )
            },
            old(self).key_view().contains(key@) ==> {
                &&& final(self).key_view() == old(self).key_view()
                &&& final(self).plan_view() == old(self).plan_view().update(
                    old(self).key_view().index_of(key@),
                    plan,
                )
            },
            lookup(final(self).key_view(), final(self).plan_view(), key@) == Some(plan),
    {
        proof {
            use_type_invariant(&*self);
        }
        let empty_keys: Vec<PlanKey> = Vec::new();
        assert(key_views(empty_keys@) =~= Seq::<(Seq<u64>, Seq<u64>)>::empty());
        let mut held = PlanCache { keys: empty_keys, plans: Vec::new(), limit: self.limit };
        std::mem::swap(self, &mut held);
        proof {
            use_type_invariant(&held);
        }
        let PlanCache { mut keys, mut plans, limit } = held;
        let ghost kv0 = key_views(keys@);
        match find_key(&keys, &key) {
            Some(i) => {
                proof {
                    assert(kv0.contains(key@));
                    let ix = kv0.index_of(key@);
                    assert(ix == i as int) by {
                        if ix != i as int {
                            if ix < i {
                                assert(kv0[ix] != kv0[i as int]);
                            } else {
                                assert(kv0[i as int] != kv0[ix]);
                            }
                        }
                    }
                    let c = choose|j: int| 0 <= j < kv0.len() && kv0[j] == key@;
                    assert(c == i as int) by {
                        if c != i as int {
                            if c < i {
                                assert(kv0[c] != kv0[i as int]);
                            } else {
                                assert(kv0[i as int] != kv0[c]);
                            }
                        }
                    }
                }
                plans.set(i, plan);
            },
            None => {
                proof {
                    assert(!kv0.contains(key@));
                }
                keys.push(key);
                plans.push(plan);
                if keys.len() > limit {
                    keys.remove(0);
                    plans.remove(0);
                }
                let ghost kv1 = key_views(keys@);
                proof {
                    let pushed = kv0.push(key@);
                    assert(kv1 =~= keys_after_insert(kv0, key@, limit as nat));
                    assert(distinct_keys(pushed)) by {
                        assert forall|a: int, b: int| 0 <= a < b < pushed.len() implies pushed[a]
                            != pushed[b] by {
                            if b == kv0.len() {
                                assert(pushed[a] == kv0[a]);
                            }
                        }
                    }
                    assert(distinct_keys(kv1)) by {
                        assert forall|a: int, b: int| 0 <= a < b < kv1.len() implies kv1[a]
                            != kv1[b] by {
                            if pushed.len() > limit {
                                assert(kv1[a] == pushed[a + 1]);
                                assert(kv1[b] == pushed[b + 1]);
                            } else {
                                assert(kv1[a] == pushed[a]);
                                assert(kv1[b] == pushed[b]);
                            }
                        }
                    }
                    let last = kv1.len() - 1;
                    assert(kv1[last] == key@);
                    let c = choose|j: int| 0 <= j < kv1.len() && kv1[j] == key@;
                    assert(c == last) by {
                        if c != last {
                            assert(kv1[c] != kv1[last]);
                        }
                    }
                }
            },
        }
        *self = PlanCache { keys, plans, limit };
    }
}

/// Storing a plan and then looking its key up gives that plan back.
pub proof fn lookup_after_insert<P>(
    keys: Seq<(Seq<u64>, Seq<u64>)>,
    plans: Seq<P>,
    key: (Seq<u64>, Seq<u64>),
    plan: P,
    limit: nat,
)
    requires
        limit >= 1,
        keys.len() == plans.len(),
        keys.len() <= limit,
        distinct_keys(keys),
        !keys.contains(key),
    ensures
        lookup(
            keys_after_insert(keys, key, limit),
            plans_after_insert(plans, plan, limit),
            key,
        ) == Some(plan),
        keys_after_insert(keys, key, limit).len() <= limit,
        distinct_keys(keys_after_insert(keys, key, limit)),
{
    let pushed = keys.push(key);
    let after = keys_after_insert(keys, key, limit);
    let pafter = plans_after_insert(plans, plan, limit);
    assert(distinct_keys(pushed)) by {
        assert forall|a: int, b: int| 0 <= a < b < pushed.len() implies pushed[a] != pushed[b] by {
            if b == keys.len() {
                assert(pushed[a] == keys[a]);
            }
        }
    }
    assert(distinct_keys(after)) by {
        assert forall|a: int, b: int| 0 <= a < b < after.len() implies after[a] != after[b] by {
            if keys.len() + 1 > limit {
                assert(after[a] == pushed[a + 1]);
                assert(after[b] == pushed[b + 1]);
            }
        }
    }
    let last = after.len() - 1;
    assert(after[last] == key);
    let c = choose|j: int| 0 <= j < after.len() && after[j] == key;
    assert(c == last) by {
        if c != last {
            assert(after[c] != after[last]);
        }
    }
    assert(pafter[last] == plan);
}

/// Storing a new plan drops at most the oldest one: every other key held
/// before is still found with its plan, unless it was the oldest of a full
/// cache.
pub proof fn insert_keeps_newer_plans<P>(
    keys: Seq<(Seq<u64>, Seq<u64>)>,
    plans: Seq<P>,
    key: (Seq<u64>, Seq<u64>),
    plan: P,
    limit: nat,
    i: int,
)
    requires
        limit >= 1,
        keys.len() == plans.len(),
        keys.len() <= limit,
        distinct_keys(keys),
        !keys.contains(key),
        0 <= i < keys.len(),
        i > 0 || keys.len() < limit,
    ensures
        lookup(
            keys_after_insert(keys, key, limit),
            plans_after_insert(plans, plan, limit),
            keys[i],
        ) == Some(plans[i]),
{
    lookup_after_insert(keys, plans, key, plan, limit);
    let after = keys_after_insert(keys, key, limit);
    let pafter = plans_after_insert(plans, plan, limit);
    let pos = if keys.len() + 1 > limit {
        i - 1
    } else {
        i
    };
    assert(after[pos] == keys[i]);
    assert(pafter[pos] == plans[i]);
    let c = choose|j: int| 0 <= j < after.len() && after[j] == keys[i];
    assert(c == pos) by {
        if c != pos {
            if c < pos {
                assert(after[c] != after[pos]);
            } else {
                assert(after[pos] != after[c]);
            }
        }
    }
}

} // verus!
