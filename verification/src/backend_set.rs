//! A collection of backends for directors, with the selection helpers that
//! directors build on.
//!
//! Health is a snapshot: the helpers take, for each backend of the set in
//! order, whether Varnish reports it healthy.
use vstd::prelude::*;

use crate::backend::VCL_BACKEND;

verus! {

/// The backends of `bes` whose health flag is set, in order.
pub open spec fn healthy_of(bes: Seq<VCL_BACKEND>, health: Seq<bool>) -> Seq<VCL_BACKEND>
    decreases bes.len(),
{
    if bes.len() == 0 {
        seq![]
    } else {
        let r = healthy_of(bes.drop_last(), health);
        if health[bes.len() - 1] {
            r.push(bes.last())
        } else {
            r
        }
    }
}

/// `i` is the first position of `be` in `s`.
pub open spec fn is_first_index(s: Seq<VCL_BACKEND>, be: VCL_BACKEND, i: int) -> bool {
    &&& 0 <= i < s.len()
    &&& s[i] == be
    &&& forall|j: int| 0 <= j < i ==> s[j] != be
}

/// `i` is the first position whose health flag is set.
pub open spec fn is_first_healthy(health: Seq<bool>, i: int) -> bool {
    &&& 0 <= i < health.len()
    &&& health[i]
    &&& forall|j: int| 0 <= j < i ==> !health[j]
}

/// The healthy list of a prefix is a prefix of the healthy list of a longer
/// prefix.
pub proof fn lemma_healthy_of_prefix(bes: Seq<VCL_BACKEND>, health: Seq<bool>, i: int, j: int)
    requires
        0 <= i <= j <= bes.len(),
    ensures
        healthy_of(bes.take(i), health).len() <= healthy_of(bes.take(j), health).len(),
        healthy_of(bes.take(i), health) == healthy_of(bes.take(j), health).take(
            healthy_of(bes.take(i), health).len() as int,
        ),
    decreases j - i,
{
    if i < j {
        lemma_healthy_of_prefix(bes, health, i, j - 1);
        assert(bes.take(j).drop_last() =~= bes.take(j - 1));
        let a = healthy_of(bes.take(i), health);
        let b = healthy_of(bes.take(j - 1), health);
        let c = healthy_of(bes.take(j), health);
        if health[j - 1] {
            assert(c == b.push(bes[j - 1]));
            assert(c.take(a.len() as int) =~= b.take(a.len() as int));
        }
    } else {
        let a = healthy_of(bes.take(i), health);
        assert(a.take(a.len() as int) =~= a);
    }
}

/// Every backend of the healthy list is a backend of the set whose health
/// flag is set, and the list is no longer than the set.
pub proof fn lemma_healthy_of_members(bes: Seq<VCL_BACKEND>, health: Seq<bool>)
    ensures
        healthy_of(bes, health).len() <= bes.len(),
        forall|k: int|
            #![trigger healthy_of(bes, health)[k]]
            0 <= k < healthy_of(bes, health).len() ==> exists|j: int|
                0 <= j < bes.len() && health[j] && healthy_of(bes, health)[k] == #[trigger] bes[j],
    decreases bes.len(),
{
    if bes.len() > 0 {
        let d = bes.drop_last();
        lemma_healthy_of_members(d, health);
        let r = healthy_of(d, health);
        let h = healthy_of(bes, health);
        if health[bes.len() - 1] {
            assert(h == r.push(bes.last()));
        } else {
            assert(h == r);
        }
        assert forall|k: int| #![trigger h[k]] 0 <= k < h.len() implies exists|j: int|
            0 <= j < bes.len() && health[j] && h[k] == #[trigger] bes[j] by {
            if k < r.len() {
                assert(h[k] == r[k]);
                let j = choose|j: int| 0 <= j < d.len() && health[j] && r[k] == #[trigger] d[j];
                assert(bes[j] == d[j]);
            } else {
                assert(h[k] == bes[bes.len() - 1]);
            }
        }
    }
}

/// Thread-unaware collection of backends for directors, in insertion order.
#[derive(Debug)]
pub struct BackendSet {
    backends: Vec<VCL_BACKEND>,
}

impl View for BackendSet {
    type V = Seq<VCL_BACKEND>;

    /// The backends, in insertion order.
    closed spec fn view(&self) -> Seq<VCL_BACKEND> {
        self.backends@
    }
}

impl BackendSet {

    /// An empty backend set.
    pub fn new() -> (s: BackendSet)
        ensures
            s@ == Seq::<VCL_BACKEND>::empty(),
    {
        BackendSet { backends: Vec::new() }
    }

    /// An empty backend set with room for `capacity` backends.
    pub fn with_capacity(capacity: usize) -> (s: BackendSet)
        ensures
            s@ == Seq::<VCL_BACKEND>::empty(),
    {
        BackendSet { backends: Vec::with_capacity(capacity) }
    }

    /// Adds a backend at the end of the set.
    pub fn add(&mut self, be: VCL_BACKEND)
        ensures
            final(self)@ == old(self)@.push(be),
    {
        self.backends.push(be);
    }

    /// The first position of `be` in the set.
    pub fn position(&self, be: VCL_BACKEND) -> (r: Option<usize>)
        ensures
            match r {
                Some(i) => is_first_index(self@, be, i as int),
                None => !self@.contains(be),
            },
    {
        let mut i: usize = 0;
        while i < self.backends.len()
            invariant
                i <= self@.len(),
                forall|j: int| 0 <= j < i ==> self@[j] != be,
            decreases self@.len() - i,
        {
            if self.backends[i] == be {
                return Some(i);
            }
            i = i + 1;
        }
        None
    }

    /// Removes the first occurrence of `be`; returns whether there was one.
    pub fn remove(&mut self, be: VCL_BACKEND) -> (r: bool)
        ensures
            r == old(self)@.contains(be),
            r ==> exists|i: int|
                is_first_index(old(self)@, be, i) && final(self)@ == old(self)@.remove(i),
            !r ==> final(self)@ == old(self)@,
    {
        match self.position(be) {
            Some(i) => {
                self.backends.remove(i);
                assert(is_first_index(old(self)@, be, i as int));
                true
            },
            None => false,
        }
    }

    /// The number of backends in the set.
    pub fn len(&self) -> (n: usize)
        ensures
            n == self@.len(),
    {
        self.backends.len()
    }

    /// Whether the set is empty.
    pub fn is_empty(&self) -> (r: bool)
        ensures
            r == (self@.len() == 0),
    {
        self.backends.len() == 0
    }

    /// All backends, healthy or not, in insertion order.
    pub fn all(&self) -> (r: Vec<VCL_BACKEND>)
        ensures
            r@ == self@,
    {
        let mut r: Vec<VCL_BACKEND> = Vec::new();
        let mut i: usize = 0;
        while i < self.backends.len()
            invariant
                i <= self@.len(),
                r@ == self@.take(i as int),
            decreases self@.len() - i,
        {
            r.push(self.backends[i]);
            assert(self@.take(i + 1) =~= self@.take(i as int).push(self@[i as int]));
            i = i + 1;
        }
        assert(self@.take(i as int) =~= self@);
        r
    }

    /// Empties the set.
    pub fn release_all(&mut self)
        ensures
            final(self)@ == Seq::<VCL_BACKEND>::empty(),
    {
        self.backends.clear();
    }

    /// The healthy backends, in insertion order; `health[i]` tells whether
    /// the `i`-th backend is healthy.
    pub fn healthy_list(&self, health: &[bool]) -> (r: Vec<VCL_BACKEND>)
        requires
            health@.len() == self@.len(),
        ensures
            r@ == healthy_of(self@, health@),
    {
        let mut r: Vec<VCL_BACKEND> = Vec::new();
        let mut i: usize = 0;
        assert(self@.take(0) =~= Seq::<VCL_BACKEND>::empty());
        while i < self.backends.len()
            invariant
                i <= self@.len(),
                health@.len() == self@.len(),
                r@ == healthy_of(self@.take(i as int), health@),
            decreases self@.len() - i,
        {
            assert(self@.take(i + 1).drop_last() =~= self@.take(i as int));
            if health[i] {
                r.push(self.backends[i]);
            }
            i = i + 1;
        }
        assert(self@.take(i as int) =~= self@);
        r
    }

    /// The number of healthy backends.
    pub fn healthy_count(&self, health: &[bool]) -> (n: usize)
        requires
            health@.len() == self@.len(),
        ensures
            n == healthy_of(self@, health@).len(),
    {
        let mut n: usize = 0;
        let mut i: usize = 0;
        assert(self@.take(0) =~= Seq::<VCL_BACKEND>::empty());
        while i < self.backends.len()
            invariant
                i <= self@.len(),
                health@.len() == self@.len(),
                n == healthy_of(self@.take(i as int), health@).len(),
            decreases self@.len() - i,
        {
            assert(self@.take(i + 1).drop_last() =~= self@.take(i as int));
            proof {
                lemma_healthy_of_members(self@.take(i as int), health@);
            }
            if health[i] {
                n = n + 1;
            }
            i = i + 1;
        }
        assert(self@.take(i as int) =~= self@);
        n
    }

    /// The position of the first healthy backend.
    pub fn first_healthy_index(&self, health: &[bool]) -> (r: Option<usize>)
        requires
            health@.len() == self@.len(),
        ensures
            match r {
                Some(i) => is_first_healthy(health@, i as int),
                None => forall|j: int| 0 <= j < health@.len() ==> !health@[j],
            },
    {
        let mut i: usize = 0;
        while i < health.len()
            invariant
                i <= health@.len(),
                forall|j: int| 0 <= j < i ==> !health@[j],
            decreases health@.len() - i,
        {
            if health[i] {
                return Some(i);
            }
            i = i + 1;
        }
        None
    }

    /// The first healthy backend in insertion order, `None` if none is
    /// healthy.
    pub fn pick_first_healthy(&self, health: &[bool]) -> (r: Option<VCL_BACKEND>)
        requires
            health@.len() == self@.len(),
        ensures
            healthy_of(self@, health@).len() == 0 ==> r is None,
            healthy_of(self@, health@).len() > 0 ==> r == Some(healthy_of(self@, health@)[0]),
    {
        match self.first_healthy_index(health) {
            Some(i) => {
                proof {
                    lemma_no_healthy_before(self@, health@, i as int);
                    let t = self@.take(i + 1);
                    assert(t.drop_last() =~= self@.take(i as int));
                    assert(t.len() == i + 1);
                    assert(t[t.len() - 1] == self@[i as int]);
                    let a = healthy_of(t, health@);
                    assert(a == healthy_of(self@.take(i as int), health@).push(self@[i as int]));
                    assert(a.len() == 1 && a[0] == self@[i as int]);
                    lemma_healthy_of_prefix(self@, health@, i + 1, self@.len() as int);
                    assert(self@.take(self@.len() as int) =~= self@);
                    let all = healthy_of(self@, health@);
                    assert(a == all.take(1));
                    assert(all[0] == a[0]);
                }
                Some(self.backends[i])
            },
            None => {
                proof {
                    lemma_no_healthy_before(self@, health@, self@.len() as int);
                    assert(self@.take(self@.len() as int) =~= self@);
                }
                None
            },
        }
    }

    /// The healthy backend at position `idx % n`, `n` being the number of
    /// healthy backends; `None` if none is healthy.
    pub fn pick_by_index(&self, health: &[bool], idx: usize) -> (r: Option<VCL_BACKEND>)
        requires
            health@.len() == self@.len(),
        ensures
            healthy_of(self@, health@).len() == 0 ==> r is None,
            healthy_of(self@, health@).len() > 0 ==> r == Some(
                healthy_of(self@, health@)[idx as int % healthy_of(self@, health@).len() as int],
            ),
    {
        let healthy = self.healthy_list(health);
        if healthy.len() == 0 {
            None
        } else {
            Some(healthy[idx % healthy.len()])
        }
    }
}

/// No healthy backend before position `i` means an empty healthy list for
/// the first `i` backends.
pub proof fn lemma_no_healthy_before(bes: Seq<VCL_BACKEND>, health: Seq<bool>, i: int)
    requires
        0 <= i <= bes.len(),
        forall|j: int| 0 <= j < i ==> !health[j],
    ensures
        healthy_of(bes.take(i), health).len() == 0,
    decreases i,
{
    if i > 0 {
        assert(bes.take(i).drop_last() =~= bes.take(i - 1));
        lemma_no_healthy_before(bes, health, i - 1);
    }
}

/// Whatever the index, a backend picked by index is one of the set's
/// backends and is healthy.
pub proof fn law_pick_by_index_is_healthy_member(
    bes: Seq<VCL_BACKEND>,
    health: Seq<bool>,
    idx: int,
)
    requires
        health.len() == bes.len(),
        healthy_of(bes, health).len() > 0,
        idx >= 0,
    ensures
        exists|j: int|
            0 <= j < bes.len() && health[j] && bes[j] == healthy_of(bes, health)[idx
                % healthy_of(bes, health).len() as int],
{
    lemma_healthy_of_members(bes, health);
    let k = idx % healthy_of(bes, health).len() as int;
    assert(0 <= k < healthy_of(bes, health).len());
    let j = choose|j: int|
        0 <= j < bes.len() && health[j] && healthy_of(bes, health)[k] == #[trigger] bes[j];
}

/// Adding a backend that is not in the set and then removing it gives the
/// set back.
pub proof fn law_add_then_remove(bes: Seq<VCL_BACKEND>, be: VCL_BACKEND)
    requires
        !bes.contains(be),
    ensures
        bes.push(be).contains(be),
        forall|i: int| is_first_index(bes.push(be), be, i) ==> bes.push(be).remove(i) == bes,
{
    assert(bes.push(be)[bes.len() as int] == be);
    assert forall|i: int| is_first_index(bes.push(be), be, i) implies bes.push(be).remove(i)
        == bes by {
        if i < bes.len() {
            assert(bes[i] == bes.push(be)[i]);
        }
        assert(i == bes.len());
        assert(bes.push(be).remove(i) =~= bes);
    }
}

} // verus!
