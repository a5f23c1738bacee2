//! A small set of participant ids, used for the per-stage bookkeeping of
//! who has already submitted. Backed by a duplicate-free vector and
//! viewed as a mathematical set.

use vstd::prelude::*;

verus! {

/// Every id of `ids` is in `s`: the submitted-set covers the active
/// roster.
pub open spec fn covers(s: Set<u64>, ids: Seq<u64>) -> bool {
    forall|j: int| 0 <= j < ids.len() ==> s.contains(ids[j])
}

/// A finite set of participant ids.
#[derive(Debug, Clone)]
pub struct IdSet {
    ids: Vec<u64>,
}

impl View for IdSet {
    type V = Set<u64>;

    closed spec fn view(&self) -> Set<u64> {
        self.ids@.to_set()
    }
}

impl IdSet {
    /// The backing vector holds each id at most once.
    pub closed spec fn wf(self) -> bool {
        self.ids@.no_duplicates()
    }

    /// The empty set.
    pub fn new() -> (r: Self)
        ensures
            r.wf(),
            r@ == Set::<u64>::empty(),
    {
        let r = IdSet { ids: Vec::new() };
        proof {
            assert(r@ =~= Set::<u64>::empty());
        }
        r
    }

    /// The set of the given ids.
    pub fn from_ids(ids: &Vec<u64>) -> (r: Self)
        requires
            ids@.no_duplicates(),
        ensures
            r.wf(),
            r@ == ids@.to_set(),
    {
        let mut r = IdSet::new();
        let mut i: usize = 0;
        while i < ids.len()
            invariant
                ids@.no_duplicates(),
                i <= ids@.len(),
                r.wf(),
                r@ == ids@.take(i as int).to_set(),
            decreases ids@.len() - i,
        {
            r.insert(ids[i]);
            proof {
                assert forall|x: u64| #[trigger] ids@.take(i + 1).contains(x) implies ids@.take(
                    i as int,
                ).contains(x) || x == ids@[i as int] by {
                    let j = choose|j: int| 0 <= j < i + 1 && #[trigger] ids@.take(i + 1)[j] == x;
                    if j < i {
                        assert(ids@.take(i as int)[j] == x);
                    }
                }
                assert forall|x: u64| ids@.take(i as int).contains(x) implies ids@.take(
                    i + 1,
                ).contains(x) by {
                    let j = choose|j: int|
                        0 <= j < i && #[trigger] ids@.take(i as int)[j] == x;
                    assert(ids@.take(i + 1)[j] == x);
                }
                assert(ids@.take(i + 1).contains(ids@[i as int])) by {
                    assert(ids@.take(i + 1)[i as int] == ids@[i as int]);
                }
                assert(r@ =~= ids@.take(i + 1).to_set());
            }
            i = i + 1;
        }
        proof {
            assert(ids@.take(ids@.len() as int) =~= ids@);
        }
        r
    }

    /// Whether `id` is in the set.
    pub fn contains(&self, id: u64) -> (r: bool)
        ensures
            r == self@.contains(id),
    {
        let mut i: usize = 0;
        while i < self.ids.len()
            invariant
                i <= self.ids@.len(),
                forall|j: int| 0 <= j < i ==> self.ids@[j] != id,
            decreases self.ids@.len() - i,
        {
            if self.ids[i] == id {
                return true;
            }
            i = i + 1;
        }
        false
    }

    /// Number of ids in the set.
    pub fn len(&self) -> (r: usize)
        requires
            self.wf(),
        ensures
            r == self@.len(),
    {
        proof {
            self.ids@.unique_seq_to_set();
        }
        self.ids.len()
    }

    /// Add `id`; a no-op when it is already present.
    pub fn insert(&mut self, id: u64)
        requires
            old(self).wf(),
        ensures
            final(self).wf(),
            final(self)@ == old(self)@.insert(id),
    {
        let fresh = !self.contains(id);
        if fresh {
            self.ids.push(id);
        }
        proof {
            let s_old = old(self).ids@;
            let s_new = self.ids@;
            if fresh {
                assert(s_new == s_old.push(id));
                assert forall|a: u64| #[trigger] s_new.contains(a) implies s_old.contains(a) || a
                    == id by {
                    let i = choose|i: int| 0 <= i < s_new.len() && s_new[i] == a;
                    if i < s_old.len() {
                        assert(s_old[i] == a);
                    }
                }
                assert forall|a: u64| #[trigger] s_old.contains(a) implies s_new.contains(a) by {
                    let i = choose|i: int| 0 <= i < s_old.len() && s_old[i] == a;
                    assert(s_new[i] == a);
                }
                assert(s_new[s_old.len() as int] == id);
                assert(s_new.contains(id));
                assert forall|i: int, j: int|
                    0 <= i < s_new.len() && 0 <= j < s_new.len() && i != j implies s_new[i]
                    != s_new[j] by {
                    if i == s_old.len() && s_new[j] == id {
                        assert(s_old[j] == id);
                        assert(s_old.contains(id));
                    }
                    if j == s_old.len() && s_new[i] == id {
                        assert(s_old[i] == id);
                        assert(s_old.contains(id));
                    }
                }
            }
            assert(self@ =~= old(self)@.insert(id));
        }
    }

    /// The view of an id set is always a finite set.
    pub proof fn lemma_finite(self)
        ensures
            self@.finite(),
    {
        broadcast use vstd::seq_lib::seq_to_set_is_finite;

    }

    /// Whether every id of `others` is in the set.
    pub fn contains_all(&self, others: &Vec<u64>) -> (r: bool)
        ensures
            r == covers(self@, others@),
    {
        let mut i: usize = 0;
        while i < others.len()
            invariant
                i <= others@.len(),
                forall|j: int| 0 <= j < i ==> self@.contains(others@[j]),
            decreases others@.len() - i,
        {
            if !self.contains(others[i]) {
                return false;
            }
            i = i + 1;
        }
        true
    }
}


/// The everyone-submitted trigger is stable: the submitted-set only
/// ever grows during a stage, so once it covers the active roster it
/// keeps covering it, and repeated completion checks agree.
pub proof fn lemma_covers_stable(s1: Set<u64>, s2: Set<u64>, ids: Seq<u64>)
    requires
        covers(s1, ids),
        s1.subset_of(s2),
    ensures
        covers(s2, ids),
{
}

} // verus!
