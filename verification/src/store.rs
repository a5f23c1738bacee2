//! The owned arena of persistent round entities: every accepted
//! drawing, prompt and combination is stored here immediately, tagged
//! with its indexer-issued index and its author. Consumption (a drawing
//! or prompt that went into a combination) and elimination (a
//! combination voted out of the bracket) are explicit status fields.

use vstd::prelude::*;
use crate::content::{Author, Combination, Drawing, Index, Prompt};

verus! {

/// A persisted drawing.
#[derive(Debug, Clone)]
pub struct DrawingItem {
    pub index: Index,
    pub author: Author,
    pub drawing: Drawing,
    /// Set once the drawing has been used by a combination; a consumed
    /// drawing is never recombined.
    pub consumed: bool,
}

/// A persisted prompt.
#[derive(Debug, Clone)]
pub struct PromptItem {
    pub index: Index,
    pub author: Author,
    pub prompt: Prompt,
    /// Set once the prompt has been used by a combination.
    pub consumed: bool,
}

/// A persisted combination.
#[derive(Debug, Clone)]
pub struct CombinationItem {
    pub index: Index,
    pub author: Author,
    pub combination: Combination,
    /// Set once the combination lost a bracket vote; a voted-out
    /// combination never reenters the bracket.
    pub voted_out: bool,
}

/// How many of the combinations in `s` are still in the bracket.
pub open spec fn live_count_seq(s: Seq<CombinationItem>) -> nat
    decreases s.len(),
{
    if s.len() == 0 {
        0
    } else {
        live_count_seq(s.drop_last()) + if !s.last().voted_out {
            1nat
        } else {
            0nat
        }
    }
}

/// Marking one live combination as voted out lowers the live count by
/// exactly one; nothing else moves it.
pub proof fn lemma_live_count_update(s: Seq<CombinationItem>, k: int, item: CombinationItem)
    requires
        0 <= k < s.len(),
        !s[k].voted_out,
        item.voted_out,
    ensures
        live_count_seq(s.update(k, item)) == live_count_seq(s) - 1,
    decreases s.len(),
{
    let s2 = s.update(k, item);
    if k == s.len() - 1 {
        assert(s2.drop_last() =~= s.drop_last());
    } else {
        assert(s2.drop_last() =~= s.drop_last().update(k, item));
        assert(s2.last() == s.last());
        lemma_live_count_update(s.drop_last(), k, item);
    }
}

/// Appending a combination raises the live count by one when it is
/// live and leaves it alone when it is not.
pub proof fn lemma_live_count_push(s: Seq<CombinationItem>, item: CombinationItem)
    ensures
        live_count_seq(s.push(item)) == live_count_seq(s) + if !item.voted_out {
            1nat
        } else {
            0nat
        },
{
    assert(s.push(item).drop_last() =~= s);
}

/// How many of the drawings in `s` are not yet consumed.
pub open spec fn live_drawing_count_seq(s: Seq<DrawingItem>) -> nat
    decreases s.len(),
{
    if s.len() == 0 {
        0
    } else {
        live_drawing_count_seq(s.drop_last()) + if !s.last().consumed {
            1nat
        } else {
            0nat
        }
    }
}

/// How many of the prompts in `s` are not yet consumed.
pub open spec fn live_prompt_count_seq(s: Seq<PromptItem>) -> nat
    decreases s.len(),
{
    if s.len() == 0 {
        0
    } else {
        live_prompt_count_seq(s.drop_last()) + if !s.last().consumed {
            1nat
        } else {
            0nat
        }
    }
}

/// The arena of all persistent entities of the running round.
#[derive(Debug)]
pub struct ContentStore {
    pub drawings: Vec<DrawingItem>,
    pub prompts: Vec<PromptItem>,
    pub combinations: Vec<CombinationItem>,
}

impl ContentStore {
    /// The drawing indices, in insertion order.
    pub open spec fn drawing_indices(self) -> Seq<u64> {
        self.drawings@.map_values(|d: DrawingItem| d.index.0)
    }

    /// The prompt indices, in insertion order.
    pub open spec fn prompt_indices(self) -> Seq<u64> {
        self.prompts@.map_values(|p: PromptItem| p.index.0)
    }

    /// The combination indices, in insertion order.
    pub open spec fn combination_indices(self) -> Seq<u64> {
        self.combinations@.map_values(|c: CombinationItem| c.index.0)
    }

    /// Index uniqueness — every index in the arena is globally unique
    /// for the round's lifetime — and arena closure: every stored
    /// combination references a drawing and a prompt that exist in the
    /// arena, so payload resolution never dangles.
    pub open spec fn wf(self) -> bool {
        &&& self.drawing_indices().no_duplicates()
        &&& self.prompt_indices().no_duplicates()
        &&& self.combination_indices().no_duplicates()
        &&& self.drawing_indices().disjoint(self.prompt_indices())
        &&& self.drawing_indices().disjoint(self.combination_indices())
        &&& self.prompt_indices().disjoint(self.combination_indices())
        &&& forall|k: int|
            0 <= k < self.combinations@.len() ==> self.drawing_indices().contains(
                (#[trigger] self.combinations@[k]).combination.drawing.0,
            ) && self.prompt_indices().contains(self.combinations@[k].combination.prompt.0)
    }

    /// Some entity of the arena already carries index `idx`.
    pub open spec fn has_index(self, idx: u64) -> bool {
        ||| self.drawing_indices().contains(idx)
        ||| self.prompt_indices().contains(idx)
        ||| self.combination_indices().contains(idx)
    }

    /// Every stored index lies in `1 ..= m`; `m` is the indexer's
    /// current counter value.
    pub open spec fn indices_at_most(self, m: u64) -> bool {
        &&& forall|k: int|
            0 <= k < self.drawings@.len() ==> 1 <= (#[trigger] self.drawings@[k]).index.0 <= m
        &&& forall|k: int|
            0 <= k < self.prompts@.len() ==> 1 <= (#[trigger] self.prompts@[k]).index.0 <= m
        &&& forall|k: int|
            0 <= k < self.combinations@.len() ==> 1 <= (#[trigger] self.combinations@[k]).index.0
                <= m
    }

    /// An index above the counter bound is not in the arena yet.
    pub proof fn lemma_fresh_above_bound(self, m: u64, idx: u64)
        requires
            self.indices_at_most(m),
            idx > m,
        ensures
            !self.has_index(idx),
    {
        if self.drawing_indices().contains(idx) {
            let k = choose|k: int|
                0 <= k < self.drawing_indices().len() && self.drawing_indices()[k] == idx;
            assert(self.drawings@[k].index.0 == idx);
        }
        if self.prompt_indices().contains(idx) {
            let k = choose|k: int|
                0 <= k < self.prompt_indices().len() && self.prompt_indices()[k] == idx;
            assert(self.prompts@[k].index.0 == idx);
        }
        if self.combination_indices().contains(idx) {
            let k = choose|k: int|
                0 <= k < self.combination_indices().len() && self.combination_indices()[k] == idx;
            assert(self.combinations@[k].index.0 == idx);
        }
    }

    /// A bound on the indices keeps holding as the counter grows.
    pub proof fn lemma_bound_monotone(self, m1: u64, m2: u64)
        requires
            self.indices_at_most(m1),
            m1 <= m2,
        ensures
            self.indices_at_most(m2),
    {
    }

    /// There is a not-yet-consumed drawing with index `idx`.
    pub open spec fn has_live_drawing(self, idx: u64) -> bool {
        exists|k: int|
            0 <= k < self.drawings@.len() && (#[trigger] self.drawings@[k]).index.0 == idx
                && !self.drawings@[k].consumed
    }

    /// There is a not-yet-consumed prompt with index `idx`.
    pub open spec fn has_live_prompt(self, idx: u64) -> bool {
        exists|k: int|
            0 <= k < self.prompts@.len() && (#[trigger] self.prompts@[k]).index.0 == idx
                && !self.prompts@[k].consumed
    }

    /// There is a not-voted-out combination with index `idx`.
    pub open spec fn has_live_combination(self, idx: u64) -> bool {
        exists|k: int|
            0 <= k < self.combinations@.len() && (#[trigger] self.combinations@[k]).index.0 == idx
                && !self.combinations@[k].voted_out
    }

    /// How many combinations are still in the bracket.
    pub open spec fn live_combinations(self) -> nat {
        live_count_seq(self.combinations@)
    }

    /// How many drawings are still unconsumed: the drawing pool size
    /// the next combine stage distributes.
    pub open spec fn live_drawings(self) -> nat {
        live_drawing_count_seq(self.drawings@)
    }

    /// How many prompts are still unconsumed.
    pub open spec fn live_prompts(self) -> nat {
        live_prompt_count_seq(self.prompts@)
    }

    /// A live drawing's index is a stored drawing index; consumption
    /// never removes it from the arena.
    pub proof fn lemma_live_drawing_in_indices(self, idx: u64)
        requires
            self.has_live_drawing(idx),
        ensures
            self.drawing_indices().contains(idx),
    {
        let k = choose|k: int|
            0 <= k < self.drawings@.len() && (#[trigger] self.drawings@[k]).index.0 == idx
                && !self.drawings@[k].consumed;
        assert(self.drawing_indices()[k] == idx);
    }

    /// A live prompt's index is a stored prompt index.
    pub proof fn lemma_live_prompt_in_indices(self, idx: u64)
        requires
            self.has_live_prompt(idx),
        ensures
            self.prompt_indices().contains(idx),
    {
        let k = choose|k: int|
            0 <= k < self.prompts@.len() && (#[trigger] self.prompts@[k]).index.0 == idx
                && !self.prompts@[k].consumed;
        assert(self.prompt_indices()[k] == idx);
    }

    /// An empty arena.
    pub fn new() -> (r: Self)
        ensures
            r.wf(),
            r.drawings@.len() == 0,
            r.prompts@.len() == 0,
            r.combinations@.len() == 0,
            r.indices_at_most(0),
    {
        ContentStore { drawings: Vec::new(), prompts: Vec::new(), combinations: Vec::new() }
    }

    /// Persist a freshly submitted drawing.
    pub fn push_drawing(&mut self, item: DrawingItem)
        requires
            old(self).wf(),
            !old(self).has_index(item.index.0),
        ensures
            final(self).wf(),
            final(self).drawings@ == old(self).drawings@.push(item),
            final(self).prompts@ == old(self).prompts@,
            final(self).combinations@ == old(self).combinations@,
    {
        self.drawings.push(item);
        proof {
            assert(self.drawing_indices() =~= old(self).drawing_indices().push(item.index.0));
            assert forall|k: int| 0 <= k < self.combinations@.len() implies self.drawing_indices(
            ).contains((#[trigger] self.combinations@[k]).combination.drawing.0) by {
                let x = self.combinations@[k].combination.drawing.0;
                let j = choose|j: int|
                    0 <= j < old(self).drawing_indices().len() && old(self).drawing_indices()[j]
                        == x;
                assert(self.drawing_indices()[j] == x);
            }
        }
    }

    /// Persist a freshly submitted prompt.
    pub fn push_prompt(&mut self, item: PromptItem)
        requires
            old(self).wf(),
            !old(self).has_index(item.index.0),
        ensures
            final(self).wf(),
            final(self).prompts@ == old(self).prompts@.push(item),
            final(self).drawings@ == old(self).drawings@,
            final(self).combinations@ == old(self).combinations@,
    {
        self.prompts.push(item);
        proof {
            assert(self.prompt_indices() =~= old(self).prompt_indices().push(item.index.0));
            assert forall|k: int| 0 <= k < self.combinations@.len() implies self.prompt_indices(
            ).contains((#[trigger] self.combinations@[k]).combination.prompt.0) by {
                let x = self.combinations@[k].combination.prompt.0;
                let j = choose|j: int|
                    0 <= j < old(self).prompt_indices().len() && old(self).prompt_indices()[j]
                        == x;
                assert(self.prompt_indices()[j] == x);
            }
        }
    }

    /// Persist a freshly submitted combination.
    pub fn push_combination(&mut self, item: CombinationItem)
        requires
            old(self).wf(),
            !old(self).has_index(item.index.0),
            old(self).drawing_indices().contains(item.combination.drawing.0),
            old(self).prompt_indices().contains(item.combination.prompt.0),
        ensures
            final(self).wf(),
            final(self).combinations@ == old(self).combinations@.push(item),
            final(self).drawings@ == old(self).drawings@,
            final(self).prompts@ == old(self).prompts@,
            final(self).live_combinations() == old(self).live_combinations() + if !item.voted_out {
                1nat
            } else {
                0nat
            },
    {
        proof {
            lemma_live_count_push(self.combinations@, item);
        }
        self.combinations.push(item);
        proof {
            assert(self.combination_indices() =~= old(self).combination_indices().push(
                item.index.0,
            ));
        }
    }

    /// Whether a not-yet-consumed drawing with index `idx` exists.
    pub fn contains_live_drawing(&self, idx: Index) -> (r: bool)
        ensures
            r == self.has_live_drawing(idx.0),
    {
        let mut k: usize = 0;
        while k < self.drawings.len()
            invariant
                k <= self.drawings@.len(),
                forall|j: int|
                    0 <= j < k ==> !((#[trigger] self.drawings@[j]).index.0 == idx.0
                        && !self.drawings@[j].consumed),
            decreases self.drawings@.len() - k,
        {
            if self.drawings[k].index.0 == idx.0 && !self.drawings[k].consumed {
                return true;
            }
            k = k + 1;
        }
        false
    }

    /// Whether a not-yet-consumed prompt with index `idx` exists.
    pub fn contains_live_prompt(&self, idx: Index) -> (r: bool)
        ensures
            r == self.has_live_prompt(idx.0),
    {
        let mut k: usize = 0;
        while k < self.prompts.len()
            invariant
                k <= self.prompts@.len(),
                forall|j: int|
                    0 <= j < k ==> !((#[trigger] self.prompts@[j]).index.0 == idx.0
                        && !self.prompts@[j].consumed),
            decreases self.prompts@.len() - k,
        {
            if self.prompts[k].index.0 == idx.0 && !self.prompts[k].consumed {
                return true;
            }
            k = k + 1;
        }
        false
    }

    /// Mark the drawing `idx` as consumed by a combination. Returns
    /// whether a live drawing with that index existed; without one the
    /// arena is untouched.
    pub fn consume_drawing(&mut self, idx: Index) -> (r: bool)
        requires
            old(self).wf(),
        ensures
            final(self).wf(),
            r == old(self).has_live_drawing(idx.0),
            final(self).prompts@ == old(self).prompts@,
            final(self).combinations@ == old(self).combinations@,
            final(self).drawings@.len() == old(self).drawings@.len(),
            forall|k: int|
                0 <= k < old(self).drawings@.len() ==> {
                    &&& (#[trigger] final(self).drawings@[k]).index == old(self).drawings@[k].index
                    &&& final(self).drawings@[k].author == old(self).drawings@[k].author
                    &&& final(self).drawings@[k].drawing == old(self).drawings@[k].drawing
                },
            forall|k: int|
                0 <= k < old(self).drawings@.len() && (#[trigger] old(
                    self,
                ).drawings@[k]).index.0 != idx.0 ==> final(self).drawings@[k] == old(
                    self,
                ).drawings@[k],
            !r ==> final(self).drawings@ == old(self).drawings@,
            r ==> !final(self).has_live_drawing(idx.0),
    {
        let n: usize = self.drawings.len();
        let mut k: usize = 0;
        while k < n
            invariant
                n == self.drawings@.len(),
                k <= n,
                *self == *old(self),
                old(self).wf(),
                forall|j: int|
                    0 <= j < k ==> !((#[trigger] self.drawings@[j]).index.0 == idx.0
                        && !self.drawings@[j].consumed),
            decreases n - k,
        {
            if self.drawings[k].index.0 == idx.0 && !self.drawings[k].consumed {
                let mut item = self.drawings.remove(k);
                item.consumed = true;
                self.drawings.insert(k, item);
                proof {
                    assert(self.drawings@ =~= old(self).drawings@.update(k as int, item));
                    assert(self.drawing_indices() =~= old(self).drawing_indices());
                    assert forall|j: int|
                        0 <= j < self.drawings@.len() && (#[trigger] self.drawings@[j]).index.0
                            == idx.0 implies self.drawings@[j].consumed by {
                        if j != k {
                            assert(old(self).drawing_indices()[j] == idx.0);
                            assert(old(self).drawing_indices()[k as int] == idx.0);
                        }
                    }
                }
                return true;
            }
            k = k + 1;
        }
        false
    }

    /// Mark the prompt `idx` as consumed by a combination. Returns
    /// whether a live prompt with that index existed; without one the
    /// arena is untouched.
    pub fn consume_prompt(&mut self, idx: Index) -> (r: bool)
        requires
            old(self).wf(),
        ensures
            final(self).wf(),
            r == old(self).has_live_prompt(idx.0),
            final(self).drawings@ == old(self).drawings@,
            final(self).combinations@ == old(self).combinations@,
            final(self).prompts@.len() == old(self).prompts@.len(),
            forall|k: int|
                0 <= k < old(self).prompts@.len() ==> {
                    &&& (#[trigger] final(self).prompts@[k]).index == old(self).prompts@[k].index
                    &&& final(self).prompts@[k].author == old(self).prompts@[k].author
                    &&& final(self).prompts@[k].prompt == old(self).prompts@[k].prompt
                },
            forall|k: int|
                0 <= k < old(self).prompts@.len() && (#[trigger] old(
                    self,
                ).prompts@[k]).index.0 != idx.0 ==> final(self).prompts@[k] == old(
                    self,
                ).prompts@[k],
            !r ==> final(self).prompts@ == old(self).prompts@,
            r ==> !final(self).has_live_prompt(idx.0),
    {
        let n: usize = self.prompts.len();
        let mut k: usize = 0;
        while k < n
            invariant
                n == self.prompts@.len(),
                k <= n,
                *self == *old(self),
                old(self).wf(),
                forall|j: int|
                    0 <= j < k ==> !((#[trigger] self.prompts@[j]).index.0 == idx.0
                        && !self.prompts@[j].consumed),
            decreases n - k,
        {
            if self.prompts[k].index.0 == idx.0 && !self.prompts[k].consumed {
                let mut item = self.prompts.remove(k);
                item.consumed = true;
                self.prompts.insert(k, item);
                proof {
                    assert(self.prompts@ =~= old(self).prompts@.update(k as int, item));
                    assert(self.prompt_indices() =~= old(self).prompt_indices());
                    assert forall|j: int|
                        0 <= j < self.prompts@.len() && (#[trigger] self.prompts@[j]).index.0
                            == idx.0 implies self.prompts@[j].consumed by {
                        if j != k {
                            assert(old(self).prompt_indices()[j] == idx.0);
                            assert(old(self).prompt_indices()[k as int] == idx.0);
                        }
                    }
                }
                return true;
            }
            k = k + 1;
        }
        false
    }

    /// Mark the combination `idx` as voted out of the bracket. Returns
    /// whether a live combination with that index existed; when it did,
    /// the live count drops by exactly one and every other combination
    /// is untouched.
    pub fn mark_voted_out(&mut self, idx: Index) -> (r: bool)
        requires
            old(self).wf(),
        ensures
            final(self).wf(),
            r == old(self).has_live_combination(idx.0),
            final(self).drawings@ == old(self).drawings@,
            final(self).prompts@ == old(self).prompts@,
            final(self).combinations@.len() == old(self).combinations@.len(),
            forall|k: int|
                0 <= k < old(self).combinations@.len() ==> {
                    &&& (#[trigger] final(self).combinations@[k]).index == old(
                        self,
                    ).combinations@[k].index
                    &&& final(self).combinations@[k].author == old(self).combinations@[k].author
                    &&& final(self).combinations@[k].combination == old(
                        self,
                    ).combinations@[k].combination
                },
            forall|k: int|
                0 <= k < old(self).combinations@.len() && (#[trigger] old(
                    self,
                ).combinations@[k]).index.0 != idx.0 ==> final(self).combinations@[k] == old(
                    self,
                ).combinations@[k],
            !r ==> final(self).combinations@ == old(self).combinations@,
            r ==> !final(self).has_live_combination(idx.0),
            r ==> final(self).live_combinations() == old(self).live_combinations() - 1,
            !r ==> final(self).live_combinations() == old(self).live_combinations(),
    {
        let n: usize = self.combinations.len();
        let mut k: usize = 0;
        while k < n
            invariant
                n == self.combinations@.len(),
                k <= n,
                *self == *old(self),
                old(self).wf(),
                forall|j: int|
                    0 <= j < k ==> !((#[trigger] self.combinations@[j]).index.0 == idx.0
                        && !self.combinations@[j].voted_out),
            decreases n - k,
        {
            if self.combinations[k].index.0 == idx.0 && !self.combinations[k].voted_out {
                let mut item = self.combinations.remove(k);
                item.voted_out = true;
                self.combinations.insert(k, item);
                proof {
                    assert(self.combinations@ =~= old(self).combinations@.update(k as int, item));
                    assert(self.combination_indices() =~= old(self).combination_indices());
                    lemma_live_count_update(old(self).combinations@, k as int, item);
                    assert forall|j: int|
                        0 <= j < self.combinations@.len() && (#[trigger] self.combinations@[j]).index.0
                            == idx.0 implies self.combinations@[j].voted_out by {
                        if j != k {
                            assert(old(self).combination_indices()[j] == idx.0);
                            assert(old(self).combination_indices()[k as int] == idx.0);
                        }
                    }
                }
                return true;
            }
            k = k + 1;
        }
        false
    }

    /// How many combinations are still in the bracket.
    pub fn live_combination_count(&self) -> (r: usize)
        ensures
            r == self.live_combinations(),
    {
        let n: usize = self.combinations.len();
        let mut count: usize = 0;
        let mut k: usize = 0;
        while k < n
            invariant
                n == self.combinations@.len(),
                k <= n,
                count == live_count_seq(self.combinations@.take(k as int)),
                count <= k,
            decreases n - k,
        {
            proof {
                assert(self.combinations@.take(k + 1).drop_last() =~= self.combinations@.take(
                    k as int,
                ));
                assert(self.combinations@.take(k + 1).last() == self.combinations@[k as int]);
            }
            if !self.combinations[k].voted_out {
                count = count + 1;
            }
            k = k + 1;
        }
        proof {
            assert(self.combinations@.take(n as int) =~= self.combinations@);
        }
        count
    }

    /// The indices of every combination still in the bracket, in
    /// insertion order: as many as the live count, pairwise distinct,
    /// each naming a live combination, and one for every live
    /// combination.
    pub fn live_combination_indices(&self) -> (r: Vec<Index>)
        requires
            self.wf(),
        ensures
            r@.len() == self.live_combinations(),
            forall|m: int| 0 <= m < r@.len() ==> self.has_live_combination((#[trigger] r@[m]).0),
            forall|m1: int, m2: int|
                0 <= m1 < r@.len() && 0 <= m2 < r@.len() && m1 != m2 ==> r@[m1].0 != r@[m2].0,
            forall|k: int|
                0 <= k < self.combinations@.len() && !(#[trigger] self.combinations@[k]).voted_out
                    ==> exists|m: int|
                    0 <= m < r@.len() && r@[m].0 == self.combinations@[k].index.0,
    {
        let n: usize = self.combinations.len();
        let mut r: Vec<Index> = Vec::new();
        let ghost mut pos: Seq<int> = Seq::empty();
        let mut k: usize = 0;
        while k < n
            invariant
                self.wf(),
                n == self.combinations@.len(),
                k <= n,
                pos.len() == r@.len(),
                r@.len() == live_count_seq(self.combinations@.take(k as int)),
                forall|m: int| 0 <= m < pos.len() ==> 0 <= #[trigger] pos[m] < k,
                forall|m: int|
                    0 <= m < pos.len() ==> (#[trigger] r@[m]).0 == self.combinations@[
                        pos[m]].index.0 && !self.combinations@[pos[m]].voted_out,
                forall|m1: int, m2: int|
                    0 <= m1 < pos.len() && 0 <= m2 < pos.len() && m1 != m2 ==> pos[m1] != pos[m2],
                forall|kk: int|
                    0 <= kk < k && !(#[trigger] self.combinations@[kk]).voted_out ==> exists|
                        m: int,
                    |
                        0 <= m < pos.len() && pos[m] == kk,
            decreases n - k,
        {
            proof {
                assert(self.combinations@.take(k + 1).drop_last() =~= self.combinations@.take(
                    k as int,
                ));
                assert(self.combinations@.take(k + 1).last() == self.combinations@[k as int]);
            }
            if !self.combinations[k].voted_out {
                r.push(self.combinations[k].index);
                proof {
                    let pos_old = pos;
                    pos = pos.push(k as int);
                    assert forall|kk: int|
                        0 <= kk < k + 1 && !(#[trigger] self.combinations@[kk]).voted_out implies
                        exists|m: int| 0 <= m < pos.len() && pos[m] == kk by {
                        if kk == k {
                            assert(pos[pos.len() - 1] == kk);
                        } else {
                            let m = choose|m: int| 0 <= m < pos_old.len() && pos_old[m] == kk;
                            assert(pos[m] == kk);
                        }
                    }
                }
            } else {
                proof {
                    assert forall|kk: int|
                        0 <= kk < k + 1 && !(#[trigger] self.combinations@[kk]).voted_out implies
                        exists|m: int| 0 <= m < pos.len() && pos[m] == kk by {
                        let m = choose|m: int| 0 <= m < pos.len() && pos[m] == kk;
                        assert(pos[m] == kk);
                    }
                }
            }
            k = k + 1;
        }
        proof {
            assert(self.combinations@.take(n as int) =~= self.combinations@);
            assert forall|m: int| 0 <= m < r@.len() implies self.has_live_combination(
                (#[trigger] r@[m]).0,
            ) by {
                assert(0 <= pos[m] < self.combinations@.len());
                assert(self.combinations@[pos[m]].index.0 == r@[m].0);
                assert(!self.combinations@[pos[m]].voted_out);
            }
            assert forall|m1: int, m2: int|
                0 <= m1 < r@.len() && 0 <= m2 < r@.len() && m1 != m2 implies r@[m1].0
                != r@[m2].0 by {
                assert(self.combination_indices()[pos[m1]] == self.combinations@[pos[m1]].index.0);
                assert(self.combination_indices()[pos[m2]] == self.combinations@[pos[m2]].index.0);
            }
            assert forall|k: int|
                0 <= k < self.combinations@.len() && !(
                #[trigger] self.combinations@[k]).voted_out implies exists|m: int|
                0 <= m < r@.len() && r@[m].0 == self.combinations@[k].index.0 by {
                let m = choose|m: int| 0 <= m < pos.len() && pos[m] == k;
                assert(r@[m].0 == self.combinations@[k].index.0);
            }
        }
        r
    }

    /// Look up the combination known to carry index `idx`.
    pub fn get_live_combination(&self, idx: Index) -> (r: Combination)
        requires
            self.has_live_combination(idx.0),
        ensures
            exists|k: int|
                0 <= k < self.combinations@.len() && (#[trigger] self.combinations@[k]).index.0
                    == idx.0 && self.combinations@[k].combination == r,
    {
        let n: usize = self.combinations.len();
        let mut k: usize = 0;
        while k < n
            invariant
                n == self.combinations@.len(),
                k <= n,
                self.has_live_combination(idx.0),
                forall|j: int|
                    0 <= j < k ==> (#[trigger] self.combinations@[j]).index.0 != idx.0,
            decreases n - k,
        {
            if self.combinations[k].index.0 == idx.0 {
                return self.combinations[k].combination;
            }
            k = k + 1;
        }
        proof {
            let j = choose|j: int|
                0 <= j < self.combinations@.len() && (#[trigger] self.combinations@[j]).index.0
                    == idx.0 && !self.combinations@[j].voted_out;
            assert(false);
        }
        vstd::pervasive::unreached()
    }

    /// Look up the payload of the drawing with index `idx`.
    pub fn get_drawing(&self, idx: Index) -> (r: Option<&Drawing>)
        ensures
            match r {
                Some(d) => exists|k: int|
                    0 <= k < self.drawings@.len() && (#[trigger] self.drawings@[k]).index.0 == idx.0
                        && self.drawings@[k].drawing == d,
                None => forall|k: int|
                    0 <= k < self.drawings@.len() ==> (#[trigger] self.drawings@[k]).index.0
                        != idx.0,
            },
    {
        let n: usize = self.drawings.len();
        let mut k: usize = 0;
        while k < n
            invariant
                n == self.drawings@.len(),
                k <= n,
                forall|j: int| 0 <= j < k ==> (#[trigger] self.drawings@[j]).index.0 != idx.0,
            decreases n - k,
        {
            if self.drawings[k].index.0 == idx.0 {
                return Some(&self.drawings[k].drawing);
            }
            k = k + 1;
        }
        None
    }

    /// Look up the payload of the prompt with index `idx`.
    pub fn get_prompt(&self, idx: Index) -> (r: Option<&Prompt>)
        ensures
            match r {
                Some(p) => exists|k: int|
                    0 <= k < self.prompts@.len() && (#[trigger] self.prompts@[k]).index.0 == idx.0
                        && self.prompts@[k].prompt == p,
                None => forall|k: int|
                    0 <= k < self.prompts@.len() ==> (#[trigger] self.prompts@[k]).index.0 != idx.0,
            },
    {
        let n: usize = self.prompts.len();
        let mut k: usize = 0;
        while k < n
            invariant
                n == self.prompts@.len(),
                k <= n,
                forall|j: int| 0 <= j < k ==> (#[trigger] self.prompts@[j]).index.0 != idx.0,
            decreases n - k,
        {
            if self.prompts[k].index.0 == idx.0 {
                return Some(&self.prompts[k].prompt);
            }
            k = k + 1;
        }
        None
    }

    /// The indices of every not-yet-consumed drawing, in insertion
    /// order, pairwise distinct.
    pub fn live_drawing_indices(&self) -> (r: Vec<Index>)
        requires
            self.wf(),
        ensures
            r@.len() == self.live_drawings(),
            forall|m: int| 0 <= m < r@.len() ==> self.has_live_drawing((#[trigger] r@[m]).0),
            forall|m1: int, m2: int|
                0 <= m1 < r@.len() && 0 <= m2 < r@.len() && m1 != m2 ==> r@[m1].0 != r@[m2].0,
            forall|k: int|
                0 <= k < self.drawings@.len() && !(#[trigger] self.drawings@[k]).consumed ==> exists|m: int|
                    0 <= m < r@.len() && r@[m].0 == self.drawings@[k].index.0,
    {
        let n: usize = self.drawings.len();
        let mut r: Vec<Index> = Vec::new();
        let ghost mut pos: Seq<int> = Seq::empty();
        let mut k: usize = 0;
        while k < n
            invariant
                self.wf(),
                n == self.drawings@.len(),
                k <= n,
                r@.len() == live_drawing_count_seq(self.drawings@.take(k as int)),
                pos.len() == r@.len(),
                forall|m: int| 0 <= m < pos.len() ==> 0 <= #[trigger] pos[m] < k,
                forall|m: int|
                    0 <= m < pos.len() ==> (#[trigger] r@[m]).0 == self.drawings@[pos[m]].index.0
                        && !self.drawings@[pos[m]].consumed,
                forall|m1: int, m2: int|
                    0 <= m1 < pos.len() && 0 <= m2 < pos.len() && m1 != m2 ==> pos[m1] != pos[m2],
                forall|kk: int|
                    0 <= kk < k && !(#[trigger] self.drawings@[kk]).consumed ==> exists|m: int|
                        0 <= m < pos.len() && pos[m] == kk,
            decreases n - k,
        {
            proof {
                assert(self.drawings@.take(k + 1).drop_last() =~= self.drawings@.take(k as int));
                assert(self.drawings@.take(k + 1).last() == self.drawings@[k as int]);
            }
            if !self.drawings[k].consumed {
                r.push(self.drawings[k].index);
                proof {
                    let pos_old = pos;
                    pos = pos.push(k as int);
                    assert forall|kk: int|
                        0 <= kk < k + 1 && !(#[trigger] self.drawings@[kk]).consumed implies exists|m: int|
                        0 <= m < pos.len() && pos[m] == kk by {
                        if kk == k {
                            assert(pos[pos.len() - 1] == kk);
                        } else {
                            let m = choose|m: int| 0 <= m < pos_old.len() && pos_old[m] == kk;
                            assert(pos[m] == kk);
                        }
                    }
                }
            } else {
                proof {
                    assert forall|kk: int|
                        0 <= kk < k + 1 && !(#[trigger] self.drawings@[kk]).consumed implies exists|m: int|
                        0 <= m < pos.len() && pos[m] == kk by {
                        let m = choose|m: int| 0 <= m < pos.len() && pos[m] == kk;
                        assert(pos[m] == kk);
                    }
                }
            }
            k = k + 1;
        }
        proof {
            assert(self.drawings@.take(n as int) =~= self.drawings@);
            assert forall|m: int| 0 <= m < r@.len() implies self.has_live_drawing(
                (#[trigger] r@[m]).0,
            ) by {
                assert(0 <= pos[m] < self.drawings@.len());
                assert(self.drawings@[pos[m]].index.0 == r@[m].0);
                assert(!self.drawings@[pos[m]].consumed);
            }
            assert forall|m1: int, m2: int|
                0 <= m1 < r@.len() && 0 <= m2 < r@.len() && m1 != m2 implies r@[m1].0
                != r@[m2].0 by {
                assert(self.drawing_indices()[pos[m1]] == self.drawings@[pos[m1]].index.0);
                assert(self.drawing_indices()[pos[m2]] == self.drawings@[pos[m2]].index.0);
            }
            assert forall|k: int|
                0 <= k < self.drawings@.len() && !(#[trigger] self.drawings@[k]).consumed implies exists|m: int|
                0 <= m < r@.len() && r@[m].0 == self.drawings@[k].index.0 by {
                let m = choose|m: int| 0 <= m < pos.len() && pos[m] == k;
                assert(r@[m].0 == self.drawings@[k].index.0);
            }
        }
        r
    }

    /// The indices of every not-yet-consumed prompt, in insertion
    /// order, pairwise distinct.
    pub fn live_prompt_indices(&self) -> (r: Vec<Index>)
        requires
            self.wf(),
        ensures
            r@.len() == self.live_prompts(),
            forall|m: int| 0 <= m < r@.len() ==> self.has_live_prompt((#[trigger] r@[m]).0),
            forall|m1: int, m2: int|
                0 <= m1 < r@.len() && 0 <= m2 < r@.len() && m1 != m2 ==> r@[m1].0 != r@[m2].0,
            forall|k: int|
                0 <= k < self.prompts@.len() && !(#[trigger] self.prompts@[k]).consumed ==> exists|m: int|
                    0 <= m < r@.len() && r@[m].0 == self.prompts@[k].index.0,
    {
        let n: usize = self.prompts.len();
        let mut r: Vec<Index> = Vec::new();
        let ghost mut pos: Seq<int> = Seq::empty();
        let mut k: usize = 0;
        while k < n
            invariant
                self.wf(),
                n == self.prompts@.len(),
                k <= n,
                r@.len() == live_prompt_count_seq(self.prompts@.take(k as int)),
                pos.len() == r@.len(),
                forall|m: int| 0 <= m < pos.len() ==> 0 <= #[trigger] pos[m] < k,
                forall|m: int|
                    0 <= m < pos.len() ==> (#[trigger] r@[m]).0 == self.prompts@[pos[m]].index.0
                        && !self.prompts@[pos[m]].consumed,
                forall|m1: int, m2: int|
                    0 <= m1 < pos.len() && 0 <= m2 < pos.len() && m1 != m2 ==> pos[m1] != pos[m2],
                forall|kk: int|
                    0 <= kk < k && !(#[trigger] self.prompts@[kk]).consumed ==> exists|m: int|
                        0 <= m < pos.len() && pos[m] == kk,
            decreases n - k,
        {
            proof {
                assert(self.prompts@.take(k + 1).drop_last() =~= self.prompts@.take(k as int));
                assert(self.prompts@.take(k + 1).last() == self.prompts@[k as int]);
            }
            if !self.prompts[k].consumed {
                r.push(self.prompts[k].index);
                proof {
                    let pos_old = pos;
                    pos = pos.push(k as int);
                    assert forall|kk: int|
                        0 <= kk < k + 1 && !(#[trigger] self.prompts@[kk]).consumed implies exists|m: int|
                        0 <= m < pos.len() && pos[m] == kk by {
                        if kk == k {
                            assert(pos[pos.len() - 1] == kk);
                        } else {
                            let m = choose|m: int| 0 <= m < pos_old.len() && pos_old[m] == kk;
                            assert(pos[m] == kk);
                        }
                    }
                }
            } else {
                proof {
                    assert forall|kk: int|
                        0 <= kk < k + 1 && !(#[trigger] self.prompts@[kk]).consumed implies exists|m: int|
                        0 <= m < pos.len() && pos[m] == kk by {
                        let m = choose|m: int| 0 <= m < pos.len() && pos[m] == kk;
                        assert(pos[m] == kk);
                    }
                }
            }
            k = k + 1;
        }
        proof {
            assert(self.prompts@.take(n as int) =~= self.prompts@);
            assert forall|m: int| 0 <= m < r@.len() implies self.has_live_prompt(
                (#[trigger] r@[m]).0,
            ) by {
                assert(0 <= pos[m] < self.prompts@.len());
                assert(self.prompts@[pos[m]].index.0 == r@[m].0);
                assert(!self.prompts@[pos[m]].consumed);
            }
            assert forall|m1: int, m2: int|
                0 <= m1 < r@.len() && 0 <= m2 < r@.len() && m1 != m2 implies r@[m1].0
                != r@[m2].0 by {
                assert(self.prompt_indices()[pos[m1]] == self.prompts@[pos[m1]].index.0);
                assert(self.prompt_indices()[pos[m2]] == self.prompts@[pos[m2]].index.0);
            }
            assert forall|k: int|
                0 <= k < self.prompts@.len() && !(#[trigger] self.prompts@[k]).consumed implies exists|m: int|
                0 <= m < r@.len() && r@[m].0 == self.prompts@[k].index.0 by {
                let m = choose|m: int| 0 <= m < pos.len() && pos[m] == k;
                assert(r@[m].0 == self.prompts@[k].index.0);
            }
        }
        r
    }
}

} // verus!
