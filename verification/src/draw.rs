//! The drawing stage: every active participant may submit exactly one
//! drawing. Completion is triggered by a full submitted-set or by the
//! deadline, whichever becomes true first.

use vstd::prelude::*;
use crate::idset::{covers, IdSet};
use crate::protocol::SubmitOutcome;
use crate::timing::{check_deadline, deadline_reached};

verus! {

/// Stage-scoped state of a drawing stage; exists only while the stage
/// is current.
#[derive(Debug)]
pub struct Context {
    /// When the stage started, in milliseconds.
    pub started: u64,
    /// The active participants when the stage was entered; only they
    /// may submit.
    pub roster: IdSet,
    /// Who already has an accepted drawing this stage.
    pub submitted: IdSet,
}

impl Context {
    /// The submitted-set holds only roster members, so it never
    /// exceeds the active participant count.
    pub open spec fn wf(self) -> bool {
        &&& self.roster.wf()
        &&& self.submitted.wf()
        &&& self.submitted@.subset_of(self.roster@)
    }

    /// A fresh context for a stage starting now, over the given active
    /// roster.
    pub fn new(now: u64, active: &Vec<u64>) -> (r: Self)
        requires
            active@.no_duplicates(),
        ensures
            r.wf(),
            r.started == now,
            r.roster@ == active@.to_set(),
            r.submitted@ == Set::<u64>::empty(),
    {
        Context { started: now, roster: IdSet::from_ids(active), submitted: IdSet::new() }
    }

    /// At most one accepted submission per participant per stage: a
    /// first submission from a roster member is accepted and marks the
    /// author; anything else is rejected and changes nothing.
    pub fn accept(&mut self, author: u64) -> (r: SubmitOutcome)
        requires
            old(self).wf(),
        ensures
            final(self).wf(),
            final(self).started == old(self).started,
            final(self).roster == old(self).roster,
            !old(self).roster@.contains(author) ==> r == SubmitOutcome::NotActive,
            old(self).roster@.contains(author) && old(self).submitted@.contains(author) ==> r
                == SubmitOutcome::Duplicate,
            old(self).roster@.contains(author) && !old(self).submitted@.contains(author) ==> r
                == SubmitOutcome::Accepted,
            r == SubmitOutcome::Accepted ==> final(self).submitted@ == old(self).submitted@.insert(
                author,
            ),
            r != SubmitOutcome::Accepted ==> *final(self) == *old(self),
    {
        if !self.roster.contains(author) {
            return SubmitOutcome::NotActive;
        }
        if self.submitted.contains(author) {
            return SubmitOutcome::Duplicate;
        }
        self.submitted.insert(author);
        SubmitOutcome::Accepted
    }

    /// The stage's completion predicate: everyone active has
    /// submitted, or the deadline (with grace period) has passed.
    pub open spec fn complete_spec(
        self,
        now: u64,
        duration: u64,
        extra_time: u64,
        active: Seq<u64>,
    ) -> bool {
        covers(self.submitted@, active) || deadline_reached(now, self.started, duration, extra_time)
    }

    /// Runtime check of [`Context::complete_spec`]; both triggers are
    /// checked every tick and either independently completes the stage.
    pub fn complete(&self, now: u64, duration: u64, extra_time: u64, active: &Vec<u64>) -> (r:
        bool)
        requires
            self.started <= now,
        ensures
            r == self.complete_spec(now, duration, extra_time, active@),
    {
        self.submitted.contains_all(active) || check_deadline(now, self.started, duration, extra_time)
    }

    /// The data-model bound: the submitted-set never exceeds the
    /// active participant count the stage was entered with.
    pub proof fn lemma_submitted_bounded(self)
        requires
            self.wf(),
        ensures
            self.submitted@.len() <= self.roster@.len(),
    {
        self.roster.lemma_finite();
        vstd::set_lib::lemma_len_subset(self.submitted@, self.roster@);
    }
}

/// How many submissions from `a` the one-per-participant rule accepts
/// when the authors in `authors` arrive in order against the
/// submitted-set `submitted`: an arrival is accepted exactly when its
/// author is not yet marked, and marks its author either way. This is
/// one [`Context::accept`] step per arrival from a roster member;
/// arrivals from outside the roster are rejected before the rule runs
/// and change nothing.
pub open spec fn accepted_from(submitted: Set<u64>, authors: Seq<u64>, a: u64) -> nat
    decreases authors.len(),
{
    if authors.len() == 0 {
        0
    } else {
        (if authors[0] == a && !submitted.contains(a) {
            1nat
        } else {
            0nat
        }) + accepted_from(submitted.insert(authors[0]), authors.drop_first(), a)
    }
}

/// Exactly-once submission: over any sequence of submissions arriving
/// within one drawing or combine stage, at most one submission per
/// participant is accepted and materialized; from a stage-fresh empty
/// submitted-set, exactly the first submission of a participant who
/// submits at all is accepted.
pub proof fn lemma_exactly_once(submitted: Set<u64>, authors: Seq<u64>, a: u64)
    ensures
        submitted.contains(a) ==> accepted_from(submitted, authors, a) == 0,
        accepted_from(submitted, authors, a) <= 1,
        !submitted.contains(a) ==> accepted_from(submitted, authors, a) == (if authors.contains(a) {
            1nat
        } else {
            0nat
        }),
    decreases authors.len(),
{
    if authors.len() == 0 {
    } else {
        let rest = authors.drop_first();
        lemma_exactly_once(submitted.insert(authors[0]), rest, a);
        if authors[0] == a {
            assert(submitted.insert(a).contains(a));
            if !submitted.contains(a) {
                assert(authors.contains(a)) by {
                    assert(authors[0] == a);
                }
            }
        } else {
            assert(submitted.insert(authors[0]).contains(a) == submitted.contains(a));
            if !submitted.contains(a) {
                assert(rest.contains(a) == authors.contains(a)) by {
                    if rest.contains(a) {
                        let j = choose|j: int| 0 <= j < rest.len() && rest[j] == a;
                        assert(authors[j + 1] == a);
                    }
                    if authors.contains(a) {
                        let j = choose|j: int| 0 <= j < authors.len() && authors[j] == a;
                        assert(j != 0);
                        assert(rest[j - 1] == a);
                    }
                }
            }
        }
    }
}

} // verus!
