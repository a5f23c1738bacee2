//! The combine stage: every active participant receives a fair slice
//! of the shuffled drawing and prompt pools and may submit exactly one
//! combination pairing a live drawing with a live prompt. The two
//! referenced items become consumed and are never recombined.

use vstd::prelude::*;
use crate::idset::{covers, IdSet};
use crate::protocol::SubmitOutcome;
use crate::timing::{check_deadline, deadline_reached};

verus! {

/// Stage-scoped state of a combine stage; exists only while the stage
/// is current.
#[derive(Debug)]
pub struct Context {
    /// When the stage started, in milliseconds.
    pub started: u64,
    /// The active participants when the stage was entered; only they
    /// may submit.
    pub roster: IdSet,
    /// Who already has an accepted combination this stage.
    pub submitted: IdSet,
}

impl Context {
    /// The submitted-set holds only roster members, so it never
    /// exceeds the active participant count.
    pub open spec fn wf(self) -> bool {
        &&& self.roster.wf()
        &&& self.submitted.wf()
        &&& self.submitted@.subset_of(self.roster@)
    }

    /// A fresh context for a stage starting now, over the given active
    /// roster.
    pub fn new(now: u64, active: &Vec<u64>) -> (r: Self)
        requires
            active@.no_duplicates(),
        ensures
            r.wf(),
            r.started == now,
            r.roster@ == active@.to_set(),
            r.submitted@ == Set::<u64>::empty(),
    {
        Context { started: now, roster: IdSet::from_ids(active), submitted: IdSet::new() }
    }

    /// At most one accepted combination per participant per stage; an
    /// author outside the stage roster is rejected outright.
    pub fn accept(&mut self, author: u64) -> (r: SubmitOutcome)
        requires
            old(self).wf(),
        ensures
            final(self).wf(),
            final(self).started == old(self).started,
            final(self).roster == old(self).roster,
            !old(self).roster@.contains(author) ==> r == SubmitOutcome::NotActive,
            old(self).roster@.contains(author) && old(self).submitted@.contains(author) ==> r
                == SubmitOutcome::Duplicate,
            old(self).roster@.contains(author) && !old(self).submitted@.contains(author) ==> r
                == SubmitOutcome::Accepted,
            r == SubmitOutcome::Accepted ==> final(self).submitted@ == old(self).submitted@.insert(
                author,
            ),
            r != SubmitOutcome::Accepted ==> *final(self) == *old(self),
    {
        if !self.roster.contains(author) {
            return SubmitOutcome::NotActive;
        }
        if self.submitted.contains(author) {
            return SubmitOutcome::Duplicate;
        }
        self.submitted.insert(author);
        SubmitOutcome::Accepted
    }

    /// The stage's completion predicate: everyone active has
    /// submitted, or the deadline (with grace period) has passed.
    pub open spec fn complete_spec(
        self,
        now: u64,
        duration: u64,
        extra_time: u64,
        active: Seq<u64>,
    ) -> bool {
        covers(self.submitted@, active) || deadline_reached(now, self.started, duration, extra_time)
    }

    /// Runtime check of [`Context::complete_spec`].
    pub fn complete(&self, now: u64, duration: u64, extra_time: u64, active: &Vec<u64>) -> (r:
        bool)
        requires
            self.started <= now,
        ensures
            r == self.complete_spec(now, duration, extra_time, active@),
    {
        self.submitted.contains_all(active) || check_deadline(now, self.started, duration, extra_time)
    }

    /// The data-model bound: the submitted-set never exceeds the
    /// active participant count the stage was entered with.
    pub proof fn lemma_submitted_bounded(self)
        requires
            self.wf(),
        ensures
            self.submitted@.len() <= self.roster@.len(),
    {
        self.roster.lemma_finite();
        vstd::set_lib::lemma_len_subset(self.submitted@, self.roster@);
    }
}

} // verus!
