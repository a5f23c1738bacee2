//! The voting bracket nested inside the vote stage: repeated pairwise
//! elimination. Each voting phase pairs two live combinations, collects
//! one vote per active participant, eliminates the one with strictly
//! fewer votes — a tie always eliminates combination-2, a fixed rule
//! rather than a fairness choice — then displays the provisional
//! winner. The
//! bracket loops until a sole combination remains.

use vstd::prelude::*;
use crate::content::{Index, Vote};
use crate::idset::{covers, IdSet};
use crate::protocol::SubmitOutcome;
use crate::timing::{check_deadline, deadline_reached};

verus! {

/// Phase-scoped state of one voting phase over the pairing
/// (`combination1`, `combination2`).
#[derive(Debug)]
pub struct VotingContext {
    /// When the phase started, in milliseconds.
    pub started: u64,
    /// The active participants when the phase started; only they may
    /// vote.
    pub roster: IdSet,
    /// Who already has an accepted vote this phase.
    pub submitted: IdSet,
    pub combination1: Index,
    pub combination1_votes: u32,
    pub combination2: Index,
    pub combination2_votes: u32,
}

impl VotingContext {
    /// The pairing is of two distinct combinations; every marked
    /// participant is a roster member who cast exactly one counted
    /// vote, so the tallies never exceed the active participant count.
    pub open spec fn wf(self) -> bool {
        &&& self.roster.wf()
        &&& self.submitted.wf()
        &&& self.submitted@.subset_of(self.roster@)
        &&& self.combination1.0 != self.combination2.0
        &&& self.submitted@.len() == self.combination1_votes + self.combination2_votes
    }

    /// A fresh phase over the pairing (`c1`, `c2`), starting now, with
    /// the given active roster.
    pub fn new(now: u64, c1: Index, c2: Index, active: &Vec<u64>) -> (r: Self)
        requires
            c1.0 != c2.0,
            active@.no_duplicates(),
        ensures
            r.wf(),
            r.started == now,
            r.roster@ == active@.to_set(),
            r.submitted@ == Set::<u64>::empty(),
            r.combination1 == c1,
            r.combination2 == c2,
            r.combination1_votes == 0,
            r.combination2_votes == 0,
    {
        let r = VotingContext {
            started: now,
            roster: IdSet::from_ids(active),
            submitted: IdSet::new(),
            combination1: c1,
            combination1_votes: 0,
            combination2: c2,
            combination2_votes: 0,
        };
        proof {
            broadcast use vstd::set::axiom_set_empty_len;

        }
        r
    }

    /// The data-model bound: counted votes never exceed the active
    /// participant count the phase started with.
    pub proof fn lemma_votes_bounded(self)
        requires
            self.wf(),
        ensures
            self.combination1_votes + self.combination2_votes <= self.roster@.len(),
    {
        self.roster.lemma_finite();
        vstd::set_lib::lemma_len_subset(self.submitted@, self.roster@);
    }

    /// One vote per roster participant, for one of the two paired
    /// combinations: such a first vote is always accepted and counted.
    /// A second vote from the same participant is rejected; so are a
    /// vote naming any other combination and one from outside the
    /// roster; no rejection changes any state.
    pub fn accept(&mut self, author: u64, vote: Vote) -> (r: SubmitOutcome)
        requires
            old(self).wf(),
        ensures
            final(self).wf(),
            final(self).started == old(self).started,
            final(self).roster == old(self).roster,
            final(self).combination1 == old(self).combination1,
            final(self).combination2 == old(self).combination2,
            !old(self).roster@.contains(author) ==> r == SubmitOutcome::NotActive,
            old(self).roster@.contains(author) && old(self).submitted@.contains(author) ==> r
                == SubmitOutcome::Duplicate,
            ({
                &&& old(self).roster@.contains(author)
                &&& !old(self).submitted@.contains(author)
                &&& vote.combination.0 != old(self).combination1.0
                &&& vote.combination.0 != old(self).combination2.0
            }) ==> r == SubmitOutcome::InvalidReference,
            ({
                &&& old(self).roster@.contains(author)
                &&& !old(self).submitted@.contains(author)
                &&& (vote.combination.0 == old(self).combination1.0 || vote.combination.0 == old(
                    self,
                ).combination2.0)
                &&& old(self).submitted@.len() < u32::MAX
            }) ==> r == SubmitOutcome::Accepted,
            ({
                &&& old(self).roster@.contains(author)
                &&& !old(self).submitted@.contains(author)
                &&& (vote.combination.0 == old(self).combination1.0 || vote.combination.0 == old(
                    self,
                ).combination2.0)
                &&& old(self).submitted@.len() >= u32::MAX
            }) ==> r == SubmitOutcome::Exhausted,
            r != SubmitOutcome::Accepted ==> *final(self) == *old(self),
            r == SubmitOutcome::Accepted ==> ({
                &&& !old(self).submitted@.contains(author)
                &&& final(self).submitted@ == old(self).submitted@.insert(author)
                &&& (vote.combination.0 == old(self).combination1.0 ==> ({
                    &&& final(self).combination1_votes == old(self).combination1_votes + 1
                    &&& final(self).combination2_votes == old(self).combination2_votes
                }))
                &&& (vote.combination.0 == old(self).combination2.0 ==> ({
                    &&& final(self).combination2_votes == old(self).combination2_votes + 1
                    &&& final(self).combination1_votes == old(self).combination1_votes
                }))
            }),
            r == SubmitOutcome::Exhausted ==> old(self).submitted@.len() >= u32::MAX,
    {
        if !self.roster.contains(author) {
            return SubmitOutcome::NotActive;
        }
        if self.submitted.contains(author) {
            return SubmitOutcome::Duplicate;
        }
        if vote.combination.0 != self.combination1.0 && vote.combination.0 != self.combination2.0 {
            return SubmitOutcome::InvalidReference;
        }
        if self.submitted.len() >= u32::MAX as usize {
            return SubmitOutcome::Exhausted;
        }
        self.submitted.insert(author);
        proof {
            old(self).submitted.lemma_finite();
            assert(self.submitted@.len() == old(self).submitted@.len() + 1) by {
                broadcast use vstd::set::axiom_set_insert_len;

            }
        }
        if vote.combination.0 == self.combination1.0 {
            self.combination1_votes = self.combination1_votes + 1;
        } else {
            self.combination2_votes = self.combination2_votes + 1;
        }
        SubmitOutcome::Accepted
    }

    /// The phase's completion predicate: everyone active has voted, or
    /// the deadline (with grace period) has passed.
    pub open spec fn complete_spec(
        self,
        now: u64,
        voting_duration: u64,
        extra_time: u64,
        active: Seq<u64>,
    ) -> bool {
        covers(self.submitted@, active) || deadline_reached(
            now,
            self.started,
            voting_duration,
            extra_time,
        )
    }

    /// Runtime check of [`VotingContext::complete_spec`].
    pub fn complete(&self, now: u64, voting_duration: u64, extra_time: u64, active: &Vec<u64>) -> (r:
        bool)
        requires
            self.wf(),
            self.started <= now,
        ensures
            r == self.complete_spec(now, voting_duration, extra_time, active@),
    {
        self.submitted.contains_all(active) || check_deadline(
            now,
            self.started,
            voting_duration,
            extra_time,
        )
    }
}

/// Phase-scoped state of one winner-display phase: purely
/// informational, no input accepted.
#[derive(Debug)]
pub struct WinnerContext {
    /// When the phase started, in milliseconds.
    pub started: u64,
    /// The provisional winner being displayed; `None` only in the
    /// degenerate bracket that never had a combination to show.
    pub winner: Option<Index>,
}

impl WinnerContext {
    /// The display runs for the fixed `winner_duration` with no grace
    /// period: it collects no submissions that a deadline could cut
    /// short.
    pub open spec fn complete_spec(self, now: u64, winner_duration: u64) -> bool {
        deadline_reached(now, self.started, winner_duration, 0)
    }

    /// Runtime check of [`WinnerContext::complete_spec`].
    pub fn complete(&self, now: u64, winner_duration: u64) -> (r: bool)
        requires
            self.started <= now,
        ensures
            r == self.complete_spec(now, winner_duration),
    {
        check_deadline(now, self.started, winner_duration, 0)
    }
}

/// The two phases the vote stage alternates between.
#[derive(Debug)]
pub enum VotePhase {
    Voting(VotingContext),
    Winner(WinnerContext),
}

/// Whether combination-1 survives the pairing: it does unless it has
/// strictly fewer votes. In particular a tie eliminates combination-2.
pub open spec fn first_survives(votes1: u32, votes2: u32) -> bool {
    votes1 >= votes2
}

/// Resolve a completed voting phase: the combination with strictly
/// fewer votes is eliminated; a tie eliminates combination-2. Returns
/// `(eliminated, provisional winner)`.
pub fn resolve_elimination(votes1: u32, votes2: u32, c1: Index, c2: Index) -> (r: (Index, Index))
    ensures
        first_survives(votes1, votes2) ==> r == (c2, c1),
        !first_survives(votes1, votes2) ==> r == (c1, c2),
{
    if votes1 >= votes2 {
        (c2, c1)
    } else {
        (c1, c2)
    }
}

/// Tie-break determinism: equal vote counts between the two paired
/// combinations always let combination-1 survive, so combination-2 is
/// the one eliminated.
pub proof fn lemma_tie_eliminates_second(votes1: u32, votes2: u32)
    requires
        votes1 == votes2,
    ensures
        first_survives(votes1, votes2),
{
}

/// How many voting/winner cycles the bracket still runs when `k`
/// combinations are live: one cycle eliminates exactly one combination
/// and the bracket loops while at least two are live.
pub open spec fn cycles_to_winner(k: nat) -> nat
    decreases k,
{
    if k <= 1 {
        0
    } else {
        1 + cycles_to_winner((k - 1) as nat)
    }
}

/// Bracket termination: from any starting count `k >= 2` of live
/// combinations, repeated elimination — always removing exactly one
/// per voting/winner cycle — ends after exactly `k - 1` cycles with a
/// sole surviving winner.
pub proof fn lemma_bracket_terminates(k: nat)
    requires
        k >= 1,
    ensures
        cycles_to_winner(k) == k - 1,
    decreases k,
{
    if k > 1 {
        lemma_bracket_terminates((k - 1) as nat);
    }
}

} // verus!
