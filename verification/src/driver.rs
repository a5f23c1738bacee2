//! The round driver: owns the stage queue, the indexer, the content
//! arena and the single current stage context, and advances the round
//! once per scheduler tick. Inbound submissions are handed to the
//! driver one at a time; `advance` checks the current stage's
//! completion predicate and, when it holds, finalizes the stage and
//! enters the next one.

use vstd::prelude::*;
use crate::combine;
use crate::content::{Combination, Drawing, Index, Indexer, Prompt, Submission, Vote};
use crate::distribute::{
    assign_slices, count_up_to, lemma_count_up_to_le_pool, lemma_count_up_to_monotone,
    lemma_partition_covers, lemma_share_size, share_size,
};
use crate::draw;
use crate::game::{CombineConfig, DrawConfig, GameConfig, PromptConfig, StateData, VoteConfig};
use crate::prompt;
use crate::protocol::{Notice, ServerMsgRoot, SubmitOutcome};
use crate::states::{GameState, VoteState};
use crate::store::{CombinationItem, ContentStore, DrawingItem, PromptItem};
use crate::vote::{VotePhase, VotingContext, WinnerContext};

verus! {

/// The current stage together with its parameters and its stage-scoped
/// context. Exactly one exists while a stage runs.
#[derive(Debug)]
pub enum CurrentStage {
    Draw { config: DrawConfig, ctx: draw::Context },
    Prompt { config: PromptConfig, ctx: prompt::Context },
    Combine { config: CombineConfig, ctx: combine::Context },
    Vote { config: VoteConfig, phase: VotePhase },
}

/// What one `advance` tick did when it moved the round onward.
#[derive(Debug)]
pub enum StageTransition {
    /// The next queued stage was entered; `notices` are the
    /// stage-start notifications to send out.
    Entered { state: GameState, notices: Vec<Notice> },
    /// A fresh voting pairing started inside the vote stage.
    VotingStarted { notices: Vec<Notice> },
    /// A voting phase resolved: one combination was eliminated and the
    /// provisional winner is being displayed.
    WinnerStarted { winner: Index, notices: Vec<Notice> },
    /// The stage queue is exhausted: the round is over, with the final
    /// winning combination when the bracket produced one.
    RoundOver { winner: Option<Index> },
}

/// The round driver.
#[derive(Debug)]
pub struct Round {
    /// Remaining stage queue and the global grace period.
    pub config: GameConfig,
    /// Issues the session-unique content indices.
    pub indexer: Indexer,
    /// The arena of persisted drawings, prompts and combinations.
    pub store: ContentStore,
    /// The single current stage, while one runs.
    pub stage: Option<CurrentStage>,
    /// The clock value of the latest tick, in milliseconds; `advance`
    /// requires a monotonically increasing clock.
    pub last_now: u64,
}

impl Round {
    /// Well-formedness of the current stage context.
    pub open spec fn stage_wf(self) -> bool {
        match self.stage {
            Option::None => true,
            Option::Some(CurrentStage::Draw { config, ctx }) => ctx.wf() && ctx.started
                <= self.last_now,
            Option::Some(CurrentStage::Prompt { config, ctx }) => ctx.started <= self.last_now,
            Option::Some(CurrentStage::Combine { config, ctx }) => ctx.wf() && ctx.started
                <= self.last_now,
            Option::Some(CurrentStage::Vote { config, phase }) => match phase {
                VotePhase::Voting(v) => {
                    &&& v.wf()
                    &&& v.started <= self.last_now
                    &&& self.store.has_live_combination(v.combination1.0)
                    &&& self.store.has_live_combination(v.combination2.0)
                },
                VotePhase::Winner(w) => {
                    &&& w.started <= self.last_now
                    &&& (w.winner matches Option::Some(x) ==> self.store.has_live_combination(x.0))
                    &&& (w.winner is None ==> self.store.live_combinations() == 0)
                },
            },
        }
    }

    /// The driver's invariant: the arena's indices are unique and no
    /// higher than the indexer's counter, and the stage context is
    /// well-formed.
    pub open spec fn wf(self) -> bool {
        &&& self.store.wf()
        &&& self.store.indices_at_most(self.indexer.val())
        &&& self.stage_wf()
    }

    /// The observable stage kind.
    pub open spec fn state_spec(self) -> GameState {
        match self.stage {
            Option::None => GameState::Init,
            Option::Some(CurrentStage::Draw { .. }) => GameState::Draw,
            Option::Some(CurrentStage::Prompt { .. }) => GameState::Prompt,
            Option::Some(CurrentStage::Combine { .. }) => GameState::Combine,
            Option::Some(CurrentStage::Vote { .. }) => GameState::Vote,
        }
    }

    /// The observable vote phase, while the vote stage runs.
    pub open spec fn vote_state_spec(self) -> Option<VoteState> {
        match self.stage {
            Option::Some(CurrentStage::Vote { config, phase }) => match phase {
                VotePhase::Voting(_) => Option::Some(VoteState::Voting),
                VotePhase::Winner(_) => Option::Some(VoteState::Winner),
            },
            _ => Option::None,
        }
    }

    /// The observable stage kind.
    pub fn state(&self) -> (r: GameState)
        ensures
            r == self.state_spec(),
    {
        match &self.stage {
            Option::None => GameState::Init,
            Option::Some(CurrentStage::Draw { .. }) => GameState::Draw,
            Option::Some(CurrentStage::Prompt { .. }) => GameState::Prompt,
            Option::Some(CurrentStage::Combine { .. }) => GameState::Combine,
            Option::Some(CurrentStage::Vote { .. }) => GameState::Vote,
        }
    }

    /// The observable vote phase, while the vote stage runs.
    pub fn vote_state(&self) -> (r: Option<VoteState>)
        ensures
            r == self.vote_state_spec(),
    {
        match &self.stage {
            Option::Some(CurrentStage::Vote { config, phase }) => match phase {
                VotePhase::Voting(_) => Option::Some(VoteState::Voting),
                VotePhase::Winner(_) => Option::Some(VoteState::Winner),
            },
            _ => Option::None,
        }
    }

    /// The round is over: no stage runs and no stage is queued.
    pub open spec fn is_over_spec(self) -> bool {
        self.stage is None && self.config.states@.len() == 0
    }

    /// The round is over: no stage runs and no stage is queued.
    pub fn is_over(&self) -> (r: bool)
        ensures
            r == self.is_over_spec(),
    {
        match &self.stage {
            Option::None => self.config.states.len() == 0,
            Option::Some(_) => false,
        }
    }

    /// A fresh driver over the given configuration. No stage runs yet:
    /// the first `advance` enters the top of the stage queue.
    pub fn new(config: GameConfig) -> (r: Round)
        ensures
            r.wf(),
            r.config == config,
            r.indexer.val() == 0,
            r.store.drawings@.len() == 0,
            r.store.prompts@.len() == 0,
            r.store.combinations@.len() == 0,
            r.stage is None,
            r.last_now == 0,
    {
        Round {
            config,
            indexer: Indexer::new(),
            store: ContentStore::new(),
            stage: Option::None,
            last_now: 0,
        }
    }

    /// External cancellation: tear down the current stage context
    /// immediately and drop the remaining stage queue. Already
    /// persisted content stays in the arena.
    pub fn abort(&mut self)
        requires
            old(self).wf(),
        ensures
            final(self).wf(),
            final(self).stage is None,
            final(self).config.states@.len() == 0,
            final(self).config.extra_time == old(self).config.extra_time,
            final(self).store == old(self).store,
            final(self).indexer == old(self).indexer,
            final(self).last_now == old(self).last_now,
            final(self).is_over_spec(),
    {
        self.stage = Option::None;
        self.config.states = Vec::new();
    }

    /// Hand the driver one inbound drawing submission. Accepted only
    /// while a drawing stage runs and the author has no accepted
    /// drawing yet; the accepted drawing is persisted immediately with
    /// a fresh index.
    pub fn submit_drawing(&mut self, sub: Submission<Drawing>) -> (r: SubmitOutcome)
        requires
            old(self).wf(),
        ensures
            final(self).wf(),
            final(self).config == old(self).config,
            final(self).last_now == old(self).last_now,
            final(self).state_spec() == old(self).state_spec(),
            !(old(self).stage matches Some(CurrentStage::Draw { .. })) ==> r
                == SubmitOutcome::WrongStage && *final(self) == *old(self),
            old(self).stage matches Some(CurrentStage::Draw { config, ctx }) ==> ({
                &&& (!ctx.roster@.contains(sub.author.id) ==> r == SubmitOutcome::NotActive
                    && *final(self) == *old(self))
                &&& (ctx.roster@.contains(sub.author.id) && ctx.submitted@.contains(sub.author.id)
                    ==> r == SubmitOutcome::Duplicate && *final(self) == *old(self))
                &&& (ctx.roster@.contains(sub.author.id) && !ctx.submitted@.contains(sub.author.id)
                    && old(self).indexer.val() == u64::MAX ==> r == SubmitOutcome::Exhausted
                    && *final(self) == *old(self))
                &&& (ctx.roster@.contains(sub.author.id) && !ctx.submitted@.contains(sub.author.id)
                    && old(self).indexer.val() < u64::MAX ==> ({
                    &&& r == SubmitOutcome::Accepted
                    &&& final(self).indexer.val() == old(self).indexer.val() + 1
                    &&& final(self).store.drawings@ == old(self).store.drawings@.push(
                        (DrawingItem {
                            index: Index((old(self).indexer.val() + 1) as u64),
                            author: sub.author,
                            drawing: sub.data,
                            consumed: false,
                        }),
                    )
                    &&& final(self).store.prompts@ == old(self).store.prompts@
                    &&& final(self).store.combinations@ == old(self).store.combinations@
                    &&& (final(self).stage matches Some(CurrentStage::Draw {
                        config: c2,
                        ctx: ctx2,
                    }) && c2 == config && ctx2.started == ctx.started && ctx2.roster == ctx.roster
                        && ctx2.submitted@ == ctx.submitted@.insert(sub.author.id))
                }))
            }),
    {
        let stage = self.stage.take();
        match stage {
            Option::Some(CurrentStage::Draw { config, mut ctx }) => {
                if !ctx.roster.contains(sub.author.id) {
                    self.stage = Option::Some(CurrentStage::Draw { config, ctx });
                    return SubmitOutcome::NotActive;
                }
                if ctx.submitted.contains(sub.author.id) {
                    self.stage = Option::Some(CurrentStage::Draw { config, ctx });
                    return SubmitOutcome::Duplicate;
                }
                if self.indexer.is_exhausted() {
                    self.stage = Option::Some(CurrentStage::Draw { config, ctx });
                    return SubmitOutcome::Exhausted;
                }
                let index = self.indexer.next();
                proof {
                    old(self).store.lemma_fresh_above_bound(old(self).indexer.val(), index.0);
                    old(self).store.lemma_bound_monotone(
                        old(self).indexer.val(),
                        self.indexer.val(),
                    );
                }
                let author_id = sub.author.id;
                self.store.push_drawing(
                    DrawingItem { index, author: sub.author, drawing: sub.data, consumed: false },
                );
                ctx.accept(author_id);
                self.stage = Option::Some(CurrentStage::Draw { config, ctx });
                SubmitOutcome::Accepted
            },
            other => {
                self.stage = other;
                SubmitOutcome::WrongStage
            },
        }
    }

    /// Hand the driver one inbound prompt submission. Accepted while a
    /// prompt stage runs — there is no per-participant limit — and
    /// persisted immediately with a fresh index.
    pub fn submit_prompt(&mut self, sub: Submission<Prompt>) -> (r: SubmitOutcome)
        requires
            old(self).wf(),
        ensures
            final(self).wf(),
            final(self).config == old(self).config,
            final(self).last_now == old(self).last_now,
            final(self).state_spec() == old(self).state_spec(),
            !(old(self).stage matches Some(CurrentStage::Prompt { .. })) ==> r
                == SubmitOutcome::WrongStage && *final(self) == *old(self),
            old(self).stage matches Some(CurrentStage::Prompt { config, ctx }) ==> ({
                &&& ((old(self).indexer.val() == u64::MAX || ctx.submitted == usize::MAX) ==> r
                    == SubmitOutcome::Exhausted && *final(self) == *old(self))
                &&& (old(self).indexer.val() < u64::MAX && ctx.submitted < usize::MAX ==> ({
                    &&& r == SubmitOutcome::Accepted
                    &&& final(self).indexer.val() == old(self).indexer.val() + 1
                    &&& final(self).store.prompts@ == old(self).store.prompts@.push(
                        (PromptItem {
                            index: Index((old(self).indexer.val() + 1) as u64),
                            author: sub.author,
                            prompt: sub.data,
                            consumed: false,
                        }),
                    )
                    &&& final(self).store.drawings@ == old(self).store.drawings@
                    &&& final(self).store.combinations@ == old(self).store.combinations@
                    &&& (final(self).stage matches Some(CurrentStage::Prompt {
                        config: c2,
                        ctx: ctx2,
                    }) && c2 == config && ctx2.started == ctx.started && ctx2.submitted
                        == ctx.submitted + 1)
                }))
            }),
    {
        let stage = self.stage.take();
        match stage {
            Option::Some(CurrentStage::Prompt { config, mut ctx }) => {
                if self.indexer.is_exhausted() || ctx.submitted == usize::MAX {
                    self.stage = Option::Some(CurrentStage::Prompt { config, ctx });
                    return SubmitOutcome::Exhausted;
                }
                let index = self.indexer.next();
                proof {
                    old(self).store.lemma_fresh_above_bound(old(self).indexer.val(), index.0);
                    old(self).store.lemma_bound_monotone(
                        old(self).indexer.val(),
                        self.indexer.val(),
                    );
                }
                self.store.push_prompt(
                    PromptItem { index, author: sub.author, prompt: sub.data, consumed: false },
                );
                ctx.accept();
                self.stage = Option::Some(CurrentStage::Prompt { config, ctx });
                SubmitOutcome::Accepted
            },
            other => {
                self.stage = other;
                SubmitOutcome::WrongStage
            },
        }
    }

    /// Hand the driver one inbound combination submission. Accepted
    /// only while a combine stage runs, the author has no accepted
    /// combination yet, and both referenced items are live; the two
    /// items become consumed and the combination is persisted with a
    /// fresh index.
    pub fn submit_combination(&mut self, sub: Submission<Combination>) -> (r: SubmitOutcome)
        requires
            old(self).wf(),
        ensures
            final(self).wf(),
            final(self).config == old(self).config,
            final(self).last_now == old(self).last_now,
            final(self).state_spec() == old(self).state_spec(),
            !(old(self).stage matches Some(CurrentStage::Combine { .. })) ==> r
                == SubmitOutcome::WrongStage && *final(self) == *old(self),
            old(self).stage matches Some(CurrentStage::Combine { config, ctx }) ==> ({
                &&& (!ctx.roster@.contains(sub.author.id) ==> r == SubmitOutcome::NotActive
                    && *final(self) == *old(self))
                &&& (ctx.roster@.contains(sub.author.id) && ctx.submitted@.contains(sub.author.id)
                    ==> r == SubmitOutcome::Duplicate && *final(self) == *old(self))
                &&& (ctx.roster@.contains(sub.author.id) && !ctx.submitted@.contains(sub.author.id)
                    && !(old(self).store.has_live_drawing(sub.data.drawing.0) && old(
                    self,
                ).store.has_live_prompt(sub.data.prompt.0)) ==> r
                    == SubmitOutcome::InvalidReference && *final(self) == *old(self))
                &&& (ctx.roster@.contains(sub.author.id) && !ctx.submitted@.contains(sub.author.id)
                    && old(self).store.has_live_drawing(sub.data.drawing.0) && old(
                    self,
                ).store.has_live_prompt(sub.data.prompt.0) && old(self).indexer.val() == u64::MAX
                    ==> r == SubmitOutcome::Exhausted && *final(self) == *old(self))
                &&& (ctx.roster@.contains(sub.author.id) && !ctx.submitted@.contains(sub.author.id)
                    && old(self).store.has_live_drawing(sub.data.drawing.0) && old(
                    self,
                ).store.has_live_prompt(sub.data.prompt.0) && old(self).indexer.val() < u64::MAX
                    ==> ({
                    &&& r == SubmitOutcome::Accepted
                    &&& final(self).indexer.val() == old(self).indexer.val() + 1
                    &&& final(self).store.combinations@ == old(self).store.combinations@.push(
                        (CombinationItem {
                            index: Index((old(self).indexer.val() + 1) as u64),
                            author: sub.author,
                            combination: sub.data,
                            voted_out: false,
                        }),
                    )
                    &&& final(self).store.live_combinations() == old(
                        self,
                    ).store.live_combinations() + 1
                    &&& final(self).store.drawings@.len() == old(self).store.drawings@.len()
                    &&& (forall|k: int|
                        0 <= k < old(self).store.drawings@.len() ==> ({
                            &&& (#[trigger] final(self).store.drawings@[k]).index == old(
                                self,
                            ).store.drawings@[k].index
                            &&& final(self).store.drawings@[k].author == old(
                                self,
                            ).store.drawings@[k].author
                            &&& final(self).store.drawings@[k].drawing == old(
                                self,
                            ).store.drawings@[k].drawing
                        }))
                    &&& (forall|k: int|
                        0 <= k < old(self).store.drawings@.len() && (#[trigger] old(
                            self,
                        ).store.drawings@[k]).index.0 != sub.data.drawing.0 ==> final(self).store.drawings@[k] == old(self).store.drawings@[k])
                    &&& final(self).store.prompts@.len() == old(self).store.prompts@.len()
                    &&& (forall|k: int|
                        0 <= k < old(self).store.prompts@.len() ==> ({
                            &&& (#[trigger] final(self).store.prompts@[k]).index == old(
                                self,
                            ).store.prompts@[k].index
                            &&& final(self).store.prompts@[k].author == old(
                                self,
                            ).store.prompts@[k].author
                            &&& final(self).store.prompts@[k].prompt == old(
                                self,
                            ).store.prompts@[k].prompt
                        }))
                    &&& (forall|k: int|
                        0 <= k < old(self).store.prompts@.len() && (#[trigger] old(
                            self,
                        ).store.prompts@[k]).index.0 != sub.data.prompt.0 ==> final(self).store.prompts@[k] == old(self).store.prompts@[k])
                    &&& !final(self).store.has_live_drawing(sub.data.drawing.0)
                    &&& !final(self).store.has_live_prompt(sub.data.prompt.0)
                    &&& (final(self).stage matches Some(CurrentStage::Combine {
                        config: c2,
                        ctx: ctx2,
                    }) && c2 == config && ctx2.started == ctx.started && ctx2.roster == ctx.roster
                        && ctx2.submitted@ == ctx.submitted@.insert(sub.author.id))
                }))
            }),
    {
        let stage = self.stage.take();
        match stage {
            Option::Some(CurrentStage::Combine { config, mut ctx }) => {
                if !ctx.roster.contains(sub.author.id) {
                    self.stage = Option::Some(CurrentStage::Combine { config, ctx });
                    return SubmitOutcome::NotActive;
                }
                if ctx.submitted.contains(sub.author.id) {
                    self.stage = Option::Some(CurrentStage::Combine { config, ctx });
                    return SubmitOutcome::Duplicate;
                }
                let drawing_live = self.store.contains_live_drawing(sub.data.drawing);
                let prompt_live = self.store.contains_live_prompt(sub.data.prompt);
                if !(drawing_live && prompt_live) {
                    self.stage = Option::Some(CurrentStage::Combine { config, ctx });
                    return SubmitOutcome::InvalidReference;
                }
                if self.indexer.is_exhausted() {
                    self.stage = Option::Some(CurrentStage::Combine { config, ctx });
                    return SubmitOutcome::Exhausted;
                }
                proof {
                    old(self).store.lemma_live_drawing_in_indices(sub.data.drawing.0);
                    old(self).store.lemma_live_prompt_in_indices(sub.data.prompt.0);
                }
                self.store.consume_drawing(sub.data.drawing);
                self.store.consume_prompt(sub.data.prompt);
                let index = self.indexer.next();
                proof {
                    assert(self.store.drawing_indices() =~= old(self).store.drawing_indices());
                    assert(self.store.prompt_indices() =~= old(self).store.prompt_indices());
                    self.store.lemma_fresh_above_bound(old(self).indexer.val(), index.0);
                    self.store.lemma_bound_monotone(old(self).indexer.val(), self.indexer.val());
                }
                let author_id = sub.author.id;
                self.store.push_combination(
                    CombinationItem {
                        index,
                        author: sub.author,
                        combination: sub.data,
                        voted_out: false,
                    },
                );
                ctx.accept(author_id);
                self.stage = Option::Some(CurrentStage::Combine { config, ctx });
                SubmitOutcome::Accepted
            },
            other => {
                self.stage = other;
                SubmitOutcome::WrongStage
            },
        }
    }

    /// Hand the driver one inbound vote. Accepted only while a voting
    /// phase runs, the author has not voted in this phase, and the
    /// vote names one of the two paired combinations.
    pub fn submit_vote(&mut self, sub: Submission<Vote>) -> (r: SubmitOutcome)
        requires
            old(self).wf(),
        ensures
            final(self).wf(),
            final(self).config == old(self).config,
            final(self).last_now == old(self).last_now,
            final(self).state_spec() == old(self).state_spec(),
            final(self).store == old(self).store,
            final(self).indexer == old(self).indexer,
            !(old(self).stage matches Some(CurrentStage::Vote {
                config,
                phase: VotePhase::Voting(v),
            })) ==> r == SubmitOutcome::WrongStage && *final(self) == *old(self),
            r != SubmitOutcome::Accepted ==> *final(self) == *old(self),
            old(self).stage matches Some(CurrentStage::Vote {
                config,
                phase: VotePhase::Voting(v),
            }) ==> ({
                &&& (!v.roster@.contains(sub.author.id) ==> r == SubmitOutcome::NotActive)
                &&& (v.roster@.contains(sub.author.id) && v.submitted@.contains(sub.author.id)
                    ==> r == SubmitOutcome::Duplicate)
                &&& (v.roster@.contains(sub.author.id) && !v.submitted@.contains(sub.author.id)
                    && sub.data.combination.0 != v.combination1.0 && sub.data.combination.0
                    != v.combination2.0 ==> r == SubmitOutcome::InvalidReference)
                &&& (v.roster@.contains(sub.author.id) && !v.submitted@.contains(sub.author.id)
                    && (sub.data.combination.0 == v.combination1.0 || sub.data.combination.0
                    == v.combination2.0) && v.submitted@.len() < u32::MAX ==> r
                    == SubmitOutcome::Accepted)
                &&& (v.roster@.contains(sub.author.id) && !v.submitted@.contains(sub.author.id)
                    && (sub.data.combination.0 == v.combination1.0 || sub.data.combination.0
                    == v.combination2.0) && v.submitted@.len() >= u32::MAX ==> r
                    == SubmitOutcome::Exhausted)
                &&& (r == SubmitOutcome::Accepted ==> ({
                    &&& !v.submitted@.contains(sub.author.id)
                    &&& (final(self).stage matches Some(CurrentStage::Vote {
                        config: c2,
                        phase: VotePhase::Voting(v2),
                    }) && c2 == config && v2.started == v.started && v2.roster == v.roster
                        && v2.combination1 == v.combination1 && v2.combination2 == v.combination2
                        && v2.submitted@ == v.submitted@.insert(sub.author.id)
                        && (sub.data.combination.0 == v.combination1.0
                        ==> v2.combination1_votes == v.combination1_votes + 1
                        && v2.combination2_votes == v.combination2_votes) && (sub.data.combination.0
                        == v.combination2.0 ==> v2.combination2_votes == v.combination2_votes + 1
                        && v2.combination1_votes == v.combination1_votes))
                }))
            }),
    {
        let stage = self.stage.take();
        match stage {
            Option::Some(CurrentStage::Vote { config, phase: VotePhase::Voting(mut v) }) => {
                let r = v.accept(sub.author.id, sub.data);
                self.stage = Option::Some(
                    CurrentStage::Vote { config, phase: VotePhase::Voting(v) },
                );
                r
            },
            other => {
                self.stage = other;
                SubmitOutcome::WrongStage
            },
        }
    }
}


/// The stage kind a queued stage spec enters.
pub open spec fn state_data_kind(data: StateData) -> GameState {
    match data {
        StateData::Draw(_) => GameState::Draw,
        StateData::Prompt(_) => GameState::Prompt,
        StateData::Combine(_) => GameState::Combine,
        StateData::Vote(_) => GameState::Vote,
    }
}

/// One notice per active participant, in roster order.
pub open spec fn notices_to_all(notices: Seq<Notice>, active: Seq<u64>) -> bool {
    &&& notices.len() == active.len()
    &&& forall|i: int| 0 <= i < notices.len() ==> (#[trigger] notices[i]).participant == active[i]
}

/// The drawing slice a combine notice assigns to its participant.
pub open spec fn assigned_drawings(nt: Notice) -> Seq<Index> {
    match nt.message {
        ServerMsgRoot::Combine { duration, drawings, prompts } => drawings@,
        _ => Seq::empty(),
    }
}

/// The prompt slice a combine notice assigns to its participant.
pub open spec fn assigned_prompts(nt: Notice) -> Seq<Index> {
    match nt.message {
        ServerMsgRoot::Combine { duration, drawings, prompts } => prompts@,
        _ => Seq::empty(),
    }
}

/// One combine notice is well-formed: the right duration, and a slice
/// of live, pairwise-distinct drawings and prompts.
pub open spec fn combine_notice_ok(store: ContentStore, c: CombineConfig, nt: Notice) -> bool {
    &&& nt.message matches ServerMsgRoot::Combine { duration, .. } && duration == c.duration
    &&& forall|j: int|
        0 <= j < assigned_drawings(nt).len() ==> store.has_live_drawing(
            (#[trigger] assigned_drawings(nt)[j]).0,
        )
    &&& forall|j: int|
        0 <= j < assigned_prompts(nt).len() ==> store.has_live_prompt(
            (#[trigger] assigned_prompts(nt)[j]).0,
        )
    &&& assigned_drawings(nt).no_duplicates()
    &&& assigned_prompts(nt).no_duplicates()
}

/// The combine stage's distribution, as seen in its notices: every
/// active participant gets one notice; the assigned slices are
/// pairwise disjoint, differ in size by at most one, and together
/// cover every live drawing and prompt — a partition of both pools.
pub open spec fn combine_notices_ok(
    store: ContentStore,
    c: CombineConfig,
    notices: Seq<Notice>,
    active: Seq<u64>,
) -> bool {
    &&& notices.len() == active.len()
    &&& notices.map_values(|nt: Notice| nt.participant).to_multiset() == active.to_multiset()
    &&& forall|i: int| 0 <= i < notices.len() ==> combine_notice_ok(store, c, #[trigger] notices[i])
    &&& forall|i1: int, i2: int|
        0 <= i1 < notices.len() && 0 <= i2 < notices.len() && i1 != i2 ==> (
        #[trigger] assigned_drawings(notices[i1])).disjoint(#[trigger] assigned_drawings(
            notices[i2],
        )) && assigned_prompts(notices[i1]).disjoint(assigned_prompts(notices[i2]))
    &&& forall|i1: int, i2: int|
        0 <= i1 < notices.len() && 0 <= i2 < notices.len() ==> (#[trigger] assigned_drawings(
            notices[i1],
        )).len() <= (#[trigger] assigned_drawings(notices[i2])).len() + 1 && assigned_prompts(
            notices[i1],
        ).len() <= assigned_prompts(notices[i2]).len() + 1
    &&& forall|i: int|
        0 <= i < notices.len() ==> (#[trigger] assigned_drawings(notices[i])).len() == share_size(
            store.live_drawings(),
            notices.len() as nat,
            i as nat,
        )
    &&& forall|i: int|
        0 <= i < notices.len() ==> (#[trigger] assigned_prompts(notices[i])).len() == share_size(
            store.live_prompts(),
            notices.len() as nat,
            i as nat,
        )
    &&& active.len() > 0 ==> forall|k: int|
        0 <= k < store.drawings@.len() && !(#[trigger] store.drawings@[k]).consumed ==> exists|
            i: int,
        |
            0 <= i < notices.len() && (#[trigger] assigned_drawings(notices[i])).contains(
                store.drawings@[k].index,
            )
    &&& active.len() > 0 ==> forall|k: int|
        0 <= k < store.prompts@.len() && !(#[trigger] store.prompts@[k]).consumed ==> exists|
            i: int,
        |
            0 <= i < notices.len() && (#[trigger] assigned_prompts(notices[i])).contains(
                store.prompts@[k].index,
            )
}

/// Winner notices: one per active participant, showing the drawing and
/// prompt of the combination `x`.
pub open spec fn winner_notices_ok(
    store: ContentStore,
    duration: u64,
    x: Index,
    notices: Seq<Notice>,
    active: Seq<u64>,
) -> bool {
    &&& notices_to_all(notices, active)
    &&& forall|i: int|
        0 <= i < notices.len() ==> ((#[trigger] notices[i]).message
            matches ServerMsgRoot::Winner { duration: d, drawing, prompt } && d == duration && (
        exists|k: int|
            0 <= k < store.combinations@.len() && (#[trigger] store.combinations@[k]).index.0
                == x.0 && store.combinations@[k].combination.drawing == drawing
                && store.combinations@[k].combination.prompt == prompt))
}

/// The stage context a freshly entered stage starts with: a fresh
/// submitted-set and a roster snapshot of the active participants.
pub open spec fn entered_ok(data: StateData, new: Round, now: u64, active: Seq<u64>) -> bool {
    match data {
        StateData::Draw(c) => new.stage matches Some(CurrentStage::Draw { config, ctx })
            && config == c && ctx.started == now && ctx.roster@ == active.to_set()
            && ctx.submitted@ == Set::<u64>::empty(),
        StateData::Prompt(c) => new.stage matches Some(CurrentStage::Prompt { config, ctx })
            && config == c && ctx.started == now && ctx.submitted == 0,
        StateData::Combine(c) => new.stage matches Some(CurrentStage::Combine { config, ctx })
            && config == c && ctx.started == now && ctx.roster@ == active.to_set()
            && ctx.submitted@ == Set::<u64>::empty(),
        StateData::Vote(c) => new.stage matches Some(CurrentStage::Vote { config, phase })
            && config == c && (match phase {
            VotePhase::Voting(v) => v.started == now && v.roster@ == active.to_set()
                && v.submitted@ == Set::<u64>::empty() && v.combination1_votes == 0
                && v.combination2_votes == 0 && new.store.live_combinations() >= 2,
            VotePhase::Winner(w) => w.started == now && new.store.live_combinations() <= 1 && (
            w.winner is Some <==> new.store.live_combinations() == 1),
        }),
    }
}

/// The notices a freshly entered stage broadcasts.
pub open spec fn entered_notices_ok(
    data: StateData,
    new: Round,
    notices: Seq<Notice>,
    active: Seq<u64>,
) -> bool {
    match data {
        StateData::Draw(c) => notices_to_all(notices, active) && (forall|i: int|
            0 <= i < notices.len() ==> (#[trigger] notices[i]).message == (ServerMsgRoot::Draw {
                duration: c.duration,
            })),
        StateData::Prompt(c) => notices_to_all(notices, active) && (forall|i: int|
            0 <= i < notices.len() ==> (#[trigger] notices[i]).message == (ServerMsgRoot::Prompt {
                duration: c.duration,
            })),
        StateData::Combine(c) => combine_notices_ok(new.store, c, notices, active),
        StateData::Vote(c) => match new.stage {
            Some(CurrentStage::Vote { config, phase }) => match phase {
                VotePhase::Voting(v) => notices_to_all(notices, active) && (forall|i: int|
                    0 <= i < notices.len() ==> (#[trigger] notices[i]).message
                        == (ServerMsgRoot::Vote {
                        duration: c.voting_duration,
                        combination1: v.combination1,
                        combination2: v.combination2,
                    })),
                VotePhase::Winner(w) => match w.winner {
                    Some(x) => winner_notices_ok(new.store, c.winner_duration, x, notices, active),
                    None => notices.len() == 0,
                },
            },
            _ => false,
        },
    }
}

/// Notices for a drawing stage start.
fn draw_notices(active: &Vec<u64>, duration: u64) -> (r: Vec<Notice>)
    ensures
        notices_to_all(r@, active@),
        forall|i: int|
            0 <= i < r@.len() ==> (#[trigger] r@[i]).message == (ServerMsgRoot::Draw { duration }),
{
    let mut r: Vec<Notice> = Vec::new();
    let mut i: usize = 0;
    while i < active.len()
        invariant
            i <= active@.len(),
            r@.len() == i,
            forall|j: int| 0 <= j < i ==> (#[trigger] r@[j]).participant == active@[j],
            forall|j: int|
                0 <= j < i ==> (#[trigger] r@[j]).message == (ServerMsgRoot::Draw { duration }),
        decreases active@.len() - i,
    {
        r.push(Notice { participant: active[i], message: ServerMsgRoot::Draw { duration } });
        i = i + 1;
    }
    r
}

/// Notices for a prompt stage start.
fn prompt_notices(active: &Vec<u64>, duration: u64) -> (r: Vec<Notice>)
    ensures
        notices_to_all(r@, active@),
        forall|i: int|
            0 <= i < r@.len() ==> (#[trigger] r@[i]).message == (ServerMsgRoot::Prompt {
                duration,
            }),
{
    let mut r: Vec<Notice> = Vec::new();
    let mut i: usize = 0;
    while i < active.len()
        invariant
            i <= active@.len(),
            r@.len() == i,
            forall|j: int| 0 <= j < i ==> (#[trigger] r@[j]).participant == active@[j],
            forall|j: int|
                0 <= j < i ==> (#[trigger] r@[j]).message == (ServerMsgRoot::Prompt { duration }),
        decreases active@.len() - i,
    {
        r.push(Notice { participant: active[i], message: ServerMsgRoot::Prompt { duration } });
        i = i + 1;
    }
    r
}

/// Notices for a fresh voting pairing.
fn vote_notices(active: &Vec<u64>, duration: u64, combination1: Index, combination2: Index) -> (r:
    Vec<Notice>)
    ensures
        notices_to_all(r@, active@),
        forall|i: int|
            0 <= i < r@.len() ==> (#[trigger] r@[i]).message == (ServerMsgRoot::Vote {
                duration,
                combination1,
                combination2,
            }),
{
    let mut r: Vec<Notice> = Vec::new();
    let mut i: usize = 0;
    while i < active.len()
        invariant
            i <= active@.len(),
            r@.len() == i,
            forall|j: int| 0 <= j < i ==> (#[trigger] r@[j]).participant == active@[j],
            forall|j: int|
                0 <= j < i ==> (#[trigger] r@[j]).message == (ServerMsgRoot::Vote {
                    duration,
                    combination1,
                    combination2,
                }),
        decreases active@.len() - i,
    {
        r.push(
            Notice {
                participant: active[i],
                message: ServerMsgRoot::Vote { duration, combination1, combination2 },
            },
        );
        i = i + 1;
    }
    r
}

/// Notices for a winner display.
fn winner_notices(active: &Vec<u64>, duration: u64, drawing: Index, prompt: Index) -> (r: Vec<
    Notice,
>)
    ensures
        notices_to_all(r@, active@),
        forall|i: int|
            0 <= i < r@.len() ==> (#[trigger] r@[i]).message == (ServerMsgRoot::Winner {
                duration,
                drawing,
                prompt,
            }),
{
    let mut r: Vec<Notice> = Vec::new();
    let mut i: usize = 0;
    while i < active.len()
        invariant
            i <= active@.len(),
            r@.len() == i,
            forall|j: int| 0 <= j < i ==> (#[trigger] r@[j]).participant == active@[j],
            forall|j: int|
                0 <= j < i ==> (#[trigger] r@[j]).message == (ServerMsgRoot::Winner {
                    duration,
                    drawing,
                    prompt,
                }),
        decreases active@.len() - i,
    {
        r.push(
            Notice {
                participant: active[i],
                message: ServerMsgRoot::Winner { duration, drawing, prompt },
            },
        );
        i = i + 1;
    }
    r
}

/// A plain copy of the roster ids, to be shuffled.
fn copy_ids(active: &Vec<u64>) -> (r: Vec<u64>)
    ensures
        r@ == active@,
{
    let mut r: Vec<u64> = Vec::new();
    let mut i: usize = 0;
    while i < active.len()
        invariant
            i <= active@.len(),
            r@ == active@.take(i as int),
        decreases active@.len() - i,
    {
        r.push(active[i]);
        proof {
            assert(r@ =~= active@.take(i + 1));
        }
        i = i + 1;
    }
    proof {
        assert(active@.take(active@.len() as int) =~= active@);
    }
    r
}

/// Pair the shuffled participants with their slices of the shuffled
/// pools.
fn combine_notices(
    users: &Vec<u64>,
    duration: u64,
    dslices: Vec<Vec<Index>>,
    pslices: Vec<Vec<Index>>,
) -> (r: Vec<Notice>)
    requires
        dslices@.len() == users@.len(),
        pslices@.len() == users@.len(),
    ensures
        r@.len() == users@.len(),
        forall|i: int| 0 <= i < r@.len() ==> (#[trigger] r@[i]).participant == users@[i],
        forall|i: int|
            0 <= i < r@.len() ==> ((#[trigger] r@[i]).message matches ServerMsgRoot::Combine {
                duration: d,
                drawings,
                prompts,
            } && d == duration && drawings@ == dslices@[i]@ && prompts@ == pslices@[i]@),
{
    let n: usize = users.len();
    let mut ds = dslices;
    let mut ps = pslices;
    let mut r: Vec<Notice> = Vec::new();
    let mut i: usize = 0;
    while i < n
        invariant
            n == users@.len(),
            i <= n,
            dslices@.len() == n,
            pslices@.len() == n,
            ds@ == dslices@.skip(i as int),
            ps@ == pslices@.skip(i as int),
            r@.len() == i,
            forall|j: int| 0 <= j < i ==> (#[trigger] r@[j]).participant == users@[j],
            forall|j: int|
                0 <= j < i ==> ((#[trigger] r@[j]).message matches ServerMsgRoot::Combine {
                    duration: d,
                    drawings,
                    prompts,
                } && d == duration && drawings@ == dslices@[j]@ && prompts@ == pslices@[j]@),
        decreases n - i,
    {
        let d = ds.remove(0);
        let p = ps.remove(0);
        proof {
            assert(d == dslices@[i as int]);
            assert(p == pslices@[i as int]);
            assert(ds@ =~= dslices@.skip(i + 1));
            assert(ps@ =~= pslices@.skip(i + 1));
        }
        r.push(
            Notice {
                participant: users[i],
                message: ServerMsgRoot::Combine { duration, drawings: d, prompts: p },
            },
        );
        i = i + 1;
    }
    r
}


/// Some slice of the partition holds the item `x`.
pub open spec fn covered_by_slices(slices: Seq<Seq<Index>>, n: nat, x: Index) -> bool {
    exists|i: int| 0 <= i < n && (#[trigger] slices[i]).contains(x)
}

/// A shuffled pool split at the fairness boundaries: the slices hold
/// only pool members, are internally duplicate-free, pairwise
/// disjoint, balanced within one item, and together cover the pool.
proof fn lemma_slices_ok(pool0: Seq<Index>, pool: Seq<Index>, slices: Seq<Seq<Index>>, n: nat)
    requires
        n >= 1,
        slices.len() == n,
        pool.len() == pool0.len(),
        pool0.to_multiset() == pool.to_multiset(),
        pool0.no_duplicates(),
        forall|i: int|
            0 <= i < n ==> #[trigger] slices[i] == pool.subrange(
                count_up_to(pool.len(), n, i as nat) as int,
                count_up_to(pool.len(), n, (i + 1) as nat) as int,
            ),
    ensures
        forall|i: int, j: int|
            0 <= i < n && 0 <= j < slices[i].len() ==> pool0.contains(#[trigger] slices[i][j]),
        forall|i: int| 0 <= i < n ==> (#[trigger] slices[i]).no_duplicates(),
        forall|i1: int, i2: int|
            0 <= i1 < n && 0 <= i2 < n && i1 != i2 ==> (#[trigger] slices[i1]).disjoint(
                #[trigger] slices[i2],
            ),
        forall|i1: int, i2: int|
            0 <= i1 < n && 0 <= i2 < n ==> (#[trigger] slices[i1]).len() <= (
            #[trigger] slices[i2]).len() + 1,
        forall|m: int|
            0 <= m < pool0.len() ==> covered_by_slices(slices, n, #[trigger] pool0[m]),
{
    let len = pool.len();
    crate::shuffle::lemma_permutation_no_duplicates(pool0, pool);
    assert forall|i: int| 0 <= i <= n implies #[trigger] count_up_to(len, n, i as nat) <= len by {
        lemma_count_up_to_le_pool(len, n, i as nat);
    }
    assert forall|i: int|
        0 <= i < n implies count_up_to(len, n, i as nat) <= #[trigger] count_up_to(
        len,
        n,
        (i + 1) as nat,
    ) by {
        lemma_count_up_to_monotone(len, n, i as nat, (i + 1) as nat);
    }
    assert forall|i: int, j: int|
        0 <= i < n && 0 <= j < slices[i].len() implies pool0.contains(#[trigger] slices[i][j]) by {
        let lo = count_up_to(len, n, i as nat) as int;
        assert(slices[i][j] == pool[lo + j]);
        assert(pool.contains(pool[lo + j]));
        crate::shuffle::lemma_permutation_contains(pool0, pool, pool[lo + j]);
    }
    assert forall|i: int| 0 <= i < n implies (#[trigger] slices[i]).no_duplicates() by {
        let lo = count_up_to(len, n, i as nat) as int;
        assert forall|j1: int, j2: int|
            0 <= j1 < slices[i].len() && 0 <= j2 < slices[i].len() && j1 != j2 implies slices[i][j1]
            != slices[i][j2] by {
            assert(slices[i][j1] == pool[lo + j1]);
            assert(slices[i][j2] == pool[lo + j2]);
        }
    }
    assert forall|i1: int, i2: int|
        0 <= i1 < n && 0 <= i2 < n && i1 != i2 implies (#[trigger] slices[i1]).disjoint(
        #[trigger] slices[i2],
    ) by {
        let lo1 = count_up_to(len, n, i1 as nat) as int;
        let lo2 = count_up_to(len, n, i2 as nat) as int;
        if i1 < i2 {
            lemma_count_up_to_monotone(len, n, (i1 + 1) as nat, i2 as nat);
        } else {
            lemma_count_up_to_monotone(len, n, (i2 + 1) as nat, i1 as nat);
        }
        assert forall|j1: int, j2: int|
            0 <= j1 < slices[i1].len() && 0 <= j2 < slices[i2].len() implies slices[i1][j1]
            != slices[i2][j2] by {
            assert(slices[i1][j1] == pool[lo1 + j1]);
            assert(slices[i2][j2] == pool[lo2 + j2]);
        }
    }
    assert forall|i1: int, i2: int|
        0 <= i1 < n && 0 <= i2 < n implies (#[trigger] slices[i1]).len() <= (
    #[trigger] slices[i2]).len() + 1 by {
        lemma_share_size(len, n, i1 as nat);
        lemma_share_size(len, n, i2 as nat);
    }
    assert forall|m: int|
        0 <= m < pool0.len() implies covered_by_slices(slices, n, #[trigger] pool0[m]) by {
        crate::shuffle::lemma_permutation_contains(pool0, pool, pool0[m]);
        assert(pool0.contains(pool0[m]));
        assert(pool.contains(pool0[m]));
        let k = choose|k: int| 0 <= k < pool.len() && pool[k] == pool0[m];
        lemma_partition_covers(len, n, k as nat);
        let i = choose|i: nat|
            i < n && #[trigger] count_up_to(len, n, i) <= (k as nat) < count_up_to(len, n, i + 1);
        let lo = count_up_to(len, n, i) as int;
        assert(0 <= lo <= k);
        assert(slices[i as int] == pool.subrange(
            lo,
            count_up_to(len, n, i + 1) as int,
        ));
        assert(slices[i as int][k - lo] == pool[k]);
        assert(slices[i as int].contains(pool0[m]));
        assert(covered_by_slices(slices, n, pool0[m]));
    }
}

impl Round {
    /// The current stage's completion predicate, checked every tick:
    /// everyone-submitted or deadline, whichever becomes true first.
    /// With no current stage it is the readiness to enter the next
    /// queued stage.
    pub open spec fn stage_complete(self, now: u64, active: Seq<u64>) -> bool {
        match self.stage {
            Option::None => self.config.states@.len() > 0,
            Option::Some(CurrentStage::Draw { config, ctx }) => ctx.complete_spec(
                now,
                config.duration,
                self.config.extra_time,
                active,
            ),
            Option::Some(CurrentStage::Prompt { config, ctx }) => ctx.complete_spec(
                now,
                config.duration,
                config.prompts_per_player as nat,
                self.config.extra_time,
                active.len(),
            ),
            Option::Some(CurrentStage::Combine { config, ctx }) => ctx.complete_spec(
                now,
                config.duration,
                self.config.extra_time,
                active,
            ),
            Option::Some(CurrentStage::Vote { config, phase }) => match phase {
                VotePhase::Voting(v) => v.complete_spec(
                    now,
                    config.voting_duration,
                    self.config.extra_time,
                    active,
                ),
                VotePhase::Winner(w) => w.complete_spec(now, config.winner_duration),
            },
        }
    }

    /// Start a fresh voting phase over a random pair of distinct live
    /// combinations.
    fn start_voting(&mut self, c: VoteConfig, now: u64, active: &Vec<u64>) -> (notices: Vec<
        Notice,
    >)
        requires
            old(self).store.wf(),
            old(self).store.indices_at_most(old(self).indexer.val()),
            old(self).stage is None,
            old(self).last_now == now,
            old(self).store.live_combinations() >= 2,
            active@.no_duplicates(),
        ensures
            final(self).wf(),
            final(self).store == old(self).store,
            final(self).indexer == old(self).indexer,
            final(self).config == old(self).config,
            final(self).last_now == now,
            final(self).stage matches Some(CurrentStage::Vote {
                config,
                phase: VotePhase::Voting(v),
            }) && config == c && v.started == now && v.roster@ == active@.to_set()
                && v.submitted@ == Set::<u64>::empty() && v.combination1_votes == 0
                && v.combination2_votes == 0 && notices_to_all(
                notices@,
                active@,
            ) && (forall|i: int|
                0 <= i < notices@.len() ==> (#[trigger] notices@[i]).message
                    == (ServerMsgRoot::Vote {
                    duration: c.voting_duration,
                    combination1: v.combination1,
                    combination2: v.combination2,
                })),
    {
        let mut pool = self.store.live_combination_indices();
        let ghost pool0 = pool@;
        proof {
            assert forall|m1: int, m2: int|
                0 <= m1 < pool0.len() && 0 <= m2 < pool0.len() && m1 != m2 implies pool0[m1]
                != pool0[m2] by {
                assert(pool0[m1].0 != pool0[m2].0);
            }
        }
        crate::shuffle::shuffle(&mut pool);
        proof {
            crate::shuffle::lemma_permutation_no_duplicates(pool0, pool@);
        }
        let c1 = pool[0];
        let c2 = pool[1];
        proof {
            crate::shuffle::lemma_permutation_contains(pool0, pool@, c1);
            crate::shuffle::lemma_permutation_contains(pool0, pool@, c2);
            assert(pool@.contains(c1));
            assert(pool@.contains(c2));
            let m1 = choose|m: int| 0 <= m < pool0.len() && pool0[m] == c1;
            assert(self.store.has_live_combination(pool0[m1].0));
            let m2 = choose|m: int| 0 <= m < pool0.len() && pool0[m] == c2;
            assert(self.store.has_live_combination(pool0[m2].0));
            assert(c1 == Index(c1.0));
            assert(c2 == Index(c2.0));
        }
        let v = VotingContext::new(now, c1, c2, active);
        let notices = vote_notices(active, c.voting_duration, c1, c2);
        self.stage = Option::Some(CurrentStage::Vote { config: c, phase: VotePhase::Voting(v) });
        notices
    }

    /// Start a winner-display phase showing `winner`, or an empty
    /// display when the bracket never had a combination.
    fn start_winner(
        &mut self,
        c: VoteConfig,
        now: u64,
        winner: Option<Index>,
        active: &Vec<u64>,
    ) -> (notices: Vec<Notice>)
        requires
            old(self).store.wf(),
            old(self).store.indices_at_most(old(self).indexer.val()),
            old(self).stage is None,
            old(self).last_now == now,
            winner matches Some(x) ==> old(self).store.has_live_combination(x.0),
            winner is None ==> old(self).store.live_combinations() == 0,
        ensures
            final(self).wf(),
            final(self).store == old(self).store,
            final(self).indexer == old(self).indexer,
            final(self).config == old(self).config,
            final(self).last_now == now,
            final(self).stage matches Some(CurrentStage::Vote {
                config,
                phase: VotePhase::Winner(w),
            }) && config == c && w.started == now && w.winner == winner,
            winner matches Some(x) ==> winner_notices_ok(
                final(self).store,
                c.winner_duration,
                x,
                notices@,
                active@,
            ),
            winner is None ==> notices@.len() == 0,
    {
        let notices = match winner {
            Option::Some(x) => {
                let combo = self.store.get_live_combination(x);
                let r = winner_notices(active, c.winner_duration, combo.drawing, combo.prompt);
                proof {
                    let k = choose|k: int|
                        0 <= k < self.store.combinations@.len() && (
                        #[trigger] self.store.combinations@[k]).index.0 == x.0
                            && self.store.combinations@[k].combination == combo;
                    assert forall|i: int| 0 <= i < r@.len() implies ((#[trigger] r@[i]).message
                        matches ServerMsgRoot::Winner { duration: d, drawing, prompt } && d
                        == c.winner_duration && (exists|k2: int|
                        0 <= k2 < self.store.combinations@.len() && (
                        #[trigger] self.store.combinations@[k2]).index.0 == x.0
                            && self.store.combinations@[k2].combination.drawing == drawing
                            && self.store.combinations@[k2].combination.prompt == prompt)) by {
                        assert(0 <= k < self.store.combinations@.len()
                            && self.store.combinations@[k].index.0 == x.0
                            && self.store.combinations@[k].combination.drawing == combo.drawing
                            && self.store.combinations@[k].combination.prompt == combo.prompt);
                    }
                }
                r
            },
            Option::None => Vec::new(),
        };
        self.stage = Option::Some(
            CurrentStage::Vote { config: c, phase: VotePhase::Winner(WinnerContext { started: now, winner }) },
        );
        notices
    }

    /// Enter a vote stage: with at least two live combinations the
    /// bracket starts voting; with one, only the winner display runs;
    /// with none, an empty display that times out.
    fn enter_vote(&mut self, c: VoteConfig, now: u64, active: &Vec<u64>) -> (t: StageTransition)
        requires
            old(self).store.wf(),
            old(self).store.indices_at_most(old(self).indexer.val()),
            old(self).stage is None,
            old(self).last_now == now,
            active@.no_duplicates(),
        ensures
            final(self).wf(),
            final(self).store == old(self).store,
            final(self).indexer == old(self).indexer,
            final(self).config == old(self).config,
            final(self).last_now == now,
            entered_ok(StateData::Vote(c), *final(self), now, active@),
            t matches StageTransition::Entered { state, notices } && state == GameState::Vote
                && entered_notices_ok(StateData::Vote(c), *final(self), notices@, active@),
    {
        let live = self.store.live_combination_count();
        if live >= 2 {
            let notices = self.start_voting(c, now, active);
            StageTransition::Entered { state: GameState::Vote, notices }
        } else if live == 1 {
            let pool = self.store.live_combination_indices();
            let x = pool[0];
            proof {
                assert(self.store.has_live_combination(pool@[0].0));
            }
            let notices = self.start_winner(c, now, Option::Some(x), active);
            StageTransition::Entered { state: GameState::Vote, notices }
        } else {
            let notices = self.start_winner(c, now, Option::None, active);
            StageTransition::Entered { state: GameState::Vote, notices }
        }
    }

    /// Enter a combine stage: shuffle the live drawing and prompt
    /// pools and the roster order, split both pools at the fairness
    /// boundaries, and address each participant their slices.
    fn enter_combine(&mut self, c: CombineConfig, now: u64, active: &Vec<u64>) -> (t:
        StageTransition)
        requires
            old(self).store.wf(),
            old(self).store.indices_at_most(old(self).indexer.val()),
            old(self).stage is None,
            old(self).last_now == now,
            active@.no_duplicates(),
        ensures
            final(self).wf(),
            final(self).store == old(self).store,
            final(self).indexer == old(self).indexer,
            final(self).config == old(self).config,
            final(self).last_now == now,
            entered_ok(StateData::Combine(c), *final(self), now, active@),
            t matches StageTransition::Entered { state, notices } && state == GameState::Combine
                && entered_notices_ok(StateData::Combine(c), *final(self), notices@, active@),
    {
        let ctx = combine::Context::new(now, active);
        if active.len() == 0 {
            self.stage = Option::Some(CurrentStage::Combine { config: c, ctx });
            let notices: Vec<Notice> = Vec::new();
            proof {
                assert(notices@.map_values(|nt: Notice| nt.participant) =~= active@);
            }
            return StageTransition::Entered { state: GameState::Combine, notices };
        }
        let mut dpool = self.store.live_drawing_indices();
        let ghost dpool0 = dpool@;
        proof {
            assert forall|m1: int, m2: int|
                0 <= m1 < dpool0.len() && 0 <= m2 < dpool0.len() && m1 != m2 implies dpool0[m1]
                != dpool0[m2] by {
                assert(dpool0[m1].0 != dpool0[m2].0);
            }
        }
        crate::shuffle::shuffle(&mut dpool);
        let mut ppool = self.store.live_prompt_indices();
        let ghost ppool0 = ppool@;
        proof {
            assert forall|m1: int, m2: int|
                0 <= m1 < ppool0.len() && 0 <= m2 < ppool0.len() && m1 != m2 implies ppool0[m1]
                != ppool0[m2] by {
                assert(ppool0[m1].0 != ppool0[m2].0);
            }
        }
        crate::shuffle::shuffle(&mut ppool);
        let mut users = copy_ids(active);
        crate::shuffle::shuffle(&mut users);
        let n: usize = users.len();
        let dslices = assign_slices(&dpool, n);
        let pslices = assign_slices(&ppool, n);
        let ghost dsl = dslices@;
        let ghost psl = pslices@;
        let notices = combine_notices(&users, c.duration, dslices, pslices);
        self.stage = Option::Some(CurrentStage::Combine { config: c, ctx });
        proof {
            let slices_d = dsl.map_values(|v: Vec<Index>| v@);
            let slices_p = psl.map_values(|v: Vec<Index>| v@);
            lemma_slices_ok(dpool0, dpool@, slices_d, n as nat);
            lemma_slices_ok(ppool0, ppool@, slices_p, n as nat);
            assert forall|i: int| 0 <= i < notices@.len() implies assigned_drawings(
                #[trigger] notices@[i],
            ) == slices_d[i] && assigned_prompts(notices@[i]) == slices_p[i] by {
            }
            // participants are a permutation of the roster
            assert(notices@.map_values(|nt: Notice| nt.participant) =~= users@);
            // per-notice: live members, within-slice uniqueness
            assert forall|i: int| 0 <= i < notices@.len() implies combine_notice_ok(
                self.store,
                c,
                #[trigger] notices@[i],
            ) by {
                assert forall|j: int|
                    0 <= j < assigned_drawings(notices@[i]).len() implies self.store.has_live_drawing(
                    (#[trigger] assigned_drawings(notices@[i])[j]).0,
                ) by {
                    assert(slices_d[i][j] == assigned_drawings(notices@[i])[j]);
                    assert(dpool0.contains(slices_d[i][j]));
                    let m = choose|m: int| 0 <= m < dpool0.len() && dpool0[m] == slices_d[i][j];
                    assert(self.store.has_live_drawing(dpool0[m].0));
                }
                assert forall|j: int|
                    0 <= j < assigned_prompts(notices@[i]).len() implies self.store.has_live_prompt(
                    (#[trigger] assigned_prompts(notices@[i])[j]).0,
                ) by {
                    assert(slices_p[i][j] == assigned_prompts(notices@[i])[j]);
                    assert(ppool0.contains(slices_p[i][j]));
                    let m = choose|m: int| 0 <= m < ppool0.len() && ppool0[m] == slices_p[i][j];
                    assert(self.store.has_live_prompt(ppool0[m].0));
                }
                assert(assigned_drawings(notices@[i]).no_duplicates());
                assert(assigned_prompts(notices@[i]).no_duplicates());
            }
            // exact share sizes: `pool / n` each, one extra for the
            // first `pool % n` participants in shuffled roster order
            assert forall|i: int| 0 <= i < notices@.len() implies (#[trigger] assigned_drawings(
                notices@[i],
            )).len() == share_size(self.store.live_drawings(), notices@.len() as nat, i as nat)
                && (#[trigger] assigned_prompts(notices@[i])).len() == share_size(
                self.store.live_prompts(),
                notices@.len() as nat,
                i as nat,
            ) by {
                lemma_share_size(dpool@.len(), n as nat, i as nat);
                lemma_share_size(ppool@.len(), n as nat, i as nat);
                lemma_count_up_to_monotone(dpool@.len(), n as nat, i as nat, (i + 1) as nat);
                lemma_count_up_to_le_pool(dpool@.len(), n as nat, (i + 1) as nat);
                lemma_count_up_to_monotone(ppool@.len(), n as nat, i as nat, (i + 1) as nat);
                lemma_count_up_to_le_pool(ppool@.len(), n as nat, (i + 1) as nat);
                let dlo = count_up_to(dpool@.len(), n as nat, i as nat) as int;
                let dhi = count_up_to(dpool@.len(), n as nat, (i + 1) as nat) as int;
                assert(slices_d[i] == dpool@.subrange(dlo, dhi));
                assert(slices_d[i].len() == dhi - dlo);
                let plo = count_up_to(ppool@.len(), n as nat, i as nat) as int;
                let phi = count_up_to(ppool@.len(), n as nat, (i + 1) as nat) as int;
                assert(slices_p[i] == ppool@.subrange(plo, phi));
                assert(slices_p[i].len() == phi - plo);
            }
            // completeness of the partition over live items
            assert forall|k: int|
                0 <= k < self.store.drawings@.len() && !(#[trigger] self.store.drawings@[k]).consumed
                    implies exists|i: int|
                0 <= i < notices@.len() && (#[trigger] assigned_drawings(notices@[i])).contains(
                    self.store.drawings@[k].index,
                ) by {
                let idx = self.store.drawings@[k].index;
                let m = choose|m: int| 0 <= m < dpool0.len() && dpool0[m].0 == idx.0;
                assert(dpool0[m] == Index(dpool0[m].0));
                assert(idx == Index(idx.0));
                assert(dpool0[m] == idx);
                assert(covered_by_slices(slices_d, n as nat, dpool0[m]));
                let i = choose|i: int| 0 <= i < n && (#[trigger] slices_d[i]).contains(dpool0[m]);
                assert(assigned_drawings(notices@[i]).contains(idx));
            }
            assert forall|k: int|
                0 <= k < self.store.prompts@.len() && !(#[trigger] self.store.prompts@[k]).consumed
                    implies exists|i: int|
                0 <= i < notices@.len() && (#[trigger] assigned_prompts(notices@[i])).contains(
                    self.store.prompts@[k].index,
                ) by {
                let idx = self.store.prompts@[k].index;
                let m = choose|m: int| 0 <= m < ppool0.len() && ppool0[m].0 == idx.0;
                assert(ppool0[m] == Index(ppool0[m].0));
                assert(idx == Index(idx.0));
                assert(ppool0[m] == idx);
                assert(covered_by_slices(slices_p, n as nat, ppool0[m]));
                let i = choose|i: int| 0 <= i < n && (#[trigger] slices_p[i]).contains(ppool0[m]);
                assert(assigned_prompts(notices@[i]).contains(idx));
            }
        }
        StageTransition::Entered { state: GameState::Combine, notices }
    }

    /// Enter the given queued stage, broadcasting its stage-start
    /// notifications.
    fn enter_state(&mut self, data: StateData, now: u64, active: &Vec<u64>) -> (t: StageTransition)
        requires
            old(self).store.wf(),
            old(self).store.indices_at_most(old(self).indexer.val()),
            old(self).stage is None,
            old(self).last_now == now,
            active@.no_duplicates(),
        ensures
            final(self).wf(),
            final(self).store == old(self).store,
            final(self).indexer == old(self).indexer,
            final(self).config == old(self).config,
            final(self).last_now == now,
            entered_ok(data, *final(self), now, active@),
            t matches StageTransition::Entered { state, notices } && state == state_data_kind(data)
                && entered_notices_ok(data, *final(self), notices@, active@),
    {
        match data {
            StateData::Draw(c) => {
                self.stage = Option::Some(
                    CurrentStage::Draw { config: c, ctx: draw::Context::new(now, active) },
                );
                StageTransition::Entered {
                    state: GameState::Draw,
                    notices: draw_notices(active, c.duration),
                }
            },
            StateData::Prompt(c) => {
                self.stage = Option::Some(
                    CurrentStage::Prompt { config: c, ctx: prompt::Context::new(now) },
                );
                StageTransition::Entered {
                    state: GameState::Prompt,
                    notices: prompt_notices(active, c.duration),
                }
            },
            StateData::Combine(c) => self.enter_combine(c, now, active),
            StateData::Vote(c) => self.enter_vote(c, now, active),
        }
    }

    /// Pop the next queued stage and enter it, or end the round when
    /// the queue is exhausted.
    fn next_or_over(&mut self, winner: Option<Index>, now: u64, active: &Vec<u64>) -> (t:
        StageTransition)
        requires
            old(self).store.wf(),
            old(self).store.indices_at_most(old(self).indexer.val()),
            old(self).stage is None,
            old(self).last_now == now,
            active@.no_duplicates(),
        ensures
            final(self).wf(),
            final(self).store == old(self).store,
            final(self).indexer == old(self).indexer,
            final(self).last_now == now,
            final(self).config.extra_time == old(self).config.extra_time,
            old(self).config.states@.len() == 0 ==> t == (StageTransition::RoundOver { winner })
                && final(self).stage is None && final(self).config.states@ == old(
                self,
            ).config.states@,
            old(self).config.states@.len() > 0 ==> ({
                &&& final(self).config.states@ == old(self).config.states@.drop_last()
                &&& entered_ok(old(self).config.states@.last(), *final(self), now, active@)
                &&& (t matches StageTransition::Entered { state, notices } && state
                    == state_data_kind(old(self).config.states@.last()) && entered_notices_ok(
                    old(self).config.states@.last(),
                    *final(self),
                    notices@,
                    active@,
                ))
            }),
    {
        let data = self.config.next_state();
        match data {
            Option::Some(d) => self.enter_state(d, now, active),
            Option::None => StageTransition::RoundOver { winner },
        }
    }

    /// One scheduler tick: check the current stage's completion
    /// predicate — both triggers, everyone-submitted and deadline, are
    /// checked on every tick and either independently completes the
    /// stage — and, when it holds, finalize the stage and move on.
    /// Completion is handled exactly once: finalizing pops exactly one
    /// queued stage or eliminates exactly one combination, and a tick
    /// on an incomplete stage changes nothing at all.
    pub fn advance(&mut self, now: u64, active: &Vec<u64>) -> (t: Option<StageTransition>)
        requires
            old(self).wf(),
            old(self).last_now <= now,
            active@.no_duplicates(),
        ensures
            final(self).wf(),
            final(self).last_now == now,
            final(self).config.extra_time == old(self).config.extra_time,
            t is Some <==> old(self).stage_complete(now, active@),
            t is None ==> final(self).stage == old(self).stage && final(self).store == old(
                self,
            ).store && final(self).indexer == old(self).indexer && final(self).config == old(
                self,
            ).config,
            (t is Some && (old(self).stage is None || old(self).stage matches Some(
                CurrentStage::Draw { .. },
            ) || old(self).stage matches Some(CurrentStage::Prompt { .. }) || old(
                self,
            ).stage matches Some(CurrentStage::Combine { .. }))) ==> ({
                &&& final(self).store == old(self).store
                &&& final(self).indexer == old(self).indexer
                &&& (old(self).config.states@.len() == 0 ==> t == Some(
                    (StageTransition::RoundOver { winner: Option::None }),
                ) && final(self).stage is None && final(self).config.states@ == old(
                    self,
                ).config.states@)
                &&& (old(self).config.states@.len() > 0 ==> ({
                    &&& final(self).config.states@ == old(self).config.states@.drop_last()
                    &&& entered_ok(old(self).config.states@.last(), *final(self), now, active@)
                    &&& (t matches Some(StageTransition::Entered { state, notices }) && state
                        == state_data_kind(old(self).config.states@.last())
                        && entered_notices_ok(
                        old(self).config.states@.last(),
                        *final(self),
                        notices@,
                        active@,
                    ))
                }))
            }),
            old(self).stage matches Some(CurrentStage::Vote {
                config,
                phase: VotePhase::Voting(v),
            }) ==> (t is Some ==> ({
                let win = if crate::vote::first_survives(v.combination1_votes, v.combination2_votes) {
                    v.combination1
                } else {
                    v.combination2
                };
                let elim = if crate::vote::first_survives(v.combination1_votes, v.combination2_votes) {
                    v.combination2
                } else {
                    v.combination1
                };
                &&& final(self).config == old(self).config
                &&& final(self).indexer == old(self).indexer
                &&& final(self).store.live_combinations() == old(self).store.live_combinations()
                    - 1
                &&& !final(self).store.has_live_combination(elim.0)
                &&& final(self).store.has_live_combination(win.0)
                &&& (final(self).stage matches Some(CurrentStage::Vote {
                    config: c2,
                    phase: VotePhase::Winner(w),
                }) && c2 == config && w.started == now && w.winner == Some(win))
                &&& (t matches Some(StageTransition::WinnerStarted { winner, notices }) && winner
                    == win && winner_notices_ok(
                    final(self).store,
                    config.winner_duration,
                    win,
                    notices@,
                    active@,
                ))
            })),
            old(self).stage matches Some(CurrentStage::Vote {
                config,
                phase: VotePhase::Winner(w),
            }) ==> (t is Some && old(self).store.live_combinations() > 1 ==> ({
                &&& final(self).store == old(self).store
                &&& final(self).indexer == old(self).indexer
                &&& final(self).config == old(self).config
                &&& (final(self).stage matches Some(CurrentStage::Vote {
                    config: c2,
                    phase: VotePhase::Voting(v2),
                }) && c2 == config && v2.started == now && v2.submitted@ == Set::<u64>::empty()
                    && v2.combination1_votes == 0 && v2.combination2_votes == 0)
                &&& (t matches Some(StageTransition::VotingStarted { notices })
                    && notices_to_all(notices@, active@))
            })),
            old(self).stage matches Some(CurrentStage::Vote {
                config,
                phase: VotePhase::Winner(w),
            }) ==> (t is Some && old(self).store.live_combinations() <= 1 ==> ({
                &&& final(self).store == old(self).store
                &&& final(self).indexer == old(self).indexer
                &&& (old(self).config.states@.len() == 0 ==> t == Some(
                    (StageTransition::RoundOver { winner: w.winner }),
                ) && final(self).stage is None && final(self).config.states@ == old(
                    self,
                ).config.states@)
                &&& (old(self).config.states@.len() > 0 ==> ({
                    &&& final(self).config.states@ == old(self).config.states@.drop_last()
                    &&& entered_ok(old(self).config.states@.last(), *final(self), now, active@)
                }))
            })),
    {
        self.last_now = now;
        let stage = self.stage.take();
        match stage {
            Option::None => {
                if self.config.states.len() == 0 {
                    Option::None
                } else {
                    Option::Some(self.next_or_over(Option::None, now, active))
                }
            },
            Option::Some(CurrentStage::Draw { config, ctx }) => {
                if ctx.complete(now, config.duration, self.config.extra_time, active) {
                    Option::Some(self.next_or_over(Option::None, now, active))
                } else {
                    self.stage = Option::Some(CurrentStage::Draw { config, ctx });
                    Option::None
                }
            },
            Option::Some(CurrentStage::Prompt { config, ctx }) => {
                if ctx.complete(
                    now,
                    config.duration,
                    config.prompts_per_player,
                    self.config.extra_time,
                    active.len(),
                ) {
                    Option::Some(self.next_or_over(Option::None, now, active))
                } else {
                    self.stage = Option::Some(CurrentStage::Prompt { config, ctx });
                    Option::None
                }
            },
            Option::Some(CurrentStage::Combine { config, ctx }) => {
                if ctx.complete(now, config.duration, self.config.extra_time, active) {
                    Option::Some(self.next_or_over(Option::None, now, active))
                } else {
                    self.stage = Option::Some(CurrentStage::Combine { config, ctx });
                    Option::None
                }
            },
            Option::Some(CurrentStage::Vote { config, phase }) => match phase {
                VotePhase::Voting(v) => {
                    if v.complete(now, config.voting_duration, self.config.extra_time, active) {
                        let pair = crate::vote::resolve_elimination(
                            v.combination1_votes,
                            v.combination2_votes,
                            v.combination1,
                            v.combination2,
                        );
                        let elim = pair.0;
                        let win = pair.1;
                        self.store.mark_voted_out(elim);
                        proof {
                            let k = choose|k: int|
                                0 <= k < old(self).store.combinations@.len() && (
                                #[trigger] old(self).store.combinations@[k]).index.0 == win.0
                                    && !old(self).store.combinations@[k].voted_out;
                            assert(self.store.combinations@[k] == old(self).store.combinations@[k]);
                            assert(self.store.has_live_combination(win.0));
                        }
                        let notices = self.start_winner(config, now, Option::Some(win), active);
                        Option::Some(StageTransition::WinnerStarted { winner: win, notices })
                    } else {
                        self.stage = Option::Some(
                            CurrentStage::Vote { config, phase: VotePhase::Voting(v) },
                        );
                        Option::None
                    }
                },
                VotePhase::Winner(w) => {
                    if w.complete(now, config.winner_duration) {
                        let live = self.store.live_combination_count();
                        if live > 1 {
                            let notices = self.start_voting(config, now, active);
                            Option::Some(StageTransition::VotingStarted { notices })
                        } else {
                            Option::Some(self.next_or_over(w.winner, now, active))
                        }
                    } else {
                        self.stage = Option::Some(
                            CurrentStage::Vote { config, phase: VotePhase::Winner(w) },
                        );
                        Option::None
                    }
                },
            },
        }
    }
}

} // verus!
