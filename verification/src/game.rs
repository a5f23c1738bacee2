//! Round configuration: the queue of stage parameter blocks consumed
//! back-to-front while a round runs, plus the global grace period.
//!
//! All durations are in milliseconds.

use vstd::prelude::*;

verus! {

/// Parameters of a drawing stage.
#[derive(Debug, Clone, Copy, PartialEq, Eq, Structural)]
pub struct DrawConfig {
    /// Stage length in milliseconds.
    pub duration: u64,
}

/// Parameters of a prompt-writing stage.
#[derive(Debug, Clone, Copy, PartialEq, Eq, Structural)]
pub struct PromptConfig {
    /// Global submission cap is `active participants * prompts_per_player`.
    pub prompts_per_player: usize,
    /// Stage length in milliseconds.
    pub duration: u64,
}

/// Parameters of a combine stage.
#[derive(Debug, Clone, Copy, PartialEq, Eq, Structural)]
pub struct CombineConfig {
    /// Stage length in milliseconds.
    pub duration: u64,
}

/// Parameters of a voting stage.
#[derive(Debug, Clone, Copy, PartialEq, Eq, Structural)]
pub struct VoteConfig {
    /// Length of one voting phase in milliseconds.
    pub voting_duration: u64,
    /// Length of one winner-display phase in milliseconds.
    pub winner_duration: u64,
}

/// One queued stage together with its parameters.
#[derive(Debug, Clone, Copy, PartialEq, Eq, Structural)]
pub enum StateData {
    Draw(DrawConfig),
    Prompt(PromptConfig),
    Combine(CombineConfig),
    Vote(VoteConfig),
}

/// Configuration of a whole round: an ordered list of stages, consumed
/// back-to-front (a stack), and a grace period added to every deadline.
/// Immutable once a round starts, except that the stack shrinks as
/// stages are popped.
#[derive(Debug)]
pub struct GameConfig {
    /// Grace period in milliseconds added to every stage deadline.
    pub extra_time: u64,
    /// Remaining stages; the round plays them from the back.
    pub states: Vec<StateData>,
}

impl GameConfig {
    /// The long standard round: three draw stages, then two
    /// prompt/combine/vote passes, with a three second grace period.
    pub fn long() -> (r: Self)
        ensures
            r.extra_time == 3000,
            r.states@.len() == 9,
            r.states@[0] == StateData::Vote(VoteConfig {
                voting_duration: 10000,
                winner_duration: 5000,
            }),
            r.states@[1] == StateData::Combine(CombineConfig { duration: 30000 }),
            r.states@[2] == StateData::Prompt(PromptConfig {
                prompts_per_player: 4,
                duration: 60000,
            }),
            r.states@[3] == StateData::Draw(DrawConfig { duration: 180000 }),
            r.states@[4] == StateData::Vote(VoteConfig {
                voting_duration: 10000,
                winner_duration: 5000,
            }),
            r.states@[5] == StateData::Combine(CombineConfig { duration: 30000 }),
            r.states@[6] == StateData::Prompt(PromptConfig {
                prompts_per_player: 3,
                duration: 60000,
            }),
            r.states@[7] == StateData::Draw(DrawConfig { duration: 180000 }),
            r.states@[8] == StateData::Draw(DrawConfig { duration: 180000 }),
    {
        Self {
            extra_time: 3000,
            states: vec![
                StateData::Vote(VoteConfig {
                    voting_duration: 10000,
                    winner_duration: 5000,
                }),
                StateData::Combine(CombineConfig { duration: 30000 }),
                StateData::Prompt(PromptConfig {
                    prompts_per_player: 4,
                    duration: 60000,
                }),
                StateData::Draw(DrawConfig { duration: 180000 }),
                StateData::Vote(VoteConfig {
                    voting_duration: 10000,
                    winner_duration: 5000,
                }),
                StateData::Combine(CombineConfig { duration: 30000 }),
                StateData::Prompt(PromptConfig {
                    prompts_per_player: 3,
                    duration: 60000,
                }),
                StateData::Draw(DrawConfig { duration: 180000 }),
                StateData::Draw(DrawConfig { duration: 180000 }),
            ],
        }
    }

    /// Pop the next queued stage off the back of the stack, if any.
    pub fn next_state(&mut self) -> (r: Option<StateData>)
        ensures
            final(self).extra_time == old(self).extra_time,
            old(self).states@.len() == 0 ==> r is None && final(self).states@ == old(
                self,
            ).states@,
            old(self).states@.len() > 0 ==> {
                &&& r == Some(old(self).states@.last())
                &&& final(self).states@ == old(self).states@.drop_last()
            },
    {
        self.states.pop()
    }
}

} // verus!
