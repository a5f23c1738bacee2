//! The observable states of the round state machine.

use vstd::prelude::*;

verus! {

/// The kind of stage the round is in. `Init` is the moment before the
/// first stage is entered, and again once the round is over.
#[derive(Debug, Clone, Copy, PartialEq, Eq, Hash, Structural)]
pub enum GameState {
    Init,
    Draw,
    Prompt,
    Combine,
    Vote,
}

impl Default for GameState {
    /// A round starts (and ends) outside any stage.
    fn default() -> (r: Self)
        ensures
            r == GameState::Init,
    {
        GameState::Init
    }
}

/// The phase alternation nested inside the vote stage.
#[derive(Debug, Clone, Copy, PartialEq, Eq, Hash, Structural)]
pub enum VoteState {
    Voting,
    Winner,
}

impl Default for VoteState {
    /// The vote stage opens with a voting phase whenever a pairing
    /// exists.
    fn default() -> (r: Self)
        ensures
            r == VoteState::Voting,
    {
        VoteState::Voting
    }
}

} // verus!
