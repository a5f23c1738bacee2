//! What the engine tells the transport collaborator to send: stage
//! start notifications, the current bracket pairing and the provisional
//! winner. Payloads are referenced by index; the transport resolves
//! them against the content store before serialising.

use vstd::prelude::*;
use crate::content::Index;

verus! {

/// One outbound message of the engine.
#[derive(Debug, Clone)]
pub enum ServerMsgRoot {
    /// A drawing stage started; draw for `duration` milliseconds.
    Draw { duration: u64 },
    /// A prompt stage started; write prompts for `duration` milliseconds.
    Prompt { duration: u64 },
    /// A combine stage started, with the receiving participant's own
    /// slice of the shuffled drawing and prompt pools.
    Combine { duration: u64, drawings: Vec<Index>, prompts: Vec<Index> },
    /// A voting phase started over the given pair of combinations.
    Vote { duration: u64, combination1: Index, combination2: Index },
    /// The provisional winner of the bracket round, shown by its
    /// drawing and prompt, for `duration` milliseconds.
    Winner { duration: u64, drawing: Index, prompt: Index },
    /// Nothing is running; wait.
    Wait,
}

/// An outbound message addressed to one participant.
#[derive(Debug, Clone)]
pub struct Notice {
    pub participant: u64,
    pub message: ServerMsgRoot,
}

/// How the engine disposed of one inbound submission.
#[derive(Debug, Clone, Copy, PartialEq, Eq, Structural)]
pub enum SubmitOutcome {
    /// Accepted and persisted.
    Accepted,
    /// The participant already has an accepted submission for a
    /// one-per-participant stage; rejected, no state change.
    Duplicate,
    /// The submission names a content index that does not exist, is
    /// already consumed, or is not a live paired combination;
    /// rejected, no state change.
    InvalidReference,
    /// The author is not on the active roster snapshot taken when the
    /// stage was entered; rejected, no state change.
    NotActive,
    /// No stage of the matching kind is accepting submissions right
    /// now; rejected, no state change.
    WrongStage,
    /// An engine counter can grow no further; rejected, no state
    /// change. Unreachable in any real session.
    Exhausted,
}

} // verus!
