//! Content produced by participants during a round: drawings, prompts,
//! combinations and votes, each tagged with a session-unique index and
//! the submitting participant's identity.

use vstd::prelude::*;

verus! {

/// Session-unique identifier of a persisted content item or combination.
/// Issued by an [`Indexer`], never reused and never recycled.
#[derive(Debug, Clone, Copy, PartialEq, Eq, Hash, Structural)]
pub struct Index(pub u64);

/// Issues [`Index`] values: a monotonically increasing counter owned by
/// the round driver, so uniqueness follows from single ownership.
#[derive(Debug)]
pub struct Indexer(u64);

impl Indexer {
    /// The value of the last issued index; zero before any was issued.
    pub closed spec fn val(self) -> u64 {
        self.0
    }

    /// A fresh indexer that has issued nothing yet.
    pub fn new() -> (r: Self)
        ensures
            r.val() == 0,
    {
        Indexer(0)
    }

    /// Whether the counter can issue nothing further.
    pub fn is_exhausted(&self) -> (r: bool)
        ensures
            r == (self.val() == u64::MAX),
    {
        self.0 == u64::MAX
    }

    /// Issue the next index, one above everything issued before.
    pub fn next(&mut self) -> (r: Index)
        requires
            old(self).val() < u64::MAX,
        ensures
            final(self).val() == old(self).val() + 1,
            r.0 == final(self).val(),
    {
        self.0 = self.0 + 1;
        Index(self.0)
    }
}

impl Default for Indexer {
    /// Same as [`Indexer::new`].
    fn default() -> (r: Self)
        ensures
            r.val() == 0,
    {
        Indexer(0)
    }
}

/// A single drawing, as an opaque payload of bytes.
#[derive(Debug, Clone)]
pub struct Drawing {
    pub data: Vec<u8>,
}

/// Reference to a custom font a prompt is rendered with.
#[derive(Debug, Clone, Copy, PartialEq, Eq, Structural)]
pub struct CustomFont(pub usize);

/// A single written prompt.
#[derive(Debug, Clone)]
pub struct Prompt {
    pub font: CustomFont,
    pub data: String,
}

/// A pairing of one drawing with one prompt, referenced by index.
#[derive(Debug, Clone, Copy, PartialEq, Eq, Structural)]
pub struct Combination {
    pub drawing: Index,
    pub prompt: Index,
}

/// A vote for one of the two combinations of the current pairing.
#[derive(Debug, Clone, Copy, PartialEq, Eq, Structural)]
pub struct Vote {
    pub combination: Index,
}

/// Identity of the participant a submission came from.
#[derive(Debug, Clone)]
pub struct Author {
    /// Roster id; opaque to the engine.
    pub id: u64,
    /// Human readable name, kept as a backup.
    pub name: String,
}

/// One inbound `(author, payload)` pair, already filtered upstream to
/// the currently active stage kind.
#[derive(Debug, Clone)]
pub struct Submission<T> {
    pub author: Author,
    pub data: T,
}

impl<T> Submission<T> {
    pub fn new(author: Author, data: T) -> (r: Self)
        ensures
            r.author == author,
            r.data == data,
    {
        Self { author, data }
    }
}

} // verus!
