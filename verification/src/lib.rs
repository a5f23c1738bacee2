//! A round orchestration engine for a timed party drawing game: a
//! cohort of participants passes through drawing, prompt-writing,
//! combining and voting stages, producing one winning combination per
//! round.
//!
//! The engine is the [`driver::Round`] state machine. Each scheduler
//! tick the caller drains its inbound submissions into the driver and
//! calls [`driver::Round::advance`]; a stage finalizes when every
//! active participant has submitted or its deadline — plus a global
//! grace period — has passed, whichever becomes true first. Before the
//! combine stage the pooled drawings and prompts are shuffled and
//! partitioned fairly across the roster ([`distribute`]); the vote
//! stage runs a pairwise elimination bracket ([`vote`]) until a sole
//! combination survives.
//!
//! Everything the engine decides is stated in its contracts; the one
//! assumption taken on trust is the shuffle ([`shuffle`]), which the
//! `rand` crate performs.

pub mod combine;
pub mod content;
pub mod distribute;
pub mod driver;
pub mod draw;
pub mod game;
pub mod idset;
pub mod prompt;
pub mod protocol;
pub mod shuffle;
pub mod states;
pub mod store;
pub mod timing;
pub mod vote;
