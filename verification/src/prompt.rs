//! The prompt stage: participants may submit any number of prompts;
//! completion is purely count-based against the global cap
//! `active participants * prompts_per_player` — an imbalance between
//! participants is accepted deliberately — or deadline-based.

use vstd::prelude::*;
use crate::timing::{check_deadline, deadline_reached};

verus! {

/// Stage-scoped state of a prompt stage; exists only while the stage
/// is current.
#[derive(Debug)]
pub struct Context {
    /// When the stage started, in milliseconds.
    pub started: u64,
    /// How many prompts were accepted this stage, over all
    /// participants together.
    pub submitted: usize,
}

impl Context {
    /// A fresh context for a stage starting now.
    pub fn new(now: u64) -> (r: Self)
        ensures
            r.started == now,
            r.submitted == 0,
    {
        Context { started: now, submitted: 0 }
    }

    /// Count one more accepted prompt. There is no per-participant
    /// limit: every submission is accepted until the stage completes.
    pub fn accept(&mut self) -> (r: bool)
        ensures
            final(self).started == old(self).started,
            r == (old(self).submitted < usize::MAX),
            r ==> final(self).submitted == old(self).submitted + 1,
            !r ==> final(self).submitted == old(self).submitted,
    {
        if self.submitted < usize::MAX {
            self.submitted = self.submitted + 1;
            true
        } else {
            false
        }
    }

    /// The stage's completion predicate: the global cap of
    /// `n_active * prompts_per_player` accepted prompts is reached, or
    /// the deadline (with grace period) has passed.
    pub open spec fn complete_spec(
        self,
        now: u64,
        duration: u64,
        prompts_per_player: nat,
        extra_time: u64,
        n_active: nat,
    ) -> bool {
        self.submitted >= n_active * prompts_per_player || deadline_reached(
            now,
            self.started,
            duration,
            extra_time,
        )
    }

    /// Runtime check of [`Context::complete_spec`], guarding the cap
    /// product against overflow: a cap beyond `usize::MAX` is simply
    /// never reached by the counter.
    pub fn complete(
        &self,
        now: u64,
        duration: u64,
        prompts_per_player: usize,
        extra_time: u64,
        n_active: usize,
    ) -> (r: bool)
        requires
            self.started <= now,
        ensures
            r == self.complete_spec(
                now,
                duration,
                prompts_per_player as nat,
                extra_time,
                n_active as nat,
            ),
    {
        let by_count: bool = if prompts_per_player == 0 || n_active == 0 {
            true
        } else if n_active > usize::MAX / prompts_per_player {
            proof {
                lemma_cap_overflows(n_active as nat, prompts_per_player as nat, usize::MAX as nat);
            }
            false
        } else {
            proof {
                lemma_cap_fits(n_active as nat, prompts_per_player as nat, usize::MAX as nat);
            }
            self.submitted >= n_active * prompts_per_player
        };
        by_count || check_deadline(now, self.started, duration, extra_time)
    }
}

/// When `n` exceeds `m / p`, the cap `n * p` exceeds `m`.
proof fn lemma_cap_overflows(n: nat, p: nat, m: nat)
    requires
        p >= 1,
        n > m / p,
    ensures
        n * p > m,
{
    broadcast use vstd::arithmetic::div_mod::lemma_fundamental_div_mod;
    broadcast use vstd::arithmetic::div_mod::lemma_mod_bound;

    let q = m / p;
    let r = m % p;
    assert(m == p * q + r);
    assert(r < p);
    assert(n * p > m) by (nonlinear_arith)
        requires
            n >= q + 1,
            m == p * q + r,
            r < p,
            p >= 1,
    ;
}

/// When `n` is at most `m / p`, the cap `n * p` fits below `m`.
proof fn lemma_cap_fits(n: nat, p: nat, m: nat)
    requires
        p >= 1,
        n <= m / p,
    ensures
        n * p <= m,
{
    broadcast use vstd::arithmetic::div_mod::lemma_fundamental_div_mod;
    broadcast use vstd::arithmetic::div_mod::lemma_mod_bound;

    let q = m / p;
    let r = m % p;
    assert(m == p * q + r);
    assert(n * p <= m) by (nonlinear_arith)
        requires
            n <= q,
            m == p * q + r,
            r >= 0,
            p >= 0,
    ;
}

} // verus!
