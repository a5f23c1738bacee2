//! Stage timing: the wall-clock completion trigger. All times are
//! milliseconds on a monotonically increasing clock.

use vstd::prelude::*;

verus! {

/// Whether the wall-clock trigger of a stage has fired: the stage began
/// at `started` and runs for `duration`, and every deadline is extended
/// by the global `extra_time` grace period.
pub open spec fn deadline_reached(now: u64, started: u64, duration: u64, extra_time: u64) -> bool {
    now >= started + duration + extra_time
}

/// Runtime check of [`deadline_reached`], arranged so that no sum can
/// overflow.
pub fn check_deadline(now: u64, started: u64, duration: u64, extra_time: u64) -> (r: bool)
    requires
        started <= now,
    ensures
        r == deadline_reached(now, started, duration, extra_time),
{
    let elapsed: u64 = now - started;
    elapsed >= duration && elapsed - duration >= extra_time
}

/// Deadlines are stable triggers: under a monotonically increasing
/// clock, once a stage's deadline has fired it stays fired, so checking
/// it again on a later tick cannot un-complete the stage.
pub proof fn lemma_deadline_stable(
    now1: u64,
    now2: u64,
    started: u64,
    duration: u64,
    extra_time: u64,
)
    requires
        deadline_reached(now1, started, duration, extra_time),
        now1 <= now2,
    ensures
        deadline_reached(now2, started, duration, extra_time),
{
}

} // verus!
