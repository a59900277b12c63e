//! Wall-clock budgeting for the turn-based judge loop.
//!
//! The judge allows a generous budget on the first ply and a tight
//! one on every later ply; the search loop asks between moves
//! whether the budget still has room and flushes its answer when it
//! does not.  What the clock reads is outside the logic; the budget
//! rule itself is verified over the measured value.

use vstd::prelude::*;

verus! {

/// The monotonic clock reading of the standard library, opaque to
/// the logic.
#[verifier::external_type_specification]
#[verifier::external_body]
pub struct ExInstant(std::time::Instant);

/// Relies on std::time::Instant::now: an opaque reading of the
/// monotonic clock.
#[verifier::external_body]
fn instant_now() -> std::time::Instant {
    std::time::Instant::now()
}

/// Relies on std::time::Instant::elapsed, converted to whole
/// milliseconds with Duration::as_millis; nothing can be promised of
/// what the clock reads.
#[verifier::external_body]
fn elapsed_millis(start: &std::time::Instant) -> u128 {
    start.elapsed().as_millis()
}

/// The ply budget in milliseconds: generous for the first ply,
/// tight afterwards.
pub open spec fn budget_ms(first: bool) -> int {
    if first {
        990
    } else {
        40
    }
}

/// Whether a measured time still fits the ply budget.
pub fn within_budget(first: bool, elapsed: u128) -> (r: bool)
    ensures
        r == (elapsed < budget_ms(first)),
{
    if first {
        elapsed < 990
    } else {
        elapsed < 40
    }
}

/// Tracks the wall-clock budget of the current ply.
pub struct TimeManager {
    pub start: std::time::Instant,
    pub first: bool,
}

impl TimeManager {
    /// Starts the clock on the generous first-ply budget.
    pub fn new() -> (t: TimeManager)
        ensures
            t.first,
    {
        TimeManager { start: instant_now(), first: true }
    }

    /// Whether this ply's budget still has room: under 990 ms on the
    /// first ply, under 40 ms on later ones, for whatever the clock
    /// read.
    pub fn ok(&self) -> bool {
        let ep = elapsed_millis(&self.start);
        within_budget(self.first, ep)
    }

    /// Restarts the clock for the next ply, on the tight budget;
    /// the caller consumes the judge's protocol lines first.
    pub fn reset(&mut self)
        ensures
            !final(self).first,
    {
        self.start = instant_now();
        self.first = false;
    }
}

} // verus!
