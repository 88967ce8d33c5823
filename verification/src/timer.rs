//! The timer interrupt: when the next one comes, and the count of ticks.

use vstd::prelude::*;

verus! {

/// Timer ticks between two timer interrupts.
pub const INTERVAL: u64 = 100000;

/// The time of the interrupt after one at `now`.
pub fn next_timeout(now: u64) -> (t: u64)
    requires
        now <= u64::MAX - INTERVAL,
    ensures
        t == now + INTERVAL,
{
    now + INTERVAL
}

/// Counts one timer interrupt. Every hundredth interrupt the count starts
/// again from zero and the result is true, telling the caller to report it.
pub fn tick(ticks: &mut u64) -> (report: bool)
    requires
        *old(ticks) < u64::MAX,
    ensures
        report == ((*old(ticks) + 1) % 100 == 0),
        *final(ticks) == if report { 0 } else { (*old(ticks) + 1) as u64 },
{
    *ticks = *ticks + 1;
    if *ticks % 100 == 0 {
        *ticks = 0;
        true
    } else {
        false
    }
}

/// Starting from zero, the count stays below one hundred: after any tick
/// from a count below one hundred, the count is below one hundred again.
pub proof fn law_tick_count_bounded(before: u64, after: u64, report: bool)
    requires
        before < 100,
        report == ((before + 1) % 100 == 0),
        after == if report { 0 } else { (before + 1) as u64 },
    ensures
        after < 100,
        report <==> before == 99,
{
}

} // verus!
