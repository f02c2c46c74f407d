//! Timer-tick arithmetic: sleeps measured in PIT ticks.

use vstd::prelude::*;

verus! {

/// Programmable interval timer frequency.
pub const PIT_HZ: u64 = 100;
/// A task asleep for this many ticks (30 s) is reported by the watchdog.
pub const WATCHDOG_SLEEP_THRESHOLD_TICKS: u64 = 3000;
/// Milliseconds per tick.
pub const TICK_MILLIS: u64 = 10;

/// Ticks needed to cover `millis` milliseconds (rounded up, saturating).
pub open spec fn ticks_for_millis(millis: u128) -> u64 {
    if millis == 0 {
        0
    } else {
        let ticks = (millis + TICK_MILLIS - 1) / (TICK_MILLIS as int);
        if ticks > u64::MAX {
            u64::MAX
        } else {
            ticks as u64
        }
    }
}

pub open spec fn sat_add(a: u64, b: u64) -> u64 {
    if a + b > u64::MAX {
        u64::MAX
    } else {
        (a + b) as u64
    }
}

/// Converts a duration in milliseconds to timer ticks.
pub fn duration_to_ticks(millis: u128) -> (r: u64)
    requires
        millis <= u128::MAX - TICK_MILLIS,
    ensures
        r == ticks_for_millis(millis),
{
    if millis == 0 {
        return 0;
    }
    let ticks = (millis + (TICK_MILLIS as u128) - 1) / (TICK_MILLIS as u128);
    if ticks > (u64::MAX as u128) {
        u64::MAX
    } else {
        ticks as u64
    }
}

/// A sleep that ends at a fixed tick.
#[derive(Debug, Clone, Copy, PartialEq, Eq, Structural)]
pub struct Sleep {
    pub wake_tick: u64,
}

impl Sleep {
    /// Whether the sleep has ended at tick `now`.
    pub fn is_ready(&self, now: u64) -> (r: bool)
        ensures
            r == (now >= self.wake_tick),
    {
        now >= self.wake_tick
    }
}

/// A sleep of `millis` milliseconds starting at tick `now`.
pub fn sleep(now: u64, millis: u128) -> (r: Sleep)
    requires
        millis <= u128::MAX - TICK_MILLIS,
    ensures
        r.wake_tick == sat_add(now, ticks_for_millis(millis)),
{
    let ticks = duration_to_ticks(millis);
    Sleep { wake_tick: now.saturating_add(ticks) }
}

/// A sleep of `ticks` timer ticks starting at tick `now`.
pub fn sleep_ticks(now: u64, ticks: u64) -> (r: Sleep)
    ensures
        r.wake_tick == sat_add(now, ticks),
{
    Sleep { wake_tick: now.saturating_add(ticks) }
}

/// Whether the watchdog reports a task that has slept for `state_age_ticks`.
pub fn sleeping_too_long(sleeping: bool, state_age_ticks: u64) -> (r: bool)
    ensures
        r == (sleeping && state_age_ticks >= WATCHDOG_SLEEP_THRESHOLD_TICKS),
{
    sleeping && state_age_ticks >= WATCHDOG_SLEEP_THRESHOLD_TICKS
}

/// Whole seconds of uptime at `ticks`.
pub fn uptime_secs(ticks: u64) -> (r: u64)
    ensures
        r == ticks / PIT_HZ,
{
    ticks / PIT_HZ
}

/// A sleep of at least one millisecond lasts at least one tick, and every started
/// 10 ms counts as a whole tick.
pub proof fn law_sleep_rounds_up(millis: u128)
    requires
        0 < millis <= u64::MAX,
    ensures
        ticks_for_millis(millis) >= 1,
        ticks_for_millis(millis) * 10 >= millis,
        ticks_for_millis(millis) * 10 < millis + 10,
{
    let t = (millis + TICK_MILLIS - 1) / (TICK_MILLIS as int);
    assert(t * 10 >= millis && t * 10 < millis + 10 && t >= 1) by (nonlinear_arith)
        requires
            t == (millis + 9) / 10,
            millis > 0,
    ;
}

} // verus!
