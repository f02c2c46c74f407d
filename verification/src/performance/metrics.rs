//! Timer-tick and time-stamp-counter snapshots.

use vstd::prelude::*;

verus! {

/// A snapshot of the time-stamp counter and the timer-tick count.
#[derive(Debug, Clone, Copy, PartialEq, Eq, Structural)]
pub struct PerformanceCounters {
    tsc: u64,
    timer_ticks: u64,
}

/// TSC cycles per microsecond-tick unit: a PIT tick lasts 10 ms, i.e. 10 000 us.
pub const MICROS_PER_TICK: u64 = 10_000;

impl PerformanceCounters {
    pub closed spec fn spec_tsc(&self) -> u64 {
        self.tsc
    }

    pub closed spec fn spec_ticks(&self) -> u64 {
        self.timer_ticks
    }

    /// The snapshot of TSC value `tsc` taken at tick `timer_ticks`.
    pub fn read(tsc: u64, timer_ticks: u64) -> (r: Self)
        ensures
            r.spec_tsc() == tsc,
            r.spec_ticks() == timer_ticks,
    {
        PerformanceCounters { tsc, timer_ticks }
    }

    /// Return the raw TSC value from this snapshot.
    pub fn tsc(&self) -> (r: u64)
        ensures
            r == self.spec_tsc(),
    {
        self.tsc
    }

    /// Return the timer-tick count from this snapshot.
    pub fn ticks(&self) -> (r: u64)
        ensures
            r == self.spec_ticks(),
    {
        self.timer_ticks
    }

    /// Estimated CPU frequency in MHz from two snapshots: TSC cycles per microsecond
    /// of timer time; 0 when no tick elapsed.
    pub fn cpu_frequency_mhz(start: &Self, end: &Self) -> (r: u64)
        requires
            (if end.spec_ticks() >= start.spec_ticks() { end.spec_ticks() - start.spec_ticks() } else { 0 })
                * MICROS_PER_TICK <= u64::MAX,
        ensures
            ({
                let cycles = if end.spec_tsc() >= start.spec_tsc() { end.spec_tsc() - start.spec_tsc() } else { 0 };
                let ticks = if end.spec_ticks() >= start.spec_ticks() {
                    end.spec_ticks() - start.spec_ticks()
                } else {
                    0
                };
                r == if ticks == 0 { 0 } else { cycles / (ticks * MICROS_PER_TICK) }
            }),
    {
        let tsc_delta = end.tsc.saturating_sub(start.tsc);
        let tick_delta = end.timer_ticks.saturating_sub(start.timer_ticks);
        if tick_delta == 0 {
            return 0;
        }
        tsc_delta / (tick_delta * MICROS_PER_TICK)
    }
}

} // verus!
