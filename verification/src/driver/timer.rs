//! The decisions of the timer monitor.

use vstd::prelude::*;

verus! {

/// Interrupt line of the timer.
pub const TIMER_IRQ: u8 = 0;

/// How many timer interrupts were served, and how many hundreds were reported.
#[derive(Debug, Clone, Copy, PartialEq, Eq, Structural)]
pub struct TimerMonitor {
    pub received: u64,
    pub milestones: u64,
}

impl TimerMonitor {
    /// Nothing served yet.
    pub fn new() -> (r: TimerMonitor)
        ensures
            r == (TimerMonitor { received: 0, milestones: 0 }),
    {
        TimerMonitor { received: 0, milestones: 0 }
    }

    /// Counts `n` interrupts. Whenever another hundred is full, it is to be
    /// reported.
    pub fn served(&mut self, n: u64) -> (report: bool)
        requires
            old(self).received + n <= u64::MAX,
        ensures
            final(self).received == old(self).received + n,
            report == ((old(self).received + n) / 100 > old(self).milestones),
            final(self).milestones == (if report {
                (old(self).received + n) / 100
            } else {
                old(self).milestones as int
            }),
    {
        self.received = self.received + n;
        if self.received / 100 > self.milestones {
            self.milestones = self.received / 100;
            true
        } else {
            false
        }
    }
}

} // verus!
