//! Wall-clock pacing: converts elapsed time into whole 60 Hz tick
//! intervals, retaining the remainder so that timer decay does not drift
//! across variable instruction cost.

use vstd::prelude::*;

verus! {

/// One tick interval, a sixtieth of a second, in nanoseconds.
pub const TICK_NS: u64 = 16_666_667;

/// Accumulates elapsed wall-clock time and pays it out in whole ticks.
pub struct Pacer {
    acc_ns: u64,
}

impl Pacer {
    /// Nanoseconds accumulated towards the next tick.
    pub closed spec fn acc(&self) -> u64 {
        self.acc_ns
    }

    /// The remainder never reaches a whole tick.
    pub open spec fn wf(&self) -> bool {
        self.acc() < TICK_NS
    }

    /// A pacer with nothing accumulated.
    pub fn new() -> (r: Pacer)
        ensures
            r.wf(),
            r.acc() == 0,
    {
        Pacer { acc_ns: 0 }
    }

    /// Adds `elapsed_ns` nanoseconds and returns the number of whole ticks
    /// now due; the remainder stays accumulated.
    pub fn advance(&mut self, elapsed_ns: u64) -> (ticks: u64)
        requires
            old(self).wf(),
            elapsed_ns <= u64::MAX - TICK_NS,
        ensures
            final(self).wf(),
            ticks == (old(self).acc() + elapsed_ns) as int / TICK_NS as int,
            final(self).acc() == (old(self).acc() + elapsed_ns) as int % TICK_NS as int,
    {
        let total = self.acc_ns + elapsed_ns;
        let ticks = total / TICK_NS;
        self.acc_ns = total % TICK_NS;
        ticks
    }
}

} // verus!
