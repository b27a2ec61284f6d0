//! The fixed-step simulation clock. Real frame time is poured into an
//! accumulator; the accumulator is drained in whole ticks of a fixed
//! duration. Time below one tick is carried to the next frame, never lost.

use vstd::prelude::*;

verus! {

/// Accumulates elapsed real time (in microseconds) and hands it out in
/// whole fixed-size ticks.
///
/// Invariant: outside of a call, the accumulator holds strictly less than
/// one tick of leftover time, so every whole tick that ever entered the
/// clock has been reported exactly once.
pub struct FixedClock {
    /// Duration of one simulation tick, in microseconds. Always positive.
    tick_us: u64,
    /// Real time poured in but not yet drained, in microseconds.
    acc_us: u64,
}

impl FixedClock {
    /// The tick duration the clock was built with.
    pub closed spec fn spec_tick_us(&self) -> u64 {
        self.tick_us
    }

    /// The leftover time currently held by the accumulator.
    pub closed spec fn spec_acc_us(&self) -> u64 {
        self.acc_us
    }

    /// A clock is well formed when its tick is positive and its leftover
    /// time is below one tick.
    pub open spec fn wf(&self) -> bool {
        &&& self.spec_tick_us() > 0
        &&& self.spec_acc_us() < self.spec_tick_us()
    }

    /// Builds a clock with an empty accumulator.
    pub fn new(tick_us: u64) -> (c: FixedClock)
        requires
            tick_us > 0,
        ensures
            c.wf(),
            c.spec_tick_us() == tick_us,
            c.spec_acc_us() == 0,
    {
        FixedClock { tick_us, acc_us: 0 }
    }

    /// The tick duration, in microseconds.
    pub fn tick_us(&self) -> (t: u64)
        ensures
            t == self.spec_tick_us(),
    {
        self.tick_us
    }

    /// The leftover time, in microseconds.
    pub fn acc_us(&self) -> (a: u64)
        ensures
            a == self.spec_acc_us(),
    {
        self.acc_us
    }

    /// Pours one frame's real duration into the accumulator and drains it:
    /// returns how many whole fixed ticks the frame is worth, keeping the
    /// remainder for the next frame.
    ///
    /// With `total` the leftover time plus `frame_us` (saturating at
    /// `u64::MAX`), the tick count is `total / tick` and the new leftover
    /// time is `total % tick`: no time is dropped, and a slow frame may
    /// yield many ticks while a fast one yields none.
    pub fn advance(&mut self, frame_us: u64) -> (ticks: u64)
        requires
            old(self).wf(),
        ensures
            final(self).wf(),
            final(self).spec_tick_us() == old(self).spec_tick_us(),
            ({
                let total = if old(self).spec_acc_us() + frame_us <= u64::MAX {
                    old(self).spec_acc_us() + frame_us
                } else {
                    u64::MAX as int
                };
                &&& ticks == total / (old(self).spec_tick_us() as int)
                &&& final(self).spec_acc_us() == total % (old(self).spec_tick_us() as int)
            }),
    {
        let total = if frame_us <= u64::MAX - self.acc_us {
            self.acc_us + frame_us
        } else {
            u64::MAX
        };
        let ticks = total / self.tick_us;
        self.acc_us = total % self.tick_us;
        ticks
    }
}

} // verus!
