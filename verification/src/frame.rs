//! The per-frame decisions of the app loop. Each rendered frame the loop
//! pours the previous frame's duration into the fixed-step clock, runs the
//! fixed-rate schedule once per whole tick drained, then the variable-rate
//! schedule once, then the render schedule once; it stops when the window
//! collaborator signals close. Everything the loop decides is computed
//! here; performing the runs and the I/O stays with the caller.

use vstd::prelude::*;

use crate::clock::FixedClock;

verus! {

/// What one pass of the app loop must do.
#[derive(Clone, Copy, PartialEq, Eq, Structural, Debug)]
pub struct FramePlan {
    /// How many times to run the fixed-rate schedule.
    pub fixed_runs: u64,
    /// Whether to run the variable-rate schedule (once).
    pub run_variable: bool,
    /// Whether to run the render schedule (once, between acquiring and
    /// releasing the drawing surface).
    pub run_render: bool,
    /// Whether to tear the world down and leave the loop instead.
    pub stop: bool,
}

/// Decides one pass of the app loop. When the close signal is up, the
/// plan is to stop without running anything and the clock is untouched.
/// Otherwise the frame's duration enters the clock, the fixed-rate
/// schedule is owed one run per whole tick drained — zero on a fast frame,
/// many on a slow one — and the variable-rate and render schedules are
/// owed exactly one run each.
pub fn plan_frame(clock: &mut FixedClock, frame_us: u64, should_close: bool) -> (p: FramePlan)
    requires
        old(clock).wf(),
    ensures
        final(clock).wf(),
        final(clock).spec_tick_us() == old(clock).spec_tick_us(),
        should_close ==> p.stop && p.fixed_runs == 0 && !p.run_variable && !p.run_render
            && *final(clock) == *old(clock),
        !should_close ==> !p.stop && p.run_variable && p.run_render && ({
            let total = if old(clock).spec_acc_us() + frame_us <= u64::MAX {
                old(clock).spec_acc_us() + frame_us
            } else {
                u64::MAX as int
            };
            &&& p.fixed_runs == total / (old(clock).spec_tick_us() as int)
            &&& final(clock).spec_acc_us() == total % (old(clock).spec_tick_us() as int)
        }),
{
    if should_close {
        FramePlan { fixed_runs: 0, run_variable: false, run_render: false, stop: true }
    } else {
        let ticks = clock.advance(frame_us);
        FramePlan { fixed_runs: ticks, run_variable: true, run_render: true, stop: false }
    }
}

} // verus!
