use stepworld::clock::FixedClock;
use stepworld::frame::plan_frame;

// The demo's fixed timestep: 15625 microseconds, 64 ticks per second.
const TICK: u64 = 15625;

#[test]
fn forty_ms_frame_yields_two_ticks_and_the_remainder() {
    let mut c = FixedClock::new(TICK);
    let ticks = c.advance(40_000);
    assert_eq!(ticks, 2);
    assert_eq!(c.acc_us(), 8_750);
}

#[test]
fn fast_frame_yields_no_tick_and_keeps_the_time() {
    let mut c = FixedClock::new(TICK);
    assert_eq!(c.advance(10_000), 0);
    assert_eq!(c.acc_us(), 10_000);
}

#[test]
fn leftover_time_carries_into_the_next_frame() {
    let mut c = FixedClock::new(TICK);
    assert_eq!(c.advance(10_000), 0);
    assert_eq!(c.advance(10_000), 1);
    assert_eq!(c.acc_us(), 4_375);
}

#[test]
fn conservation_ticks_and_remainder_partition_the_time() {
    let mut c = FixedClock::new(TICK);
    let total: u64 = 123_456;
    let ticks = c.advance(total);
    assert_eq!(ticks, total / TICK);
    assert_eq!(c.acc_us(), total % TICK);
    assert_eq!(ticks * TICK + c.acc_us(), total);
}

#[test]
fn stalled_frame_yields_many_ticks() {
    let mut c = FixedClock::new(TICK);
    // A two-second stall: the drain catches up, uncapped.
    assert_eq!(c.advance(2_000_000), 128);
    assert_eq!(c.acc_us(), 0);
}

#[test]
fn absurd_frame_duration_saturates_instead_of_wrapping() {
    let mut c = FixedClock::new(TICK);
    c.advance(10_000);
    let ticks = c.advance(u64::MAX);
    assert_eq!(ticks, u64::MAX / TICK);
    assert_eq!(c.acc_us(), u64::MAX % TICK);
}

#[test]
fn plan_runs_fixed_per_tick_and_each_schedule_once() {
    let mut c = FixedClock::new(TICK);
    let p = plan_frame(&mut c, 40_000, false);
    assert!(!p.stop);
    assert_eq!(p.fixed_runs, 2);
    assert!(p.run_variable);
    assert!(p.run_render);
    assert_eq!(c.acc_us(), 8_750);
}

#[test]
fn plan_on_close_stops_without_running_anything() {
    let mut c = FixedClock::new(TICK);
    c.advance(10_000);
    let p = plan_frame(&mut c, 40_000, true);
    assert!(p.stop);
    assert_eq!(p.fixed_runs, 0);
    assert!(!p.run_variable);
    assert!(!p.run_render);
    assert_eq!(c.acc_us(), 10_000);
}
