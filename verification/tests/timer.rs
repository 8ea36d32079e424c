use pristimer::clock::FakeClock;
use pristimer::timer::{TimerCore, TimerState};

const EPOCH_MS: u64 = 1_700_000_000_000;
const SEC: u64 = 1_000;
const MIN: u64 = 60 * SEC;

fn new_stopwatch() -> TimerCore<FakeClock> {
    TimerCore::new(FakeClock::new(EPOCH_MS), None)
}

fn new_countdown(limit_ms: u64) -> TimerCore<FakeClock> {
    TimerCore::new(FakeClock::new(EPOCH_MS), Some(limit_ms))
}

#[test]
fn stopwatch_tracks_elapsed() {
    let mut t = new_stopwatch();
    t.start();
    t.clock().advance(1_500);
    assert_eq!(t.elapsed_ms(), 1_500);
}

#[test]
fn paused_time_is_not_counted() {
    let mut t = new_stopwatch();
    t.start();
    t.clock().advance(1_500);
    t.pause();

    t.clock().advance(10 * SEC);
    assert_eq!(t.elapsed_ms(), 1_500);
    assert_eq!(t.state(), TimerState::Paused);

    t.start();
    t.clock().advance(500);
    assert_eq!(t.elapsed_ms(), 2_000);
}

#[test]
fn reset_clears_everything() {
    let mut t = new_stopwatch();
    t.start();
    t.clock().advance(5 * SEC);
    t.reset();
    assert_eq!(t.elapsed_ms(), 0);
    assert_eq!(t.state(), TimerState::Idle);
    assert_eq!(t.wall_anchor_ms(), 0);
}

#[test]
fn countdown_completes_exactly_at_limit() {
    let mut t = new_countdown(25 * MIN);
    t.start();

    t.clock().advance(24 * MIN);
    assert!(!t.poll());
    assert_eq!(t.remaining_ms(), Some(MIN));

    t.clock().advance(90 * SEC);
    assert!(t.poll());
    assert_eq!(t.elapsed_ms(), 25 * MIN);
    assert_eq!(t.remaining_ms(), Some(0));
    assert_eq!(t.state(), TimerState::Finished);
}

#[test]
fn poll_is_idempotent_after_finish() {
    let mut t = new_countdown(MIN);
    t.start();
    t.clock().advance(2 * MIN);
    assert!(t.poll());
    assert!(!t.poll());
}

#[test]
fn an_hour_of_ticks_produces_no_drift() {
    let mut t = new_stopwatch();
    t.start();
    for _ in 0..3_600 {
        t.clock().advance(SEC);
        t.poll();
    }
    assert_eq!(t.elapsed_ms(), 3_600 * SEC);
}

#[test]
fn wall_anchor_records_wall_clock() {
    let mut t = new_stopwatch();
    t.clock().advance(7 * SEC);
    t.start();
    assert_eq!(t.wall_anchor_ms(), EPOCH_MS + 7 * SEC);
}

#[test]
fn limit_change() {
    let mut t = new_stopwatch();
    t.set_limit(Some(1000));
    assert_eq!(t.limit_ms(), Some(1000));
    t.start();
    t.set_limit(Some(9999));
    assert_eq!(t.limit_ms(), Some(1000));

    t.pause();
    t.set_limit(Some(8888));
    assert_eq!(t.limit_ms(), Some(1000));

    t.start();
    t.clock().advance(2000);
    t.poll();
    assert_eq!(t.state(), TimerState::Finished);
    t.set_limit(Some(7777));
    assert_eq!(t.limit_ms(), Some(1000));
}

#[test]
fn restore_brings_back_a_paused_session() {
    let mut t = new_stopwatch();
    t.restore(5 * MIN, None);

    assert_eq!(t.state(), TimerState::Paused);
    assert_eq!(t.elapsed_ms(), 5 * MIN);

    t.clock().advance(3 * MIN);
    assert_eq!(t.elapsed_ms(), 5 * MIN);

    t.start();
    t.clock().advance(2 * MIN);
    assert_eq!(t.elapsed_ms(), 7 * MIN);
}

#[test]
fn explicit_readings_follow_the_anchor_model() {
    let mut t = new_countdown(10_000);
    t.start_at(EPOCH_MS, 1_000);
    assert_eq!(t.elapsed_at(4_000), 3_000);
    assert_eq!(t.remaining_at(4_000), Some(7_000));
    assert!(!t.poll_at(10_999));
    t.pause_at(6_000);
    assert_eq!(t.elapsed_at(1_000_000), 5_000);
    t.start_at(EPOCH_MS + 9_000, 9_000);
    assert_eq!(t.elapsed_at(12_000), 8_000);
    assert!(t.poll_at(14_000));
    assert_eq!(t.elapsed_at(99_999), 10_000);
    assert_eq!(t.remaining_at(99_999), Some(0));
    assert!(!t.poll_at(99_999));
}

#[test]
fn starting_a_finished_countdown_starts_over() {
    let mut t = new_countdown(1_000);
    t.start_at(0, 0);
    assert!(t.poll_at(1_000));
    t.start_at(5, 2_000);
    assert_eq!(t.state(), TimerState::Running);
    assert_eq!(t.elapsed_at(2_250), 250);
    assert_eq!(t.wall_anchor_ms(), 5);
}

#[test]
fn a_clock_reading_before_the_anchor_counts_as_zero() {
    let mut t = new_stopwatch();
    t.start_at(0, 5_000);
    assert_eq!(t.elapsed_at(4_000), 0);
}

#[test]
fn retargeting_a_running_countdown_keeps_elapsed() {
    let mut t = new_countdown(25 * MIN);
    t.start();
    t.clock().advance(10 * MIN);
    t.retarget(Some(15 * MIN));
    assert_eq!(t.state(), TimerState::Running);
    assert_eq!(t.elapsed_ms(), 10 * MIN);
    assert_eq!(t.remaining_ms(), Some(5 * MIN));
    t.pause();
    t.retarget(Some(30 * MIN));
    assert_eq!(t.remaining_ms(), Some(20 * MIN));
    // Plain set_limit is ignored outside idle.
    t.set_limit(Some(MIN));
    assert_eq!(t.limit_ms(), Some(30 * MIN));
}

#[test]
fn a_finished_countdown_is_not_retargeted() {
    let mut t = new_countdown(MIN);
    t.start();
    t.clock().advance(MIN);
    assert!(t.poll());
    t.retarget(Some(5 * MIN));
    assert_eq!(t.limit_ms(), Some(MIN));
    assert_eq!(t.state(), TimerState::Finished);
}
