use jpresentation::clock::{clock_hue, warn_threshold_ms, AssignmentClock, ClockHue, ClockState};
use jpresentation::error::AppError;

const MINUTE_MS: u64 = 60_000;

#[test]
fn arm_ten_minutes_is_green() {
    let mut clock = AssignmentClock::idle();
    clock.arm("Tesoro", 10).expect("arm");
    let snap = clock.snapshot();
    assert_eq!(snap.state, ClockState::Armed);
    assert_eq!(snap.title.as_deref(), Some("Tesoro"));
    assert_eq!(snap.assigned_ms, 600_000);
    assert_eq!(snap.remaining_ms, 600_000);
    assert_eq!(snap.hue, ClockHue::Green);
    assert_eq!(snap.progress_pct, 0);
}

#[test]
fn last_two_minutes_of_ten_are_amber() {
    assert_eq!(warn_threshold_ms(600_000), 120_000);
    assert_eq!(clock_hue(600_000, 120_001), ClockHue::Green);
    assert_eq!(clock_hue(600_000, 120_000), ClockHue::Amber);
    assert_eq!(clock_hue(600_000, 1), ClockHue::Amber);
}

#[test]
fn four_minute_part_warns_at_one_minute_floor() {
    assert_eq!(warn_threshold_ms(240_000), 60_000);
    assert_eq!(clock_hue(240_000, 60_001), ClockHue::Green);
    assert_eq!(clock_hue(240_000, 60_000), ClockHue::Amber);
}

#[test]
fn overtime_is_red_and_full_bar() {
    let mut clock = AssignmentClock::idle();
    clock.arm("Tesoro", 10).expect("arm");
    let t0: u64 = 5_000_000;
    clock.start_at(t0).expect("start");
    let snap = clock.snapshot_at(t0 + 11 * 60 * 1000 + 20_000);
    assert_eq!(snap.state, ClockState::Running);
    assert_eq!(snap.remaining_ms, -80_000);
    assert_eq!(snap.overtime_ms, 80_000);
    assert_eq!(snap.hue, ClockHue::Red);
    assert_eq!(snap.progress_pct, 100);
    assert_eq!(clock_hue(600_000, 0), ClockHue::Red);
}

#[test]
fn pause_keeps_elapsed_and_start_resumes() {
    let mut clock = AssignmentClock::idle();
    clock.arm("Tesoro", 10).expect("arm");
    let t0: u64 = 5_000_000;
    clock.start_at(t0).expect("start");
    clock.pause_at(t0 + 4 * MINUTE_MS).expect("pause");
    let paused = clock.snapshot_at(t0 + 4 * MINUTE_MS);
    assert_eq!(paused.state, ClockState::Armed);
    assert_eq!(paused.elapsed_ms, 4 * 60_000);
    assert_eq!(paused.remaining_ms, 6 * 60_000);
    let t1 = t0 + 4 * MINUTE_MS;
    clock.start_at(t1).expect("resume");
    let resumed = clock.snapshot_at(t1 + MINUTE_MS);
    assert_eq!(resumed.state, ClockState::Running);
    assert_eq!(resumed.elapsed_ms, 5 * 60_000);
    assert_eq!(resumed.remaining_ms, 5 * 60_000);
}

#[test]
fn start_from_idle_is_not_armed() {
    let mut clock = AssignmentClock::idle();
    assert!(matches!(clock.start(), Err(AppError::ClockNotArmed)));
}

#[test]
fn pause_from_armed_is_not_running() {
    let mut clock = AssignmentClock::idle();
    clock.arm("Tesoro", 10).expect("arm");
    assert!(matches!(clock.pause(), Err(AppError::ClockNotRunning)));
}

#[test]
fn finish_clears_to_idle() {
    let mut clock = AssignmentClock::idle();
    clock.arm("Tesoro", 10).expect("arm");
    clock.finish().expect("finish");
    assert_eq!(clock.snapshot().state, ClockState::Idle);
    assert!(matches!(clock.finish(), Err(AppError::ClockNotArmed)));
}

#[test]
fn start_while_running_is_idempotent() {
    let mut clock = AssignmentClock::idle();
    clock.arm("Tesoro", 10).expect("arm");
    let t0: u64 = 5_000_000;
    clock.start_at(t0).expect("start");
    clock.start_at(t0 + 1_000).expect("again");
    let snap = clock.snapshot_at(t0 + 1_000);
    assert_eq!(snap.elapsed_ms, 1_000);
}

#[test]
fn rejects_empty_title_and_out_of_range_minutes() {
    let mut clock = AssignmentClock::idle();
    assert!(clock.arm("   ", 10).is_err());
    assert!(clock.arm("Tesoro", 0).is_err());
    assert!(clock.arm("Tesoro", 181).is_err());
    clock.arm("  Tesoro  ", 1).expect("trim");
    assert_eq!(clock.snapshot().assigned_ms, 60_000);
}

#[test]
fn tick_only_when_running() {
    let mut clock = AssignmentClock::idle();
    assert!(!clock.tick());
    clock.arm("Tesoro", 10).expect("arm");
    assert!(!clock.tick());
    clock.start().expect("start");
    assert!(clock.tick());
}

#[test]
fn arm_replaces_a_running_part() {
    let mut clock = AssignmentClock::idle();
    clock.arm("Tesoro", 10).expect("arm");
    clock.start().expect("start");
    clock.arm("Perlas", 10).expect("replace");
    let snap = clock.snapshot();
    assert_eq!(snap.state, ClockState::Armed);
    assert_eq!(snap.title.as_deref(), Some("Perlas"));
    assert_eq!(snap.elapsed_ms, 0);
}

#[test]
fn revision_moves_on_every_change() {
    let mut clock = AssignmentClock::idle();
    let r0 = clock.snapshot().rev;
    clock.arm("Tesoro", 10).expect("arm");
    let r1 = clock.snapshot().rev;
    clock.start_at(1_000).expect("start");
    let r2 = clock.snapshot().rev;
    clock.pause_at(2_000).expect("pause");
    let r3 = clock.snapshot().rev;
    assert!(r0 < r1 && r1 < r2 && r2 < r3);
}

#[test]
fn paused_time_does_not_count() {
    let mut clock = AssignmentClock::idle();
    clock.arm("Tesoro", 10).expect("arm");
    clock.start_at(0).expect("start");
    clock.pause_at(30_000).expect("pause");
    let later = clock.snapshot_at(90_000);
    assert_eq!(later.elapsed_ms, 30_000);
    clock.start_at(90_000).expect("resume");
    assert_eq!(clock.snapshot_at(100_000).elapsed_ms, 40_000);
}

#[test]
fn progress_is_half_at_half_time() {
    let mut clock = AssignmentClock::idle();
    clock.arm("Tesoro", 10).expect("arm");
    clock.start_at(0).expect("start");
    let snap = clock.snapshot_at(300_000);
    assert_eq!(snap.progress_pct, 50);
    assert_eq!(snap.hue, ClockHue::Green);
    assert_eq!(snap.overtime_ms, 0);
}
