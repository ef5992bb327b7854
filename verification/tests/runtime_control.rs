use scientific_workflow::runtime::control::{DiskTransition, RunControl};

#[test]
fn disk_recovery_and_manual_resume_preserve_other_pause_reasons() {
    let mut control = RunControl::default();
    control.pause(true);
    control.pause_for_disk(true);
    control.pause(false);
    assert!(control.paused());
    control.pause(true);
    control.pause_for_disk(false);
    assert!(control.paused());
    control.pause(false);
    assert!(!control.paused());
}

#[test]
fn paused_clock_stands_still_and_resumes_without_the_pause() {
    let mut control = RunControl::new();
    assert_eq!(control.now_at(100), 100);
    control.set_pause_at(true, false, 100);
    assert_eq!(control.now_at(250), 100);
    assert_eq!(control.status(), "paused");
    control.set_pause_at(false, false, 300);
    assert_eq!(control.now_at(400), 200);
    assert_eq!(control.status(), "running");
}

#[test]
fn disk_pauses_hold_until_recovery_and_an_explicit_resume() {
    let mut control = RunControl::new();
    assert!(matches!(control.sample_disk_at(true, false, 10), Some(DiskTransition::Paused)));
    assert!(control.disk_paused());
    assert!(control.paused());
    assert!(control.sample_disk_at(true, false, 20).is_none());
    assert!(!control.resume_at(25));
    assert!(matches!(control.sample_disk_at(false, true, 30), Some(DiskTransition::Ready)));
    assert!(control.paused());
    assert!(control.resume_at(40));
    assert!(!control.paused());
}

#[test]
fn cancellation_is_sticky_and_reported() {
    let mut control = RunControl::new();
    assert!(!control.cancelled());
    control.cancel();
    assert!(control.cancelled());
    assert_eq!(control.status(), "cancelling");
    control.pause(true);
    assert!(control.cancelled());
}

#[test]
fn a_second_pause_reason_keeps_the_frozen_reading() {
    let mut control = RunControl::new();
    control.set_pause_at(true, false, 50);
    control.set_pause_at(true, true, 80);
    assert_eq!(control.now_at(500), 50);
    control.set_pause_at(false, false, 90);
    assert!(control.paused());
    assert_eq!(control.now_at(900), 50);
    control.set_pause_at(false, true, 100);
    assert_eq!(control.now_at(150), 100);
}

#[test]
fn clock_freezes_immediately_and_cancellation_wakes_a_parked_worker() {
    let mut control = RunControl::default();
    control.begin_activity();
    control.pause(true);
    let frozen = control.now();
    assert!(control.must_wait(false));
    control.begin_parked();
    assert_eq!(control.status(), "paused");
    assert_eq!(control.now(), frozen);
    control.pause(true);
    assert_eq!(control.now(), frozen);
    control.cancel();
    assert!(!control.must_wait(false));
    control.end_parked();
    assert_eq!(control.status(), "cancelling");
    control.pause(false);
    assert!(control.now() >= frozen);
}

#[test]
fn an_earlier_reading_never_turns_the_active_clock_back() {
    let mut control = RunControl::new();
    control.set_pause_at(true, false, 100);
    control.set_pause_at(false, false, 300);
    assert_eq!(control.now_at(400), 200);
    assert_eq!(control.now_at(200), 100);
    control.set_pause_at(true, false, 250);
    assert_eq!(control.now_at(999), 100);
    let first = control.now();
    let second = control.now();
    assert!(second >= first);
}
