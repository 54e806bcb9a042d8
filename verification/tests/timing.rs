use waywall::timing::{Rational, Timing, DROP_THRESHOLD_US, NO_PTS_VALUE};

fn started(num: i32, den: i32, now: u64) -> Timing {
    let mut t = Timing::new(0);
    t.configure(Rational { num, den });
    t.start_once(now);
    t
}

#[test]
fn a_frame_waits_until_its_time() {
    let t = started(1, 30, 1_000);
    assert!(t.can_time(3, 1_000));
    assert_eq!(t.get_delay(3, 1_000), 100_000);
    assert_eq!(t.get_delay(3, 61_000), 40_000);
    assert_eq!(t.get_delay(3, 101_000), 0);
}

#[test]
fn times_are_rounded_to_the_nearest_microsecond() {
    let t = started(1, 3, 0);
    assert_eq!(t.get_delay(1, 0), 333_333);
    assert_eq!(t.get_delay(2, 0), 666_667);
    let halves = started(1, 2_000_000, 0);
    assert_eq!(halves.get_delay(1, 0), 1);
}

#[test]
fn late_frames_are_dropped_beyond_the_threshold() {
    let t = started(1, 1, 0);
    let due = 1_000_000u64;
    let limit = DROP_THRESHOLD_US as u64;
    assert_eq!(t.get_delay(1, due + limit), 0);
    assert_eq!(t.get_delay(1, due + limit + 1), -1);
    assert_eq!(t.get_delay(1, due + limit + 1_000_000), -1);
}

#[test]
fn the_threshold_outlives_every_event() {
    let mut t = Timing::new(9);
    t.configure(Rational { num: 1, den: 1 });
    t.start_once(0);
    t.update(500, 1);
    t.update(1, 2_000_000);
    t.restart(0);
    let t = t.copy();
    assert_eq!(t.get_delay(1, 1_050_000), 0);
    assert_eq!(t.get_delay(1, 1_050_001), -1);
}

#[test]
fn frames_without_a_time_are_due_at_once() {
    let t = started(0, 0, 0);
    assert!(t.can_time(NO_PTS_VALUE, 5));
    assert_eq!(t.get_delay(NO_PTS_VALUE, 5), 0);
    assert!(!t.can_time(1, 5));
}

#[test]
fn times_that_do_not_fit_cannot_be_told() {
    let t = started(i32::MAX, 1, 0);
    assert!(!t.can_time(i64::MAX, 0));
    assert!(t.can_time(0, 0));
}

#[test]
fn a_jump_back_starts_the_schedule_anew() {
    let mut t = started(1, 1000, 0);
    t.update(5000, 10);
    t.update(4900, 20);
    assert_eq!(t.last_pts(), 4900);
    t.update(4799, 777);
    assert_eq!(t.last_pts(), 0);
    assert_eq!(t.get_delay(0, 777), 0);
    assert_eq!(t.get_delay(1, 777), 1000);
}

#[test]
fn the_time_base_is_fixed_by_the_start() {
    let mut t = started(1, 10, 0);
    t.configure(Rational { num: 1, den: 1 });
    assert_eq!(t.get_delay(1, 0), 100_000);
    assert!(t.has_started());
    assert_eq!(t.copy().get_delay(1, 0), 100_000);
    t.restart(50);
    assert_eq!(t.get_delay(1, 50), 100_000);
}
