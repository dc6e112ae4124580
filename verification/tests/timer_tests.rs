use gameplay_core::timer::Timer;

#[test]
fn new_timer_starts_fresh() {
    let t = Timer::new(1000, false);
    assert_eq!(t.duration, 1000);
    assert_eq!(t.elapsed, 0);
    assert!(!t.repeat);
    assert!(!t.completed());
    assert!(!t.just_completed());
}

#[test]
fn update_accumulates_below_duration() {
    let mut t = Timer::new(1000, false);
    t.update(400);
    assert_eq!(t.elapsed, 400);
    assert!(!t.completed());
    assert!(!t.just_completed());
    t.update(599);
    assert_eq!(t.elapsed, 999);
    assert!(!t.completed());
}

#[test]
fn crossing_the_threshold_sets_just_completed_once() {
    let mut t = Timer::new(1000, false);
    t.update(999);
    assert!(!t.just_completed());
    t.update(1);
    assert!(t.completed());
    assert!(t.just_completed());
    t.update(50);
    assert!(t.completed());
    assert!(!t.just_completed(), "only the crossing update reports it");
}

#[test]
fn one_shot_timer_stays_completed_until_reset() {
    let mut t = Timer::new(100, false);
    t.update(250);
    assert!(t.completed());
    assert_eq!(t.elapsed, 250);
    t.reset();
    assert_eq!(t.elapsed, 0);
    assert!(!t.completed());
    assert!(!t.just_completed());
}

#[test]
fn repeating_timer_wraps_modulo_duration() {
    let mut t = Timer::new(100, true);
    t.update(250);
    assert_eq!(t.elapsed, 50, "250 mod 100");
    assert!(!t.completed(), "a wrapped repeater is running again");
    assert!(t.just_completed(), "it did cross this update");
    t.update(49);
    assert_eq!(t.elapsed, 99);
    assert!(!t.just_completed());
    t.update(1);
    assert_eq!(t.elapsed, 0);
    assert!(t.just_completed());
}

#[test]
fn zero_duration_timer_is_always_completed() {
    let mut t = Timer::new(0, false);
    assert!(t.completed());
    t.update(5);
    assert!(t.completed());
    assert!(!t.just_completed());
    assert_eq!(t.progress_permille(), 1000);
}

#[test]
fn progress_is_clamped_thousandths() {
    let mut t = Timer::new(1000, false);
    assert_eq!(t.progress_permille(), 0);
    t.update(250);
    assert_eq!(t.progress_permille(), 250);
    t.update(250);
    assert_eq!(t.progress_permille(), 500);
    t.update(1000);
    assert_eq!(t.progress_permille(), 1000);
}

#[test]
fn elapsed_saturates_at_the_limit_for_one_shot_timers() {
    let mut t = Timer::new(10, false);
    t.update(u64::MAX);
    assert_eq!(t.elapsed, u64::MAX);
    t.update(u64::MAX);
    assert_eq!(t.elapsed, u64::MAX);
    assert!(t.completed());
}
