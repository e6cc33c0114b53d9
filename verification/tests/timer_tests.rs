use shmup_core::timer::CooldownTimer;

#[test]
fn fresh_timer_with_positive_duration_is_not_finished() {
    let t = CooldownTimer::new(300);
    assert!(!t.finished());
    assert_eq!(t.duration_ms, 300);
    assert_eq!(t.elapsed_ms, 0);
}

#[test]
fn timer_finishes_once_summed_deltas_reach_duration() {
    let mut t = CooldownTimer::new(300);
    t.tick(100);
    assert!(!t.finished());
    t.tick(100);
    assert!(!t.finished());
    t.tick(100);
    assert!(t.finished());
}

#[test]
fn timer_finishes_exactly_at_duration_boundary() {
    let mut t = CooldownTimer::new(300);
    t.tick(299);
    assert!(!t.finished());
    t.tick(1);
    assert!(t.finished());
}

#[test]
fn finished_timer_stays_finished_without_reset() {
    let mut t = CooldownTimer::new(10);
    t.tick(10);
    assert!(t.finished());
    t.tick(0);
    assert!(t.finished());
    t.tick(1000);
    assert!(t.finished());
}

#[test]
fn reset_makes_timer_unfinished_again() {
    let mut t = CooldownTimer::new(300);
    t.tick(500);
    assert!(t.finished());
    t.reset();
    assert!(!t.finished());
    assert_eq!(t.elapsed_ms, 0);
    assert_eq!(t.duration_ms, 300);
}

#[test]
fn tick_saturates_instead_of_overflowing() {
    let mut t = CooldownTimer::new(u64::MAX);
    t.tick(u64::MAX - 1);
    assert!(!t.finished());
    t.tick(u64::MAX);
    assert_eq!(t.elapsed_ms, u64::MAX);
    assert!(t.finished());
}

#[test]
fn zero_duration_timer_is_born_finished() {
    let t = CooldownTimer::new(0);
    assert!(t.finished());
}
