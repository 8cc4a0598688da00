use engine::timer::Timer;

const MS: u128 = 1_000_000;

#[test]
fn timer_is_done_once_the_interval_has_accumulated() {
    let mut t = Timer::new(100 * MS);
    assert!(!t.done);
    t.update(40 * MS);
    t.update(40 * MS);
    assert!(!t.done);
    assert_eq!(t.accumulated, 80 * MS);
    t.update(25 * MS);
    assert!(t.done);
    assert_eq!(t.accumulated, 105 * MS);
    t.restart();
    assert!(!t.done);
    assert_eq!(t.accumulated, 0);
    assert_eq!(t.interval, 100 * MS);
}

#[test]
fn timer_is_done_exactly_at_the_interval() {
    let mut t = Timer::new(50);
    t.update(49);
    assert!(!t.done);
    t.update(1);
    assert!(t.done);
}

#[test]
fn timer_keeps_its_overshoot_until_restart() {
    let mut t = Timer::new(10);
    t.update(35);
    t.update(5);
    assert!(t.done);
    assert_eq!(t.accumulated, 40);
}

#[test]
fn force_makes_the_timer_done_whatever_has_accumulated() {
    let mut t = Timer::new(100 * MS);
    t.force();
    assert!(t.done);
    assert_eq!(t.accumulated, 0);
    t.update(3);
    assert!(t.done);
    assert_eq!(t.accumulated, 3);
    t.restart();
    assert_eq!(t, Timer { interval: 100 * MS, accumulated: 0, done: false });
}

#[test]
fn timer_with_no_interval_is_done_at_the_first_update() {
    let mut t = Timer::new(0);
    assert!(!t.done);
    t.update(0);
    assert!(t.done);
}

#[test]
fn accumulated_time_stops_at_the_largest_span() {
    let mut t = Timer::new(u128::MAX);
    t.update(u128::MAX - 1);
    assert!(!t.done);
    t.update(5);
    assert_eq!(t.accumulated, u128::MAX);
    assert!(t.done);
}

#[test]
fn one_update_or_two_make_no_difference() {
    let mut once = Timer::new(90);
    once.update(100);
    let mut twice = Timer::new(90);
    twice.update(30);
    twice.update(70);
    assert_eq!(once, twice);
    assert!(once.done);
}
