use dogfight::timer::Timer;

#[test]
fn expiry_finishes_exactly_on_the_fourth_tick() {
    let mut t = Timer::new(2000, false);
    t.tick(500);
    assert!(!t.finished());
    t.tick(500);
    assert!(!t.finished());
    t.tick(500);
    assert!(!t.finished());
    t.tick(500);
    assert!(t.finished());
}

#[test]
fn one_shot_timer_stays_finished_and_caps_elapsed() {
    let mut t = Timer::new(300, false);
    t.tick(1000);
    assert!(t.finished());
    assert_eq!(t.elapsed, 300);
    t.tick(10);
    assert!(t.finished());
    assert_eq!(t.elapsed, 300);
}

#[test]
fn zero_duration_timer_finishes_on_first_tick() {
    let mut t = Timer::new(0, false);
    assert!(!t.finished());
    t.tick(0);
    assert!(t.finished());
}

#[test]
fn repeating_timer_wraps_and_reports_only_crossing_ticks() {
    let mut t = Timer::new(100, true);
    t.tick(250);
    assert!(t.finished());
    assert_eq!(t.elapsed, 50);
    t.tick(30);
    assert!(!t.finished());
    assert_eq!(t.elapsed, 80);
    t.tick(20);
    assert!(t.finished());
    assert_eq!(t.elapsed, 0);
}

#[test]
fn reset_and_set_duration() {
    let mut t = Timer::new(100, false);
    t.tick(100);
    assert!(t.finished());
    t.set_duration(500);
    t.reset();
    assert!(!t.finished());
    assert_eq!(t.elapsed, 0);
    assert_eq!(t.duration, 500);
    t.tick(499);
    assert!(!t.finished());
    t.tick(1);
    assert!(t.finished());
}
