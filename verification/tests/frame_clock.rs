use raidillon::Time;

#[test]
fn new_clock_has_measured_nothing() {
    let t = Time::new();
    assert_eq!(t.delta_nanos(), 0);
    assert_eq!(t.total_nanos(), 0);
}

#[test]
fn first_tick_accumulates_exactly_its_delta() {
    let mut t = Time::new();
    t.tick();
    assert_eq!(t.total_nanos(), t.delta_nanos());
}

#[test]
fn total_never_decreases_across_ticks() {
    let mut t = Time::new();
    t.tick();
    let after_one = t.total_nanos();
    t.tick();
    assert!(t.total_nanos() >= after_one);
    assert!(t.total_nanos() >= t.delta_nanos());
}
