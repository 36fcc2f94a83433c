use bus_monitor::counter::Counter;

#[test]
fn fresh_counter_is_zero() {
    let c = Counter::new();
    assert_eq!(c.load(), 0);
}

#[test]
fn incr_counts_by_one() {
    let mut c = Counter::new();
    c.incr();
    c.incr();
    c.incr();
    assert_eq!(c.load(), 3);
}

#[test]
fn add_returns_previous_value() {
    let mut c = Counter::new();
    assert_eq!(c.add(10), 0);
    assert_eq!(c.add(5), 10);
    assert_eq!(c.load(), 15);
}

#[test]
fn reset_returns_accumulated_and_leaves_zero() {
    let mut c = Counter::new();
    c.incr();
    c.add(41);
    let prev = c.reset();
    assert_eq!(prev, 42);
    assert_eq!(c.load(), 0);
    // A second reset finds nothing new.
    assert_eq!(c.reset(), 0);
    assert_eq!(c.load(), 0);
}

#[test]
fn set_returns_previous_value() {
    let mut c = Counter::new();
    c.set(7);
    assert_eq!(c.set(9), 7);
    assert_eq!(c.load(), 9);
}

#[test]
fn incr_wraps_like_a_register() {
    let mut c = Counter::new();
    c.set(u64::MAX);
    c.incr();
    assert_eq!(c.load(), 0);
}

#[test]
fn add_wraps_like_a_register() {
    let mut c = Counter::new();
    c.set(u64::MAX - 2);
    assert_eq!(c.add(5), u64::MAX - 2);
    assert_eq!(c.load(), 2);
}
