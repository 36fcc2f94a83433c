use bus_monitor::bus::Servers;
use bus_monitor::monitor::{get_remaining_tick_time, App, EventKind, TICK_CAPACITY};

fn fresh_app() -> App {
    App::new(Servers::new(Vec::new()).unwrap())
}

const ALL_KINDS: [EventKind; 11] = [
    EventKind::Mouse,
    EventKind::Keyboard,
    EventKind::Focus,
    EventKind::Window,
    EventKind::Document,
    EventKind::Object,
    EventKind::Terminal,
    EventKind::Cache,
    EventKind::Listener,
    EventKind::Available,
    EventKind::Other,
];

#[test]
fn one_event_per_category_plus_one_error() {
    let mut app = fresh_app();
    for kind in ALL_KINDS {
        app.on_event(Ok(kind));
    }
    app.on_event(Err("malformed frame".to_owned()));

    assert_eq!(app.tally.mouse.load(), 1);
    assert_eq!(app.tally.keyboard.load(), 1);
    assert_eq!(app.tally.focus.load(), 1);
    assert_eq!(app.tally.window.load(), 1);
    assert_eq!(app.tally.document.load(), 1);
    assert_eq!(app.tally.object.load(), 1);
    assert_eq!(app.tally.terminal.load(), 1);
    assert_eq!(app.tally.cache.load(), 1);
    assert_eq!(app.tally.listeners.load(), 1);
    assert_eq!(app.tally.available.load(), 1);
    assert_eq!(app.tally.other_event.load(), 1);
    assert_eq!(app.tally.error.load(), 1);
    assert_eq!(app.tally.total.load(), ALL_KINDS.len() as u64 + 1);
    assert_eq!(app.error_set.len(), 1);
    assert_eq!(app.error_set[0], "malformed frame");
}

#[test]
fn error_texts_are_deduplicated_by_value() {
    let mut app = fresh_app();
    app.on_event(Err("boom".to_owned()));
    app.on_event(Err("boom".to_owned()));
    app.on_event(Err("other".to_owned()));
    assert_eq!(app.tally.error.load(), 3);
    assert_eq!(app.error_set.len(), 2);
    assert_eq!(app.error_set[0], "boom");
    assert_eq!(app.error_set[1], "other");
}

#[test]
fn tick_moves_the_counter_into_the_front_of_the_history() {
    let mut app = fresh_app();
    app.on_event(Ok(EventKind::Mouse));
    app.on_event(Ok(EventKind::Focus));
    assert_eq!(app.tally.tick_counter.load(), 2);
    app.on_tick();
    assert_eq!(app.tally.tick_counter.load(), 0);
    assert_eq!(app.tick_data.len(), TICK_CAPACITY);
    assert_eq!(app.tick_data[0], 2);
    // The lifetime total is not reset by the tick.
    assert_eq!(app.tally.total.load(), 2);
}

#[test]
fn tick_history_never_exceeds_capacity_and_drops_the_oldest() {
    let mut app = fresh_app();
    let first: u64 = 1_000;
    for offset in 0..(TICK_CAPACITY as u64 + 1) {
        app.tally.tick_counter.set(first + offset);
        app.on_tick();
        assert_eq!(app.tick_data.len(), TICK_CAPACITY);
    }
    // Newest at the front, and the very first pushed value is gone again.
    assert_eq!(app.tick_data[0], first + TICK_CAPACITY as u64);
    assert!(!app.tick_data.contains(&first));
    assert_eq!(app.tick_data[TICK_CAPACITY - 1], first + 1);
}

#[test]
fn seconds_update_rate_peak_mean_and_history() {
    let mut app = fresh_app();
    app.tally.secs_counter.set(10);
    app.on_second();
    assert_eq!(app.tally.secs_counter.load(), 0);
    assert_eq!(app.rt_stats.rate.load(), 10);
    assert_eq!(app.rt_stats.max.load(), 10);
    assert_eq!(app.rt_stats.mean.load(), 10);
    assert_eq!(app.secs_data, vec![10]);

    app.tally.secs_counter.set(4);
    app.on_second();
    assert_eq!(app.rt_stats.rate.load(), 4);
    assert_eq!(app.rt_stats.max.load(), 10);
    // Lifetime total 14 over 2 seconds.
    assert_eq!(app.rt_stats.mean.load(), 7);
    assert_eq!(app.secs_data, vec![10, 4]);
}

#[test]
fn remaining_tick_time_saturates_at_zero() {
    assert_eq!(get_remaining_tick_time(100, 30), 70);
    assert_eq!(get_remaining_tick_time(100, 100), 0);
    assert_eq!(get_remaining_tick_time(100, 250), 0);
}
