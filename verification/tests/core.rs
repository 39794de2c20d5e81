use glideslope::sim_core::event::Event;
use glideslope::sim_core::event_bus::EventBus;
use glideslope::sim_core::ids::{IdGenerator, SensorId, TaskId};
use glideslope::sim_core::tick::FixedTimestep;
use glideslope::sim_core::time::{tick_duration, Duration, SimClock, SimTime, MAX_NANOS, TICKS_PER_SECOND};
use std::sync::{Arc, Mutex};

#[test]
fn tick_event_carries_the_time_it_fired_at() {
    let event = Event::Tick { at: SimTime::from_ticks(42) };
    match event {
        Event::Tick { at } => assert_eq!(at.ticks(), 42),
        _ => panic!("expected Tick"),
    }
}

#[test]
fn subscribers_receive_published_events() {
    let mut bus = EventBus::new();
    let received = Arc::new(Mutex::new(Vec::new()));

    let received_clone = Arc::clone(&received);
    bus.subscribe(move |event: &Event| {
        received_clone.lock().unwrap().push(format!("{:?}", event));
    });

    bus.publish(Event::Tick { at: SimTime::from_ticks(1) });
    bus.publish(Event::SimulationStopped { at: SimTime::from_ticks(2) });

    let received = received.lock().unwrap();
    assert_eq!(received.len(), 2);
}

#[test]
fn multiple_subscribers_all_receive_the_same_event() {
    let mut bus = EventBus::new();
    let count = Arc::new(Mutex::new(0));

    for _ in 0..3 {
        let count = Arc::clone(&count);
        bus.subscribe(move |_event: &Event| {
            *count.lock().unwrap() += 1;
        });
    }

    bus.publish(Event::SimulationStarted);
    assert_eq!(*count.lock().unwrap(), 3);
}

#[test]
fn publishing_with_no_subscribers_does_not_panic() {
    let bus = EventBus::new();
    bus.publish(Event::SimulationStarted);
}

#[test]
fn subscribers_are_called_in_subscription_order_with_the_published_event() {
    let mut bus = EventBus::new();
    let seen = Arc::new(Mutex::new(Vec::new()));
    for tag in ["first", "second"] {
        let seen = Arc::clone(&seen);
        bus.subscribe(move |event: &Event| {
            seen.lock().unwrap().push((tag, *event));
        });
    }
    assert_eq!(bus.subscriber_count(), 2);
    bus.publish(Event::SimulationStopped { at: SimTime::from_ticks(7) });
    let seen = seen.lock().unwrap();
    assert_eq!(
        *seen,
        vec![
            ("first", Event::SimulationStopped { at: SimTime::from_ticks(7) }),
            ("second", Event::SimulationStopped { at: SimTime::from_ticks(7) }),
        ]
    );
}

#[test]
fn ids_increment() {
    let mut gen = IdGenerator::new();
    assert_eq!(gen.next(), 0);
    assert_eq!(gen.next(), 1);
    assert_eq!(gen.next(), 2);
}

#[test]
fn typed_ids_are_distinct_types() {
    let sensor = SensorId(1);
    let task = TaskId(1);
    // Same underlying value, different types.
    assert_eq!(sensor.0, task.0);
}

#[test]
fn no_ticks_before_one_tick_duration_elapses() {
    let mut fts = FixedTimestep::new();
    fts.advance(tick_duration().checked_div(2).unwrap());
    assert!(!fts.step());
}

#[test]
fn one_tick_duration_yields_exactly_one_tick() {
    let mut fts = FixedTimestep::new();
    fts.advance(tick_duration());
    assert!(fts.step());
    assert!(!fts.step());
}

#[test]
fn a_long_stall_yields_multiple_ticks_not_one() {
    let mut fts = FixedTimestep::new();
    fts.advance(tick_duration().checked_mul(5).unwrap());
    let mut count = 0;
    while fts.step() {
        count += 1;
    }
    assert_eq!(count, 5);
}

#[test]
fn leftover_time_stays_in_the_accumulator() {
    let mut fts = FixedTimestep::new();
    fts.advance(Duration::from_millis(250));
    assert!(fts.step());
    assert!(fts.step());
    assert!(!fts.step());
    assert_eq!(fts.accumulator(), Duration::from_millis(50));
    fts.advance(Duration::from_millis(50));
    assert!(fts.step());
    assert_eq!(fts.accumulator(), Duration::zero());
}

#[test]
fn clock_starts_at_zero_and_ticks_by_one() {
    let mut clock = SimClock::new();
    assert_eq!(clock.tick_count(), 0);
    clock.tick();
    clock.tick();
    assert_eq!(clock.tick_count(), 2);
}

#[test]
fn advance_accumulates_ticks() {
    let mut t = SimTime::zero();
    t.advance(5);
    t.advance(3);
    assert_eq!(t.ticks(), 8);
}

#[test]
fn duration_matches_tick_rate() {
    let t = SimTime::from_ticks(TICKS_PER_SECOND as u64);
    assert_eq!(t.as_duration(), Duration::from_secs(1));
}

#[test]
fn a_tick_is_a_tenth_of_a_second() {
    assert_eq!(tick_duration(), Duration::from_millis(100));
    assert_eq!(tick_duration().as_nanos(), 100_000_000);
    assert_eq!(SimTime::from_ticks(25).as_duration(), Duration::from_millis(2500));
}

#[test]
fn duration_arithmetic_reports_overflow() {
    let longest = Duration { nanos: MAX_NANOS };
    assert_eq!(longest.checked_add(Duration::from_nanos(1)), None);
    assert_eq!(longest.checked_add(Duration::zero()), Some(longest));
    assert_eq!(
        Duration::from_nanos(u64::MAX).checked_add(Duration::from_nanos(1)),
        Some(Duration { nanos: 18_446_744_073_709_551_616 })
    );
    assert_eq!(Duration::from_secs(u64::MAX).as_secs(), u64::MAX);
    assert_eq!(longest.as_secs(), u64::MAX);
    assert_eq!(Duration::from_secs(u64::MAX).checked_mul(2), None);
    assert_eq!(Duration::from_secs(3).checked_mul(4), Some(Duration::from_secs(12)));
    assert_eq!(Duration::from_millis(u64::MAX).as_nanos(), u64::MAX as u128 * 1_000_000);
    assert_eq!(Duration::from_secs(1).checked_div(0), None);
    assert_eq!(Duration::from_secs(90).as_secs(), 90);
}

#[test]
fn a_new_subscriber_sees_only_later_events() {
    let mut bus = EventBus::new();
    let early = Arc::new(Mutex::new(Vec::new()));
    let early_clone = Arc::clone(&early);
    bus.subscribe(move |event: &Event| early_clone.lock().unwrap().push(*event));
    bus.publish(Event::SimulationStarted);
    let late = Arc::new(Mutex::new(Vec::new()));
    let late_clone = Arc::clone(&late);
    bus.subscribe(move |event: &Event| late_clone.lock().unwrap().push(*event));
    bus.publish(Event::Tick { at: SimTime::from_ticks(1) });
    assert_eq!(*early.lock().unwrap(), vec![Event::SimulationStarted, Event::Tick { at: SimTime::from_ticks(1) }]);
    assert_eq!(*late.lock().unwrap(), vec![Event::Tick { at: SimTime::from_ticks(1) }]);
}
