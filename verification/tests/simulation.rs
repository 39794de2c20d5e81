use glideslope::atc::constraints::ClearanceType;
use glideslope::atc::controller::ClearanceState;
use glideslope::crew::task::TaskSource;
use glideslope::sim::phase::{FlightPhase, PhaseInputs};
use glideslope::sim::simulation::SimCore;
use glideslope::sim_core::errors::SimError;
use glideslope::sim_core::event::Event;
use glideslope::sim_core::time::{tick_duration, Duration};
use std::sync::{Arc, Mutex};

const QUIET: PhaseInputs = PhaseInputs {
    takeoff_thrust: false,
    above_ground_margin: false,
    within_ground_margin: true,
    at_cruise_altitude: false,
    within_landing_margin: true,
    go_around_gain_reached: false,
};

/// A proficient FO: tasks take exactly their base duration.
fn proficient(base: Duration) -> Duration {
    base
}

#[test]
fn tick_advances_clock_and_publishes_event() {
    let mut sim = SimCore::new();
    let ticks_seen = Arc::new(Mutex::new(0));
    let ticks_seen_clone = Arc::clone(&ticks_seen);

    sim.event_bus().subscribe(move |event: &Event| {
        if let Event::Tick { .. } = event {
            *ticks_seen_clone.lock().unwrap() += 1;
        }
    });

    sim.tick(&QUIET, &proficient);
    sim.tick(&QUIET, &proficient);
    sim.tick(&QUIET, &proficient);

    assert_eq!(sim.clock().tick_count(), 3);
    assert_eq!(*ticks_seen.lock().unwrap(), 3);
}

#[test]
fn simulation_started_fires_exactly_once() {
    let mut sim = SimCore::new();
    let starts = Arc::new(Mutex::new(0));
    let starts_clone = Arc::clone(&starts);

    sim.event_bus().subscribe(move |event: &Event| {
        if let Event::SimulationStarted = event {
            *starts_clone.lock().unwrap() += 1;
        }
    });

    sim.tick(&QUIET, &proficient);
    sim.tick(&QUIET, &proficient);
    sim.tick(&QUIET, &proficient);

    assert_eq!(*starts.lock().unwrap(), 1);
}

#[test]
fn advance_runs_whole_ticks_worth_of_elapsed_time() {
    let mut sim = SimCore::new();
    let elapsed = tick_duration()
        .checked_mul(3)
        .unwrap()
        .checked_add(tick_duration().checked_div(2).unwrap())
        .unwrap();
    sim.add_elapsed(elapsed);
    while sim.take_tick() {
        sim.tick(&QUIET, &proficient);
    }
    // 3 full ticks consumed; half a tick remains in the accumulator.
    assert_eq!(sim.clock().tick_count(), 3);
    assert_eq!(sim.accumulated(), Duration::from_millis(50));
}

#[test]
fn events_arrive_in_order_with_the_tick_time() {
    let mut sim = SimCore::new();
    let seen = Arc::new(Mutex::new(Vec::new()));
    let seen_clone = Arc::clone(&seen);
    sim.event_bus().subscribe(move |event: &Event| seen_clone.lock().unwrap().push(*event));

    sim.tick(&QUIET, &proficient);
    sim.tick(&QUIET, &proficient);
    sim.stop();

    let seen = seen.lock().unwrap();
    let described: Vec<String> = seen.iter().map(|e| format!("{e:?}")).collect();
    assert_eq!(
        described,
        vec![
            "SimulationStarted".to_string(),
            "Tick { at: SimTime { ticks: 1 } }".to_string(),
            "Tick { at: SimTime { ticks: 2 } }".to_string(),
            "SimulationStopped { at: SimTime { ticks: 2 } }".to_string(),
        ]
    );
}

#[test]
fn a_new_flight_is_parked_with_an_untouched_checklist() {
    let sim = SimCore::new();
    assert_eq!(sim.phase(), FlightPhase::Ground);
    assert_eq!(sim.clock().tick_count(), 0);
    assert_eq!(sim.checklist().name, "Landing Checklist");
    assert!(sim.checklist().items.iter().all(|item| !item.complete));
    assert!(sim.fo_queue().executing().is_none());
    for clearance in ClearanceType::all() {
        assert_eq!(sim.atc().state(clearance), ClearanceState::NotRequested);
    }
}

#[test]
fn checking_an_item_yourself_takes_effect_at_once() {
    let mut sim = SimCore::new();
    assert_eq!(sim.check_next_checklist_item(), Some("Gear".to_string()));
    assert!(sim.checklist().items[0].complete);
    assert_eq!(sim.check_next_checklist_item(), Some("Flaps".to_string()));
    for _ in 0..3 {
        sim.check_next_checklist_item();
    }
    assert_eq!(sim.check_next_checklist_item(), None);
    assert!(sim.checklist().is_complete());
}

#[test]
fn delegating_hands_each_item_to_the_fo_once() {
    let mut sim = SimCore::new();
    let names: Vec<Option<String>> =
        (0..6).map(|_| sim.delegate_next_checklist_item(&proficient)).collect();
    assert_eq!(
        names,
        vec![
            Some("Gear".to_string()),
            Some("Flaps".to_string()),
            Some("Spoilers".to_string()),
            Some("Autobrake".to_string()),
            Some("Cabin".to_string()),
            None,
        ]
    );
    let executing = sim.fo_queue().executing().unwrap();
    assert_eq!(executing.task.source, TaskSource::ChecklistItem(0));
    assert_eq!(executing.task.description, "Gear");
    assert_eq!(executing.remaining, Duration::from_secs(3));
    assert_eq!(sim.fo_queue().pending().len(), 4);
    assert!(!sim.checklist().items[0].complete); // only delegated so far
}

#[test]
fn the_fo_checks_an_item_off_when_its_task_completes() {
    let mut sim = SimCore::new();
    sim.delegate_next_checklist_item(&proficient);
    sim.delegate_next_checklist_item(&proficient);
    for _ in 0..29 {
        sim.tick(&QUIET, &proficient);
    }
    assert!(!sim.checklist().items[0].complete);
    sim.tick(&QUIET, &proficient);
    assert!(sim.checklist().items[0].complete);
    assert!(!sim.checklist().items[1].complete);
    assert_eq!(sim.fo_queue().executing().unwrap().task.description, "Flaps");
    for _ in 0..30 {
        sim.tick(&QUIET, &proficient);
    }
    assert!(sim.checklist().items[1].complete);
    assert!(sim.fo_queue().executing().is_none());
}

#[test]
fn an_item_checked_by_hand_is_not_delegated_again() {
    let mut sim = SimCore::new();
    sim.check_next_checklist_item();
    assert_eq!(sim.delegate_next_checklist_item(&proficient), Some("Flaps".to_string()));
    assert_eq!(sim.check_next_checklist_item(), Some("Flaps".to_string()));
    assert_eq!(sim.delegate_next_checklist_item(&proficient), Some("Spoilers".to_string()));
}

#[test]
fn clearances_drive_the_phase_on_the_next_tick() {
    let mut sim = SimCore::new();
    assert_eq!(sim.tick(&QUIET, &proficient), None);
    assert_eq!(sim.request_clearance(ClearanceType::Taxi), ClearanceState::Granted);
    assert_eq!(sim.tick(&QUIET, &proficient), Some(FlightPhase::Taxi));
    assert_eq!(sim.phase(), FlightPhase::Taxi);
    assert!(sim.atc().is_granted(ClearanceType::Taxi));
}

#[test]
fn commands_rejected_by_the_phase_say_why() {
    let mut sim = SimCore::new();
    assert_eq!(
        sim.go_around(),
        Err(SimError::PhaseTransitionRejected(
            "go-around only makes sense during approach or landing, currently GROUND".to_string()
        ))
    );
    assert_eq!(
        sim.shutdown(),
        Err(SimError::PhaseTransitionRejected(
            "nothing to shut down -- currently GROUND, not taxied to gate".to_string()
        ))
    );
    assert_eq!(sim.phase(), FlightPhase::Ground);
}
