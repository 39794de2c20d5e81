use glideslope::atc::constraints::ClearanceType;
use glideslope::atc::controller::Controller;
use glideslope::sim::phase::{FlightPhase, PhaseInputs, PhaseTracker};

const CRUISE_ALTITUDE_FT: f64 = 3_000.0;
const GROUND_MARGIN_FT: f64 = 10.0;
const TAKEOFF_ROLL_N1_PERCENT: f64 = 50.0;
const LANDING_ALTITUDE_MARGIN_FT: f64 = 500.0;
const GO_AROUND_CLIMB_GAIN_FT: f64 = 500.0;

/// The facts the tracker reads, measured from an altitude, the runway's
/// elevation, engine N1 and, during a go-around, where it began.
fn measured(
    altitude_ft: f64,
    runway_elevation_ft: f64,
    engine_n1_percent: f64,
    go_around_started_at_ft: Option<f64>,
) -> PhaseInputs {
    PhaseInputs {
        takeoff_thrust: engine_n1_percent >= TAKEOFF_ROLL_N1_PERCENT,
        above_ground_margin: altitude_ft > runway_elevation_ft + GROUND_MARGIN_FT,
        within_ground_margin: altitude_ft <= runway_elevation_ft + GROUND_MARGIN_FT,
        at_cruise_altitude: altitude_ft >= CRUISE_ALTITUDE_FT,
        within_landing_margin: altitude_ft <= runway_elevation_ft + LANDING_ALTITUDE_MARGIN_FT,
        go_around_gain_reached: match go_around_started_at_ft {
            Some(start) => altitude_ft >= start + GO_AROUND_CLIMB_GAIN_FT,
            None => false,
        },
    }
}

fn inputs(altitude_ft: f64, runway_elevation_ft: f64, engine_n1_percent: f64) -> PhaseInputs {
    measured(altitude_ft, runway_elevation_ft, engine_n1_percent, None)
}

/// A tracker driven through the departure and arrival to Approach.
fn tracker_in_approach(elevation: f64) -> PhaseTracker {
    let mut tracker = PhaseTracker::new();
    let mut atc = Controller::new();
    for clearance in [
        ClearanceType::Taxi,
        ClearanceType::Takeoff,
        ClearanceType::Descend,
        ClearanceType::Approach,
    ] {
        atc.request(clearance);
    }
    tracker.tick(&atc, &inputs(elevation, elevation, 0.0));
    tracker.tick(&atc, &inputs(elevation, elevation, 0.0));
    tracker.tick(&atc, &inputs(elevation, elevation, 60.0));
    tracker.tick(&atc, &inputs(elevation + 50.0, elevation, 90.0));
    tracker.tick(&atc, &inputs(CRUISE_ALTITUDE_FT, elevation, 85.0));
    tracker.tick(&atc, &inputs(CRUISE_ALTITUDE_FT, elevation, 85.0));
    tracker.tick(&atc, &inputs(2_000.0, elevation, 60.0));
    assert_eq!(tracker.current(), FlightPhase::Approach);
    tracker
}

#[test]
fn starts_on_the_ground() {
    assert_eq!(PhaseTracker::new().current(), FlightPhase::Ground);
}

#[test]
fn stays_on_ground_without_a_taxi_clearance() {
    let mut tracker = PhaseTracker::new();
    let atc = Controller::new();
    assert_eq!(tracker.tick(&atc, &inputs(620.0, 620.0, 0.0)), None);
    assert_eq!(tracker.current(), FlightPhase::Ground);
}

#[test]
fn full_departure_sequence_advances_phase_by_phase() {
    let mut tracker = PhaseTracker::new();
    let mut atc = Controller::new();
    let runway_elevation = 620.0;

    // Ground -> Taxi
    atc.request(ClearanceType::Taxi);
    assert_eq!(
        tracker.tick(&atc, &inputs(runway_elevation, runway_elevation, 0.0)),
        Some(FlightPhase::Taxi)
    );

    // Taxi -> TakeoffHold
    atc.request(ClearanceType::Takeoff);
    assert_eq!(
        tracker.tick(&atc, &inputs(runway_elevation, runway_elevation, 0.0)),
        Some(FlightPhase::TakeoffHold)
    );

    // TakeoffHold -> Takeoff: needs the throttle-up too.
    assert_eq!(tracker.tick(&atc, &inputs(runway_elevation, runway_elevation, 10.0)), None);
    assert_eq!(
        tracker.tick(&atc, &inputs(runway_elevation, runway_elevation, 60.0)),
        Some(FlightPhase::Takeoff)
    );

    // Takeoff -> Climb: needs to actually leave the ground.
    assert_eq!(tracker.tick(&atc, &inputs(runway_elevation + 5.0, runway_elevation, 90.0)), None);
    assert_eq!(
        tracker.tick(&atc, &inputs(runway_elevation + 50.0, runway_elevation, 90.0)),
        Some(FlightPhase::Climb)
    );

    // Climb -> Cruise
    assert_eq!(
        tracker.tick(&atc, &inputs(CRUISE_ALTITUDE_FT, runway_elevation, 85.0)),
        Some(FlightPhase::Cruise)
    );
}

#[test]
fn cruise_to_landing_sequence_follows_atc_and_altitude() {
    let mut tracker = PhaseTracker::new();
    let mut atc = Controller::new();
    atc.request(ClearanceType::Taxi);
    atc.request(ClearanceType::Takeoff);
    let elevation = 620.0;
    tracker.tick(&atc, &inputs(elevation, elevation, 0.0)); // -> Taxi
    tracker.tick(&atc, &inputs(elevation, elevation, 0.0)); // -> TakeoffHold
    tracker.tick(&atc, &inputs(elevation, elevation, 60.0)); // -> Takeoff
    tracker.tick(&atc, &inputs(elevation + 50.0, elevation, 90.0)); // -> Climb
    tracker.tick(&atc, &inputs(CRUISE_ALTITUDE_FT, elevation, 85.0)); // -> Cruise
    assert_eq!(tracker.current(), FlightPhase::Cruise);

    // Cruise -> Descent
    atc.request(ClearanceType::Descend);
    assert_eq!(
        tracker.tick(&atc, &inputs(CRUISE_ALTITUDE_FT, elevation, 85.0)),
        Some(FlightPhase::Descent)
    );

    // Descent -> Approach
    atc.request(ClearanceType::Approach);
    assert_eq!(tracker.tick(&atc, &inputs(2_000.0, elevation, 60.0)), Some(FlightPhase::Approach));

    // Approach -> Landing needs both the clearance and low altitude.
    atc.request(ClearanceType::Landing);
    assert_eq!(tracker.tick(&atc, &inputs(2_000.0, elevation, 40.0)), None);
    assert_eq!(
        tracker.tick(&atc, &inputs(elevation + 200.0, elevation, 30.0)),
        Some(FlightPhase::Landing)
    );

    // Landing -> TaxiToGate on touchdown.
    assert_eq!(tracker.tick(&atc, &inputs(elevation, elevation, 0.0)), Some(FlightPhase::TaxiToGate));
}

#[test]
fn go_around_is_rejected_outside_approach_or_landing() {
    let mut tracker = PhaseTracker::new(); // Ground
    let result = tracker.go_around();
    assert!(result.is_err());
    assert_eq!(tracker.current(), FlightPhase::Ground);
}

#[test]
fn go_around_requires_a_real_altitude_gain_before_resolving_to_climb() {
    let elevation = 620.0;
    let mut tracker = tracker_in_approach(elevation);
    let atc = Controller::new();
    let start_altitude = elevation + 300.0;

    assert!(tracker.go_around().is_ok());
    assert_eq!(tracker.current(), FlightPhase::GoAround);

    // Barely climbed -- not enough to resolve yet.
    assert_eq!(
        tracker.tick(&atc, &measured(start_altitude + 50.0, elevation, 90.0, Some(start_altitude))),
        None
    );
    assert_eq!(tracker.current(), FlightPhase::GoAround);

    // Climbed enough now.
    assert_eq!(
        tracker.tick(
            &atc,
            &measured(start_altitude + GO_AROUND_CLIMB_GAIN_FT, elevation, 90.0, Some(start_altitude))
        ),
        Some(FlightPhase::Climb)
    );
}

#[test]
fn shutdown_is_rejected_before_taxi_to_gate() {
    let mut tracker = PhaseTracker::new();
    assert!(tracker.shutdown().is_err());
}

#[test]
fn shutdown_succeeds_from_taxi_to_gate() {
    let elevation = 620.0;
    let mut tracker = tracker_in_approach(elevation);
    let mut atc = Controller::new();
    atc.request(ClearanceType::Landing);
    tracker.tick(&atc, &inputs(elevation + 100.0, elevation, 30.0)); // -> Landing
    tracker.tick(&atc, &inputs(elevation, elevation, 0.0)); // -> TaxiToGate
    assert_eq!(tracker.current(), FlightPhase::TaxiToGate);
    assert_eq!(tracker.shutdown(), Ok(FlightPhase::Shutdown));
    assert_eq!(tracker.current(), FlightPhase::Shutdown);
}

#[test]
fn rejections_name_the_current_phase() {
    let mut tracker = PhaseTracker::new();
    assert_eq!(
        tracker.go_around(),
        Err("go-around only makes sense during approach or landing, currently GROUND".to_string())
    );
    assert_eq!(
        tracker.shutdown(),
        Err("nothing to shut down -- currently GROUND, not taxied to gate".to_string())
    );
}

#[test]
fn shutdown_is_terminal() {
    let elevation = 620.0;
    let mut tracker = tracker_in_approach(elevation);
    let mut atc = Controller::new();
    for clearance in ClearanceType::all() {
        atc.request(clearance);
    }
    tracker.tick(&atc, &inputs(elevation, elevation, 0.0)); // -> Landing
    tracker.tick(&atc, &inputs(elevation, elevation, 0.0)); // -> TaxiToGate
    assert_eq!(tracker.tick(&atc, &inputs(elevation, elevation, 0.0)), None);
    tracker.shutdown().unwrap();
    let everything = PhaseInputs {
        takeoff_thrust: true,
        above_ground_margin: true,
        within_ground_margin: true,
        at_cruise_altitude: true,
        within_landing_margin: true,
        go_around_gain_reached: true,
    };
    assert_eq!(tracker.tick(&atc, &everything), None);
    assert!(tracker.go_around().is_err());
    assert!(tracker.shutdown().is_err());
    assert_eq!(tracker.current(), FlightPhase::Shutdown);
}

#[test]
fn go_around_is_accepted_from_landing_too() {
    let elevation = 620.0;
    let mut tracker = tracker_in_approach(elevation);
    let mut atc = Controller::new();
    atc.request(ClearanceType::Landing);
    tracker.tick(&atc, &inputs(elevation + 400.0, elevation, 30.0));
    assert_eq!(tracker.current(), FlightPhase::Landing);
    assert_eq!(tracker.go_around(), Ok(FlightPhase::GoAround));
}

#[test]
fn phase_names_are_display_words() {
    assert_eq!(FlightPhase::TakeoffHold.name(), "TAKEOFF HOLD");
    assert_eq!(FlightPhase::GoAround.name(), "GO-AROUND");
    assert_eq!(FlightPhase::TaxiToGate.name(), "TAXI TO GATE");
    assert_eq!(FlightPhase::Ground.name(), "GROUND");
}
