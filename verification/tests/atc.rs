use glideslope::atc::constraints::ClearanceType;
use glideslope::atc::controller::{ClearanceState, Controller};

#[test]
fn constraints_lookup_is_case_insensitive() {
    assert_eq!(ClearanceType::lookup("taxi"), Some(ClearanceType::Taxi));
    assert_eq!(ClearanceType::lookup("TaKeOfF"), Some(ClearanceType::Takeoff));
}

#[test]
fn lookup_returns_none_for_unknown_clearance() {
    assert_eq!(ClearanceType::lookup("HOLD"), None);
}

#[test]
fn every_clearance_round_trips_through_its_own_name() {
    for clearance in ClearanceType::all() {
        assert_eq!(ClearanceType::lookup(clearance.name()), Some(clearance));
    }
}

#[test]
fn a_clearance_starts_not_requested() {
    let controller = Controller::new();
    assert_eq!(controller.state(ClearanceType::Taxi), ClearanceState::NotRequested);
    assert!(!controller.is_granted(ClearanceType::Taxi));
}

#[test]
fn requesting_a_clearance_grants_it() {
    let mut controller = Controller::new();
    let result = controller.request(ClearanceType::Takeoff);
    assert_eq!(result, ClearanceState::Granted);
    assert!(controller.is_granted(ClearanceType::Takeoff));
}

#[test]
fn clearances_are_tracked_independently() {
    let mut controller = Controller::new();
    controller.request(ClearanceType::Pushback);
    assert!(controller.is_granted(ClearanceType::Pushback));
    assert!(!controller.is_granted(ClearanceType::Taxi));
}

#[test]
fn clearance_names_are_the_radio_words_in_order() {
    let names: Vec<&str> = ClearanceType::all().iter().map(|c| c.name()).collect();
    assert_eq!(names, vec!["PUSHBACK", "TAXI", "TAKEOFF", "DESCEND", "APPROACH", "LANDING"]);
}

#[test]
fn lookup_needs_the_whole_name() {
    assert_eq!(ClearanceType::lookup("TAX"), None);
    assert_eq!(ClearanceType::lookup("TAXIS"), None);
    assert_eq!(ClearanceType::lookup(""), None);
    assert_eq!(ClearanceType::lookup("landing"), Some(ClearanceType::Landing));
}

#[test]
fn requesting_twice_keeps_the_clearance_granted_and_others_untouched() {
    let mut controller = Controller::new();
    controller.request(ClearanceType::Landing);
    assert_eq!(controller.request(ClearanceType::Landing), ClearanceState::Granted);
    for clearance in ClearanceType::all() {
        assert_eq!(controller.is_granted(clearance), clearance == ClearanceType::Landing);
    }
}

#[test]
fn lookup_finds_exactly_the_clearance_with_that_name() {
    for clearance in ClearanceType::all() {
        for other in ClearanceType::all() {
            let found = ClearanceType::lookup(&other.name().to_lowercase()) == Some(clearance);
            assert_eq!(found, clearance == other);
        }
    }
    assert_eq!(ClearanceType::lookup("CLEARED"), None);
}
