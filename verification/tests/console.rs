use glideslope::atc::constraints::ClearanceType;
use glideslope::atc::controller::Controller;
use glideslope::checklist::Checklist;
use glideslope::console::{
    atc_lines, belongs_in_log, checklist_lines, classify, format_elapsed, help_lines, push_capped,
    echo_line, first_visible_entry, run_console_command, strip_word, CommandLine, ConsoleAction, FollowUp, Key, LOG_CAPACITY,
};
use glideslope::checklist::landing::landing_checklist;
use glideslope::sim_core::command::Command;
use glideslope::sim::simulation::SimCore;
use glideslope::sim_core::time::Duration;
use glideslope::parser::grammar;
use glideslope::sim_core::time::TICKS_PER_SECOND;
use glideslope::sim::phase::PhaseInputs;
use glideslope::sim_core::event::Event;
use std::collections::VecDeque;
use std::sync::{Arc, Mutex};

#[test]
fn strip_word_extracts_the_argument() {
    assert_eq!(strip_word("REQUEST TAXI", "REQUEST"), Some("TAXI"));
    assert_eq!(strip_word("  request   taxi  ", "REQUEST"), Some("taxi"));
}

#[test]
fn strip_word_rejects_a_word_without_an_argument() {
    assert_eq!(strip_word("REQUEST", "REQUEST"), None);
    assert_eq!(strip_word("REQUEST ", "REQUEST"), None);
}

#[test]
fn strip_word_does_not_match_a_longer_word_with_the_same_prefix() {
    // "REQUESTED FOO" must not be treated as "REQUEST"ed with argument
    // "ED FOO".
    assert_eq!(strip_word("REQUESTED FOO", "REQUEST"), None);
}

#[test]
fn strip_word_keeps_inner_spacing_and_any_whitespace_separator() {
    assert_eq!(strip_word("request\tpush back ", "REQUEST"), Some("push back"));
    assert_eq!(strip_word("REQUEST\u{3000}TAXI", "REQUEST"), Some("TAXI"));
    assert_eq!(strip_word("REQUIRE TAXI", "REQUEST"), None);
    assert_eq!(strip_word("", "REQUEST"), None);
    assert_eq!(strip_word("ÉQUEST TAXI", "REQUEST"), None);
}

#[test]
fn log_evicts_oldest_entry_once_at_capacity() {
    let mut log = VecDeque::new();
    for i in 0..LOG_CAPACITY {
        push_capped(&mut log, format!("entry {i}"));
    }
    push_capped(&mut log, "overflow".to_string());

    assert_eq!(log.len(), LOG_CAPACITY);
    assert_eq!(log.front().unwrap(), "entry 1");
    assert_eq!(log.back().unwrap(), "overflow");
}

#[test]
fn log_below_capacity_keeps_everything() {
    let mut log = VecDeque::new();
    push_capped(&mut log, "a".to_string());
    push_capped(&mut log, "b".to_string());
    assert_eq!(log, VecDeque::from(vec!["a".to_string(), "b".to_string()]));
}

#[test]
fn format_elapsed_renders_hh_mm_ss() {
    assert_eq!(format_elapsed(0), "00:00:00");
    assert_eq!(format_elapsed(TICKS_PER_SECOND as u64 * 90), "00:01:30");
    assert_eq!(format_elapsed(TICKS_PER_SECOND as u64 * 3661), "01:01:01");
}

#[test]
fn format_elapsed_drops_partial_seconds_and_grows_the_hours() {
    assert_eq!(format_elapsed(9), "00:00:00");
    assert_eq!(format_elapsed(599), "00:00:59");
    assert_eq!(format_elapsed(TICKS_PER_SECOND as u64 * 360_000), "100:00:00");
}

/// Type `text` at the prompt and press Enter; returns the submitted line.
fn submit(line: &mut CommandLine, text: &str) -> Option<String> {
    for c in text.chars() {
        assert_eq!(line.handle_key(Key::Char { c, control: false }), None);
    }
    line.handle_key(Key::Enter)
}

fn proficient(base: Duration) -> Duration {
    base
}

#[test]
fn help_command_lists_every_grammar_command() {
    let mut sim = SimCore::new();
    let joined = run(&mut sim, "help").join("\n");
    for spec in grammar::all() {
        assert!(joined.contains(spec.name), "HELP output should mention {}", spec.name);
    }
}

#[test]
fn help_lines_align_the_command_table() {
    let lines = help_lines();
    assert_eq!(lines[0], "Commands:");
    assert_eq!(
        lines[1],
        "  PITCH      -15..15     target pitch angle, degrees nose up (negative = nose down)"
    );
    assert_eq!(lines[2], "  BANK       -30..30     target bank angle, degrees right (negative = left)");
    assert_eq!(lines[3], "  THRUST       0..100    target engine thrust, percent N1");
    assert_eq!(lines[4], "Type a command and press Enter, e.g. 'PITCH 5'.");
    assert_eq!(lines.last().unwrap(), "  REQUEST <name>  request a clearance, e.g. 'REQUEST TAXI'");
    assert_eq!(lines.len(), 13);
}

#[test]
fn checklist_command_lists_all_items() {
    let mut sim = SimCore::new();
    let joined = run(&mut sim, "checklist").join("\n");
    for name in ["Gear", "Flaps", "Spoilers", "Autobrake", "Cabin"] {
        assert!(joined.contains(name), "CHECKLIST output should mention {name}");
    }
}

#[test]
fn checklist_lines_show_each_item_and_the_status() {
    let mut checklist = Checklist::new("Landing Checklist", &["Gear", "Flaps"]);
    checklist.check_next();
    assert_eq!(
        checklist_lines(&checklist),
        vec!["Landing Checklist:", "  [x] Gear", "  [ ] Flaps"]
    );
    checklist.check_next();
    assert_eq!(
        checklist_lines(&checklist),
        vec!["Landing Checklist:", "  [x] Gear", "  [x] Flaps", "Status: COMPLETE"]
    );
}

#[test]
fn atc_command_lists_every_clearance_type() {
    let mut sim = SimCore::new();
    let joined = run(&mut sim, "atc").join("\n");
    for clearance in ClearanceType::all() {
        assert!(joined.contains(clearance.name()));
    }
}

#[test]
fn atc_lines_list_every_clearance_type() {
    let mut atc = Controller::new();
    atc.request(ClearanceType::Taxi);
    let lines = atc_lines(&atc);
    assert_eq!(lines.len(), 7);
    assert_eq!(lines[0], "ATC clearances:");
    assert_eq!(lines[1], "  PUSHBACK  not requested");
    assert_eq!(lines[2], "  TAXI      GRANTED");
    for clearance in ClearanceType::all() {
        assert!(lines.join("\n").contains(clearance.name()));
    }
}

#[test]
fn command_input_clears_after_submission() {
    let mut line = CommandLine::new();
    assert_eq!(submit(&mut line, "BANK 10"), Some("BANK 10".to_string()));
    assert!(line.input().is_empty());
}

/// Type `text` at the prompt, press Enter and let the core carry it out;
/// returns the log lines it produces.
fn run(sim: &mut SimCore, text: &str) -> Vec<String> {
    let mut line = CommandLine::new();
    let input = submit(&mut line, text).unwrap();
    assert!(line.input().is_empty());
    let reply = run_console_command(sim, &input, &proficient);
    let mut log = reply.log;
    assert_eq!(log[0], format!("> {input}"));
    let mut lines = log.split_off(1);
    match reply.follow_up {
        FollowUp::Nothing => {}
        FollowUp::ShowAirport => lines.push("<airport>".to_string()),
        FollowUp::Apply(command) => lines.push(format!("<apply {command:?}>")),
    }
    lines
}

#[test]
fn check_command_checks_off_the_next_item() {
    let mut sim = SimCore::new();
    let log = run(&mut sim, "check");
    assert!(log.iter().any(|entry| entry.contains("Gear")));
    assert_eq!(log, vec!["OK: checked 'Gear'"]);
    assert!(sim.checklist().items[0].complete);
}

#[test]
fn delegate_command_delegates_the_next_item_to_the_fo() {
    let mut sim = SimCore::new();
    let log = run(&mut sim, "delegate");
    assert!(log.iter().any(|entry| entry.contains("Gear")));
    assert_eq!(log, vec!["OK: delegated 'Gear' to FO"]);
    assert!(sim.fo_queue().executing().is_some());
    assert!(!sim.checklist().items[0].complete); // not done yet, only delegated
}

#[test]
fn request_command_grants_a_valid_clearance() {
    let mut sim = SimCore::new();
    let log = run(&mut sim, "request taxi");
    assert!(log.iter().any(|entry| entry.contains("TAXI")));
    assert_eq!(log, vec!["ATC: cleared for TAXI"]);
    assert!(sim.atc().is_granted(ClearanceType::Taxi));
}

#[test]
fn request_command_rejects_an_unknown_clearance() {
    let mut sim = SimCore::new();
    let log = run(&mut sim, "request flightlevelchange");
    assert!(log.iter().any(|entry| entry.starts_with("ERROR:")));
    assert_eq!(log, vec!["ERROR: unknown clearance 'flightlevelchange' (try ATC or HELP)"]);
    for clearance in ClearanceType::all() {
        assert!(!sim.atc().is_granted(clearance));
    }
}

#[test]
fn invalid_command_logs_an_error_and_leaves_controls_untouched() {
    let mut sim = SimCore::new();
    let log = run(&mut sim, "FLAPS 15");
    assert!(log.iter().any(|entry| entry.starts_with("ERROR:")));
    assert_eq!(log, vec!["ERROR: invalid command: unknown command 'FLAPS'"]);
    // Nothing is handed back to apply to the controls.
    assert!(!log.iter().any(|entry| entry.starts_with("<apply")));
}

#[test]
fn a_valid_command_is_handed_back_to_apply() {
    let mut sim = SimCore::new();
    let mut line = CommandLine::new();
    let input = submit(&mut line, "PITCH 5").unwrap();
    let reply = run_console_command(&mut sim, &input, &proficient);
    assert_eq!(reply.log, vec!["> PITCH 5"]);
    match reply.follow_up {
        FollowUp::Apply(Command::SetPitch(n)) => assert_eq!(n.text, "5"),
        _ => panic!("expected a pitch command"),
    }
    let reply = run_console_command(&mut sim, "airport", &proficient);
    assert_eq!(reply.log, vec!["> airport"]);
    assert!(matches!(reply.follow_up, FollowUp::ShowAirport));
}

#[test]
fn console_listings_come_through_the_console() {
    let mut sim = SimCore::new();
    assert_eq!(run(&mut sim, "HELP"), help_lines());
    assert_eq!(run(&mut sim, "checklist"), checklist_lines(&landing_checklist()));
    assert_eq!(run(&mut sim, "atc"), atc_lines(&Controller::new()));
    for _ in 0..5 {
        run(&mut sim, "check");
    }
    assert_eq!(run(&mut sim, "check"), vec!["ERROR: checklist already complete (or nothing to check)"]);
    assert_eq!(
        run(&mut sim, "delegate"),
        vec!["ERROR: nothing left to delegate (checklist complete, or every remaining item is already with the FO)"]
    );
}

#[test]
fn console_words_ignore_case_and_surrounding_space() {
    assert_eq!(classify("  Help "), ConsoleAction::Help);
    assert_eq!(classify("CHECK"), ConsoleAction::CheckItem);
    assert_eq!(classify("checklists"), ConsoleAction::Command);
    assert_eq!(classify("AIRPORT"), ConsoleAction::ShowAirport);
    assert_eq!(classify("REQUEST   Pushback "), ConsoleAction::Request("Pushback".to_string()));
    assert_eq!(classify("REQUEST"), ConsoleAction::Command);
    assert_eq!(classify("PITCH 5"), ConsoleAction::Command);
}

#[test]
fn the_prompt_edits_and_quits() {
    let mut line = CommandLine::new();
    assert_eq!(line.handle_key(Key::Enter), None);
    line.handle_key(Key::Char { c: 'a', control: false });
    line.handle_key(Key::Char { c: 'é', control: false });
    line.handle_key(Key::Char { c: 'x', control: true });
    assert_eq!(line.input(), "aéx");
    line.handle_key(Key::Backspace);
    line.handle_key(Key::Backspace);
    assert_eq!(line.input(), "a");
    line.handle_key(Key::Other);
    assert!(!line.should_quit());
    line.handle_key(Key::Char { c: 'c', control: true });
    assert!(line.should_quit());
    assert_eq!(line.input(), "a");
    let mut other = CommandLine::new();
    other.handle_key(Key::Backspace);
    assert_eq!(other.input(), "");
    other.handle_key(Key::Esc);
    assert!(other.should_quit());
}

#[test]
fn ticks_do_not_reach_the_operator_log() {
    let mut sim = SimCore::new();
    let log = Arc::new(Mutex::new(VecDeque::new()));
    let log_for_subscriber = Arc::clone(&log);
    sim.event_bus().subscribe(move |event: &Event| {
        if belongs_in_log(event) {
            push_capped(&mut log_for_subscriber.lock().unwrap(), format!("{event:?}"));
        }
    });
    let quiet = PhaseInputs {
        takeoff_thrust: false,
        above_ground_margin: false,
        within_ground_margin: true,
        at_cruise_altitude: false,
        within_landing_margin: true,
        go_around_gain_reached: false,
    };
    for _ in 0..50 {
        sim.tick(&quiet, &proficient);
    }
    let log = log.lock().unwrap();
    assert!(log.iter().all(|entry| !entry.contains("Tick")));
    assert_eq!(log.iter().cloned().collect::<Vec<_>>(), vec!["SimulationStarted".to_string()]);
}

#[test]
fn the_log_window_shows_the_newest_entries_that_fit() {
    assert_eq!(first_visible_entry(50, 21), 31);
    assert_eq!(first_visible_entry(1, 21), 0);
    assert_eq!(first_visible_entry(5, 1), 5);
    assert_eq!(first_visible_entry(0, 3), 0);
}

#[test]
fn submitted_line_is_echoed_before_its_answer() {
    let mut sim = SimCore::new();
    let mut line = CommandLine::new();
    let input = submit(&mut line, "FLAPS 15").unwrap();
    let reply = run_console_command(&mut sim, &input, &proficient);
    assert_eq!(reply.log, vec!["> FLAPS 15", "ERROR: invalid command: unknown command 'FLAPS'"]);
    assert!(matches!(reply.follow_up, FollowUp::Nothing));
    let input = submit(&mut line, "request taxi").unwrap();
    let reply = run_console_command(&mut sim, &input, &proficient);
    assert_eq!(reply.log, vec!["> request taxi", "ATC: cleared for TAXI"]);
    assert!(matches!(reply.follow_up, FollowUp::Nothing));
    assert!(sim.atc().is_granted(ClearanceType::Taxi));
    assert_eq!(echo_line("check"), "> check");
}
