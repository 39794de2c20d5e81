use glideslope::parser::grammar::{self, lookup};
use glideslope::parser::lexer::{tokenize, Token};
use glideslope::parser::parse;
use glideslope::parser::parser::parse_tokens;
use glideslope::parser::shown::shown_number;
use glideslope::sim_core::command::Command;
use glideslope::sim_core::errors::SimError;

/// Which target a parsed command sets and the value it sets it to.
fn value(result: &Result<Command, SimError>) -> Option<(&'static str, f64)> {
    match result {
        Ok(Command::SetPitch(n)) => Some(("PITCH", n.text.parse().unwrap())),
        Ok(Command::SetBank(n)) => Some(("BANK", n.text.parse().unwrap())),
        Ok(Command::SetThrust(n)) => Some(("THRUST", n.text.parse().unwrap())),
        _ => None,
    }
}

fn message(result: Result<Command, SimError>) -> String {
    match result {
        Err(SimError::InvalidCommand(msg)) => msg,
        other => panic!("expected an invalid command, got {other:?}"),
    }
}

fn parse_words(input: &str) -> Result<Command, SimError> {
    parse_tokens(&tokenize(input))
}

#[test]
fn grammar_lookup_is_case_insensitive() {
    assert!(lookup("pitch").is_some());
    assert!(lookup("PiTcH").is_some());
}

#[test]
fn lookup_returns_none_for_unknown_command() {
    assert!(lookup("FLAPS").is_none());
}

#[test]
fn splits_on_whitespace() {
    let tokens = tokenize("PITCH 5.0");
    assert_eq!(tokens, vec![Token::Word("PITCH".into()), Token::Word("5.0".into())]);
}

#[test]
fn collapses_repeated_and_leading_whitespace() {
    let tokens = tokenize("  BANK   -10  ");
    assert_eq!(tokens, vec![Token::Word("BANK".into()), Token::Word("-10".into())]);
}

#[test]
fn empty_input_yields_no_tokens() {
    assert_eq!(tokenize("   "), Vec::new());
    assert_eq!(tokenize(""), Vec::new());
}

#[test]
fn parses_valid_pitch_command() {
    assert_eq!(value(&parse("PITCH 5")), Some(("PITCH", 5.0)));
}

#[test]
fn parses_valid_bank_command_with_negative_value() {
    assert_eq!(value(&parse("BANK -10")), Some(("BANK", -10.0)));
}

#[test]
fn parses_valid_thrust_command() {
    assert_eq!(value(&parse("THRUST 90")), Some(("THRUST", 90.0)));
}

#[test]
fn command_name_is_case_insensitive() {
    assert_eq!(value(&parse("bank -10")), Some(("BANK", -10.0)));
    assert_eq!(value(&parse("Thrust 50")), Some(("THRUST", 50.0)));
}

#[test]
fn tolerates_extra_surrounding_whitespace() {
    assert_eq!(value(&parse("   PITCH   5   ")), Some(("PITCH", 5.0)));
}

#[test]
fn rejects_unknown_command() {
    assert!(parse("FLAPS 15").is_err());
}

#[test]
fn rejects_out_of_range_value() {
    assert!(parse("THRUST 150").is_err());
}

#[test]
fn rejects_non_numeric_value() {
    assert!(parse("PITCH up").is_err());
}

#[test]
fn rejects_missing_value() {
    assert!(parse("PITCH").is_err());
}

#[test]
fn rejects_too_many_values() {
    assert!(parse("PITCH 5 10").is_err());
}

#[test]
fn rejects_empty_input() {
    assert!(parse("").is_err());
}

#[test]
fn rejects_whitespace_only_input() {
    assert!(parse("   ").is_err());
}

#[test]
fn every_grammar_command_builds_successfully() {
    assert_eq!(value(&parse_words("PITCH 0")), Some(("PITCH", 0.0)));
    assert_eq!(value(&parse_words("BANK 0")), Some(("BANK", 0.0)));
    assert_eq!(value(&parse_words("THRUST 0")), Some(("THRUST", 0.0)));
}

#[test]
fn range_boundaries_are_inclusive() {
    assert!(parse_words("THRUST 0").is_ok());
    assert!(parse_words("THRUST 100").is_ok());
    assert!(parse_words("THRUST 100.01").is_err());
    assert!(parse_words("THRUST -0.01").is_err());
}

#[test]
fn each_rejection_says_why() {
    assert_eq!(message(parse("")), "empty command");
    assert_eq!(message(parse("PITCH")), "'PITCH' expects a value, e.g. 'PITCH 5'");
    assert_eq!(message(parse("FLAPS 15")), "unknown command 'FLAPS'");
    assert_eq!(message(parse("PITCH up")), "'up' is not a number");
    assert_eq!(message(parse("THRUST 150")), "THRUST must be between 0 and 100, got 150");
    assert_eq!(message(parse("BANK -45")), "BANK must be between -30 and 30, got -45");
    assert_eq!(message(parse("PITCH 5 10")), "'PITCH' takes exactly one value");
}

#[test]
fn the_value_is_held_as_the_number_it_reads_as() {
    match parse("pitch +7.50") {
        Ok(Command::SetPitch(n)) => assert_eq!(n.text, "7.5"),
        other => panic!("unexpected {other:?}"),
    }
    assert_eq!(parse("PITCH 5"), parse("PITCH 5.0"));
    assert_eq!(parse("PITCH 5"), parse("pitch +0.5e1"));
    assert_ne!(parse("PITCH 5"), parse("PITCH 5.5"));
    for text in ["5", "-7.25", ".5", "5.", "000100.000", "1000e-1", "0.000001", "-0", "0.0", "12.345678901234", "1e-300", "-0e5"] {
        let command = parse(&format!("THRUST {text}"));
        let shown = format!("{}", text.parse::<f64>().unwrap());
        let in_range = (0.0..=100.0).contains(&text.parse::<f64>().unwrap());
        match command {
            Ok(Command::SetThrust(n)) => {
                assert!(in_range, "for {text}");
                assert_eq!(n.text, shown, "for {text}");
            }
            Err(SimError::InvalidCommand(msg)) => {
                assert!(!in_range, "for {text}");
                assert_eq!(msg, format!("THRUST must be between 0 and 100, got {shown}"), "for {text}");
            }
            other => panic!("unexpected {other:?}"),
        }
    }
}

#[test]
fn numbers_follow_the_float_literal_grammar() {
    assert_eq!(value(&parse("PITCH 1e1")), Some(("PITCH", 10.0)));
    assert_eq!(value(&parse("PITCH 1.5E+1")), Some(("PITCH", 15.0)));
    assert_eq!(value(&parse("BANK .5")), Some(("BANK", 0.5)));
    assert_eq!(value(&parse("BANK 5.")), Some(("BANK", 5.0)));
    assert_eq!(value(&parse("THRUST 000100.000")), Some(("THRUST", 100.0)));
    assert_eq!(value(&parse("THRUST 1000e-1")), Some(("THRUST", 100.0)));
    assert!(parse("PITCH 1.5e2").is_err());
    assert!(parse("PITCH inf").is_err());
    assert!(parse("PITCH -Infinity").is_err());
    assert!(parse("PITCH NaN").is_err());
    assert_eq!(message(parse("PITCH .")), "'.' is not a number");
    assert_eq!(message(parse("PITCH 1e")), "'1e' is not a number");
    assert_eq!(message(parse("PITCH --1")), "'--1' is not a number");
    assert_eq!(message(parse("PITCH 0x10")), "'0x10' is not a number");
}

#[test]
fn negative_zero_is_in_range_for_thrust() {
    assert_eq!(value(&parse("THRUST -0")), Some(("THRUST", 0.0)));
    assert!(parse("THRUST -0.0000001").is_err());
}

#[test]
fn the_help_table_lists_each_command_once_in_order() {
    let names: Vec<&str> = grammar::all().iter().map(|spec| spec.name).collect();
    assert_eq!(names, vec!["PITCH", "BANK", "THRUST"]);
    let thrust = grammar::thrust();
    assert_eq!((thrust.range.start, thrust.range.end), (0, 100));
}

#[test]
fn whole_numbers_are_accepted_exactly_inside_the_range() {
    for v in -40i64..=40 {
        let result = parse(&format!("BANK {v}"));
        if (-30..=30).contains(&v) {
            assert_eq!(value(&result), Some(("BANK", v as f64)));
        } else {
            assert_eq!(message(result), format!("BANK must be between -30 and 30, got {v}"));
        }
    }
}

#[test]
fn whitespace_only_separates_words() {
    let plain = tokenize("THRUST 40");
    assert_eq!(tokenize("\tTHRUST 40"), plain);
    assert_eq!(tokenize("THRUST 40\n"), plain);
    assert_eq!(tokenize("THRUST \u{2003}\u{A0} 40"), plain);
    assert_eq!(tokenize("THRUST40"), vec![Token::Word("THRUST40".into())]);
}

#[test]
fn values_are_accepted_when_their_nearest_double_is_in_range() {
    // Rounds to -0.0, which lies in 0..=100.
    assert_eq!(value(&parse("THRUST -1e-400")), Some(("THRUST", 0.0)));
    assert_eq!(value(&parse("THRUST -2.4703282292062327e-324")), Some(("THRUST", 0.0)));
    assert!(parse("THRUST -2.4703282292062328e-324").is_err());
    // Rounds onto the bound.
    assert_eq!(value(&parse("PITCH 15.0000000000000001")), Some(("PITCH", 15.0)));
    assert!(parse("PITCH 15.000000000000002").is_err());
    // Exactly halfway between 100 and the next double rounds to 100.
    assert!(parse("THRUST 100.00000000000000710542735760100185871124267578125").is_ok());
    assert!(parse("THRUST 100.00000000000000710542735760100185871124267578126").is_err());
    assert!(parse("BANK -30.0000000000000017763568394002504646778106689453125").is_ok());
    assert!(parse("BANK -30.00000000000000177635683940025046467781066894531251").is_err());
}

#[test]
fn lines_with_the_same_words_are_answered_alike() {
    assert_eq!(parse("bank -10"), parse("BANK -10"));
    assert_eq!(parse("   PITCH   5   "), parse("PITCH 5"));
    assert_eq!(parse("thrust\t150").is_err(), parse("THRUST 150").is_err());
}

#[test]
fn out_of_range_values_are_shown_as_the_number_they_read_as() {
    for text in [
        "150", "150.0", "+1.5e2", "0016.50", "-31.000", "1e20", "123456789012345e-3", "1e400", "-1E400",
        "nan", "-NaN", "inf", "-Infinity", "1e308", "9e308", "179769313486231e294", "179769313486232e294",
        "-0.00000000000000000000000000000179769313486232e339", "99999999999999.9e295",
    ] {
        let shown = format!("{}", text.parse::<f64>().unwrap());
        assert_eq!(
            message(parse(&format!("PITCH {text}"))),
            format!("PITCH must be between -15 and 15, got {shown}"),
            "for {text}"
        );
    }
    assert_eq!(message(parse("THRUST 150.0")), "THRUST must be between 0 and 100, got 150");
    assert_eq!(message(parse("PITCH nan")), "PITCH must be between -15 and 15, got NaN");
    assert_eq!(message(parse("PITCH 1e400")), "PITCH must be between -15 and 15, got inf");
    // Beyond fifteen significant digits the number is shown as typed.
    assert_eq!(
        message(parse("PITCH 16.0000000000000001")),
        "PITCH must be between -15 and 15, got 16.0000000000000001"
    );
}

#[test]
fn whole_numbers_are_shown_as_written() {
    for v in [-999_999_999_999_999i64, -45, -1, 0, 7, 150, 1000, 120_000, 999_999_999_999_999] {
        assert_eq!(shown_number(&v.to_string()), v.to_string());
    }
    assert_eq!(shown_number("+150"), "150");
    assert_eq!(shown_number("-0"), "-0");
    assert_eq!(shown_number("1e3"), "1000");
}
