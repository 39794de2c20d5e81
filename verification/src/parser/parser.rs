//! Turns words into a `Command`, validating against the grammar: a flat
//! `COMMAND value` shape, one argument per command.
use vstd::prelude::*;
use crate::parser::grammar::{
    self, CommandSpec, spec_lookup, pitch_spec, bank_spec, thrust_spec,
    law_command_names_ignore_case,
};
use crate::parser::lexer::{Token, token_texts, token_text, words};
use crate::parser::number::{
    check_number, is_number_literal, literal_in_range, RangeCheck, law_whole_numbers_read_exactly,
};
use crate::sim_core::command::{Command, Number};
use crate::sim_core::errors::SimError;
use crate::text::{int_text, format_i64, str_equal, eq_ignoring_ascii_case};
use crate::parser::shown::{shown_text, shown_number};

verus! {

pub open spec fn empty_message() -> Seq<char> {
    "empty command"@
}

pub open spec fn expects_value_message(name: Seq<char>) -> Seq<char> {
    "'"@ + name + "' expects a value, e.g. '"@ + name + " 5'"@
}

pub open spec fn unknown_message(name: Seq<char>) -> Seq<char> {
    "unknown command '"@ + name + "'"@
}

pub open spec fn not_a_number_message(value: Seq<char>) -> Seq<char> {
    "'"@ + value + "' is not a number"@
}

pub open spec fn out_of_range_message(spec: CommandSpec, value: Seq<char>) -> Seq<char> {
    spec.name@ + " must be between "@ + int_text(spec.range.start as int) + " and "@ + int_text(
        spec.range.end as int,
    ) + ", got "@ + value
}

pub open spec fn too_many_message(name: Seq<char>) -> Seq<char> {
    "'"@ + name + "' takes exactly one value"@
}

/// What a line of words means: the command spec and the argument text it
/// sets, or the reason it is rejected.
pub open spec fn parse_outcome(ws: Seq<Seq<char>>) -> Result<(CommandSpec, Seq<char>), Seq<char>> {
    if ws.len() == 0 {
        Err(empty_message())
    } else if ws.len() == 1 {
        Err(expects_value_message(ws[0]))
    } else if ws.len() == 2 {
        match spec_lookup(ws[0]) {
            None => Err(unknown_message(ws[0])),
            Some(spec) => if !is_number_literal(ws[1]) {
                Err(not_a_number_message(ws[1]))
            } else if !literal_in_range(
                ws[1],
                spec.range.start as int,
                spec.range.end as int,
            ) {
                Err(out_of_range_message(spec, shown_text(ws[1])))
            } else {
                Ok((spec, ws[1]))
            },
        }
    } else {
        Err(too_many_message(ws[0]))
    }
}

/// `cmd` sets the target named by `spec` to the number written `value`,
/// held as the text shown for it.
pub open spec fn command_sets(cmd: Command, spec: CommandSpec, value: Seq<char>) -> bool {
    match cmd {
        Command::SetPitch(n) => spec == pitch_spec() && n.text@ == shown_text(value),
        Command::SetBank(n) => spec == bank_spec() && n.text@ == shown_text(value),
        Command::SetThrust(n) => spec == thrust_spec() && n.text@ == shown_text(value),
        Command::Noop => false,
    }
}

/// `r` is what the command line answers to the words `ws`.
pub open spec fn parse_result_matches(r: Result<Command, SimError>, ws: Seq<Seq<char>>) -> bool {
    match (r, parse_outcome(ws)) {
        (Ok(cmd), Ok((spec, value))) => command_sets(cmd, spec, value),
        (Err(SimError::InvalidCommand(msg)), Err(expected)) => msg@ == expected,
        _ => false,
    }
}

/// A known command followed by a whole number is accepted exactly when
/// the number lies in the command's range, both ends included, and then
/// sets that command's target; outside the range it is rejected as out
/// of range.
pub proof fn law_whole_numbers_in_range_are_accepted(name: Seq<char>, v: int)
    requires
        spec_lookup(name) is Some,
    ensures
        ({
            let spec = spec_lookup(name).unwrap();
            let ws = seq![name, int_text(v)];
            &&& (spec.range.start <= v <= spec.range.end) ==> parse_outcome(ws) == Ok::<
                (CommandSpec, Seq<char>),
                Seq<char>,
            >((spec, int_text(v)))
            &&& !(spec.range.start <= v <= spec.range.end) ==> parse_outcome(ws) == Err::<
                (CommandSpec, Seq<char>),
                Seq<char>,
            >(out_of_range_message(spec, shown_text(int_text(v))))
        }),
{
    let spec = spec_lookup(name).unwrap();
    law_whole_numbers_read_exactly(v, spec.range.start as int, spec.range.end as int);
}

/// Two lines whose words agree, the command name compared ignoring ASCII
/// case, are answered alike: both accepted, setting the same target to
/// the same value, or both rejected. (A rejection's message repeats the
/// words as typed, so it may differ in letter case.) `r1` and
/// `r2` are what `parse` answered to the two lines.
pub proof fn law_same_words_same_command(
    a: Seq<char>,
    b: Seq<char>,
    r1: Result<Command, SimError>,
    r2: Result<Command, SimError>,
)
    requires
        words(a).len() == words(b).len(),
        words(a).len() > 0 ==> eq_ignoring_ascii_case(words(a)[0], words(b)[0]),
        words(a).len() > 0 ==> words(a).skip(1) == words(b).skip(1),
        parse_result_matches(r1, words(a)),
        parse_result_matches(r2, words(b)),
    ensures
        parse_outcome(words(a)) is Ok <==> parse_outcome(words(b)) is Ok,
        parse_outcome(words(a)) is Ok ==> parse_outcome(words(a)) == parse_outcome(words(b)),
        r1 is Ok <==> r2 is Ok,
        r1 is Ok ==> (parse_outcome(words(a)) matches Ok((spec, value)) && command_sets(
            r1.unwrap(),
            spec,
            value,
        ) && command_sets(r2.unwrap(), spec, value)),
{
    let w1 = words(a);
    let w2 = words(b);
    if w1.len() > 0 {
        law_command_names_ignore_case(w1[0], w2[0]);
        if w1.len() > 1 {
            assert(w1[1] == w1.skip(1)[0]);
            assert(w2[1] == w2.skip(1)[0]);
        }
    }
}

fn quoted_then(text: &str, rest: &str) -> (r: String)
    ensures
        r@ == "'"@ + text@ + rest@,
{
    let out = String::from_str("'");
    let out = out.concat(text);
    out.concat(rest)
}

fn build_command(spec: CommandSpec, value: &str) -> (r: Command)
    requires
        spec == pitch_spec() || spec == bank_spec() || spec == thrust_spec(),
    ensures
        command_sets(r, spec, value@),
{
    proof {
        reveal_strlit("PITCH");
        reveal_strlit("BANK");
        reveal_strlit("THRUST");
    }
    assert(pitch_spec().name@ == "PITCH"@);
    assert(bank_spec().name@ == "BANK"@);
    assert(thrust_spec().name@ == "THRUST"@);
    assert("BANK"@ != "PITCH"@) by {
        assert("BANK"@.len() != "PITCH"@.len());
    }
    assert("THRUST"@ != "PITCH"@) by {
        assert("THRUST"@.len() != "PITCH"@.len());
    }
    assert("THRUST"@ != "BANK"@) by {
        assert("THRUST"@.len() != "BANK"@.len());
    }
    let number = Number { text: shown_number(value) };
    if str_equal(spec.name, "PITCH") {
        Command::SetPitch(number)
    } else if str_equal(spec.name, "BANK") {
        Command::SetBank(number)
    } else {
        Command::SetThrust(number)
    }
}

fn range_message(spec: CommandSpec, value: &str) -> (r: String)
    ensures
        r@ == out_of_range_message(spec, shown_text(value@)),
{
    let shown = shown_number(value);
    let out = String::from_str(spec.name);
    let out = out.concat(" must be between ");
    let lo = format_i64(spec.range.start);
    let out = out.concat(lo.as_str());
    let out = out.concat(" and ");
    let hi = format_i64(spec.range.end);
    let out = out.concat(hi.as_str());
    let out = out.concat(", got ");
    out.concat(shown.as_str())
}

fn word_of(t: &Token) -> (r: &String)
    ensures
        r@ == token_text(*t),
{
    match t {
        Token::Word(w) => w,
    }
}

/// Match a list of words against the grammar.
pub fn parse_tokens(tokens: &[Token]) -> (r: Result<Command, SimError>)
    ensures
        parse_result_matches(r, token_texts(tokens@)),
{
    let ghost ws = token_texts(tokens@);
    let n = tokens.len();
    if n == 0 {
        return Err(SimError::InvalidCommand(String::from_str("empty command")));
    }
    let name = word_of(&tokens[0]);
    assert(name@ == ws[0]);
    if n == 1 {
        let out = quoted_then(name.as_str(), "' expects a value, e.g. '");
        let out = out.concat(name.as_str());
        let out = out.concat(" 5'");
        return Err(SimError::InvalidCommand(out));
    }
    if n > 2 {
        return Err(
            SimError::InvalidCommand(quoted_then(name.as_str(), "' takes exactly one value")),
        );
    }
    let value = word_of(&tokens[1]);
    assert(value@ == ws[1]);
    match grammar::lookup(name.as_str()) {
        None => {
            let out = String::from_str("unknown command '");
            let out = out.concat(name.as_str());
            let out = out.concat("'");
            Err(SimError::InvalidCommand(out))
        },
        Some(spec) => {
            match check_number(value.as_str(), spec.range.start, spec.range.end) {
                RangeCheck::NotANumber => Err(
                    SimError::InvalidCommand(quoted_then(value.as_str(), "' is not a number")),
                ),
                RangeCheck::OutOfRange => Err(
                    SimError::InvalidCommand(range_message(spec, value.as_str())),
                ),
                RangeCheck::InRange => Ok(build_command(spec, value.as_str())),
            }
        },
    }
}

} // verus!
