//! The operator console's text: the capped log, the listings printed for
//! `HELP`, `CHECKLIST` and `ATC`, the elapsed-time readout, and the
//! argument split for the one console word that takes an argument
//! (`REQUEST <clearance>`).
use vstd::prelude::*;
use vstd::string::*;
use std::collections::VecDeque;
use crate::text::{
    decimal_text, eq_ignoring_ascii_case, eq_ignore_ascii_case, is_space, is_space_char, trim, chars_of, format_u64,
    slice_eq_ignore_ascii_case, trim_range,
};
use crate::sim_core::time::TICKS_PER_SECOND;
use crate::sim_core::event::Event;
use crate::sim_core::command::Command;
use crate::sim_core::errors::SimError;
use crate::sim_core::time::Duration;
use crate::sim::simulation::{
    SimCore, checked_next, delegated_next, granted_request, first_delegatable, delegatable,
    lemma_first_delegatable_is_least,
};
use crate::crew::task::TaskSource;
use crate::checklist::first_pending;
use crate::crew::queue::pace_total;
use crate::atc::constraints::find_clearance;
use crate::parser::parse;
use crate::parser::lexer::words;
use crate::parser::parser::{parse_outcome, command_sets};
use crate::checklist::{Checklist, ChecklistItem, all_complete_before};
use crate::atc::constraints::{ClearanceType, all_clearances, clearance_name};
use crate::atc::controller::{ClearanceState, Controller};
use crate::parser::grammar::{CommandSpec, all, all_specs};
use crate::text::{int_text, pad_left, pad_right, format_i64, left_aligned, right_aligned, push_char};

verus! {

/// How many log lines are kept on screen; older entries are dropped.
pub const LOG_CAPACITY: usize = 200;

/// Push `entry` onto `log`, evicting the oldest entry first if the log is
/// already at `LOG_CAPACITY`.
pub fn push_capped(log: &mut VecDeque<String>, entry: String)
    ensures
        old(log)@.len() == LOG_CAPACITY ==> final(log)@ == old(log)@.drop_first().push(entry),
        old(log)@.len() != LOG_CAPACITY ==> final(log)@ == old(log)@.push(entry),
        old(log)@.len() <= LOG_CAPACITY ==> final(log)@.len() <= LOG_CAPACITY,
{
    if log.len() == LOG_CAPACITY {
        let _ = log.pop_front();
    }
    log.push_back(entry);
}

/// Whether an event belongs in the operator log. Ticks arrive ten times a
/// second and would drown out everything else, so only the discrete,
/// notable events are logged.
pub fn belongs_in_log(event: &Event) -> (r: bool)
    ensures
        r == !(*event is Tick),
{
    match event {
        Event::Tick { .. } => false,
        _ => true,
    }
}

/// The first log entry shown in a log region `height` rows tall: the
/// region has a border row above and below, and the newest entries show,
/// so as many entries as fit are counted back from the end.
pub fn first_visible_entry(entries: usize, height: u16) -> (r: usize)
    ensures
        ({
            let rows = if height >= 2 {
                height - 2
            } else {
                0
            };
            r == if entries > rows {
                entries - rows
            } else {
                0
            }
        }),
{
    let rows: usize = if height >= 2 {
        (height - 2) as usize
    } else {
        0
    };
    if entries > rows {
        entries - rows
    } else {
        0
    }
}

/// `n` in decimal, zero-padded to at least two digits.
pub open spec fn two_digits(n: nat) -> Seq<char> {
    if n < 10 {
        seq!['0'] + decimal_text(n)
    } else {
        decimal_text(n)
    }
}

/// `HH:MM:SS` for a whole number of seconds; the hours field grows past
/// two digits when it must.
pub open spec fn clock_text(total_seconds: nat) -> Seq<char> {
    two_digits(total_seconds / 3600) + seq![':'] + two_digits((total_seconds % 3600) / 60)
        + seq![':'] + two_digits(total_seconds % 60)
}

fn format_two_digits(n: u64) -> (r: String)
    ensures
        r@ == two_digits(n as nat),
{
    let digits = format_u64(n);
    if n < 10 {
        let zero = String::from_str("0");
        proof {
            reveal_strlit("0");
        }
        zero.concat(digits.as_str())
    } else {
        digits
    }
}

/// Elapsed simulation time as `HH:MM:SS`, from a tick count.
pub fn format_elapsed(tick_count: u64) -> (r: String)
    ensures
        r@ == clock_text((tick_count / (TICKS_PER_SECOND as u64)) as nat),
{
    let total_seconds = tick_count / (TICKS_PER_SECOND as u64);
    let hours = format_two_digits(total_seconds / 3600);
    let minutes = format_two_digits((total_seconds % 3600) / 60);
    let seconds = format_two_digits(total_seconds % 60);
    proof {
        reveal_strlit(":");
    }
    hours.concat(":").concat(minutes.as_str()).concat(":").concat(seconds.as_str())
}

/// What follows `word` in `input`: `input` trimmed must start with
/// `word` (ignoring ASCII case), then whitespace, then a non-empty
/// argument, which is returned trimmed.
pub open spec fn stripped_argument(input: Seq<char>, word: Seq<char>) -> Option<Seq<char>> {
    let t = trim(input);
    let k = word.len() as int;
    let rest = trim(t.skip(k));
    if t.len() > k && eq_ignoring_ascii_case(t.take(k), word) && is_space(t[k]) && rest.len()
        > 0 {
        Some(rest)
    } else {
        None
    }
}

/// If `input` starts with `word` (case-insensitive) followed by
/// whitespace, returns whatever follows, trimmed; `None` if nothing
/// follows.
pub fn strip_word<'a>(input: &'a str, word: &str) -> (r: Option<&'a str>)
    ensures
        match r {
            Some(rest) => stripped_argument(input@, word@) == Some(rest@),
            None => stripped_argument(input@, word@).is_none(),
        },
{
    let v = chars_of(input);
    let w = chars_of(word);
    let n = v.len();
    let k = w.len();
    let (a, b) = trim_range(&v, 0, n);
    let ghost t = v@.subrange(a as int, b as int);
    proof {
        assert(v@.subrange(0, n as int) =~= v@);
    }
    if b - a <= k {
        return None;
    }
    assert(t.take(k as int) =~= v@.subrange(a as int, a + k));
    if !slice_eq_ignore_ascii_case(&v, a, &w) {
        return None;
    }
    assert(t[k as int] == v@[a + k]);
    if !is_space_char(v[a + k]) {
        return None;
    }
    let (c, d) = trim_range(&v, a + k, b);
    assert(t.skip(k as int) =~= v@.subrange(a + k, b as int));
    if c == d {
        return None;
    }
    let rest = input.substring_char(c, d);
    Some(rest)
}

/// The text of each string, in order.
pub open spec fn texts(lines: Seq<String>) -> Seq<Seq<char>> {
    lines.map_values(|line: String| line@)
}

/// One checklist item as a log line: `  [x] Name` or `  [ ] Name`.
pub open spec fn item_line(item: ChecklistItem) -> Seq<char> {
    "  ["@ + (if item.complete {
        "x"@
    } else {
        " "@
    }) + "] "@ + item.name@
}

/// A checklist as log lines: its name, one line per item, and a closing
/// status line once every item is complete.
pub open spec fn checklist_text(c: Checklist) -> Seq<Seq<char>> {
    seq![c.name@ + ":"@] + c.items@.map_values(|item: ChecklistItem| item_line(item)) + if all_complete_before(
        c.items@,
        c.items@.len() as int,
    ) {
        seq!["Status: COMPLETE"@]
    } else {
        seq![]
    }
}

/// Renders a checklist as `[x]`/`[ ]` lines for the log.
pub fn checklist_lines(checklist: &Checklist) -> (r: Vec<String>)
    ensures
        texts(r@) == checklist_text(*checklist),
{
    let mut lines: Vec<String> = Vec::new();
    lines.push(checklist.name.clone().concat(":"));
    let n = checklist.items.len();
    let ghost items = checklist.items@;
    let mut i: usize = 0;
    while i < n
        invariant
            n == items.len(),
            items == checklist.items@,
            i <= n,
            texts(lines@) == seq![checklist.name@ + ":"@] + items.take(i as int).map_values(
                |item: ChecklistItem| item_line(item),
            ),
        decreases n - i,
    {
        let item = &checklist.items[i];
        let mark = if item.complete {
            "x"
        } else {
            " "
        };
        let line = String::from_str("  [").concat(mark).concat("] ").concat(item.name.as_str());
        let ghost before = texts(lines@);
        lines.push(line);
        proof {
            assert(items.take(i + 1) =~= items.take(i as int).push(items[i as int]));
            assert(texts(lines@) =~= before.push(item_line(items[i as int])));
            assert(seq![checklist.name@ + ":"@] + items.take(i + 1).map_values(
                |item: ChecklistItem| item_line(item),
            ) =~= before.push(item_line(items[i as int])));
        }
        i = i + 1;
    }
    assert(items.take(n as int) =~= items);
    if checklist.is_complete() {
        let ghost before = texts(lines@);
        lines.push(String::from_str("Status: COMPLETE"));
        assert(texts(lines@) =~= before.push("Status: COMPLETE"@));
    } else {
        assert(checklist_text(*checklist) =~= texts(lines@));
    }
    lines
}

/// How a clearance's state reads in the `ATC` listing.
pub open spec fn status_text(granted: bool) -> Seq<char> {
    if granted {
        "GRANTED"@
    } else {
        "not requested"@
    }
}

/// One clearance type and its state as a log line.
pub open spec fn clearance_line(c: ClearanceType, granted: bool) -> Seq<char> {
    "  "@ + pad_right(clearance_name(c), 9) + " "@ + status_text(granted)
}

/// Every clearance type, in order, and whether it has been granted.
pub open spec fn atc_text(atc: Controller) -> Seq<Seq<char>> {
    seq!["ATC clearances:"@] + all_clearances().map_values(
        |c: ClearanceType| clearance_line(c, atc.spec_state(c) == ClearanceState::Granted),
    )
}

/// Every clearance type and whether it has been granted, as log lines.
pub fn atc_lines(atc: &Controller) -> (r: Vec<String>)
    ensures
        texts(r@) == atc_text(*atc),
{
    let mut lines: Vec<String> = Vec::new();
    lines.push(String::from_str("ATC clearances:"));
    let clearances = ClearanceType::all();
    let ghost cs = all_clearances();
    let mut i: usize = 0;
    while i < 6
        invariant
            clearances@ == cs,
            cs == all_clearances(),
            i <= 6,
            texts(lines@) == seq!["ATC clearances:"@] + cs.take(i as int).map_values(
                |c: ClearanceType| clearance_line(c, atc.spec_state(c) == ClearanceState::Granted),
            ),
        decreases 6 - i,
    {
        let clearance = clearances[i];
        let status = if atc.is_granted(clearance) {
            "GRANTED"
        } else {
            "not requested"
        };
        let line = String::from_str("  ").concat(left_aligned(clearance.name(), 9).as_str()).concat(
            " ",
        ).concat(status);
        let ghost before = texts(lines@);
        lines.push(line);
        proof {
            assert(cs.take(i + 1) =~= cs.take(i as int).push(cs[i as int]));
            assert(texts(lines@) =~= before.push(
                clearance_line(clearance, atc.spec_state(clearance) == ClearanceState::Granted),
            ));
        }
        i = i + 1;
    }
    assert(cs.take(6) =~= cs);
    lines
}

/// One command of the grammar as a `HELP` line: name, range and what
/// it does, in aligned columns.
pub open spec fn help_entry(spec: CommandSpec) -> Seq<char> {
    "  "@ + pad_right(spec.name@, 7) + " "@ + pad_left(int_text(spec.range.start as int), 6)
        + ".."@ + pad_right(int_text(spec.range.end as int), 6) + " "@ + spec.description@
}

/// The lines `HELP` prints after the command table.
pub open spec fn help_footer() -> Seq<Seq<char>> {
    seq![
        "Type a command and press Enter, e.g. 'PITCH 5'."@,
        "Other commands:"@,
        "  HELP       show this text"@,
        "  CHECKLIST  show the active checklist and its status"@,
        "  CHECK      check off the next pending item yourself"@,
        "  DELEGATE   hand the next pending item to the FO"@,
        "  AIRPORT    show the current airport and runway"@,
        "  ATC        show clearance status"@,
        "  REQUEST <name>  request a clearance, e.g. 'REQUEST TAXI'"@,
    ]
}

/// The `HELP` listing: a header, one line per grammar command, in
/// grammar order, then the console's own words.
pub open spec fn help_text() -> Seq<Seq<char>> {
    seq!["Commands:"@] + all_specs().map_values(|spec: CommandSpec| help_entry(spec))
        + help_footer()
}

fn push_line(lines: &mut Vec<String>, text: &str)
    ensures
        texts(final(lines)@) == texts(old(lines)@).push(text@),
{
    let ghost before = texts(lines@);
    lines.push(String::from_str(text));
    assert(texts(lines@) =~= before.push(text@));
}

/// The `HELP` listing, generated from the grammar so it cannot drift
/// from what the parser accepts.
pub fn help_lines() -> (r: Vec<String>)
    ensures
        texts(r@) == help_text(),
{
    let mut lines: Vec<String> = Vec::new();
    push_line(&mut lines, "Commands:");
    let specs = all();
    let ghost ss = all_specs();
    let mut i: usize = 0;
    while i < 3
        invariant
            specs@ == ss,
            ss == all_specs(),
            i <= 3,
            texts(lines@) == seq!["Commands:"@] + ss.take(i as int).map_values(
                |spec: CommandSpec| help_entry(spec),
            ),
        decreases 3 - i,
    {
        let spec = specs[i];
        let start = format_i64(spec.range.start);
        let end = format_i64(spec.range.end);
        let line = String::from_str("  ").concat(left_aligned(spec.name, 7).as_str()).concat(
            " ",
        ).concat(right_aligned(start.as_str(), 6).as_str()).concat("..").concat(
            left_aligned(end.as_str(), 6).as_str(),
        ).concat(" ").concat(spec.description);
        let ghost before = texts(lines@);
        lines.push(line);
        proof {
            assert(ss.take(i + 1) =~= ss.take(i as int).push(ss[i as int]));
            assert(texts(lines@) =~= before.push(help_entry(spec)));
        }
        i = i + 1;
    }
    assert(ss.take(3) =~= ss);
    let ghost table = texts(lines@);
    push_line(&mut lines, "Type a command and press Enter, e.g. 'PITCH 5'.");
    push_line(&mut lines, "Other commands:");
    push_line(&mut lines, "  HELP       show this text");
    push_line(&mut lines, "  CHECKLIST  show the active checklist and its status");
    push_line(&mut lines, "  CHECK      check off the next pending item yourself");
    push_line(&mut lines, "  DELEGATE   hand the next pending item to the FO");
    push_line(&mut lines, "  AIRPORT    show the current airport and runway");
    push_line(&mut lines, "  ATC        show clearance status");
    push_line(&mut lines, "  REQUEST <name>  request a clearance, e.g. 'REQUEST TAXI'");
    assert(texts(lines@) =~= table + help_footer());
    lines
}

/// A key press, as far as the command line cares.
#[derive(Debug, Clone, Copy, PartialEq, Eq, Structural)]
pub enum Key {
    Esc,
    Enter,
    Backspace,
    /// A character key, and whether Control was held.
    Char { c: char, control: bool },
    /// Any key the command line ignores.
    Other,
}

/// The text being typed at the prompt, and whether the player asked to
/// quit.
pub struct CommandLine {
    input: String,
    should_quit: bool,
}

impl CommandLine {
    pub closed spec fn text(self) -> Seq<char> {
        self.input@
    }

    pub closed spec fn quitting(self) -> bool {
        self.should_quit
    }

    pub fn new() -> (r: CommandLine)
        ensures
            r.text() == Seq::<char>::empty(),
            !r.quitting(),
    {
        CommandLine { input: String::new(), should_quit: false }
    }

    /// The text typed so far.
    pub fn input(&self) -> (r: &str)
        ensures
            r@ == self.text(),
    {
        self.input.as_str()
    }

    pub fn should_quit(&self) -> (r: bool)
        ensures
            r == self.quitting(),
    {
        self.should_quit
    }

    /// React to one key press. Esc, Ctrl+C and Ctrl+D ask to quit; Enter
    /// submits a non-empty line, returning it and clearing the prompt;
    /// Backspace removes the last character; any other character key is
    /// typed, even with Control held.
    pub fn handle_key(&mut self, key: Key) -> (r: Option<String>)
        ensures
            match key {
                Key::Esc => r.is_none() && final(self).quitting() && final(self).text() == old(
                    self,
                ).text(),
                Key::Enter => if old(self).text().len() == 0 {
                    r.is_none() && final(self).text() == old(self).text() && final(self).quitting()
                        == old(self).quitting()
                } else {
                    &&& r.is_some()
                    &&& r.unwrap()@ == old(self).text()
                    &&& final(self).text() == Seq::<char>::empty()
                    &&& final(self).quitting() == old(self).quitting()
                },
                Key::Backspace => {
                    &&& r.is_none()
                    &&& final(self).quitting() == old(self).quitting()
                    &&& final(self).text() == if old(self).text().len() == 0 {
                        old(self).text()
                    } else {
                        old(self).text().drop_last()
                    }
                },
                Key::Char { c, control } => if control && (c == 'c' || c == 'd') {
                    r.is_none() && final(self).quitting() && final(self).text() == old(self).text()
                } else {
                    r.is_none() && final(self).text() == old(self).text().push(c)
                        && final(self).quitting() == old(self).quitting()
                },
                Key::Other => r.is_none() && final(self).text() == old(self).text()
                    && final(self).quitting() == old(self).quitting(),
            },
    {
        match key {
            Key::Esc => {
                self.should_quit = true;
                None
            },
            Key::Enter => {
                if self.input.as_str().unicode_len() == 0 {
                    None
                } else {
                    let line = self.input.clone();
                    self.input = String::new();
                    Some(line)
                }
            },
            Key::Backspace => {
                let n = self.input.as_str().unicode_len();
                if n > 0 {
                    let kept = String::from_str(self.input.as_str().substring_char(0, n - 1));
                    assert(kept@ =~= old(self).text().drop_last());
                    self.input = kept;
                }
                None
            },
            Key::Char { c, control } => {
                if control && (c == 'c' || c == 'd') {
                    self.should_quit = true;
                } else {
                    push_char(&mut self.input, c);
                }
                None
            },
            Key::Other => None,
        }
    }
}

/// What a submitted line asks for: one of the console's own words, or a
/// command for the parser.
#[derive(Debug, Clone, PartialEq)]
pub enum ConsoleAction {
    /// `HELP`
    Help,
    /// `CHECKLIST`
    ShowChecklist,
    /// `CHECK`
    CheckItem,
    /// `DELEGATE`
    DelegateItem,
    /// `AIRPORT`
    ShowAirport,
    /// `ATC`
    ShowAtc,
    /// `REQUEST <name>`, with the name as typed.
    Request(String),
    /// Anything else goes to the command parser.
    Command,
}

/// `line`, trimmed, is the console word `word` ignoring ASCII case.
pub open spec fn says(line: Seq<char>, word: Seq<char>) -> bool {
    eq_ignoring_ascii_case(trim(line), word)
}

/// None of the bare console words.
pub open spec fn no_console_word(line: Seq<char>) -> bool {
    !says(line, "HELP"@) && !says(line, "CHECKLIST"@) && !says(line, "CHECK"@) && !says(
        line,
        "DELEGATE"@,
    ) && !says(line, "AIRPORT"@) && !says(line, "ATC"@)
}

/// Decide what a submitted line asks for. The bare words are matched
/// whole, ignoring case and surrounding whitespace; `REQUEST` takes an
/// argument; everything else is a command.
pub fn classify(line: &str) -> (r: ConsoleAction)
    ensures
        (r == ConsoleAction::Help) <==> says(line@, "HELP"@),
        (r == ConsoleAction::ShowChecklist) <==> !says(line@, "HELP"@) && says(
            line@,
            "CHECKLIST"@,
        ),
        (r == ConsoleAction::CheckItem) <==> !says(line@, "HELP"@) && !says(line@, "CHECKLIST"@)
            && says(line@, "CHECK"@),
        (r == ConsoleAction::DelegateItem) <==> !says(line@, "HELP"@) && !says(
            line@,
            "CHECKLIST"@,
        ) && !says(line@, "CHECK"@) && says(line@, "DELEGATE"@),
        (r == ConsoleAction::ShowAirport) <==> !says(line@, "HELP"@) && !says(
            line@,
            "CHECKLIST"@,
        ) && !says(line@, "CHECK"@) && !says(line@, "DELEGATE"@) && says(line@, "AIRPORT"@),
        (r == ConsoleAction::ShowAtc) <==> !says(line@, "HELP"@) && !says(line@, "CHECKLIST"@)
            && !says(line@, "CHECK"@) && !says(line@, "DELEGATE"@) && !says(line@, "AIRPORT"@)
            && says(line@, "ATC"@),
        r is Request <==> no_console_word(line@) && stripped_argument(line@, "REQUEST"@) is Some,
        r matches ConsoleAction::Request(name) ==> stripped_argument(line@, "REQUEST"@) == Some(
            name@,
        ),
        (r == ConsoleAction::Command) <==> no_console_word(line@) && stripped_argument(
            line@,
            "REQUEST"@,
        ) is None,
{
    let v = chars_of(line);
    let n = v.len();
    let (a, b) = trim_range(&v, 0, n);
    proof {
        assert(v@.subrange(0, n as int) =~= line@);
    }
    let word = line.substring_char(a, b);
    if eq_ignore_ascii_case(word, "HELP") {
        ConsoleAction::Help
    } else if eq_ignore_ascii_case(word, "CHECKLIST") {
        ConsoleAction::ShowChecklist
    } else if eq_ignore_ascii_case(word, "CHECK") {
        ConsoleAction::CheckItem
    } else if eq_ignore_ascii_case(word, "DELEGATE") {
        ConsoleAction::DelegateItem
    } else if eq_ignore_ascii_case(word, "AIRPORT") {
        ConsoleAction::ShowAirport
    } else if eq_ignore_ascii_case(word, "ATC") {
        ConsoleAction::ShowAtc
    } else {
        match strip_word(line, "REQUEST") {
            Some(name) => ConsoleAction::Request(String::from_str(name)),
            None => ConsoleAction::Command,
        }
    }
}

/// Which kind of request a submitted line is, as `classify` decides.
pub enum ConsoleKind {
    Help,
    ShowChecklist,
    CheckItem,
    DelegateItem,
    ShowAirport,
    ShowAtc,
    Request,
    Command,
}

pub open spec fn console_kind(line: Seq<char>) -> ConsoleKind {
    if says(line, "HELP"@) {
        ConsoleKind::Help
    } else if says(line, "CHECKLIST"@) {
        ConsoleKind::ShowChecklist
    } else if says(line, "CHECK"@) {
        ConsoleKind::CheckItem
    } else if says(line, "DELEGATE"@) {
        ConsoleKind::DelegateItem
    } else if says(line, "AIRPORT"@) {
        ConsoleKind::ShowAirport
    } else if says(line, "ATC"@) {
        ConsoleKind::ShowAtc
    } else if stripped_argument(line, "REQUEST"@) is Some {
        ConsoleKind::Request
    } else {
        ConsoleKind::Command
    }
}

/// The reply to `CHECK`.
pub open spec fn check_reply(items: Seq<ChecklistItem>) -> Seq<Seq<char>> {
    match first_pending(items) {
        Some(i) => seq!["OK: checked '"@ + items[i].name@ + "'"@],
        None => seq!["ERROR: checklist already complete (or nothing to check)"@],
    }
}

/// The reply to `DELEGATE`.
pub open spec fn delegate_reply(items: Seq<ChecklistItem>, lineup: Seq<crate::crew::task::Task>) -> Seq<
    Seq<char>,
> {
    match first_delegatable(items, lineup) {
        Some(i) => seq!["OK: delegated '"@ + items[i].name@ + "' to FO"@],
        None => seq![
            "ERROR: nothing left to delegate (checklist complete, or every remaining item is already with the FO)"@,
        ],
    }
}

/// The reply to `REQUEST name`.
pub open spec fn request_reply(name: Seq<char>) -> Seq<Seq<char>> {
    match find_clearance(name, 0) {
        Some(c) => seq!["ATC: cleared for "@ + clearance_name(c)],
        None => seq!["ERROR: unknown clearance '"@ + name + "' (try ATC or HELP)"@],
    }
}

/// What the caller still has to do once a console line has been answered.
pub enum FollowUp {
    /// Nothing: the log lines are the whole answer.
    Nothing,
    /// Show the airport, whose figures the caller holds.
    ShowAirport,
    /// Apply this parsed command to the aircraft.
    Apply(Command),
}

/// The answer to a submitted console line: the lines for the operator log,
/// in order, and what is left for the caller to do.
pub struct ConsoleReply {
    pub log: Vec<String>,
    pub follow_up: FollowUp,
}

/// The log line that records what the operator submitted: `> ` and the line.
pub open spec fn echo_text(input: Seq<char>) -> Seq<char> {
    "> "@ + input
}

/// What answering `input` does: `before` and `after` are the simulation on
/// either side, `lines` the reply logged after the echo, `follow_up` what is
/// left for the caller.
pub open spec fn console_effect(
    before: SimCore,
    after: SimCore,
    input: Seq<char>,
    lines: Seq<Seq<char>>,
    follow_up: FollowUp,
) -> bool {
    match console_kind(input) {
        ConsoleKind::Help => lines == help_text() && follow_up is Nothing && after == before,
        ConsoleKind::ShowChecklist => lines == checklist_text(before.spec_checklist())
            && follow_up is Nothing && after == before,
        ConsoleKind::CheckItem => lines == check_reply(before.spec_checklist().items@)
            && follow_up is Nothing && checked_next(before, after),
        ConsoleKind::DelegateItem => lines == delegate_reply(
            before.spec_checklist().items@,
            before.spec_queue().lineup(),
        ) && follow_up is Nothing && delegated_next(before, after),
        ConsoleKind::ShowAirport => lines == Seq::<Seq<char>>::empty() && follow_up is ShowAirport
            && after == before,
        ConsoleKind::ShowAtc => lines == atc_text(before.spec_atc()) && follow_up is Nothing
            && after == before,
        ConsoleKind::Request => {
            let name = stripped_argument(input, "REQUEST"@).unwrap();
            &&& lines == request_reply(name)
            &&& follow_up is Nothing
            &&& match find_clearance(name, 0) {
                Some(c) => granted_request(before, after, c),
                None => after == before,
            }
        },
        ConsoleKind::Command => after == before && match parse_outcome(words(input)) {
            Ok((spec, value)) => lines == Seq::<Seq<char>>::empty() && (follow_up matches FollowUp::Apply(
                cmd,
            ) && command_sets(cmd, spec, value)),
            Err(msg) => lines == seq!["ERROR: "@ + "invalid command: "@ + msg] && follow_up is Nothing,
        },
    }
}

/// Answering `DELEGATE` either hands the FO the first checklist item that
/// is neither complete nor already with the FO, at the back of its
/// lineup, and replies naming the very task that joined the lineup; or,
/// when no item qualifies, leaves the FO's queue as it was and says so.
/// The checklist itself is untouched either way.
pub proof fn law_delegate_reply_names_the_delegated_task(
    before: SimCore,
    after: SimCore,
    input: Seq<char>,
    lines: Seq<Seq<char>>,
    follow_up: FollowUp,
)
    requires
        console_kind(input) == ConsoleKind::DelegateItem,
        console_effect(before, after, input, lines, follow_up),
    ensures
        follow_up is Nothing,
        after.spec_checklist() == before.spec_checklist(),
        ({
            let items = before.spec_checklist().items@;
            let old_lineup = before.spec_queue().lineup();
            let new_lineup = after.spec_queue().lineup();
            ||| {
                &&& new_lineup.len() == old_lineup.len() + 1
                &&& new_lineup.drop_last() == old_lineup
                &&& new_lineup.last().source matches TaskSource::ChecklistItem(k)
                &&& delegatable(items, old_lineup, k as int)
                &&& forall|j: int| 0 <= j < k ==> !delegatable(items, old_lineup, j)
                &&& new_lineup.last().description@ == items[k as int].name@
                &&& lines == seq!["OK: delegated '"@ + new_lineup.last().description@ + "' to FO"@]
            }
            ||| {
                &&& after.spec_queue() == before.spec_queue()
                &&& forall|j: int| !delegatable(items, old_lineup, j)
                &&& lines == seq![
                    "ERROR: nothing left to delegate (checklist complete, or every remaining item is already with the FO)"@,
                ]
            }
        }),
{
    let items = before.spec_checklist().items@;
    let old_lineup = before.spec_queue().lineup();
    match first_delegatable(items, old_lineup) {
        Some(i) => {
            assert(exists|j: int| #[trigger] delegatable(items, old_lineup, j));
            let w = choose|j: int| #[trigger] delegatable(items, old_lineup, j);
            lemma_first_delegatable_is_least(items, old_lineup, w);
            let new_lineup = after.spec_queue().lineup();
            assert(delegatable(items, old_lineup, i));
            assert(new_lineup.last().source == TaskSource::ChecklistItem(i as usize));
            assert(items.len() == before.spec_checklist().items.len());
            assert(0 <= i < items.len() <= usize::MAX);
            assert((i as usize) as int == i);
            assert(new_lineup.last().description@ == items[i].name@);
            assert(lines == delegate_reply(items, old_lineup));
            assert(lines == seq!["OK: delegated '"@ + items[i].name@ + "' to FO"@]);
        },
        None => {
            assert forall|j: int| !delegatable(items, old_lineup, j) by {
                if delegatable(items, old_lineup, j) {
                    lemma_first_delegatable_is_least(items, old_lineup, j);
                }
            }
        },
    }
}

fn one_line(text: String) -> (r: Vec<String>)
    ensures
        texts(r@) == seq![text@],
{
    let mut v: Vec<String> = Vec::new();
    v.push(text);
    assert(texts(v@) =~= seq![text@]);
    v
}

/// The echo of a submitted line, as logged before its answer.
pub fn echo_line(input: &str) -> (r: String)
    ensures
        r@ == echo_text(input@),
{
    String::from_str("> ").concat(input)
}

/// Answer a submitted console line without its echo.
fn answer(sim: &mut SimCore, input: &str, pace: &impl Fn(Duration) -> Duration) -> (r: (
    Vec<String>,
    FollowUp,
))
    requires
        old(sim).wf(),
        pace_total(*pace),
    ensures
        final(sim).wf(),
        console_effect(*old(sim), *final(sim), input@, texts(r.0@), r.1),
{
    match classify(input) {
        ConsoleAction::Help => (help_lines(), FollowUp::Nothing),
        ConsoleAction::ShowChecklist => (checklist_lines(sim.checklist()), FollowUp::Nothing),
        ConsoleAction::CheckItem => {
            let line = match sim.check_next_checklist_item() {
                Some(name) => String::from_str("OK: checked '").concat(name.as_str()).concat("'"),
                None => String::from_str("ERROR: checklist already complete (or nothing to check)"),
            };
            (one_line(line), FollowUp::Nothing)
        },
        ConsoleAction::DelegateItem => {
            let line = match sim.delegate_next_checklist_item(pace) {
                Some(name) => String::from_str("OK: delegated '").concat(name.as_str()).concat(
                    "' to FO",
                ),
                None => String::from_str(
                    "ERROR: nothing left to delegate (checklist complete, or every remaining item is already with the FO)",
                ),
            };
            (one_line(line), FollowUp::Nothing)
        },
        ConsoleAction::ShowAirport => {
            let none: Vec<String> = Vec::new();
            assert(texts(none@) =~= Seq::<Seq<char>>::empty());
            (none, FollowUp::ShowAirport)
        },
        ConsoleAction::ShowAtc => (atc_lines(sim.atc()), FollowUp::Nothing),
        ConsoleAction::Request(name) => {
            match ClearanceType::lookup(name.as_str()) {
                Some(c) => {
                    sim.request_clearance(c);
                    (
                        one_line(String::from_str("ATC: cleared for ").concat(c.name())),
                        FollowUp::Nothing,
                    )
                },
                None => (
                    one_line(
                        String::from_str("ERROR: unknown clearance '").concat(name.as_str()).concat(
                            "' (try ATC or HELP)",
                        ),
                    ),
                    FollowUp::Nothing,
                ),
            }
        },
        ConsoleAction::Command => {
            match parse(input) {
                Ok(cmd) => {
                    let none: Vec<String> = Vec::new();
                    assert(texts(none@) =~= Seq::<Seq<char>>::empty());
                    (none, FollowUp::Apply(cmd))
                },
                Err(e) => {
                    let text = String::from_str("ERROR: ").concat(e.message().as_str());
                    proof {
                        match e {
                            SimError::InvalidCommand(msg) => {
                                assert(text@ =~= "ERROR: "@ + "invalid command: "@ + msg@);
                            },
                            _ => {},
                        }
                    }
                    (one_line(text), FollowUp::Nothing)
                },
            }
        },
    }
}

/// Carry out a submitted console line: log its echo (`> ` and the line),
/// then the answer: the console's own listings, what the simulation did when
/// asked to check, delegate or request, or what is wrong with a command; a
/// well-formed command is handed back to apply.
pub fn run_console_command<P: Fn(Duration) -> Duration>(sim: &mut SimCore, input: &str, pace: &P) -> (r:
    ConsoleReply)
    requires
        old(sim).wf(),
        pace_total(*pace),
    ensures
        final(sim).wf(),
        r.log@.len() >= 1,
        r.log@[0]@ == echo_text(input@),
        console_effect(*old(sim), *final(sim), input@, texts(r.log@).drop_first(), r.follow_up),
{
    let (mut lines, follow_up) = answer(sim, input, pace);
    let ghost reply = texts(lines@);
    let mut log: Vec<String> = Vec::new();
    log.push(echo_line(input));
    log.append(&mut lines);
    assert(texts(log@).drop_first() =~= reply);
    ConsoleReply { log, follow_up }
}

} // verus!
