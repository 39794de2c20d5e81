//! The command vocabulary itself: which command names exist and what
//! range their single numeric argument may fall in.
//!
//! Ranges are operational limits for this fictional aircraft, generous
//! enough not to get in the way while still rejecting obviously wrong
//! input (e.g. `THRUST 500`).
use vstd::prelude::*;
use crate::text::{eq_ignoring_ascii_case, eq_ignore_ascii_case};

verus! {

/// Inclusive whole-number bounds.
#[derive(Debug, Clone, Copy, PartialEq, Eq, Structural)]
pub struct Bounds {
    pub start: i64,
    pub end: i64,
}

#[derive(Debug, Clone, Copy, PartialEq, Eq)]
pub struct CommandSpec {
    pub name: &'static str,
    pub range: Bounds,
    /// One-line explanation shown by the `HELP` command.
    pub description: &'static str,
}

pub open spec fn pitch_spec() -> CommandSpec {
    CommandSpec {
        name: "PITCH",
        range: Bounds { start: -15i64, end: 15i64 },
        description: "target pitch angle, degrees nose up (negative = nose down)",
    }
}

pub open spec fn bank_spec() -> CommandSpec {
    CommandSpec {
        name: "BANK",
        range: Bounds { start: -30i64, end: 30i64 },
        description: "target bank angle, degrees right (negative = left)",
    }
}

pub open spec fn thrust_spec() -> CommandSpec {
    CommandSpec {
        name: "THRUST",
        range: Bounds { start: 0, end: 100 },
        description: "target engine thrust, percent N1",
    }
}

/// Every known command, in the order `HELP` lists them.
pub open spec fn all_specs() -> Seq<CommandSpec> {
    seq![pitch_spec(), bank_spec(), thrust_spec()]
}

/// `PITCH`: target pitch angle, -15..=15 degrees.
pub fn pitch() -> (r: CommandSpec)
    ensures
        r == pitch_spec(),
{
    CommandSpec {
        name: "PITCH",
        range: Bounds { start: -15, end: 15 },
        description: "target pitch angle, degrees nose up (negative = nose down)",
    }
}

/// `BANK`: target bank angle, -30..=30 degrees.
pub fn bank() -> (r: CommandSpec)
    ensures
        r == bank_spec(),
{
    CommandSpec {
        name: "BANK",
        range: Bounds { start: -30, end: 30 },
        description: "target bank angle, degrees right (negative = left)",
    }
}

/// `THRUST`: target thrust, 0..=100 percent N1.
pub fn thrust() -> (r: CommandSpec)
    ensures
        r == thrust_spec(),
{
    CommandSpec {
        name: "THRUST",
        range: Bounds { start: 0, end: 100 },
        description: "target engine thrust, percent N1",
    }
}

/// Every known command, in the order `HELP` lists them. `HELP` builds its
/// listing from this, so the reference text cannot drift from what the
/// parser accepts.
pub fn all() -> (r: [CommandSpec; 3])
    ensures
        r@ == all_specs(),
{
    let r = [pitch(), bank(), thrust()];
    assert(r@ =~= all_specs());
    r
}

/// The command `name` refers to, ignoring ASCII case: the first entry of
/// `all_specs()` whose name matches.
pub open spec fn spec_lookup(name: Seq<char>) -> Option<CommandSpec> {
    if eq_ignoring_ascii_case(pitch_spec().name@, name) {
        Some(pitch_spec())
    } else if eq_ignoring_ascii_case(bank_spec().name@, name) {
        Some(bank_spec())
    } else if eq_ignoring_ascii_case(thrust_spec().name@, name) {
        Some(thrust_spec())
    } else {
        None
    }
}

pub fn lookup(name: &str) -> (r: Option<CommandSpec>)
    ensures
        r == spec_lookup(name@),
{
    let p = pitch();
    let b = bank();
    let t = thrust();
    if eq_ignore_ascii_case(p.name, name) {
        Some(p)
    } else if eq_ignore_ascii_case(b.name, name) {
        Some(b)
    } else if eq_ignore_ascii_case(t.name, name) {
        Some(t)
    } else {
        None
    }
}

/// Command names do not depend on letter case: two spellings that agree
/// ignoring ASCII case name the same command, or both name none.
pub proof fn law_command_names_ignore_case(a: Seq<char>, b: Seq<char>)
    requires
        eq_ignoring_ascii_case(a, b),
    ensures
        spec_lookup(a) == spec_lookup(b),
{
    assert forall|n: Seq<char>| eq_ignoring_ascii_case(n, a) == eq_ignoring_ascii_case(n, b) by {
        if n.len() == a.len() {
            assert(eq_ignoring_ascii_case(n, a) ==> forall|i: int|
                0 <= i < n.len() ==> #[trigger] crate::text::ascii_lower(n[i]) == crate::text::ascii_lower(b[i]));
            assert(eq_ignoring_ascii_case(n, b) ==> forall|i: int|
                0 <= i < n.len() ==> #[trigger] crate::text::ascii_lower(n[i]) == crate::text::ascii_lower(a[i]));
        }
    }
}

} // verus!
