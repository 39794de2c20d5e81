//! Shared error types for the simulation core.
use vstd::prelude::*;

verus! {

#[derive(Debug, Clone, PartialEq)]
pub enum SimError {
    /// A command referenced something invalid: unknown command name,
    /// wrong number of arguments, a non-numeric value, or a value outside
    /// the command's allowed range. Constructed by `parser::parse`.
    InvalidCommand(String),
    /// A requested flight-phase transition doesn't make sense from the
    /// current phase (e.g. GO AROUND while parked on the stand).
    PhaseTransitionRejected(String),
}

/// The operator-facing text of an error.
pub open spec fn error_text(e: SimError) -> Seq<char> {
    match e {
        SimError::InvalidCommand(msg) => "invalid command: "@ + msg@,
        SimError::PhaseTransitionRejected(msg) => msg@,
    }
}

impl SimError {
    /// The operator-facing text of this error, e.g. `invalid command: ...`.
    pub fn message(&self) -> (r: String)
        ensures
            r@ == error_text(*self),
    {
        match self {
            SimError::InvalidCommand(msg) => {
                let head = String::from_str("invalid command: ");
                head.concat(msg.as_str())
            },
            SimError::PhaseTransitionRejected(msg) => msg.clone(),
        }
    }
}

} // verus!
