//! Player command vocabulary.
use vstd::prelude::*;

verus! {

/// A numeric argument, which the command line has checked is a number
/// inside the command's range. Its text is how std's `Display` writes the
/// `f64` the argument reads as (for up to fifteen significant digits; the
/// text as typed beyond that), so `5`, `5.0` and `+0.5e1` give the same
/// number; its exact value is the decimal value of the text.
#[derive(Debug, Clone, PartialEq)]
pub struct Number {
    pub text: String,
}

#[derive(Debug, Clone, PartialEq)]
pub enum Command {
    /// No-op, used in tests and as the default before real commands exist.
    Noop,
    /// New pitch target, degrees nose up.
    SetPitch(Number),
    /// New bank target, degrees right.
    SetBank(Number),
    /// New thrust target, percent N1.
    SetThrust(Number),
}

} // verus!
