//! Player command line: words, numeric literals, and the command grammar.
pub mod binary;
pub mod digits;
pub mod grammar;
pub mod lexer;
pub mod number;
pub mod parser;
pub mod shown;

use vstd::prelude::*;
use crate::parser::lexer::{tokenize, words};
use crate::parser::parser::{parse_tokens, parse_result_matches};
use crate::sim_core::command::Command;
use crate::sim_core::errors::SimError;

verus! {

/// Parse a raw line of player input into a `Command`, or a `SimError`
/// describing what's wrong with it.
pub fn parse(input: &str) -> (r: Result<Command, SimError>)
    ensures
        parse_result_matches(r, words(input@)),
{
    let tokens = tokenize(input);
    parse_tokens(tokens.as_slice())
}

} // verus!
