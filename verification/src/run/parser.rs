pub mod background;
pub mod command;
pub mod logical;
pub mod pipe;
pub mod redirection;
pub mod separator;

use crate::run::error::ShellError;
use crate::run::node::{separator_level, spans, stops_separator, Ast, Token};
use vstd::prelude::*;

verus! {

/// Reads a tree from the longest front part of `tokens` that the grammar
/// takes; what follows it is left unread.
pub fn parse(tokens: &[Token]) -> (res: Result<Ast, ShellError>)
    ensures
        res matches Ok(e) && exists|q: int|
            spans(tokens@, 0, q, e) && separator_level(e) && stops_separator(tokens@, q, e),
{
    let (e, q) = separator::parse(tokens, 0);
    Ok(e)
}

} // verus!
