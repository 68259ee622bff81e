pub mod background;

use crate::run::error::ShellError;
use crate::run::node::{
    has_empty_command, logical_level, spans, stops_logical, any_empty_command, Ast, Token,
};
use crate::run::parser::logical;
use vstd::prelude::*;

verus! {

/// Reads a logical chain, optionally followed by one `&`, from the front of
/// `tokens`, refusing a command without words.
pub fn parse(tokens: &[Token]) -> (res: Result<Ast, ShellError>)
    ensures
        res matches Ok(e) ==> exists|q: int| background::read_strictly(tokens@, 0, q, e),
        res matches Err(err) ==> err is ExpectedCommand && exists|q: int, e: Ast|
            read_leniently(tokens@, 0, q, e) && has_empty_command(e),
{
    match background::parse(tokens, 0) {
        Ok((e, q)) => Ok(e),
        Err(err) => Err(err),
    }
}

/// `e` is the logical chain read from `ts[pos..q]`, empty commands allowed.
pub open spec fn read_leniently(ts: Seq<Token>, pos: int, q: int, e: Ast) -> bool {
    spans(ts, pos, q, e) && logical_level(e) && stops_logical(ts, q, e)
}

/// Reads a logical chain at `pos`: pipelines joined by `||`, then by `&&`;
/// refuses it where one of its commands has no words.
pub fn parse_logical(tokens: &[Token], pos: usize) -> (res: Result<(Ast, usize), ShellError>)
    requires
        pos <= tokens@.len(),
    ensures
        res matches Ok((e, q)) ==> read_leniently(tokens@, pos as int, q as int, e)
            && !has_empty_command(e),
        res matches Err(err) ==> err is ExpectedCommand && exists|q: int, e: Ast|
            read_leniently(tokens@, pos as int, q, e) && has_empty_command(e),
{
    let (e, q) = logical::parse(tokens, pos);
    if any_empty_command(&e) {
        assert(read_leniently(tokens@, pos as int, q as int, e) && has_empty_command(e));
        return Err(ShellError::ExpectedCommand);
    }
    Ok((e, q))
}

} // verus!
