use crate::run::ast::{parse_logical, read_leniently};
use crate::run::error::ShellError;
use crate::run::node::{has_empty_command, Ast, Token};
use vstd::prelude::*;

verus! {

/// `e` was read from `ts[pos..q]`: a logical chain with no empty command,
/// either alone (and not followed by `&`) or closed by one `&`, which makes it
/// the left side of a `Background` whose right side is a command without words.
pub open spec fn read_strictly(ts: Seq<Token>, pos: int, q: int, e: Ast) -> bool {
    ||| {
        &&& read_leniently(ts, pos, q, e)
        &&& !has_empty_command(e)
        &&& q < ts.len() ==> !(ts[q] is Background)
    }
    ||| exists|l: Ast, args: Vec<String>| {
        &&& e == Ast::Background(Box::new(l), Box::new(Ast::Command(args)))
        &&& args@.len() == 0
        &&& 0 < q <= ts.len()
        &&& read_leniently(ts, pos, q - 1, l)
        &&& !has_empty_command(l)
        &&& ts[q - 1] is Background
    }
}

/// Reads a logical chain and an optional `&` that closes it.
pub fn parse(tokens: &[Token], pos: usize) -> (res: Result<(Ast, usize), ShellError>)
    requires
        pos <= tokens@.len(),
    ensures
        res matches Ok((e, q)) ==> read_strictly(tokens@, pos as int, q as int, e),
        res matches Err(err) ==> err is ExpectedCommand && exists|q: int, e: Ast|
            read_leniently(tokens@, pos as int, q, e) && has_empty_command(e),
{
    let (node, q) = parse_logical(tokens, pos)?;
    if q < tokens.len() {
        if let Token::Background = &tokens[q] {
            let empty: Vec<String> = Vec::new();
            let e = Ast::Background(Box::new(node), Box::new(Ast::Command(empty)));
            return Ok((e, q + 1));
        }
    }
    Ok((node, q))
}

} // verus!
