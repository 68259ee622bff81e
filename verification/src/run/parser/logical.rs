use super::pipe;
use crate::run::node::{
    lemma_join_spans, logical_level, or_level, spans, stops_logical, stops_pipe, Ast, Token,
};
use vstd::prelude::*;

verus! {

/// Reads pipelines joined by `||`, then pipelines joined by `&&`. An `||`
/// that follows an `&&` chain is left unread.
pub fn parse(tokens: &[Token], pos: usize) -> (res: (Ast, usize))
    requires
        pos <= tokens@.len(),
    ensures
        spans(tokens@, pos as int, res.1 as int, res.0),
        logical_level(res.0),
        stops_logical(tokens@, res.1 as int, res.0),
{
    let ghost ts = tokens@;
    let (mut node, mut q) = pipe::parse(tokens, pos);
    while q < tokens.len()
        invariant
            ts == tokens@,
            spans(ts, pos as int, q as int, node),
            or_level(node),
            stops_pipe(ts, q as int),
        ensures
            spans(ts, pos as int, q as int, node),
            or_level(node),
            stops_pipe(ts, q as int),
            q < ts.len() ==> !(ts[q as int] is OrLogical),
        decreases ts.len() - q,
    {
        match &tokens[q] {
            Token::OrLogical => {
                let (rhs, q2) = pipe::parse(tokens, q + 1);
                proof { lemma_join_spans(ts, pos as int, q as int, q2 as int, node, Token::OrLogical, rhs); }
                node = Ast::OrLogical(Box::new(node), Box::new(rhs));
                q = q2;
            },
            _ => {
                break;
            },
        }
    }
    while q < tokens.len()
        invariant
            ts == tokens@,
            spans(ts, pos as int, q as int, node),
            logical_level(node),
            stops_pipe(ts, q as int),
            q < ts.len() && ts[q as int] is OrLogical ==> node is AndLogical,
        ensures
            spans(ts, pos as int, q as int, node),
            logical_level(node),
            stops_logical(ts, q as int, node),
        decreases ts.len() - q,
    {
        match &tokens[q] {
            Token::AndLogical => {
                let (rhs, q2) = pipe::parse(tokens, q + 1);
                proof { lemma_join_spans(ts, pos as int, q as int, q2 as int, node, Token::AndLogical, rhs); }
                node = Ast::AndLogical(Box::new(node), Box::new(rhs));
                q = q2;
            },
            _ => {
                break;
            },
        }
    }
    (node, q)
}

} // verus!
