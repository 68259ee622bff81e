use super::redirection;
use crate::run::node::{lemma_join_spans, pipe_level, spans, stops_pipe, stops_redirection, Ast, Token};
use vstd::prelude::*;

verus! {

/// Reads redirected commands joined by `|`.
pub fn parse(tokens: &[Token], pos: usize) -> (res: (Ast, usize))
    requires
        pos <= tokens@.len(),
    ensures
        spans(tokens@, pos as int, res.1 as int, res.0),
        pipe_level(res.0),
        stops_pipe(tokens@, res.1 as int),
{
    let ghost ts = tokens@;
    let (mut node, mut q) = redirection::parse(tokens, pos);
    while q < tokens.len()
        invariant
            ts == tokens@,
            spans(ts, pos as int, q as int, node),
            pipe_level(node),
            stops_redirection(ts, q as int),
        ensures
            spans(ts, pos as int, q as int, node),
            pipe_level(node),
            stops_pipe(ts, q as int),
        decreases ts.len() - q,
    {
        match &tokens[q] {
            Token::Pipe => {
                let (rhs, q2) = redirection::parse(tokens, q + 1);
                proof { lemma_join_spans(ts, pos as int, q as int, q2 as int, node, Token::Pipe, rhs); }
                node = Ast::Pipe(Box::new(node), Box::new(rhs));
                q = q2;
            },
            _ => {
                break;
            },
        }
    }
    (node, q)
}

} // verus!
