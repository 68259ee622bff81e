use super::logical;
use crate::run::node::{background_level, lemma_join_spans, spans, stops_background, stops_logical, Ast, Token};
use vstd::prelude::*;

verus! {

/// Reads logical chains joined by `&`.
pub fn parse(tokens: &[Token], pos: usize) -> (res: (Ast, usize))
    requires
        pos <= tokens@.len(),
    ensures
        spans(tokens@, pos as int, res.1 as int, res.0),
        background_level(res.0),
        stops_background(tokens@, res.1 as int, res.0),
{
    let ghost ts = tokens@;
    let (mut node, mut q) = logical::parse(tokens, pos);
    while q < tokens.len()
        invariant
            ts == tokens@,
            spans(ts, pos as int, q as int, node),
            background_level(node),
            stops_logical(ts, q as int, node),
        ensures
            spans(ts, pos as int, q as int, node),
            background_level(node),
            stops_background(ts, q as int, node),
        decreases ts.len() - q,
    {
        match &tokens[q] {
            Token::Background => {
                let (rhs, q2) = logical::parse(tokens, q + 1);
                proof { lemma_join_spans(ts, pos as int, q as int, q2 as int, node, Token::Background, rhs); }
                node = Ast::Background(Box::new(node), Box::new(rhs));
                q = q2;
            },
            _ => {
                break;
            },
        }
    }
    (node, q)
}

} // verus!
