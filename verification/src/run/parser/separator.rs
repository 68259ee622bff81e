use super::background;
use crate::run::node::{lemma_join_spans, separator_level, spans, stops_background, stops_separator, Ast, Token};
use vstd::prelude::*;

verus! {

/// Reads background chains joined by `;`.
pub fn parse(tokens: &[Token], pos: usize) -> (res: (Ast, usize))
    requires
        pos <= tokens@.len(),
    ensures
        spans(tokens@, pos as int, res.1 as int, res.0),
        separator_level(res.0),
        stops_separator(tokens@, res.1 as int, res.0),
{
    let ghost ts = tokens@;
    let (mut node, mut q) = background::parse(tokens, pos);
    while q < tokens.len()
        invariant
            ts == tokens@,
            spans(ts, pos as int, q as int, node),
            separator_level(node),
            stops_background(ts, q as int, node),
        ensures
            spans(ts, pos as int, q as int, node),
            separator_level(node),
            stops_separator(ts, q as int, node),
        decreases ts.len() - q,
    {
        match &tokens[q] {
            Token::Separator => {
                let (rhs, q2) = background::parse(tokens, q + 1);
                proof { lemma_join_spans(ts, pos as int, q as int, q2 as int, node, Token::Separator, rhs); }
                node = Ast::Separator(Box::new(node), Box::new(rhs));
                q = q2;
            },
            _ => {
                break;
            },
        }
    }
    (node, q)
}

} // verus!
