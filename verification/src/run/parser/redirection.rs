use super::command;
use crate::run::node::{
    flatten, is_redirection, lemma_join_spans, redirection_level, sides, spans, stops_redirection,
    Ast, Token,
};
use vstd::prelude::*;

verus! {

/// Reads a command followed by any number of redirections, each with the
/// command that names its file.
pub fn parse(tokens: &[Token], pos: usize) -> (res: (Ast, usize))
    requires
        pos <= tokens@.len(),
    ensures
        spans(tokens@, pos as int, res.1 as int, res.0),
        redirection_level(res.0),
        stops_redirection(tokens@, res.1 as int),
{
    let ghost ts = tokens@;
    let (mut node, mut q) = command::parse(tokens, pos);
    while q < tokens.len()
        invariant
            ts == tokens@,
            spans(ts, pos as int, q as int, node),
            redirection_level(node),
            q < ts.len() ==> !(ts[q as int] is Arg),
        ensures
            spans(ts, pos as int, q as int, node),
            redirection_level(node),
            stops_redirection(ts, q as int),
        decreases ts.len() - q,
    {
        let ghost oq = q;
        let ghost old_node = node;
        match &tokens[q] {
            Token::OutputRedirection => {
                let (rhs, q2) = command::parse(tokens, q + 1);
                proof { lemma_join_spans(ts, pos as int, oq as int, q2 as int, old_node, ts[oq as int], rhs); }
                node = Ast::OutputRedirection(Box::new(node), Box::new(rhs));
                q = q2;
            },
            Token::InputRedirection => {
                let (rhs, q2) = command::parse(tokens, q + 1);
                proof { lemma_join_spans(ts, pos as int, oq as int, q2 as int, old_node, ts[oq as int], rhs); }
                node = Ast::InputRedirection(Box::new(node), Box::new(rhs));
                q = q2;
            },
            Token::OverwriteRedirection => {
                let (rhs, q2) = command::parse(tokens, q + 1);
                proof { lemma_join_spans(ts, pos as int, oq as int, q2 as int, old_node, ts[oq as int], rhs); }
                node = Ast::OverwriteRedirection(Box::new(node), Box::new(rhs));
                q = q2;
            },
            Token::AppendRedirection => {
                let (rhs, q2) = command::parse(tokens, q + 1);
                proof { lemma_join_spans(ts, pos as int, oq as int, q2 as int, old_node, ts[oq as int], rhs); }
                node = Ast::AppendRedirection(Box::new(node), Box::new(rhs));
                q = q2;
            },
            Token::ErrorRedirection => {
                let (rhs, q2) = command::parse(tokens, q + 1);
                proof { lemma_join_spans(ts, pos as int, oq as int, q2 as int, old_node, ts[oq as int], rhs); }
                node = Ast::ErrorRedirection(Box::new(node), Box::new(rhs));
                q = q2;
            },
            _ => {
                break;
            },
        }
    }
    (node, q)
}

} // verus!
