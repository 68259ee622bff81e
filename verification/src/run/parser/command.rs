use crate::run::node::{args_tokens, lemma_args_tokens, spans, stops_command, Ast, Token};
use vstd::prelude::*;

verus! {

/// Reads the words at `pos`, as many as there are (possibly none).
pub fn parse(tokens: &[Token], pos: usize) -> (res: (Ast, usize))
    requires
        pos <= tokens@.len(),
    ensures
        res.0 is Command,
        spans(tokens@, pos as int, res.1 as int, res.0),
        stops_command(tokens@, res.1 as int),
{
    let mut args: Vec<String> = Vec::new();
    let mut q = pos;
    assert(args_tokens(args@) =~= tokens@.subrange(pos as int, q as int));
    while q < tokens.len()
        invariant
            pos <= q <= tokens@.len(),
            args_tokens(args@) == tokens@.subrange(pos as int, q as int),
        ensures
            pos <= q <= tokens@.len(),
            args_tokens(args@) == tokens@.subrange(pos as int, q as int),
            stops_command(tokens@, q as int),
        decreases tokens@.len() - q,
    {
        match &tokens[q] {
            Token::Arg(arg) => {
                let ghost old_args = args@;
                args.push(arg.clone());
                proof {
                    lemma_args_tokens(args@);
                    lemma_args_tokens(old_args);
                    assert(tokens@[q as int] == Token::Arg(*arg));
                }
                q = q + 1;
                assert(args_tokens(args@) =~= tokens@.subrange(pos as int, q as int));
            },
            _ => {
                break;
            },
        }
    }
    (Ast::Command(args), q)
}

} // verus!
