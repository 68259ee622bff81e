use vstd::prelude::*;

verus! {

/// A pipeline tree: a command with its words, or two trees joined by an operator.
#[derive(Debug)]
pub enum Ast {
    Command(Vec<String>),
    Pipe(Box<Ast>, Box<Ast>),
    AndLogical(Box<Ast>, Box<Ast>),
    OrLogical(Box<Ast>, Box<Ast>),
    Background(Box<Ast>, Box<Ast>),
    Separator(Box<Ast>, Box<Ast>),
    OutputRedirection(Box<Ast>, Box<Ast>),
    InputRedirection(Box<Ast>, Box<Ast>),
    OverwriteRedirection(Box<Ast>, Box<Ast>),
    AppendRedirection(Box<Ast>, Box<Ast>),
    ErrorRedirection(Box<Ast>, Box<Ast>),
}

/// A word or an operator of the pipeline language.
#[derive(Debug)]
pub enum Token {
    Arg(String),
    Pipe,
    AndLogical,
    OrLogical,
    Background,
    Separator,
    OutputRedirection,
    InputRedirection,
    OverwriteRedirection,
    AppendRedirection,
    ErrorRedirection,
}

pub open spec fn args_tokens(args: Seq<String>) -> Seq<Token> {
    args.map_values(|s: String| Token::Arg(s))
}

/// The tokens a tree is written with, from left to right.
pub open spec fn flatten(e: Ast) -> Seq<Token>
    decreases e,
{
    match e {
        Ast::Command(args) => args_tokens(args@),
        Ast::Pipe(l, r) => flatten(*l) + seq![Token::Pipe] + flatten(*r),
        Ast::AndLogical(l, r) => flatten(*l) + seq![Token::AndLogical] + flatten(*r),
        Ast::OrLogical(l, r) => flatten(*l) + seq![Token::OrLogical] + flatten(*r),
        Ast::Background(l, r) => flatten(*l) + seq![Token::Background] + flatten(*r),
        Ast::Separator(l, r) => flatten(*l) + seq![Token::Separator] + flatten(*r),
        Ast::OutputRedirection(l, r) => flatten(*l) + seq![Token::OutputRedirection] + flatten(*r),
        Ast::InputRedirection(l, r) => flatten(*l) + seq![Token::InputRedirection] + flatten(*r),
        Ast::OverwriteRedirection(l, r) => flatten(*l) + seq![Token::OverwriteRedirection] + flatten(
            *r,
        ),
        Ast::AppendRedirection(l, r) => flatten(*l) + seq![Token::AppendRedirection] + flatten(*r),
        Ast::ErrorRedirection(l, r) => flatten(*l) + seq![Token::ErrorRedirection] + flatten(*r),
    }
}

pub open spec fn is_redirection_token(t: Token) -> bool {
    ||| t is OutputRedirection
    ||| t is InputRedirection
    ||| t is OverwriteRedirection
    ||| t is AppendRedirection
    ||| t is ErrorRedirection
}

pub open spec fn is_redirection(e: Ast) -> bool {
    ||| e is OutputRedirection
    ||| e is InputRedirection
    ||| e is OverwriteRedirection
    ||| e is AppendRedirection
    ||| e is ErrorRedirection
}

/// The two sides of a tree that joins two trees (the tree itself twice for a command).
pub open spec fn sides(e: Ast) -> (Ast, Ast) {
    match e {
        Ast::Command(_) => (e, e),
        Ast::Pipe(l, r) => (*l, *r),
        Ast::AndLogical(l, r) => (*l, *r),
        Ast::OrLogical(l, r) => (*l, *r),
        Ast::Background(l, r) => (*l, *r),
        Ast::Separator(l, r) => (*l, *r),
        Ast::OutputRedirection(l, r) => (*l, *r),
        Ast::InputRedirection(l, r) => (*l, *r),
        Ast::OverwriteRedirection(l, r) => (*l, *r),
        Ast::AppendRedirection(l, r) => (*l, *r),
        Ast::ErrorRedirection(l, r) => (*l, *r),
    }
}

/// A command followed by redirections, grouped to the left.
pub open spec fn redirection_level(e: Ast) -> bool
    decreases e,
{
    if e is Command {
        true
    } else if is_redirection(e) {
        redirection_level(sides(e).0) && sides(e).1 is Command
    } else {
        false
    }
}

/// Redirected commands joined by `|`, grouped to the left.
pub open spec fn pipe_level(e: Ast) -> bool
    decreases e,
{
    if let Ast::Pipe(l, r) = e {
        pipe_level(*l) && redirection_level(*r)
    } else {
        redirection_level(e)
    }
}

/// Pipelines joined by `||`, grouped to the left.
pub open spec fn or_level(e: Ast) -> bool
    decreases e,
{
    if let Ast::OrLogical(l, r) = e {
        or_level(*l) && pipe_level(*r)
    } else {
        pipe_level(e)
    }
}

/// An `||` chain followed by pipelines joined by `&&`, grouped to the left.
pub open spec fn logical_level(e: Ast) -> bool
    decreases e,
{
    if let Ast::AndLogical(l, r) = e {
        logical_level(*l) && pipe_level(*r)
    } else {
        or_level(e)
    }
}

/// Logical chains joined by `&`, grouped to the left.
pub open spec fn background_level(e: Ast) -> bool
    decreases e,
{
    if let Ast::Background(l, r) = e {
        background_level(*l) && logical_level(*r)
    } else {
        logical_level(e)
    }
}

/// Background chains joined by `;`, grouped to the left.
pub open spec fn separator_level(e: Ast) -> bool
    decreases e,
{
    if let Ast::Separator(l, r) = e {
        separator_level(*l) && background_level(*r)
    } else {
        background_level(e)
    }
}

/// Reading stops at `q` because what stands there is not a word.
pub open spec fn stops_command(ts: Seq<Token>, q: int) -> bool {
    q == ts.len() || !(ts[q] is Arg)
}

pub open spec fn stops_redirection(ts: Seq<Token>, q: int) -> bool {
    stops_command(ts, q) && (q < ts.len() ==> !is_redirection_token(ts[q]))
}

pub open spec fn stops_pipe(ts: Seq<Token>, q: int) -> bool {
    stops_redirection(ts, q) && (q < ts.len() ==> !(ts[q] is Pipe))
}

/// The rightmost logical chain of a tree.
pub open spec fn logical_tail(e: Ast) -> Ast
    decreases e,
{
    match e {
        Ast::Background(_, r) => logical_tail(*r),
        Ast::Separator(_, r) => logical_tail(*r),
        _ => e,
    }
}

/// An `||` after an `&&` chain ends the chain.
pub open spec fn stops_logical(ts: Seq<Token>, q: int, e: Ast) -> bool {
    &&& stops_pipe(ts, q)
    &&& q < ts.len() ==> !(ts[q] is AndLogical)
    &&& q < ts.len() && ts[q] is OrLogical ==> logical_tail(e) is AndLogical
}

pub open spec fn stops_background(ts: Seq<Token>, q: int, e: Ast) -> bool {
    stops_logical(ts, q, e) && (q < ts.len() ==> !(ts[q] is Background))
}

pub open spec fn stops_separator(ts: Seq<Token>, q: int, e: Ast) -> bool {
    stops_background(ts, q, e) && (q < ts.len() ==> !(ts[q] is Separator))
}

/// `e` is written with the tokens `ts[pos..q]`.
pub open spec fn spans(ts: Seq<Token>, pos: int, q: int, e: Ast) -> bool {
    0 <= pos <= q <= ts.len() && flatten(e) == ts.subrange(pos, q)
}

/// Some command of the tree has no words.
pub open spec fn has_empty_command(e: Ast) -> bool
    decreases e,
{
    match e {
        Ast::Command(args) => args@.len() == 0,
        Ast::Pipe(l, r) => has_empty_command(*l) || has_empty_command(*r),
        Ast::AndLogical(l, r) => has_empty_command(*l) || has_empty_command(*r),
        Ast::OrLogical(l, r) => has_empty_command(*l) || has_empty_command(*r),
        Ast::Background(l, r) => has_empty_command(*l) || has_empty_command(*r),
        Ast::Separator(l, r) => has_empty_command(*l) || has_empty_command(*r),
        Ast::OutputRedirection(l, r) => has_empty_command(*l) || has_empty_command(*r),
        Ast::InputRedirection(l, r) => has_empty_command(*l) || has_empty_command(*r),
        Ast::OverwriteRedirection(l, r) => has_empty_command(*l) || has_empty_command(*r),
        Ast::AppendRedirection(l, r) => has_empty_command(*l) || has_empty_command(*r),
        Ast::ErrorRedirection(l, r) => has_empty_command(*l) || has_empty_command(*r),
    }
}

/// Whether some command of the tree has no words.
pub fn any_empty_command(e: &Ast) -> (b: bool)
    ensures
        b == has_empty_command(*e),
    decreases e,
{
    match e {
        Ast::Command(args) => args.len() == 0,
        Ast::Pipe(l, r) | Ast::AndLogical(l, r) | Ast::OrLogical(l, r) | Ast::Background(l, r)
        | Ast::Separator(l, r) | Ast::OutputRedirection(l, r) | Ast::InputRedirection(l, r)
        | Ast::OverwriteRedirection(l, r) | Ast::AppendRedirection(l, r)
        | Ast::ErrorRedirection(l, r) => any_empty_command(l) || any_empty_command(r),
    }
}

pub proof fn lemma_args_tokens(args: Seq<String>)
    ensures
        args_tokens(args).len() == args.len(),
        forall|i: int| 0 <= i < args.len() ==> #[trigger] args_tokens(args)[i] == Token::Arg(args[i]),
{
}

/// Joining two adjacent spans with the operator between them spans the whole.
pub proof fn lemma_join_spans(ts: Seq<Token>, pos: int, q: int, q2: int, l: Ast, t: Token, r: Ast)
    requires
        spans(ts, pos, q, l),
        q < ts.len(),
        ts[q] == t,
        spans(ts, q + 1, q2, r),
    ensures
        flatten(l) + seq![t] + flatten(r) == ts.subrange(pos, q2),
{
    assert(flatten(l) + seq![t] + flatten(r) =~= ts.subrange(pos, q2));
}

} // verus!
