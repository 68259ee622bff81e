use crate::run::node::{
    background_level, flatten, is_redirection, is_redirection_token, lemma_args_tokens,
    logical_level, logical_tail, or_level, pipe_level, redirection_level, separator_level, sides,
    spans, stops_background, stops_command, stops_logical, stops_pipe, stops_redirection,
    stops_separator, Ast, Token,
};
use vstd::prelude::*;

verus! {

/// How loosely a token joins: words 0, redirections 1, `|` 2, `||` 3, `&&` 4,
/// `&` 5, `;` 6.
pub open spec fn rank(t: Token) -> int {
    match t {
        Token::Arg(_) => 0,
        Token::Pipe => 2,
        Token::OrLogical => 3,
        Token::AndLogical => 4,
        Token::Background => 5,
        Token::Separator => 6,
        _ => 1,
    }
}

/// The grammar levels by number: 0 commands, 1 redirections, 2 pipelines,
/// 3 `||` chains, 4 logical chains, 5 background chains, 6 separated chains.
pub open spec fn level(k: int, e: Ast) -> bool {
    if k <= 0 {
        e is Command
    } else if k == 1 {
        redirection_level(e)
    } else if k == 2 {
        pipe_level(e)
    } else if k == 3 {
        or_level(e)
    } else if k == 4 {
        logical_level(e)
    } else if k == 5 {
        background_level(e)
    } else {
        separator_level(e)
    }
}

/// Whether `e` is a node of the chain that level `k` adds.
pub open spec fn chain_node(k: int, e: Ast) -> bool {
    if k == 1 {
        is_redirection(e)
    } else if k == 2 {
        e is Pipe
    } else if k == 3 {
        e is OrLogical
    } else if k == 4 {
        e is AndLogical
    } else if k == 5 {
        e is Background
    } else {
        e is Separator
    }
}

/// The level of the right side of a chain node of level `k`.
pub open spec fn right_level(k: int) -> int {
    if k == 4 {
        2
    } else {
        k - 1
    }
}

/// The token written at the root of a tree that joins two trees.
pub open spec fn node_token(e: Ast) -> Token {
    match e {
        Ast::Command(_) => Token::Pipe,
        Ast::Pipe(..) => Token::Pipe,
        Ast::AndLogical(..) => Token::AndLogical,
        Ast::OrLogical(..) => Token::OrLogical,
        Ast::Background(..) => Token::Background,
        Ast::Separator(..) => Token::Separator,
        Ast::OutputRedirection(..) => Token::OutputRedirection,
        Ast::InputRedirection(..) => Token::InputRedirection,
        Ast::OverwriteRedirection(..) => Token::OverwriteRedirection,
        Ast::AppendRedirection(..) => Token::AppendRedirection,
        Ast::ErrorRedirection(..) => Token::ErrorRedirection,
    }
}

/// Two trees of the same shape with the same words.
pub open spec fn same_tree(a: Ast, b: Ast) -> bool
    decreases a,
{
    match a {
        Ast::Command(x) => b matches Ast::Command(y) && x@ == y@,
        Ast::Pipe(l, r) => b matches Ast::Pipe(l2, r2) && same_tree(*l, *l2) && same_tree(*r, *r2),
        Ast::AndLogical(l, r) => b matches Ast::AndLogical(l2, r2) && same_tree(*l, *l2)
            && same_tree(*r, *r2),
        Ast::OrLogical(l, r) => b matches Ast::OrLogical(l2, r2) && same_tree(*l, *l2) && same_tree(
            *r,
            *r2,
        ),
        Ast::Background(l, r) => b matches Ast::Background(l2, r2) && same_tree(*l, *l2)
            && same_tree(*r, *r2),
        Ast::Separator(l, r) => b matches Ast::Separator(l2, r2) && same_tree(*l, *l2) && same_tree(
            *r,
            *r2,
        ),
        Ast::OutputRedirection(l, r) => b matches Ast::OutputRedirection(l2, r2) && same_tree(
            *l,
            *l2,
        ) && same_tree(*r, *r2),
        Ast::InputRedirection(l, r) => b matches Ast::InputRedirection(l2, r2) && same_tree(*l, *l2)
            && same_tree(*r, *r2),
        Ast::OverwriteRedirection(l, r) => b matches Ast::OverwriteRedirection(l2, r2) && same_tree(
            *l,
            *l2,
        ) && same_tree(*r, *r2),
        Ast::AppendRedirection(l, r) => b matches Ast::AppendRedirection(l2, r2) && same_tree(
            *l,
            *l2,
        ) && same_tree(*r, *r2),
        Ast::ErrorRedirection(l, r) => b matches Ast::ErrorRedirection(l2, r2) && same_tree(*l, *l2)
            && same_tree(*r, *r2),
    }
}

proof fn lemma_level_unfold(k: int, e: Ast)
    requires
        1 <= k <= 6,
    ensures
        level(k, e) == if chain_node(k, e) {
            level(k, sides(e).0) && level(right_level(k), sides(e).1)
        } else {
            level(k - 1, e)
        },
{
    if k == 1 && !(e is Command) && !is_redirection(e) {
        assert(!redirection_level(e));
    }
}

proof fn lemma_flatten_split(e: Ast)
    requires
        !(e is Command),
    ensures
        flatten(e) == flatten(sides(e).0) + seq![node_token(e)] + flatten(sides(e).1),
{
}

proof fn lemma_chain_token(k: int, e: Ast)
    requires
        1 <= k <= 6,
        chain_node(k, e),
    ensures
        !(e is Command),
        rank(node_token(e)) == k,
{
}

/// Every token of a tree of level `k` joins at most as loosely as level `k` allows.
pub proof fn lemma_tokens_ranked(k: int, e: Ast)
    requires
        0 <= k <= 6,
        level(k, e),
    ensures
        forall|i: int| 0 <= i < flatten(e).len() ==> rank(#[trigger] flatten(e)[i]) <= k,
    decreases e, k,
{
    if k == 0 {
        if let Ast::Command(args) = e {
            lemma_args_tokens(args@);
        }
    } else {
        lemma_level_unfold(k, e);
        if chain_node(k, e) {
            lemma_chain_token(k, e);
            let (l, r) = sides(e);
            lemma_flatten_split(e);
            lemma_tokens_ranked(k, l);
            lemma_tokens_ranked(right_level(k), r);
            let fl = flatten(l);
            let fr = flatten(r);
            assert forall|i: int| 0 <= i < flatten(e).len() implies rank(#[trigger] flatten(e)[i])
                <= k by {
                if i < fl.len() {
                    assert(flatten(e)[i] == fl[i]);
                } else if i > fl.len() {
                    assert(flatten(e)[i] == fr[i - fl.len() - 1]);
                }
            }
        } else {
            lemma_tokens_ranked(k - 1, e);
        }
    }
}

/// Two trees of the same level written with the same tokens are the same tree.
pub proof fn lemma_level_unique(k: int, e1: Ast, e2: Ast)
    requires
        0 <= k <= 6,
        level(k, e1),
        level(k, e2),
        flatten(e1) == flatten(e2),
    ensures
        same_tree(e1, e2),
    decreases e1, k,
{
    if k == 0 {
        if let Ast::Command(a1) = e1 {
            if let Ast::Command(a2) = e2 {
                lemma_args_tokens(a1@);
                lemma_args_tokens(a2@);
                assert forall|i: int| 0 <= i < a1@.len() implies a1@[i] == a2@[i] by {
                    assert(flatten(e1)[i] == Token::Arg(a1@[i]));
                    assert(flatten(e2)[i] == Token::Arg(a2@[i]));
                }
                assert(a1@ =~= a2@);
            }
        }
    } else {
        lemma_level_unfold(k, e1);
        lemma_level_unfold(k, e2);
        let c1 = chain_node(k, e1);
        let c2 = chain_node(k, e2);
        if c1 && c2 {
            lemma_chain_token(k, e1);
            lemma_chain_token(k, e2);
            let (l1, r1) = sides(e1);
            let (l2, r2) = sides(e2);
            lemma_flatten_split(e1);
            lemma_flatten_split(e2);
            lemma_tokens_ranked(right_level(k), r1);
            lemma_tokens_ranked(right_level(k), r2);
            let p1 = flatten(l1).len() as int;
            let p2 = flatten(l2).len() as int;
            let f = flatten(e1);
            let g1 = flatten(l1) + seq![node_token(e1)];
            let g2 = flatten(l2) + seq![node_token(e2)];
            assert(f == g1 + flatten(r1));
            assert(f == g2 + flatten(r2));
            assert(f[p1] == node_token(e1));
            assert(f[p2] == node_token(e2));
            if p1 < p2 {
                assert((g1 + flatten(r1))[p2] == flatten(r1)[p2 - g1.len()]);
                assert(false);
            } else if p2 < p1 {
                assert((g2 + flatten(r2))[p1] == flatten(r2)[p1 - g2.len()]);
                assert(false);
            }
            assert(flatten(l1) =~= f.subrange(0, p1));
            assert(flatten(l2) =~= f.subrange(0, p1));
            assert(flatten(r1) =~= f.subrange(p1 + 1, f.len() as int));
            assert(flatten(r2) =~= f.subrange(p1 + 1, f.len() as int));
            lemma_level_unique(k, l1, l2);
            lemma_level_unique(right_level(k), r1, r2);
        } else if c1 {
            lemma_chain_token(k, e1);
            lemma_flatten_split(e1);
            lemma_tokens_ranked(k - 1, e2);
            let p1 = flatten(sides(e1).0).len() as int;
            assert(flatten(e1)[p1] == node_token(e1));
            assert(false);
        } else if c2 {
            lemma_chain_token(k, e2);
            lemma_flatten_split(e2);
            lemma_tokens_ranked(k - 1, e1);
            let p2 = flatten(sides(e2).0).len() as int;
            assert(flatten(e2)[p2] == node_token(e2));
            assert(false);
        } else {
            lemma_level_unique(k - 1, e1, e2);
        }
    }
}

/// Where reading at level `k` stops: at the end, or at a token that the
/// level does not take (for levels 4 to 6, also at an `||` after an `&&`
/// chain).
pub open spec fn stops(k: int, ts: Seq<Token>, q: int, e: Ast) -> bool {
    if k <= 0 {
        stops_command(ts, q)
    } else if k == 1 {
        stops_redirection(ts, q)
    } else if k == 2 {
        stops_pipe(ts, q)
    } else if k == 3 {
        stops_pipe(ts, q) && (q < ts.len() ==> !(ts[q] is OrLogical))
    } else if k == 4 {
        stops_logical(ts, q, e)
    } else if k == 5 {
        stops_background(ts, q, e)
    } else {
        stops_separator(ts, q, e)
    }
}

/// In a tree of level 4 to 6 whose rightmost logical chain is an `&&` chain,
/// some `&&` is followed by no `&` or `;` up to the end.
proof fn lemma_tail_and(k: int, e: Ast) -> (p: int)
    requires
        4 <= k <= 6,
        level(k, e),
        logical_tail(e) is AndLogical,
    ensures
        0 <= p < flatten(e).len(),
        flatten(e)[p] is AndLogical,
        forall|m: int| p < m < flatten(e).len() ==> rank(#[trigger] flatten(e)[m]) < 5,
    decreases e, k,
{
    lemma_level_unfold(k, e);
    if chain_node(k, e) {
        lemma_chain_token(k, e);
        lemma_flatten_split(e);
        let (l, r) = sides(e);
        let fl = flatten(l);
        let fr = flatten(r);
        let f = flatten(e);
        if k == 4 {
            lemma_tokens_ranked(2, r);
            let p = fl.len() as int;
            assert forall|m: int| p < m < f.len() implies rank(#[trigger] f[m]) < 5 by {
                assert(f[m] == fr[m - p - 1]);
            }
            p
        } else {
            let p1 = lemma_tail_and(k - 1, r);
            let p = fl.len() + 1 + p1;
            assert(f[p] == fr[p1]);
            assert forall|m: int| p < m < f.len() implies rank(#[trigger] f[m]) < 5 by {
                assert(f[m] == fr[m - fl.len() - 1]);
            }
            p
        }
    } else if k == 4 {
        lemma_tokens_ranked(3, e);
        lemma_flatten_split(e);
        assert(flatten(e)[flatten(sides(e).0).len() as int] == node_token(e));
        assert(false);
        0
    } else {
        lemma_tail_and(k - 1, e)
    }
}

/// In a tree of level 4 to 6, an `&&` and a later `||` have an `&` or a `;`
/// between them.
proof fn lemma_and_before_or(k: int, e: Ast, i: int, j: int) -> (m: int)
    requires
        4 <= k <= 6,
        level(k, e),
        0 <= i < j < flatten(e).len(),
        flatten(e)[i] is AndLogical,
        flatten(e)[j] is OrLogical,
    ensures
        i < m < j,
        rank(flatten(e)[m]) >= 5,
    decreases e, k,
{
    lemma_level_unfold(k, e);
    if chain_node(k, e) {
        lemma_chain_token(k, e);
        lemma_flatten_split(e);
        let (l, r) = sides(e);
        let fl = flatten(l);
        let fr = flatten(r);
        let f = flatten(e);
        let p = fl.len() as int;
        assert(f[p] == node_token(e));
        if j < p {
            assert(f[i] == fl[i]);
            assert(f[j] == fl[j]);
            lemma_and_before_or(k, l, i, j)
        } else if k == 4 {
            lemma_tokens_ranked(2, r);
            assert(j > p);
            assert(f[j] == fr[j - p - 1]);
            assert(false);
            0
        } else if i > p {
            assert(f[i] == fr[i - p - 1]);
            assert(f[j] == fr[j - p - 1]);
            let m1 = lemma_and_before_or(k - 1, r, i - p - 1, j - p - 1);
            assert(f[p + 1 + m1] == fr[m1]);
            p + 1 + m1
        } else {
            p
        }
    } else if k == 4 {
        lemma_tokens_ranked(3, e);
        assert(false);
        0
    } else {
        lemma_and_before_or(k - 1, e, i, j)
    }
}

/// A reading of level `k` from `pos` that stops at `q1` is at least as long
/// as any other tree of that level written with the tokens from `pos`.
pub proof fn lemma_stop_longest(
    k: int,
    ts: Seq<Token>,
    pos: int,
    q1: int,
    e1: Ast,
    q2: int,
    e2: Ast,
)
    requires
        0 <= k <= 6,
        spans(ts, pos, q1, e1),
        level(k, e1),
        stops(k, ts, q1, e1),
        spans(ts, pos, q2, e2),
        level(k, e2),
    ensures
        q2 <= q1,
{
    if q1 < q2 {
        let f1 = flatten(e1);
        let f2 = flatten(e2);
        lemma_tokens_ranked(k, e2);
        assert(ts[q1] == f2[q1 - pos]);
        if k >= 4 {
            let p = lemma_tail_and(k, e1);
            assert(f1[p] == ts[pos + p]);
            assert(f2[p] == ts[pos + p]);
            let m = lemma_and_before_or(k, e2, p, q1 - pos);
            assert(f2[m] == ts[pos + m]);
            assert(f1[m] == ts[pos + m]);
        }
    }
}

/// Reading at one level from one place has one outcome: two trees of level
/// `k` written with the tokens from `pos`, each where reading at level `k`
/// stops, end at the same place and are the same tree.
pub proof fn lemma_read_unique(
    k: int,
    ts: Seq<Token>,
    pos: int,
    q1: int,
    e1: Ast,
    q2: int,
    e2: Ast,
)
    requires
        0 <= k <= 6,
        spans(ts, pos, q1, e1),
        level(k, e1),
        stops(k, ts, q1, e1),
        spans(ts, pos, q2, e2),
        level(k, e2),
        stops(k, ts, q2, e2),
    ensures
        q1 == q2,
        same_tree(e1, e2),
{
    lemma_stop_longest(k, ts, pos, q1, e1, q2, e2);
    lemma_stop_longest(k, ts, pos, q2, e2, q1, e1);
    lemma_level_unique(k, e1, e2);
}

} // verus!
