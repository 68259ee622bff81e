use crate::engine::error::ShellError;
use crate::engine::lexer::Token;
use vstd::prelude::*;

verus! {

/// The operators that join two expressions.
#[derive(Debug, PartialEq, Eq, Structural, Clone, Copy)]
pub enum Operator {
    LogicalAnd,
    LogicalOr,
    Separator,
    RedirectOverwrite,
    RedirectAppend,
    Pipe,
}

/// A command with its arguments, or two expressions joined by an operator.
#[derive(Debug)]
pub enum Expr {
    Atomic(Vec<String>),
    Binary(Box<Expr>, Operator, Box<Expr>),
}

/// An expression with its word lists taken as sequences.
pub enum ExprModel {
    Atomic(Seq<String>),
    Binary(Box<ExprModel>, Operator, Box<ExprModel>),
}

pub open spec fn expr_model(e: Expr) -> ExprModel
    decreases e,
{
    match e {
        Expr::Atomic(args) => ExprModel::Atomic(args@),
        Expr::Binary(l, op, r) => ExprModel::Binary(
            Box::new(expr_model(*l)),
            op,
            Box::new(expr_model(*r)),
        ),
    }
}

impl View for Expr {
    type V = ExprModel;

    open spec fn view(&self) -> ExprModel {
        expr_model(*self)
    }
}

pub open spec fn is_operator(t: Token) -> bool {
    !(t is Atomic)
}

/// How tightly a token binds; words bind least.
pub open spec fn token_precedence(t: Token) -> u8 {
    match t {
        Token::Atomic(_) => 0,
        Token::Separator => 1,
        Token::LogicalAnd => 2,
        Token::LogicalOr => 2,
        Token::Pipe => 3,
        Token::RedirectOverwrite => 4,
        Token::RedirectAppend => 4,
    }
}

pub open spec fn operator_precedence(op: Operator) -> u8 {
    match op {
        Operator::Separator => 1,
        Operator::LogicalAnd => 2,
        Operator::LogicalOr => 2,
        Operator::Pipe => 3,
        Operator::RedirectOverwrite => 4,
        Operator::RedirectAppend => 4,
    }
}

/// The token that writes an operator.
pub open spec fn operator_token(op: Operator) -> Token {
    match op {
        Operator::LogicalAnd => Token::LogicalAnd,
        Operator::LogicalOr => Token::LogicalOr,
        Operator::Separator => Token::Separator,
        Operator::RedirectOverwrite => Token::RedirectOverwrite,
        Operator::RedirectAppend => Token::RedirectAppend,
        Operator::Pipe => Token::Pipe,
    }
}

/// The operator a token stands for (words stand for none and map to `Separator`).
pub open spec fn token_operator(t: Token) -> Operator {
    match t {
        Token::LogicalAnd => Operator::LogicalAnd,
        Token::LogicalOr => Operator::LogicalOr,
        Token::RedirectOverwrite => Operator::RedirectOverwrite,
        Token::RedirectAppend => Operator::RedirectAppend,
        Token::Pipe => Operator::Pipe,
        _ => Operator::Separator,
    }
}

pub open spec fn words(args: Seq<String>) -> Seq<Token> {
    args.map_values(|s: String| Token::Atomic(s))
}

/// The tokens an expression is written with, from left to right.
pub open spec fn flatten(e: Expr) -> Seq<Token>
    decreases e,
{
    match e {
        Expr::Atomic(args) => words(args@),
        Expr::Binary(l, op, r) => flatten(*l) + seq![operator_token(op)] + flatten(*r),
    }
}

/// Whether the rightmost command of `e` has no words.
pub open spec fn last_leaf_empty(e: Expr) -> bool
    decreases e,
{
    match e {
        Expr::Atomic(args) => args@.len() == 0,
        Expr::Binary(_, _, r) => last_leaf_empty(*r),
    }
}

/// Whether every command of `e` but the rightmost has words.
pub open spec fn inner_leaves_nonempty(e: Expr) -> bool
    decreases e,
{
    match e {
        Expr::Atomic(_) => true,
        Expr::Binary(l, _, r) => inner_leaves_nonempty(*l) && !last_leaf_empty(*l)
            && inner_leaves_nonempty(*r),
    }
}

/// Whether operators of lower precedence stand above those of higher
/// precedence, and operators of equal precedence group to the left.
pub open spec fn precedence_ordered(e: Expr) -> bool
    decreases e,
{
    match e {
        Expr::Atomic(_) => true,
        Expr::Binary(l, op, r) => {
            &&& precedence_ordered(*l)
            &&& precedence_ordered(*r)
            &&& (*l matches Expr::Binary(_, lop, _) ==> operator_precedence(lop)
                >= operator_precedence(op))
            &&& (*r matches Expr::Binary(_, rop, _) ==> operator_precedence(rop)
                > operator_precedence(op))
        },
    }
}

/// The `i`-th token is an operator with no word before it.
pub open spec fn misplaced(ts: Seq<Token>, i: int) -> bool {
    is_operator(ts[i]) && (i == 0 || is_operator(ts[i - 1]))
}

/// Every operator follows a word.
pub open spec fn well_placed(ts: Seq<Token>) -> bool {
    forall|i: int| 0 <= i < ts.len() ==> !#[trigger] misplaced(ts, i)
}

/// The shape of a parse: `e` is written with exactly the tokens of `ts`.
pub open spec fn parse_shape(ts: Seq<Token>, e: Expr) -> bool {
    &&& flatten(e) == ts
    &&& precedence_ordered(e)
    &&& inner_leaves_nonempty(e)
}

pub open spec fn is_unexpected_symbol(e: ShellError) -> bool {
    e matches ShellError::Parser(m) && m@ == "Unexpected symbol"@
}

/// `e` was read from `ts[pos..q]` by an expression call at binding power `p`.
pub open spec fn parsed_from(ts: Seq<Token>, pos: int, q: int, e: Expr, p: u8) -> bool {
    &&& pos <= q <= ts.len()
    &&& flatten(e) == ts.subrange(pos, q)
    &&& precedence_ordered(e)
    &&& inner_leaves_nonempty(e)
    &&& (e matches Expr::Binary(_, op, _) ==> operator_precedence(op) >= p)
    &&& (last_leaf_empty(e) ==> q == ts.len())
    &&& (q < ts.len() ==> is_operator(ts[q]) && token_precedence(ts[q]) < p)
    &&& forall|i: int| pos <= i < q ==> !#[trigger] misplaced(ts, i)
}

proof fn lemma_words_len(args: Seq<String>)
    ensures
        words(args).len() == args.len(),
        forall|i: int| 0 <= i < args.len() ==> #[trigger] words(args)[i] == Token::Atomic(args[i]),
{
}

/// A tree whose rightmost command has words ends in a word.
proof fn lemma_ends_in_word(e: Expr)
    requires
        !last_leaf_empty(e),
    ensures
        flatten(e).len() > 0,
        !is_operator(flatten(e).last()),
    decreases e,
{
    match e {
        Expr::Atomic(args) => {
            lemma_words_len(args@);
        },
        Expr::Binary(l, op, r) => {
            lemma_ends_in_word(*r);
            let s = flatten(*l) + seq![operator_token(op)];
            assert((s + flatten(*r)).last() == flatten(*r).last());
        },
    }
}

/// In an ordered tree every operator binds at least as tightly as the root.
proof fn lemma_root_binds_loosest(e: Expr)
    requires
        precedence_ordered(e),
        e is Binary,
    ensures
        e matches Expr::Binary(_, op, _) ==> forall|i: int|
            0 <= i < flatten(e).len() && is_operator(#[trigger] flatten(e)[i]) ==> token_precedence(
                flatten(e)[i],
            ) >= operator_precedence(op),
    decreases e,
{
    if let Expr::Binary(l, op, r) = e {
        let fl = flatten(*l);
        let fr = flatten(*r);
        let mid = fl + seq![operator_token(op)];
        assert(flatten(e) == mid + fr);
        if *l is Binary {
            lemma_root_binds_loosest(*l);
        } else if let Expr::Atomic(args) = *l {
            lemma_words_len(args@);
        }
        if *r is Binary {
            lemma_root_binds_loosest(*r);
        } else if let Expr::Atomic(args) = *r {
            lemma_words_len(args@);
        }
        assert forall|i: int|
            0 <= i < flatten(e).len() && is_operator(#[trigger] flatten(e)[i]) implies token_precedence(
            flatten(e)[i],
        ) >= operator_precedence(op) by {
            if i < fl.len() {
                assert(flatten(e)[i] == fl[i]);
            } else if i == fl.len() {
            } else {
                assert(flatten(e)[i] == fr[i - fl.len() - 1]);
            }
        }
    }
}

/// A line of tokens has at most one ordered tree that is written with it: the
/// result that `parse` promises is the only one there is.
pub proof fn lemma_parse_shape_unique(ts: Seq<Token>, e1: Expr, e2: Expr)
    requires
        flatten(e1) == ts,
        precedence_ordered(e1),
        flatten(e2) == ts,
        precedence_ordered(e2),
    ensures
        e1@ == e2@,
    decreases e1,
{
    match e1 {
        Expr::Atomic(a1) => {
            lemma_words_len(a1@);
            match e2 {
                Expr::Atomic(a2) => {
                    lemma_words_len(a2@);
                    assert forall|i: int| 0 <= i < a1@.len() implies a1@[i] == a2@[i] by {
                        assert(words(a1@)[i] == words(a2@)[i]);
                    }
                    assert(a1@ =~= a2@);
                },
                Expr::Binary(l2, op2, r2) => {
                    let k = flatten(*l2).len() as int;
                    assert(flatten(e2)[k] == operator_token(op2));
                    assert(words(a1@)[k] == Token::Atomic(a1@[k]));
                },
            }
        },
        Expr::Binary(l1, op1, r1) => {
            let k1 = flatten(*l1).len() as int;
            assert(flatten(e1)[k1] == operator_token(op1));
            match e2 {
                Expr::Atomic(a2) => {
                    lemma_words_len(a2@);
                    assert(words(a2@)[k1] == Token::Atomic(a2@[k1]));
                },
                Expr::Binary(l2, op2, r2) => {
                    let k2 = flatten(*l2).len() as int;
                    assert(flatten(e2)[k2] == operator_token(op2));
                    lemma_root_binds_loosest(e1);
                    lemma_root_binds_loosest(e2);
                    if *r1 is Binary {
                        lemma_root_binds_loosest(*r1);
                    } else if let Expr::Atomic(a) = *r1 {
                        lemma_words_len(a@);
                    }
                    if *r2 is Binary {
                        lemma_root_binds_loosest(*r2);
                    } else if let Expr::Atomic(a) = *r2 {
                        lemma_words_len(a@);
                    }
                    if k1 < k2 {
                        // the root of e2 lies in the right part of e1
                        assert(flatten(e1)[k2] == flatten(*r1)[k2 - k1 - 1]);
                        assert(is_operator(flatten(e1)[k1]));
                        assert(false);
                    } else if k2 < k1 {
                        assert(flatten(e2)[k1] == flatten(*r2)[k1 - k2 - 1]);
                        assert(is_operator(flatten(e2)[k2]));
                        assert(false);
                    }
                    assert(op1 == op2);
                    assert(flatten(*l1) =~= ts.subrange(0, k1));
                    assert(flatten(*l2) =~= ts.subrange(0, k1));
                    assert(flatten(*r1) =~= ts.subrange(k1 + 1, ts.len() as int));
                    assert(flatten(*r2) =~= ts.subrange(k1 + 1, ts.len() as int));
                    lemma_parse_shape_unique(ts.subrange(0, k1), *l1, *l2);
                    lemma_parse_shape_unique(ts.subrange(k1 + 1, ts.len() as int), *r1, *r2);
                },
            }
        },
    }
}

/// The operator at the root of an expression, `None` for a command.
pub open spec fn root_operator(e: Expr) -> Option<Operator> {
    match e {
        Expr::Atomic(_) => None,
        Expr::Binary(_, op, _) => Some(op),
    }
}

pub open spec fn is_logical(op: Operator) -> bool {
    op == Operator::LogicalAnd || op == Operator::LogicalOr
}

pub open spec fn is_redirection(op: Operator) -> bool {
    op == Operator::RedirectOverwrite || op == Operator::RedirectAppend
}

/// Which expressions an operator may join in a parse. From loosest to
/// tightest: `;`, then `&&` and `||` alike, then `|`, then `>` and `>>`
/// alike; a side may only hold operators that bind more tightly, except that
/// the left side may also hold the same kind (operators of one kind group to
/// the left).
pub open spec fn may_join(op: Operator, l: Expr, r: Expr) -> bool {
    let lo = root_operator(l);
    let ro = root_operator(r);
    if op == Operator::Separator {
        ro != Some(Operator::Separator)
    } else if is_logical(op) {
        &&& lo != Some(Operator::Separator)
        &&& (ro matches Some(o) ==> o == Operator::Pipe || is_redirection(o))
    } else if op == Operator::Pipe {
        &&& (lo matches Some(o) ==> o == Operator::Pipe || is_redirection(o))
        &&& (ro matches Some(o) ==> is_redirection(o))
    } else {
        &&& (lo matches Some(o) ==> is_redirection(o))
        &&& ro is None
    }
}

/// The binding order of the operators: an expression joined by `op` is
/// ordered exactly when its sides are ordered and `op` may join them. So `;`
/// binds more loosely than `&&` and `||` (which bind alike and group to the
/// left), these more loosely than `|`, and `|` more loosely than `>` and `>>`.
pub proof fn lemma_binding_order(l: Expr, op: Operator, r: Expr)
    ensures
        precedence_ordered(Expr::Binary(Box::new(l), op, Box::new(r))) <==> (precedence_ordered(l)
            && precedence_ordered(r) && may_join(op, l, r)),
{
}

fn get_precedence(token: &Token) -> (p: u8)
    ensures
        p == token_precedence(*token),
{
    match token {
        Token::Atomic(_) => 0,
        Token::Separator => 1,
        Token::LogicalAnd | Token::LogicalOr => 2,
        Token::Pipe => 3,
        Token::RedirectOverwrite | Token::RedirectAppend => 4,
    }
}

/// Reads an expression from a line of tokens.
pub fn parse(tokens: &[Token]) -> (res: Result<Expr, ShellError>)
    ensures
        res is Ok <==> well_placed(tokens@),
        res matches Ok(e) ==> parse_shape(tokens@, e),
        res matches Err(err) ==> is_unexpected_symbol(err),
{
    match expression(tokens, 0, 0) {
        Ok((e, q)) => {
            assert(tokens@.subrange(0, tokens@.len() as int) =~= tokens@);
            Ok(e)
        },
        Err(err) => Err(err),
    }
}

fn expression(tokens: &[Token], pos: usize, precedence: u8) -> (res: Result<
    (Expr, usize),
    ShellError,
>)
    requires
        pos <= tokens@.len(),
        precedence <= 5,
        pos == 0 || is_operator(tokens@[pos - 1]),
    ensures
        res matches Ok((e, q)) ==> parsed_from(tokens@, pos as int, q as int, e, precedence),
        res matches Err(err) ==> !well_placed(tokens@) && is_unexpected_symbol(err),
    decreases tokens@.len() - pos, 0nat,
{
    let ghost ts = tokens@;
    let (mut left, mut q) = prefix(tokens, pos)?;
    while q < tokens.len()
        invariant
            ts == tokens@,
            pos <= q <= ts.len(),
            precedence <= 5,
            flatten(left) == ts.subrange(pos as int, q as int),
            precedence_ordered(left),
            inner_leaves_nonempty(left),
            left matches Expr::Binary(_, op, _) ==> operator_precedence(op) >= precedence,
            left matches Expr::Binary(_, op, _) ==> (q < ts.len() ==> token_precedence(ts[q as int])
                <= operator_precedence(op)),
            last_leaf_empty(left) ==> q == ts.len(),
            q < ts.len() ==> is_operator(ts[q as int]),
            forall|i: int| pos <= i < q ==> !#[trigger] misplaced(ts, i),
        ensures
            parsed_from(ts, pos as int, q as int, left, precedence),
        decreases ts.len() - q,
    {
        let tp = get_precedence(&tokens[q]);
        if tp < precedence {
            break;
        }
        proof {
            lemma_ends_in_word(left);
            let fl = flatten(left);
            assert(fl.last() == ts[q - 1]);
            assert(!misplaced(ts, q as int));
        }
        let token = &tokens[q];
        let ghost old_left = left;
        let ghost oq = q;
        let (e, q2) = infix(tokens, q + 1, left, token, tp)?;
        let ghost ge = e;
        proof {
            if let Expr::Binary(l, op, r) = ge {
                assert(*l == old_left);
                let fr = flatten(*r);
                assert(flatten(ge) =~= ts.subrange(pos as int, q2 as int)) by {
                    assert(flatten(ge) == flatten(old_left) + seq![operator_token(op)] + fr);
                    assert(operator_token(op) == ts[oq as int]);
                }
                assert forall|i: int| pos <= i < q2 implies !#[trigger] misplaced(ts, i) by {
                    if i < oq {
                    } else if i == oq {
                    } else {
                    }
                }
            }
        }
        left = e;
        q = q2;
    }
    Ok((left, q))
}

fn prefix(tokens: &[Token], pos: usize) -> (res: Result<(Expr, usize), ShellError>)
    requires
        pos <= tokens@.len(),
        pos == 0 || is_operator(tokens@[pos - 1]),
    ensures
        res matches Ok((e, q)) ==> {
            &&& e is Atomic
            &&& pos <= q <= tokens@.len()
            &&& flatten(e) == tokens@.subrange(pos as int, q as int)
            &&& (last_leaf_empty(e) ==> q == tokens@.len())
            &&& (q < tokens@.len() ==> is_operator(tokens@[q as int]))
            &&& forall|i: int| pos <= i < q ==> !#[trigger] is_operator(tokens@[i])
        },
        res matches Err(err) ==> pos < tokens@.len() && misplaced(tokens@, pos as int)
            && is_unexpected_symbol(err),
{
    if pos < tokens.len() {
        match &tokens[pos] {
            Token::Atomic(value) => {
                let mut args: Vec<String> = Vec::new();
                args.push(value.clone());
                let mut q = pos + 1;
                assert(words(args@) =~= tokens@.subrange(pos as int, q as int));
                while q < tokens.len()
                    invariant
                        pos < q <= tokens@.len(),
                        args@.len() > 0,
                        words(args@) == tokens@.subrange(pos as int, q as int),
                        forall|i: int| pos <= i < q ==> !#[trigger] is_operator(tokens@[i]),
                    ensures
                        pos < q <= tokens@.len(),
                        args@.len() > 0,
                        words(args@) == tokens@.subrange(pos as int, q as int),
                        forall|i: int| pos <= i < q ==> !#[trigger] is_operator(tokens@[i]),
                        q < tokens@.len() ==> is_operator(tokens@[q as int]),
                    decreases tokens@.len() - q,
                {
                    match &tokens[q] {
                        Token::Atomic(v) => {
                            let ghost old_args = args@;
                            args.push(v.clone());
                            proof {
                                lemma_words_len(args@);
                                lemma_words_len(old_args);
                                assert(tokens@[q as int] == Token::Atomic(*v));
                            }
                            q = q + 1;
                            assert(words(args@) =~= tokens@.subrange(pos as int, q as int));
                        },
                        _ => {
                            break;
                        },
                    }
                }
                Ok((Expr::Atomic(args), q))
            },
            _ => Err(ShellError::Parser(String::from_str("Unexpected symbol"))),
        }
    } else {
        let args: Vec<String> = Vec::new();
        assert(words(args@) =~= tokens@.subrange(pos as int, pos as int));
        Ok((Expr::Atomic(args), pos))
    }
}

fn infix(tokens: &[Token], pos: usize, left: Expr, token: &Token, precedence: u8) -> (res: Result<
    (Expr, usize),
    ShellError,
>)
    requires
        1 <= pos <= tokens@.len(),
        is_operator(tokens@[pos - 1]),
        *token == tokens@[pos - 1],
        precedence == token_precedence(*token),
    ensures
        res matches Ok((e, q)) ==> e matches Expr::Binary(l, op, r) && *l == left && op
            == token_operator(*token) && operator_token(op) == *token && parsed_from(
            tokens@,
            pos as int,
            q as int,
            *r,
            (precedence + 1) as u8,
        ),
        res matches Err(err) ==> !well_placed(tokens@) && is_unexpected_symbol(err),
    decreases tokens@.len() - pos, 1nat,
{
    let (right, q) = expression(tokens, pos, precedence + 1)?;
    match token {
        Token::LogicalAnd => Ok(
            (Expr::Binary(Box::new(left), Operator::LogicalAnd, Box::new(right)), q),
        ),
        Token::LogicalOr => Ok((Expr::Binary(Box::new(left), Operator::LogicalOr, Box::new(right)), q)),
        Token::Separator => Ok((Expr::Binary(Box::new(left), Operator::Separator, Box::new(right)), q)),
        Token::RedirectOverwrite => Ok(
            (Expr::Binary(Box::new(left), Operator::RedirectOverwrite, Box::new(right)), q),
        ),
        Token::RedirectAppend => Ok(
            (Expr::Binary(Box::new(left), Operator::RedirectAppend, Box::new(right)), q),
        ),
        Token::Pipe => Ok((Expr::Binary(Box::new(left), Operator::Pipe, Box::new(right)), q)),
        _ => Err(ShellError::Parser(String::from_str("Unexpected infix symbol"))),
    }
}

} // verus!
