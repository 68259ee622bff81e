use super::node::{describe, operator_name, Ast, LogicType, RedirectType, Token};
use vstd::prelude::*;

verus! {

/// Reads job trees from a line of tokens, by binding power.
pub struct Parser<'a> {
    tokens: &'a [Token],
    pos: usize,
}

/// How tightly a token binds.
pub open spec fn token_precedence(t: Token) -> u8 {
    match t {
        Token::Separator => 5,
        Token::Background => 10,
        Token::Logic(_) => 20,
        Token::Pipe => 30,
        Token::Redirect(_) => 40,
        Token::Arg(_) => 50,
    }
}

/// How tightly the operator at the root of a tree binds (a command binds most).
pub open spec fn node_precedence(e: Ast) -> u8 {
    match e {
        Ast::Separator(..) => 5,
        Ast::Background(..) => 10,
        Ast::Logic(..) => 20,
        Ast::Pipe(..) => 30,
        Ast::Redirect(..) => 40,
        Ast::Command(_) => 50,
    }
}

pub open spec fn args_tokens(args: Seq<String>) -> Seq<Token> {
    args.map_values(|s: String| Token::Arg(s))
}

/// The tokens a tree is written with, from left to right.
pub open spec fn flatten(e: Ast) -> Seq<Token>
    decreases e,
{
    match e {
        Ast::Command(args) => args_tokens(args@),
        Ast::Pipe(l, r) => flatten(*l) + seq![Token::Pipe] + flatten(*r),
        Ast::Background(l, r) => flatten(*l) + seq![Token::Background] + flatten(*r),
        Ast::Logic(l, r, t) => flatten(*l) + seq![Token::Logic(t)] + flatten(*r),
        Ast::Redirect(l, r, t) => flatten(*l) + seq![Token::Redirect(t)] + flatten(*r),
        Ast::Separator(l, r) => flatten(*l) + seq![Token::Separator] + flatten(*r),
    }
}

/// The two sides of a tree that joins two trees (the tree itself twice for a command).
pub open spec fn sides(e: Ast) -> (Ast, Ast) {
    match e {
        Ast::Command(_) => (e, e),
        Ast::Pipe(l, r) => (*l, *r),
        Ast::Background(l, r) => (*l, *r),
        Ast::Logic(l, r, _) => (*l, *r),
        Ast::Redirect(l, r, _) => (*l, *r),
        Ast::Separator(l, r) => (*l, *r),
    }
}

/// Whether the rightmost command of `e` has no words.
pub open spec fn last_leaf_empty(e: Ast) -> bool
    decreases e,
{
    if let Ast::Command(args) = e {
        args@.len() == 0
    } else {
        last_leaf_empty(sides(e).1)
    }
}

/// Whether every command of `e` but the rightmost has words.
pub open spec fn inner_leaves_nonempty(e: Ast) -> bool
    decreases e,
{
    if e is Command {
        true
    } else {
        inner_leaves_nonempty(sides(e).0) && !last_leaf_empty(sides(e).0) && inner_leaves_nonempty(
            sides(e).1,
        )
    }
}

/// Operators of lower precedence stand above those of higher precedence, and
/// operators of equal precedence group to the left.
pub open spec fn precedence_ordered(e: Ast) -> bool
    decreases e,
{
    if e is Command {
        true
    } else {
        &&& precedence_ordered(sides(e).0)
        &&& precedence_ordered(sides(e).1)
        &&& node_precedence(sides(e).0) >= node_precedence(e)
        &&& node_precedence(sides(e).1) > node_precedence(e)
    }
}

/// A command is expected at `i`: at the start, or after an operator.
pub open spec fn command_expected(ts: Seq<Token>, i: int) -> bool {
    i == 0 || !(ts[i - 1] is Arg)
}

/// Reading fails at `i`: a command is expected there and none is found (the
/// end of the line after `&` excepted), or a `;` follows a command.
pub open spec fn fails_at(ts: Seq<Token>, i: int) -> bool {
    if command_expected(ts, i) {
        if i == ts.len() {
            !(i > 0 && ts[i - 1] is Background)
        } else {
            !(ts[i] is Arg)
        }
    } else {
        i < ts.len() && ts[i] is Separator
    }
}

/// Reading fails nowhere before `i`.
pub open spec fn sound_before(ts: Seq<Token>, i: int) -> bool {
    forall|j: int| 0 <= j < i ==> !#[trigger] fails_at(ts, j)
}

/// The message of a failure at `i`.
pub open spec fn failure_message(ts: Seq<Token>, i: int) -> Seq<char> {
    if command_expected(ts, i) {
        if i == ts.len() {
            "Unexpected end of tokens"@
        } else {
            "Unexpected token: "@ + operator_name(ts[i]@)
        }
    } else {
        "Unexpected infix token: "@ + operator_name(ts[i]@)
    }
}

/// What reading the whole line `ts` gives: the tree written with exactly its
/// tokens, ordered by precedence, whose commands all have words but for a
/// final `&` with nothing after it; or, at the first place where reading
/// fails, its message.
pub open spec fn read_result(ts: Seq<Token>, res: Result<Ast, String>) -> bool {
    match res {
        Ok(e) => {
            &&& sound_before(ts, ts.len() as int + 1)
            &&& flatten(e) == ts
            &&& precedence_ordered(e)
            &&& inner_leaves_nonempty(e)
            &&& last_leaf_empty(e) ==> ts.len() > 0 && ts.last() is Background
        },
        Err(m) => exists|i: int|
            0 <= i <= ts.len() && fails_at(ts, i) && sound_before(ts, i) && m@ == failure_message(
                ts,
                i,
            ),
    }
}

/// `e` was read from `ts[pos..q]` by an expression call at binding power `p`.
pub open spec fn parsed_from(ts: Seq<Token>, pos: int, q: int, e: Ast, p: u8) -> bool {
    &&& pos < q <= ts.len()
    &&& flatten(e) == ts.subrange(pos, q)
    &&& precedence_ordered(e)
    &&& inner_leaves_nonempty(e)
    &&& node_precedence(e) >= p
    &&& (last_leaf_empty(e) ==> q == ts.len() && ts[q - 1] is Background)
    &&& (q < ts.len() ==> !(ts[q] is Arg) && token_precedence(ts[q]) < p)
    &&& sound_before(ts, q)
}

/// Reading from `pos` on failed at the first failing place.
pub open spec fn failed_from(ts: Seq<Token>, pos: int, m: String) -> bool {
    exists|i: int|
        pos <= i <= ts.len() && fails_at(ts, i) && sound_before(ts, i) && m@ == failure_message(
            ts,
            i,
        )
}

pub proof fn lemma_args_tokens(args: Seq<String>)
    ensures
        args_tokens(args).len() == args.len(),
        forall|i: int| 0 <= i < args.len() ==> #[trigger] args_tokens(args)[i] == Token::Arg(args[i]),
{
}

/// A tree whose rightmost command has words ends in a word.
proof fn lemma_ends_in_word(e: Ast)
    requires
        !last_leaf_empty(e),
    ensures
        flatten(e).len() > 0,
        flatten(e).last() is Arg,
    decreases e,
{
    if let Ast::Command(args) = e {
        lemma_args_tokens(args@);
    } else {
        let (l, r) = sides(e);
        lemma_ends_in_word(r);
        assert(flatten(e) == flatten(l) + seq![flatten(e)[flatten(l).len() as int]] + flatten(r));
        assert(flatten(e).last() == flatten(r).last());
    }
}

/// A job tree with its word lists taken as sequences.
pub enum AstModel {
    Command(Seq<String>),
    Pipe(Box<AstModel>, Box<AstModel>),
    Background(Box<AstModel>, Box<AstModel>),
    Logic(Box<AstModel>, Box<AstModel>, LogicType),
    Redirect(Box<AstModel>, Box<AstModel>, RedirectType),
    Separator(Box<AstModel>, Box<AstModel>),
}

pub open spec fn ast_model(e: Ast) -> AstModel
    decreases e,
{
    match e {
        Ast::Command(args) => AstModel::Command(args@),
        Ast::Pipe(l, r) => AstModel::Pipe(Box::new(ast_model(*l)), Box::new(ast_model(*r))),
        Ast::Background(l, r) => AstModel::Background(
            Box::new(ast_model(*l)),
            Box::new(ast_model(*r)),
        ),
        Ast::Logic(l, r, t) => AstModel::Logic(Box::new(ast_model(*l)), Box::new(ast_model(*r)), t),
        Ast::Redirect(l, r, t) => AstModel::Redirect(
            Box::new(ast_model(*l)),
            Box::new(ast_model(*r)),
            t,
        ),
        Ast::Separator(l, r) => AstModel::Separator(
            Box::new(ast_model(*l)),
            Box::new(ast_model(*r)),
        ),
    }
}

/// The token written between the two sides of a tree that joins two trees.
pub open spec fn root_token(e: Ast) -> Token {
    match e {
        Ast::Pipe(..) => Token::Pipe,
        Ast::Background(..) => Token::Background,
        Ast::Logic(_, _, t) => Token::Logic(t),
        Ast::Redirect(_, _, t) => Token::Redirect(t),
        _ => Token::Separator,
    }
}

proof fn lemma_flatten_split(e: Ast)
    requires
        !(e is Command),
    ensures
        flatten(e) == flatten(sides(e).0) + seq![root_token(e)] + flatten(sides(e).1),
        token_precedence(root_token(e)) == node_precedence(e),
        !(root_token(e) is Arg),
{
}

/// In an ordered tree every operator binds at least as tightly as the root.
proof fn lemma_root_binds_loosest(e: Ast)
    requires
        precedence_ordered(e),
    ensures
        forall|i: int|
            0 <= i < flatten(e).len() && !(#[trigger] flatten(e)[i] is Arg) ==> token_precedence(
                flatten(e)[i],
            ) >= node_precedence(e),
    decreases e,
{
    if let Ast::Command(args) = e {
        lemma_args_tokens(args@);
    } else {
        let (l, r) = sides(e);
        lemma_flatten_split(e);
        lemma_root_binds_loosest(l);
        lemma_root_binds_loosest(r);
        let fl = flatten(l);
        let fr = flatten(r);
        assert forall|i: int|
            0 <= i < flatten(e).len() && !(#[trigger] flatten(e)[i] is Arg) implies token_precedence(
            flatten(e)[i],
        ) >= node_precedence(e) by {
            if i < fl.len() {
                assert(flatten(e)[i] == fl[i]);
            } else if i > fl.len() {
                assert(flatten(e)[i] == fr[i - fl.len() - 1]);
            }
        }
    }
}

/// Which sides a tree that joins two trees may have in a parse. From loosest
/// to tightest: `;`, `&`, the logical operators (`&&` and `||` alike), `|`,
/// the redirections; a side may only hold operators that bind more tightly,
/// except that the left side may also hold the same kind (operators of one
/// kind group to the left).
pub open spec fn may_join(e: Ast) -> bool {
    let l = sides(e).0;
    let r = sides(e).1;
    match e {
        Ast::Command(_) => true,
        Ast::Separator(..) => !(r is Separator),
        Ast::Background(..) => !(l is Separator) && !(r is Separator) && !(r is Background),
        Ast::Logic(..) => {
            &&& !(l is Separator) && !(l is Background)
            &&& (r is Command || r is Pipe || r is Redirect)
        },
        Ast::Pipe(..) => {
            &&& (l is Command || l is Pipe || l is Redirect)
            &&& (r is Command || r is Redirect)
        },
        Ast::Redirect(..) => (l is Command || l is Redirect) && r is Command,
    }
}

/// The binding order of the operators: a tree that joins two trees is
/// ordered exactly when its sides are ordered and it may join them. So `&&`
/// and `||` bind alike: `a || b && c` reads as `(a || b) && c`.
pub proof fn lemma_binding_order(e: Ast)
    requires
        !(e is Command),
    ensures
        precedence_ordered(e) <==> (precedence_ordered(sides(e).0) && precedence_ordered(sides(e).1)
            && may_join(e)),
{
}

/// A line of tokens has at most one ordered tree that is written with it:
/// the tree that `parse` gives is the only one there is.
pub proof fn lemma_read_unique(ts: Seq<Token>, e1: Ast, e2: Ast)
    requires
        flatten(e1) == ts,
        precedence_ordered(e1),
        flatten(e2) == ts,
        precedence_ordered(e2),
    ensures
        ast_model(e1) == ast_model(e2),
    decreases e1,
{
    if let Ast::Command(a1) = e1 {
        lemma_args_tokens(a1@);
        if let Ast::Command(a2) = e2 {
            lemma_args_tokens(a2@);
            assert forall|i: int| 0 <= i < a1@.len() implies a1@[i] == a2@[i] by {
                assert(args_tokens(a1@)[i] == args_tokens(a2@)[i]);
            }
            assert(a1@ =~= a2@);
        } else {
            lemma_flatten_split(e2);
            let k = flatten(sides(e2).0).len() as int;
            assert(flatten(e2)[k] == root_token(e2));
            assert(args_tokens(a1@)[k] == Token::Arg(a1@[k]));
        }
    } else {
        lemma_flatten_split(e1);
        let (l1, r1) = sides(e1);
        let k1 = flatten(l1).len() as int;
        assert(flatten(e1)[k1] == root_token(e1));
        if let Ast::Command(a2) = e2 {
            lemma_args_tokens(a2@);
            assert(args_tokens(a2@)[k1] == Token::Arg(a2@[k1]));
        } else {
            lemma_flatten_split(e2);
            let (l2, r2) = sides(e2);
            let k2 = flatten(l2).len() as int;
            assert(flatten(e2)[k2] == root_token(e2));
            lemma_root_binds_loosest(l1);
            lemma_root_binds_loosest(l2);
            lemma_root_binds_loosest(r1);
            lemma_root_binds_loosest(r2);
            let f1 = flatten(l1) + seq![root_token(e1)];
            assert(flatten(e1) == f1 + flatten(r1));
            assert(flatten(e2) == flatten(l2) + seq![root_token(e2)] + flatten(r2));
            if k1 < k2 {
                assert(k2 < ts.len());
                assert((f1 + flatten(r1))[k2] == flatten(r1)[k2 - f1.len()]);
                assert(flatten(e1)[k2] == flatten(r1)[k2 - k1 - 1]);
                assert(flatten(e2)[k1] == flatten(l2)[k1]);
                assert(false);
            } else if k2 < k1 {
                let f2 = flatten(l2) + seq![root_token(e2)];
                assert(flatten(e2) == f2 + flatten(r2));
                assert(k1 < ts.len());
                assert((f2 + flatten(r2))[k1] == flatten(r2)[k1 - f2.len()]);
                assert(flatten(e2)[k1] == flatten(r2)[k1 - k2 - 1]);
                assert(flatten(e1)[k2] == flatten(l1)[k2]);
                assert(false);
            }
            assert(root_token(e1) == root_token(e2));
            assert(flatten(l1) =~= ts.subrange(0, k1));
            assert(flatten(l2) =~= ts.subrange(0, k1));
            assert(flatten(r1) =~= ts.subrange(k1 + 1, ts.len() as int));
            assert(flatten(r2) =~= ts.subrange(k1 + 1, ts.len() as int));
            lemma_read_unique(ts.subrange(0, k1), l1, l2);
            lemma_read_unique(ts.subrange(k1 + 1, ts.len() as int), r1, r2);
        }
    }
}

impl<'a> Parser<'a> {
    /// The tokens being read.
    pub closed spec fn tokens(&self) -> Seq<Token> {
        self.tokens@
    }

    /// How many tokens have been read.
    pub closed spec fn position(&self) -> int {
        self.pos as int
    }

    pub closed spec fn wf(&self) -> bool {
        self.pos <= self.tokens@.len()
    }

    pub fn new(tokens: &'a [Token]) -> (p: Self)
        ensures
            p.wf(),
            p.tokens() == tokens@,
            p.position() == 0,
    {
        Parser { tokens: tokens, pos: 0 }
    }

    /// Reads a tree from the tokens not read yet; afterwards every token has
    /// been read where reading succeeded.
    pub fn parse(&mut self) -> (res: Result<Ast, String>)
        requires
            old(self).wf(),
        ensures
            final(self).wf(),
            final(self).tokens() == old(self).tokens(),
            read_result(old(self).tokens().subrange(old(self).position(), old(self).tokens().len() as int), res),
            res is Ok ==> final(self).position() == final(self).tokens().len(),
    {
        let (_, rest) = self.tokens.split_at(self.pos);
        let mut sub = Parser { tokens: rest, pos: 0 };
        let res = sub.parse_expression(0);
        let n = self.tokens.len();
        assert(rest@.len() == n - self.pos);
        assert(sub.pos <= rest@.len());
        self.pos = self.pos + sub.pos;
        match res {
            Ok(e) => {
                assert(rest@.subrange(0, rest@.len() as int) =~= rest@);
                proof {
                    let ts = rest@;
                    if !last_leaf_empty(e) {
                        lemma_ends_in_word(e);
                    }
                    assert(!fails_at(ts, ts.len() as int));
                }
                Ok(e)
            },
            Err(m) => Err(m),
        }
    }

    fn parse_expression(&mut self, precedence: u8) -> (res: Result<Ast, String>)
        requires
            old(self).wf(),
            precedence <= 41,
            command_expected(old(self).tokens(), old(self).position()),
            sound_before(old(self).tokens(), old(self).position()),
            old(self).position() == old(self).tokens().len() ==> !(old(self).position() > 0
                && old(self).tokens()[old(self).position() - 1] is Background),
        ensures
            final(self).wf(),
            final(self).tokens() == old(self).tokens(),
            res matches Ok(e) ==> parsed_from(
                final(self).tokens(),
                old(self).position(),
                final(self).position(),
                e,
                precedence,
            ),
            res matches Err(m) ==> failed_from(old(self).tokens(), old(self).position(), m),
        decreases old(self).tokens().len() - old(self).position(), 0nat,
    {
        let ghost ts = self.tokens@;
        let ghost pos = self.pos as int;
        let mut left = self.parse_primary()?;
        while self.pos < self.tokens.len()
            invariant
                self.wf(),
                self.tokens@ == ts,
                ts == old(self).tokens(),
                pos == old(self).position(),
                precedence <= 41,
                0 <= pos < self.pos,
                flatten(left) == ts.subrange(pos, self.pos as int),
                precedence_ordered(left),
                inner_leaves_nonempty(left),
                node_precedence(left) >= precedence,
                self.pos < ts.len() ==> token_precedence(ts[self.pos as int]) <= node_precedence(left),
                last_leaf_empty(left) ==> self.pos == ts.len() && ts[self.pos - 1] is Background,
                self.pos < ts.len() ==> !(ts[self.pos as int] is Arg),
                sound_before(ts, self.pos as int),
            ensures
                self.wf(),
                self.tokens@ == ts,
                parsed_from(ts, pos, self.pos as int, left, precedence),
            decreases ts.len() - self.pos,
        {
            let tokens: &'a [Token] = self.tokens;
            let token = &tokens[self.pos];
            let tp = Parser::<'a>::get_precedence(token);
            assert(pos < self.pos);
            assert(tokens@ == ts);
            assert(flatten(left) == ts.subrange(pos, self.pos as int));
            if tp < precedence {
                break;
            }
            proof {
                assert(self.pos <= ts.len());
                assert(0 <= pos);
                assert(ts.subrange(pos, self.pos as int).len() == self.pos - pos);
                assert(!last_leaf_empty(left));
                lemma_ends_in_word(left);
                assert(flatten(left).len() > 0);
                assert(flatten(left).len() == self.pos - pos);
                assert(flatten(left)[flatten(left).len() - 1] == ts[self.pos - 1]);
                assert(flatten(left).last() == ts[self.pos - 1]);
            }
            let ghost oq = self.pos as int;
            let ghost old_left = left;
            self.pos = self.pos + 1;
            left = self.parse_infix(left, token, tp)?;
            proof {
                let (l, r) = sides(left);
                assert(l == old_left);
                assert(token_precedence(ts[oq]) <= node_precedence(old_left));
                assert(node_precedence(l) >= node_precedence(left));
                assert(precedence_ordered(r));
                assert(node_precedence(r) > node_precedence(left));
                assert(inner_leaves_nonempty(r));
                assert(precedence_ordered(left));
                assert(flatten(left) =~= ts.subrange(pos, self.pos as int)) by {
                    assert(flatten(left) == flatten(l) + seq![ts[oq]] + flatten(r));
                }
                assert forall|j: int| 0 <= j < self.pos implies !#[trigger] fails_at(ts, j) by {
                    if j == oq {
                    } else if j < oq {
                    }
                }
            }
        }
        Ok(left)
    }

    fn parse_primary(&mut self) -> (res: Result<Ast, String>)
        requires
            old(self).wf(),
            command_expected(old(self).tokens(), old(self).position()),
            sound_before(old(self).tokens(), old(self).position()),
            old(self).position() == old(self).tokens().len() ==> !(old(self).position() > 0
                && old(self).tokens()[old(self).position() - 1] is Background),
        ensures
            final(self).wf(),
            final(self).tokens() == old(self).tokens(),
            res matches Ok(e) ==> {
                &&& e is Command
                &&& !last_leaf_empty(e)
                &&& old(self).position() < final(self).position()
                &&& flatten(e) == old(self).tokens().subrange(
                    old(self).position(),
                    final(self).position(),
                )
                &&& final(self).position() < final(self).tokens().len() ==> !(
                final(self).tokens()[final(self).position()] is Arg)
                &&& sound_before(final(self).tokens(), final(self).position())
            },
            res matches Err(m) ==> failed_from(old(self).tokens(), old(self).position(), m),
    {
        let ghost ts = self.tokens@;
        let ghost pos = self.pos as int;
        if self.pos < self.tokens.len() {
            let token = &self.tokens[self.pos];
            self.pos = self.pos + 1;
            match token {
                Token::Arg(value) => {
                    let mut args: Vec<String> = Vec::new();
                    args.push(value.clone());
                    proof {
                        lemma_args_tokens(args@);
                        assert(ts[pos] == Token::Arg(*value));
                    }
                    assert(args_tokens(args@) =~= ts.subrange(pos, self.pos as int));
                    while self.pos < self.tokens.len()
                        invariant
                            self.wf(),
                            self.tokens@ == ts,
                            0 <= pos < self.pos <= ts.len(),
                            args@.len() > 0,
                            args_tokens(args@) == ts.subrange(pos, self.pos as int),
                            forall|i: int| pos <= i < self.pos ==> #[trigger] ts[i] is Arg,
                        ensures
                            self.wf(),
                            self.tokens@ == ts,
                            0 <= pos < self.pos <= ts.len(),
                            args@.len() > 0,
                            args_tokens(args@) == ts.subrange(pos, self.pos as int),
                            forall|i: int| pos <= i < self.pos ==> #[trigger] ts[i] is Arg,
                            self.pos < ts.len() ==> !(ts[self.pos as int] is Arg),
                        decreases ts.len() - self.pos,
                    {
                        match &self.tokens[self.pos] {
                            Token::Arg(v) => {
                                let ghost old_args = args@;
                                args.push(v.clone());
                                proof {
                                    lemma_args_tokens(args@);
                                    lemma_args_tokens(old_args);
                                    assert(ts[self.pos as int] == Token::Arg(*v));
                                }
                                self.pos = self.pos + 1;
                                assert(args_tokens(args@) =~= ts.subrange(pos, self.pos as int));
                            },
                            _ => {
                                break;
                            },
                        }
                    }
                    assert forall|j: int| 0 <= j < self.pos implies !#[trigger] fails_at(ts, j) by {
                        if j > pos {
                            assert(ts[j - 1] is Arg);
                        }
                    }
                    Ok(Ast::Command(args))
                },
                _ => {
                    let mut m = String::from_str("Unexpected token: ");
                    let d = describe(token);
                    m.append(&d);
                    assert(fails_at(ts, pos));
                    Err(m)
                },
            }
        } else {
            assert(fails_at(ts, pos));
            Err(String::from_str("Unexpected end of tokens"))
        }
    }

    fn parse_infix(&mut self, left: Ast, token: &Token, precedence: u8) -> (res: Result<Ast, String>)
        requires
            old(self).wf(),
            1 <= old(self).position(),
            *token == old(self).tokens()[old(self).position() - 1],
            !(token is Arg),
            precedence == token_precedence(*token),
            sound_before(old(self).tokens(), old(self).position() - 1),
            old(self).position() >= 2 && old(self).tokens()[old(self).position() - 2] is Arg,
        ensures
            final(self).wf(),
            final(self).tokens() == old(self).tokens(),
            res matches Ok(e) ==> {
                &&& !(e is Command)
                &&& sides(e).0 == left
                &&& node_precedence(e) == precedence
                &&& flatten(e) == flatten(left) + seq![*token] + flatten(sides(e).1)
                &&& ((sides(e).1 is Command && last_leaf_empty(sides(e).1) && e is Background
                    && final(self).position() == old(self).position() && old(self).position()
                    == old(self).tokens().len() && sound_before(final(self).tokens(), final(self).position()))
                    || parsed_from(
                    final(self).tokens(),
                    old(self).position(),
                    final(self).position(),
                    sides(e).1,
                    (precedence + 1) as u8,
                ))
            },
            res matches Err(m) ==> failed_from(old(self).tokens(), old(self).position() - 1, m),
        decreases old(self).tokens().len() - old(self).position(), 1nat,
    {
        let ghost ts = self.tokens@;
        let ghost pos = self.pos as int;
        assert(!command_expected(ts, pos - 1));
        assert(!fails_at(ts, pos - 1) || token is Separator);
        match token {
            Token::Pipe => {
                let right = self.parse_expression(precedence + 1)?;
                Ok(Ast::Pipe(Box::new(left), Box::new(right)))
            },
            Token::Background => {
                if self.pos < self.tokens.len() {
                    let right = self.parse_expression(precedence + 1)?;
                    Ok(Ast::Background(Box::new(left), Box::new(right)))
                } else {
                    let empty: Vec<String> = Vec::new();
                    assert(args_tokens(empty@) =~= Seq::<Token>::empty());
                    assert forall|j: int| 0 <= j < pos implies !#[trigger] fails_at(ts, j) by {
                        if j == pos - 1 {
                        }
                    }
                    Ok(Ast::Background(Box::new(left), Box::new(Ast::Command(empty))))
                }
            },
            Token::Logic(t) => {
                let right = self.parse_expression(precedence + 1)?;
                Ok(Ast::Logic(Box::new(left), Box::new(right), *t))
            },
            Token::Redirect(t) => {
                let right = self.parse_expression(precedence + 1)?;
                Ok(Ast::Redirect(Box::new(left), Box::new(right), *t))
            },
            _ => {
                let mut m = String::from_str("Unexpected infix token: ");
                let d = describe(token);
                m.append(&d);
                assert(fails_at(ts, pos - 1));
                Err(m)
            },
        }
    }

    pub fn get_precedence(token: &Token) -> (p: u8)
        ensures
            p == token_precedence(*token),
    {
        match token {
            Token::Separator => 5,
            Token::Background => 10,
            Token::Logic(_) => 20,
            Token::Pipe => 30,
            Token::Redirect(_) => 40,
            Token::Arg(_) => 50,
        }
    }
}

} // verus!
