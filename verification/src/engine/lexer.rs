use crate::engine::error::ShellError;
use crate::text::{chars_of, push_char};
use vstd::prelude::*;

verus! {

/// A word or an operator of the line language.
#[derive(Debug, PartialEq)]
pub enum Token {
    Atomic(String),
    LogicalAnd,
    LogicalOr,
    Separator,
    RedirectOverwrite,
    RedirectAppend,
    Pipe,
}

/// A token with its word taken as a sequence of characters.
pub enum TokenModel {
    Atomic(Seq<char>),
    LogicalAnd,
    LogicalOr,
    Separator,
    RedirectOverwrite,
    RedirectAppend,
    Pipe,
}

impl View for Token {
    type V = TokenModel;

    open spec fn view(&self) -> TokenModel {
        match self {
            Token::Atomic(s) => TokenModel::Atomic(s@),
            Token::LogicalAnd => TokenModel::LogicalAnd,
            Token::LogicalOr => TokenModel::LogicalOr,
            Token::Separator => TokenModel::Separator,
            Token::RedirectOverwrite => TokenModel::RedirectOverwrite,
            Token::RedirectAppend => TokenModel::RedirectAppend,
            Token::Pipe => TokenModel::Pipe,
        }
    }
}

/// Whether `c` has the Unicode Alphabetic property, as `char::is_alphabetic` says.
pub uninterp spec fn unicode_alphabetic(c: char) -> bool;

/// Calls `char::is_alphabetic`; its result is named `unicode_alphabetic`.
/// Among ASCII characters, Alphabetic holds of the letters only.
#[verifier::external_body]
fn is_alphabetic(c: char) -> (r: bool)
    ensures
        r == unicode_alphabetic(c),
        (c as u32) < 128 ==> (r <==> ('a' <= c <= 'z' || 'A' <= c <= 'Z')),
{
    c.is_alphabetic()
}

/// Characters that separate tokens and are otherwise dropped.
pub open spec fn is_blank(c: char) -> bool {
    c == ' ' || c == '\t' || c == '\n'
}

/// Characters that may begin a word.
pub open spec fn starts_word(c: char) -> bool {
    ('a' <= c && c <= 'z') || ('A' <= c && c <= 'Z') || c == '.' || c == '-' || c == '_'
}

/// Characters that may continue a word: letters (among ASCII characters the
/// ASCII letters, beyond them those with the Unicode Alphabetic property),
/// `.`, `-` and `_`.
pub open spec fn continues_word(c: char) -> bool {
    ||| c == '.' || c == '-' || c == '_'
    ||| (c as u32) < 128 && (('a' <= c && c <= 'z') || ('A' <= c && c <= 'Z'))
    ||| (c as u32) >= 128 && unicode_alphabetic(c)
}

/// The number of leading characters of `s` that continue a word.
pub open spec fn word_run(s: Seq<char>) -> nat
    decreases s.len(),
{
    if s.len() > 0 && continues_word(s[0]) {
        1 + word_run(s.drop_first())
    } else {
        0
    }
}

/// `rest` with `t` in front, or the failure unchanged.
pub open spec fn cons_ok(t: TokenModel, rest: Result<Seq<TokenModel>, ()>) -> Result<
    Seq<TokenModel>,
    (),
> {
    match rest {
        Ok(ts) => Ok(seq![t] + ts),
        Err(e) => Err(e),
    }
}

/// The tokens of a line, or `Err` where a character begins no token.
///
/// Blanks are dropped; `&&`, `||`, `;` and `>` are operators; a lone `&` or
/// `|` is dropped; a word begins with an ASCII letter, `.`, `-` or `_` and
/// runs on over the characters that continue a word.
pub open spec fn lex_model(s: Seq<char>) -> Result<Seq<TokenModel>, ()>
    decreases s.len(),
{
    if s.len() == 0 {
        Ok(seq![])
    } else {
        let c = s[0];
        if is_blank(c) {
            lex_model(s.drop_first())
        } else if c == '&' {
            if s.len() > 1 && s[1] == '&' {
                cons_ok(TokenModel::LogicalAnd, lex_model(s.skip(2)))
            } else {
                lex_model(s.drop_first())
            }
        } else if c == '|' {
            if s.len() > 1 && s[1] == '|' {
                cons_ok(TokenModel::LogicalOr, lex_model(s.skip(2)))
            } else {
                lex_model(s.drop_first())
            }
        } else if c == ';' {
            cons_ok(TokenModel::Separator, lex_model(s.drop_first()))
        } else if c == '>' {
            cons_ok(TokenModel::RedirectOverwrite, lex_model(s.drop_first()))
        } else if starts_word(c) {
            let n = 1 + word_run(s.drop_first());
            proof {
                lemma_word_run_bound(s.drop_first());
            }
            cons_ok(TokenModel::Atomic(s.take(n as int)), lex_model(s.skip(n as int)))
        } else {
            Err(())
        }
    }
}

/// The tokens so far followed by what the rest of the line gives.
pub open spec fn prepend_ok(done: Seq<TokenModel>, rest: Result<Seq<TokenModel>, ()>) -> Result<
    Seq<TokenModel>,
    (),
> {
    match rest {
        Ok(ts) => Ok(done + ts),
        Err(e) => Err(e),
    }
}

pub open spec fn tokens_view(ts: Seq<Token>) -> Seq<TokenModel> {
    ts.map_values(|t: Token| t@)
}

proof fn lemma_prepend_empty(rest: Result<Seq<TokenModel>, ()>)
    ensures
        prepend_ok(Seq::<TokenModel>::empty(), rest) == rest,
{
    if let Ok(ts) = rest {
        assert(Seq::<TokenModel>::empty() + ts =~= ts);
    }
}

proof fn lemma_prepend_cons(done: Seq<TokenModel>, t: TokenModel, rest: Result<Seq<TokenModel>, ()>)
    ensures
        prepend_ok(done, cons_ok(t, rest)) == prepend_ok(done.push(t), rest),
{
    match rest {
        Ok(ts) => {
            assert(done + (seq![t] + ts) =~= done.push(t) + ts);
        },
        Err(()) => {},
    }
}

pub proof fn lemma_word_run_bound(s: Seq<char>)
    ensures
        word_run(s) <= s.len(),
        forall|k: int| 0 <= k < word_run(s) ==> continues_word(#[trigger] s[k]),
        word_run(s) < s.len() ==> !continues_word(s[word_run(s) as int]),
    decreases s.len(),
{
    if s.len() > 0 && continues_word(s[0]) {
        lemma_word_run_bound(s.drop_first());
        assert forall|k: int| 0 <= k < word_run(s) implies continues_word(#[trigger] s[k]) by {
            if k > 0 {
                assert(s[k] == s.drop_first()[k - 1]);
            }
        }
    }
}

/// Splits a line into tokens.
pub fn lex(input: String) -> (res: Result<Vec<Token>, ShellError>)
    ensures
        match (res, lex_model(input@)) {
            (Ok(ts), Ok(m)) => tokens_view(ts@) == m,
            (Err(e), Err(())) => e matches ShellError::Lexer(msg) && msg@ == "Unknown symbol"@,
            _ => false,
        },
{
    let src = chars_of(input.as_str());
    let n = src.len();
    let mut tokens: Vec<Token> = Vec::new();
    let mut i: usize = 0;
    assert(src@.skip(0) =~= src@);
    assert(tokens_view(tokens@) =~= Seq::<TokenModel>::empty());
    proof {
        lemma_prepend_empty(lex_model(input@));
    }
    while i < n
        invariant
            n == src@.len(),
            src@ == input@,
            i <= n,
            lex_model(input@) == prepend_ok(tokens_view(tokens@), lex_model(src@.skip(i as int))),
        decreases n - i,
    {
        let ghost rest = src@.skip(i as int);
        let ghost done = tokens_view(tokens@);
        let c = src[i];
        assert(rest[0] == c);
        if c == ' ' || c == '\t' || c == '\n' {
            i = i + 1;
            assert(rest.drop_first() =~= src@.skip(i as int));
        } else if c == '&' {
            i = i + 1;
            if i < n && src[i] == '&' {
                tokens.push(Token::LogicalAnd);
                i = i + 1;
                assert(rest.skip(2) =~= src@.skip(i as int));
                proof {
                    lemma_prepend_cons(done, TokenModel::LogicalAnd, lex_model(rest.skip(2)));
                    assert(tokens_view(tokens@) =~= done.push(TokenModel::LogicalAnd));
                }
            } else {
                assert(rest.drop_first() =~= src@.skip(i as int));
            }
        } else if c == '|' {
            i = i + 1;
            if i < n && src[i] == '|' {
                tokens.push(Token::LogicalOr);
                i = i + 1;
                assert(rest.skip(2) =~= src@.skip(i as int));
                proof {
                    lemma_prepend_cons(done, TokenModel::LogicalOr, lex_model(rest.skip(2)));
                    assert(tokens_view(tokens@) =~= done.push(TokenModel::LogicalOr));
                }
            } else {
                assert(rest.drop_first() =~= src@.skip(i as int));
            }
        } else if c == ';' {
            tokens.push(Token::Separator);
            i = i + 1;
            assert(rest.drop_first() =~= src@.skip(i as int));
            proof {
                lemma_prepend_cons(done, TokenModel::Separator, lex_model(rest.drop_first()));
                assert(tokens_view(tokens@) =~= done.push(TokenModel::Separator));
            }
        } else if c == '>' {
            tokens.push(Token::RedirectOverwrite);
            i = i + 1;
            assert(rest.drop_first() =~= src@.skip(i as int));
            proof {
                lemma_prepend_cons(done, TokenModel::RedirectOverwrite, lex_model(rest.drop_first()));
                assert(tokens_view(tokens@) =~= done.push(TokenModel::RedirectOverwrite));
            }
        } else if ('a' <= c && c <= 'z') || ('A' <= c && c <= 'Z') || c == '.' || c == '-'
            || c == '_' {
            let start = i;
            let mut atomic = String::new();
            push_char(&mut atomic, c);
            i = i + 1;
            proof {
                lemma_word_run_bound(rest.drop_first());
            }
            let ghost run: int = word_run(rest.drop_first()) as int;
            while i < n
                invariant
                    n == src@.len(),
                    start < i <= n,
                    rest == src@.skip(start as int),
                    run == word_run(rest.drop_first()),
                    run <= rest.len() - 1,
                    i - start <= 1 + run,
                    forall|k: int| 0 <= k < run ==> continues_word(#[trigger] rest.drop_first()[k]),
                    run < rest.len() - 1 ==> !continues_word(rest.drop_first()[run as int]),
                    atomic@ == rest.take(i - start),
                ensures
                    i - start == 1 + run,
                    atomic@ == rest.take(i - start),
                decreases n - i,
            {
                let d = src[i];
                assert(d == rest.drop_first()[i - start - 1]);
                if is_alphabetic(d) || d == '.' || d == '-' || d == '_' {
                    push_char(&mut atomic, d);
                    i = i + 1;
                    assert(atomic@ =~= rest.take(i - start));
                } else {
                    break;
                }
            }
            assert(i - start == 1 + run);
            tokens.push(Token::Atomic(atomic));
            assert(rest.skip(1 + run) =~= src@.skip(i as int));
            proof {
                lemma_prepend_cons(
                    done,
                    TokenModel::Atomic(rest.take(1 + run)),
                    lex_model(rest.skip(1 + run)),
                );
                assert(tokens_view(tokens@) =~= done.push(TokenModel::Atomic(rest.take(1 + run))));
            }
        } else {
            return Err(ShellError::Lexer(String::from_str("Unknown symbol")));
        }
    }
    assert(src@.skip(n as int) =~= Seq::<char>::empty());
    assert(tokens_view(tokens@) + Seq::<TokenModel>::empty() =~= tokens_view(tokens@));
    Ok(tokens)
}

/// `t` in front of the tokens `done` followed by what `rest` gives.
proof fn lemma_cons_prepend(t: TokenModel, done: Seq<TokenModel>, rest: Result<Seq<TokenModel>, ()>)
    ensures
        cons_ok(t, prepend_ok(done, rest)) == prepend_ok(seq![t] + done, rest),
{
    if let Ok(ts) = rest {
        assert(seq![t] + (done + ts) =~= (seq![t] + done) + ts);
    }
}

/// A word stops where a character follows that cannot continue it.
proof fn lemma_word_run_append(a: Seq<char>, r: Seq<char>)
    requires
        r.len() > 0,
        !continues_word(r[0]),
    ensures
        word_run(a + r) == word_run(a),
    decreases a.len(),
{
    if a.len() > 0 {
        assert((a + r).drop_first() =~= a.drop_first() + r);
        lemma_word_run_append(a.drop_first(), r);
    } else {
        assert(a + r =~= r);
    }
}

/// Lexing a line followed by text that begins with a blank gives the line's
/// tokens followed by what that text gives.
proof fn lemma_lex_before_blank(s1: Seq<char>, t1: Seq<TokenModel>, r: Seq<char>)
    requires
        lex_model(s1) == Ok::<Seq<TokenModel>, ()>(t1),
        r.len() > 0,
        is_blank(r[0]),
    ensures
        lex_model(s1 + r) == prepend_ok(t1, lex_model(r)),
    decreases s1.len(),
{
    let x = s1 + r;
    if s1.len() == 0 {
        assert(x =~= r);
        assert(t1 =~= Seq::<TokenModel>::empty());
        lemma_prepend_empty(lex_model(r));
    } else {
        let c = s1[0];
        assert(x[0] == c);
        assert(x.drop_first() =~= s1.drop_first() + r);
        if is_blank(c) {
            lemma_lex_before_blank(s1.drop_first(), t1, r);
        } else if c == '&' || c == '|' {
            let tok = if c == '&' { TokenModel::LogicalAnd } else { TokenModel::LogicalOr };
            if s1.len() > 1 && s1[1] == c {
                assert(x[1] == c);
                assert(x.skip(2) =~= s1.skip(2) + r);
                let t = lex_model(s1.skip(2))->Ok_0;
                assert(t1 == seq![tok] + t);
                lemma_lex_before_blank(s1.skip(2), t, r);
                lemma_cons_prepend(tok, t, lex_model(r));
            } else if s1.len() > 1 {
                assert(x[1] == s1[1]);
                lemma_lex_before_blank(s1.drop_first(), t1, r);
            } else {
                assert(x[1] == r[0]);
                assert(s1.drop_first() =~= Seq::<char>::empty());
                assert(x.drop_first() =~= r);
                assert(t1 =~= Seq::<TokenModel>::empty());
                lemma_prepend_empty(lex_model(r));
            }
        } else if c == ';' || c == '>' {
            let tok = if c == ';' { TokenModel::Separator } else { TokenModel::RedirectOverwrite };
            let t = lex_model(s1.drop_first())->Ok_0;
            assert(t1 == seq![tok] + t);
            lemma_lex_before_blank(s1.drop_first(), t, r);
            lemma_cons_prepend(tok, t, lex_model(r));
        } else if starts_word(c) {
            lemma_word_run_bound(s1.drop_first());
            lemma_word_run_append(s1.drop_first(), r);
            let n = 1 + word_run(s1.drop_first());
            assert(x.take(n as int) =~= s1.take(n as int));
            assert(x.skip(n as int) =~= s1.skip(n as int) + r);
            let t = lex_model(s1.skip(n as int))->Ok_0;
            let tok = TokenModel::Atomic(s1.take(n as int));
            assert(t1 == seq![tok] + t);
            lemma_lex_before_blank(s1.skip(n as int), t, r);
            lemma_cons_prepend(tok, t, lex_model(r));
        }
    }
}

/// A space between two lines that lex neither joins nor splits tokens:
/// lexing the two lines joined by a space gives their tokens one after the
/// other.
pub proof fn lemma_lex_join(s1: Seq<char>, t1: Seq<TokenModel>, s2: Seq<char>, t2: Seq<TokenModel>)
    requires
        lex_model(s1) == Ok::<Seq<TokenModel>, ()>(t1),
        lex_model(s2) == Ok::<Seq<TokenModel>, ()>(t2),
    ensures
        lex_model(s1 + seq![' '] + s2) == Ok::<Seq<TokenModel>, ()>(t1 + t2),
{
    let r = seq![' '] + s2;
    assert(r.drop_first() =~= s2);
    assert(s1 + seq![' '] + s2 =~= s1 + r);
    lemma_lex_before_blank(s1, t1, r);
}

/// A line of blanks only has no tokens.
pub proof fn lemma_lex_blanks(s: Seq<char>)
    requires
        forall|i: int| 0 <= i < s.len() ==> is_blank(#[trigger] s[i]),
    ensures
        lex_model(s) == Ok::<Seq<TokenModel>, ()>(Seq::empty()),
    decreases s.len(),
{
    if s.len() > 0 {
        assert(is_blank(s[0]));
        assert forall|i: int| 0 <= i < s.drop_first().len() implies is_blank(#[trigger] s.drop_first()[i]) by {
            assert(s.drop_first()[i] == s[i + 1]);
        }
        lemma_lex_blanks(s.drop_first());
    }
}

/// Every letter continues a word: an ASCII letter of either case, and beyond
/// ASCII every character with the Unicode Alphabetic property; so do `.`,
/// `-` and `_`. A word may begin with an ASCII letter of either case, `.`,
/// `-` or `_`.
pub proof fn lemma_letters_make_words(c: char)
    ensures
        ('a' <= c <= 'z' || 'A' <= c <= 'Z') ==> continues_word(c) && starts_word(c),
        (c == '.' || c == '-' || c == '_') ==> continues_word(c) && starts_word(c),
        (c as u32) >= 128 && unicode_alphabetic(c) ==> continues_word(c),
        is_blank(c) ==> !continues_word(c) && !starts_word(c),
{
}

/// A run of characters that all continue a word is one word to its end.
proof fn lemma_word_run_all(s: Seq<char>)
    requires
        forall|i: int| 0 <= i < s.len() ==> continues_word(#[trigger] s[i]),
    ensures
        word_run(s) == s.len(),
    decreases s.len(),
{
    if s.len() > 0 {
        assert forall|i: int| 0 <= i < s.drop_first().len() implies continues_word(
            #[trigger] s.drop_first()[i],
        ) by {
            assert(s.drop_first()[i] == s[i + 1]);
        }
        lemma_word_run_all(s.drop_first());
    }
}

/// A line made of ASCII letters only, upper or lower case, is one word.
pub proof fn lemma_lex_one_word(s: Seq<char>)
    requires
        s.len() > 0,
        forall|i: int| 0 <= i < s.len() ==> ('a' <= #[trigger] s[i] <= 'z' || 'A' <= s[i] <= 'Z'),
    ensures
        lex_model(s) == Ok::<Seq<TokenModel>, ()>(seq![TokenModel::Atomic(s)]),
{
    let t = s.drop_first();
    assert forall|i: int| 0 <= i < t.len() implies continues_word(#[trigger] t[i]) by {
        assert(t[i] == s[i + 1]);
        lemma_letters_make_words(s[i + 1]);
    }
    lemma_word_run_all(t);
    lemma_letters_make_words(s[0]);
    let n = 1 + word_run(t);
    assert(n == s.len());
    assert(s.take(n as int) =~= s);
    assert(s.skip(n as int) =~= Seq::<char>::empty());
    assert(lex_model(s.skip(n as int)) == Ok::<Seq<TokenModel>, ()>(Seq::empty()));
    assert('a' <= s[0] <= 'z' || 'A' <= s[0] <= 'Z');
    assert(!is_blank(s[0]) && s[0] != '&' && s[0] != '|' && s[0] != ';' && s[0] != '>');
    assert(seq![TokenModel::Atomic(s)] + Seq::<TokenModel>::empty() =~= seq![TokenModel::Atomic(s)]);
    assert(lex_model(s) == cons_ok(TokenModel::Atomic(s.take(n as int)), lex_model(s.skip(n as int))));
}

/// The tokens an operator is written with, and the operator it stands for
/// (words stand for none and give no text).
pub open spec fn operator_text(t: TokenModel) -> Seq<char> {
    match t {
        TokenModel::LogicalAnd => seq!['&', '&'],
        TokenModel::LogicalOr => seq!['|', '|'],
        TokenModel::Separator => seq![';'],
        TokenModel::RedirectOverwrite => seq!['>'],
        _ => Seq::empty(),
    }
}

/// An operator written between two lines, with a space on each side, is
/// lexed into that operator between the two lines' tokens: `&&`, `||`, `;`
/// and `>`.
pub proof fn lemma_lex_operator(
    s1: Seq<char>,
    t1: Seq<TokenModel>,
    op: TokenModel,
    s2: Seq<char>,
    t2: Seq<TokenModel>,
)
    requires
        lex_model(s1) == Ok::<Seq<TokenModel>, ()>(t1),
        lex_model(s2) == Ok::<Seq<TokenModel>, ()>(t2),
        op is LogicalAnd || op is LogicalOr || op is Separator || op is RedirectOverwrite,
    ensures
        lex_model(s1 + seq![' '] + operator_text(op) + seq![' '] + s2) == Ok::<
            Seq<TokenModel>,
            (),
        >(t1 + seq![op] + t2),
{
    let o = operator_text(op);
    let e = Seq::<char>::empty();
    assert(o.skip(o.len() as int) =~= e);
    assert(lex_model(e) == Ok::<Seq<TokenModel>, ()>(Seq::empty()));
    if o.len() == 2 {
        assert(o.skip(2) =~= e);
    } else {
        assert(o.drop_first() =~= e);
    }
    assert(seq![op] + Seq::<TokenModel>::empty() =~= seq![op]);
    assert(lex_model(o) == Ok::<Seq<TokenModel>, ()>(seq![op]));
    lemma_lex_join(s1, t1, o, seq![op]);
    lemma_lex_join(s1 + seq![' '] + o, t1 + seq![op], s2, t2);
}

} // verus!
