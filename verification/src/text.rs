use vstd::prelude::*;

verus! {

/// Whether `c` has the Unicode White_Space property, as `char::is_whitespace` says.
pub uninterp spec fn unicode_whitespace(c: char) -> bool;

/// Calls `char::is_whitespace`; its result is named `unicode_whitespace`.
/// Among ASCII characters, White_Space holds of tab, line feed, vertical tab,
/// form feed, carriage return and space only.
#[verifier::external_body]
pub(crate) fn is_whitespace(c: char) -> (r: bool)
    ensures
        r == unicode_whitespace(c),
        (c as u32) < 128 ==> (r <==> (9 <= (c as u32) <= 13 || c == ' ')),
{
    c.is_whitespace()
}

/// Calls `String::push`, which appends one character.
#[verifier::external_body]
pub(crate) fn push_char(s: &mut String, c: char)
    ensures
        final(s)@ == old(s)@.push(c),
{
    s.push(c);
}

/// The number of leading characters of `s` that are not white space.
pub open spec fn word_len(s: Seq<char>) -> nat
    decreases s.len(),
{
    if s.len() > 0 && !unicode_whitespace(s[0]) {
        1 + word_len(s.drop_first())
    } else {
        0
    }
}

pub proof fn lemma_word_len(s: Seq<char>)
    ensures
        word_len(s) <= s.len(),
        forall|k: int| 0 <= k < word_len(s) ==> !unicode_whitespace(#[trigger] s[k]),
        word_len(s) < s.len() ==> unicode_whitespace(s[word_len(s) as int]),
    decreases s.len(),
{
    if s.len() > 0 && !unicode_whitespace(s[0]) {
        lemma_word_len(s.drop_first());
        assert forall|k: int| 0 <= k < word_len(s) implies !unicode_whitespace(#[trigger] s[k]) by {
            if k > 0 {
                assert(s[k] == s.drop_first()[k - 1]);
            }
        }
    }
}

/// The maximal runs of characters that are not white space, in order.
pub open spec fn words_of(s: Seq<char>) -> Seq<Seq<char>>
    decreases s.len(),
{
    if s.len() == 0 {
        seq![]
    } else if unicode_whitespace(s[0]) {
        words_of(s.drop_first())
    } else {
        let n = word_len(s);
        proof {
            lemma_word_len(s);
        }
        seq![s.take(n as int)] + words_of(s.skip(n as int))
    }
}

/// A run of characters none of which is white space.
pub open spec fn is_word(w: Seq<char>) -> bool {
    w.len() > 0 && forall|k: int| 0 <= k < w.len() ==> !unicode_whitespace(#[trigger] w[k])
}

/// Every word that splitting at white space gives has characters, and none
/// of them is white space.
pub proof fn lemma_words_are_words(s: Seq<char>)
    ensures
        forall|i: int| 0 <= i < words_of(s).len() ==> is_word(#[trigger] words_of(s)[i]),
    decreases s.len(),
{
    if s.len() == 0 {
        assert(words_of(s).len() == 0);
    } else if unicode_whitespace(s[0]) {
        lemma_words_are_words(s.drop_first());
        assert(words_of(s) == words_of(s.drop_first()));
    } else {
        let n = word_len(s);
        lemma_word_len(s);
        lemma_words_are_words(s.skip(n as int));
        let ws = words_of(s);
        let rest = words_of(s.skip(n as int));
        assert(ws == seq![s.take(n as int)] + rest);
        assert forall|i: int| 0 <= i < ws.len() implies is_word(#[trigger] ws[i]) by {
            if i == 0 {
                assert(ws[0] == s.take(n as int));
                assert forall|k: int| 0 <= k < ws[0].len() implies !unicode_whitespace(
                    #[trigger] ws[0][k],
                ) by {
                    assert(ws[0][k] == s[k]);
                }
            } else {
                assert(ws[i] == rest[i - 1]);
            }
        }
    }
}

pub open spec fn strings_view(v: Seq<String>) -> Seq<Seq<char>> {
    v.map_values(|s: String| s@)
}

/// The characters of `s`, one by one.
pub fn chars_of(s: &str) -> (v: Vec<char>)
    ensures
        v@ == s@,
{
    let n = s.unicode_len();
    let mut v: Vec<char> = Vec::new();
    let mut i: usize = 0;
    while i < n
        invariant
            n == s@.len(),
            i <= n,
            v@ == s@.take(i as int),
        decreases n - i,
    {
        v.push(s.get_char(i));
        i = i + 1;
        assert(v@ =~= s@.take(i as int));
    }
    assert(s@.take(n as int) =~= s@);
    v
}

/// Splits `input` at white space, as `str::split_whitespace` does.
pub fn split_whitespace(input: &str) -> (words: Vec<String>)
    ensures
        strings_view(words@) == words_of(input@),
{
    let src = chars_of(input);
    let n = src.len();
    let mut words: Vec<String> = Vec::new();
    let mut i: usize = 0;
    assert(src@.skip(0) =~= src@);
    while i < n
        invariant
            n == src@.len(),
            src@ == input@,
            i <= n,
            words_of(input@) == strings_view(words@) + words_of(src@.skip(i as int)),
        decreases n - i,
    {
        let ghost rest = src@.skip(i as int);
        let c = src[i];
        assert(rest[0] == c);
        if is_whitespace(c) {
            i = i + 1;
            assert(rest.drop_first() =~= src@.skip(i as int));
        } else {
            let start = i;
            let mut word = String::new();
            proof {
                lemma_word_len(rest);
            }
            let ghost len: int = word_len(rest) as int;
            while i < n
                invariant
                    n == src@.len(),
                    start <= i <= n,
                    rest == src@.skip(start as int),
                    len == word_len(rest),
                    len <= rest.len(),
                    i - start <= len,
                    forall|k: int| 0 <= k < len ==> !unicode_whitespace(#[trigger] rest[k]),
                    len < rest.len() ==> unicode_whitespace(rest[len]),
                    word@ == rest.take(i - start),
                ensures
                    i - start == len,
                    word@ == rest.take(i - start),
                decreases n - i,
            {
                let d = src[i];
                assert(d == rest[i - start]);
                if is_whitespace(d) {
                    break;
                }
                push_char(&mut word, d);
                i = i + 1;
                assert(word@ =~= rest.take(i - start));
            }
            let ghost old_words = words@;
            words.push(word);
            assert(rest.skip(len) =~= src@.skip(i as int));
            assert(strings_view(words@) =~= strings_view(old_words).push(rest.take(len)));
            assert(strings_view(old_words) + words_of(rest) =~= strings_view(words@) + words_of(
                src@.skip(i as int),
            ));
        }
    }
    assert(src@.skip(n as int) =~= Seq::<char>::empty());
    assert(strings_view(words@) + Seq::<Seq<char>>::empty() =~= strings_view(words@));
    words
}

/// Whether two string slices hold the same characters.
pub fn same_text(a: &str, b: &str) -> (r: bool)
    ensures
        r == (a@ == b@),
{
    let x = String::from_str(a);
    let y = String::from_str(b);
    x == y
}

pub open spec fn is_digit(c: char) -> bool {
    '0' <= c && c <= '9'
}

/// The number written by decimal digits.
pub open spec fn digits_value(s: Seq<char>) -> int
    decreases s.len(),
{
    if s.len() == 0 {
        0
    } else {
        10 * digits_value(s.drop_last()) + (s.last() as int - '0' as int)
    }
}

pub open spec fn all_digits(s: Seq<char>) -> bool {
    forall|i: int| 0 <= i < s.len() ==> is_digit(#[trigger] s[i])
}

/// What `str::parse::<i32>` gives: an optional `+` or `-`, then one or more
/// decimal digits whose value fits an `i32`; `None` for anything else.
pub open spec fn parsed_i32(s: Seq<char>) -> Option<i32> {
    let neg = s.len() > 0 && s[0] == '-';
    let body = if s.len() > 0 && (s[0] == '-' || s[0] == '+') {
        s.drop_first()
    } else {
        s
    };
    if body.len() == 0 || !all_digits(body) {
        None
    } else if neg {
        if digits_value(body) <= 0x8000_0000 {
            Some((-digits_value(body)) as i32)
        } else {
            None
        }
    } else {
        if digits_value(body) <= 0x7fff_ffff {
            Some(digits_value(body) as i32)
        } else {
            None
        }
    }
}

proof fn lemma_digits_value_nonneg(s: Seq<char>)
    requires
        all_digits(s),
    ensures
        digits_value(s) >= 0,
    decreases s.len(),
{
    if s.len() > 0 {
        assert(all_digits(s.drop_last())) by {
            assert forall|i: int| 0 <= i < s.drop_last().len() implies is_digit(
                #[trigger] s.drop_last()[i],
            ) by {
                assert(s.drop_last()[i] == s[i]);
            }
        }
        lemma_digits_value_nonneg(s.drop_last());
        assert(is_digit(s[s.len() - 1]));
    }
}

/// Reads a whole string as an `i32`, as `str::parse::<i32>` does.
pub fn parse_i32(s: &str) -> (r: Option<i32>)
    ensures
        r == parsed_i32(s@),
{
    let cs = chars_of(s);
    let n = cs.len();
    let mut start: usize = 0;
    let mut neg = false;
    if n > 0 && (cs[0] == '-' || cs[0] == '+') {
        neg = cs[0] == '-';
        start = 1;
    }
    let ghost body = if s@.len() > 0 && (s@[0] == '-' || s@[0] == '+') {
        s@.drop_first()
    } else {
        s@
    };
    assert(body =~= s@.subrange(start as int, n as int));
    if start == n {
        return None;
    }
    // the value read so far, held at most one past the largest magnitude
    let limit: i64 = 0x8000_0001;
    let mut acc: i64 = 0;
    let mut i: usize = start;
    assert(s@.subrange(start as int, i as int) =~= Seq::<char>::empty());
    while i < n
        invariant
            cs@ == s@,
            n == s@.len(),
            start <= i <= n,
            limit == 0x8000_0001,
            body == s@.subrange(start as int, n as int),
            body == if s@.len() > 0 && (s@[0] == '-' || s@[0] == '+') {
                s@.drop_first()
            } else {
                s@
            },
            all_digits(s@.subrange(start as int, i as int)),
            acc == if digits_value(s@.subrange(start as int, i as int)) >= limit {
                limit as int
            } else {
                digits_value(s@.subrange(start as int, i as int))
            },
        decreases n - i,
    {
        let c = cs[i];
        if !('0' <= c && c <= '9') {
            assert(!all_digits(body)) by {
                assert(body[i - start] == c);
            }
            return None;
        }
        let d = (c as u32 - '0' as u32) as i64;
        let ghost pre = s@.subrange(start as int, i as int);
        let ghost next = s@.subrange(start as int, i + 1);
        assert(next.drop_last() =~= pre);
        assert(next.last() == c);
        proof {
            lemma_digits_value_nonneg(pre);
        }
        assert(all_digits(next)) by {
            assert forall|k: int| 0 <= k < next.len() implies is_digit(#[trigger] next[k]) by {
                if k < pre.len() {
                    assert(next[k] == pre[k]);
                }
            }
        }
        if acc >= limit {
            assert(digits_value(next) >= limit) by (nonlinear_arith)
                requires
                    digits_value(next) == 10 * digits_value(pre) + d,
                    digits_value(pre) >= limit,
                    d >= 0,
                    limit > 0,
            ;
        } else {
            let v = acc * 10 + d;
            if v >= limit {
                acc = limit;
            } else {
                acc = v;
            }
        }
        i = i + 1;
    }
    assert(s@.subrange(start as int, n as int) =~= body);
    proof {
        lemma_digits_value_nonneg(body);
    }
    if neg {
        if acc <= 0x8000_0000 {
            Some((-acc) as i32)
        } else {
            None
        }
    } else {
        if acc <= 0x7fff_ffff {
            Some(acc as i32)
        } else {
            None
        }
    }
}

} // verus!
