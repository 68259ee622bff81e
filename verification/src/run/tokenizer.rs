use crate::run::node::Token;
use crate::text::{split_whitespace, strings_view, words_of};
use vstd::prelude::*;

verus! {

/// Whether a token stands where the word `w` stands in the input.
pub open spec fn token_of_word(t: Token, w: Seq<char>) -> bool {
    if w == "|"@ {
        t is Pipe
    } else if w == "&&"@ {
        t is AndLogical
    } else {
        t matches Token::Arg(a) && a@ == w
    }
}

/// Splits a line at white space into words and operators.
pub fn tokenize(input: &str) -> (tokens: Vec<Token>)
    ensures
        tokens@.len() == words_of(input@).len(),
        forall|i: int|
            0 <= i < tokens@.len() ==> token_of_word(#[trigger] tokens@[i], words_of(input@)[i]),
{
    let words = split_whitespace(input);
    let mut tokens: Vec<Token> = Vec::new();
    let pipe = String::from_str("|");
    let and = String::from_str("&&");
    let mut i: usize = 0;
    while i < words.len()
        invariant
            strings_view(words@) == words_of(input@),
            pipe@ == "|"@,
            and@ == "&&"@,
            i <= words@.len(),
            tokens@.len() == i,
            forall|k: int| 0 <= k < i ==> token_of_word(#[trigger] tokens@[k], words@[k]@),
        decreases words@.len() - i,
    {
        let part = &words[i];
        if *part == pipe {
            tokens.push(Token::Pipe);
        } else if *part == and {
            tokens.push(Token::AndLogical);
        } else {
            tokens.push(Token::Arg(part.clone()));
        }
        i = i + 1;
    }
    assert forall|k: int| 0 <= k < tokens@.len() implies token_of_word(
        #[trigger] tokens@[k],
        words_of(input@)[k],
    ) by {
        assert(words_of(input@)[k] == words@[k]@);
    }
    tokens
}

} // verus!
