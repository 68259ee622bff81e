use crate::text::{split_whitespace, strings_view, words_of};
use std::collections::VecDeque;
use vstd::prelude::*;

verus! {

/// Splits a line at white space into its words.
pub fn tokenize(input: &str) -> (tokens: VecDeque<String>)
    ensures
        strings_view(tokens@) == words_of(input@),
{
    let words = split_whitespace(input);
    let mut tokens: VecDeque<String> = VecDeque::new();
    let mut i: usize = 0;
    while i < words.len()
        invariant
            i <= words@.len(),
            tokens@ == words@.subrange(0, i as int),
        decreases words@.len() - i,
    {
        tokens.push_back(words[i].clone());
        i = i + 1;
        assert(tokens@ =~= words@.subrange(0, i as int));
    }
    assert(words@.subrange(0, words@.len() as int) =~= words@);
    tokens
}

} // verus!
