use crate::text::{chars_of, push_char};
use vstd::prelude::*;

verus! {

/// A shell whose prompt may show the working directory where it holds `\w`.
pub struct Shell {
    pub prompt: String,
}

/// `s` with each `\w`, from the left and not overlapping, replaced by `dir`.
pub open spec fn expand(s: Seq<char>, dir: Seq<char>) -> Seq<char>
    decreases s.len(),
{
    if s.len() == 0 {
        s
    } else if s.len() >= 2 && s[0] == '\\' && s[1] == 'w' {
        dir + expand(s.skip(2), dir)
    } else {
        seq![s[0]] + expand(s.drop_first(), dir)
    }
}

/// Whether `\w` begins at `i`.
pub open spec fn dir_mark_at(s: Seq<char>, i: int) -> bool {
    s[i] == '\\' && s[i + 1] == 'w'
}

/// A prompt without `\w` in it is shown as it is.
pub proof fn lemma_expand_plain(s: Seq<char>, dir: Seq<char>)
    requires
        forall|i: int| 0 <= i < s.len() - 1 ==> !#[trigger] dir_mark_at(s, i),
    ensures
        expand(s, dir) == s,
    decreases s.len(),
{
    if s.len() > 0 {
        let t = s.drop_first();
        assert forall|i: int| 0 <= i < t.len() - 1 implies !#[trigger] dir_mark_at(t, i) by {
            assert(t[i] == s[i + 1]);
            assert(t[i + 1] == s[i + 2]);
            assert(!dir_mark_at(s, i + 1));
        }
        if s.len() >= 2 {
            assert(!dir_mark_at(s, 0));
        }
        lemma_expand_plain(t, dir);
        assert(seq![s[0]] + t =~= s);
    }
}

/// The part of `path` below `base`, as `Path::strip_prefix` gives it (with
/// invalid UTF-8 replaced), or `None` where `base` is not a prefix of `path`
/// by whole components.
pub uninterp spec fn path_strip_prefix(path: Seq<char>, base: Seq<char>) -> Option<Seq<char>>;

/// Calls `Path::strip_prefix` and makes its result a string with
/// `to_string_lossy`; its result is named `path_strip_prefix`.
#[verifier::external_body]
fn strip_prefix(path: &str, base: &str) -> (r: Option<String>)
    ensures
        match r {
            Some(rel) => path_strip_prefix(path@, base@) == Some(rel@),
            None => path_strip_prefix(path@, base@) is None,
        },
{
    std::path::Path::new(path).strip_prefix(base).ok().map(|p| p.to_string_lossy().into_owned())
}

impl Shell {
    pub fn new(prompt: &str) -> (s: Shell)
        ensures
            s.prompt@ == prompt@,
    {
        Shell { prompt: String::from_str(prompt) }
    }

    /// The working directory as the prompt shows it: below the home
    /// directory as `~/` and the rest, else as it is.
    pub fn current_dir(home: &str, wd: &str) -> (d: String)
        ensures
            d@ == match path_strip_prefix(wd@, home@) {
                Some(rel) => "~/"@ + rel,
                None => wd@,
            },
    {
        match strip_prefix(wd, home) {
            Some(rel) => {
                let mut d = String::from_str("~/");
                d.append(rel.as_str());
                d
            },
            None => String::from_str(wd),
        }
    }

    /// The prompt with each `\w` replaced by the directory shown.
    pub fn expanded_prompt(&self, dir: &str) -> (p: String)
        ensures
            p@ == expand(self.prompt@, dir@),
    {
        let cs = chars_of(self.prompt.as_str());
        let n = cs.len();
        let mut out = String::new();
        let mut i: usize = 0;
        assert(cs@.skip(0) =~= cs@);
        assert(out@ + expand(cs@.skip(0), dir@) =~= expand(self.prompt@, dir@));
        while i < n
            invariant
                n == cs@.len(),
                cs@ == self.prompt@,
                i <= n,
                out@ + expand(cs@.skip(i as int), dir@) == expand(self.prompt@, dir@),
            decreases n - i,
        {
            let ghost rest = cs@.skip(i as int);
            let ghost before = out@;
            if i + 1 < n && cs[i] == '\\' && cs[i + 1] == 'w' {
                out.append(dir);
                i = i + 2;
                assert(rest.skip(2) =~= cs@.skip(i as int));
                assert(before + (dir@ + expand(rest.skip(2), dir@)) =~= out@ + expand(cs@.skip(i as int), dir@));
            } else {
                push_char(&mut out, cs[i]);
                i = i + 1;
                assert(rest.drop_first() =~= cs@.skip(i as int));
                assert(before + (seq![rest[0]] + expand(rest.drop_first(), dir@)) =~= out@ + expand(
                    cs@.skip(i as int),
                    dir@,
                ));
            }
        }
        assert(cs@.skip(n as int) =~= Seq::<char>::empty());
        assert(out@ + Seq::<char>::empty() =~= out@);
        out
    }
}

} // verus!
