use crate::text::{same_text};
use vstd::prelude::*;

verus! {

/// The directory `cd` changes to: the one named, or the home directory
/// (`None`) where the argument is empty or `~`.
pub fn target(arg: &str) -> (t: Option<String>)
    ensures
        (arg@.len() == 0 || arg@ == "~"@) ==> t is None,
        !(arg@.len() == 0 || arg@ == "~"@) ==> (t matches Some(p) && p@ == arg@),
{
    if arg.unicode_len() == 0 || same_text(arg, "~") {
        None
    } else {
        Some(String::from_str(arg))
    }
}

/// The message `cd` gives when it cannot change to `path` for `reason`.
pub fn failure(path: &str, reason: &str) -> (m: String)
    ensures
        m@ == "cd "@ + path@ + ": "@ + reason@,
{
    let mut m = String::from_str("cd ");
    m.append(path);
    m.append(": ");
    m.append(reason);
    m
}

} // verus!
