use vstd::prelude::*;

verus! {

/// An interactive shell that asks for lines after its prompt.
pub struct Shell {
    pub prompt: String,
}

/// The prompt `[user@host]$`.
pub fn user_prompt(username: &str, hostname: &str) -> (p: String)
    ensures
        p@ == "["@ + username@ + "@"@ + hostname@ + "]$"@,
{
    let mut p = String::from_str("[");
    p.append(username);
    p.append("@");
    p.append(hostname);
    p.append("]$");
    p
}

impl Shell {
    pub fn new(prompt: &str) -> (s: Self)
        ensures
            s.prompt@ == prompt@,
    {
        Shell { prompt: String::from_str(prompt) }
    }
}

} // verus!
