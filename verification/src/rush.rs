pub mod run;

use vstd::prelude::*;

verus! {

/// The interactive shell with its prompt.
pub struct Rush {
    pub prompt: String,
}

/// The prompt `[user@host dir]$`.
pub open spec fn prompt_text(username: Seq<char>, hostname: Seq<char>, dir: Seq<char>) -> Seq<char> {
    "["@ + username + "@"@ + hostname + " "@ + dir + "]$"@
}

/// The last component of a path, as `Path::file_name` gives it (with
/// invalid UTF-8 replaced), or `None` for a root, an empty path or one that
/// ends in `..`.
pub uninterp spec fn path_file_name(path: Seq<char>) -> Option<Seq<char>>;

/// Calls `Path::file_name` and makes its result a string with
/// `to_string_lossy`; its result is named `path_file_name`.
#[verifier::external_body]
fn file_name(path: &str) -> (r: Option<String>)
    ensures
        match r {
            Some(n) => path_file_name(path@) == Some(n@),
            None => path_file_name(path@) is None,
        },
{
    std::path::Path::new(path).file_name().map(|n| n.to_string_lossy().into_owned())
}

/// The name a directory goes by in the prompt: its last component, or the
/// whole path where it has none.
pub open spec fn dir_label(path: Seq<char>) -> Seq<char> {
    match path_file_name(path) {
        Some(n) => n,
        None => path,
    }
}

/// The text of the prompt for a user and host in a directory.
pub fn format_prompt(username: &str, hostname: &str, dir: &str) -> (p: String)
    ensures
        p@ == prompt_text(username@, hostname@, dir_label(dir@)),
{
    let label = match file_name(dir) {
        Some(n) => n,
        None => String::from_str(dir),
    };
    let mut p = String::from_str("[");
    p.append(username);
    p.append("@");
    p.append(hostname);
    p.append(" ");
    p.append(label.as_str());
    p.append("]$");
    p
}

/// Whether two paths are equal as `Path`s compare them: component by
/// component, so that repeated separators, a `.` inside and a final separator
/// make no difference.
pub uninterp spec fn paths_equal(a: Seq<char>, b: Seq<char>) -> bool;

/// Compares `Path::new(a)` with `Path::new(b)` by `==`; its result is named
/// `paths_equal`, and a path is equal to itself.
#[verifier::external_body]
fn same_path(a: &str, b: &str) -> (r: bool)
    ensures
        r == paths_equal(a@, b@),
        a@ == b@ ==> r,
{
    std::path::Path::new(a) == std::path::Path::new(b)
}

/// The directory a prompt shows: `~` for the home directory, else the
/// working directory itself.
pub fn prompt_dir(cwd: &str, home: &str) -> (d: String)
    ensures
        d@ == if paths_equal(cwd@, home@) { "~"@ } else { cwd@ },
{
    if same_path(cwd, home) {
        String::from_str("~")
    } else {
        String::from_str(cwd)
    }
}

impl Rush {
    /// The shell with the prompt given, or else with the prompt for the user
    /// and host in the working directory (`None` where it could not be read,
    /// which also sets aside a prompt given).
    pub fn from_parts(prompt: Option<&str>, username: &str, hostname: &str, dir: Option<&str>) -> (r: Rush)
        ensures
            match dir {
                None => r.prompt@ == "["@ + username@ + "@"@ + hostname@ + " unknown]$"@,
                Some(d) => match prompt {
                    Some(p) => r.prompt@ == p@,
                    None => r.prompt@ == prompt_text(username@, hostname@, dir_label(d@)),
                },
            },
    {
        match dir {
            None => {
                let mut p = String::from_str("[");
                p.append(username);
                p.append("@");
                p.append(hostname);
                p.append(" unknown]$");
                Rush { prompt: p }
            },
            Some(d) => {
                let default_prompt = format_prompt(username, hostname, d);
                match prompt {
                    Some(p) => Rush { prompt: String::from_str(p) },
                    None => Rush { prompt: default_prompt },
                }
            },
        }
    }

    /// Shows the directory `updated_dir` in the prompt.
    pub fn update_dir(&mut self, username: &str, hostname: &str, updated_dir: &str)
        ensures
            final(self).prompt@ == prompt_text(username@, hostname@, dir_label(updated_dir@)),
    {
        self.prompt = format_prompt(username, hostname, updated_dir);
    }
}

} // verus!
