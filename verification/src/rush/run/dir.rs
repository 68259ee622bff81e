use vstd::prelude::*;

verus! {

/// Why `cd` cannot change directory: there is no home directory to go to,
/// the directory named does not exist, or what it names is not a directory.
#[derive(Debug)]
pub enum CdFailure {
    NoHome,
    Missing(String),
    NotADirectory(String),
}

/// The message of a failure of `cd`.
pub open spec fn failure_message(f: CdFailure) -> Seq<char> {
    match f {
        CdFailure::NoHome => "Failed to retrieve home directory"@,
        CdFailure::Missing(p) => "Directory '"@ + p@ + "' does not exist"@,
        CdFailure::NotADirectory(p) => "'"@ + p@ + "' is not a directory"@,
    }
}

impl CdFailure {
    /// The message of the failure.
    pub fn message(&self) -> (m: String)
        ensures
            m@ == failure_message(*self),
    {
        match self {
            CdFailure::NoHome => String::from_str("Failed to retrieve home directory"),
            CdFailure::Missing(p) => {
                let mut m = String::from_str("Directory '");
                m.append(p.as_str());
                m.append("' does not exist");
                m
            },
            CdFailure::NotADirectory(p) => {
                let mut m = String::from_str("'");
                m.append(p.as_str());
                m.append("' is not a directory");
                m
            },
        }
    }

    /// Whether the failure is that something was not found (else the input
    /// was not a directory).
    pub fn is_not_found(&self) -> (b: bool)
        ensures
            b == !(*self is NotADirectory),
    {
        !matches!(self, CdFailure::NotADirectory(_))
    }
}

/// The directory `cd` changes to: the one named, else the home directory.
pub fn target(path: Option<&str>, home: Option<&str>) -> (r: Result<String, CdFailure>)
    ensures
        match (path, home) {
            (Some(p), _) => r matches Ok(d) && d@ == p@,
            (None, Some(h)) => r matches Ok(d) && d@ == h@,
            (None, None) => r matches Err(f) && f is NoHome,
        },
{
    match path {
        Some(p) => Ok(String::from_str(p)),
        None => match home {
            Some(h) => Ok(String::from_str(h)),
            None => Err(CdFailure::NoHome),
        },
    }
}

/// Whether `cd` may change to its target, given whether the target exists
/// and whether it is a directory; the messages name the argument `path`.
/// A missing argument needs a target that is a directory: the messages have
/// no argument to name.
pub fn check(path: Option<&str>, exists: bool, is_dir: bool) -> (r: Result<(), CdFailure>)
    requires
        path is Some || (exists && is_dir),
    ensures
        !exists ==> (r matches Err(CdFailure::Missing(p)) && p@ == path->0@),
        exists && !is_dir ==> (r matches Err(CdFailure::NotADirectory(p)) && p@ == path->0@),
        exists && is_dir ==> r is Ok,
{
    if !exists {
        let p = match path {
            Some(p) => p,
            None => "",
        };
        return Err(CdFailure::Missing(String::from_str(p)));
    }
    if !is_dir {
        let p = match path {
            Some(p) => p,
            None => "",
        };
        return Err(CdFailure::NotADirectory(String::from_str(p)));
    }
    Ok(())
}

} // verus!
