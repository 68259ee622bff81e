use vstd::prelude::*;

verus! {

/// The errors of the built-in commands; an operating-system error is kept by its message.
#[derive(Debug)]
pub enum ShellError {
    BicError(String),
    CommandNotFound(String),
    IoError(String),
}

impl ShellError {
    /// An operating-system error made from a message.
    pub fn from(error: &str) -> (e: ShellError)
        ensures
            e matches ShellError::IoError(m) && m@ == error@,
    {
        ShellError::IoError(String::from_str(error))
    }

    /// The text of the error, as it is printed to the user.
    pub fn to_string(&self) -> (s: String)
        ensures
            s@ == match *self {
                ShellError::BicError(m) => m@,
                ShellError::CommandNotFound(m) => m@,
                ShellError::IoError(m) => m@,
            },
    {
        match self {
            ShellError::BicError(m) => m.clone(),
            ShellError::CommandNotFound(m) => m.clone(),
            ShellError::IoError(m) => m.clone(),
        }
    }
}

} // verus!
