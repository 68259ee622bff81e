use vstd::prelude::*;

verus! {

/// The errors of the pipeline runner. An exit status is kept by its code,
/// `None` where the process ended without one; an operating-system error is
/// kept by its message.
#[derive(Debug)]
pub enum ShellError {
    CommandNotFound(String),
    InvalidArgument(String),
    BicError(String),
    IoError(String),
    ExpectedCommand,
    CommandFailure(String, Option<i32>),
}

/// The text an error shows to the user.
pub open spec fn message_of(e: ShellError) -> Seq<char> {
    match e {
        ShellError::CommandNotFound(cmd) => "Command not found: "@ + cmd@,
        ShellError::InvalidArgument(msg) => "Invalid argument: "@ + msg@,
        ShellError::BicError(msg) => msg@,
        ShellError::IoError(e) => "IO error: "@ + e@,
        ShellError::ExpectedCommand => "Expected a command"@,
        ShellError::CommandFailure(cmd, _) => "Command failed: "@ + cmd@,
    }
}

impl ShellError {
    /// The text of the error, as it is printed to the user.
    pub fn to_string(&self) -> (s: String)
        ensures
            s@ == message_of(*self),
    {
        match self {
            ShellError::CommandNotFound(cmd) => String::from_str("Command not found: ").concat(
                cmd.as_str(),
            ),
            ShellError::InvalidArgument(msg) => String::from_str("Invalid argument: ").concat(
                msg.as_str(),
            ),
            ShellError::BicError(msg) => msg.clone(),
            ShellError::IoError(e) => String::from_str("IO error: ").concat(e.as_str()),
            ShellError::ExpectedCommand => String::from_str("Expected a command"),
            ShellError::CommandFailure(cmd, _) => String::from_str("Command failed: ").concat(
                cmd.as_str(),
            ),
        }
    }
}

} // verus!
