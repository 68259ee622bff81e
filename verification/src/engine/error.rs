use vstd::prelude::*;

verus! {

/// The errors of the line engine: a lexing or parsing failure with its
/// message, a line that asked for nothing to be done, or a failure of the
/// operating system, kept by its message.
#[derive(Debug)]
pub enum ShellError {
    Lexer(String),
    Parser(String),
    Unnecassary,
    IoError(String),
}

/// What kind of failure a `ShellError` is, without its payload.
#[derive(Debug, PartialEq, Eq, Structural, Clone, Copy)]
pub enum ShellErrorKind {
    Lexer,
    Parser,
    Unnecassary,
    IoError,
}

/// The kind that belongs to each error.
pub open spec fn kind_of(e: ShellError) -> ShellErrorKind {
    match e {
        ShellError::Lexer(_) => ShellErrorKind::Lexer,
        ShellError::Parser(_) => ShellErrorKind::Parser,
        ShellError::Unnecassary => ShellErrorKind::Unnecassary,
        ShellError::IoError(_) => ShellErrorKind::IoError,
    }
}

/// The text an error shows to the user.
pub open spec fn message_of(e: ShellError) -> Seq<char> {
    match e {
        ShellError::Lexer(m) => m@,
        ShellError::Parser(m) => m@,
        ShellError::Unnecassary => "Unnecassary Error"@,
        ShellError::IoError(m) => m@,
    }
}

impl ShellError {
    pub fn kind(&self) -> (k: ShellErrorKind)
        ensures
            k == kind_of(*self),
    {
        match self {
            ShellError::Lexer(_) => ShellErrorKind::Lexer,
            ShellError::Parser(_) => ShellErrorKind::Parser,
            ShellError::Unnecassary => ShellErrorKind::Unnecassary,
            ShellError::IoError(_) => ShellErrorKind::IoError,
        }
    }

    /// The text of the error, as it is printed to the user.
    pub fn to_string(&self) -> (s: String)
        ensures
            s@ == message_of(*self),
    {
        match self {
            ShellError::Lexer(m) => m.clone(),
            ShellError::Parser(m) => m.clone(),
            ShellError::Unnecassary => String::from_str("Unnecassary Error"),
            ShellError::IoError(m) => m.clone(),
        }
    }

    /// An operating-system error made from a message.
    pub fn from(error: &str) -> (e: ShellError)
        ensures
            e matches ShellError::IoError(m) && m@ == error@,
    {
        ShellError::IoError(String::from_str(error))
    }
}

} // verus!
