use super::Step;
use crate::run::error::ShellError;
use crate::run::node::Ast;
use vstd::prelude::*;

verus! {

/// Which stream a redirection moves: standard input from a file, standard
/// output and error together into a new file, standard output into a new file
/// or onto the end of one, or standard error onto the end of one.
#[derive(Debug, Clone, Copy, PartialEq, Eq, Structural)]
pub enum RedirectionType {
    Input,
    Output,
    Overwrite,
    Append,
    Error,
}

pub fn execute<'a>(lhs: &'a Ast, rhs: &'a Ast, redirection_type: RedirectionType) -> (s: Step<'a>)
    ensures
        s matches Step::Redirect(t, x, y) && t == redirection_type && *x == *lhs && *y == *rhs,
{
    Step::Redirect(redirection_type, lhs, rhs)
}

/// The messages a redirection gives when its left side is not a command and
/// when its right side is not a command naming the file; whether the right
/// side is checked first.
pub open spec fn refusals(t: RedirectionType) -> (Seq<char>, Seq<char>, bool) {
    match t {
        RedirectionType::Input => (
            "'<' Left hand side must be a command"@,
            "'<' Right hand side must be a file"@,
            false,
        ),
        RedirectionType::Output => (
            "'&>' Does not support this type of command"@,
            "'&>' Does not support this type of file"@,
            false,
        ),
        _ => ("Expected a command for redirection"@, "Expected a filepath"@, true),
    }
}

pub open spec fn refused_with(res: Result<(&Vec<String>, &Vec<String>), ShellError>, m: Seq<char>) -> bool {
    res matches Err(e) && e matches ShellError::InvalidArgument(msg) && msg@ == m
}

/// The command to run and the words that name the file of a redirection.
pub fn operands<'a>(lhs: &'a Ast, rhs: &'a Ast, t: RedirectionType) -> (res: Result<
    (&'a Vec<String>, &'a Vec<String>),
    ShellError,
>)
    ensures
        match (*lhs, *rhs) {
            (Ast::Command(l), Ast::Command(r)) => res matches Ok((x, y)) && *x == l && *y == r,
            (Ast::Command(_), _) => refused_with(res, refusals(t).1),
            (_, Ast::Command(_)) => refused_with(res, refusals(t).0),
            _ => refused_with(res, if refusals(t).2 { refusals(t).1 } else { refusals(t).0 }),
        },
{
    let (cmd_msg, file_msg, file_first) = match t {
        RedirectionType::Input => (
            "'<' Left hand side must be a command",
            "'<' Right hand side must be a file",
            false,
        ),
        RedirectionType::Output => (
            "'&>' Does not support this type of command",
            "'&>' Does not support this type of file",
            false,
        ),
        _ => ("Expected a command for redirection", "Expected a filepath", true),
    };
    if file_first {
        if !matches!(rhs, Ast::Command(_)) {
            return Err(ShellError::InvalidArgument(String::from_str(file_msg)));
        }
    }
    let args = match lhs {
        Ast::Command(args) => args,
        _ => {
            return Err(ShellError::InvalidArgument(String::from_str(cmd_msg)));
        },
    };
    let file = match rhs {
        Ast::Command(words) => words,
        _ => {
            return Err(ShellError::InvalidArgument(String::from_str(file_msg)));
        },
    };
    Ok((args, file))
}

/// What `>` and `>>` do once their command has run with its output captured:
/// write the output into the file (onto its end for `>>`), or fail with the
/// command's error output and exit code.
pub enum Captured {
    Write { append: bool },
    Failed(ShellError),
}

/// Decides what a `>` or `>>` redirection does with its command's captured
/// output, given whether the command succeeded, its error output and its
/// exit code.
pub fn captured(t: RedirectionType, success: bool, stderr: String, code: Option<i32>) -> (c: Captured)
    requires
        t == RedirectionType::Overwrite || t == RedirectionType::Append,
    ensures
        success ==> c == (Captured::Write { append: t == RedirectionType::Append }),
        !success ==> c == Captured::Failed(ShellError::CommandFailure(stderr, code)),
{
    if success {
        Captured::Write { append: t == RedirectionType::Append }
    } else {
        Captured::Failed(ShellError::CommandFailure(stderr, code))
    }
}

} // verus!
