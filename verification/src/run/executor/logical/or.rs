use crate::run::error::ShellError;
use crate::run::executor::Then;
use crate::run::node::Ast;
use vstd::prelude::*;

verus! {

/// The two commands that `||` joins: both sides must be commands with words.
pub fn operands<'a>(lhs: &'a Ast, rhs: &'a Ast) -> (res: Result<
    (&'a Vec<String>, &'a Vec<String>),
    ShellError,
>)
    ensures
        match (*lhs, *rhs) {
            (Ast::Command(l), Ast::Command(r)) => res matches Ok((x, y)) && *x == l && *y == r,
            _ => res matches Err(e) && e matches ShellError::InvalidArgument(m) && m@
                == "Or logical right hand side must be a command"@,
        },
{
    let left_args = match lhs {
        Ast::Command(args) => args,
        _ => {
            return Err(
                ShellError::InvalidArgument(
                    String::from_str("Or logical right hand side must be a command"),
                ),
            );
        },
    };
    let right_args = match rhs {
        Ast::Command(args) => args,
        _ => {
            return Err(
                ShellError::InvalidArgument(
                    String::from_str("Or logical right hand side must be a command"),
                ),
            );
        },
    };
    Ok((left_args, right_args))
}

/// After the left command of `||` (whether it exited successfully, or the
/// message of a failure to start or wait for it): a success ends the step
/// with `Ok`, an unsuccessful exit runs the right command, a failure is the
/// result.
pub fn after(left: Result<bool, String>) -> (t: Then)
    ensures
        match left {
            Ok(true) => t == Then::Stop(Ok(())),
            Ok(false) => t is Right,
            Err(m) => t == Then::Stop(Err(ShellError::IoError(m))),
        },
{
    match left {
        Ok(true) => Then::Stop(Ok(())),
        Ok(false) => Then::Right,
        Err(m) => Then::Stop(Err(ShellError::IoError(m))),
    }
}

/// The result of `||` once its right command has run: `Ok` however it
/// exited, or the failure to start or wait for it.
pub fn finish(right: Result<bool, String>) -> (res: Result<(), ShellError>)
    ensures
        match right {
            Ok(_) => res is Ok,
            Err(m) => res == Err::<(), ShellError>(ShellError::IoError(m)),
        },
{
    match right {
        Ok(_) => Ok(()),
        Err(m) => Err(ShellError::IoError(m)),
    }
}

} // verus!
