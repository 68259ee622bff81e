use crate::run::error::ShellError;
use crate::run::node::Ast;
use vstd::prelude::*;

verus! {

/// The two commands that `|` joins; the left side is checked first.
pub fn operands<'a>(lhs: &'a Ast, rhs: &'a Ast) -> (res: Result<
    (&'a Vec<String>, &'a Vec<String>),
    ShellError,
>)
    ensures
        match (*lhs, *rhs) {
            (Ast::Command(l), Ast::Command(r)) => res matches Ok((x, y)) && *x == l && *y == r,
            (Ast::Command(_), _) => res matches Err(e) && e matches ShellError::InvalidArgument(m)
                && m@ == "Pipeline right hand side must be a command"@,
            _ => res matches Err(e) && e matches ShellError::InvalidArgument(m) && m@
                == "Pipeline left hand side must be a command"@,
        },
{
    let lhs_command = match lhs {
        Ast::Command(args) => args,
        _ => {
            return Err(
                ShellError::InvalidArgument(
                    String::from_str("Pipeline left hand side must be a command"),
                ),
            );
        },
    };
    let rhs_command = match rhs {
        Ast::Command(args) => args,
        _ => {
            return Err(
                ShellError::InvalidArgument(
                    String::from_str("Pipeline right hand side must be a command"),
                ),
            );
        },
    };
    Ok((lhs_command, rhs_command))
}

} // verus!
