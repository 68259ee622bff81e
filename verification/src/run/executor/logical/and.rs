use crate::run::error::ShellError;
use crate::run::executor::{Step, Then};
use crate::run::node::Ast;
use vstd::prelude::*;

verus! {

/// Runs the left side, then the right side; the first failure ends the run.
pub fn execute<'a>(lhs: &'a Ast, rhs: &'a Ast) -> (s: Step<'a>)
    ensures
        s matches Step::Both(x, y) && *x == *lhs && *y == *rhs,
{
    Step::Both(lhs, rhs)
}

/// After the left side of `&&`: its failure is the result and the right side
/// does not run; after a success the right side runs.
pub fn after(left: Result<(), ShellError>) -> (t: Then)
    ensures
        match left {
            Ok(()) => t is Right,
            Err(e) => t == Then::Stop(Err(e)),
        },
{
    match left {
        Ok(()) => Then::Right,
        Err(e) => Then::Stop(Err(e)),
    }
}

} // verus!
