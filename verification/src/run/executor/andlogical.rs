use crate::run::executor::Step;
use crate::run::node::Ast;
use vstd::prelude::*;

verus! {

/// Runs the left side, then the right side; the first failure ends the run.
pub fn execute<'a>(lhs: &'a Ast, rhs: &'a Ast) -> (s: Step<'a>)
    ensures
        s matches Step::Both(x, y) && *x == *lhs && *y == *rhs,
{
    Step::Both(lhs, rhs)
}

} // verus!
