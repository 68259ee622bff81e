pub mod and;
pub mod or;

use super::Step;
use crate::run::node::Ast;
use vstd::prelude::*;

verus! {

#[derive(Debug, Clone, Copy, PartialEq, Eq, Structural)]
pub enum LogicalType {
    And,
    Or,
}

/// `&&` runs both sides in turn, stopping at a failure; `||` runs the right
/// command where the left one fails.
pub fn execute<'a>(lhs: &'a Ast, rhs: &'a Ast, logical_type: LogicalType) -> (s: Step<'a>)
    ensures
        logical_type == LogicalType::And ==> (s matches Step::Both(x, y) && *x == *lhs && *y == *rhs),
        logical_type == LogicalType::Or ==> (s matches Step::Either(x, y) && *x == *lhs && *y == *rhs),
{
    match logical_type {
        LogicalType::And => and::execute(lhs, rhs),
        LogicalType::Or => Step::Either(lhs, rhs),
    }
}

} // verus!
