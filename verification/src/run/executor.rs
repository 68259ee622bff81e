pub mod andlogical;
pub mod background;
pub mod command;
pub mod logical;
pub mod pipeline;
pub mod redirection;
pub mod separator;

use crate::run::error::ShellError;
use crate::run::node::Ast;
use logical::LogicalType;
use redirection::RedirectionType;
use vstd::prelude::*;

verus! {

/// The piece of work that carries out a tree. `Command`: run the command.
/// `Pipe`: the output of the left command feeds the right one. `Background`:
/// start the left side as a job and go on with the right. `Both`: run the
/// left side; if it fails, its error ends the run, else run the right side.
/// `Either`: run the right command where the left one fails. `Redirect`: run
/// the left command with a stream going to or coming from the file the right
/// side names. `Separator`: run the left side, report its error if any, then
/// run the right side.
pub enum Step<'a> {
    Command(&'a Vec<String>),
    Pipe(&'a Ast, &'a Ast),
    Background(&'a Ast, &'a Ast),
    Both(&'a Ast, &'a Ast),
    Either(&'a Ast, &'a Ast),
    Redirect(RedirectionType, &'a Ast, &'a Ast),
    Separator(&'a Ast, &'a Ast),
}

/// Whether `s` is the step that carries out the tree `node`.
pub open spec fn carries_out(node: Ast, s: Step) -> bool {
    match node {
        Ast::Command(args) => s matches Step::Command(a) && *a == args,
        Ast::Pipe(l, r) => s matches Step::Pipe(x, y) && *x == *l && *y == *r,
        Ast::Background(l, r) => s matches Step::Background(x, y) && *x == *l && *y == *r,
        Ast::AndLogical(l, r) => s matches Step::Both(x, y) && *x == *l && *y == *r,
        Ast::OrLogical(l, r) => s matches Step::Either(x, y) && *x == *l && *y == *r,
        Ast::Separator(l, r) => s matches Step::Separator(x, y) && *x == *l && *y == *r,
        Ast::InputRedirection(l, r) => s matches Step::Redirect(t, x, y) && t == RedirectionType::Input
            && *x == *l && *y == *r,
        Ast::OutputRedirection(l, r) => s matches Step::Redirect(t, x, y) && t
            == RedirectionType::Output && *x == *l && *y == *r,
        Ast::OverwriteRedirection(l, r) => s matches Step::Redirect(t, x, y) && t
            == RedirectionType::Overwrite && *x == *l && *y == *r,
        Ast::AppendRedirection(l, r) => s matches Step::Redirect(t, x, y) && t
            == RedirectionType::Append && *x == *l && *y == *r,
        Ast::ErrorRedirection(l, r) => s matches Step::Redirect(t, x, y) && t == RedirectionType::Error
            && *x == *l && *y == *r,
    }
}

/// Decides which piece of work carries out `node`.
pub fn execute<'a>(node: &'a Ast) -> (s: Step<'a>)
    ensures
        carries_out(*node, s),
{
    match node {
        Ast::Command(args) => Step::Command(args),
        Ast::Pipe(lhs, rhs) => Step::Pipe(lhs, rhs),
        Ast::Background(lhs, rhs) => Step::Background(lhs, rhs),
        Ast::AndLogical(lhs, rhs) => logical::execute(lhs, rhs, LogicalType::And),
        Ast::OrLogical(lhs, rhs) => logical::execute(lhs, rhs, LogicalType::Or),
        Ast::Separator(lhs, rhs) => Step::Separator(lhs, rhs),
        Ast::InputRedirection(lhs, rhs) => redirection::execute(lhs, rhs, RedirectionType::Input),
        Ast::OutputRedirection(lhs, rhs) => redirection::execute(lhs, rhs, RedirectionType::Output),
        Ast::OverwriteRedirection(lhs, rhs) => redirection::execute(
            lhs,
            rhs,
            RedirectionType::Overwrite,
        ),
        Ast::AppendRedirection(lhs, rhs) => redirection::execute(lhs, rhs, RedirectionType::Append),
        Ast::ErrorRedirection(lhs, rhs) => redirection::execute(lhs, rhs, RedirectionType::Error),
    }
}

/// What follows once the left side of a step that joins two sides has run:
/// stop with a result, run the right side (whose result is then the result),
/// or report an error and then run the right side.
pub enum Then {
    Stop(Result<(), ShellError>),
    Right,
    ReportThenRight(ShellError),
}

} // verus!
