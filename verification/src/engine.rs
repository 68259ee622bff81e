pub mod error;
pub mod lexer;
pub mod parser;
pub mod types;

pub use crate::interpreter::stream;

use crate::engine::error::ShellError;
use crate::engine::parser::{Expr, Operator};
use crate::interpreter::stream::{FileOption, Stream};
use vstd::prelude::*;

verus! {

/// The standard streams a child process is started with.
pub struct Config {
    pub stdout: Stream,
    pub stderr: Stream,
    pub stdin: Stream,
}

impl Config {
    pub fn new(stdout: Stream, stderr: Stream, stdin: Stream) -> (c: Self)
        ensures
            c.stdout == stdout,
            c.stderr == stderr,
            c.stdin == stdin,
    {
        Self { stdout: stdout, stderr: stderr, stdin: stdin }
    }
}

/// What running an expression starts with.
///
/// `Fail`: nothing is run and the error is the result. `Spawn`: the command is
/// started with the streams given (the inherited ones where there are none),
/// and the started child is the result. `Redirected`: the expression is run in
/// its place with the streams given. `Sequence`: `left` is run with
/// `left_config`, waited for, and what happened decides through `resume`
/// what comes next.
pub enum Plan {
    Fail(ShellError),
    Spawn(Vec<String>, Option<Config>),
    Redirected(Expr, Config),
    Sequence { left: Expr, left_config: Option<Config>, op: Operator, right: Expr, config: Option<Config> },
}

/// What happened to the left side of a sequence: it could not be started,
/// or it ran to its end (whether it succeeded, and what it wrote where its
/// output was piped), or waiting for it failed with a message.
pub enum Outcome {
    NotStarted(ShellError),
    Exited { success: bool, stdout: Option<String> },
    WaitFailed(String),
}

/// What comes after the left side of a sequence: the error that ends the
/// run, or the expression to run next with its streams, after reporting the
/// error given, if any.
pub enum Next {
    Fail(ShellError),
    Continue(Option<ShellError>, Expr, Option<Config>),
}

pub open spec fn is_redirect(op: Operator) -> bool {
    op == Operator::RedirectOverwrite || op == Operator::RedirectAppend
}

pub open spec fn inherit_all() -> Config {
    Config { stdout: Stream::Inherit, stderr: Stream::Inherit, stdin: Stream::Inherit }
}

/// The plan for running `expr` with the streams `config`.
pub open spec fn planned(expr: Expr, config: Option<Config>) -> Plan {
    match expr {
        Expr::Atomic(a) => if a@.len() == 0 {
            Plan::Fail(ShellError::Unnecassary)
        } else {
            Plan::Spawn(a, config)
        },
        Expr::Binary(l, op, r) => if is_redirect(op) {
            match *r {
                Expr::Atomic(a) => if a@.len() == 0 {
                    Plan::Fail(ShellError::Unnecassary)
                } else {
                    Plan::Redirected(
                        *l,
                        Config {
                            stdout: Stream::File(
                                a@[0],
                                if op == Operator::RedirectOverwrite {
                                    FileOption::Overwrite
                                } else {
                                    FileOption::Append
                                },
                            ),
                            stderr: Stream::Inherit,
                            stdin: Stream::Inherit,
                        },
                    )
                },
                _ => Plan::Fail(ShellError::Unnecassary),
            }
        } else if op == Operator::Pipe {
            Plan::Sequence {
                left: *l,
                left_config: Some(
                    Config { stdout: Stream::Piped, stderr: Stream::Inherit, stdin: Stream::Inherit },
                ),
                op,
                right: *r,
                config,
            }
        } else {
            Plan::Sequence { left: *l, left_config: None, op, right: *r, config }
        },
    }
}

/// What follows the left side of a sequence joined by `op`.
///
/// `&&` goes on only after a successful exit; `||` goes on only when the left
/// side could not be started or waited for; `;` always goes on, reporting a
/// failure of the left side; `|` goes on with the captured output as the
/// input of the right side, keeping the outer output and error streams.
pub open spec fn resumed(op: Operator, right: Expr, config: Option<Config>, outcome: Outcome) -> Next {
    match op {
        Operator::LogicalAnd => match outcome {
            Outcome::NotStarted(e) => Next::Fail(e),
            Outcome::Exited { success, .. } => if success {
                Next::Continue(None, right, config)
            } else {
                Next::Fail(ShellError::Unnecassary)
            },
            Outcome::WaitFailed(m) => Next::Fail(ShellError::IoError(m)),
        },
        Operator::LogicalOr => match outcome {
            Outcome::Exited { .. } => Next::Fail(ShellError::Unnecassary),
            _ => Next::Continue(None, right, config),
        },
        Operator::Separator => match outcome {
            Outcome::NotStarted(e) => Next::Continue(Some(e), right, config),
            Outcome::Exited { .. } => Next::Continue(None, right, config),
            Outcome::WaitFailed(m) => Next::Continue(Some(ShellError::IoError(m)), right, config),
        },
        _ => match outcome {
            Outcome::NotStarted(e) => Next::Fail(e),
            Outcome::WaitFailed(m) => Next::Fail(ShellError::IoError(m)),
            Outcome::Exited { stdout, .. } => match stdout {
                Some(buf) => {
                    let c = match config {
                        Some(c) => c,
                        None => inherit_all(),
                    };
                    Next::Continue(
                        None,
                        right,
                        Some(Config { stdout: c.stdout, stderr: c.stderr, stdin: Stream::ChildStdout(buf) }),
                    )
                },
                None => Next::Continue(None, right, config),
            },
        },
    }
}

/// Decides how `expr` is run with the streams `config`.
pub fn plan(expr: Expr, config: Option<Config>) -> (p: Plan)
    ensures
        p == planned(expr, config),
{
    match expr {
        Expr::Atomic(a) => {
            if a.len() == 0 {
                return Plan::Fail(ShellError::Unnecassary);
            }
            Plan::Spawn(a, config)
        },
        Expr::Binary(left, op, right) => match op {
            Operator::RedirectOverwrite | Operator::RedirectAppend => {
                let file = if let Expr::Atomic(a) = *right {
                    if a.len() == 0 {
                        return Plan::Fail(ShellError::Unnecassary);
                    }
                    a[0].clone()
                } else {
                    return Plan::Fail(ShellError::Unnecassary);
                };
                let option = match op {
                    Operator::RedirectOverwrite => FileOption::Overwrite,
                    _ => FileOption::Append,
                };
                Plan::Redirected(
                    *left,
                    Config::new(Stream::File(file, option), Stream::Inherit, Stream::Inherit),
                )
            },
            Operator::Pipe => Plan::Sequence {
                left: *left,
                left_config: Some(Config::new(Stream::Piped, Stream::Inherit, Stream::Inherit)),
                op,
                right: *right,
                config,
            },
            _ => Plan::Sequence { left: *left, left_config: None, op, right: *right, config },
        },
    }
}

/// Decides what follows the left side of a sequence joined by `op`.
pub fn resume(op: Operator, right: Expr, config: Option<Config>, outcome: Outcome) -> (n: Next)
    requires
        !is_redirect(op),
    ensures
        n == resumed(op, right, config, outcome),
{
    match op {
        Operator::LogicalAnd => match outcome {
            Outcome::NotStarted(e) => Next::Fail(e),
            Outcome::Exited { success, .. } => if success {
                Next::Continue(None, right, config)
            } else {
                Next::Fail(ShellError::Unnecassary)
            },
            Outcome::WaitFailed(m) => Next::Fail(ShellError::IoError(m)),
        },
        Operator::LogicalOr => match outcome {
            Outcome::Exited { .. } => Next::Fail(ShellError::Unnecassary),
            _ => Next::Continue(None, right, config),
        },
        Operator::Separator => match outcome {
            Outcome::NotStarted(e) => Next::Continue(Some(e), right, config),
            Outcome::Exited { .. } => Next::Continue(None, right, config),
            Outcome::WaitFailed(m) => Next::Continue(Some(ShellError::IoError(m)), right, config),
        },
        _ => match outcome {
            Outcome::NotStarted(e) => Next::Fail(e),
            Outcome::WaitFailed(m) => Next::Fail(ShellError::IoError(m)),
            Outcome::Exited { stdout, .. } => match stdout {
                Some(buf) => {
                    let c = match config {
                        Some(c) => c,
                        None => Config::new(Stream::Inherit, Stream::Inherit, Stream::Inherit),
                    };
                    Next::Continue(None, right, Some(Config::new(c.stdout, c.stderr, Stream::ChildStdout(buf))))
                },
                None => Next::Continue(None, right, config),
            },
        },
    }
}

/// How a line is started. A command with words is spawned with exactly the
/// streams it is given, and one without words fails. A command under `> f`
/// or `>> f` is spawned with its output going to the file `f` (overwritten
/// or appended to) and the other streams inherited. The two sides of `&&`,
/// `||`, `;` and `|` are run in turn: the left side first, on its own streams
/// (its output piped for `|`), and the right side with the streams given.
pub proof fn lemma_plan_streams(expr: Expr, config: Option<Config>)
    ensures
        planned(expr, config) matches Plan::Spawn(_, c) ==> c == config,
        expr matches Expr::Atomic(a) ==> if a@.len() > 0 {
            planned(expr, config) == Plan::Spawn(a, config)
        } else {
            planned(expr, config) is Fail
        },
        expr matches Expr::Binary(_, op, r) ==> (is_redirect(op) ==> (planned(expr, config) is Fail
            <==> !(*r matches Expr::Atomic(f) && f@.len() > 0))),
        expr matches Expr::Binary(l, op, r) ==> (!is_redirect(op) ==> (planned(expr, config)
            matches Plan::Sequence { left, left_config, op: o, right, config: c } && left == *l
            && right == *r && o == op && c == config && (if op == Operator::Pipe {
            left_config == Some(
                Config { stdout: Stream::Piped, stderr: Stream::Inherit, stdin: Stream::Inherit },
            )
        } else {
            left_config is None
        }))),
{
}

/// A command under `> f` or `>> f` is started writing into `f`: the plan of
/// the redirection runs the command with a configuration under which the
/// command is spawned with its output going to the file.
pub proof fn lemma_redirect_reaches_command(
    a: Vec<String>,
    op: Operator,
    f: Vec<String>,
    config: Option<Config>,
)
    requires
        is_redirect(op),
        a@.len() > 0,
        f@.len() > 0,
    ensures
        planned(Expr::Binary(Box::new(Expr::Atomic(a)), op, Box::new(Expr::Atomic(f))), config)
            matches Plan::Redirected(inner, c) && planned(inner, Some(c)) == Plan::Spawn(a, Some(c))
            && c.stdout == Stream::File(
            f@[0],
            if op == Operator::RedirectAppend {
                FileOption::Append
            } else {
                FileOption::Overwrite
            },
        ) && c.stderr == Stream::Inherit && c.stdin == Stream::Inherit,
{
}

/// What follows the left side of a sequence. Only the right side ever runs
/// next. `&&` goes on only after a successful exit, and a left side that
/// could not be started ends the run with its error. `||` goes on only where
/// the left side did not exit. `;` always goes on, reporting exactly the
/// failures of the left side. Except after `|`, the right side gets the
/// streams given; after `|` it reads the captured output and keeps the given
/// output and error streams.
pub proof fn lemma_resume_order(op: Operator, right: Expr, config: Option<Config>, outcome: Outcome)
    requires
        !is_redirect(op),
    ensures
        resumed(op, right, config, outcome) matches Next::Continue(_, r, _) ==> r == right,
        resumed(op, right, config, outcome) matches Next::Fail(err) ==> (outcome matches Outcome::NotStarted(e)
            ==> err == e) && (outcome matches Outcome::WaitFailed(m) ==> err == ShellError::IoError(m))
            && (outcome is Exited ==> err is Unnecassary),
        resumed(op, right, config, outcome) matches Next::Continue(Some(err), _, _) ==> (outcome matches Outcome::NotStarted(e)
            ==> err == e) && (outcome matches Outcome::WaitFailed(m) ==> err == ShellError::IoError(m))
            && !(outcome is Exited),
        op == Operator::LogicalAnd ==> (resumed(op, right, config, outcome) is Continue <==> outcome
            matches Outcome::Exited { success: true, .. }),
        outcome matches Outcome::NotStarted(e) ==> (op == Operator::LogicalAnd ==> resumed(
            op,
            right,
            config,
            outcome,
        ) == Next::Fail(e)),
        op == Operator::LogicalOr ==> (resumed(op, right, config, outcome) is Continue <==> !(
        outcome is Exited)),
        op == Operator::Separator ==> (resumed(op, right, config, outcome) matches Next::Continue(
            reported,
            _,
            _,
        ) && (reported is Some <==> !(outcome is Exited))),
        op != Operator::Pipe ==> (resumed(op, right, config, outcome) matches Next::Continue(_, _, c)
            ==> c == config),
        outcome matches Outcome::Exited { stdout: Some(buf), .. } ==> (op == Operator::Pipe ==> (
        resumed(op, right, config, outcome) matches Next::Continue(None, _, Some(c)) && c.stdin
            == Stream::ChildStdout(buf) && (config matches Some(g) ==> c.stdout == g.stdout
            && c.stderr == g.stderr) && (config is None ==> c.stdout == Stream::Inherit && c.stderr
            == Stream::Inherit))),
{
}

} // verus!
