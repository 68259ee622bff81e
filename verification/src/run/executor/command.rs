use crate::run::error::ShellError;
use crate::text::{parse_i32, parsed_i32, same_text};
use vstd::prelude::*;

verus! {

/// What a command line asks for: change to a directory (the argument, empty
/// where there is none), end the shell with a code, or run a program.
#[derive(Debug)]
pub enum CommandPlan {
    Cd(String),
    Exit(i32),
    Run,
}

/// How running a program ended: it exited (successfully or not, with its code
/// where it has one), it was not found, or starting it failed with a message.
pub enum RunOutcome {
    Exited { success: bool, code: Option<i32> },
    NotFound,
    Failed(String),
}

/// The code `exit` ends with: its argument read as an `i32`, else 0.
pub open spec fn exit_code(args: Seq<String>) -> i32 {
    if args.len() > 1 {
        match parsed_i32(args[1]@) {
            Some(c) => c,
            None => 0,
        }
    } else {
        0
    }
}

/// Decides what the command `args` asks for.
pub fn plan(args: &Vec<String>) -> (res: Result<CommandPlan, ShellError>)
    ensures
        args@.len() == 0 ==> (res matches Err(e) && e is ExpectedCommand),
        args@.len() > 0 ==> match res {
            Ok(CommandPlan::Cd(p)) => args@[0]@ == "cd"@ && p@ == (if args@.len() > 1 {
                args@[1]@
            } else {
                Seq::<char>::empty()
            }),
            Ok(CommandPlan::Exit(c)) => args@[0]@ == "exit"@ && c == exit_code(args@),
            Ok(CommandPlan::Run) => args@[0]@ != "cd"@ && args@[0]@ != "exit"@,
            Err(_) => false,
        },
{
    if args.len() == 0 {
        return Err(ShellError::ExpectedCommand);
    }
    if same_text(args[0].as_str(), "cd") {
        let path = if args.len() > 1 {
            args[1].clone()
        } else {
            String::new()
        };
        Ok(CommandPlan::Cd(path))
    } else if same_text(args[0].as_str(), "exit") {
        let code = if args.len() > 1 {
            match parse_i32(args[1].as_str()) {
                Some(c) => c,
                None => 0,
            }
        } else {
            0
        };
        Ok(CommandPlan::Exit(code))
    } else {
        Ok(CommandPlan::Run)
    }
}

/// The result of running `program`: a failed exit, a missing program and a
/// failure to start each give their own error.
pub fn finish(program: &String, outcome: RunOutcome) -> (res: Result<(), ShellError>)
    ensures
        match outcome {
            RunOutcome::Exited { success, code } => if success {
                res is Ok
            } else {
                res matches Err(e) && e matches ShellError::CommandFailure(p, c) && p@ == program@
                    && c == code
            },
            RunOutcome::NotFound => res matches Err(e) && e matches ShellError::CommandNotFound(p)
                && p@ == program@,
            RunOutcome::Failed(m) => res matches Err(e) && e == ShellError::IoError(m),
        },
{
    match outcome {
        RunOutcome::Exited { success, code } => {
            if !success {
                return Err(ShellError::CommandFailure(program.clone(), code));
            }
            Ok(())
        },
        RunOutcome::NotFound => Err(ShellError::CommandNotFound(program.clone())),
        RunOutcome::Failed(m) => Err(ShellError::IoError(m)),
    }
}

} // verus!
