use super::error::ShellError;
use crate::text::{parse_i32, parsed_i32, same_text, strings_view};
use vstd::prelude::*;

verus! {

/// What a built-in command asks for: change to a directory (the home
/// directory where none is named), end the shell with a code, print the
/// working directory, run a command and report how long it took (nothing to
/// run where the list is empty), or nothing at all.
#[derive(Debug)]
pub enum Builtin {
    Cd(Option<String>),
    Exit(i32),
    Pwd,
    Time(Vec<String>),
    Nothing,
}

pub open spec fn is_bic_name(cmd: Seq<char>) -> bool {
    cmd == "cd"@ || cmd == "exit"@ || cmd == "pwd"@ || cmd == "time"@
}

/// Whether `cmd` names a built-in command.
pub fn is_bic(cmd: &str) -> (b: bool)
    ensures
        b == is_bic_name(cmd@),
{
    same_text(cmd, "cd") || same_text(cmd, "exit") || same_text(cmd, "pwd") || same_text(cmd, "time")
}

/// The code `exit` ends with: its first argument read as an `i32`, else 0.
pub open spec fn exit_code(rest: Seq<String>) -> i32 {
    if rest.len() == 0 {
        0
    } else {
        match parsed_i32(rest[0]@) {
            Some(c) => c,
            None => 0,
        }
    }
}

/// What the built-in command `args[0]` asks for, given its arguments.
pub open spec fn builtin_of(args: Seq<String>, b: Builtin) -> bool {
    let name = args[0]@;
    let rest = args.subrange(1, args.len() as int);
    if name == "cd"@ {
        b matches Builtin::Cd(target) && if rest.len() == 0 || rest[0]@ == "~"@ {
            target is None
        } else {
            target matches Some(p) && p@ == rest[0]@
        }
    } else if name == "exit"@ {
        b == Builtin::Exit(exit_code(rest))
    } else if name == "pwd"@ {
        b is Pwd
    } else if name == "time"@ {
        b matches Builtin::Time(v) && strings_view(v@) == strings_view(rest)
    } else {
        false
    }
}

/// Decides what the built-in command `args[0]` does with its arguments.
pub fn execute(args: Vec<String>) -> (res: Result<Builtin, ShellError>)
    ensures
        args@.len() == 0 ==> (res matches Ok(b) && b is Nothing),
        args@.len() > 0 ==> match res {
            Ok(b) => is_bic_name(args@[0]@) && builtin_of(args@, b),
            Err(e) => !is_bic_name(args@[0]@) && (e matches ShellError::CommandNotFound(m) && m@
                == "Unknown Built In Command:"@ + args@[0]@),
        },
{
    if args.len() == 0 {
        return Ok(Builtin::Nothing);
    }
    let name = args[0].as_str();
    let ghost rest = args@.subrange(1, args@.len() as int);
    if same_text(name, "cd") {
        if args.len() == 1 || same_text(args[1].as_str(), "~") {
            Ok(Builtin::Cd(None))
        } else {
            Ok(Builtin::Cd(Some(args[1].clone())))
        }
    } else if same_text(name, "exit") {
        let code = if args.len() > 1 {
            match parse_i32(args[1].as_str()) {
                Some(c) => c,
                None => 0,
            }
        } else {
            0
        };
        Ok(Builtin::Exit(code))
    } else if same_text(name, "pwd") {
        Ok(Builtin::Pwd)
    } else if same_text(name, "time") {
        let mut v: Vec<String> = Vec::new();
        let mut i: usize = 1;
        while i < args.len()
            invariant
                1 <= i <= args@.len(),
                strings_view(v@) == strings_view(args@.subrange(1, i as int)),
            decreases args@.len() - i,
        {
            let ghost ov = v@;
            v.push(args[i].clone());
            assert(v@ == ov.push(args@[i as int]));
            assert(args@.subrange(1, i + 1) == args@.subrange(1, i as int).push(args@[i as int]));
            assert forall|k: int| 0 <= k < v@.len() implies #[trigger] strings_view(v@)[k]
                == strings_view(args@.subrange(1, i + 1))[k] by {
                assert(strings_view(ov).len() == ov.len());
                assert(ov.len() == i - 1);
                if k < ov.len() {
                    assert(strings_view(ov)[k] == strings_view(args@.subrange(1, i as int))[k]);
                    assert(v@[k] == ov[k]);
                } else {
                    assert(v@[k] == args@[i as int]);
                }
            }
            assert(strings_view(v@) =~= strings_view(args@.subrange(1, i + 1)));
            i = i + 1;
        }
        Ok(Builtin::Time(v))
    } else {
        let mut m = String::from_str("Unknown Built In Command:");
        m.append(name);
        Err(ShellError::CommandNotFound(m))
    }
}

/// The error `cd` reports for a directory it cannot change to.
pub fn cd_failure(path: &str) -> (e: ShellError)
    ensures
        e matches ShellError::BicError(m) && m@ == "cd: The directory '"@ + path@
            + "' does not exist\n"@,
{
    let mut m = String::from_str("cd: The directory '");
    m.append(path);
    m.append("' does not exist\n");
    ShellError::BicError(m)
}

} // verus!
