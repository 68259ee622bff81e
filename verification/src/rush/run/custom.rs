use crate::text::{parse_i32, parsed_i32, same_text};
use std::collections::VecDeque;
use vstd::prelude::*;

verus! {

/// What a line asks of the shell itself: change to a directory (the home
/// directory where none is named), end with a code after printing the
/// complaint given, if any, or nothing: the line names a program.
#[derive(Debug)]
pub enum Custom {
    Cd(Option<String>),
    Exit(i32, Option<String>),
    NotCustom,
}

/// What the line `args` asks of the shell itself.
pub fn execute(args: &VecDeque<String>) -> (c: Custom)
    requires
        args@.len() > 0,
    ensures
        args@[0]@ == "cd"@ ==> (c matches Custom::Cd(p) && if args@.len() > 1 {
            p matches Some(s) && s@ == args@[1]@
        } else {
            p is None
        }),
        args@[0]@ == "exit"@ ==> (c matches Custom::Exit(code, complaint) && if args@.len() > 1 {
            match parsed_i32(args@[1]@) {
                Some(n) => code == n && complaint is None,
                None => code == 1 && (complaint matches Some(m) && m@ == "rush: invalid exit code: "@
                    + args@[1]@),
            }
        } else {
            code == 0 && complaint is None
        }),
        args@[0]@ != "cd"@ && args@[0]@ != "exit"@ ==> c is NotCustom,
{
    proof {
        reveal_strlit("cd");
        reveal_strlit("exit");
        assert("cd"@.len() != "exit"@.len());
    }
    if same_text(args[0].as_str(), "cd") {
        let arg = if args.len() > 1 {
            Some(args[1].clone())
        } else {
            None
        };
        return Custom::Cd(arg);
    }
    if same_text(args[0].as_str(), "exit") {
        if args.len() > 1 {
            match parse_i32(args[1].as_str()) {
                Some(n) => {
                    return Custom::Exit(n, None);
                },
                None => {
                    let mut m = String::from_str("rush: invalid exit code: ");
                    m.append(args[1].as_str());
                    return Custom::Exit(1, Some(m));
                },
            }
        }
        return Custom::Exit(0, None);
    }
    Custom::NotCustom
}

} // verus!
