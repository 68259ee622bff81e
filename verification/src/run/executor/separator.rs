use crate::run::error::ShellError;
use crate::run::executor::Then;
use vstd::prelude::*;

verus! {

/// After the left side of `;`: its failure is reported, and the right side
/// runs either way; the right side's result is the result.
pub fn after(left: Result<(), ShellError>) -> (t: Then)
    ensures
        match left {
            Ok(()) => t is Right,
            Err(e) => t == Then::ReportThenRight(e),
        },
{
    match left {
        Ok(()) => Then::Right,
        Err(e) => Then::ReportThenRight(e),
    }
}

} // verus!
