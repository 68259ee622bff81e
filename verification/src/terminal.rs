use vstd::prelude::*;

verus! {

/// The text a finished background job leaves to be shown.
pub struct Terminal {
    pub print: String,
}

} // verus!
