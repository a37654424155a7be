//! The popup that lists the code actions offered at the cursor. It keeps no
//! state of its own: what it shows lives in the editor's data.
use vstd::prelude::*;

verus! {

/// The code action popup.
pub struct CodeAction {}

impl CodeAction {
    /// A popup.
    pub fn new() -> (r: Self)
        ensures
            r == (CodeAction {}),
    {
        CodeAction {}
    }
}

} // verus!
