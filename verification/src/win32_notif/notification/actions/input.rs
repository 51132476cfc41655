use vstd::prelude::*;

verus! {

/// One choice of a selection input.
#[derive(Debug, Clone, Copy, PartialEq, Eq, Structural)]
pub struct Selection;

impl Selection {
    pub fn new(id: &str, content: &str) -> (r: Self)
        ensures
            r == Selection,
    {
        Selection
    }
}

} // verus!
