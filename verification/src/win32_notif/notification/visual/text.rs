use vstd::prelude::*;

verus! {

/// Style of a notification text.
#[derive(Debug, Clone, Copy, PartialEq, Eq, Structural)]
pub enum HintStyle {
    Title,
    Body,
}

} // verus!
