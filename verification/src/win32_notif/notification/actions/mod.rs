pub mod input;

use vstd::prelude::*;
use crate::win32_notif::notification::actions::input::Selection;

verus! {

/// A button of a notification.
#[derive(Debug, Clone, Copy, PartialEq, Eq, Structural)]
pub struct ActionButton;

/// An input of a notification.
#[derive(Debug, Clone, Copy, PartialEq, Eq, Structural)]
pub struct Input;

impl ActionButton {
    pub fn create(content: &str) -> (r: Self)
        ensures
            r == ActionButton,
    {
        ActionButton
    }

    pub fn with_id(self, id: &str) -> (r: Self)
        ensures
            r == self,
    {
        self
    }

    pub fn with_tooltip(self, tooltip: &str) -> (r: Self)
        ensures
            r == self,
    {
        self
    }
}

impl Input {
    pub fn create_selection_input(id: &str, title: &str, hint: &str, items: Vec<Selection>, default: &str) -> (r: Self)
        ensures
            r == Input,
    {
        Input
    }
}

} // verus!
