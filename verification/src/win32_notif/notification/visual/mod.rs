pub mod text;

use vstd::prelude::*;
use crate::win32_notif::notification::visual::text::HintStyle;

verus! {

/// An image of a notification.
#[derive(Debug, Clone, Copy, PartialEq, Eq, Structural)]
pub struct Image;

/// Where an image goes.
#[derive(Debug, Clone, Copy, PartialEq, Eq, Structural)]
pub enum Placement {
    AppLogoOverride,
}

/// A text of a notification.
#[derive(Debug, Clone, Copy, PartialEq, Eq, Structural)]
pub struct Text;

impl Image {
    pub fn create(id: u8, src: &str) -> (r: Self)
        ensures
            r == Image,
    {
        Image
    }

    pub fn with_placement(self, placement: Placement) -> (r: Self)
        ensures
            r == self,
    {
        self
    }
}

impl Text {
    pub fn create(id: u8, content: &str) -> (r: Self)
        ensures
            r == Text,
    {
        Text
    }

    pub fn with_align_center(self, value: bool) -> (r: Self)
        ensures
            r == self,
    {
        self
    }

    pub fn with_wrap(self, value: bool) -> (r: Self)
        ensures
            r == self,
    {
        self
    }

    pub fn with_style(self, style: HintStyle) -> (r: Self)
        ensures
            r == self,
    {
        self
    }
}

} // verus!
