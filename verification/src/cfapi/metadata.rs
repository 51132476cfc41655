use nt_time::FileTime;
use vstd::prelude::*;

verus! {

#[verifier::external_type_specification]
#[verifier::external_body]
pub struct ExFileTime(FileTime);

/// Placeholder metadata; carries nothing here.
#[derive(Debug, Clone, Copy, Default, PartialEq, Eq, Structural)]
pub struct Metadata;

impl Metadata {
    pub fn file() -> (r: Self)
        ensures
            r == Metadata,
    {
        Metadata
    }

    pub fn directory() -> (r: Self)
        ensures
            r == Metadata,
    {
        Metadata
    }

    pub fn created(self, time: FileTime) -> (r: Self)
        ensures
            r == self,
    {
        self
    }

    pub fn accessed(self, time: FileTime) -> (r: Self)
        ensures
            r == self,
    {
        self
    }

    pub fn written(self, time: FileTime) -> (r: Self)
        ensures
            r == self,
    {
        self
    }

    pub fn changed(self, time: FileTime) -> (r: Self)
        ensures
            r == self,
    {
        self
    }

    pub fn size(self, size: u64) -> (r: Self)
        ensures
            r == self,
    {
        self
    }

    pub fn attributes(self, attributes: u32) -> (r: Self)
        ensures
            r == self,
    {
        self
    }
}

} // verus!
