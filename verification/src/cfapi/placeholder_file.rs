use vstd::prelude::*;
use crate::cfapi::metadata::Metadata;

verus! {

/// A placeholder file to create; its builder steps change nothing.
#[derive(Debug, Clone)]
pub struct PlaceholderFile {
    relative_path: String,
}

impl PlaceholderFile {
    pub closed spec fn relative_path(&self) -> Seq<char> {
        self.relative_path@
    }

    pub fn new(relative_path: &str) -> (r: Self)
        ensures
            r.relative_path() == relative_path@,
    {
        PlaceholderFile { relative_path: relative_path.to_owned() }
    }

    pub fn has_no_children(self) -> (r: Self)
        ensures
            r == self,
    {
        self
    }

    pub fn mark_in_sync(self) -> (r: Self)
        ensures
            r == self,
    {
        self
    }

    pub fn overwrite(self) -> (r: Self)
        ensures
            r == self,
    {
        self
    }

    pub fn block_dehydration(self) -> (r: Self)
        ensures
            r == self,
    {
        self
    }

    pub fn metadata(self, metadata: Metadata) -> (r: Self)
        ensures
            r == self,
    {
        self
    }

    pub fn blob(self, blob: Vec<u8>) -> (r: Self)
        ensures
            r == self,
    {
        self
    }

    /// Create the placeholder under `parent`: nothing is created, and the
    /// update sequence number given back is 0.
    pub fn create(self, parent: &str) -> (r: Result<i64, std::io::Error>)
        ensures
            r is Ok && r->Ok_0 == 0,
    {
        Ok(0)
    }
}

} // verus!
