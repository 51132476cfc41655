use std::ops::Range;
use std::time::SystemTime;
use vstd::prelude::*;

verus! {

/// Pin state of a placeholder.
#[derive(Debug, Clone, Copy, PartialEq, Eq, Structural, Default)]
pub enum PinState {
    #[default]
    Unspecified,
    Pinned,
    Unpinned,
    Excluded,
    Inherit,
}

/// Local file snapshot: plain metadata, never a placeholder.
#[derive(Debug, Clone, Copy)]
pub struct LocalFileInfo {
    pub exists: bool,
    pub is_directory: bool,
    pub file_size: Option<u64>,
    pub last_modified: Option<SystemTime>,
}

impl LocalFileInfo {
    pub fn missing() -> (r: Self)
        ensures
            !r.exists,
            !r.is_directory,
            r.file_size is None,
            r.last_modified is None,
    {
        LocalFileInfo { exists: false, is_directory: false, file_size: None, last_modified: None }
    }

    /// The snapshot of a path whose metadata reads `is_dir`, `is_file`,
    /// `len` and `modified`: it exists, and only a regular file has a size.
    pub fn from_metadata(is_dir: bool, is_file: bool, len: u64, modified: Option<SystemTime>) -> (r: Self)
        ensures
            r.exists,
            r.is_directory == is_dir,
            r.file_size == (if is_file { Some(len) } else { None::<u64> }),
            r.last_modified == modified,
    {
        LocalFileInfo {
            exists: true,
            is_directory: is_dir,
            file_size: if is_file { Some(len) } else { None },
            last_modified: modified,
        }
    }

    pub fn in_sync(&self) -> (r: bool)
        ensures
            !r,
    {
        false
    }

    pub fn is_placeholder(&self) -> (r: bool)
        ensures
            !r,
    {
        false
    }

    pub fn partial_on_disk(&self) -> (r: bool)
        ensures
            !r,
    {
        false
    }

    pub fn pinned(&self) -> (r: PinState)
        ensures
            r == PinState::Unspecified,
    {
        PinState::Unspecified
    }

    pub fn is_directory(&self) -> (r: bool)
        ensures
            r == self.is_directory,
    {
        self.is_directory
    }

    pub fn is_folder_populated(&self) -> (r: bool)
        ensures
            r == (self.exists && self.is_directory),
    {
        self.exists && self.is_directory
    }
}

/// Options for opening a placeholder; all are accepted and change nothing.
#[derive(Debug, Clone, Copy, PartialEq, Eq, Structural)]
pub struct OpenOptions;

impl OpenOptions {
    pub fn new() -> (r: Self)
        ensures
            r == OpenOptions,
    {
        OpenOptions
    }

    pub fn exclusive(self) -> (r: Self)
        ensures
            r == self,
    {
        self
    }

    pub fn write_access(self) -> (r: Self)
        ensures
            r == self,
    {
        self
    }

    pub fn delete_access(self) -> (r: Self)
        ensures
            r == self,
    {
        self
    }

    pub fn foreground(self) -> (r: Self)
        ensures
            r == self,
    {
        self
    }

    /// Open a placeholder by path: always succeeds.
    pub fn open_win32(self, path: &str) -> (r: Result<Placeholder, std::io::Error>)
        ensures
            r is Ok && r->Ok_0.path() == path@,
    {
        Ok(Placeholder { path: path.to_owned() })
    }

    /// Open a placeholder by path: always succeeds.
    pub fn open(self, path: &str) -> (r: Result<Placeholder, std::io::Error>)
        ensures
            r is Ok && r->Ok_0.path() == path@,
    {
        Ok(Placeholder { path: path.to_owned() })
    }
}

/// An open placeholder.
#[derive(Debug, Clone)]
pub struct Placeholder {
    path: String,
}

impl Placeholder {
    pub closed spec fn path(&self) -> Seq<char> {
        self.path@
    }

    pub fn hydrate(&mut self, range: Range<u64>) -> (r: Result<(), std::io::Error>)
        ensures
            r is Ok,
            final(self).path() == old(self).path(),
    {
        Ok(())
    }

    pub fn dehydrate(&mut self, range: Range<u64>) -> (r: Result<(), std::io::Error>)
        ensures
            r is Ok,
            final(self).path() == old(self).path(),
    {
        Ok(())
    }

    pub fn mark_in_sync(&mut self, in_sync: bool, usn: Option<i64>) -> (r: Result<(), std::io::Error>)
        ensures
            r is Ok,
            final(self).path() == old(self).path(),
    {
        Ok(())
    }
}

} // verus!
