//! Local file snapshots for full-sync mode: plain filesystem metadata, with
//! no virtual placeholder state.

use std::time::SystemTime;
use vstd::prelude::*;
use crate::paths::{path_parent, std_path_parent};

verus! {

/// Local file snapshot used by the full-sync logic.
#[derive(Debug, Clone, Copy)]
pub struct LocalFileInfo {
    pub exists: bool,
    pub is_directory: bool,
    pub file_size: Option<u64>,
    pub last_modified: Option<SystemTime>,
}

impl LocalFileInfo {
    /// The snapshot of a path whose metadata reads `is_dir`, `is_file`,
    /// `len` and `modified`: it exists, and only a regular file has a size.
    pub fn from_metadata(is_dir: bool, is_file: bool, len: u64, modified: Option<SystemTime>) -> (r: Self)
        ensures
            r.exists,
            r.is_directory == is_dir,
            r.file_size == (if is_file { Some(len) } else { None::<u64> }),
            r.last_modified == modified,
    {
        LocalFileInfo {
            exists: true,
            is_directory: is_dir,
            file_size: if is_file { Some(len) } else { None },
            last_modified: modified,
        }
    }

    /// Build a "missing file" snapshot.
    pub fn missing() -> (r: Self)
        ensures
            !r.exists,
            !r.is_directory,
            r.file_size is None,
            r.last_modified is None,
    {
        LocalFileInfo { exists: false, is_directory: false, file_size: None, last_modified: None }
    }

    /// Whether the local entry is considered in sync: never, there is no
    /// kernel state for it, so upper layers decide explicitly.
    pub fn in_sync(&self) -> (r: bool)
        ensures
            !r,
    {
        false
    }

    /// Whether the local entry is a virtual placeholder: never in full sync.
    pub fn is_placeholder(&self) -> (r: bool)
        ensures
            !r,
    {
        false
    }

    /// Whether content is only partially on disk: never in full sync.
    pub fn partial_on_disk(&self) -> (r: bool)
        ensures
            !r,
    {
        false
    }

    /// Whether this entry is a directory.
    pub fn is_directory(&self) -> (r: bool)
        ensures
            r == self.is_directory,
    {
        self.is_directory
    }

    /// Whether a directory is populated locally: an existing directory is.
    pub fn is_folder_populated(&self) -> (r: bool)
        ensures
            r == (self.exists && self.is_directory),
    {
        self.exists && self.is_directory
    }
}

/// What committing remote metadata does on the local filesystem before
/// the inventory is updated.
#[derive(Debug, Clone, PartialEq, Eq)]
pub enum CommitStep {
    /// The entry exists already: nothing is created.
    Nothing,
    /// Create the folder and any missing parents.
    CreateDirectory(String),
    /// Create the missing parents, if the path has a parent, then an empty
    /// file (an existing one is not truncated).
    CreateFile { parent: Option<String>, path: String },
}

/// The step that commits remote metadata at `local_path`: an error when no
/// metadata was attached (`meta_is_folder` is `None`), nothing when the
/// entry exists, else the folder or the file to create.
pub fn commit_step(local_path: &str, exists: bool, meta_is_folder: Option<bool>) -> (r: Result<CommitStep, String>)
    ensures
        match meta_is_folder {
            None => r matches Err(e) && e@ == "File metadata is not set"@,
            Some(is_folder) => r is Ok && if exists {
                r->Ok_0 == CommitStep::Nothing
            } else if is_folder {
                r->Ok_0 matches CommitStep::CreateDirectory(p) && p@ == local_path@
            } else {
                r->Ok_0 matches CommitStep::CreateFile { parent, path }
                    && path@ == local_path@
                    && parent.is_some() == std_path_parent(local_path@).is_some()
                    && (parent.is_some() ==> parent.unwrap()@ == std_path_parent(local_path@).unwrap())
            },
        },
{
    let is_folder = match meta_is_folder {
        Some(f) => f,
        None => {
            return Err("File metadata is not set".to_owned());
        },
    };
    if exists {
        Ok(CommitStep::Nothing)
    } else if is_folder {
        Ok(CommitStep::CreateDirectory(local_path.to_owned()))
    } else {
        Ok(CommitStep::CreateFile { parent: path_parent(local_path), path: local_path.to_owned() })
    }
}

} // verus!
