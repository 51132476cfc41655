use vstd::prelude::*;

verus! {

/// Platform-agnostic file metadata.
#[derive(Debug, Clone, Copy)]
pub struct FileMetadataPlatform {
    pub is_directory: bool,
    pub size: u64,
    /// Unix timestamp, seconds.
    pub created_at: i64,
    /// Unix timestamp, seconds.
    pub modified_at: i64,
}

/// Platform-agnostic local file state.
#[derive(Debug, Clone)]
pub struct LocalFileState {
    pub exists: bool,
    pub is_directory: bool,
    pub is_placeholder: bool,
    /// Whether the file content is fully available locally.
    pub is_hydrated: bool,
    /// Whether a placeholder directory has been populated with children.
    pub is_folder_populated: bool,
    /// Whether the file is in sync with the cloud.
    pub in_sync: bool,
    /// Whether the file is pinned for offline availability.
    pub is_pinned: bool,
    /// Whether the file is unpinned (explicitly marked for eviction).
    pub is_unpinned: bool,
    pub size: Option<u64>,
}

/// The state of a path that does not exist.
pub open spec fn missing_state() -> LocalFileState {
    LocalFileState {
        exists: false,
        is_directory: false,
        is_placeholder: false,
        is_hydrated: false,
        is_folder_populated: false,
        in_sync: false,
        is_pinned: false,
        is_unpinned: false,
        size: None,
    }
}

impl LocalFileState {
    /// Create a state representing a missing/non-existent file.
    pub fn missing() -> (r: Self)
        ensures
            r == missing_state(),
    {
        LocalFileState {
            exists: false,
            is_directory: false,
            is_placeholder: false,
            is_hydrated: false,
            is_folder_populated: false,
            in_sync: false,
            is_pinned: false,
            is_unpinned: false,
            size: None,
        }
    }
}

/// A placeholder entry to be created in the filesystem.
#[derive(Debug, Clone)]
pub struct PlaceholderEntry {
    /// File or directory name (not full path).
    pub relative_name: String,
    pub metadata: FileMetadataPlatform,
    pub etag: String,
    pub mark_in_sync: bool,
}

impl PlaceholderEntry {
    /// A field-by-field copy.
    pub(crate) fn duplicate(&self) -> (r: PlaceholderEntry)
        ensures
            r == *self,
    {
        PlaceholderEntry {
            relative_name: self.relative_name.clone(),
            metadata: self.metadata,
            etag: self.etag.clone(),
            mark_in_sync: self.mark_in_sync,
        }
    }
}

/// Writes hydration data back to the platform.
pub trait HydrationWriter {
    /// Write data at the given offset within the file being hydrated.
    fn write_at(&self, buf: &[u8], offset: u64) -> Result<(), anyhow::Error>;

    /// Report download progress to the platform.
    fn report_progress(&self, total: u64, completed: u64) -> Result<(), anyhow::Error>;
}

} // verus!
