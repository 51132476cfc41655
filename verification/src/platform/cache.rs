//! Cache layer for platforms without placeholder files (Linux FUSE).
//!
//! A cache directory holds real file data for the virtual mount.  Reads are
//! served from the cache or fetched from the server; writes go to the cache,
//! mark the file dirty and queue a background upload; clean cached files are
//! evicted least recently used first when the cache grows too large.  Dirty
//! files are never evicted.

use std::ops::Range;
use std::time::Duration;
use vstd::prelude::*;
use crate::platform::error::PlatformError;
use crate::platform::linux::inode::InodeDb;

verus! {

/// State of a cached file entry.
#[derive(Debug, Clone)]
pub enum CacheEntryState {
    /// No data cached on disk: metadata only.
    NotCached,
    /// Some byte ranges are cached.
    PartiallyCached { ranges: Vec<Range<u64>> },
    /// All data is present in cache.
    FullyCached,
    /// Modified locally, pending upload to server.
    Dirty { ranges: Vec<Range<u64>> },
}

/// Configuration for the cache layer.
#[derive(Debug, Clone)]
pub struct CacheConfig {
    pub cache_dir: String,
    /// Maximum cache size in bytes.
    pub max_size_bytes: u64,
    pub eviction_policy: EvictionPolicy,
}

/// Cache eviction policy.
#[derive(Debug, Clone, Copy)]
pub enum EvictionPolicy {
    /// Least recently used.
    Lru,
    /// LRU, but files accessed within this duration are kept.
    LruWithMinAge(Duration),
}

/// Managing the local file cache of a mount without placeholder files.
///
/// Paths are absolute within the mount ("/" is its root).  Methods that
/// create or remove cache files name the file; the caller does the I/O.
pub trait CacheManager {
    /// Get the current cache state for a path.
    fn get_state(&self, db: &InodeDb, path: &str) -> CacheEntryState;

    /// Get the local cache file path where real data is stored.
    fn cache_path(&self, db: &InodeDb, path: &str) -> String;

    /// The cache file to allocate for a path.
    fn allocate(&self, db: &InodeDb, path: &str) -> Result<String, PlatformError>;

    /// Mark a byte range as cached after successful download.
    fn mark_cached(&self, db: &mut InodeDb, path: &str, range: Range<u64>) -> Result<(), PlatformError>
        requires
            old(db).wf(),
    ;

    /// Mark a byte range as dirty after a local write.
    fn mark_dirty(&self, db: &mut InodeDb, path: &str, range: Range<u64>) -> Result<(), PlatformError>
        requires
            old(db).wf(),
    ;

    /// List all dirty files and their modified ranges (for the upload worker).
    fn list_dirty(&self, db: &InodeDb) -> Vec<(String, Vec<Range<u64>>)>
        requires
            db.wf(),
    ;

    /// Clear dirty flag after successful upload.
    fn mark_clean(&self, db: &mut InodeDb, path: &str) -> Result<(), PlatformError>
        requires
            old(db).wf(),
    ;

    /// The inode whose cached data to evict for a path.
    fn evict(&self, db: &InodeDb, path: &str) -> Result<u64, PlatformError>;

    /// Get total cache size currently on disk.
    fn current_size(&self) -> u64;
}

} // verus!
