//! The decisions of the background workers: which dirty files to upload,
//! and how far to evict the cache.  The workers' timers, the file I/O and
//! the watermark arithmetic on the configured maximum run outside.

use vstd::prelude::*;
use crate::paths::{path_join, path_strip_prefix};
use crate::platform::linux::filesystem::local_path_of;
use crate::platform::linux::inode::{now_secs, InodeDb, InodeEntry, InodeTables, dirty_before_filter, lists_exactly};

verus! {

/// Dirty files untouched for this many seconds are uploaded.
pub const UPLOAD_MIN_AGE_SECS: i64 = 3;

/// `r` holds, in order, the host path of each listed entry that has one.
pub open spec fn host_paths(r: Seq<String>, t: InodeTables, sync_path: Seq<char>, listed: Seq<InodeEntry>) -> bool
    decreases listed.len(),
{
    if listed.len() == 0 {
        r.len() == 0
    } else {
        match local_path_of(t, sync_path, listed.last().inode) {
            Some(p) => r.len() > 0 && r.last()@ == p && host_paths(r.drop_last(), t, sync_path, listed.drop_last()),
            None => host_paths(r, t, sync_path, listed.drop_last()),
        }
    }
}

/// The host paths of the dirty files that have not been modified for
/// `UPLOAD_MIN_AGE_SECS` seconds: what one tick of the upload worker asks
/// to sync (nothing is sent when it is empty), by the clock read now.
pub fn upload_batch(db: &InodeDb, sync_path: &str) -> (r: Vec<String>)
    requires
        db.wf(),
    ensures
        exists|now: i64, listed: Seq<InodeEntry>|
            lists_exactly(listed, db@.entries, dirty_before_filter(now.wrapping_sub(UPLOAD_MIN_AGE_SECS)))
            && host_paths(r@, db@, sync_path@, listed),
{
    let now = now_secs();
    upload_batch_at(db, sync_path, now)
}

/// The upload batch by the clock reading `now`: the host paths, in listing
/// order, of the dirty files last modified before `now - UPLOAD_MIN_AGE_SECS`.
pub fn upload_batch_at(db: &InodeDb, sync_path: &str, now: i64) -> (r: Vec<String>)
    requires
        db.wf(),
    ensures
        exists|listed: Seq<InodeEntry>|
            lists_exactly(listed, db@.entries, dirty_before_filter(now.wrapping_sub(UPLOAD_MIN_AGE_SECS)))
            && host_paths(r@, db@, sync_path@, listed),
{
    let dirty = db.list_dirty_older_than_at(UPLOAD_MIN_AGE_SECS, now);
    let mut paths: Vec<String> = Vec::new();
    let mut i: usize = 0;
    while i < dirty.len()
        invariant
            db.wf(),
            0 <= i <= dirty.len(),
            host_paths(paths@, db@, sync_path@, dirty@.take(i as int)),
        decreases dirty.len() - i,
    {
        let ghost before = paths@;
        assert(dirty@.take(i + 1).drop_last() =~= dirty@.take(i as int));
        assert(dirty@.take(i + 1).last() == dirty@[i as int]);
        if let Some(relative) = db.resolve_path(dirty[i].inode) {
            let stripped = match path_strip_prefix(relative.as_str(), "/") {
                Some(s) => s,
                None => relative,
            };
            paths.push(path_join(sync_path, stripped.as_str()));
            assert(paths@.drop_last() =~= before);
        }
        i += 1;
    }
    assert(dirty@.take(dirty.len() as int) =~= dirty@);
    paths
}

/// What the eviction worker does next.
#[derive(Debug, Clone, Copy, PartialEq, Eq, Structural)]
pub enum EvictionStep {
    /// Evict the next least recently used file.
    EvictNext,
    /// Enough has been freed.
    Stop,
}

/// One eviction run: the cache size when it started, the size to get
/// under, and how much has been freed so far.
pub struct EvictionRun {
    current: u64,
    low_watermark: u64,
    freed: u64,
}

impl EvictionRun {
    pub closed spec fn start_size(&self) -> u64 {
        self.current
    }

    pub closed spec fn target(&self) -> u64 {
        self.low_watermark
    }

    pub closed spec fn freed_so_far(&self) -> u64 {
        self.freed
    }

    /// Start a run when the cache is above the high watermark; `None` when
    /// it is not.
    pub fn start(current: u64, high_watermark: u64, low_watermark: u64) -> (r: Option<EvictionRun>)
        ensures
            current <= high_watermark ==> r is None,
            current > high_watermark ==> r is Some && r->Some_0.start_size() == current
                && r->Some_0.target() == low_watermark && r->Some_0.freed_so_far() == 0,
    {
        if current <= high_watermark {
            None
        } else {
            Some(EvictionRun { current, low_watermark, freed: 0 })
        }
    }

    /// Stop once what is left has dropped below the low watermark (nothing
    /// is left once at least the starting size was freed).
    pub fn next_step(&self) -> (r: EvictionStep)
        ensures
            r == (if self.freed_so_far() >= self.start_size() || self.start_size() - self.freed_so_far() < self.target() {
                EvictionStep::Stop
            } else {
                EvictionStep::EvictNext
            }),
    {
        if self.freed >= self.current || self.current - self.freed < self.low_watermark {
            EvictionStep::Stop
        } else {
            EvictionStep::EvictNext
        }
    }

    /// Count a successfully evicted file of `size` bytes.
    pub fn record_evicted(&mut self, size: u64)
        requires
            old(self).freed_so_far() + size <= u64::MAX,
        ensures
            final(self).freed_so_far() == old(self).freed_so_far() + size,
            final(self).start_size() == old(self).start_size(),
            final(self).target() == old(self).target(),
    {
        self.freed = self.freed + size;
    }

    /// How much the run has freed.
    pub fn freed(&self) -> (r: u64)
        ensures
            r == self.freed_so_far(),
    {
        self.freed
    }
}

} // verus!
