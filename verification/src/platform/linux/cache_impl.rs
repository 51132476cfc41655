//! Cache bookkeeping for the FUSE mount.
//!
//! Cache files live at `<cache_dir>/<inode as 16 hex digits>` (flat), so
//! they survive renames: inode numbers don't change.  Reading, writing and
//! removing those files happens outside this module; the manager keeps the
//! size accounting and the inode cache states.

use std::ops::Range;
use vstd::prelude::*;
use crate::paths::{path_join, std_path_components, std_path_join};
use crate::platform::cache::{CacheEntryState, CacheManager};
use crate::platform::error::PlatformError;
use crate::platform::linux::inode::{now_secs, InodeCacheState, InodeDb, InodeEntry, InodeTables, dirty_before_filter, lists_exactly};

verus! {

/// The character of a hexadecimal digit, lower case.
pub open spec fn hex_char(d: nat) -> char {
    if d < 10 {
        (48 + d) as char
    } else {
        (87 + d) as char
    }
}

/// The lowest `k` hexadecimal digits of `n`, most significant first.
pub open spec fn hex_fixed(n: nat, k: nat) -> Seq<char>
    decreases k,
{
    if k == 0 {
        Seq::empty()
    } else {
        hex_fixed(n / 16, (k - 1) as nat).push(hex_char(n % 16))
    }
}

/// The text of one hexadecimal digit.
pub(crate) fn hex_digit(d: u64) -> (r: &'static str)
    requires
        d < 16,
    ensures
        r@ == seq![hex_char(d as nat)],
{
    proof {
        reveal_strlit("0");
        reveal_strlit("1");
        reveal_strlit("2");
        reveal_strlit("3");
        reveal_strlit("4");
        reveal_strlit("5");
        reveal_strlit("6");
        reveal_strlit("7");
        reveal_strlit("8");
        reveal_strlit("9");
        reveal_strlit("a");
        reveal_strlit("b");
        reveal_strlit("c");
        reveal_strlit("d");
        reveal_strlit("e");
        reveal_strlit("f");
    }
    if d == 0 { "0" } else if d == 1 { "1" } else if d == 2 { "2" } else if d == 3 { "3" }
    else if d == 4 { "4" } else if d == 5 { "5" } else if d == 6 { "6" } else if d == 7 { "7" }
    else if d == 8 { "8" } else if d == 9 { "9" } else if d == 10 { "a" } else if d == 11 { "b" }
    else if d == 12 { "c" } else if d == 13 { "d" } else if d == 14 { "e" } else { "f" }
}

/// The name of an inode's cache file: its number as 16 lower-case
/// hexadecimal digits, zero-padded (`{:016x}`).
pub fn cache_file_name(inode: u64) -> (r: String)
    ensures
        r@ == hex_fixed(inode as nat, 16),
{
    let mut digits: Vec<u64> = Vec::new();
    let mut m: u64 = inode;
    let ghost mut suffix: Seq<char> = Seq::empty();
    let mut j: usize = 0;
    while j < 16
        invariant
            j <= 16,
            digits.len() == j,
            hex_fixed(inode as nat, 16) == hex_fixed(m as nat, (16 - j) as nat) + suffix,
            suffix == Seq::new(j as nat, |i: int| hex_char(digits@[j - 1 - i] as nat)),
            forall|i: int| 0 <= i < j ==> #[trigger] digits@[i] < 16,
        decreases 16 - j,
    {
        let d = m % 16;
        proof {
            let rest = hex_fixed((m / 16) as nat, (15 - j) as nat);
            assert(hex_fixed(m as nat, (16 - j) as nat) == rest.push(hex_char(d as nat)));
            assert(rest.push(hex_char(d as nat)) + suffix =~= rest + (seq![hex_char(d as nat)] + suffix));
        }
        digits.push(d);
        proof {
            suffix = seq![hex_char(d as nat)] + suffix;
            assert(suffix =~= Seq::new((j + 1) as nat, |i: int| hex_char(digits@[j - i] as nat)));
        }
        m = m / 16;
        j += 1;
    }
    assert(hex_fixed(m as nat, 0) + suffix =~= suffix);
    let mut out = String::new();
    let mut k: usize = 16;
    while k > 0
        invariant
            k <= 16,
            digits.len() == 16,
            forall|i: int| 0 <= i < 16 ==> #[trigger] digits@[i] < 16,
            suffix == Seq::new(16, |i: int| hex_char(digits@[15 - i] as nat)),
            out@ == suffix.take(16 - k),
        decreases k,
    {
        k -= 1;
        let ghost before = out@;
        out.append(hex_digit(digits[k]));
        assert(out@ =~= suffix.take(16 - k)) by {
            assert(suffix.take(16 - k) =~= suffix.take(15 - k).push(suffix[15 - k as int]));
        }
    }
    assert(suffix.take(16) =~= suffix);
    out
}

/// How a stored entry's cache state reads as a cache entry state.
pub open spec fn reports_state(r: CacheEntryState, found: Option<InodeEntry>) -> bool {
    match found {
        None => r is NotCached,
        Some(e) => match e.cache_state {
            InodeCacheState::NotCached => r is NotCached,
            InodeCacheState::Cached => r is FullyCached,
            InodeCacheState::Dirty => r matches CacheEntryState::Dirty { ranges } && ranges@ == seq![Range { start: 0u64, end: e.size as u64 }],
        },
    }
}

/// The error a lookup by path ends in when no inode is found.
pub open spec fn is_inode_not_found(e: PlatformError) -> bool {
    e matches PlatformError::Failed(m) && m@ == "inode not found"@
}

/// Cache manager bookkeeping: where cache files go and how much they hold.
pub struct CacheManagerImpl {
    cache_dir: String,
    max_size_bytes: u64,
    current_size: u64,
}

impl CacheManagerImpl {
    pub closed spec fn dir(&self) -> Seq<char> {
        self.cache_dir@
    }

    pub closed spec fn max_size(&self) -> u64 {
        self.max_size_bytes
    }

    pub closed spec fn size(&self) -> u64 {
        self.current_size
    }

    /// A manager for `cache_dir` whose files were measured at `measured_size` bytes.
    pub fn new(cache_dir: String, max_size_bytes: u64, measured_size: u64) -> (r: Self)
        ensures
            r.dir() == cache_dir@,
            r.max_size() == max_size_bytes,
            r.size() == measured_size,
    {
        CacheManagerImpl { cache_dir, max_size_bytes, current_size: measured_size }
    }

    /// Get the cache file path for a given inode.
    pub fn cache_path_for_inode(&self, inode: u64) -> (r: String)
        ensures
            r@ == std_path_join(self.dir(), hex_fixed(inode as nat, 16)),
    {
        let name = cache_file_name(inode);
        path_join(self.cache_dir.as_str(), name.as_str())
    }

    pub fn max_size_bytes(&self) -> (r: u64)
        ensures
            r == self.max_size(),
    {
        self.max_size_bytes
    }


    /// Where to read an inode's data from the cache: its cache file, if the
    /// inode is known and its data is cached (clean or dirty).
    pub fn readable_cache_path(&self, db: &InodeDb, inode: u64) -> (r: Option<String>)
        ensures
            match db@.get(inode) {
                Some(e) if e.cache_state != InodeCacheState::NotCached => r.is_some() && r.unwrap()@ == std_path_join(self.dir(), hex_fixed(inode as nat, 16)),
                _ => r.is_none(),
            },
    {
        let entry = db.get(inode)?;
        match entry.cache_state {
            InodeCacheState::Cached | InodeCacheState::Dirty => {},
            InodeCacheState::NotCached => return None,
        }
        Some(self.cache_path_for_inode(inode))
    }

    /// Account for `len` bytes written to a cache file.
    pub fn note_written(&mut self, len: u64)
        ensures
            final(self).size() == (old(self).size() + len) % 0x1_0000_0000_0000_0000,
            final(self).dir() == old(self).dir(),
            final(self).max_size() == old(self).max_size(),
    {
        self.current_size = self.current_size.wrapping_add(len);
    }

    /// Account for a removed cache file of `removed_size` bytes (0 if there
    /// was none) and mark the inode as not cached.
    pub fn evict_inode(&mut self, db: &mut InodeDb, inode: u64, removed_size: u64)
        requires
            old(db).wf(),
        ensures
            final(db).wf(),
            final(db)@ == old(db)@.with_cache_state(inode, InodeCacheState::NotCached),
            final(db).next_inode() == old(db).next_inode(),
            final(self).size() == (old(self).size() - removed_size) % 0x1_0000_0000_0000_0000,
            final(self).dir() == old(self).dir(),
            final(self).max_size() == old(self).max_size(),
    {
        self.current_size = self.current_size.wrapping_sub(removed_size);
        db.set_cache_state(inode, InodeCacheState::NotCached);
    }

    /// Mark an inode as fully cached after download completes.
    pub fn mark_inode_cached(&self, db: &mut InodeDb, inode: u64)
        requires
            old(db).wf(),
        ensures
            final(db).wf(),
            final(db)@ == old(db)@.with_cache_state(inode, InodeCacheState::Cached),
            final(db).next_inode() == old(db).next_inode(),
    {
        db.set_cache_state(inode, InodeCacheState::Cached);
    }

    /// Mark an inode as dirty after a local write.
    pub fn mark_inode_dirty(&self, db: &mut InodeDb, inode: u64)
        requires
            old(db).wf(),
        ensures
            final(db).wf(),
            final(db)@ == old(db)@.with_cache_state(inode, InodeCacheState::Dirty),
            final(db).next_inode() == old(db).next_inode(),
    {
        db.set_cache_state(inode, InodeCacheState::Dirty);
    }

    /// Take a fresh measure of the cache files' total size.
    pub fn recalculate_size(&mut self, measured_size: u64)
        ensures
            final(self).size() == measured_size,
            final(self).dir() == old(self).dir(),
            final(self).max_size() == old(self).max_size(),
    {
        self.current_size = measured_size;
    }




    /// All dirty files with their modified ranges by the clock reading
    /// `now`: each dirty inode last modified before `now` whose path
    /// resolves, with the whole file as its range.
    pub fn list_dirty_at(&self, db: &InodeDb, now: i64) -> (r: Vec<(String, Vec<Range<u64>>)>)
        requires
            db.wf(),
        ensures
            exists|listed: Seq<InodeEntry>|
                lists_exactly(listed, db@.entries, dirty_before_filter(now))
                && reports_dirty(r@, db@, listed),
    {
        let listed = db.list_dirty_older_than_at(0, now);
        assert(now.wrapping_sub(0) == now);
        dirty_report(db, &listed)
    }

    /// Account for an allocated cache file of `size` bytes.
    pub fn note_allocated(&mut self, size: u64)
        ensures
            final(self).size() == (old(self).size() + size) % 0x1_0000_0000_0000_0000,
            final(self).dir() == old(self).dir(),
            final(self).max_size() == old(self).max_size(),
    {
        self.current_size = self.current_size.wrapping_add(size);
    }

    /// Set the cache state of the inode at `path`.
    fn set_state_by_path(&self, db: &mut InodeDb, path: &str, state: InodeCacheState) -> (r: Result<(), PlatformError>)
        requires
            old(db).wf(),
        ensures
            final(db).wf(),
            final(db).next_inode() == old(db).next_inode(),
            match old(db)@.find(std_path_components(path@)) {
                Some(e) => r is Ok && final(db)@ == old(db)@.with_cache_state(e.inode, state),
                None => r is Err && is_inode_not_found(r->Err_0) && final(db)@ == old(db)@,
            },
    {
        match db.find_by_path(path) {
            Some(entry) => {
                db.set_cache_state(entry.inode, state);
                Ok(())
            },
            None => Err(PlatformError::Failed("inode not found".to_owned())),
        }
    }





}

impl CacheManager for CacheManagerImpl {
    /// The cache state for a path.
    fn get_state(&self, db: &InodeDb, path: &str) -> (r: CacheEntryState)
        ensures
            reports_state(r, db@.find(std_path_components(path@))),
    {
        match db.find_by_path(path) {
            None => CacheEntryState::NotCached,
            Some(entry) => match entry.cache_state {
                InodeCacheState::NotCached => CacheEntryState::NotCached,
                InodeCacheState::Cached => CacheEntryState::FullyCached,
                InodeCacheState::Dirty => {
                    let mut ranges = Vec::new();
                    ranges.push(Range { start: 0, end: entry.size as u64 });
                    CacheEntryState::Dirty { ranges }
                },
            },
        }
    }

    /// The local cache file path where a path's data is stored
    /// (`<cache_dir>/__missing__` for an unknown path).
    fn cache_path(&self, db: &InodeDb, path: &str) -> (r: String)
        ensures
            match db@.find(std_path_components(path@)) {
                Some(e) => r@ == std_path_join(self.dir(), hex_fixed(e.inode as nat, 16)),
                None => r@ == std_path_join(self.dir(), "__missing__"@),
            },
    {
        match db.find_by_path(path) {
            Some(entry) => self.cache_path_for_inode(entry.inode),
            None => path_join(self.cache_dir.as_str(), "__missing__"),
        }
    }

    /// Where to allocate a path's cache file.  The caller creates the file
    /// at the expected size and then accounts for it with `note_allocated`.
    fn allocate(&self, db: &InodeDb, path: &str) -> (r: Result<String, PlatformError>)
        ensures
            match db@.find(std_path_components(path@)) {
                Some(e) => r is Ok && r->Ok_0@ == std_path_join(self.dir(), hex_fixed(e.inode as nat, 16)),
                None => r is Err && is_inode_not_found(r->Err_0),
            },
    {
        match db.find_by_path(path) {
            Some(entry) => Ok(self.cache_path_for_inode(entry.inode)),
            None => Err(PlatformError::Failed("inode not found".to_owned())),
        }
    }

    /// Mark a path's data as cached after a successful download.
    fn mark_cached(&self, db: &mut InodeDb, path: &str, _range: Range<u64>) -> (r: Result<(), PlatformError>)
        ensures
            final(db).wf(),
            final(db).next_inode() == old(db).next_inode(),
            match old(db)@.find(std_path_components(path@)) {
                Some(e) => r is Ok && final(db)@ == old(db)@.with_cache_state(e.inode, InodeCacheState::Cached),
                None => r is Err && is_inode_not_found(r->Err_0) && final(db)@ == old(db)@,
            },
    {
        self.set_state_by_path(db, path, InodeCacheState::Cached)
    }

    /// Mark a path's data as dirty after a local write.
    fn mark_dirty(&self, db: &mut InodeDb, path: &str, _range: Range<u64>) -> (r: Result<(), PlatformError>)
        ensures
            final(db).wf(),
            final(db).next_inode() == old(db).next_inode(),
            match old(db)@.find(std_path_components(path@)) {
                Some(e) => r is Ok && final(db)@ == old(db)@.with_cache_state(e.inode, InodeCacheState::Dirty),
                None => r is Err && is_inode_not_found(r->Err_0) && final(db)@ == old(db)@,
            },
    {
        self.set_state_by_path(db, path, InodeCacheState::Dirty)
    }

    /// Clear a path's dirty flag after a successful upload.
    fn mark_clean(&self, db: &mut InodeDb, path: &str) -> (r: Result<(), PlatformError>)
        ensures
            final(db).wf(),
            final(db).next_inode() == old(db).next_inode(),
            match old(db)@.find(std_path_components(path@)) {
                Some(e) => r is Ok && final(db)@ == old(db)@.with_cache_state(e.inode, InodeCacheState::Cached),
                None => r is Err && is_inode_not_found(r->Err_0) && final(db)@ == old(db)@,
            },
    {
        self.set_state_by_path(db, path, InodeCacheState::Cached)
    }

    /// Which inode's cache file to evict for a path.  The caller removes the
    /// file and then calls `evict_inode`.
    fn evict(&self, db: &InodeDb, path: &str) -> (r: Result<u64, PlatformError>)
        ensures
            match db@.find(std_path_components(path@)) {
                Some(e) => r == Ok::<u64, PlatformError>(e.inode),
                None => r is Err && is_inode_not_found(r->Err_0),
            },
    {
        match db.find_by_path(path) {
            Some(entry) => Ok(entry.inode),
            None => Err(PlatformError::Failed("inode not found".to_owned())),
        }
    }

    /// All dirty files with their modified ranges, for the upload worker:
    /// each dirty inode whose path resolves, with the whole file as its range.
    fn list_dirty(&self, db: &InodeDb) -> (r: Vec<(String, Vec<Range<u64>>)>)
        ensures
            exists|now: i64, listed: Seq<InodeEntry>|
                lists_exactly(listed, db@.entries, dirty_before_filter(now))
                && reports_dirty(r@, db@, listed),
    {
        let now = now_secs();
        self.list_dirty_at(db, now)
    }

    /// Get total cache size currently on disk, as accounted.
    fn current_size(&self) -> (r: u64)
        ensures
            r == self.size(),
    {
        self.current_size
    }
}

/// `r` reports, in order, each listed entry whose path resolves: its path
/// and the single range covering the whole file.
pub open spec fn reports_dirty(r: Seq<(String, Vec<Range<u64>>)>, t: InodeTables, listed: Seq<InodeEntry>) -> bool
    decreases listed.len(),
{
    if listed.len() == 0 {
        r.len() == 0
    } else {
        let e = listed.last();
        match t.resolved_path(e.inode) {
            Some(p) => r.len() > 0 && r.last().0@ == p && r.last().1@ == seq![Range { start: 0u64, end: e.size as u64 }]
                && reports_dirty(r.drop_last(), t, listed.drop_last()),
            None => reports_dirty(r, t, listed.drop_last()),
        }
    }
}

/// The path and whole-file range of each listed entry whose path resolves.
fn dirty_report(db: &InodeDb, listed: &Vec<InodeEntry>) -> (r: Vec<(String, Vec<Range<u64>>)>)
    requires
        db.wf(),
    ensures
        reports_dirty(r@, db@, listed@),
{
    let mut out: Vec<(String, Vec<Range<u64>>)> = Vec::new();
    let mut i: usize = 0;
    while i < listed.len()
        invariant
            db.wf(),
            0 <= i <= listed.len(),
            reports_dirty(out@, db@, listed@.take(i as int)),
        decreases listed.len() - i,
    {
        let e = &listed[i];
        let ghost before = out@;
        assert(listed@.take(i + 1).drop_last() =~= listed@.take(i as int));
        assert(listed@.take(i + 1).last() == listed@[i as int]);
        match db.resolve_path(e.inode) {
            Some(path) => {
                let mut ranges = Vec::new();
                ranges.push(Range { start: 0, end: e.size as u64 });
                out.push((path, ranges));
                assert(out@.drop_last() =~= before);
            },
            None => {},
        }
        i += 1;
    }
    assert(listed@.take(listed.len() as int) =~= listed@);
    out
}

} // verus!
