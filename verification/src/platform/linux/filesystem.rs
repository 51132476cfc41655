//! The decisions behind each FUSE request of the Cloudreve mount.
//!
//! Each request is answered from the inode table: these functions check
//! the request, change the table and say what to reply, while the caller
//! performs the cache-file I/O, the server fetches and the replies.

use vstd::prelude::*;
use crate::paths::{path_join, path_strip_prefix, std_path_join, std_path_strip_prefix};
use crate::platform::linux::cache_impl::{CacheManagerImpl, hex_fixed};
use crate::platform::linux::handle::{HandleTable, OpenFile, next_handle_after};
use crate::platform::linux::inode::{InodeCacheState, InodeDb, InodeEntry, InodeTables, ROOT_INODE, alloc_step, child_filter, lists_exactly, now_secs};
use crate::platform::linux::inode_laws::{index_consistent, lemma_deleted_keeps_index, lemma_deleting_found_name_frees_it, lemma_inserted_keeps_index, lemma_renamed_keeps_index, lemma_unfound_name_is_free, lemma_updated_keeps_index};

verus! {

/// Block size reported for the mount.
pub const BLOCK_SIZE: u32 = 512;

/// Why a request fails (ENOENT, EIO, EEXIST, ENOTDIR, EISDIR, EINVAL, ENOTEMPTY).
#[derive(Debug, Clone, Copy, PartialEq, Eq, Structural)]
pub enum FsError {
    NotFound,
    Io,
    Exists,
    NotDir,
    IsDir,
    Invalid,
    NotEmpty,
}

/// Kind of a mount entry.
#[derive(Debug, Clone, Copy, PartialEq, Eq, Structural)]
pub enum FileKind {
    Directory,
    RegularFile,
}

/// The attributes the mount reports for an inode; times are seconds since
/// the Unix epoch, and owner ids are filled in by the caller.
#[derive(Debug, Clone, Copy, PartialEq, Eq, Structural)]
pub struct InodeAttr {
    pub ino: u64,
    pub size: u64,
    pub blocks: u64,
    pub atime_secs: u64,
    pub mtime_secs: u64,
    pub ctime_secs: u64,
    pub crtime_secs: u64,
    pub kind: FileKind,
    pub perm: u16,
    pub nlink: u32,
    pub rdev: u32,
    pub blksize: u32,
    pub flags: u32,
}

/// The attributes of an inode entry: whole 512-byte blocks covering its
/// size; directories 0755 with two links, files 0644 with one.
pub open spec fn attr_of(e: InodeEntry) -> InodeAttr {
    let size = e.size as u64;
    InodeAttr {
        ino: e.inode,
        size,
        blocks: (size / 512 + if size % 512 == 0 { 0u64 } else { 1u64 }) as u64,
        atime_secs: e.accessed_at as u64,
        mtime_secs: e.modified_at as u64,
        ctime_secs: e.modified_at as u64,
        crtime_secs: e.created_at as u64,
        kind: if e.is_directory { FileKind::Directory } else { FileKind::RegularFile },
        perm: if e.is_directory { 0o755u16 } else { 0o644u16 },
        nlink: if e.is_directory { 2u32 } else { 1u32 },
        rdev: 0,
        blksize: BLOCK_SIZE,
        flags: 0,
    }
}

pub fn inode_to_attr(entry: &InodeEntry) -> (r: InodeAttr)
    ensures
        r == attr_of(*entry),
{
    let size = entry.size as u64;
    let blocks = size / 512 + if size % 512 == 0 { 0 } else { 1 };
    InodeAttr {
        ino: entry.inode,
        size,
        blocks,
        atime_secs: entry.accessed_at as u64,
        mtime_secs: entry.modified_at as u64,
        ctime_secs: entry.modified_at as u64,
        crtime_secs: entry.created_at as u64,
        kind: if entry.is_directory { FileKind::Directory } else { FileKind::RegularFile },
        perm: if entry.is_directory { 0o755 } else { 0o644 },
        nlink: if entry.is_directory { 2 } else { 1 },
        rdev: 0,
        blksize: BLOCK_SIZE,
        flags: 0,
    }
}

/// The host path of an inode: its mount path, with the leading "/"
/// stripped, joined onto the sync root.
pub open spec fn local_path_of(t: InodeTables, sync_path: Seq<char>, inode: u64) -> Option<Seq<char>> {
    match t.resolved_path(inode) {
        Some(rel) => Some(std_path_join(sync_path, match std_path_strip_prefix(rel, "/"@) {
            Some(s) => s,
            None => rel,
        })),
        None => None,
    }
}

/// What a lookup needs: the entry's attributes, a fetch of the parent's
/// listing from the server first, or nothing is there.
pub enum LookupStep {
    Found(InodeAttr),
    FetchFirst(String),
    Missing,
}

/// A time to set: a given moment (seconds since the epoch) or now.
#[derive(Debug, Clone, Copy)]
pub enum TimeSetting {
    At(i64),
    Now,
}

pub open spec fn time_value(t: TimeSetting, now: i64) -> i64 {
    match t {
        TimeSetting::At(s) => s,
        TimeSetting::Now => now,
    }
}

/// An entry after `setattr`: new size, access and modification times where given.
pub open spec fn set_attrs(e: InodeEntry, size: Option<u64>, atime: Option<TimeSetting>, mtime: Option<TimeSetting>, now: i64) -> InodeEntry {
    InodeEntry {
        size: match size { Some(s) => s as i64, None => e.size },
        accessed_at: match atime { Some(t) => time_value(t, now), None => e.accessed_at },
        modified_at: match mtime { Some(t) => time_value(t, now), None => e.modified_at },
        ..e
    }
}

/// One line of a directory listing: inode, kind, name, and the offset of
/// the line after it.
#[derive(Debug, Clone)]
pub struct DirLine {
    pub ino: u64,
    pub kind: FileKind,
    pub name: String,
    pub next_offset: i64,
}

/// The listing of directory `dir`: ".", ".." (the parent, or the root), then
/// the children as listed, each line numbered by the offset after it.
pub open spec fn dir_listing(dir: InodeEntry, children: Seq<InodeEntry>) -> Seq<(u64, FileKind, Seq<char>)> {
    seq![(dir.inode, FileKind::Directory, "."@), (if dir.parent_inode > ROOT_INODE { dir.parent_inode } else { ROOT_INODE }, FileKind::Directory, ".."@)]
        + children.map_values(|c: InodeEntry| (c.inode, if c.is_directory { FileKind::Directory } else { FileKind::RegularFile }, c.name@))
}

/// A listing line with the offset after it.
pub open spec fn line_is(l: DirLine, item: (u64, FileKind, Seq<char>), next: int) -> bool {
    l.ino == item.0 && l.kind == item.1 && l.name@ == item.2 && l.next_offset == next as i64
}

/// `r` is `listing` from position `skip` on, each line carrying the offset after it.
pub open spec fn lines_from(r: Seq<DirLine>, listing: Seq<(u64, FileKind, Seq<char>)>, skip: int) -> bool {
    &&& r.len() == (if skip < listing.len() { listing.len() - skip } else { 0 })
    &&& forall|i: int| #![trigger r[i]] 0 <= i < r.len() ==> line_is(r[i], listing[skip + i], skip + i + 1)
}

/// What `setattr` does: an unknown inode is not found; otherwise the entry
/// takes the new size and times and its attributes are given back, with the
/// cache file to truncate when the size changes.
pub open spec fn setattr_done(before: InodeDb, after: InodeDb, cache_dir: Seq<char>, ino: u64, size: Option<u64>, atime: Option<TimeSetting>, mtime: Option<TimeSetting>, now: i64, r: Result<(InodeAttr, Option<(String, u64)>), FsError>) -> bool {
    match before@.get(ino) {
        None => r == Err::<(InodeAttr, Option<(String, u64)>), FsError>(FsError::NotFound) && after@ == before@ && after.next_inode() == before.next_inode(),
        Some(e) => {
            let n = set_attrs(e, size, atime, mtime, now);
            &&& r is Ok
            &&& r->Ok_0.0 == attr_of(n)
            &&& match size {
                None => r->Ok_0.1 is None,
                Some(s) => r->Ok_0.1 is Some && r->Ok_0.1.unwrap().0@ == std_path_join(cache_dir, hex_fixed(ino as nat, 16)) && r->Ok_0.1.unwrap().1 == s,
            }
            &&& after@ == before@.updated(n)
            &&& after.next_inode() == before.next_inode()
        },
    }
}

/// An entry after a write of `len` bytes at `offset`, stamped `now`.
pub open spec fn written(e: InodeEntry, offset: i64, len: usize, now: i64) -> InodeEntry {
    InodeEntry {
        size: if offset + len > e.size { (offset + len) as i64 } else { e.size },
        modified_at: now,
        cache_state: InodeCacheState::Dirty,
        ..e
    }
}

/// Whether a directory has children.
pub open spec fn has_children(t: InodeTables, dir: u64) -> bool {
    exists|k: u64| #[trigger] t.is_child_of(k, dir)
}

/// What `rename` does: names that are not valid text are invalid; a
/// missing source is not found; otherwise whatever the destination names is
/// deleted, the source is moved there, and the host paths before and after
/// are given.
pub open spec fn renamed_in_fs(before: InodeDb, after: InodeDb, root: Seq<char>, parent: u64, name: Option<&str>, newparent: u64, newname: Option<&str>, r: Result<Renamed, FsError>) -> bool {
    match (name, newname) {
        (Some(n), Some(nn)) => match before@.lookup(parent, n@) {
            None => r is Err && r->Err_0 == FsError::NotFound && after@ == before@,
            Some(c) => {
                let cleared = match before@.lookup(newparent, nn@) {
                    Some(x) => before@.deleted(x.inode),
                    None => before@,
                };
                &&& r is Ok
                &&& r->Ok_0.replaced == (match before@.lookup(newparent, nn@) {
                    Some(x) => Some(x.inode),
                    None => None::<u64>,
                })
                &&& r->Ok_0.source.is_some() == local_path_of(before@, root, c.inode).is_some()
                &&& r->Ok_0.source.is_some() ==> r->Ok_0.source.unwrap()@ == local_path_of(before@, root, c.inode).unwrap()
                &&& exists|s: String| s@ == nn@ && after@ == cleared.renamed(c.inode, newparent, nn@, s)
                &&& r->Ok_0.destination.is_some() == local_path_of(after@, root, c.inode).is_some()
                &&& r->Ok_0.destination.is_some() ==> r->Ok_0.destination.unwrap()@ == local_path_of(after@, root, c.inode).unwrap()
            },
        },
        _ => r is Err && r->Err_0 == FsError::Invalid && after@ == before@,
    }
}

/// What `create` does: a name that is not valid text is invalid; an
/// existing name exists already; otherwise a new dirty file gets the next
/// inode number and is opened.
pub open spec fn created_file(db0: InodeDb, db1: InodeDb, fs0: CloudreveFS, fs1: CloudreveFS, parent: u64, name: Option<&str>, flags: i32, now: i64, r: Result<Created, FsError>) -> bool {
    match name {
        None => r is Err && r->Err_0 == FsError::Invalid && db1@ == db0@ && db1.next_inode() == db0.next_inode() && fs1 == fs0,
        Some(n) => if db0@.lookup(parent, n@) is Some {
            r is Err && r->Err_0 == FsError::Exists && db1@ == db0@ && db1.next_inode() == db0.next_inode() && fs1 == fs0
        } else {
            let ino = db0.next_inode();
            &&& r is Ok
            &&& r->Ok_0.ino == ino
            &&& r->Ok_0.fh == fs0.next_fh()
            &&& db1.next_inode() == alloc_step(ino)
            &&& exists|e: InodeEntry| is_new_file(e, ino, parent, n@, now) && db1@ == db0@.inserted(e) && r->Ok_0.attr == attr_of(e)
            &&& fs1.open_handles() == fs0.open_handles().insert(fs0.next_fh(), OpenFile { inode: ino, flags })
            &&& fs1.next_fh() == next_handle_after(fs0.next_fh())
            &&& fs1.root() == fs0.root()
            &&& fs0.next_fh() < u64::MAX ==> fs1.wf()
        },
    }
}

/// What `mkdir` does: a name that is not valid text is invalid; an
/// existing name exists already; otherwise a new empty directory gets the
/// next inode number.
pub open spec fn made_dir(db0: InodeDb, db1: InodeDb, parent: u64, name: Option<&str>, now: i64, r: Result<InodeAttr, FsError>) -> bool {
    match name {
        None => r == Err::<InodeAttr, FsError>(FsError::Invalid) && db1@ == db0@ && db1.next_inode() == db0.next_inode(),
        Some(n) => if db0@.lookup(parent, n@) is Some {
            r == Err::<InodeAttr, FsError>(FsError::Exists) && db1@ == db0@ && db1.next_inode() == db0.next_inode()
        } else {
            let ino = db0.next_inode();
            &&& db1.next_inode() == alloc_step(ino)
            &&& exists|e: InodeEntry| is_new_dir(e, ino, parent, n@, now) && db1@ == db0@.inserted(e) && r == Ok::<InodeAttr, FsError>(attr_of(e))
        },
    }
}

/// A file created on the mount: attributes, open handle and inode.
pub struct Created {
    pub attr: InodeAttr,
    pub fh: u64,
    pub ino: u64,
}

/// `e` is a new file `name` under `parent`: dirty, empty, stamped `now`.
pub open spec fn is_new_file(e: InodeEntry, ino: u64, parent: u64, name: Seq<char>, now: i64) -> bool {
    &&& e.inode == ino && e.parent_inode == parent && e.name@ == name
    &&& !e.is_directory && e.size == 0 && e.etag@ == Seq::<char>::empty()
    &&& e.created_at == now && e.modified_at == now && e.accessed_at == now
    &&& e.cache_state == InodeCacheState::Dirty
    &&& !e.pinned && !e.has_error && !e.populated
}

/// `e` is a new directory `name` under `parent`: empty and so populated,
/// not cached, stamped `now`.
pub open spec fn is_new_dir(e: InodeEntry, ino: u64, parent: u64, name: Seq<char>, now: i64) -> bool {
    &&& e.inode == ino && e.parent_inode == parent && e.name@ == name
    &&& e.is_directory && e.size == 0 && e.etag@ == Seq::<char>::empty()
    &&& e.created_at == now && e.modified_at == now && e.accessed_at == now
    &&& e.cache_state == InodeCacheState::NotCached
    &&& !e.pinned && !e.has_error && e.populated
}

/// A removed file: its inode (whose cache file goes too) and its host path.
pub struct Removed {
    pub ino: u64,
    pub local_path: Option<String>,
}

/// A rename: the inode replaced at the destination (its cache file goes
/// too), and the host paths before and after.
pub struct Renamed {
    pub replaced: Option<u64>,
    pub source: Option<String>,
    pub destination: Option<String>,
}

/// What reading a file that is not in the cache takes: its host path, the
/// cache file to fill and the size to fill it to.
pub struct HydrationPlan {
    pub local_path: String,
    pub cache_path: String,
    pub file_size: u64,
}

/// The FUSE filesystem of a drive: its open handles and where it is mounted.
pub struct CloudreveFS {
    handles: HandleTable,
    drive_id: String,
    sync_path: String,
}

impl CloudreveFS {
    pub closed spec fn root(&self) -> Seq<char> {
        self.sync_path@
    }

    pub closed spec fn drive(&self) -> Seq<char> {
        self.drive_id@
    }

    /// The open handles.
    pub closed spec fn open_handles(&self) -> Map<u64, OpenFile> {
        self.handles@
    }

    /// The number the next opened handle gets.
    pub closed spec fn next_fh(&self) -> u64 {
        self.handles.next_handle()
    }

    pub closed spec fn wf(&self) -> bool {
        self.handles.wf()
    }

    pub fn new(drive_id: String, sync_path: String) -> (r: Self)
        ensures
            r.root() == sync_path@,
            r.drive() == drive_id@,
            r.wf(),
            r.open_handles() == Map::<u64, OpenFile>::empty(),
            r.next_fh() == 1,
    {
        CloudreveFS { handles: HandleTable::new(), drive_id, sync_path }
    }


    /// Look up `name` under `parent`.  A name that is not found under a
    /// directory not yet populated asks for the directory's listing to be
    /// fetched first (from its host path); a name that is not valid text is
    /// not found.
    pub fn lookup(&self, db: &InodeDb, parent: u64, name: Option<&str>) -> (r: LookupStep)
        requires
            db.wf(),
        ensures
            match name {
                None => r is Missing,
                Some(n) => match db@.lookup(parent, n@) {
                    Some(e) => r == LookupStep::Found(attr_of(e)),
                    None => match db@.get(parent) {
                        Some(p) if p.is_directory && !p.populated && local_path_of(db@, self.root(), parent) is Some =>
                            r matches LookupStep::FetchFirst(path) && path@ == local_path_of(db@, self.root(), parent).unwrap(),
                        _ => r is Missing,
                    },
                },
            },
    {
        let name = match name {
            Some(n) => n,
            None => {
                return LookupStep::Missing;
            },
        };
        match db.lookup_child(parent, name) {
            Some(entry) => LookupStep::Found(inode_to_attr(&entry)),
            None => {
                if let Some(parent_entry) = db.get(parent) {
                    if parent_entry.is_directory && !parent_entry.populated {
                        if let Some(local_path) = self.resolve_local_path(db, parent) {
                            return LookupStep::FetchFirst(local_path);
                        }
                    }
                }
                LookupStep::Missing
            },
        }
    }

    /// Look `name` up again once the parent's listing was fetched.
    pub fn lookup_populated(&self, db: &InodeDb, parent: u64, name: &str) -> (r: Result<InodeAttr, FsError>)
        ensures
            match db@.lookup(parent, name@) {
                Some(e) => r == Ok::<InodeAttr, FsError>(attr_of(e)),
                None => r == Err::<InodeAttr, FsError>(FsError::NotFound),
            },
    {
        match db.lookup_child(parent, name) {
            Some(entry) => Ok(inode_to_attr(&entry)),
            None => Err(FsError::NotFound),
        }
    }

    /// Attributes of an inode.
    pub fn getattr(&self, db: &InodeDb, ino: u64) -> (r: Result<InodeAttr, FsError>)
        ensures
            match db@.get(ino) {
                Some(e) => r == Ok::<InodeAttr, FsError>(attr_of(e)),
                None => r == Err::<InodeAttr, FsError>(FsError::NotFound),
            },
    {
        match db.get(ino) {
            Some(entry) => Ok(inode_to_attr(&entry)),
            None => Err(FsError::NotFound),
        }
    }

    /// Change an inode's size and times.  Gives its new attributes, and, when
    /// the size changes, the cache file to truncate and the size to cut it to.
    pub fn setattr(&self, db: &mut InodeDb, cache: &CacheManagerImpl, ino: u64, size: Option<u64>, atime: Option<TimeSetting>, mtime: Option<TimeSetting>) -> (r: Result<(InodeAttr, Option<(String, u64)>), FsError>)
        requires
            old(db).wf(),
        ensures
            final(db).wf(),
            exists|now: i64| setattr_done(*old(db), *final(db), cache.dir(), ino, size, atime, mtime, now, r),
            index_consistent(old(db)@) ==> index_consistent(final(db)@),
    {
        let now = now_secs();
        self.setattr_at(db, cache, ino, size, atime, mtime, now)
    }

    /// `setattr` with "now" read as `now`.
    pub fn setattr_at(&self, db: &mut InodeDb, cache: &CacheManagerImpl, ino: u64, size: Option<u64>, atime: Option<TimeSetting>, mtime: Option<TimeSetting>, now: i64) -> (r: Result<(InodeAttr, Option<(String, u64)>), FsError>)
        requires
            old(db).wf(),
        ensures
            final(db).wf(),
            setattr_done(*old(db), *final(db), cache.dir(), ino, size, atime, mtime, now, r),
            index_consistent(old(db)@) ==> index_consistent(final(db)@),
    {
        let mut entry = match db.get(ino) {
            Some(e) => e,
            None => {
                return Err(FsError::NotFound);
            },
        };
        let mut truncate = None;
        if let Some(new_size) = size {
            entry.size = new_size as i64;
            truncate = Some((cache.cache_path_for_inode(ino), new_size));
        }
        if let Some(t) = atime {
            entry.accessed_at = match t {
                TimeSetting::At(secs) => secs,
                TimeSetting::Now => now,
            };
        }
        if let Some(t) = mtime {
            entry.modified_at = match t {
                TimeSetting::At(secs) => secs,
                TimeSetting::Now => now,
            };
        }
        proof {
            if index_consistent(db@) {
                assert(db@.entries.contains_key(ino));
                lemma_updated_keeps_index(db@, entry);
            }
        }
        db.update(&entry);
        Ok((inode_to_attr(&entry), truncate))
    }

    /// Start listing a directory: gives the directory's entry and, if it is
    /// not populated yet, the host path whose listing to fetch first.
    pub fn readdir_start(&self, db: &InodeDb, ino: u64) -> (r: Result<(InodeEntry, Option<String>), FsError>)
        requires
            db.wf(),
        ensures
            match db@.get(ino) {
                None => r == Err::<(InodeEntry, Option<String>), FsError>(FsError::NotFound),
                Some(e) => if !e.is_directory {
                    r == Err::<(InodeEntry, Option<String>), FsError>(FsError::NotDir)
                } else {
                    &&& r is Ok
                    &&& r->Ok_0.0 == e
                    &&& if e.populated {
                        r->Ok_0.1 is None
                    } else {
                        r->Ok_0.1.is_some() == local_path_of(db@, self.root(), ino).is_some()
                            && (r->Ok_0.1.is_some() ==> r->Ok_0.1.unwrap()@ == local_path_of(db@, self.root(), ino).unwrap())
                    }
                },
            },
    {
        let entry = match db.get(ino) {
            Some(e) => e,
            None => {
                return Err(FsError::NotFound);
            },
        };
        if !entry.is_directory {
            return Err(FsError::NotDir);
        }
        let fetch = if !entry.populated { self.resolve_local_path(db, ino) } else { None };
        Ok((entry, fetch))
    }

    /// The listing of directory `dir` from `offset` on: ".", "..", then its
    /// children in no promised order.
    pub fn readdir_lines(&self, db: &InodeDb, dir: &InodeEntry, offset: i64) -> (r: Vec<DirLine>)
        requires
            db.wf(),
        ensures
            exists|children: Seq<InodeEntry>|
                lists_exactly(children, db@.entries, child_filter(dir.inode))
                && lines_from(r@, dir_listing(*dir, children), offset as usize as int),
    {
        let children = db.list_children(dir.inode);
        let ghost listing = dir_listing(*dir, children@);
        let skip = offset as usize;
        let mut out: Vec<DirLine> = Vec::new();
        if skip == 0 {
            out.push(DirLine { ino: dir.inode, kind: FileKind::Directory, name: ".".to_owned(), next_offset: 1 });
        }
        if skip <= 1 {
            let up = if dir.parent_inode > ROOT_INODE { dir.parent_inode } else { ROOT_INODE };
            out.push(DirLine { ino: up, kind: FileKind::Directory, name: "..".to_owned(), next_offset: 2 });
        }
        assert(listing[0] == (dir.inode, FileKind::Directory, "."@));
        assert(forall|k: int| #![trigger out@[k]] 0 <= k < out.len() ==> line_is(out@[k], listing[skip + k], skip + k + 1));
        let mut c: usize = if skip >= 2 { skip - 2 } else { 0 };
        let ghost first = c as int;
        while c < children.len()
            invariant
                first <= c,
                c <= children.len() || c == first,
                first == (if skip >= 2 { skip - 2 } else { 0 }),
                listing == dir_listing(*dir, children@),
                listing.len() == children.len() + 2,
                out.len() == c + 2 - skip,
                forall|k: int| #![trigger out@[k]] 0 <= k < out.len() ==> line_is(out@[k], listing[skip + k], skip + k + 1),
            decreases children.len() - c,
        {
            let child = &children[c];
            let kind = if child.is_directory { FileKind::Directory } else { FileKind::RegularFile };
            let line = DirLine { ino: child.inode, kind, name: child.name.clone(), next_offset: (c as u128 + 3) as i64 };
            assert(listing[c + 2] == (child.inode, kind, child.name@));
            out.push(line);
            c += 1;
        }
        assert(lines_from(out@, listing, skip as int));
        out
    }

    /// Open an inode.
    pub fn open(&mut self, db: &InodeDb, ino: u64, flags: i32) -> (r: Result<u64, FsError>)
        requires
            old(self).wf(),
        ensures
            final(self).root() == old(self).root(),
            match db@.get(ino) {
                Some(_) => r == Ok::<u64, FsError>(old(self).next_fh())
                    && final(self).open_handles() == old(self).open_handles().insert(old(self).next_fh(), OpenFile { inode: ino, flags })
                    && final(self).next_fh() == next_handle_after(old(self).next_fh()),
                None => r == Err::<u64, FsError>(FsError::NotFound) && *final(self) == *old(self),
            },
            old(self).next_fh() < u64::MAX ==> final(self).wf(),
    {
        match db.get(ino) {
            Some(_) => Ok(self.handles.open(ino, flags)),
            None => Err(FsError::NotFound),
        }
    }

    /// Open a directory.
    pub fn opendir(&mut self, db: &InodeDb, ino: u64, flags: i32) -> (r: Result<u64, FsError>)
        requires
            old(self).wf(),
        ensures
            final(self).root() == old(self).root(),
            match db@.get(ino) {
                Some(e) => if e.is_directory {
                    r == Ok::<u64, FsError>(old(self).next_fh())
                    && final(self).open_handles() == old(self).open_handles().insert(old(self).next_fh(), OpenFile { inode: ino, flags })
                    && final(self).next_fh() == next_handle_after(old(self).next_fh())
                } else {
                    r == Err::<u64, FsError>(FsError::NotDir) && *final(self) == *old(self)
                },
                None => r == Err::<u64, FsError>(FsError::NotFound) && *final(self) == *old(self),
            },
            old(self).next_fh() < u64::MAX ==> final(self).wf(),
    {
        match db.get(ino) {
            Some(e) => {
                if e.is_directory {
                    Ok(self.handles.open(ino, flags))
                } else {
                    Err(FsError::NotDir)
                }
            },
            None => Err(FsError::NotFound),
        }
    }

    /// Release a file or directory handle.
    pub fn release(&mut self, fh: u64)
        requires
            old(self).wf(),
        ensures
            final(self).wf(),
            final(self).root() == old(self).root(),
            final(self).open_handles() == old(self).open_handles().remove(fh),
            final(self).next_fh() == old(self).next_fh(),
    {
        self.handles.release(fh);
    }

    /// Whether an inode may be accessed: whether it exists.
    pub fn access(&self, db: &InodeDb, ino: u64) -> (r: Result<(), FsError>)
        ensures
            r is Ok == db@.get(ino) is Some,
            r is Err ==> r->Err_0 == FsError::NotFound,
    {
        if db.get(ino).is_some() { Ok(()) } else { Err(FsError::NotFound) }
    }

    /// A flush before close: the inode counts as accessed now.
    pub fn flush(&self, db: &mut InodeDb, ino: u64)
        requires
            old(db).wf(),
        ensures
            final(db).wf(),
            exists|now: i64| final(db)@ == old(db)@.with_accessed(ino, now),
            final(db).next_inode() == old(db).next_inode(),
    {
        db.touch_accessed(ino);
    }


    /// What reading an uncached file takes: its host path, its cache file
    /// and its size.  A missing inode is not found, a directory can't be
    /// read, and an inode without a host path is an I/O error.
    pub fn hydration_plan(&self, db: &InodeDb, cache: &CacheManagerImpl, ino: u64) -> (r: Result<HydrationPlan, FsError>)
        requires
            db.wf(),
        ensures
            match db@.get(ino) {
                None => r is Err && r->Err_0 == FsError::NotFound,
                Some(e) => if e.is_directory {
                    r is Err && r->Err_0 == FsError::IsDir
                } else {
                    match local_path_of(db@, self.root(), ino) {
                        None => r is Err && r->Err_0 == FsError::Io,
                        Some(p) => r is Ok && r->Ok_0.local_path@ == p
                            && r->Ok_0.cache_path@ == std_path_join(cache.dir(), hex_fixed(ino as nat, 16))
                            && r->Ok_0.file_size == e.size as u64,
                    }
                },
            },
    {
        let entry = match db.get(ino) {
            Some(e) => e,
            None => {
                return Err(FsError::NotFound);
            },
        };
        if entry.is_directory {
            return Err(FsError::IsDir);
        }
        let local_path = match self.resolve_local_path(db, ino) {
            Some(p) => p,
            None => {
                return Err(FsError::Io);
            },
        };
        Ok(HydrationPlan { local_path, cache_path: cache.cache_path_for_inode(ino), file_size: entry.size as u64 })
    }

    /// Check a write: the inode must exist and not be a directory.
    pub fn write_check(&self, db: &InodeDb, ino: u64) -> (r: Result<InodeEntry, FsError>)
        ensures
            match db@.get(ino) {
                None => r == Err::<InodeEntry, FsError>(FsError::NotFound),
                Some(e) => if e.is_directory {
                    r == Err::<InodeEntry, FsError>(FsError::IsDir)
                } else {
                    r == Ok::<InodeEntry, FsError>(e)
                },
            },
    {
        match db.get(ino) {
            Some(e) => {
                if e.is_directory {
                    Err(FsError::IsDir)
                } else {
                    Ok(e)
                }
            },
            None => Err(FsError::NotFound),
        }
    }

    /// Record a write of `len` bytes at `offset` into the cache file of
    /// `entry` (as `write_check` gave it): the file grows to cover the
    /// write, is modified now and is dirty.
    pub fn write_commit(&self, db: &mut InodeDb, entry: InodeEntry, offset: i64, len: usize)
        requires
            old(db).wf(),
            len <= i64::MAX,
            offset + len <= i64::MAX,
        ensures
            final(db).wf(),
            final(db).next_inode() == old(db).next_inode(),
            exists|now: i64| final(db)@ == old(db)@.with_cache_state(entry.inode, InodeCacheState::Dirty).updated(written(entry, offset, len, now)),
    {
        let now = now_secs();
        self.write_commit_at(db, entry, offset, len, now);
    }

    /// `write_commit` with the modification stamped `now`.
    pub fn write_commit_at(&self, db: &mut InodeDb, entry: InodeEntry, offset: i64, len: usize, now: i64)
        requires
            old(db).wf(),
            len <= i64::MAX,
            offset + len <= i64::MAX,
        ensures
            final(db).wf(),
            final(db).next_inode() == old(db).next_inode(),
            final(db)@ == old(db)@.with_cache_state(entry.inode, InodeCacheState::Dirty).updated(written(entry, offset, len, now)),
    {
        let mut entry = entry;
        let new_end = offset + len as i64;
        if new_end > entry.size {
            entry.size = new_end;
        }
        entry.modified_at = now;
        db.set_cache_state(entry.inode, InodeCacheState::Dirty);
        entry.cache_state = InodeCacheState::Dirty;
        db.update(&entry);
    }

    /// Create a file `name` under `parent` and open it.  A name that is not
    /// valid text is invalid, and an existing name exists already.
    pub fn create(&mut self, db: &mut InodeDb, parent: u64, name: Option<&str>, flags: i32) -> (r: Result<Created, FsError>)
        requires
            old(db).wf(),
            old(self).wf(),
        ensures
            final(db).wf(),
            exists|now: i64| created_file(*old(db), *final(db), *old(self), *final(self), parent, name, flags, now, r),
            index_consistent(old(db)@) ==> index_consistent(final(db)@),
            old(db).numbers_fresh() && old(db).next_inode() < u64::MAX ==>
                final(db).numbers_fresh() && (r is Ok ==> !old(db)@.entries.contains_key(r->Ok_0.ino)),
    {
        let now = now_secs();
        self.create_at(db, parent, name, flags, now)
    }

    /// `create` with the new file stamped `now`.
    pub fn create_at(&mut self, db: &mut InodeDb, parent: u64, name: Option<&str>, flags: i32, now: i64) -> (r: Result<Created, FsError>)
        requires
            old(db).wf(),
            old(self).wf(),
        ensures
            final(db).wf(),
            created_file(*old(db), *final(db), *old(self), *final(self), parent, name, flags, now, r),
            index_consistent(old(db)@) ==> index_consistent(final(db)@),
            old(db).numbers_fresh() && old(db).next_inode() < u64::MAX ==>
                final(db).numbers_fresh() && (r is Ok ==> !old(db)@.entries.contains_key(r->Ok_0.ino)),
    {
        let name = match name {
            Some(n) => n,
            None => {
                return Err(FsError::Invalid);
            },
        };
        if db.lookup_child(parent, name).is_some() {
            return Err(FsError::Exists);
        }
        let ino = db.alloc_inode();
        let entry = InodeEntry {
            inode: ino,
            parent_inode: parent,
            name: name.to_owned(),
            is_directory: false,
            size: 0,
            etag: String::new(),
            created_at: now,
            modified_at: now,
            accessed_at: now,
            cache_state: InodeCacheState::Dirty,
            pinned: false,
            has_error: false,
            populated: false,
        };
        let attr = inode_to_attr(&entry);
        let ghost g = entry;
        proof {
            if index_consistent(db@) {
                lemma_unfound_name_is_free(db@, parent, name@, ino);
                lemma_inserted_keeps_index(db@, g);
            }
        }
        db.insert(entry);
        let fh = self.handles.open(ino, flags);
        assert(is_new_file(g, ino, parent, name@, now));
        Ok(Created { attr, fh, ino })
    }

    /// Make a directory `name` under `parent`.
    pub fn mkdir(&self, db: &mut InodeDb, parent: u64, name: Option<&str>) -> (r: Result<InodeAttr, FsError>)
        requires
            old(db).wf(),
        ensures
            final(db).wf(),
            exists|now: i64| made_dir(*old(db), *final(db), parent, name, now, r),
            index_consistent(old(db)@) ==> index_consistent(final(db)@),
            old(db).numbers_fresh() && old(db).next_inode() < u64::MAX ==>
                final(db).numbers_fresh() && (r is Ok ==> !old(db)@.entries.contains_key(r->Ok_0.ino)),
    {
        let now = now_secs();
        self.mkdir_at(db, parent, name, now)
    }

    /// `mkdir` with the new directory stamped `now`.
    pub fn mkdir_at(&self, db: &mut InodeDb, parent: u64, name: Option<&str>, now: i64) -> (r: Result<InodeAttr, FsError>)
        requires
            old(db).wf(),
        ensures
            final(db).wf(),
            made_dir(*old(db), *final(db), parent, name, now, r),
            index_consistent(old(db)@) ==> index_consistent(final(db)@),
            old(db).numbers_fresh() && old(db).next_inode() < u64::MAX ==>
                final(db).numbers_fresh() && (r is Ok ==> !old(db)@.entries.contains_key(r->Ok_0.ino)),
    {
        let name = match name {
            Some(n) => n,
            None => {
                return Err(FsError::Invalid);
            },
        };
        if db.lookup_child(parent, name).is_some() {
            return Err(FsError::Exists);
        }
        let ino = db.alloc_inode();
        let entry = InodeEntry {
            inode: ino,
            parent_inode: parent,
            name: name.to_owned(),
            is_directory: true,
            size: 0,
            etag: String::new(),
            created_at: now,
            modified_at: now,
            accessed_at: now,
            cache_state: InodeCacheState::NotCached,
            pinned: false,
            has_error: false,
            populated: true,
        };
        let attr = inode_to_attr(&entry);
        let ghost g = entry;
        proof {
            if index_consistent(db@) {
                lemma_unfound_name_is_free(db@, parent, name@, ino);
                lemma_inserted_keeps_index(db@, g);
            }
        }
        db.insert(entry);
        assert(is_new_dir(g, ino, parent, name@, now));
        Ok(attr)
    }

    /// Remove file `name` under `parent`: gives its inode (whose cache file
    /// goes too) and its host path as it was.
    pub fn unlink(&self, db: &mut InodeDb, parent: u64, name: Option<&str>) -> (r: Result<Removed, FsError>)
        requires
            old(db).wf(),
        ensures
            final(db).wf(),
            final(db).next_inode() == old(db).next_inode(),
            index_consistent(old(db)@) ==> index_consistent(final(db)@),
            match name {
                None => r is Err && r->Err_0 == FsError::NotFound && final(db)@ == old(db)@,
                Some(n) => match old(db)@.lookup(parent, n@) {
                    None => r is Err && r->Err_0 == FsError::NotFound && final(db)@ == old(db)@,
                    Some(c) => if c.is_directory {
                        r is Err && r->Err_0 == FsError::IsDir && final(db)@ == old(db)@
                    } else {
                        &&& r is Ok
                        &&& r->Ok_0.ino == c.inode
                        &&& r->Ok_0.local_path.is_some() == local_path_of(old(db)@, self.root(), c.inode).is_some()
                        &&& r->Ok_0.local_path.is_some() ==> r->Ok_0.local_path.unwrap()@ == local_path_of(old(db)@, self.root(), c.inode).unwrap()
                        &&& final(db)@ == old(db)@.deleted(c.inode)
                    },
                },
            },
    {
        let name = match name {
            Some(n) => n,
            None => {
                return Err(FsError::NotFound);
            },
        };
        let child = match db.lookup_child(parent, name) {
            Some(e) => e,
            None => {
                return Err(FsError::NotFound);
            },
        };
        if child.is_directory {
            return Err(FsError::IsDir);
        }
        let local_path = self.resolve_local_path(db, child.inode);
        proof {
            if index_consistent(db@) {
                lemma_deleted_keeps_index(db@, child.inode);
            }
        }
        db.delete(child.inode);
        Ok(Removed { ino: child.inode, local_path })
    }

    /// Remove empty directory `name` under `parent`: gives its host path as it was.
    pub fn rmdir(&self, db: &mut InodeDb, parent: u64, name: Option<&str>) -> (r: Result<Option<String>, FsError>)
        requires
            old(db).wf(),
        ensures
            final(db).wf(),
            final(db).next_inode() == old(db).next_inode(),
            index_consistent(old(db)@) ==> index_consistent(final(db)@),
            match name {
                None => r is Err && r->Err_0 == FsError::NotFound && final(db)@ == old(db)@,
                Some(n) => match old(db)@.lookup(parent, n@) {
                    None => r is Err && r->Err_0 == FsError::NotFound && final(db)@ == old(db)@,
                    Some(c) => if !c.is_directory {
                        r is Err && r->Err_0 == FsError::NotDir && final(db)@ == old(db)@
                    } else if has_children(old(db)@, c.inode) {
                        r is Err && r->Err_0 == FsError::NotEmpty && final(db)@ == old(db)@
                    } else {
                        &&& r is Ok
                        &&& r->Ok_0.is_some() == local_path_of(old(db)@, self.root(), c.inode).is_some()
                        &&& r->Ok_0.is_some() ==> r->Ok_0.unwrap()@ == local_path_of(old(db)@, self.root(), c.inode).unwrap()
                        &&& final(db)@ == old(db)@.deleted(c.inode)
                    },
                },
            },
    {
        let name = match name {
            Some(n) => n,
            None => {
                return Err(FsError::NotFound);
            },
        };
        let child = match db.lookup_child(parent, name) {
            Some(e) => e,
            None => {
                return Err(FsError::NotFound);
            },
        };
        if !child.is_directory {
            return Err(FsError::NotDir);
        }
        let children = db.list_children(child.inode);
        if children.len() > 0 {
            assert(db@.is_child_of(children@[0].inode, child.inode));
            return Err(FsError::NotEmpty);
        }
        assert forall|k: u64| !db@.is_child_of(k, child.inode) by {
            if db@.is_child_of(k, child.inode) {
                assert(db@.entries.contains_key(k) && child_filter(child.inode)(db@.entries[k]));
            }
        }
        let local_path = self.resolve_local_path(db, child.inode);
        proof {
            if index_consistent(db@) {
                lemma_deleted_keeps_index(db@, child.inode);
            }
        }
        db.delete(child.inode);
        Ok(local_path)
    }

    /// Rename `name` under `parent` to `newname` under `newparent`.  An
    /// inode already at the destination is deleted first (its cache file
    /// goes too).  Gives that inode and the host paths before and after.
    pub fn rename(&self, db: &mut InodeDb, parent: u64, name: Option<&str>, newparent: u64, newname: Option<&str>) -> (r: Result<Renamed, FsError>)
        requires
            old(db).wf(),
        ensures
            final(db).wf(),
            final(db).next_inode() == old(db).next_inode(),
            index_consistent(old(db)@) ==> index_consistent(final(db)@),
            renamed_in_fs(*old(db), *final(db), self.root(), parent, name, newparent, newname, r),
    {
        let name = match name {
            Some(n) => n,
            None => {
                return Err(FsError::Invalid);
            },
        };
        let newname = match newname {
            Some(n) => n,
            None => {
                return Err(FsError::Invalid);
            },
        };
        let child = match db.lookup_child(parent, name) {
            Some(e) => e,
            None => {
                return Err(FsError::NotFound);
            },
        };
        let source = self.resolve_local_path(db, child.inode);
        let ghost before = db@;
        let mut replaced = None;
        if let Some(existing) = db.lookup_child(newparent, newname) {
            replaced = Some(existing.inode);
            db.delete(existing.inode);
        }
        let ghost cleared = db@;
        proof {
            if index_consistent(before) {
                if before.lookup(newparent, newname@) is Some {
                    lemma_deleting_found_name_frees_it(before, newparent, newname@, child.inode);
                    lemma_deleted_keeps_index(before, before.lookup(newparent, newname@).unwrap().inode);
                } else {
                    lemma_unfound_name_is_free(before, newparent, newname@, child.inode);
                }
            }
        }
        db.rename(child.inode, newparent, newname);
        proof {
            if index_consistent(before) {
                let s = choose|s: String| s@ == newname@ && db@ == cleared.renamed(child.inode, newparent, newname@, s);
                lemma_renamed_keeps_index(cleared, child.inode, newparent, s);
            }
        }
        let destination = self.resolve_local_path(db, child.inode);
        Ok(Renamed { replaced, source, destination })
    }

    /// Resolve an inode to the absolute local path on the host filesystem.
    pub fn resolve_local_path(&self, db: &InodeDb, inode: u64) -> (r: Option<String>)
        requires
            db.wf(),
        ensures
            r.is_some() == local_path_of(db@, self.root(), inode).is_some(),
            r.is_some() ==> r.unwrap()@ == local_path_of(db@, self.root(), inode).unwrap(),
    {
        let relative = db.resolve_path(inode)?;
        let stripped = match path_strip_prefix(relative.as_str(), "/") {
            Some(s) => s,
            None => relative,
        };
        Some(path_join(self.sync_path.as_str(), stripped.as_str()))
    }
}

} // verus!
