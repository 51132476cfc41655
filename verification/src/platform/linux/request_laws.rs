//! What the mount's requests and the provider's operations promise of the
//! entries they touch, stated over their inputs and results.

use vstd::prelude::*;
use crate::paths::std_path_components;
use crate::platform::error::PlatformError;
use crate::platform::provider::UpdateOptions;
use crate::platform::types::{FileMetadataPlatform, PlaceholderEntry};
use crate::platform::linux::filesystem::{CloudreveFS, Created, DirLine, FileKind, FsError, InodeAttr, Renamed, TimeSetting, attr_of, created_file, dir_listing, lines_from, local_path_of, made_dir, renamed_in_fs, setattr_done, written};
use crate::platform::linux::inode::{InodeCacheState, InodeDb, InodeEntry, InodeTables, ROOT_INODE, child_filter, dirty_before_filter, evictable_filter, lists_exactly, sorted_by_access};
use crate::platform::cache::CacheEntryState;
use crate::platform::linux::cache_impl::reports_state;
use crate::drive::fuse::passthrough_listing;
use crate::platform::linux::workers::host_paths;
use crate::platform::linux::inode_laws::{lemma_inserted_all_entry, law_lookup_after_rename};
use crate::platform::linux::provider::{converted, file_state_at, mount_relative, new_placeholder_inodes, placeholder_inode, placeholder_updated, placeholders_created};

verus! {

/// An inode's attributes report its kind (a directory exactly when the
/// entry is one, with mode 0755 and two links; a regular file with 0644
/// and one link), its number, size and times.
pub proof fn law_attributes_follow_entry(e: InodeEntry)
    ensures
        (attr_of(e).kind == FileKind::Directory) == e.is_directory,
        (attr_of(e).kind == FileKind::RegularFile) == !e.is_directory,
        attr_of(e).perm == (if e.is_directory { 0o755u16 } else { 0o644u16 }),
        attr_of(e).nlink == (if e.is_directory { 2u32 } else { 1u32 }),
        attr_of(e).ino == e.inode,
        attr_of(e).size == e.size as u64,
        attr_of(e).atime_secs == e.accessed_at as u64,
        attr_of(e).mtime_secs == e.modified_at as u64,
        attr_of(e).crtime_secs == e.created_at as u64,
{
}

/// A setattr on a filed inode stores the requested size and times (an
/// explicit time as given, "now" as the clock reading `now`), keeps the
/// size and times it was not asked to change and every other field, and
/// reports the stored times and size back.
pub proof fn law_setattr_stores_requested_values(
    before: InodeDb,
    after: InodeDb,
    cache_dir: Seq<char>,
    ino: u64,
    size: Option<u64>,
    atime: Option<TimeSetting>,
    mtime: Option<TimeSetting>,
    now: i64,
    r: Result<(InodeAttr, Option<(String, u64)>), FsError>,
)
    requires
        before.wf(),
        before@.entries.contains_key(ino),
        setattr_done(before, after, cache_dir, ino, size, atime, mtime, now, r),
    ensures
        r is Ok,
        after@.entries.contains_key(ino),
        ({
            let o = before@.entries[ino];
            let n = after@.entries[ino];
            &&& n.modified_at == match mtime {
                Some(TimeSetting::At(s)) => s,
                Some(TimeSetting::Now) => now,
                None => o.modified_at,
            }
            &&& n.accessed_at == match atime {
                Some(TimeSetting::At(s)) => s,
                Some(TimeSetting::Now) => now,
                None => o.accessed_at,
            }
            &&& n.size == match size {
                Some(s) => s as i64,
                None => o.size,
            }
            &&& n.inode == ino && n.parent_inode == o.parent_inode && n.name == o.name
            &&& n.is_directory == o.is_directory && n.cache_state == o.cache_state && n.etag == o.etag
            &&& n.created_at == o.created_at && n.pinned == o.pinned && n.populated == o.populated
            &&& r->Ok_0.0.ino == ino
            &&& r->Ok_0.0.mtime_secs == n.modified_at as u64
            &&& r->Ok_0.0.atime_secs == n.accessed_at as u64
            &&& r->Ok_0.0.size == n.size as u64
        }),
        forall|k: u64| k != ino ==> #[trigger] after@.entries.get(k) == before@.entries.get(k),
{
}

/// Past "." and "..", each line of a directory listing names a child of the
/// directory by its own number and name, with kind Directory exactly when
/// that child is a directory; "." and ".." are directories.
pub proof fn law_listing_kinds_follow_children(
    t: InodeTables,
    dir: InodeEntry,
    children: Seq<InodeEntry>,
    r: Seq<DirLine>,
    offset: int,
)
    requires
        0 <= offset,
        lists_exactly(children, t.entries, child_filter(dir.inode)),
        lines_from(r, dir_listing(dir, children), offset),
    ensures
        forall|i: int| 0 <= i < r.len() && offset + i < 2 ==> (#[trigger] r[i]).kind == FileKind::Directory,
        forall|i: int| 0 <= i < r.len() && offset + i >= 2 ==> {
            &&& t.entries.contains_key((#[trigger] r[i]).ino)
            &&& t.entries[r[i].ino].parent_inode == dir.inode
            &&& r[i].name@ == t.entries[r[i].ino].name@
            &&& (r[i].kind == FileKind::Directory) == t.entries[r[i].ino].is_directory
            &&& (r[i].kind == FileKind::RegularFile) == !t.entries[r[i].ino].is_directory
        },
{
    let listing = dir_listing(dir, children);
    assert forall|i: int| 0 <= i < r.len() && offset + i >= 2 implies {
        &&& t.entries.contains_key((#[trigger] r[i]).ino)
        &&& t.entries[r[i].ino].parent_inode == dir.inode
        &&& r[i].name@ == t.entries[r[i].ino].name@
        &&& (r[i].kind == FileKind::Directory) == t.entries[r[i].ino].is_directory
        &&& (r[i].kind == FileKind::RegularFile) == !t.entries[r[i].ino].is_directory
    } by {
        let c = children[offset + i - 2];
        assert(listing[offset + i] == (c.inode, if c.is_directory { FileKind::Directory } else { FileKind::RegularFile }, c.name@));
        assert(t.entries.contains_key(c.inode) && t.entries[c.inode] == c && child_filter(dir.inode)(c));
    }
}

/// The provider reports a filed path by its entry: it exists and is a
/// placeholder of the entry's kind; it is hydrated exactly when its data
/// sits in the local cache (cached, or dirty after a local write), and in
/// sync exactly when cached and not modified locally; pin, population and
/// size are the entry's.  A path that is not filed, outside the sync root
/// or asked before a start does not exist.
pub proof fn law_file_state_reports_entry(root: Option<Seq<char>>, t: InodeTables, path: Seq<char>)
    ensures
        ({
            let s = file_state_at(root, t, path);
            match root {
                Some(rt) => match mount_relative(rt, path) {
                    Some(rel) => match t.find(std_path_components(rel)) {
                        Some(e) => {
                            &&& s.exists && s.is_placeholder && !s.is_unpinned
                            &&& s.is_hydrated == (e.cache_state == InodeCacheState::Cached || e.cache_state == InodeCacheState::Dirty)
                            &&& !s.is_hydrated == (e.cache_state == InodeCacheState::NotCached)
                            &&& s.in_sync == (e.cache_state == InodeCacheState::Cached)
                            &&& s.is_directory == e.is_directory
                            &&& s.is_pinned == e.pinned
                            &&& s.is_folder_populated == e.populated
                            &&& s.size == Some(e.size as u64)
                        },
                        None => !s.exists && !s.is_hydrated && s.size is None,
                    },
                    None => !s.exists && !s.is_hydrated && s.size is None,
                },
                None => !s.exists && !s.is_hydrated && s.size is None,
            }
        }),
{
}

/// A successful placeholder update stores the new size, modification time
/// and etag on the found inode.  With `dehydrate` it gives that inode back
/// (its cache file is to go) and marks it not cached, so the next read
/// fetches the new content; without, it gives nothing and keeps the cache
/// state.  `mark_no_children` marks it populated.  The rest of the entry
/// and every other entry stay.
pub proof fn law_update_placeholder_stores_metadata(
    before: InodeTables,
    after: InodeTables,
    root: Option<Seq<char>>,
    path: Seq<char>,
    meta: FileMetadataPlatform,
    etag: Seq<char>,
    options: UpdateOptions,
    r: Result<Option<u64>, PlatformError>,
)
    requires
        forall|k: u64| #[trigger] before.entries.contains_key(k) ==> before.entries[k].inode == k,
        placeholder_updated(before, after, root, path, meta, etag, options, r),
        r is Ok,
    ensures
        exists|ino: u64| {
            &&& before.entries.contains_key(ino) && after.entries.contains_key(ino)
            &&& after.entries[ino].size == meta.size as i64
            &&& after.entries[ino].modified_at == meta.modified_at
            &&& after.entries[ino].etag@ == etag
            &&& options.dehydrate ==> r->Ok_0 == Some(ino) && after.entries[ino].cache_state == InodeCacheState::NotCached
            &&& !options.dehydrate ==> r->Ok_0 is None && after.entries[ino].cache_state == before.entries[ino].cache_state
            &&& after.entries[ino].populated == (options.mark_no_children || before.entries[ino].populated)
            &&& after.entries[ino].parent_inode == before.entries[ino].parent_inode
            &&& after.entries[ino].name == before.entries[ino].name
            &&& after.entries[ino].is_directory == before.entries[ino].is_directory
            &&& after.entries[ino].pinned == before.entries[ino].pinned
            &&& forall|k: u64| k != ino ==> #[trigger] after.entries.get(k) == before.entries.get(k)
        },
        options.dehydrate ==> r->Ok_0 is Some && after.entries.contains_key(r->Ok_0.unwrap())
            && after.entries[r->Ok_0.unwrap()].cache_state == InodeCacheState::NotCached,
{
    let rt = root.unwrap();
    let rel = mount_relative(rt, path).unwrap();
    let e = before.find(std_path_components(rel)).unwrap();
    let ino = before.follow(std_path_components(rel), ROOT_INODE).unwrap();
    assert(before.entries.contains_key(ino) && before.entries[ino] == e);
    assert(e.inode == ino);
}

/// Storing a batch keeps every number filed before.
proof fn lemma_inserted_all_keeps_keys(t: InodeTables, batch: Seq<InodeEntry>, k: u64)
    requires
        t.entries.contains_key(k),
    ensures
        t.inserted_all(batch).entries.contains_key(k),
    decreases batch.len(),
{
    if batch.len() > 0 {
        lemma_inserted_all_keeps_keys(t, batch.drop_last(), k);
    }
}

/// A (parent, name) key that leads to a filed entry, or that an entry of a
/// batch holds, leads to a filed entry after the batch is stored.
proof fn lemma_inserted_all_lookup_some(t: InodeTables, batch: Seq<InodeEntry>, key: (u64, Seq<char>))
    requires
        (t.children.contains_key(key) && t.entries.contains_key(t.children[key]))
            || exists|j: int| 0 <= j < batch.len() && (#[trigger] batch[j]).parent_inode == key.0 && batch[j].name@ == key.1,
    ensures
        t.inserted_all(batch).children.contains_key(key),
        t.inserted_all(batch).entries.contains_key(t.inserted_all(batch).children[key]),
    decreases batch.len(),
{
    if batch.len() > 0 {
        let front = batch.drop_last();
        let last = batch.last();
        if !(last.parent_inode == key.0 && last.name@ == key.1) {
            if !(t.children.contains_key(key) && t.entries.contains_key(t.children[key])) {
                let j = choose|j: int| 0 <= j < batch.len() && (#[trigger] batch[j]).parent_inode == key.0 && batch[j].name@ == key.1;
                assert(j < batch.len() - 1);
                assert(front[j] == batch[j]);
            }
            lemma_inserted_all_lookup_some(t, front, key);
        }
    } else {
        if !(t.children.contains_key(key) && t.entries.contains_key(t.children[key])) {
            let j = choose|j: int| 0 <= j < batch.len() && (#[trigger] batch[j]).parent_inode == key.0 && batch[j].name@ == key.1;
        }
    }
}

/// Every listed entry whose name is not filed under `parent` yet gets an
/// inode of that name there.
proof fn lemma_new_placeholders_cover_entries(t: InodeTables, parent: u64, entries: Seq<PlaceholderEntry>, next: u64, now: i64)
    ensures
        ({
            let made = new_placeholder_inodes(t, parent, entries, next, now).0;
            forall|i: int| 0 <= i < entries.len() && t.lookup(parent, (#[trigger] entries[i]).relative_name@) is None ==>
                exists|j: int| 0 <= j < made.len() && made[j].parent_inode == parent
                    && #[trigger] made[j].name@ == entries[i].relative_name@
        }),
    decreases entries.len(),
{
    if entries.len() > 0 {
        let front = entries.drop_last();
        lemma_new_placeholders_cover_entries(t, parent, front, next, now);
        let (m0, n0) = new_placeholder_inodes(t, parent, front, next, now);
        let made = new_placeholder_inodes(t, parent, entries, next, now).0;
        assert forall|i: int| 0 <= i < entries.len() && t.lookup(parent, (#[trigger] entries[i]).relative_name@) is None implies
            exists|j: int| 0 <= j < made.len() && made[j].parent_inode == parent
                && #[trigger] made[j].name@ == entries[i].relative_name@ by {
            if i < front.len() {
                assert(front[i] == entries[i]);
                let j = choose|j: int| 0 <= j < m0.len() && m0[j].parent_inode == parent
                    && #[trigger] m0[j].name@ == front[i].relative_name@;
                assert(made[j] == m0[j]);
            } else {
                assert(entries[i] == entries.last());
                let j = m0.len() as int;
                assert(made == m0.push(placeholder_inode(entries.last(), n0, parent, now)));
                assert(made[j] == placeholder_inode(entries.last(), n0, parent, now));
                assert(made[j].parent_inode == parent);
                assert(made[j].name@ == entries[i].relative_name@);
            }
        }
    }
}

/// An inode filed for listed entries is one of them: it holds a listed
/// entry's name, kind, size, times and etag, under `parent`, not cached.
proof fn lemma_new_placeholders_come_from_entries(t: InodeTables, parent: u64, entries: Seq<PlaceholderEntry>, next: u64, now: i64)
    ensures
        ({
            let made = new_placeholder_inodes(t, parent, entries, next, now).0;
            forall|j: int| 0 <= j < made.len() ==> exists|i: int| 0 <= i < entries.len()
                && #[trigger] made[j] == placeholder_inode(#[trigger] entries[i], made[j].inode, parent, now)
        }),
    decreases entries.len(),
{
    if entries.len() > 0 {
        let front = entries.drop_last();
        lemma_new_placeholders_come_from_entries(t, parent, front, next, now);
        let (m0, n0) = new_placeholder_inodes(t, parent, front, next, now);
        let made = new_placeholder_inodes(t, parent, entries, next, now).0;
        assert forall|j: int| 0 <= j < made.len() implies exists|i: int| 0 <= i < entries.len()
            && #[trigger] made[j] == placeholder_inode(#[trigger] entries[i], made[j].inode, parent, now) by {
            if j < m0.len() {
                assert(made[j] == m0[j]);
                let i = choose|i: int| 0 <= i < front.len()
                    && #[trigger] m0[j] == placeholder_inode(#[trigger] front[i], m0[j].inode, parent, now);
                assert(entries[i] == front[i]);
            } else {
                let k = entries.len() - 1;
                assert(entries[k] == entries.last());
                assert(made[j] == placeholder_inode(entries[k], n0, parent, now));
            }
        }
    }
}

/// Every inode that populating a directory files is new and comes from one
/// listed entry: it sits under the found parent with that entry's name, is
/// a directory exactly when the remote entry is a folder, and has its
/// size, times and etag, not yet cached.  Inodes filed before stay, but for
/// the parent, which becomes populated.
pub proof fn law_placeholders_carry_listing(
    before: InodeDb,
    after: InodeDb,
    root: Option<Seq<char>>,
    parent: Seq<char>,
    entries: Seq<PlaceholderEntry>,
    now: i64,
    r: Result<(), PlatformError>,
)
    requires
        before.wf(),
        placeholders_created(before, after, root, parent, entries, now, r),
        r is Ok,
    ensures
        ({
            let p = before@.find(std_path_components(match mount_relative(root.unwrap(), parent) {
                Some(x) => x,
                None => "/"@,
            })).unwrap();
            &&& forall|k: u64| #[trigger] after@.entries.contains_key(k) && !before@.entries.contains_key(k) ==>
                exists|i: int| 0 <= i < entries.len() && {
                    let n = after@.entries[k];
                    let l = #[trigger] entries[i];
                    &&& n.inode == k && n.parent_inode == p.inode
                    &&& n.name@ == l.relative_name@
                    &&& n.is_directory == l.metadata.is_directory
                    &&& n.size == l.metadata.size as i64
                    &&& n.created_at == l.metadata.created_at && n.modified_at == l.metadata.modified_at
                    &&& n.etag@ == l.etag@
                    &&& n.cache_state == InodeCacheState::NotCached
                }
            &&& after@.entries.contains_key(p.inode) && after@.entries[p.inode].populated
            &&& forall|i: int| 0 <= i < entries.len() ==> (#[trigger] after@.lookup(p.inode, entries[i].relative_name@)) is Some
        }),
{
    let rel = match mount_relative(root.unwrap(), parent) {
        Some(x) => x,
        None => "/"@,
    };
    let p = before@.find(std_path_components(rel)).unwrap();
    let ino = before@.follow(std_path_components(rel), ROOT_INODE).unwrap();
    assert(before@.entries.contains_key(ino) && before@.entries[ino] == p);
    let (made, next) = new_placeholder_inodes(before@, p.inode, entries, before.next_inode(), now);
    let mid = before@.inserted_all(made);
    lemma_new_placeholders_come_from_entries(before@, p.inode, entries, before.next_inode(), now);
    assert forall|k: u64| #[trigger] after@.entries.contains_key(k) && !before@.entries.contains_key(k) implies
        exists|i: int| 0 <= i < entries.len() && {
            let n = after@.entries[k];
            let l = #[trigger] entries[i];
            &&& n.inode == k && n.parent_inode == p.inode
            &&& n.name@ == l.relative_name@
            &&& n.is_directory == l.metadata.is_directory
            &&& n.size == l.metadata.size as i64
            &&& n.created_at == l.metadata.created_at && n.modified_at == l.metadata.modified_at
            &&& n.etag@ == l.etag@
            &&& n.cache_state == InodeCacheState::NotCached
        } by {
        assert(mid.entries.contains_key(k));
        assert(k != p.inode);
        assert(after@.entries[k] == mid.entries[k]);
        lemma_inserted_all_entry(before@, made, k);
        let j = choose|j: int| 0 <= j < made.len() && #[trigger] made[j] == mid.entries[k] && made[j].inode == k;
        let i = choose|i: int| 0 <= i < entries.len()
            && #[trigger] made[j] == placeholder_inode(#[trigger] entries[i], made[j].inode, p.inode, now);
        assert(entries[i] == entries[i]);
    }
    lemma_inserted_all_keeps_keys(before@, made, p.inode);
    lemma_new_placeholders_cover_entries(before@, p.inode, entries, before.next_inode(), now);
    assert forall|i: int| 0 <= i < entries.len() implies (#[trigger] after@.lookup(p.inode, entries[i].relative_name@)) is Some by {
        let key = (p.inode, entries[i].relative_name@);
        if before@.lookup(p.inode, entries[i].relative_name@) is None {
            let j = choose|j: int| 0 <= j < made.len() && made[j].parent_inode == p.inode
                && #[trigger] made[j].name@ == entries[i].relative_name@;
            lemma_inserted_all_lookup_some(before@, made, key);
        } else {
            lemma_inserted_all_lookup_some(before@, made, key);
        }
        assert(after@.children == mid.children);
        assert(after@.entries.dom() =~= mid.entries.dom());
    }
}

/// Creating a file under a name that is free files a new empty regular file
/// there, dirty (its data lives only in the local cache until uploaded),
/// stamped `now`, and reports it as a regular file with mode 0644; a name
/// already taken fails with Exists and changes nothing.
pub proof fn law_create_files_a_dirty_regular_file(
    db0: InodeDb, db1: InodeDb, fs0: CloudreveFS, fs1: CloudreveFS,
    parent: u64, name: &str, flags: i32, now: i64, r: Result<Created, FsError>,
)
    requires
        created_file(db0, db1, fs0, fs1, parent, Some(name), flags, now, r),
    ensures
        db0@.lookup(parent, name@) is Some ==> r is Err && r->Err_0 == FsError::Exists && db1@ == db0@,
        db0@.lookup(parent, name@) is None ==> {
            &&& r is Ok
            &&& db1@.entries.contains_key(r->Ok_0.ino)
            &&& db1@.lookup(parent, name@) == Some(db1@.entries[r->Ok_0.ino])
            &&& ({
                let e = db1@.entries[r->Ok_0.ino];
                &&& e.inode == r->Ok_0.ino && e.parent_inode == parent && e.name@ == name@
                &&& !e.is_directory && e.size == 0
                &&& e.cache_state == InodeCacheState::Dirty
                &&& e.created_at == now && e.modified_at == now
            })
            &&& r->Ok_0.attr.kind == FileKind::RegularFile && r->Ok_0.attr.perm == 0o644u16
            &&& r->Ok_0.attr.size == 0 && r->Ok_0.attr.ino == r->Ok_0.ino
        },
{
}

/// Making a directory under a name that is free files a new empty directory
/// there, known to have no children (populated) and nothing to cache, and
/// reports it as a directory with mode 0755; a name already taken fails
/// with Exists and changes nothing.
pub proof fn law_mkdir_files_an_empty_directory(db0: InodeDb, db1: InodeDb, parent: u64, name: &str, now: i64, r: Result<InodeAttr, FsError>)
    requires
        made_dir(db0, db1, parent, Some(name), now, r),
    ensures
        db0@.lookup(parent, name@) is Some ==> r == Err::<InodeAttr, FsError>(FsError::Exists) && db1@ == db0@,
        db0@.lookup(parent, name@) is None ==> {
            &&& r is Ok
            &&& db1@.entries.contains_key(r->Ok_0.ino)
            &&& db1@.lookup(parent, name@) == Some(db1@.entries[r->Ok_0.ino])
            &&& ({
                let e = db1@.entries[r->Ok_0.ino];
                &&& e.parent_inode == parent && e.name@ == name@
                &&& e.is_directory && e.populated
                &&& e.cache_state == InodeCacheState::NotCached
                &&& e.created_at == now && e.modified_at == now
            })
            &&& r->Ok_0.kind == FileKind::Directory && r->Ok_0.perm == 0o755u16
        },
{
}

/// After a write of `len` bytes at `offset`, the file's size is the larger
/// of its old size and the end of the write, it was modified `now`, and it
/// is dirty (to be uploaded); its name, place and kind stay.
pub proof fn law_write_grows_and_dirties(e: InodeEntry, offset: i64, len: usize, now: i64)
    requires
        0 <= offset,
        offset + len <= i64::MAX,
    ensures
        written(e, offset, len, now).size >= e.size,
        written(e, offset, len, now).size >= offset + len,
        written(e, offset, len, now).size == e.size || written(e, offset, len, now).size == offset + len,
        written(e, offset, len, now).modified_at == now,
        written(e, offset, len, now).cache_state == InodeCacheState::Dirty,
        written(e, offset, len, now).inode == e.inode,
        written(e, offset, len, now).parent_inode == e.parent_inode,
        written(e, offset, len, now).name == e.name,
        written(e, offset, len, now).is_directory == e.is_directory,
{
}

/// A rename to a free destination, or onto an entry that is not the source
/// nor above it, moves the source there: the new parent and name lead to
/// the source's inode, with its other fields kept; a replaced entry is
/// gone.
pub proof fn law_rename_moves_source(
    before: InodeDb, after: InodeDb, root: Seq<char>,
    parent: u64, name: &str, newparent: u64, newname: &str, r: Result<Renamed, FsError>,
)
    requires
        before.wf(),
        renamed_in_fs(before, after, root, parent, Some(name), newparent, Some(newname), r),
        before@.lookup(parent, name@) is Some,
        match before@.lookup(newparent, newname@) {
            Some(x) => !before@.subtree(x.inode).contains(before@.lookup(parent, name@).unwrap().inode),
            None => true,
        },
    ensures
        r is Ok,
        ({
            let c = before@.lookup(parent, name@).unwrap();
            &&& after@.lookup(newparent, newname@) matches Some(m)
            &&& m.inode == c.inode && m.parent_inode == newparent && m.name@ == newname@
            &&& m.is_directory == c.is_directory && m.size == c.size && m.cache_state == c.cache_state
            &&& m.etag == c.etag && m.modified_at == c.modified_at
        }),
        match before@.lookup(newparent, newname@) {
            Some(x) => r->Ok_0.replaced == Some(x.inode) && after@.get(x.inode) is None,
            None => r->Ok_0.replaced is None,
        },
{
    let c = before@.lookup(parent, name@).unwrap();
    let cleared = match before@.lookup(newparent, newname@) {
        Some(x) => before@.deleted(x.inode),
        None => before@,
    };
    let s = choose|s: String| s@ == newname@ && after@ == cleared.renamed(c.inode, newparent, newname@, s);
    let ci = before@.children.get((parent, name@)).unwrap();
    assert(before@.entries.contains_key(ci) && before@.entries[ci] == c);
    assert(before@.entries.contains_key(c.inode));
    match before@.lookup(newparent, newname@) {
        Some(x) => {
            assert(before@.below(x.inode, x.inode, 0));
            assert(before@.subtree(x.inode).contains(x.inode));
            assert(cleared.entries.contains_key(c.inode));
            assert(cleared.entries[c.inode] == c);
            if x.inode != c.inode {
                assert(after@.entries.get(x.inode) == cleared.entries.get(x.inode));
            }
        },
        None => {},
    }
    law_lookup_after_rename(cleared, c.inode, newparent, s);
}

/// Registering a local file as a placeholder gives a filed path the new
/// etag and keeps the rest of its entry; an unfiled path under a filed
/// parent becomes a new inode there of the given kind, cached (its data is
/// on disk) and stamped `now`.
pub proof fn law_convert_registers_local_file(
    before: InodeDb, after: InodeDb, root: Seq<char>, path: Seq<char>,
    etag: Seq<char>, is_directory: bool, now: i64, r: Result<(), PlatformError>,
)
    requires
        before.wf(),
        converted(before, after, Some(root), path, etag, is_directory, now, r),
        r is Ok,
    ensures
        ({
            let rel = mount_relative(root, path).unwrap();
            match before@.find(std_path_components(rel)) {
                Some(e) => after@.entries.contains_key(e.inode) && after@.entries[e.inode].etag@ == etag
                    && after@.entries[e.inode].cache_state == e.cache_state
                    && after@.entries[e.inode].is_directory == e.is_directory
                    && after@.entries[e.inode].size == e.size,
                None => {
                    let n = after@.entries[before.next_inode()];
                    &&& after@.entries.contains_key(before.next_inode())
                    &&& n.is_directory == is_directory
                    &&& n.etag@ == etag
                    &&& n.cache_state == InodeCacheState::Cached
                    &&& n.created_at == now && n.modified_at == now
                },
            }
        }),
{
    let rel = mount_relative(root, path).unwrap();
    match before@.find(std_path_components(rel)) {
        Some(e) => {
            let ino = before@.follow(std_path_components(rel), ROOT_INODE).unwrap();
            assert(before@.entries.contains_key(ino) && before@.entries[ino] == e);
        },
        None => {},
    }
}

/// Setting one field of a filed entry (its cache state, error flag,
/// populated flag or access time) sets exactly that field to the value
/// given and leaves every other field and every other entry as it was; an
/// unfiled inode leaves the table as it was.
pub proof fn law_field_setters_touch_one_field(t: InodeTables, inode: u64, state: InodeCacheState, flag: bool, at: i64)
    ensures
        t.with_cache_state(inode, state).entries.dom() == t.entries.dom(),
        t.with_error(inode, flag).entries.dom() == t.entries.dom(),
        t.with_populated(inode, flag).entries.dom() == t.entries.dom(),
        t.with_accessed(inode, at).entries.dom() == t.entries.dom(),
        t.with_cache_state(inode, state).children == t.children,
        t.entries.contains_key(inode) ==> {
            let e = t.entries[inode];
            let a = t.with_cache_state(inode, state).entries[inode];
            let b = t.with_error(inode, flag).entries[inode];
            let c = t.with_populated(inode, flag).entries[inode];
            let d = t.with_accessed(inode, at).entries[inode];
            &&& a.cache_state == state && a.has_error == e.has_error && a.populated == e.populated && a.accessed_at == e.accessed_at
            &&& b.has_error == flag && b.cache_state == e.cache_state && b.populated == e.populated && b.accessed_at == e.accessed_at
            &&& c.populated == flag && c.cache_state == e.cache_state && c.has_error == e.has_error && c.accessed_at == e.accessed_at
            &&& d.accessed_at == at && d.cache_state == e.cache_state && d.has_error == e.has_error && d.populated == e.populated
            &&& a.inode == e.inode && b.inode == e.inode && c.inode == e.inode && d.inode == e.inode
            &&& a.parent_inode == e.parent_inode && b.parent_inode == e.parent_inode && c.parent_inode == e.parent_inode && d.parent_inode == e.parent_inode
            &&& a.name == e.name && b.name == e.name && c.name == e.name && d.name == e.name
            &&& a.is_directory == e.is_directory && b.is_directory == e.is_directory && c.is_directory == e.is_directory && d.is_directory == e.is_directory
            &&& a.size == e.size && b.size == e.size && c.size == e.size && d.size == e.size
            &&& a.modified_at == e.modified_at && b.modified_at == e.modified_at && c.modified_at == e.modified_at && d.modified_at == e.modified_at
            &&& a.etag == e.etag && b.etag == e.etag && c.etag == e.etag && d.etag == e.etag
            &&& a.pinned == e.pinned && b.pinned == e.pinned && c.pinned == e.pinned && d.pinned == e.pinned
        },
        forall|k: u64| k != inode ==> {
            &&& #[trigger] t.with_cache_state(inode, state).entries.get(k) == t.entries.get(k)
            &&& t.with_error(inode, flag).entries.get(k) == t.entries.get(k)
            &&& t.with_populated(inode, flag).entries.get(k) == t.entries.get(k)
            &&& t.with_accessed(inode, at).entries.get(k) == t.entries.get(k)
        },
{
    assert(t.with_cache_state(inode, state).entries.dom() =~= t.entries.dom());
    assert(t.with_error(inode, flag).entries.dom() =~= t.entries.dom());
    assert(t.with_populated(inode, flag).entries.dom() =~= t.entries.dom());
    assert(t.with_accessed(inode, at).entries.dom() =~= t.entries.dom());
}

/// The upload worker's listing holds exactly the dirty files last modified
/// more than the minimum age before `now`: no clean or not-cached file, no
/// file modified since then, and every quiet dirty file.
pub proof fn law_upload_picks_quiet_dirty_files(t: InodeTables, now: i64, listed: Seq<InodeEntry>)
    requires
        i64::MIN + 3 <= now,
        lists_exactly(listed, t.entries, dirty_before_filter(now.wrapping_sub(3))),
    ensures
        forall|i: int| 0 <= i < listed.len() ==> {
            &&& t.entries.contains_key((#[trigger] listed[i]).inode)
            &&& listed[i].cache_state == InodeCacheState::Dirty
            &&& listed[i].modified_at < now - 3
        },
        forall|k: u64| #[trigger] t.entries.contains_key(k) && t.entries[k].cache_state == InodeCacheState::Dirty
            && t.entries[k].modified_at < now - 3 ==> exists|i: int| 0 <= i < listed.len() && listed[i].inode == k,
{
    assert(now.wrapping_sub(3) == now - 3);
    assert forall|i: int| 0 <= i < listed.len() implies {
        &&& t.entries.contains_key((#[trigger] listed[i]).inode)
        &&& listed[i].cache_state == InodeCacheState::Dirty
        &&& listed[i].modified_at < now - 3
    } by {
        assert(dirty_before_filter(now.wrapping_sub(3))(listed[i]));
    }
    assert forall|k: u64| #[trigger] t.entries.contains_key(k) && t.entries[k].cache_state == InodeCacheState::Dirty
        && t.entries[k].modified_at < now - 3 implies exists|i: int| 0 <= i < listed.len() && listed[i].inode == k by {
        assert(dirty_before_filter(now.wrapping_sub(3))(t.entries[k]));
    }
}

/// Eviction's candidates are exactly the clean cached regular files nobody
/// pinned, least recently accessed first: never a dirty, not-cached or
/// pinned file, nor a directory.
pub proof fn law_evictable_are_clean_unpinned_files(t: InodeTables, listed: Seq<InodeEntry>)
    requires
        lists_exactly(listed, t.entries, evictable_filter()),
        sorted_by_access(listed),
    ensures
        forall|i: int| 0 <= i < listed.len() ==> {
            &&& t.entries.contains_key((#[trigger] listed[i]).inode)
            &&& listed[i].cache_state == InodeCacheState::Cached
            &&& !listed[i].pinned && !listed[i].is_directory
        },
        forall|k: u64| #[trigger] t.entries.contains_key(k) && t.entries[k].cache_state == InodeCacheState::Cached
            && !t.entries[k].pinned && !t.entries[k].is_directory ==> exists|i: int| 0 <= i < listed.len() && listed[i].inode == k,
        forall|i: int, j: int| 0 <= i < j < listed.len() ==> (#[trigger] listed[i]).accessed_at <= (#[trigger] listed[j]).accessed_at,
{
    assert forall|i: int| 0 <= i < listed.len() implies {
        &&& t.entries.contains_key((#[trigger] listed[i]).inode)
        &&& listed[i].cache_state == InodeCacheState::Cached
        &&& !listed[i].pinned && !listed[i].is_directory
    } by {
        assert(evictable_filter()(listed[i]));
    }
    assert forall|k: u64| #[trigger] t.entries.contains_key(k) && t.entries[k].cache_state == InodeCacheState::Cached
        && !t.entries[k].pinned && !t.entries[k].is_directory implies exists|i: int| 0 <= i < listed.len() && listed[i].inode == k by {
        assert(evictable_filter()(t.entries[k]));
    }
}

/// The cache reports a filed path as fully cached exactly when its data is
/// cached and clean, as dirty (the whole file pending upload) exactly when
/// it was written locally, and as not cached otherwise; an unfiled path is
/// not cached.
pub proof fn law_cache_state_report(r: CacheEntryState, found: Option<InodeEntry>)
    requires
        reports_state(r, found),
    ensures
        r is PartiallyCached == false,
        found is None ==> r is NotCached,
        found matches Some(e) ==> {
            &&& (r is FullyCached) == (e.cache_state == InodeCacheState::Cached)
            &&& (r is NotCached) == (e.cache_state == InodeCacheState::NotCached)
            &&& (r is Dirty) == (e.cache_state == InodeCacheState::Dirty)
            &&& r matches CacheEntryState::Dirty { ranges } ==> ranges@.len() == 1 && ranges@[0].start == 0 && ranges@[0].end == e.size as u64
        },
{
}

/// Past "." and "..", each line of a passthrough listing carries the kind
/// and name of the backend child it stands for, under the number that
/// child's path has.
pub proof fn law_passthrough_listing_follows_children(
    ino: u64,
    children: Seq<(String, FileKind, String)>,
    inodes: Map<Seq<char>, u64>,
    r: Seq<DirLine>,
    offset: int,
)
    requires
        0 <= offset,
        lines_from(r, passthrough_listing(ino, children, inodes), offset),
    ensures
        forall|i: int| 0 <= i < r.len() && offset + i < 2 ==> (#[trigger] r[i]).kind == FileKind::Directory,
        forall|i: int| 0 <= i < r.len() && offset + i == 0 ==> (#[trigger] r[i]).ino == ino,
        forall|i: int| 0 <= i < r.len() && offset + i >= 2 ==> {
            let c = children[offset + i - 2];
            &&& (#[trigger] r[i]).kind == c.1
            &&& r[i].name@ == c.2@
            &&& r[i].ino == inodes[c.0@]
        },
{
    let listing = passthrough_listing(ino, children, inodes);
    assert forall|i: int| 0 <= i < r.len() && offset + i >= 2 implies {
        let c = children[offset + i - 2];
        &&& (#[trigger] r[i]).kind == c.1
        &&& r[i].name@ == c.2@
        &&& r[i].ino == inodes[c.0@]
    } by {
        let c = children[offset + i - 2];
        assert(listing[offset + i] == (inodes[c.0@], c.1, c.2@));
    }
}

/// The upload batch holds host paths of listed files only, at most one per
/// file, and the host path of every listed file that has one.
pub proof fn law_upload_paths_are_listed_host_paths(r: Seq<String>, t: InodeTables, sync_path: Seq<char>, listed: Seq<InodeEntry>)
    requires
        host_paths(r, t, sync_path, listed),
    ensures
        r.len() <= listed.len(),
        forall|i: int| 0 <= i < r.len() ==> exists|j: int| 0 <= j < listed.len()
            && local_path_of(t, sync_path, (#[trigger] listed[j]).inode) == Some((#[trigger] r[i])@),
        forall|j: int| 0 <= j < listed.len() && local_path_of(t, sync_path, (#[trigger] listed[j]).inode) is Some ==>
            exists|i: int| 0 <= i < r.len() && Some((#[trigger] r[i])@) == local_path_of(t, sync_path, listed[j].inode),
    decreases listed.len(),
{
    if listed.len() > 0 {
        let front = listed.drop_last();
        let last = listed.last();
        let n = listed.len() - 1;
        assert(listed[n] == last);
        match local_path_of(t, sync_path, last.inode) {
            Some(p) => {
                let rf = r.drop_last();
                law_upload_paths_are_listed_host_paths(rf, t, sync_path, front);
                assert forall|i: int| 0 <= i < r.len() implies exists|j: int| 0 <= j < listed.len()
                    && local_path_of(t, sync_path, (#[trigger] listed[j]).inode) == Some((#[trigger] r[i])@) by {
                    if i < rf.len() {
                        assert(r[i] == rf[i]);
                        let j = choose|j: int| 0 <= j < front.len()
                            && local_path_of(t, sync_path, (#[trigger] front[j]).inode) == Some((#[trigger] rf[i])@);
                        assert(listed[j] == front[j]);
                    } else {
                        assert(local_path_of(t, sync_path, listed[n].inode) == Some(r[i]@));
                    }
                }
                assert forall|j: int| 0 <= j < listed.len() && local_path_of(t, sync_path, (#[trigger] listed[j]).inode) is Some implies
                    exists|i: int| 0 <= i < r.len() && Some((#[trigger] r[i])@) == local_path_of(t, sync_path, listed[j].inode) by {
                    if j < front.len() {
                        assert(listed[j] == front[j]);
                        let i = choose|i: int| 0 <= i < rf.len() && Some((#[trigger] rf[i])@) == local_path_of(t, sync_path, front[j].inode);
                        assert(r[i] == rf[i]);
                    } else {
                        let i = r.len() - 1;
                        assert(Some(r[i]@) == local_path_of(t, sync_path, listed[j].inode));
                    }
                }
            },
            None => {
                law_upload_paths_are_listed_host_paths(r, t, sync_path, front);
                assert forall|i: int| 0 <= i < r.len() implies exists|j: int| 0 <= j < listed.len()
                    && local_path_of(t, sync_path, (#[trigger] listed[j]).inode) == Some((#[trigger] r[i])@) by {
                    let j = choose|j: int| 0 <= j < front.len()
                        && local_path_of(t, sync_path, (#[trigger] front[j]).inode) == Some((#[trigger] r[i])@);
                    assert(listed[j] == front[j]);
                }
                assert forall|j: int| 0 <= j < listed.len() && local_path_of(t, sync_path, (#[trigger] listed[j]).inode) is Some implies
                    exists|i: int| 0 <= i < r.len() && Some((#[trigger] r[i])@) == local_path_of(t, sync_path, listed[j].inode) by {
                    assert(j < front.len());
                    assert(listed[j] == front[j]);
                }
            },
        }
    }
}

} // verus!
