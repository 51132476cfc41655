//! The Linux FUSE sync provider: the mount's view of placeholders is the
//! inode table, and "creating a placeholder" files an inode for it.

use vstd::prelude::*;
use crate::paths::{path_file_name, path_join, path_parent, path_strip_prefix, std_path_components, std_path_file_name, std_path_join, std_path_parent, std_path_strip_prefix};
use crate::platform::error::PlatformError;
use crate::platform::provider::UpdateOptions;
use crate::platform::types::{FileMetadataPlatform, LocalFileState, PlaceholderEntry, missing_state};
use crate::platform::linux::inode_laws::{batch_fits, index_consistent, lemma_deleted_keeps_index, lemma_inserted_all_keeps_index, lemma_unfound_name_is_free, lemma_updated_keeps_index, name_free};
use crate::platform::linux::inode::{InodeCacheState, InodeDb, InodeEntry, InodeTables, ROOT_INODE, alloc_step, now_secs};

verus! {

/// Default max cache size: 10 GiB.
pub const DEFAULT_MAX_CACHE_SIZE: u64 = 10737418240;

/// `e` is a `Failed` error with message `msg`.
pub open spec fn failed_with(e: PlatformError, msg: Seq<char>) -> bool {
    e matches PlatformError::Failed(m) && m@ == msg
}

/// A host path as the mount sees it: stripped of the sync root and joined
/// onto "/"; `None` when the path is not under the sync root.
pub open spec fn mount_relative(sync_path: Seq<char>, path: Seq<char>) -> Option<Seq<char>> {
    match std_path_strip_prefix(path, sync_path) {
        Some(r) => Some(std_path_join("/"@, r)),
        None => None,
    }
}

/// The state the provider reports for a known inode.
pub open spec fn state_of_entry(e: InodeEntry) -> LocalFileState {
    LocalFileState {
        exists: true,
        is_directory: e.is_directory,
        is_placeholder: true,
        is_hydrated: e.cache_state != InodeCacheState::NotCached,
        is_folder_populated: e.populated,
        in_sync: e.cache_state == InodeCacheState::Cached,
        is_pinned: e.pinned,
        is_unpinned: false,
        size: Some(e.size as u64),
    }
}

/// The state the provider reports for `path`: nothing before a start or
/// for a path outside the sync root or not filed, else its entry's state.
pub open spec fn file_state_at(root: Option<Seq<char>>, t: InodeTables, path: Seq<char>) -> LocalFileState {
    match root {
        None => missing_state(),
        Some(root) => match mount_relative(root, path) {
            None => missing_state(),
            Some(rel) => match t.find(std_path_components(rel)) {
                Some(e) => state_of_entry(e),
                None => missing_state(),
            },
        },
    }
}

/// The inode a placeholder entry becomes.
pub open spec fn placeholder_inode(e: PlaceholderEntry, ino: u64, parent: u64, now: i64) -> InodeEntry {
    InodeEntry {
        inode: ino,
        parent_inode: parent,
        name: e.relative_name,
        is_directory: e.metadata.is_directory,
        size: e.metadata.size as i64,
        etag: e.etag,
        created_at: e.metadata.created_at,
        modified_at: e.metadata.modified_at,
        accessed_at: now,
        cache_state: InodeCacheState::NotCached,
        pinned: false,
        has_error: false,
        populated: false,
    }
}

/// The inodes filed for a list of placeholder entries under `parent`,
/// numbered from `next`: entries whose name is already filed under
/// `parent` are skipped.  Also the counter afterwards.
pub open spec fn new_placeholder_inodes(t: InodeTables, parent: u64, entries: Seq<PlaceholderEntry>, next: u64, now: i64) -> (Seq<InodeEntry>, u64)
    decreases entries.len(),
{
    if entries.len() == 0 {
        (Seq::empty(), next)
    } else {
        let (made, n) = new_placeholder_inodes(t, parent, entries.drop_last(), next, now);
        let e = entries.last();
        if t.lookup(parent, e.relative_name@) is Some {
            (made, n)
        } else {
            (made.push(placeholder_inode(e, n, parent, now)), alloc_step(n))
        }
    }
}

/// The inodes filed for placeholder entries are numbered from `next` up,
/// below the counter afterwards, which moves at most one per entry.
proof fn lemma_new_placeholder_numbers(t: InodeTables, parent: u64, entries: Seq<PlaceholderEntry>, next: u64, now: i64)
    requires
        next + entries.len() < u64::MAX,
    ensures
        ({
            let (made, n) = new_placeholder_inodes(t, parent, entries, next, now);
            &&& next <= n <= next + entries.len()
            &&& forall|j: int| 0 <= j < made.len() ==> next <= #[trigger] made[j].inode < n
        }),
    decreases entries.len(),
{
    if entries.len() > 0 {
        lemma_new_placeholder_numbers(t, parent, entries.drop_last(), next, now);
    }
}

/// No two placeholder entries share a name.
pub open spec fn names_distinct(entries: Seq<PlaceholderEntry>) -> bool {
    forall|i: int, j: int| 0 <= i < entries.len() && 0 <= j < entries.len() && i != j
        ==> #[trigger] entries[i].relative_name@ != #[trigger] entries[j].relative_name@
}

/// The inodes filed for placeholder entries sit under `parent`, each under
/// the name of one of the entries that no filed inode under `parent` has;
/// when the entries' names are distinct, so are theirs.
proof fn lemma_new_placeholder_names(t: InodeTables, parent: u64, entries: Seq<PlaceholderEntry>, next: u64, now: i64)
    ensures
        ({
            let made = new_placeholder_inodes(t, parent, entries, next, now).0;
            &&& forall|j: int| 0 <= j < made.len() ==> (#[trigger] made[j]).parent_inode == parent
                && t.lookup(parent, made[j].name@) is None
                && exists|i: int| 0 <= i < entries.len() && made[j].name@ == #[trigger] entries[i].relative_name@
            &&& names_distinct(entries) ==> forall|a: int, b: int| 0 <= a < made.len() && 0 <= b < made.len() && a != b
                ==> #[trigger] made[a].name@ != #[trigger] made[b].name@
        }),
    decreases entries.len(),
{
    if entries.len() > 0 {
        let front = entries.drop_last();
        lemma_new_placeholder_names(t, parent, front, next, now);
        let (m0, n0) = new_placeholder_inodes(t, parent, front, next, now);
        let e = entries.last();
        let made = new_placeholder_inodes(t, parent, entries, next, now).0;
        assert forall|j: int| 0 <= j < made.len() implies (#[trigger] made[j]).parent_inode == parent
            && t.lookup(parent, made[j].name@) is None
            && exists|i: int| 0 <= i < entries.len() && made[j].name@ == #[trigger] entries[i].relative_name@ by {
            if j < m0.len() {
                assert(made[j] == m0[j]);
                let i = choose|i: int| 0 <= i < front.len() && m0[j].name@ == #[trigger] front[i].relative_name@;
                assert(entries[i] == front[i]);
            } else {
                assert(made[j] == placeholder_inode(e, n0, parent, now));
                assert(entries[entries.len() - 1] == e);
            }
        }
        if names_distinct(entries) {
            assert forall|i: int, j: int| 0 <= i < front.len() && 0 <= j < front.len() && i != j
                implies #[trigger] front[i].relative_name@ != #[trigger] front[j].relative_name@ by {
                assert(front[i] == entries[i] && front[j] == entries[j]);
            }
            assert forall|a: int, b: int| 0 <= a < made.len() && 0 <= b < made.len() && a != b
                implies #[trigger] made[a].name@ != #[trigger] made[b].name@ by {
                if a < m0.len() && b < m0.len() {
                    assert(made[a] == m0[a] && made[b] == m0[b]);
                } else {
                    let (old_k, new_k) = if a < m0.len() { (a, b) } else { (b, a) };
                    assert(made[old_k] == m0[old_k]);
                    assert(made[new_k] == placeholder_inode(e, n0, parent, now));
                    let i = choose|i: int| 0 <= i < front.len() && m0[old_k].name@ == #[trigger] front[i].relative_name@;
                    assert(entries[i] == front[i]);
                    assert(entries[entries.len() - 1] == e);
                }
            }
        }
    }
}

/// The inodes filed for placeholder entries with distinct names fit a
/// table whose index is consistent: no filed inode holds their parent and
/// name, and no two of them share one.
proof fn lemma_new_placeholders_fit(t: InodeTables, parent: u64, entries: Seq<PlaceholderEntry>, next: u64, now: i64)
    requires
        index_consistent(t),
        names_distinct(entries),
    ensures
        batch_fits(t, new_placeholder_inodes(t, parent, entries, next, now).0),
{
    let made = new_placeholder_inodes(t, parent, entries, next, now).0;
    lemma_new_placeholder_names(t, parent, entries, next, now);
    assert forall|i: int| 0 <= i < made.len() implies {
        &&& name_free(t, #[trigger] made[i].parent_inode, made[i].name@, made[i].inode)
        &&& forall|j: int| 0 <= j < made.len() && #[trigger] made[j].parent_inode == made[i].parent_inode
                && made[j].name@ == made[i].name@ ==> made[j].inode == made[i].inode
    } by {
        lemma_unfound_name_is_free(t, parent, made[i].name@, made[i].inode);
    }
}

/// What `create_placeholders` does: without a start, fail with "not
/// started"; else find the parent (the mount root when `parent` is not
/// under the sync root), fail with "parent inode not found" if it is not
/// filed, and otherwise file the new inodes and mark the parent populated.
pub open spec fn placeholders_created(before: InodeDb, after: InodeDb, root: Option<Seq<char>>, parent: Seq<char>, entries: Seq<PlaceholderEntry>, now: i64, r: Result<(), PlatformError>) -> bool {
    match root {
        None => r is Err && failed_with(r->Err_0, "not started"@) && after@ == before@ && after.next_inode() == before.next_inode(),
        Some(root) => {
            let rel = match mount_relative(root, parent) {
                Some(p) => p,
                None => "/"@,
            };
            match before@.find(std_path_components(rel)) {
                None => r is Err && failed_with(r->Err_0, "parent inode not found"@) && after@ == before@ && after.next_inode() == before.next_inode(),
                Some(p) => {
                    let (made, next) = new_placeholder_inodes(before@, p.inode, entries, before.next_inode(), now);
                    &&& r is Ok
                    &&& after@ == before@.inserted_all(made).with_populated(p.inode, true)
                    &&& after.next_inode() == next
                }
            }
        },
    }
}

/// `n` is placeholder `e` after an update: new size, modification time and
/// etag; not cached if dehydrated; populated if marked as having no
/// children; everything else kept.
pub open spec fn is_updated_placeholder(n: InodeEntry, e: InodeEntry, meta: FileMetadataPlatform, etag: Seq<char>, options: UpdateOptions) -> bool {
    &&& n.etag@ == etag
    &&& n == InodeEntry {
        size: meta.size as i64,
        modified_at: meta.modified_at,
        etag: n.etag,
        cache_state: if options.dehydrate { InodeCacheState::NotCached } else { e.cache_state },
        populated: if options.mark_no_children { true } else { e.populated },
        ..e
    }
}

/// What `update_placeholder` does: without a start, or for a path outside
/// the sync root or not filed, fail and change nothing; else replace the
/// found entry by its update, giving its inode when dehydrating.
pub open spec fn placeholder_updated(before: InodeTables, after: InodeTables, root: Option<Seq<char>>, path: Seq<char>, meta: FileMetadataPlatform, etag: Seq<char>, options: UpdateOptions, r: Result<Option<u64>, PlatformError>) -> bool {
    match root {
        None => r is Err && failed_with(r->Err_0, "not started"@) && after == before,
        Some(root) => match mount_relative(root, path) {
            None => r is Err && failed_with(r->Err_0, "path not under sync root"@) && after == before,
            Some(rel) => match before.find(std_path_components(rel)) {
                None => r is Err && failed_with(r->Err_0, "inode not found"@) && after == before,
                Some(e) => r is Ok
                    && r->Ok_0 == (if options.dehydrate { Some(e.inode) } else { None })
                    && exists|n: InodeEntry| is_updated_placeholder(n, e, meta, etag, options) && after == before.updated(n),
            },
        },
    }
}

/// A path's final name, or the empty name when it has none.
pub open spec fn name_or_empty(n: Option<Seq<char>>) -> Seq<char> {
    match n {
        Some(s) => s,
        None => Seq::empty(),
    }
}

/// What `convert_to_placeholder` does: without a start, fail with "not
/// started"; for a path not under the sync root, fail with "path not under
/// sync root"; a filed inode gets the new etag; otherwise the parent path
/// (the mount root if there is none) must be filed, else fail with "parent
/// inode not found", and a new cached inode is filed under it.
pub open spec fn converted(before: InodeDb, after: InodeDb, root: Option<Seq<char>>, path: Seq<char>, etag: Seq<char>, is_directory: bool, now: i64, r: Result<(), PlatformError>) -> bool {
    match root {
        None => r is Err && failed_with(r->Err_0, "not started"@) && after@ == before@ && after.next_inode() == before.next_inode(),
        Some(root) => match mount_relative(root, path) {
            None => r is Err && failed_with(r->Err_0, "path not under sync root"@) && after@ == before@ && after.next_inode() == before.next_inode(),
            Some(rel) => match before@.find(std_path_components(rel)) {
                Some(e) => {
                    &&& r is Ok
                    &&& after.next_inode() == before.next_inode()
                    &&& exists|n: InodeEntry| n.etag@ == etag && n == (InodeEntry { etag: n.etag, ..e }) && after@ == before@.updated(n)
                },
                None => {
                    let parent = match std_path_parent(rel) {
                        Some(p) => p,
                        None => "/"@,
                    };
                    match before@.find(std_path_components(parent)) {
                        None => r is Err && failed_with(r->Err_0, "parent inode not found"@) && after@ == before@ && after.next_inode() == before.next_inode(),
                        Some(p) => {
                            &&& r is Ok
                            &&& after.next_inode() == alloc_step(before.next_inode())
                            &&& exists|n: InodeEntry|
                                is_converted_entry(n, before.next_inode(), p.inode, name_or_empty(std_path_file_name(rel)), etag, is_directory, now)
                                && after@ == before@.inserted(n)
                        },
                    }
                },
            },
        },
    }
}

/// `e` is the root inode as it is created when missing, stamped `now`.
pub open spec fn is_new_root(e: InodeEntry, now: i64) -> bool {
    &&& e.inode == ROOT_INODE
    &&& e.parent_inode == ROOT_INODE
    &&& e.name@ == Seq::<char>::empty()
    &&& e.is_directory
    &&& e.size == 0
    &&& e.etag@ == Seq::<char>::empty()
    &&& e.created_at == now && e.modified_at == now && e.accessed_at == now
    &&& e.cache_state == InodeCacheState::NotCached
    &&& !e.pinned && !e.has_error && !e.populated
}

/// `e` is the inode filed for an existing local file that was not known:
/// number `ino`, under `parent`, named `name`, cached, empty, stamped `now`.
pub open spec fn is_converted_entry(e: InodeEntry, ino: u64, parent: u64, name: Seq<char>, etag: Seq<char>, is_directory: bool, now: i64) -> bool {
    &&& e.inode == ino
    &&& e.parent_inode == parent
    &&& e.name@ == name
    &&& e.is_directory == is_directory
    &&& e.size == 0
    &&& e.etag@ == etag
    &&& e.created_at == now && e.modified_at == now && e.accessed_at == now
    &&& e.cache_state == InodeCacheState::Cached
    &&& !e.pinned && !e.has_error && !e.populated
}

/// File the root inode if it is missing.
pub fn ensure_root_inode(db: &mut InodeDb)
    requires
        old(db).wf(),
    ensures
        final(db).wf(),
        old(db)@.get(ROOT_INODE) is Some ==> final(db)@ == old(db)@,
        old(db)@.get(ROOT_INODE) is None ==> exists|e: InodeEntry, now: i64| is_new_root(e, now) && final(db)@ == old(db)@.inserted(e),
        old(db).numbers_fresh() && old(db).next_inode() > ROOT_INODE ==> final(db).numbers_fresh(),
{
    if db.get(ROOT_INODE).is_none() {
        let now = now_secs();
        ensure_root_inode_at(db, now);
    }
}

/// File the root inode, stamped `now`, if it is missing.
pub fn ensure_root_inode_at(db: &mut InodeDb, now: i64)
    requires
        old(db).wf(),
    ensures
        final(db).wf(),
        final(db).next_inode() == old(db).next_inode(),
        old(db)@.get(ROOT_INODE) is Some ==> final(db)@ == old(db)@,
        old(db)@.get(ROOT_INODE) is None ==> exists|e: InodeEntry| is_new_root(e, now) && final(db)@ == old(db)@.inserted(e),
        old(db).numbers_fresh() && old(db).next_inode() > ROOT_INODE ==> final(db).numbers_fresh(),
{
    if db.get(ROOT_INODE).is_none() {
        let e = InodeEntry {
            inode: ROOT_INODE,
            parent_inode: ROOT_INODE,
            name: String::new(),
            is_directory: true,
            size: 0,
            etag: String::new(),
            created_at: now,
            modified_at: now,
            accessed_at: now,
            cache_state: InodeCacheState::NotCached,
            pinned: false,
            has_error: false,
            populated: false,
        };
        let ghost g = e;
        db.insert(e);
        assert(is_new_root(g, now));
    }
}

/// The Linux FUSE implementation of the sync provider.
pub struct LinuxFuseProvider {
    provider_id: Option<String>,
    sync_path: Option<String>,
}

impl LinuxFuseProvider {
    /// The sync root once started.
    pub closed spec fn sync_root(&self) -> Option<Seq<char>> {
        match self.sync_path {
            Some(p) => Some(p@),
            None => None,
        }
    }

    /// The provider id once started.
    pub closed spec fn id(&self) -> Option<Seq<char>> {
        match self.provider_id {
            Some(p) => Some(p@),
            None => None,
        }
    }

    pub fn new() -> (r: Self)
        ensures
            r.sync_root() is None,
            r.id() is None,
    {
        LinuxFuseProvider { provider_id: None, sync_path: None }
    }

    /// Record a completed start: the drive id becomes the provider id and
    /// the sync path the mount's root.
    pub fn finish_start(&mut self, drive_id: String, sync_path: String)
        ensures
            final(self).id() == Some(drive_id@),
            final(self).sync_root() == Some(sync_path@),
    {
        self.provider_id = Some(drive_id);
        self.sync_path = Some(sync_path);
    }

    /// Get the opaque provider ID string.
    pub fn provider_id(&self) -> (r: Option<&str>)
        ensures
            r.is_some() == self.id().is_some(),
            r.is_some() ==> r.unwrap()@ == self.id().unwrap(),
    {
        match &self.provider_id {
            Some(p) => Some(p.as_str()),
            None => None,
        }
    }

    /// A host path as the mount sees it.
    fn relative(&self, path: &str) -> (r: Option<String>)
        requires
            self.sync_root() is Some,
        ensures
            r.is_some() == mount_relative(self.sync_root().unwrap(), path@).is_some(),
            r.is_some() ==> r.unwrap()@ == mount_relative(self.sync_root().unwrap(), path@).unwrap(),
    {
        let sync_path = self.sync_path.as_ref().unwrap();
        match path_strip_prefix(path, sync_path.as_str()) {
            Some(r) => Some(path_join("/", r.as_str())),
            None => None,
        }
    }


    /// Create placeholders in a directory from a list of entries: each entry
    /// whose name is not yet filed under the directory gets a new inode, and
    /// the directory is marked populated.
    pub fn create_placeholders(&self, db: &mut InodeDb, parent: &str, entries: &[PlaceholderEntry]) -> (r: Result<(), PlatformError>)
        requires
            old(db).wf(),
        ensures
            final(db).wf(),
            exists|now: i64| placeholders_created(*old(db), *final(db), self.sync_root(), parent@, entries@, now, r),
            old(db).numbers_fresh() && old(db).next_inode() + entries.len() < u64::MAX ==> final(db).numbers_fresh(),
            index_consistent(old(db)@) && names_distinct(entries@) ==> index_consistent(final(db)@),
    {
        let now = now_secs();
        self.create_placeholders_at(db, parent, entries, now)
    }

    /// `create_placeholders` with the new inodes stamped `now`.
    pub fn create_placeholders_at(&self, db: &mut InodeDb, parent: &str, entries: &[PlaceholderEntry], now: i64) -> (r: Result<(), PlatformError>)
        requires
            old(db).wf(),
        ensures
            final(db).wf(),
            placeholders_created(*old(db), *final(db), self.sync_root(), parent@, entries@, now, r),
            old(db).numbers_fresh() && old(db).next_inode() + entries.len() < u64::MAX ==> final(db).numbers_fresh(),
            index_consistent(old(db)@) && names_distinct(entries@) ==> index_consistent(final(db)@),
    {
        if self.sync_path.is_none() {
            return Err(PlatformError::Failed("not started".to_owned()));
        }
        let relative_parent = match self.relative(parent) {
            Some(r) => r,
            None => "/".to_owned(),
        };
        let parent_entry = match db.find_by_path(relative_parent.as_str()) {
            Some(e) => e,
            None => {
                return Err(PlatformError::Failed("parent inode not found".to_owned()));
            },
        };
        let ghost t = db@;
        let ghost next0 = db.next_inode();
        let mut new_entries: Vec<InodeEntry> = Vec::new();
        let mut i: usize = 0;
        while i < entries.len()
            invariant
                0 <= i <= entries.len(),
                db.wf(),
                db@ == t,
                (new_entries@, db.next_inode()) == new_placeholder_inodes(t, parent_entry.inode, entries@.take(i as int), next0, now),
            decreases entries.len() - i,
        {
            let entry = &entries[i];
            assert(entries@.take(i + 1).drop_last() =~= entries@.take(i as int));
            assert(entries@.take(i + 1).last() == entries@[i as int]);
            if db.lookup_child(parent_entry.inode, entry.relative_name.as_str()).is_some() {
                i += 1;
                continue;
            }
            let ino = db.alloc_inode();
            let made = InodeEntry {
                inode: ino,
                parent_inode: parent_entry.inode,
                name: entry.relative_name.clone(),
                is_directory: entry.metadata.is_directory,
                size: entry.metadata.size as i64,
                etag: entry.etag.clone(),
                created_at: entry.metadata.created_at,
                modified_at: entry.metadata.modified_at,
                accessed_at: now,
                cache_state: InodeCacheState::NotCached,
                pinned: false,
                has_error: false,
                populated: false,
            };
            assert(made == placeholder_inode(entries@[i as int], ino, parent_entry.inode, now));
            new_entries.push(made);
            i += 1;
        }
        assert(entries@.take(entries.len() as int) =~= entries@);
        proof {
            if next0 + entries.len() < u64::MAX {
                lemma_new_placeholder_numbers(t, parent_entry.inode, entries@, next0, now);
            }
        }
        proof {
            if index_consistent(t) && names_distinct(entries@) {
                lemma_new_placeholders_fit(t, parent_entry.inode, entries@, next0, now);
                lemma_inserted_all_keeps_index(t, new_entries@);
            }
        }
        if new_entries.len() > 0 {
            db.insert_batch(new_entries.as_slice());
        } else {
            assert(new_entries@ =~= Seq::<InodeEntry>::empty());
        }
        let ghost filled = db@;
        db.set_populated(parent_entry.inode, true);
        proof {
            if index_consistent(filled) {
                assert forall|k: u64| #[trigger] db@.entries.contains_key(k) implies
                    db@.children.get((db@.entries[k].parent_inode, db@.entries[k].name@)) == Some(k) by {
                    assert(filled.entries.contains_key(k));
                }
            }
        }
        Ok(())
    }

    /// Create one placeholder: `create_placeholders` with a single entry.
    pub fn create_placeholder(&self, db: &mut InodeDb, parent: &str, entry: &PlaceholderEntry) -> (r: Result<(), PlatformError>)
        requires
            old(db).wf(),
        ensures
            final(db).wf(),
            exists|now: i64| placeholders_created(*old(db), *final(db), self.sync_root(), parent@, seq![*entry], now, r),
            old(db).numbers_fresh() && old(db).next_inode() + 1 < u64::MAX ==> final(db).numbers_fresh(),
            index_consistent(old(db)@) ==> index_consistent(final(db)@),
    {
        let mut entries: Vec<PlaceholderEntry> = Vec::new();
        entries.push(entry.duplicate());
        assert(entries@ =~= seq![*entry]);
        assert(names_distinct(entries@));
        self.create_placeholders(db, parent, entries.as_slice())
    }

    /// Update a placeholder's metadata (size, modification time, etag);
    /// `dehydrate` drops its cached data, `mark_no_children` marks it
    /// populated.  On success, gives the inode whose cache file to remove
    /// when dehydrating.
    pub fn update_placeholder(&self, db: &mut InodeDb, path: &str, meta: &FileMetadataPlatform, etag: &str, options: UpdateOptions) -> (r: Result<Option<u64>, PlatformError>)
        requires
            old(db).wf(),
        ensures
            final(db).wf(),
            final(db).next_inode() == old(db).next_inode(),
            index_consistent(old(db)@) ==> index_consistent(final(db)@),
            placeholder_updated(old(db)@, final(db)@, self.sync_root(), path@, *meta, etag@, options, r),
    {
        if self.sync_path.is_none() {
            return Err(PlatformError::Failed("not started".to_owned()));
        }
        let relative = match self.relative(path) {
            Some(r) => r,
            None => {
                return Err(PlatformError::Failed("path not under sync root".to_owned()));
            },
        };
        let mut entry = match db.find_by_path(relative.as_str()) {
            Some(e) => e,
            None => {
                return Err(PlatformError::Failed("inode not found".to_owned()));
            },
        };
        let ghost e_found = entry;
        entry.size = meta.size as i64;
        entry.modified_at = meta.modified_at;
        entry.etag = etag.to_owned();
        let mut evict = None;
        if options.dehydrate {
            evict = Some(entry.inode);
            entry.cache_state = InodeCacheState::NotCached;
        }
        if options.mark_no_children {
            entry.populated = true;
        }
        proof {
            if index_consistent(db@) {
                let ino = db@.follow(std_path_components(relative@), ROOT_INODE).unwrap();
                assert(db@.entries.contains_key(ino) && db@.entries[ino] == e_found);
                lemma_updated_keeps_index(db@, entry);
            }
        }
        db.update(&entry);
        assert(is_updated_placeholder(entry, e_found, *meta, etag@, options));
        Ok(evict)
    }


    /// Register an existing local file with the given etag: a known inode
    /// gets the etag, an unknown one is filed under its parent as cached.
    pub fn convert_to_placeholder(&self, db: &mut InodeDb, path: &str, etag: &str, is_directory: bool) -> (r: Result<(), PlatformError>)
        requires
            old(db).wf(),
        ensures
            final(db).wf(),
            exists|now: i64| converted(*old(db), *final(db), self.sync_root(), path@, etag@, is_directory, now, r),
            old(db).numbers_fresh() && old(db).next_inode() < u64::MAX ==> final(db).numbers_fresh() && !old(db)@.entries.contains_key(old(db).next_inode()),
    {
        let now = now_secs();
        self.convert_to_placeholder_at(db, path, etag, is_directory, now)
    }

    /// `convert_to_placeholder` with a new inode stamped `now`.
    pub fn convert_to_placeholder_at(&self, db: &mut InodeDb, path: &str, etag: &str, is_directory: bool, now: i64) -> (r: Result<(), PlatformError>)
        requires
            old(db).wf(),
        ensures
            final(db).wf(),
            converted(*old(db), *final(db), self.sync_root(), path@, etag@, is_directory, now, r),
            old(db).numbers_fresh() && old(db).next_inode() < u64::MAX ==> final(db).numbers_fresh() && !old(db)@.entries.contains_key(old(db).next_inode()),
    {
        if self.sync_path.is_none() {
            return Err(PlatformError::Failed("not started".to_owned()));
        }
        let relative = match self.relative(path) {
            Some(r) => r,
            None => {
                return Err(PlatformError::Failed("path not under sync root".to_owned()));
            },
        };
        match db.find_by_path(relative.as_str()) {
            Some(mut entry) => {
                entry.etag = etag.to_owned();
                db.update(&entry);
                Ok(())
            },
            None => {
                let parent_path = match path_parent(relative.as_str()) {
                    Some(p) => p,
                    None => "/".to_owned(),
                };
                let parent_entry = match db.find_by_path(parent_path.as_str()) {
                    Some(e) => e,
                    None => {
                        return Err(PlatformError::Failed("parent inode not found".to_owned()));
                    },
                };
                let name = match path_file_name(relative.as_str()) {
                    Some(n) => n,
                    None => String::new(),
                };
                let ino = db.alloc_inode();
                let e = InodeEntry {
                    inode: ino,
                    parent_inode: parent_entry.inode,
                    name,
                    is_directory,
                    size: 0,
                    etag: etag.to_owned(),
                    created_at: now,
                    modified_at: now,
                    accessed_at: now,
                    cache_state: InodeCacheState::Cached,
                    pinned: false,
                    has_error: false,
                    populated: false,
                };
                let ghost g = e;
                db.insert(e);
                assert(is_converted_entry(g, ino, parent_entry.inode, name_or_empty(std_path_file_name(relative@)), etag@, is_directory, now));
                Ok(())
            },
        }
    }

    /// Delete a placeholder: its inode and everything below it.  On
    /// success, gives the inode whose cache file to remove, if it was filed.
    pub fn delete_placeholder(&self, db: &mut InodeDb, path: &str) -> (r: Result<Option<u64>, PlatformError>)
        requires
            old(db).wf(),
        ensures
            final(db).wf(),
            final(db).next_inode() == old(db).next_inode(),
            index_consistent(old(db)@) ==> index_consistent(final(db)@),
            match self.sync_root() {
                None => r is Err && failed_with(r->Err_0, "not started"@) && final(db)@ == old(db)@,
                Some(root) => match mount_relative(root, path@) {
                    None => r is Err && failed_with(r->Err_0, "path not under sync root"@) && final(db)@ == old(db)@,
                    Some(rel) => match old(db)@.find(std_path_components(rel)) {
                        None => r == Ok::<Option<u64>, PlatformError>(None) && final(db)@ == old(db)@,
                        Some(e) => r == Ok::<Option<u64>, PlatformError>(Some(e.inode)) && final(db)@ == old(db)@.deleted(e.inode),
                    },
                },
            },
    {
        if self.sync_path.is_none() {
            return Err(PlatformError::Failed("not started".to_owned()));
        }
        let relative = match self.relative(path) {
            Some(r) => r,
            None => {
                return Err(PlatformError::Failed("path not under sync root".to_owned()));
            },
        };
        match db.find_by_path(relative.as_str()) {
            Some(entry) => {
                proof {
                    if index_consistent(db@) {
                        lemma_deleted_keeps_index(db@, entry.inode);
                    }
                }
                db.delete(entry.inode);
                Ok(Some(entry.inode))
            },
            None => Ok(None),
        }
    }

    /// Notify the desktop environment of a file change: nothing to do, the
    /// mount shows changes by itself.
    pub fn notify_change(&self, path: &str) -> (r: Result<(), PlatformError>)
        ensures
            r is Ok,
    {
        Ok(())
    }

    /// Set or clear the sync error flag of a placeholder (a path not filed
    /// is left alone).
    pub fn set_error_state(&self, db: &mut InodeDb, path: &str, has_error: bool) -> (r: Result<(), PlatformError>)
        requires
            old(db).wf(),
        ensures
            final(db).wf(),
            final(db).next_inode() == old(db).next_inode(),
            index_consistent(old(db)@) ==> index_consistent(final(db)@),
            match self.sync_root() {
                None => r is Err && failed_with(r->Err_0, "not started"@) && final(db)@ == old(db)@,
                Some(root) => match mount_relative(root, path@) {
                    None => r is Err && failed_with(r->Err_0, "path not under sync root"@) && final(db)@ == old(db)@,
                    Some(rel) => r is Ok && match old(db)@.find(std_path_components(rel)) {
                        None => final(db)@ == old(db)@,
                        Some(e) => final(db)@ == old(db)@.with_error(e.inode, has_error),
                    },
                },
            },
    {
        if self.sync_path.is_none() {
            return Err(PlatformError::Failed("not started".to_owned()));
        }
        let relative = match self.relative(path) {
            Some(r) => r,
            None => {
                return Err(PlatformError::Failed("path not under sync root".to_owned()));
            },
        };
        if let Some(entry) = db.find_by_path(relative.as_str()) {
            let ghost before = db@;
            db.set_error(entry.inode, has_error);
            proof {
                if index_consistent(before) {
                    assert forall|k: u64| #[trigger] db@.entries.contains_key(k) implies
                        db@.children.get((db@.entries[k].parent_inode, db@.entries[k].name@)) == Some(k) by {
                        assert(before.entries.contains_key(k));
                    }
                }
            }
        }
        Ok(())
    }

    /// Query local file state at the given path.
    pub fn get_file_state(&self, db: &InodeDb, path: &str) -> (r: LocalFileState)
        ensures
            r == file_state_at(self.sync_root(), db@, path@),
    {
        if self.sync_path.is_none() {
            return LocalFileState::missing();
        }
        let relative = match self.relative(path) {
            Some(r) => r,
            None => {
                return LocalFileState::missing();
            },
        };
        match db.find_by_path(relative.as_str()) {
            Some(entry) => LocalFileState {
                exists: true,
                is_directory: entry.is_directory,
                is_placeholder: true,
                is_hydrated: entry.cache_state != InodeCacheState::NotCached,
                is_folder_populated: entry.populated,
                in_sync: entry.cache_state == InodeCacheState::Cached,
                is_pinned: entry.pinned,
                is_unpinned: false,
                size: Some(entry.size as u64),
            },
            None => LocalFileState::missing(),
        }
    }
}

} // verus!
