//! The FUSE inode table: every inode the mount exposes, indexed by number
//! and by (parent, name).

use vstd::prelude::*;
use dashmap::DashMap;
use crate::paths::{PathComponent, path_components, path_push, plain_name, rooted_names, std_path_components, std_path_push};
use crate::platform::linux::shared_map::{entry_table, child_table, entry_table_new, child_table_new, entry_table_get, child_table_get, child_table_insert, child_table_remove, entry_table_insert, entry_table_remove, entry_table_snapshot, entry_table_len};

verus! {

broadcast use vstd::seq_lib::group_seq_properties;

/// Root inode number (FUSE convention).
pub const ROOT_INODE: u64 = 1;

/// Cache state for an inode entry.
#[derive(Debug, Clone, Copy, PartialEq, Eq, Structural)]
pub enum InodeCacheState {
    NotCached,
    Cached,
    Dirty,
}

/// The stored name of each cache state.
pub open spec fn cache_state_name(s: InodeCacheState) -> Seq<char> {
    match s {
        InodeCacheState::NotCached => "not_cached"@,
        InodeCacheState::Cached => "cached"@,
        InodeCacheState::Dirty => "dirty"@,
    }
}

/// The cache state a stored name stands for; unknown names read as `NotCached`.
pub open spec fn cache_state_of_name(s: Seq<char>) -> InodeCacheState {
    if s == "cached"@ {
        InodeCacheState::Cached
    } else if s == "dirty"@ {
        InodeCacheState::Dirty
    } else {
        InodeCacheState::NotCached
    }
}

/// Whether two strings hold the same characters.
pub fn str_equals(a: &str, b: &str) -> (r: bool)
    ensures
        r == (a@ == b@),
{
    let x = a.to_owned();
    let y = b.to_owned();
    x == y
}

impl InodeCacheState {
    pub fn as_str(&self) -> (r: &'static str)
        ensures
            r@ == cache_state_name(*self),
    {
        match self {
            InodeCacheState::NotCached => "not_cached",
            InodeCacheState::Cached => "cached",
            InodeCacheState::Dirty => "dirty",
        }
    }

    pub fn from_str(s: &str) -> (r: Self)
        ensures
            r == cache_state_of_name(s@),
    {
        if str_equals(s, "cached") {
            InodeCacheState::Cached
        } else if str_equals(s, "dirty") {
            InodeCacheState::Dirty
        } else {
            InodeCacheState::NotCached
        }
    }
}

/// In-memory representation of a FUSE inode.
#[derive(Debug, Clone)]
pub struct InodeEntry {
    pub inode: u64,
    pub parent_inode: u64,
    pub name: String,
    pub is_directory: bool,
    pub size: i64,
    pub etag: String,
    pub created_at: i64,
    pub modified_at: i64,
    pub accessed_at: i64,
    pub cache_state: InodeCacheState,
    pub pinned: bool,
    pub has_error: bool,
    pub populated: bool,
}

/// A stored inode row, as the inode table is persisted.
#[derive(Debug, Clone)]
pub struct InodeRow {
    pub inode: i64,
    pub parent_inode: i64,
    pub name: String,
    pub is_directory: bool,
    pub size: i64,
    pub etag: String,
    pub created_at: i64,
    pub modified_at: i64,
    pub accessed_at: i64,
    pub cache_state: String,
    pub pinned: bool,
    pub has_error: bool,
    pub populated: bool,
    pub drive_id: String,
}

impl InodeRow {
    /// The entry a stored row describes.
    pub open spec fn spec_to_entry(self) -> InodeEntry {
        InodeEntry {
            inode: self.inode as u64,
            parent_inode: self.parent_inode as u64,
            name: self.name,
            is_directory: self.is_directory,
            size: self.size,
            etag: self.etag,
            created_at: self.created_at,
            modified_at: self.modified_at,
            accessed_at: self.accessed_at,
            cache_state: cache_state_of_name(self.cache_state@),
            pinned: self.pinned,
            has_error: self.has_error,
            populated: self.populated,
        }
    }

    pub fn to_entry(&self) -> (r: InodeEntry)
        ensures
            r == self.spec_to_entry(),
    {
        InodeEntry {
            inode: self.inode as u64,
            parent_inode: self.parent_inode as u64,
            name: self.name.clone(),
            is_directory: self.is_directory,
            size: self.size,
            etag: self.etag.clone(),
            created_at: self.created_at,
            modified_at: self.modified_at,
            accessed_at: self.accessed_at,
            cache_state: InodeCacheState::from_str(self.cache_state.as_str()),
            pinned: self.pinned,
            has_error: self.has_error,
            populated: self.populated,
        }
    }
}

/// `r` is the stored row of entry `e` for drive `drive_id`: the numbers
/// as signed 64-bit values, the cache state by its stored name.
pub open spec fn is_row_of(r: InodeRow, e: InodeEntry, drive_id: Seq<char>) -> bool {
    &&& r.inode == e.inode as i64
    &&& r.parent_inode == e.parent_inode as i64
    &&& r.name@ == e.name@
    &&& r.is_directory == e.is_directory
    &&& r.size == e.size
    &&& r.etag@ == e.etag@
    &&& r.created_at == e.created_at
    &&& r.modified_at == e.modified_at
    &&& r.accessed_at == e.accessed_at
    &&& r.cache_state@ == cache_state_name(e.cache_state)
    &&& r.pinned == e.pinned
    &&& r.has_error == e.has_error
    &&& r.populated == e.populated
    &&& r.drive_id@ == drive_id
}

impl InodeEntry {
    /// The row that stores this entry for a drive.
    pub fn to_row(&self, drive_id: &str) -> (r: InodeRow)
        ensures
            is_row_of(r, *self, drive_id@),
    {
        InodeRow {
            inode: self.inode as i64,
            parent_inode: self.parent_inode as i64,
            name: self.name.clone(),
            is_directory: self.is_directory,
            size: self.size,
            etag: self.etag.clone(),
            created_at: self.created_at,
            modified_at: self.modified_at,
            accessed_at: self.accessed_at,
            cache_state: self.cache_state.as_str().to_owned(),
            pinned: self.pinned,
            has_error: self.has_error,
            populated: self.populated,
            drive_id: drive_id.to_owned(),
        }
    }
}

/// The two indexes of the inode table: inode number to entry, and
/// (parent inode, name) to child inode number.
pub struct InodeTables {
    pub entries: Map<u64, InodeEntry>,
    pub children: Map<(u64, Seq<char>), u64>,
}

impl InodeTables {
    pub open spec fn get(self, inode: u64) -> Option<InodeEntry> {
        self.entries.get(inode)
    }

    /// The entry that `(parent, name)` leads to, if both indexes agree it exists.
    pub open spec fn lookup(self, parent: u64, name: Seq<char>) -> Option<InodeEntry> {
        match self.children.get((parent, name)) {
            Some(ino) => self.entries.get(ino),
            None => None,
        }
    }

    /// Both indexes after storing `e`.
    pub open spec fn inserted(self, e: InodeEntry) -> InodeTables {
        InodeTables {
            entries: self.entries.insert(e.inode, e),
            children: self.children.insert((e.parent_inode, e.name@), e.inode),
        }
    }

    /// The tables after storing each entry of `batch` in turn.
    pub open spec fn inserted_all(self, batch: Seq<InodeEntry>) -> InodeTables
        decreases batch.len(),
    {
        if batch.len() == 0 {
            self
        } else {
            self.inserted_all(batch.drop_last()).inserted(batch.last())
        }
    }

    /// The tables after replacing the stored entry for `e.inode` by `e`.
    pub open spec fn updated(self, e: InodeEntry) -> InodeTables {
        InodeTables { entries: self.entries.insert(e.inode, e), children: self.children }
    }

    /// `child` is a child of `parent`: its entry names `parent` and is not `parent` itself.
    pub open spec fn is_child_of(self, child: u64, parent: u64) -> bool {
        &&& self.entries.contains_key(child)
        &&& self.entries[child].parent_inode == parent
        &&& child != parent
    }

    /// `x` lies `depth` parent links below `top` (depth 0: `x` is `top`).
    pub open spec fn below(self, x: u64, top: u64, depth: nat) -> bool
        decreases depth,
    {
        if depth == 0 {
            x == top
        } else {
            self.entries.contains_key(x) && self.entries[x].parent_inode != x
                && self.below(self.entries[x].parent_inode, top, (depth - 1) as nat)
        }
    }

    /// `top` and everything below it.
    pub open spec fn subtree(self, top: u64) -> Set<u64> {
        Set::new(|x: u64| exists|d: nat| self.below(x, top, d))
    }

    /// The index keys under which the entries numbered in `s` are filed.
    pub open spec fn keys_of(self, s: Set<u64>) -> Set<(u64, Seq<char>)> {
        Set::new(
            |k: (u64, Seq<char>)|
                exists|x: u64|
                    #![trigger s.contains(x), self.entries[x]]
                    s.contains(x) && self.entries.contains_key(x) && k == (
                        self.entries[x].parent_inode,
                        self.entries[x].name@,
                    ),
        )
    }

    /// The tables after removing `top` and everything below it.
    pub open spec fn deleted(self, top: u64) -> InodeTables {
        InodeTables {
            entries: self.entries.remove_keys(self.subtree(top)),
            children: self.children.remove_keys(self.keys_of(self.subtree(top))),
        }
    }

    /// The tables after removing every entry.
    pub open spec fn cleared(self) -> InodeTables {
        InodeTables {
            entries: Map::empty(),
            children: self.children.remove_keys(self.keys_of(self.entries.dom())),
        }
    }

    /// The tables after moving `inode` under `new_parent` as `new_name`.
    pub open spec fn renamed(self, inode: u64, new_parent: u64, new_name: Seq<char>, new_name_s: String) -> InodeTables
        recommends new_name_s@ == new_name,
    {
        if self.entries.contains_key(inode) {
            let old = self.entries[inode];
            InodeTables {
                entries: self.entries.insert(
                    inode,
                    InodeEntry { parent_inode: new_parent, name: new_name_s, ..old },
                ),
                children: self.children.remove((old.parent_inode, old.name@)).insert(
                    (new_parent, new_name),
                    inode,
                ),
            }
        } else {
            InodeTables { entries: self.entries, children: self.children.insert((new_parent, new_name), inode) }
        }
    }

    /// The names from the root down to `cur`, walking at most `fuel` parent
    /// links; `None` when an entry on the way is missing or fuel runs out.
    pub open spec fn walk_up(self, cur: u64, fuel: nat) -> Option<Seq<Seq<char>>>
        decreases fuel,
    {
        if !self.entries.contains_key(cur) {
            None
        } else if cur == ROOT_INODE {
            Some(Seq::empty())
        } else if fuel == 0 {
            None
        } else {
            let e = self.entries[cur];
            if e.parent_inode == 0 {
                Some(seq![e.name@])
            } else {
                match self.walk_up(e.parent_inode, (fuel - 1) as nat) {
                    Some(s) => Some(s.push(e.name@)),
                    None => None,
                }
            }
        }
    }

    /// The path of an inode from the mount root: "/" for the root, else the
    /// names on its walk up, pushed onto "/" from the top down.
    pub open spec fn resolved_path(self, inode: u64) -> Option<Seq<char>> {
        if inode == ROOT_INODE {
            Some("/"@)
        } else {
            match self.walk_up(inode, self.entries.dom().len()) {
                Some(names) => Some(path_of_names(names)),
                None => None,
            }
        }
    }

    /// The inode that a component list leads to from `cur`.
    pub open spec fn follow(self, comps: Seq<PathComponent>, cur: u64) -> Option<u64>
        decreases comps.len(),
    {
        if comps.len() == 0 {
            Some(cur)
        } else {
            match comps[0] {
                PathComponent::RootDir => self.follow(comps.skip(1), cur),
                PathComponent::Normal(n) => match self.lookup(cur, n@) {
                    Some(child) => self.follow(comps.skip(1), child.inode),
                    None => None,
                },
                _ => None,
            }
        }
    }

    /// The tables after setting the cache state of one stored entry.
    pub open spec fn with_cache_state(self, inode: u64, state: InodeCacheState) -> InodeTables {
        if self.entries.contains_key(inode) {
            InodeTables {
                entries: self.entries.insert(inode, InodeEntry { cache_state: state, ..self.entries[inode] }),
                children: self.children,
            }
        } else {
            self
        }
    }

    /// The tables after setting the error flag of one stored entry.
    pub open spec fn with_error(self, inode: u64, has_error: bool) -> InodeTables {
        if self.entries.contains_key(inode) {
            InodeTables {
                entries: self.entries.insert(inode, InodeEntry { has_error, ..self.entries[inode] }),
                children: self.children,
            }
        } else {
            self
        }
    }

    /// The tables after setting the populated flag of one stored entry.
    pub open spec fn with_populated(self, inode: u64, populated: bool) -> InodeTables {
        if self.entries.contains_key(inode) {
            InodeTables {
                entries: self.entries.insert(inode, InodeEntry { populated, ..self.entries[inode] }),
                children: self.children,
            }
        } else {
            self
        }
    }

    /// The tables after setting the access time of one stored entry.
    pub open spec fn with_accessed(self, inode: u64, at: i64) -> InodeTables {
        if self.entries.contains_key(inode) {
            InodeTables {
                entries: self.entries.insert(inode, InodeEntry { accessed_at: at, ..self.entries[inode] }),
                children: self.children,
            }
        } else {
            self
        }
    }

    /// The entry a component list leads to from the root.
    pub open spec fn find(self, comps: Seq<PathComponent>) -> Option<InodeEntry> {
        match self.follow(comps, ROOT_INODE) {
            Some(ino) => self.entries.get(ino),
            None => None,
        }
    }
}

/// Every filed inode number lies below `next`.
/// The counter after one number is handed out: one more, wrapping to 0
/// past the top.
pub open spec fn alloc_step(next: u64) -> u64 {
    if next == u64::MAX { 0 } else { (next + 1) as u64 }
}

pub open spec fn below_counter(entries: Map<u64, InodeEntry>, next: int) -> bool {
    forall|k: u64| #[trigger] entries.contains_key(k) ==> k < next
}

/// Every name is a plain name.
pub open spec fn all_plain(names: Seq<Seq<char>>) -> bool {
    forall|i: int| 0 <= i < names.len() ==> plain_name(#[trigger] names[i])
}

/// The path `PathBuf` builds from "/" by pushing each name in turn.
pub open spec fn path_of_names(names: Seq<Seq<char>>) -> Seq<char>
    decreases names.len(),
{
    if names.len() == 0 {
        "/"@
    } else {
        std_path_push(path_of_names(names.drop_last()), names.last())
    }
}

/// `s` lists, once each, exactly the stored entries that satisfy `keep`.
pub open spec fn lists_exactly(s: Seq<InodeEntry>, m: Map<u64, InodeEntry>, keep: spec_fn(InodeEntry) -> bool) -> bool {
    &&& forall|i: int| #![trigger s[i]] 0 <= i < s.len() ==> m.contains_key(s[i].inode) && m[s[i].inode] == s[i] && keep(s[i])
    &&& forall|k: u64| #[trigger] m.contains_key(k) && keep(m[k]) ==> exists|i: int| 0 <= i < s.len() && s[i].inode == k
    &&& forall|i: int, j: int| 0 <= i < j < s.len() ==> s[i].inode != s[j].inode
}

/// Entries filed directly under `parent` (the root's self-link excluded).
pub open spec fn child_filter(parent: u64) -> spec_fn(InodeEntry) -> bool {
    |e: InodeEntry| e.parent_inode == parent && e.inode != parent
}

/// Dirty entries last modified before `cutoff`.
pub open spec fn dirty_before_filter(cutoff: i64) -> spec_fn(InodeEntry) -> bool {
    |e: InodeEntry| e.cache_state == InodeCacheState::Dirty && e.modified_at < cutoff
}

/// Cached files that are not pinned: the ones eviction may drop.
pub open spec fn evictable_filter() -> spec_fn(InodeEntry) -> bool {
    |e: InodeEntry| e.cache_state == InodeCacheState::Cached && !e.pinned && !e.is_directory
}

/// Ascending by access time.
pub open spec fn sorted_by_access(s: Seq<InodeEntry>) -> bool {
    forall|i: int, j: int| 0 <= i <= j < s.len() ==> s[i].accessed_at <= s[j].accessed_at
}

/// The largest inode number among the first `n` entries, and the root.
pub open spec fn max_inode_of(s: Seq<InodeEntry>, n: nat) -> u64
    decreases n,
{
    if n == 0 {
        ROOT_INODE
    } else {
        let m = max_inode_of(s, (n - 1) as nat);
        if s[n - 1].inode > m { s[n - 1].inode } else { m }
    }
}

/// The keys of the first `n` pairs of a snapshot.
pub open spec fn key_set(s: Seq<(u64, InodeEntry)>, n: int) -> Set<u64> {
    Set::new(|k: u64| exists|j: int| 0 <= j < n && s[j].0 == k)
}

/// Whether `v` holds `x`.
fn vec_contains(v: &Vec<u64>, x: u64) -> (r: bool)
    ensures
        r == v@.contains(x),
{
    let mut i: usize = 0;
    while i < v.len()
        invariant
            0 <= i <= v.len(),
            forall|j: int| 0 <= j < i ==> v@[j] != x,
        decreases v.len() - i,
    {
        if v[i] == x {
            return true;
        }
        i += 1;
    }
    false
}

/// A list that holds `top` and every child of each of its members holds
/// everything below `top`.
proof fn lemma_closed_contains_below(t: InodeTables, top: u64, s: Seq<u64>, x: u64, d: nat)
    requires
        s.contains(top),
        forall|j: int, k: u64| 0 <= j < s.len() && #[trigger] t.is_child_of(k, s[j]) ==> s.contains(k),
        t.below(x, top, d),
    ensures
        s.contains(x),
    decreases d,
{
    if d > 0 {
        let p = t.entries[x].parent_inode;
        lemma_closed_contains_below(t, top, s, p, (d - 1) as nat);
        let j = choose|j: int| 0 <= j < s.len() && s[j] == p;
        assert(t.is_child_of(x, s[j]));
    }
}

/// Filing one more entry's number adds that entry's key, if it is stored.
proof fn lemma_keys_of_insert(t: InodeTables, s: Set<u64>, x: u64)
    ensures
        t.keys_of(s.insert(x)) == (if t.entries.contains_key(x) {
            t.keys_of(s).insert((t.entries[x].parent_inode, t.entries[x].name@))
        } else {
            t.keys_of(s)
        }),
{
    let lhs = t.keys_of(s.insert(x));
    let rhs = if t.entries.contains_key(x) {
        t.keys_of(s).insert((t.entries[x].parent_inode, t.entries[x].name@))
    } else {
        t.keys_of(s)
    };
    assert forall|k: (u64, Seq<char>)| lhs.contains(k) implies rhs.contains(k) by {
        let y = choose|y: u64|
            #![trigger s.insert(x).contains(y), t.entries[y]]
            s.insert(x).contains(y) && t.entries.contains_key(y) && k == (t.entries[y].parent_inode, t.entries[y].name@);
        if y != x {
            assert(s.contains(y) && t.entries.contains_key(y));
        }
    }
    assert forall|k: (u64, Seq<char>)| rhs.contains(k) implies lhs.contains(k) by {
        if t.entries.contains_key(x) && k == (t.entries[x].parent_inode, t.entries[x].name@) {
            assert(s.insert(x).contains(x));
        } else {
            let y = choose|y: u64|
                #![trigger s.contains(y), t.entries[y]]
                s.contains(y) && t.entries.contains_key(y) && k == (t.entries[y].parent_inode, t.entries[y].name@);
            assert(s.insert(x).contains(y));
        }
    }
    assert(lhs =~= rhs);
}

/// A duplicate-free list of subtree members is no longer than the table
/// plus one: every member other than the top is stored.
proof fn lemma_subtree_in_domain(t: InodeTables, top: u64, s: Seq<u64>)
    requires
        t.entries.dom().finite(),
        s.no_duplicates(),
        forall|j: int| 0 <= j < s.len() ==> t.subtree(top).contains(#[trigger] s[j]),
    ensures
        s.len() <= t.entries.dom().len() + 1,
{
    let dom = t.entries.dom().insert(top);
    assert forall|x: u64| s.to_set().contains(x) implies dom.contains(x) by {
        let j = choose|j: int| 0 <= j < s.len() && s[j] == x;
        let d = choose|d: nat| t.below(x, top, d);
        if d > 0 {
            assert(t.entries.contains_key(x));
        }
    }
    s.unique_seq_to_set();
    vstd::set_lib::lemma_len_subset(s.to_set(), dom);
}

/// The characters of each string.
pub open spec fn names_of(v: Seq<String>) -> Seq<Seq<char>> {
    v.map_values(|c: String| c@)
}

/// Whole seconds since the Unix epoch by the system clock (0 if it reads
/// earlier).  Nothing is promised of the value.
#[verifier::external_body]
pub fn now_secs() -> (r: i64) {
    std::time::SystemTime::now().duration_since(std::time::UNIX_EPOCH).unwrap_or_default().as_secs() as i64
}

/// Inserting `x` where the entries before it are no later and the one after
/// it is later keeps a sorted list sorted.
proof fn lemma_insert_keeps_sorted(before: Seq<InodeEntry>, out: Seq<InodeEntry>, x: InodeEntry, p: int)
    requires
        0 <= p <= before.len(),
        out == before.insert(p, x),
        sorted_by_access(before),
        forall|a: int| 0 <= a < p ==> #[trigger] before[a].accessed_at <= x.accessed_at,
        p < before.len() ==> before[p].accessed_at > x.accessed_at,
    ensures
        sorted_by_access(out),
{
    before.insert_ensures(p, x);
    assert forall|a: int, c: int| 0 <= a <= c < out.len() implies out[a].accessed_at <= out[c].accessed_at by {
        if a < p && c < p {
            assert(out[a] == before[a] && out[c] == before[c]);
        } else if a < p && c == p {
            assert(out[a] == before[a]);
        } else if a < p {
            assert(out[a] == before[a] && out[c] == before[c - 1]);
        } else if a == p && c > p {
            assert(out[c] == before[c - 1]);
            assert(before[p].accessed_at <= before[c - 1].accessed_at);
        } else if a > p {
            assert(out[a] == before[a - 1] && out[c] == before[c - 1]);
        }
    }
}

/// After inserting `v[i]` at `p`, each position still knows where in `v`
/// its entry came from.
proof fn lemma_insert_tracks_sources(before: Seq<InodeEntry>, out: Seq<InodeEntry>, p: int, v: Seq<InodeEntry>, i: int, old_src: Seq<int>, src: Seq<int>)
    requires
        0 <= i < v.len(),
        0 <= p <= before.len(),
        before.len() == i,
        out == before.insert(p, v[i]),
        old_src.len() == i,
        forall|a: int| #![trigger old_src[a]] 0 <= a < i ==> 0 <= old_src[a] < i && before[a] == v[old_src[a]],
        src == old_src.insert(p, i),
    ensures
        src.len() == i + 1,
        forall|a: int| #![trigger src[a]] 0 <= a < i + 1 ==> 0 <= src[a] < i + 1 && out[a] == v[src[a]],
{
    before.insert_ensures(p, v[i]);
    old_src.insert_ensures(p, i);
    assert forall|a: int| #![trigger src[a]] 0 <= a < i + 1 implies 0 <= src[a] < i + 1 && out[a] == v[src[a]] by {
        if a < p {
            assert(src[a] == old_src[a] && out[a] == before[a]);
        } else if a > p {
            assert(src[a] == old_src[a - 1] && out[a] == before[a - 1]);
        }
    }
}

/// After inserting `v[i]` at `p`, each entry of `v` up to `i` still knows
/// where it sits.
proof fn lemma_insert_tracks_places(before: Seq<InodeEntry>, out: Seq<InodeEntry>, p: int, v: Seq<InodeEntry>, i: int, old_at: Seq<int>, at: Seq<int>)
    requires
        0 <= i < v.len(),
        0 <= p <= before.len(),
        before.len() == i,
        out == before.insert(p, v[i]),
        old_at.len() == i,
        forall|b: int| #![trigger old_at[b]] 0 <= b < i ==> 0 <= old_at[b] < i && before[old_at[b]] == v[b],
        at == Seq::new((i + 1) as nat, |b: int| if b == i { p } else if old_at[b] >= p { old_at[b] + 1 } else { old_at[b] }),
    ensures
        at.len() == i + 1,
        forall|b: int| #![trigger at[b]] 0 <= b < i + 1 ==> 0 <= at[b] < i + 1 && out[at[b]] == v[b],
{
    before.insert_ensures(p, v[i]);
    assert forall|bb: int| #![trigger at[bb]] 0 <= bb < i + 1 implies 0 <= at[bb] < i + 1 && out[at[bb]] == v[bb] by {
        if bb < i {
            let q = old_at[bb];
            if q >= p {
                assert(out[q + 1] == before[q]);
            } else {
                assert(out[q] == before[q]);
            }
        }
    }
}

/// Inserting an entry whose inode no earlier entry has keeps inodes distinct.
#[verifier::spinoff_prover]
proof fn lemma_insert_keeps_distinct(before: Seq<InodeEntry>, out: Seq<InodeEntry>, p: int, v: Seq<InodeEntry>, i: int, old_src: Seq<int>)
    requires
        0 <= i < v.len(),
        0 <= p <= before.len(),
        before.len() == i,
        out == before.insert(p, v[i]),
        forall|a: int, c: int| #![trigger v[a], v[c]] 0 <= a < c < v.len() ==> v[a].inode != v[c].inode,
        old_src.len() == i,
        forall|a: int| #![trigger old_src[a]] 0 <= a < i ==> 0 <= old_src[a] < i && before[a] == v[old_src[a]],
        forall|a: int, c: int| #![trigger before[a], before[c]] 0 <= a < c < before.len() ==> before[a].inode != before[c].inode,
    ensures
        forall|a: int, c: int| #![trigger out[a], out[c]] 0 <= a < c < out.len() ==> out[a].inode != out[c].inode,
{
    before.insert_ensures(p, v[i]);
    assert forall|a: int, c: int| #![trigger out[a], out[c]] 0 <= a < c < out.len() implies out[a].inode != out[c].inode by {
        if a == p || c == p {
            let o = if a == p { c } else { a };
            let bo = if o < p { o } else { o - 1 };
            let k = old_src[bo];
            assert(out[o] == before[bo]);
            assert(before[bo] == v[k]);
            assert(0 <= k < i);
            assert(out[p] == v[i]);
            assert(v[k].inode != v[i].inode);
        } else {
            let aa = if a < p { a } else { a - 1 };
            let cc = if c < p { c } else { c - 1 };
            assert(out[a] == before[aa] && out[c] == before[cc]);
            assert(aa < cc);
            assert(before[aa].inode != before[cc].inode);
        }
    }
}

/// Sort a listing by access time, least recent first.
fn sort_by_access(v: Vec<InodeEntry>, Ghost(m): Ghost<Map<u64, InodeEntry>>, Ghost(pred): Ghost<spec_fn(InodeEntry) -> bool>) -> (r: Vec<InodeEntry>)
    requires
        lists_exactly(v@, m, pred),
    ensures
        lists_exactly(r@, m, pred),
        sorted_by_access(r@),
{
    let mut out: Vec<InodeEntry> = Vec::new();
    // src[a]: where out[a] came from in v; at[b]: where v[b] sits in out.
    let ghost mut src: Seq<int> = Seq::empty();
    let ghost mut at: Seq<int> = Seq::empty();
    let mut i: usize = 0;
    while i < v.len()
        invariant
            0 <= i <= v.len(),
            lists_exactly(v@, m, pred),
            sorted_by_access(out@),
            out.len() == i,
            src.len() == i,
            at.len() == i,
            forall|a: int| #![trigger src[a]] 0 <= a < i ==> 0 <= src[a] < i && out@[a] == v@[src[a]],
            forall|b: int| #![trigger at[b]] 0 <= b < i ==> 0 <= at[b] < i && out@[at[b]] == v@[b],
            forall|a: int, c: int| 0 <= a < c < out.len() ==> out@[a].inode != out@[c].inode,
        decreases v.len() - i,
    {
        let x = v[i].duplicate();
        let mut pos: usize = 0;
        while pos < out.len() && out[pos].accessed_at <= x.accessed_at
            invariant
                0 <= pos <= out.len(),
                forall|a: int| 0 <= a < pos ==> #[trigger] out@[a].accessed_at <= x.accessed_at,
            decreases out.len() - pos,
        {
            pos += 1;
        }
        let ghost before = out@;
        let ghost p = pos as int;
        out.insert(pos, x);
        proof {
            let old_src = src;
            let old_at = at;
            src = old_src.insert(p, i as int);
            at = Seq::new((i + 1) as nat, |b: int| if b == i { p } else if old_at[b] >= p { old_at[b] + 1 } else { old_at[b] });
            lemma_insert_keeps_sorted(before, out@, x, p);
            lemma_insert_tracks_sources(before, out@, p, v@, i as int, old_src, src);
            lemma_insert_tracks_places(before, out@, p, v@, i as int, old_at, at);
            lemma_insert_keeps_distinct(before, out@, p, v@, i as int, old_src);
        }
        i += 1;
    }
    proof {
        assert forall|a: int| #![trigger out@[a]] 0 <= a < out.len() implies m.contains_key(out@[a].inode) && m[out@[a].inode] == out@[a] && pred(out@[a]) by {
            assert(out@[a] == v@[src[a]]);
        }
        assert forall|k: u64| #[trigger] m.contains_key(k) && pred(m[k]) implies exists|a: int| 0 <= a < out.len() && out@[a].inode == k by {
            let b = choose|b: int| 0 <= b < v.len() && v@[b].inode == k;
            assert(out@[at[b]] == v@[b]);
        }
    }
    out
}

/// The three ways the table is scanned.
enum EntryFilter {
    ChildOf(u64),
    DirtyBefore(i64),
    Evictable,
}

impl EntryFilter {
    spec fn pred(self) -> spec_fn(InodeEntry) -> bool {
        match self {
            EntryFilter::ChildOf(p) => child_filter(p),
            EntryFilter::DirtyBefore(c) => dirty_before_filter(c),
            EntryFilter::Evictable => evictable_filter(),
        }
    }

    fn accepts(&self, e: &InodeEntry) -> (b: bool)
        ensures
            b == self.pred()(*e),
    {
        match self {
            EntryFilter::ChildOf(p) => e.parent_inode == *p && e.inode != *p,
            EntryFilter::DirtyBefore(c) => e.cache_state == InodeCacheState::Dirty && e.modified_at < *c,
            EntryFilter::Evictable => e.cache_state == InodeCacheState::Cached && !e.pinned && !e.is_directory,
        }
    }
}

/// Inode table with a concurrent hot cache indexed by inode and by (parent, name).
pub struct InodeDb {
    entries: DashMap<u64, InodeEntry>,
    children: DashMap<(u64, String), u64>,
    next_inode: u64,
    drive_id: String,
}

impl View for InodeDb {
    type V = InodeTables;

    closed spec fn view(&self) -> InodeTables {
        InodeTables { entries: entry_table(self.entries), children: child_table(self.children) }
    }
}

impl InodeEntry {
    /// A field-by-field copy.
    pub(crate) fn duplicate(&self) -> (r: InodeEntry)
        ensures
            r == *self,
    {
        InodeEntry {
            inode: self.inode,
            parent_inode: self.parent_inode,
            name: self.name.clone(),
            is_directory: self.is_directory,
            size: self.size,
            etag: self.etag.clone(),
            created_at: self.created_at,
            modified_at: self.modified_at,
            accessed_at: self.accessed_at,
            cache_state: self.cache_state,
            pinned: self.pinned,
            has_error: self.has_error,
            populated: self.populated,
        }
    }
}

impl InodeDb {
    pub closed spec fn next_inode(&self) -> u64 {
        self.next_inode
    }

    pub closed spec fn drive(&self) -> Seq<char> {
        self.drive_id@
    }

    /// Both indexes are finite and every entry is filed under its own number.
    pub open spec fn wf(&self) -> bool {
        &&& self@.entries.dom().finite()
        &&& self@.children.dom().finite()
        &&& forall|k: u64| #[trigger] self@.entries.contains_key(k) ==> self@.entries[k].inode == k
    }

    /// Every filed inode lies below the allocation counter, so the number
    /// handed out next was never filed.
    pub open spec fn numbers_fresh(&self) -> bool {
        below_counter(self@.entries, self.next_inode() as int)
    }

    /// An empty table for a drive; the next inode handed out is `ROOT_INODE + 1`.
    pub fn new(drive_id: String) -> (r: Self)
        ensures
            r.wf(),
            r.numbers_fresh(),
            r@.entries == Map::<u64, InodeEntry>::empty(),
            r@.children == Map::<(u64, Seq<char>), u64>::empty(),
            r.next_inode() == ROOT_INODE + 1,
            r.drive() == drive_id@,
    {
        InodeDb {
            entries: entry_table_new(),
            children: child_table_new(),
            next_inode: ROOT_INODE + 1,
            drive_id,
        }
    }

    pub fn drive_id(&self) -> (r: &str)
        ensures
            r@ == self.drive(),
    {
        self.drive_id.as_str()
    }

    /// The stored row of an inode, for writing it to the inventory.
    pub fn row_of(&self, inode: u64) -> (r: Option<InodeRow>)
        ensures
            match self@.get(inode) {
                Some(e) => r is Some && is_row_of(r->Some_0, e, self.drive()),
                None => r is None,
            },
    {
        match self.get(inode) {
            Some(e) => Some(e.to_row(self.drive_id.as_str())),
            None => None,
        }
    }

    /// The stored rows of every inode, in no promised order: what the
    /// inventory holds for this drive.
    pub fn rows(&self) -> (r: Vec<InodeRow>)
        requires
            self.wf(),
        ensures
            forall|i: int| #![trigger r@[i]] 0 <= i < r.len() ==>
                self@.entries.contains_key(r@[i].inode as u64) && is_row_of(r@[i], self@.entries[r@[i].inode as u64], self.drive()),
            forall|k: u64| #[trigger] self@.entries.contains_key(k) ==> exists|i: int|
                0 <= i < r.len() && is_row_of(r@[i], self@.entries[k], self.drive()),
            forall|i: int, j: int| 0 <= i < j < r.len() ==> r@[i].inode != r@[j].inode,
    {
        let snap = entry_table_snapshot(&self.entries);
        let mut out: Vec<InodeRow> = Vec::new();
        let mut i: usize = 0;
        while i < snap.len()
            invariant
                0 <= i <= snap.len(),
                out.len() == i,
                forall|j: int| 0 <= j < snap.len() ==> self@.entries.contains_key(#[trigger] snap@[j].0),
                forall|j: int| 0 <= j < snap.len() ==> self@.entries[#[trigger] snap@[j].0] == snap@[j].1,
                forall|j: int| 0 <= j < i ==> #[trigger] is_row_of(out@[j], snap@[j].1, self.drive()),
            decreases snap.len() - i,
        {
            let row = snap[i].1.to_row(self.drive_id.as_str());
            out.push(row);
            i += 1;
        }
        proof {
            assert forall|j: int| #![trigger out@[j]] 0 <= j < out.len() implies
                self@.entries.contains_key(out@[j].inode as u64) && is_row_of(out@[j], self@.entries[out@[j].inode as u64], self.drive()) by {
                let k = snap@[j].0;
                assert(self@.entries.contains_key(k));
                assert(is_row_of(out@[j], snap@[j].1, self.drive()));
                assert(snap@[j].1.inode == k);
                assert(((k as i64) as u64) == k) by (bit_vector);
            }
            assert forall|k: u64| #[trigger] self@.entries.contains_key(k) implies exists|i: int|
                0 <= i < out.len() && is_row_of(out@[i], self@.entries[k], self.drive()) by {
                let j = choose|j: int| 0 <= j < snap.len() && snap@[j].0 == k;
                assert(is_row_of(out@[j], snap@[j].1, self.drive()));
            }
            assert forall|a: int, b: int| 0 <= a < b < out.len() implies out@[a].inode != out@[b].inode by {
                assert(is_row_of(out@[a], snap@[a].1, self.drive()));
                assert(is_row_of(out@[b], snap@[b].1, self.drive()));
                let x = snap@[a].0;
                let y = snap@[b].0;
                assert(snap@[a].1.inode == x && snap@[b].1.inode == y);
                assert(x != y ==> (x as i64) != (y as i64)) by (bit_vector);
            }
        }
        out
    }

    /// Allocate a new inode number.
    pub fn alloc_inode(&mut self) -> (r: u64)
        ensures
            r == old(self).next_inode(),
            final(self).next_inode() == alloc_step(old(self).next_inode()),
            final(self)@ == old(self)@,
            final(self).drive() == old(self).drive(),
            final(self).wf() == old(self).wf(),
            old(self).numbers_fresh() ==> !old(self)@.entries.contains_key(r),
            old(self).numbers_fresh() && r < u64::MAX ==> final(self).numbers_fresh(),
    {
        let r = self.next_inode;
        self.next_inode = self.next_inode.wrapping_add(1);
        r
    }

    /// Get an inode entry from the hot cache.
    pub fn get(&self, inode: u64) -> (r: Option<InodeEntry>)
        ensures
            r == self@.get(inode),
    {
        entry_table_get(&self.entries, inode)
    }

    /// Look up a child inode by parent + name.
    pub fn lookup_child(&self, parent: u64, name: &str) -> (r: Option<InodeEntry>)
        ensures
            r == self@.lookup(parent, name@),
    {
        match child_table_get(&self.children, parent, name) {
            Some(ino) => self.get(ino),
            None => None,
        }
    }

    /// List all children of a directory inode, in no promised order.
    pub fn list_children(&self, parent: u64) -> (r: Vec<InodeEntry>)
        requires
            self.wf(),
        ensures
            lists_exactly(r@, self@.entries, child_filter(parent)),
    {
        self.collect_matching(EntryFilter::ChildOf(parent))
    }

    /// The stored entries that `keep` accepts, once each.
    fn collect_matching(&self, keep: EntryFilter) -> (r: Vec<InodeEntry>)
        requires
            self.wf(),
        ensures
            lists_exactly(r@, self@.entries, keep.pred()),
    {
        let ghost pred = keep.pred();
        let snapshot = entry_table_snapshot(&self.entries);
        let ghost m = self@.entries;
        assert(m == entry_table(self.entries));
        let mut out: Vec<InodeEntry> = Vec::new();
        let mut i: usize = 0;
        while i < snapshot.len()
            invariant
                self.wf(),
                m == self@.entries,
                0 <= i <= snapshot.len(),
                forall|j: int| #![trigger snapshot[j]] 0 <= j < snapshot.len() ==> m.contains_key(snapshot[j].0) && m[snapshot[j].0] == snapshot[j].1,
                forall|k: u64| #[trigger] m.contains_key(k) ==> exists|j: int| 0 <= j < snapshot.len() && snapshot[j].0 == k,
                forall|a: int, b: int| 0 <= a < b < snapshot.len() ==> snapshot[a].0 != snapshot[b].0,
                pred == keep.pred(),
                forall|a: int| #![trigger out[a]] 0 <= a < out.len() ==> m.contains_key(out[a].inode) && m[out[a].inode] == out[a] && pred(out[a]),
                forall|a: int| 0 <= a < out.len() ==> exists|j: int| 0 <= j < i && snapshot[j].0 == #[trigger] out[a].inode,
                forall|j: int| 0 <= j < i && #[trigger] pred(snapshot[j].1) ==> exists|a: int| 0 <= a < out.len() && out[a].inode == snapshot[j].0,
                forall|a: int, b: int| 0 <= a < b < out.len() ==> out[a].inode != out[b].inode,
            decreases snapshot.len() - i,
        {
            let e = &snapshot[i].1;
            assert(m.contains_key(snapshot[i as int].0));
            assert(m[snapshot[i as int].0].inode == snapshot[i as int].0);
            let ghost before = out@;
            let accepted = keep.accepts(e);
            if accepted {
                out.push(e.duplicate());
                assert(out[out.len() - 1] == snapshot[i as int].1);
                assert forall|a: int, b: int| 0 <= a < b < out.len() implies out[a].inode != out[b].inode by {
                    if b == out.len() - 1 {
                        let j = choose|j: int| 0 <= j < i && snapshot[j].0 == before[a].inode;
                        assert(snapshot[j].0 != snapshot[i as int].0);
                    }
                }
            }
            assert forall|j: int| 0 <= j < i + 1 && #[trigger] pred(snapshot[j].1) implies exists|a: int| 0 <= a < out.len() && out[a].inode == snapshot[j].0 by {
                if j < i {
                    let a = choose|a: int| 0 <= a < before.len() && before[a].inode == snapshot[j].0;
                    assert(out[a] == before[a]);
                } else {
                    assert(out[out.len() - 1].inode == snapshot[j].0);
                }
            }
            assert forall|a: int| 0 <= a < out.len() implies exists|j: int| 0 <= j < i + 1 && snapshot[j].0 == #[trigger] out[a].inode by {
                if a < before.len() {
                    assert(out[a] == before[a]);
                    let j = choose|j: int| 0 <= j < i && snapshot[j].0 == before[a].inode;
                } else {
                    assert(snapshot[i as int].0 == out[a].inode);
                }
            }
            i += 1;
        }
        assert forall|k: u64| #[trigger] m.contains_key(k) && pred(m[k]) implies exists|a: int| 0 <= a < out.len() && out[a].inode == k by {
            let j = choose|j: int| 0 <= j < snapshot.len() && snapshot[j].0 == k;
            assert(pred(snapshot[j].1));
        }
        out
    }

    /// Insert a new inode into both indexes.
    pub fn insert(&mut self, entry: InodeEntry)
        requires
            old(self).wf(),
        ensures
            final(self).wf(),
            final(self)@ == old(self)@.inserted(entry),
            final(self).next_inode() == old(self).next_inode(),
            final(self).drive() == old(self).drive(),
            old(self).numbers_fresh() && entry.inode < old(self).next_inode() ==> final(self).numbers_fresh(),
    {
        child_table_insert(&mut self.children, entry.parent_inode, entry.name.clone(), entry.inode);
        let ino = entry.inode;
        entry_table_insert(&mut self.entries, ino, entry);
    }

    /// Insert several inodes, in order (for populating a directory).
    pub fn insert_batch(&mut self, entries: &[InodeEntry])
        requires
            old(self).wf(),
        ensures
            final(self).wf(),
            final(self)@ == old(self)@.inserted_all(entries@),
            final(self).next_inode() == old(self).next_inode(),
            final(self).drive() == old(self).drive(),
            old(self).numbers_fresh() && (forall|j: int| 0 <= j < entries.len() ==> #[trigger] entries[j].inode < old(self).next_inode()) ==> final(self).numbers_fresh(),
    {
        let mut i: usize = 0;
        while i < entries.len()
            invariant
                0 <= i <= entries.len(),
                self.wf(),
                self@ == old(self)@.inserted_all(entries@.take(i as int)),
                self.next_inode() == old(self).next_inode(),
                self.drive() == old(self).drive(),
            decreases entries.len() - i,
        {
            self.insert(entries[i].duplicate());
            assert(entries@.take(i + 1).drop_last() == entries@.take(i as int));
            i += 1;
        }
        assert(entries@.take(entries.len() as int) == entries@);
        proof {
            if old(self).numbers_fresh() && (forall|j: int| 0 <= j < entries.len() ==> #[trigger] entries[j].inode < old(self).next_inode()) {
                assert forall|k: u64| #[trigger] self@.entries.contains_key(k) implies k < self.next_inode() by {
                    crate::platform::linux::inode_laws::lemma_inserted_all_keys(old(self)@, entries@, k);
                }
            }
        }
    }

    /// Replace the stored entry for `entry.inode`; the child index is left as it is.
    pub fn update(&mut self, entry: &InodeEntry)
        requires
            old(self).wf(),
        ensures
            final(self).wf(),
            final(self)@ == old(self)@.updated(*entry),
            final(self).next_inode() == old(self).next_inode(),
            final(self).drive() == old(self).drive(),
            old(self).numbers_fresh() && entry.inode < old(self).next_inode() ==> final(self).numbers_fresh(),
    {
        entry_table_insert(&mut self.entries, entry.inode, entry.duplicate());
    }

    /// Update just the cache state of an inode.
    pub fn set_cache_state(&mut self, inode: u64, state: InodeCacheState)
        requires
            old(self).wf(),
        ensures
            final(self).wf(),
            final(self)@ == old(self)@.with_cache_state(inode, state),
            final(self).next_inode() == old(self).next_inode(),
            final(self).drive() == old(self).drive(),
            old(self).numbers_fresh() ==> final(self).numbers_fresh(),
    {
        if let Some(mut entry) = self.get(inode) {
            entry.cache_state = state;
            entry_table_insert(&mut self.entries, inode, entry);
        }
    }

    /// Set the error state of an inode.
    pub fn set_error(&mut self, inode: u64, has_error: bool)
        requires
            old(self).wf(),
        ensures
            final(self).wf(),
            final(self)@ == old(self)@.with_error(inode, has_error),
            final(self).next_inode() == old(self).next_inode(),
            final(self).drive() == old(self).drive(),
            old(self).numbers_fresh() ==> final(self).numbers_fresh(),
    {
        if let Some(mut entry) = self.get(inode) {
            entry.has_error = has_error;
            entry_table_insert(&mut self.entries, inode, entry);
        }
    }

    /// Mark a directory as populated (or not).
    pub fn set_populated(&mut self, inode: u64, populated: bool)
        requires
            old(self).wf(),
        ensures
            final(self).wf(),
            final(self)@ == old(self)@.with_populated(inode, populated),
            final(self).next_inode() == old(self).next_inode(),
            final(self).drive() == old(self).drive(),
            old(self).numbers_fresh() ==> final(self).numbers_fresh(),
    {
        if let Some(mut entry) = self.get(inode) {
            entry.populated = populated;
            entry_table_insert(&mut self.entries, inode, entry);
        }
    }

    /// Set the access time of an inode to `now`.
    pub fn touch_accessed_at(&mut self, inode: u64, now: i64)
        requires
            old(self).wf(),
        ensures
            final(self).wf(),
            final(self)@ == old(self)@.with_accessed(inode, now),
            final(self).next_inode() == old(self).next_inode(),
            final(self).drive() == old(self).drive(),
            old(self).numbers_fresh() ==> final(self).numbers_fresh(),
    {
        if let Some(mut entry) = self.get(inode) {
            entry.accessed_at = now;
            entry_table_insert(&mut self.entries, inode, entry);
        }
    }

    /// Rename an inode (move from old parent/name to new parent/name).
    pub fn rename(&mut self, inode: u64, new_parent: u64, new_name: &str)
        requires
            old(self).wf(),
        ensures
            final(self).wf(),
            exists|s: String| s@ == new_name@ && final(self)@ == old(self)@.renamed(inode, new_parent, new_name@, s),
            final(self).next_inode() == old(self).next_inode(),
            final(self).drive() == old(self).drive(),
            old(self).numbers_fresh() ==> final(self).numbers_fresh(),
    {
        if let Some(old_entry) = self.get(inode) {
            child_table_remove(&mut self.children, old_entry.parent_inode, old_entry.name.as_str());
        }
        let name = new_name.to_owned();
        if let Some(mut entry) = self.get(inode) {
            entry.parent_inode = new_parent;
            entry.name = name.clone();
            entry_table_insert(&mut self.entries, inode, entry);
        }
        child_table_insert(&mut self.children, new_parent, new_name.to_owned(), inode);
        assert(self@ == old(self)@.renamed(inode, new_parent, new_name@, name));
    }


    /// Delete an inode and all its descendants from both indexes.
    ///
    /// An entry is collected once even where parent links form a cycle
    /// under `inode`.
    pub fn delete(&mut self, inode: u64)
        requires
            old(self).wf(),
        ensures
            final(self).wf(),
            final(self)@ == old(self)@.deleted(inode),
            final(self).next_inode() == old(self).next_inode(),
            final(self).drive() == old(self).drive(),
            old(self).numbers_fresh() ==> final(self).numbers_fresh(),
    {
        let ghost t = self@;
        let to_delete = self.collect_subtree(inode);
        proof {
            assert forall|x: u64| t.subtree(inode).contains(x) implies to_delete@.contains(x) by {
                let d = choose|d: nat| t.below(x, inode, d);
                lemma_closed_contains_below(t, inode, to_delete@, x, d);
            }
            assert(to_delete@.to_set() =~= t.subtree(inode));
        }
        let mut n: usize = 0;
        while n < to_delete.len()
            invariant
                0 <= n <= to_delete.len(),
                to_delete@.no_duplicates(),
                self.wf(),
                self.next_inode() == old(self).next_inode(),
                self.drive() == old(self).drive(),
                t == old(self)@,
                self@.entries == t.entries.remove_keys(to_delete@.take(n as int).to_set()),
                self@.children == t.children.remove_keys(t.keys_of(to_delete@.take(n as int).to_set())),
            decreases to_delete.len() - n,
        {
            let ino = to_delete[n];
            let ghost done = to_delete@.take(n as int).to_set();
            assert(to_delete@.take(n + 1).to_set() =~= done.insert(ino)) by {
                assert(to_delete@.take(n + 1) == to_delete@.take(n as int).push(ino));
            }
            assert(!done.contains(ino)) by {
                if done.contains(ino) {
                    let j = choose|j: int| 0 <= j < n && to_delete@.take(n as int)[j] == ino;
                    assert(to_delete@[j] == to_delete@[n as int]);
                }
            }
            let removed = entry_table_remove(&mut self.entries, ino);
            if let Some(entry) = removed {
                child_table_remove(&mut self.children, entry.parent_inode, entry.name.as_str());
                assert(t.entries.contains_key(ino) && t.entries[ino] == entry);
            } else {
                assert(!t.entries.contains_key(ino));
            }
            proof {
                lemma_keys_of_insert(t, done, ino);
            }
            assert(self@.entries =~= t.entries.remove_keys(done.insert(ino)));
            assert(self@.children =~= t.children.remove_keys(t.keys_of(done.insert(ino))));
            n += 1;
        }
        assert(to_delete@.take(to_delete.len() as int) == to_delete@);
    }

    /// The numbers of `inode` and of every entry below it, each once.
    fn collect_subtree(&self, inode: u64) -> (r: Vec<u64>)
        requires
            self.wf(),
        ensures
            r@.no_duplicates(),
            r@.len() > 0 && r@[0] == inode,
            forall|j: int| 0 <= j < r.len() ==> self@.subtree(inode).contains(#[trigger] r@[j]),
            forall|j: int, k: u64| 0 <= j < r.len() && #[trigger] self@.is_child_of(k, r@[j]) ==> r@.contains(k),
    {
        let ghost t = self@;
        let snapshot = entry_table_snapshot(&self.entries);
        let mut to_delete: Vec<u64> = Vec::new();
        to_delete.push(inode);
        assert(t.below(inode, inode, 0));
        let mut i: usize = 0;
        while i < to_delete.len()
            invariant
                self.wf(),
                t == self@,
                0 <= i <= to_delete.len(),
                to_delete@.len() > 0 && to_delete@[0] == inode,
                to_delete@.no_duplicates(),
                forall|j: int| #![trigger snapshot[j]] 0 <= j < snapshot.len() ==> t.entries.contains_key(snapshot[j].0) && t.entries[snapshot[j].0] == snapshot[j].1,
                forall|k: u64| #[trigger] t.entries.contains_key(k) ==> exists|j: int| 0 <= j < snapshot.len() && snapshot[j].0 == k,
                forall|j: int| 0 <= j < to_delete.len() ==> t.subtree(inode).contains(#[trigger] to_delete@[j]),
                forall|j: int, k: u64| 0 <= j < i && #[trigger] t.is_child_of(k, to_delete@[j]) ==> to_delete@.contains(k),
            decreases t.entries.dom().len() + 1 - i,
        {
            proof {
                lemma_subtree_in_domain(t, inode, to_delete@);
            }
            let parent = to_delete[i];
            let mut j: usize = 0;
            while j < snapshot.len()
                invariant
                    self.wf(),
                    t == self@,
                    0 <= i < to_delete.len(),
                    parent == to_delete@[i as int],
                    0 <= j <= snapshot.len(),
                    to_delete@.len() > 0 && to_delete@[0] == inode,
                    to_delete@.no_duplicates(),
                    forall|jj: int| #![trigger snapshot[jj]] 0 <= jj < snapshot.len() ==> t.entries.contains_key(snapshot[jj].0) && t.entries[snapshot[jj].0] == snapshot[jj].1,
                    forall|x: int| 0 <= x < to_delete.len() ==> t.subtree(inode).contains(#[trigger] to_delete@[x]),
                    forall|x: int, k: u64| 0 <= x < i && #[trigger] t.is_child_of(k, to_delete@[x]) ==> to_delete@.contains(k),
                    forall|jj: int| #![trigger snapshot[jj]] 0 <= jj < j && t.is_child_of(snapshot[jj].0, parent) ==> to_delete@.contains(snapshot[jj].0),
                decreases snapshot.len() - j,
            {
                let (k, e) = (snapshot[j].0, &snapshot[j].1);
                assert(t.entries.contains_key(k) && t.entries[k] == *e && e.inode == k);
                if e.parent_inode == parent && e.inode != parent && !vec_contains(&to_delete, e.inode) {
                    proof {
                        let d = choose|d: nat| t.below(parent, inode, d);
                        assert(t.below(k, inode, d + 1));
                    }
                    let ghost prev = to_delete@;
                    to_delete.push(e.inode);
                    assert(to_delete@ == prev.push(k));
                    assert(to_delete@.contains(k)) by {
                        assert(to_delete@[to_delete.len() - 1] == k);
                    }
                    assert forall|x: int, kk: u64| 0 <= x < i && #[trigger] t.is_child_of(kk, to_delete@[x]) implies to_delete@.contains(kk) by {
                        assert(to_delete@[x] == prev[x]);
                        assert(t.is_child_of(kk, prev[x]));
                        assert(prev.contains(kk));
                        let idx = choose|idx: int| 0 <= idx < prev.len() && prev[idx] == kk;
                        assert(to_delete@[idx] == kk);
                    }
                    assert forall|jj: int| #![trigger snapshot[jj]] 0 <= jj < j + 1 && t.is_child_of(snapshot[jj].0, parent) implies to_delete@.contains(snapshot[jj].0) by {
                        if jj < j {
                            assert(prev.contains(snapshot[jj].0));
                            let idx = choose|idx: int| 0 <= idx < prev.len() && prev[idx] == snapshot[jj].0;
                            assert(to_delete@[idx] == snapshot[jj].0);
                        }
                    }
                }
                j += 1;
            }
            assert forall|kk: u64| t.is_child_of(kk, parent) implies to_delete@.contains(kk) by {
                let jj = choose|jj: int| 0 <= jj < snapshot.len() && snapshot[jj].0 == kk;
                assert(t.is_child_of(snapshot[jj].0, parent));
            }
            i += 1;
        }
        to_delete
    }

    /// Delete every inode of the table.
    pub fn delete_all(&mut self)
        requires
            old(self).wf(),
        ensures
            final(self).wf(),
            final(self)@ == old(self)@.cleared(),
            final(self).next_inode() == old(self).next_inode(),
            final(self).drive() == old(self).drive(),
            old(self).numbers_fresh() ==> final(self).numbers_fresh(),
    {
        let ghost t = self@;
        let snapshot = entry_table_snapshot(&self.entries);
        let mut n: usize = 0;
        while n < snapshot.len()
            invariant
                0 <= n <= snapshot.len(),
                self.wf(),
                self.next_inode() == old(self).next_inode(),
                self.drive() == old(self).drive(),
                t == old(self)@,
                forall|j: int| #![trigger snapshot[j]] 0 <= j < snapshot.len() ==> t.entries.contains_key(snapshot[j].0),
                forall|k: u64| #[trigger] t.entries.contains_key(k) ==> exists|j: int| 0 <= j < snapshot.len() && snapshot[j].0 == k,
                forall|a: int, b: int| 0 <= a < b < snapshot.len() ==> snapshot[a].0 != snapshot[b].0,
                self@.entries == t.entries.remove_keys(key_set(snapshot@, n as int)),
                self@.children == t.children.remove_keys(t.keys_of(key_set(snapshot@, n as int))),
            decreases snapshot.len() - n,
        {
            let ino = snapshot[n].0;
            let ghost done = key_set(snapshot@, n as int);
            assert(key_set(snapshot@, n + 1) =~= done.insert(ino));
            assert(!done.contains(ino));
            let removed = entry_table_remove(&mut self.entries, ino);
            if let Some(entry) = removed {
                child_table_remove(&mut self.children, entry.parent_inode, entry.name.as_str());
            }
            proof {
                lemma_keys_of_insert(t, done, ino);
            }
            assert(self@.entries =~= t.entries.remove_keys(done.insert(ino)));
            assert(self@.children =~= t.children.remove_keys(t.keys_of(done.insert(ino))));
            n += 1;
        }
        assert(key_set(snapshot@, snapshot.len() as int) =~= t.entries.dom()) by {
            assert forall|k: u64| t.entries.contains_key(k) implies key_set(snapshot@, snapshot.len() as int).contains(k) by {
                let j = choose|j: int| 0 <= j < snapshot.len() && snapshot[j].0 == k;
            }
        }
        assert(self@.entries =~= Map::<u64, InodeEntry>::empty());
    }


    /// Resolve an inode to its full path from the mount root.
    ///
    /// The walk up the parent links takes at most one step per stored
    /// entry: a walk that needs more has met a cycle and ends with `None`.
    pub fn resolve_path(&self, inode: u64) -> (r: Option<String>)
        requires
            self.wf(),
        ensures
            r.is_some() == self@.resolved_path(inode).is_some(),
            r.is_some() ==> r.unwrap()@ == self@.resolved_path(inode).unwrap(),
            r.is_some() && inode != ROOT_INODE ==> ({
                let names = self@.walk_up(inode, self@.entries.dom().len()).unwrap();
                names.len() > 0 && all_plain(names) ==> rooted_names(std_path_components(r.unwrap()@), names)
            }),
    {
        if inode == ROOT_INODE {
            return Some("/".to_owned());
        }
        let limit = entry_table_len(&self.entries);
        let ghost fuel = self@.entries.dom().len();
        let ghost t = self@;
        let mut comps: Vec<String> = Vec::new();
        let mut current = inode;
        let mut steps: usize = 0;
        loop
            invariant_except_break
                inode != ROOT_INODE,
                steps <= limit,
                limit == fuel,
                fuel == self@.entries.dom().len(),
                t == self@,
                t.walk_up(inode, fuel) == match t.walk_up(current, (fuel - steps) as nat) {
                    Some(s) => Some(s + names_of(comps@).reverse()),
                    None => None,
                },
            ensures
                inode != ROOT_INODE,
                t.walk_up(inode, fuel) == Some(names_of(comps@).reverse()),
            decreases limit - steps,
        {
            let entry = match self.get(current) {
                Some(e) => e,
                None => {
                    assert(t.walk_up(current, (fuel - steps) as nat) is None);
                    return None;
                },
            };
            if current == ROOT_INODE {
                assert(Seq::<Seq<char>>::empty() + names_of(comps@).reverse() =~= names_of(comps@).reverse());
                break;
            }
            if steps >= limit {
                assert(t.walk_up(current, (fuel - steps) as nat) is None);
                return None;
            }
            let ghost before = comps@;
            comps.push(entry.name.clone());
            proof {
                assert(names_of(comps@) =~= names_of(before).push(entry.name@));
                assert(names_of(comps@).reverse() =~= seq![entry.name@] + names_of(before).reverse());
            }
            current = entry.parent_inode;
            steps += 1;
            if current == 0 {
                break;
            }
            proof {
                match t.walk_up(current, (fuel - steps) as nat) {
                    Some(s) => {
                        assert(s.push(entry.name@) + names_of(before).reverse() =~= s + names_of(comps@).reverse());
                    },
                    None => {},
                }
            }
        }
        let ghost names = names_of(comps@).reverse();
        let mut path = "/".to_owned();
        let mut k: usize = comps.len();
        while k > 0
            invariant
                k <= comps.len(),
                names == names_of(comps@).reverse(),
                path@ == path_of_names(names.take((comps.len() - k) as int)),
                all_plain(names) && k < comps.len() ==> rooted_names(std_path_components(path@), names.take((comps.len() - k) as int)),
                k == comps.len() ==> path@ == "/"@,
            decreases k,
        {
            k -= 1;
            let next = path_push(path.as_str(), comps[k].as_str());
            proof {
                let n = (comps.len() - k) as int;
                assert(names.take(n).drop_last() =~= names.take(n - 1));
                assert(names.take(n).last() == comps@[k as int]@);
                assert(names.take(n) =~= names.take(n - 1).push(comps@[k as int]@));
                if all_plain(names) {
                    assert(names[n - 1] == comps@[k as int]@);
                    assert(plain_name(comps@[k as int]@));
                    if n == 1 {
                        assert(names.take(0) =~= Seq::<Seq<char>>::empty());
                        assert(seq![comps@[k as int]@] =~= names.take(1));
                    } else {
                        assert(rooted_names(std_path_components(path@), names.take(n - 1)));
                    }
                }
            }
            path = next;
        }
        assert(names.take(comps.len() as int) =~= names);
        assert(names.len() == comps.len());
        Some(path)
    }

    /// The entry that a list of path components leads to from the root:
    /// the root component is skipped, each normal component names a child,
    /// and any other component finds nothing.
    pub fn find_by_components(&self, comps: &Vec<PathComponent>) -> (r: Option<InodeEntry>)
        ensures
            r == self@.find(comps@),
    {
        let mut current = ROOT_INODE;
        let mut i: usize = 0;
        while i < comps.len()
            invariant
                0 <= i <= comps.len(),
                self@.follow(comps@, ROOT_INODE) == self@.follow(comps@.skip(i as int), current),
            decreases comps.len() - i,
        {
            assert(comps@.skip(i as int)[0] == comps@[i as int]);
            assert(comps@.skip(i as int).skip(1) =~= comps@.skip(i + 1));
            match &comps[i] {
                PathComponent::RootDir => {},
                PathComponent::Normal(name) => {
                    match self.lookup_child(current, name.as_str()) {
                        Some(child) => {
                            current = child.inode;
                        },
                        None => {
                            return None;
                        },
                    }
                },
                _ => {
                    return None;
                },
            }
            i += 1;
        }
        assert(comps@.skip(comps.len() as int) =~= Seq::<PathComponent>::empty());
        self.get(current)
    }

    /// Find an inode by its absolute path relative to the mount root.
    pub fn find_by_path(&self, path: &str) -> (r: Option<InodeEntry>)
        ensures
            r == self@.find(std_path_components(path@)),
            path@ == "/"@ ==> r == self@.get(ROOT_INODE),
    {
        let comps = path_components(path);
        proof {
            if path@ == "/"@ {
                assert(comps@.len() == 1 && comps@[0] == PathComponent::RootDir);
                assert(comps@.skip(1) =~= Seq::<PathComponent>::empty());
                assert(self@.follow(comps@.skip(1), ROOT_INODE) == Some(ROOT_INODE));
                assert(self@.follow(comps@, ROOT_INODE) == Some(ROOT_INODE));
            }
        }
        self.find_by_components(&comps)
    }

    /// Dirty inodes last modified before `cutoff`, in no promised order.
    pub fn list_dirty_before(&self, cutoff: i64) -> (r: Vec<InodeEntry>)
        requires
            self.wf(),
        ensures
            lists_exactly(r@, self@.entries, dirty_before_filter(cutoff)),
    {
        self.collect_matching(EntryFilter::DirtyBefore(cutoff))
    }

    /// Dirty inodes that haven't been modified for `min_age_secs` seconds,
    /// by the clock reading `now`.
    pub fn list_dirty_older_than_at(&self, min_age_secs: i64, now: i64) -> (r: Vec<InodeEntry>)
        requires
            self.wf(),
        ensures
            lists_exactly(r@, self@.entries, dirty_before_filter(now.wrapping_sub(min_age_secs))),
    {
        self.list_dirty_before(now.wrapping_sub(min_age_secs))
    }

    /// Dirty inodes that haven't been modified for `min_age_secs` seconds,
    /// by the clock read now.
    pub fn list_dirty_older_than(&self, min_age_secs: i64) -> (r: Vec<InodeEntry>)
        requires
            self.wf(),
        ensures
            exists|now: i64| lists_exactly(r@, self@.entries, dirty_before_filter(now.wrapping_sub(min_age_secs))),
    {
        let now = now_secs();
        self.list_dirty_older_than_at(min_age_secs, now)
    }

    /// Cached, unpinned files, least recently accessed first: the order in
    /// which eviction drops them.
    pub fn list_evictable(&self) -> (r: Vec<InodeEntry>)
        requires
            self.wf(),
        ensures
            lists_exactly(r@, self@.entries, evictable_filter()),
            sorted_by_access(r@),
    {
        let found = self.collect_matching(EntryFilter::Evictable);
        sort_by_access(found, Ghost(self@.entries), Ghost(evictable_filter()))
    }

    /// Update the accessed_at timestamp for an inode to the current time.
    pub fn touch_accessed(&mut self, inode: u64)
        requires
            old(self).wf(),
        ensures
            final(self).wf(),
            exists|now: i64| final(self)@ == old(self)@.with_accessed(inode, now),
            final(self).next_inode() == old(self).next_inode(),
            final(self).drive() == old(self).drive(),
            old(self).numbers_fresh() ==> final(self).numbers_fresh(),
    {
        let now = now_secs();
        self.touch_accessed_at(inode, now);
    }

    /// Load stored rows into the indexes; the next inode handed out follows
    /// the largest one seen (and the root).
    #[verifier::spinoff_prover]
    pub fn load_rows(&mut self, rows: Vec<InodeRow>)
        requires
            old(self).wf(),
            forall|i: int| 0 <= i < rows.len() ==> (#[trigger] rows[i].inode as u64) < u64::MAX,
        ensures
            final(self).wf(),
            final(self)@ == old(self)@.inserted_all(rows@.map_values(|r: InodeRow| r.spec_to_entry())),
            final(self).next_inode() == 1 + max_inode_of(rows@.map_values(|r: InodeRow| r.spec_to_entry()), rows.len() as nat),
            final(self).drive() == old(self).drive(),
            old(self)@.entries.dom() == Set::<u64>::empty() ==> final(self).numbers_fresh(),
    {
        let ghost entries = rows@.map_values(|r: InodeRow| r.spec_to_entry());
        let mut max_inode: u64 = ROOT_INODE;
        let mut i: usize = 0;
        while i < rows.len()
            invariant
                0 <= i <= rows.len(),
                entries == rows@.map_values(|r: InodeRow| r.spec_to_entry()),
                forall|j: int| 0 <= j < rows.len() ==> (#[trigger] rows[j].inode as u64) < u64::MAX,
                self.wf(),
                self@ == old(self)@.inserted_all(entries.take(i as int)),
                max_inode == max_inode_of(entries, i as nat),
                max_inode < u64::MAX,
                self.drive() == old(self).drive(),
            decreases rows.len() - i,
        {
            let entry = rows[i].to_entry();
            let ino = entry.inode;
            if ino > max_inode {
                max_inode = ino;
            }
            self.insert(entry);
            assert(entries.take(i + 1).drop_last() == entries.take(i as int));
            i += 1;
        }
        assert(entries.take(rows.len() as int) == entries);
        self.next_inode = max_inode + 1;
        assert(old(self)@.entries.dom() == Set::<u64>::empty() ==> self.numbers_fresh()) by {
            if old(self)@.entries.dom() == Set::<u64>::empty() {
                crate::platform::linux::inode_laws::law_loaded_counter_is_fresh(old(self)@, entries);
            }
        }
    }
}

} // verus!
