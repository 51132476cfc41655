//! The experimental passthrough mount: a FUSE filesystem that serves a
//! backend directory beside the sync root, numbering paths as inodes.
//!
//! What stands here is the bookkeeping and the naming; the file I/O, the
//! replies and the mount itself run outside.

use std::collections::HashMap;
use vstd::prelude::*;
use vstd::hash_map::StringHashMap;
use crate::paths::{path_join, path_parent, path_push, std_path_join, std_path_parent, std_path_push};
use crate::platform::linux::filesystem::{DirLine, FileKind};

verus! {

broadcast use vstd::std_specs::hash::group_hash_axioms;

/// The marker file that shows the passthrough mount is (or was) active.
pub const MOUNT_MARKER_FILE: &'static str = ".cloudreve_fuse_active";

/// The name prefix of backend directories beside a sync root.
pub const BACKEND_DIR_PREFIX: &'static str = ".cloudreve_fuse_backend_";

/// The root inode of the passthrough mount.
pub const ROOT_INO: u64 = 1;

/// Bidirectional map between backend paths and inode numbers.
pub struct InodeTable {
    path_to_ino: StringHashMap<u64>,
    ino_to_path: HashMap<u64, String>,
    next: u64,
}

impl InodeTable {
    /// Path to inode.
    pub closed spec fn inodes(&self) -> Map<Seq<char>, u64> {
        self.path_to_ino@
    }

    /// Inode to path.
    pub closed spec fn paths(&self) -> Map<u64, Seq<char>> {
        self.ino_to_path@.map_values(|p: String| p@)
    }

    /// The number the next new path gets.
    pub closed spec fn next_ino(&self) -> u64 {
        self.next
    }

    /// The two maps are inverse to each other, and every number in use is
    /// below the next one.
    pub closed spec fn wf(&self) -> bool {
        &&& forall|p: Seq<char>| #[trigger] self.inodes().contains_key(p) ==>
                self.paths().contains_key(self.inodes()[p]) && self.paths()[self.inodes()[p]] == p
        &&& forall|i: u64| #[trigger] self.paths().contains_key(i) ==>
                self.inodes().contains_key(self.paths()[i]) && self.inodes()[self.paths()[i]] == i
        &&& forall|i: u64| #[trigger] self.paths().contains_key(i) ==> i < self.next
        &&& self.next >= 2
    }

    /// A table holding only the root path, as inode 1.
    pub fn new(root: String) -> (r: Self)
        ensures
            r.wf(),
            r.inodes() == Map::<Seq<char>, u64>::empty().insert(root@, ROOT_INO),
            r.paths() == Map::<u64, Seq<char>>::empty().insert(ROOT_INO, root@),
            r.next_ino() == 2,
    {
        let mut path_to_ino = StringHashMap::<u64>::new();
        let mut ino_to_path: HashMap<u64, String> = HashMap::new();
        path_to_ino.insert(root.clone(), ROOT_INO);
        ino_to_path.insert(ROOT_INO, root);
        let t = InodeTable { path_to_ino, ino_to_path, next: 2 };
        assert(t.inodes() =~= Map::<Seq<char>, u64>::empty().insert(root@, ROOT_INO));
        assert(t.paths() =~= Map::<u64, Seq<char>>::empty().insert(ROOT_INO, root@));
        t
    }

    /// The path of an inode.
    /// The number the next new path will be given.
    pub fn next_inode_number(&self) -> (r: u64)
        ensures
            r == self.next_ino(),
    {
        self.next
    }

    pub fn get_path(&self, ino: u64) -> (r: Option<String>)
        ensures
            r.is_some() == self.paths().contains_key(ino),
            r.is_some() ==> r.unwrap()@ == self.paths()[ino],
    {
        match self.ino_to_path.get(&ino) {
            Some(p) => Some(p.clone()),
            None => None,
        }
    }

    /// The inode of a path, numbering it if it is new.
    pub fn get_or_insert(&mut self, path: String) -> (r: u64)
        requires
            old(self).wf(),
            old(self).next_ino() < u64::MAX,
        ensures
            final(self).wf(),
            old(self).inodes().contains_key(path@) ==> r == old(self).inodes()[path@] && final(self).inodes() == old(self).inodes()
                && final(self).paths() == old(self).paths() && final(self).next_ino() == old(self).next_ino(),
            !old(self).inodes().contains_key(path@) ==> r == old(self).next_ino()
                && final(self).inodes() == old(self).inodes().insert(path@, r)
                && final(self).paths() == old(self).paths().insert(r, path@)
                && final(self).next_ino() == old(self).next_ino() + 1,
    {
        if let Some(ino) = self.path_to_ino.get(path.as_str()) {
            return *ino;
        }
        let ino = self.next;
        let ghost old_paths = self.paths();
        let ghost old_inodes = self.inodes();
        assert(!old_paths.contains_key(ino)) by {
            if old_paths.contains_key(ino) {
                assert(ino < old(self).next_ino());
            }
        }
        self.next = self.next + 1;
        self.path_to_ino.insert(path.clone(), ino);
        self.ino_to_path.insert(ino, path);
        assert(self.paths() =~= old_paths.insert(ino, path@));
        assert(self.inodes() =~= old_inodes.insert(path@, ino));
        assert forall|p: Seq<char>| #[trigger] self.inodes().contains_key(p) implies
            self.paths().contains_key(self.inodes()[p]) && self.paths()[self.inodes()[p]] == p by {
            if p != path@ {
                assert(old_inodes.contains_key(p));
                assert(old_paths.contains_key(old_inodes[p]));
                assert(old_inodes[p] != ino);
            }
        }
        assert forall|i: u64| #[trigger] self.paths().contains_key(i) implies
            self.inodes().contains_key(self.paths()[i]) && self.inodes()[self.paths()[i]] == i by {
            if i != ino {
                assert(old_paths.contains_key(i));
                assert(old_inodes.contains_key(old_paths[i]));
                if old_paths[i] == path@ {
                    assert(false);
                }
            }
        }
        ino
    }

    /// Forget a path and its inode.
    pub fn remove_path(&mut self, path: &str)
        requires
            old(self).wf(),
        ensures
            final(self).wf(),
            final(self).inodes() == old(self).inodes().remove(path@),
            old(self).inodes().contains_key(path@) ==> final(self).paths() == old(self).paths().remove(old(self).inodes()[path@]),
            !old(self).inodes().contains_key(path@) ==> final(self).paths() == old(self).paths(),
            final(self).next_ino() == old(self).next_ino(),
    {
        let found = match self.path_to_ino.get(path) {
            Some(ino) => Some(*ino),
            None => None,
        };
        let ghost old_paths = self.paths();
        let ghost old_inodes = self.inodes();
        self.path_to_ino.remove(path);
        if let Some(ino) = found {
            self.ino_to_path.remove(&ino);
            assert(self.paths() =~= old_paths.remove(ino));
            assert forall|p: Seq<char>| #[trigger] self.inodes().contains_key(p) implies
                self.paths().contains_key(self.inodes()[p]) && self.paths()[self.inodes()[p]] == p by {
                assert(old_inodes.contains_key(p));
                assert(old_paths.contains_key(old_inodes[p]));
                if old_inodes[p] == ino {
                    assert(old_paths[ino] == path@);
                }
            }
            assert forall|i: u64| #[trigger] self.paths().contains_key(i) implies
                self.inodes().contains_key(self.paths()[i]) && self.inodes()[self.paths()[i]] == i by {
                assert(old_paths.contains_key(i));
                assert(old_inodes.contains_key(old_paths[i]));
                if old_paths[i] == path@ {
                    assert(old_inodes[path@] == i);
                }
            }
        } else {
            assert(self.inodes() =~= old(self).inodes());
        }
    }
}

/// Numbering a path and reading it back gives the path; numbering it again
/// gives the same number; a new number was in use by no other path.
pub proof fn law_inode_numbering(inodes: Map<Seq<char>, u64>, paths: Map<u64, Seq<char>>, next: u64, p: Seq<char>)
    requires
        forall|q: Seq<char>| #[trigger] inodes.contains_key(q) ==> paths.contains_key(inodes[q]) && paths[inodes[q]] == q,
        forall|i: u64| #[trigger] paths.contains_key(i) ==> i < next,
        !inodes.contains_key(p),
    ensures
        paths.insert(next, p)[next] == p,
        inodes.insert(p, next)[p] == next,
        !paths.contains_key(next),
        forall|q: Seq<char>| #[trigger] inodes.contains_key(q) ==> inodes[q] != next,
{
    assert forall|q: Seq<char>| #[trigger] inodes.contains_key(q) implies inodes[q] != next by {
        assert(paths.contains_key(inodes[q]));
    }
}

/// Open files of the passthrough mount, numbered from 1.
pub struct HandleTable<F> {
    next: u64,
    files: HashMap<u64, F>,
}

impl<F> HandleTable<F> {
    pub closed spec fn files(&self) -> Map<u64, F> {
        self.files@
    }

    pub closed spec fn next_fh(&self) -> u64 {
        self.next
    }

    pub fn new() -> (r: Self)
        ensures
            r.files() == Map::<u64, F>::empty(),
            r.next_fh() == 1,
    {
        HandleTable { next: 1, files: HashMap::new() }
    }

    /// Keep an open file; gives its handle number.
    pub fn insert(&mut self, file: F) -> (r: u64)
        ensures
            r == old(self).next_fh(),
            final(self).next_fh() == (if old(self).next_fh() == u64::MAX { 0 } else { (old(self).next_fh() + 1) as u64 }),
            final(self).files() == old(self).files().insert(r, file),
    {
        let fh = self.next;
        self.next = self.next.wrapping_add(1);
        self.files.insert(fh, file);
        fh
    }

    /// The open file of a handle.
    pub fn get(&self, fh: u64) -> (r: Option<&F>)
        ensures
            r.is_some() == self.files().contains_key(fh),
            r.is_some() ==> *r.unwrap() == self.files()[fh],
    {
        self.files.get(&fh)
    }

    /// Close a handle.
    pub fn remove(&mut self, fh: u64)
        ensures
            final(self).files() == old(self).files().remove(fh),
            final(self).next_fh() == old(self).next_fh(),
    {
        self.files.remove(&fh);
    }
}

/// The passthrough filesystem: inode numbering of backend paths and open files.
pub struct PassthroughFs<F> {
    inodes: InodeTable,
    handles: HandleTable<F>,
}

/// The listing lines of a backend directory: ".", ".." (the mount root),
/// then each child under the number its path has in `inodes`.
pub open spec fn passthrough_listing(ino: u64, children: Seq<(String, FileKind, String)>, inodes: Map<Seq<char>, u64>) -> Seq<(u64, FileKind, Seq<char>)> {
    seq![(ino, FileKind::Directory, "."@), (ROOT_INO, FileKind::Directory, ".."@)]
        + children.map_values(|c: (String, FileKind, String)| (inodes[c.0@], c.1, c.2@))
}

impl<F> PassthroughFs<F> {
    pub closed spec fn inodes(&self) -> Map<Seq<char>, u64> {
        self.inodes.inodes()
    }

    pub closed spec fn paths(&self) -> Map<u64, Seq<char>> {
        self.inodes.paths()
    }

    pub closed spec fn next_ino(&self) -> u64 {
        self.inodes.next_ino()
    }

    pub closed spec fn open_files(&self) -> Map<u64, F> {
        self.handles.files()
    }

    pub closed spec fn next_fh(&self) -> u64 {
        self.handles.next_fh()
    }

    pub closed spec fn wf(&self) -> bool {
        self.inodes.wf()
    }

    /// A filesystem over the backend directory `root`.
    pub fn new(root: String) -> (r: Self)
        ensures
            r.wf(),
            r.inodes() == Map::<Seq<char>, u64>::empty().insert(root@, ROOT_INO),
            r.paths() == Map::<u64, Seq<char>>::empty().insert(ROOT_INO, root@),
            r.next_ino() == 2,
            r.open_files() == Map::<u64, F>::empty(),
            r.next_fh() == 1,
    {
        PassthroughFs { inodes: InodeTable::new(root), handles: HandleTable::new() }
    }

    /// The number the next new path will be given.
    pub fn next_inode_number(&self) -> (r: u64)
        ensures
            r == self.next_ino(),
    {
        self.inodes.next_inode_number()
    }

    pub fn path_for_ino(&self, ino: u64) -> (r: Option<String>)
        ensures
            r.is_some() == self.paths().contains_key(ino),
            r.is_some() ==> r.unwrap()@ == self.paths()[ino],
    {
        self.inodes.get_path(ino)
    }

    pub fn ino_for_path(&mut self, path: String) -> (r: u64)
        requires
            old(self).wf(),
            old(self).next_ino() < u64::MAX,
        ensures
            final(self).wf(),
            final(self).inodes().contains_key(path@) && final(self).inodes()[path@] == r,
            old(self).inodes().contains_key(path@) ==> r == old(self).inodes()[path@] && final(self).inodes() == old(self).inodes()
                && final(self).paths() == old(self).paths() && final(self).next_ino() == old(self).next_ino(),
            !old(self).inodes().contains_key(path@) ==> r == old(self).next_ino()
                && final(self).inodes() == old(self).inodes().insert(path@, r)
                && final(self).paths() == old(self).paths().insert(r, path@)
                && final(self).next_ino() == old(self).next_ino() + 1,
            final(self).open_files() == old(self).open_files(),
            final(self).next_fh() == old(self).next_fh(),
    {
        self.inodes.get_or_insert(path)
    }

    pub fn remove_path(&mut self, path: &str)
        requires
            old(self).wf(),
        ensures
            final(self).wf(),
            final(self).inodes() == old(self).inodes().remove(path@),
            old(self).inodes().contains_key(path@) ==> final(self).paths() == old(self).paths().remove(old(self).inodes()[path@]),
            !old(self).inodes().contains_key(path@) ==> final(self).paths() == old(self).paths(),
            final(self).next_ino() == old(self).next_ino(),
            final(self).open_files() == old(self).open_files(),
            final(self).next_fh() == old(self).next_fh(),
    {
        self.inodes.remove_path(path)
    }

    /// The backend path of `name` inside directory `parent`.
    pub fn child_path(&self, parent: u64, name: &str) -> (r: Option<String>)
        ensures
            r.is_some() == self.paths().contains_key(parent),
            r.is_some() ==> r.unwrap()@ == std_path_push(self.paths()[parent], name@),
    {
        match self.inodes.get_path(parent) {
            Some(p) => Some(path_push(p.as_str(), name)),
            None => None,
        }
    }

    /// After a successful rename on the backend: the old path is forgotten
    /// and the new one numbered.
    pub fn renamed(&mut self, old_path: &str, new_path: String)
        requires
            old(self).wf(),
            old(self).next_ino() < u64::MAX,
        ensures
            final(self).wf(),
            ({
                let kept = old(self).inodes().remove(old_path@);
                if kept.contains_key(new_path@) {
                    final(self).inodes() == kept && final(self).next_ino() == old(self).next_ino()
                } else {
                    final(self).inodes() == kept.insert(new_path@, old(self).next_ino())
                        && final(self).next_ino() == old(self).next_ino() + 1
                }
            }),
            final(self).open_files() == old(self).open_files(),
            final(self).next_fh() == old(self).next_fh(),
    {
        self.inodes.remove_path(old_path);
        let _ = self.inodes.get_or_insert(new_path);
    }

    /// Keep an open backend file; gives its handle.
    pub fn open_handle(&mut self, file: F) -> (r: u64)
        ensures
            r == old(self).next_fh(),
            final(self).open_files() == old(self).open_files().insert(r, file),
            final(self).next_fh() == (if old(self).next_fh() == u64::MAX { 0 } else { (old(self).next_fh() + 1) as u64 }),
            final(self).inodes() == old(self).inodes(),
            final(self).paths() == old(self).paths(),
            final(self).next_ino() == old(self).next_ino(),
            final(self).wf() == old(self).wf(),
    {
        self.handles.insert(file)
    }

    /// The open backend file of a handle.
    pub fn file(&self, fh: u64) -> (r: Option<&F>)
        ensures
            r.is_some() == self.open_files().contains_key(fh),
            r.is_some() ==> *r.unwrap() == self.open_files()[fh],
    {
        self.handles.get(fh)
    }

    /// Close a handle.
    pub fn release(&mut self, fh: u64)
        ensures
            final(self).open_files() == old(self).open_files().remove(fh),
            final(self).next_fh() == old(self).next_fh(),
            final(self).inodes() == old(self).inodes(),
            final(self).paths() == old(self).paths(),
            final(self).next_ino() == old(self).next_ino(),
            final(self).wf() == old(self).wf(),
    {
        self.handles.remove(fh)
    }

    /// The listing of directory `ino` from `offset` on, given its children
    /// (backend path, kind, name) as the backend lists them.  Every child
    /// path is numbered, listed or not.
    pub fn readdir_lines(&mut self, ino: u64, children: Vec<(String, FileKind, String)>, offset: i64) -> (r: Vec<DirLine>)
        requires
            old(self).wf(),
            old(self).next_ino() + children.len() < u64::MAX,
        ensures
            final(self).wf(),
            forall|k: int| 0 <= k < children.len() ==> final(self).inodes().contains_key(#[trigger] children@[k].0@),
            forall|p: Seq<char>| #[trigger] old(self).inodes().contains_key(p) ==>
                final(self).inodes().contains_key(p) && final(self).inodes()[p] == old(self).inodes()[p],
            forall|p: Seq<char>| #[trigger] final(self).inodes().contains_key(p) ==>
                old(self).inodes().contains_key(p) || exists|k: int| 0 <= k < children.len() && children@[k].0@ == p,
            final(self).open_files() == old(self).open_files(),
            final(self).next_fh() == old(self).next_fh(),
            crate::platform::linux::filesystem::lines_from(r@, passthrough_listing(ino, children@, final(self).inodes()), offset as usize as int),
    {
        let mut inos: Vec<u64> = Vec::new();
        let mut k: usize = 0;
        while k < children.len()
            invariant
                self.wf(),
                0 <= k <= children.len(),
                self.next_ino() <= old(self).next_ino() + k,
                old(self).next_ino() + children.len() < u64::MAX,
                inos.len() == k,
                forall|j: int| 0 <= j < k ==> self.inodes().contains_key(#[trigger] children@[j].0@) && self.inodes()[children@[j].0@] == inos@[j],
                forall|p: Seq<char>| #[trigger] old(self).inodes().contains_key(p) ==>
                    self.inodes().contains_key(p) && self.inodes()[p] == old(self).inodes()[p],
                forall|p: Seq<char>| #[trigger] self.inodes().contains_key(p) ==>
                    old(self).inodes().contains_key(p) || exists|j: int| 0 <= j < k && children@[j].0@ == p,
                self.open_files() == old(self).open_files(),
                self.next_fh() == old(self).next_fh(),
            decreases children.len() - k,
        {
            let ghost before = self.inodes();
            let child_ino = self.ino_for_path(children[k].0.clone());
            proof {
                assert forall|p: Seq<char>| #[trigger] self.inodes().contains_key(p) implies
                    old(self).inodes().contains_key(p) || exists|j: int| 0 <= j < k + 1 && children@[j].0@ == p by {
                    if !before.contains_key(p) {
                        assert(children@[k as int].0@ == p);
                    } else if !old(self).inodes().contains_key(p) {
                        let j = choose|j: int| 0 <= j < k && children@[j].0@ == p;
                        assert(0 <= j < k + 1 && children@[j].0@ == p);
                    }
                }
                assert forall|j: int| 0 <= j < k implies self.inodes().contains_key(#[trigger] children@[j].0@) && self.inodes()[children@[j].0@] == inos@[j] by {
                    assert(before.contains_key(children@[j].0@));
                }
            }
            inos.push(child_ino);
            k += 1;
        }
        let ghost listing = passthrough_listing(ino, children@, self.inodes());
        let skip = offset as usize;
        let mut out: Vec<DirLine> = Vec::new();
        if skip == 0 {
            out.push(DirLine { ino, kind: FileKind::Directory, name: ".".to_owned(), next_offset: 1 });
        }
        if skip <= 1 {
            out.push(DirLine { ino: ROOT_INO, kind: FileKind::Directory, name: "..".to_owned(), next_offset: 2 });
        }
        assert(forall|j: int| #![trigger out@[j]] 0 <= j < out.len() ==> crate::platform::linux::filesystem::line_is(out@[j], listing[skip + j], skip + j + 1));
        let mut c: usize = if skip >= 2 { skip - 2 } else { 0 };
        let ghost first = c as int;
        while c < children.len()
            invariant
                first <= c,
                c <= children.len() || c == first,
                first == (if skip >= 2 { skip - 2 } else { 0 }),
                listing == passthrough_listing(ino, children@, self.inodes()),
                listing.len() == children.len() + 2,
                inos.len() == children.len(),
                forall|j: int| 0 <= j < children.len() ==> self.inodes()[#[trigger] children@[j].0@] == inos@[j],
                forall|j: int| 0 <= j < children.len() ==> self.inodes().contains_key(#[trigger] children@[j].0@),
                forall|p: Seq<char>| #[trigger] old(self).inodes().contains_key(p) ==>
                    self.inodes().contains_key(p) && self.inodes()[p] == old(self).inodes()[p],
                forall|p: Seq<char>| #[trigger] self.inodes().contains_key(p) ==>
                    old(self).inodes().contains_key(p) || exists|j: int| 0 <= j < children.len() && children@[j].0@ == p,
                self.open_files() == old(self).open_files(),
                self.next_fh() == old(self).next_fh(),
                self.wf(),
                out.len() == c + 2 - skip,
                forall|j: int| #![trigger out@[j]] 0 <= j < out.len() ==> crate::platform::linux::filesystem::line_is(out@[j], listing[skip + j], skip + j + 1),
            decreases children.len() - c,
        {
            let line = DirLine { ino: inos[c], kind: children[c].1, name: children[c].2.clone(), next_offset: (c as u128 + 3) as i64 };
            assert(listing[c + 2] == (inos@[c as int], children@[c as int].1, children@[c as int].2@));
            out.push(line);
            c += 1;
        }
        assert(crate::platform::linux::filesystem::lines_from(out@, listing, skip as int));
        out
    }
}

/// Whether `s` begins with `prefix`.
pub fn str_starts_with(s: &str, prefix: &str) -> (r: bool)
    ensures
        r == (prefix@.len() <= s@.len() && s@.subrange(0, prefix@.len() as int) == prefix@),
{
    let n = prefix.unicode_len();
    if n > s.unicode_len() {
        return false;
    }
    let mut i: usize = 0;
    while i < n
        invariant
            n == prefix@.len(),
            n <= s@.len(),
            0 <= i <= n,
            forall|j: int| 0 <= j < i ==> s@[j] == prefix@[j],
        decreases n - i,
    {
        if s.get_char(i) != prefix.get_char(i) {
            assert(s@.subrange(0, n as int)[i as int] != prefix@[i as int]);
            return false;
        }
        i += 1;
    }
    assert(s@.subrange(0, n as int) =~= prefix@);
    true
}

/// Whether an entry of the sync root is a backend directory, which
/// migration leaves where it is.
pub fn is_backend_dir_name(name: &str) -> (r: bool)
    ensures
        r == (BACKEND_DIR_PREFIX@.len() <= name@.len() && name@.subrange(0, BACKEND_DIR_PREFIX@.len() as int) == BACKEND_DIR_PREFIX@),
{
    str_starts_with(name, BACKEND_DIR_PREFIX)
}

/// Whether a backend entry is the mount marker, which restoring leaves
/// behind.
pub fn is_mount_marker(name: &str) -> (r: bool)
    ensures
        r == (name@ == MOUNT_MARKER_FILE@),
{
    let a = name.to_owned();
    let b = MOUNT_MARKER_FILE.to_owned();
    a == b
}

/// The backend directory of a drive: `.cloudreve_fuse_backend_<drive id>`
/// beside the sync root (in "." when the root has no parent).
pub open spec fn backend_root(sync_path: Seq<char>, drive_id: Seq<char>) -> Seq<char> {
    std_path_join(
        match std_path_parent(sync_path) {
            Some(p) => p,
            None => "."@,
        },
        BACKEND_DIR_PREFIX@ + drive_id,
    )
}

pub fn backend_root_for(sync_path: &str, drive_id: &str) -> (r: String)
    ensures
        r@ == backend_root(sync_path@, drive_id@),
{
    let parent = match path_parent(sync_path) {
        Some(p) => p,
        None => ".".to_owned(),
    };
    let mut name = BACKEND_DIR_PREFIX.to_owned();
    name.append(drive_id);
    path_join(parent.as_str(), name.as_str())
}

/// The mount marker inside a backend directory.
pub fn marker_path(backend_root: &str) -> (r: String)
    ensures
        r@ == std_path_join(backend_root@, MOUNT_MARKER_FILE@),
{
    path_join(backend_root, MOUNT_MARKER_FILE)
}

/// The mount marker of a drive's backend directory.
pub fn mount_marker_path(sync_path: &str, drive_id: &str) -> (r: String)
    ensures
        r@ == std_path_join(backend_root(sync_path@, drive_id@), MOUNT_MARKER_FILE@),
{
    let backend = backend_root_for(sync_path, drive_id);
    marker_path(backend.as_str())
}

/// What restoring one backend entry into the sync root does.
#[derive(Debug, Clone, Copy, PartialEq, Eq, Structural)]
pub enum RestoreAction {
    /// The mount marker stays in the backend.
    KeepMarker,
    /// The sync root already has an entry of that name: the backend one
    /// stays, nothing is overwritten.
    KeepConflict,
    /// The entry moves into the sync root.
    Move,
}

/// How a backend entry named `name` is restored, given whether the sync
/// root has an entry of that name already.
pub fn restore_action(name: &str, destination_exists: bool) -> (r: RestoreAction)
    ensures
        r == (if name@ == MOUNT_MARKER_FILE@ {
            RestoreAction::KeepMarker
        } else if destination_exists {
            RestoreAction::KeepConflict
        } else {
            RestoreAction::Move
        }),
{
    if is_mount_marker(name) {
        RestoreAction::KeepMarker
    } else if destination_exists {
        RestoreAction::KeepConflict
    } else {
        RestoreAction::Move
    }
}

} // verus!
