//! Open file handles of the FUSE mount.

use vstd::prelude::*;
use dashmap::DashMap;
use crate::platform::linux::shared_map::{handle_table, handle_table_new, handle_table_insert, handle_table_get, handle_table_remove, handle_table_snapshot, handle_table_len};

verus! {

/// An open file descriptor tracked by the FUSE filesystem.
#[derive(Debug, Clone, Copy)]
pub struct OpenFile {
    pub inode: u64,
    pub flags: i32,
}

/// Table of open file handles, mapping fh (file handle) to `OpenFile`.
pub struct HandleTable {
    handles: DashMap<u64, OpenFile>,
    next_handle: u64,
}

/// The counter after one allocation (it wraps around at the top).
pub open spec fn next_handle_after(n: u64) -> u64 {
    if n == u64::MAX { 0 } else { (n + 1) as u64 }
}

impl View for HandleTable {
    type V = Map<u64, OpenFile>;

    closed spec fn view(&self) -> Map<u64, OpenFile> {
        handle_table(self.handles)
    }
}

impl HandleTable {
    /// The number the next opened handle gets.
    pub closed spec fn next_handle(&self) -> u64 {
        self.next_handle
    }

    /// The table is finite and every handle in it was numbered below the counter.
    pub closed spec fn wf(&self) -> bool {
        &&& self@.dom().finite()
        &&& forall|fh: u64| #[trigger] self@.contains_key(fh) ==> fh < self.next_handle
    }

    pub fn new() -> (r: Self)
        ensures
            r.wf(),
            r@ == Map::<u64, OpenFile>::empty(),
            r.next_handle() == 1,
    {
        HandleTable { handles: handle_table_new(), next_handle: 1 }
    }

    /// Allocate a new file handle for the given inode.
    pub fn open(&mut self, inode: u64, flags: i32) -> (r: u64)
        requires
            old(self).wf(),
        ensures
            r == old(self).next_handle(),
            final(self).next_handle() == next_handle_after(old(self).next_handle()),
            final(self)@ == old(self)@.insert(r, OpenFile { inode, flags }),
            old(self).next_handle() < u64::MAX ==> final(self).wf() && !old(self)@.contains_key(r),
    {
        let fh = self.next_handle;
        self.next_handle = self.next_handle.wrapping_add(1);
        handle_table_insert(&mut self.handles, fh, OpenFile { inode, flags });
        fh
    }

    /// Get the inode associated with a file handle.
    pub fn get_inode(&self, fh: u64) -> (r: Option<u64>)
        ensures
            r == (match self@.get(fh) {
                Some(h) => Some(h.inode),
                None => None::<u64>,
            }),
    {
        match handle_table_get(&self.handles, fh) {
            Some(h) => Some(h.inode),
            None => None,
        }
    }

    /// Check if an inode has any open handles.
    pub fn is_open(&self, inode: u64) -> (r: bool)
        ensures
            r == exists|fh: u64| #[trigger] self@.contains_key(fh) && self@[fh].inode == inode,
    {
        let snapshot = handle_table_snapshot(&self.handles);
        let mut i: usize = 0;
        while i < snapshot.len()
            invariant
                0 <= i <= snapshot.len(),
                forall|j: int| 0 <= j < snapshot.len() ==> self@.contains_key(#[trigger] snapshot[j].0),
                forall|j: int| 0 <= j < snapshot.len() ==> self@[#[trigger] snapshot[j].0] == snapshot[j].1,
                forall|fh: u64| #[trigger] self@.contains_key(fh) ==> exists|j: int| 0 <= j < snapshot.len() && snapshot[j].0 == fh,
                forall|j: int| 0 <= j < i ==> (#[trigger] snapshot[j]).1.inode != inode,
            decreases snapshot.len() - i,
        {
            if snapshot[i].1.inode == inode {
                assert(self@.contains_key(snapshot[i as int].0));
                return true;
            }
            i += 1;
        }
        assert forall|fh: u64| #[trigger] self@.contains_key(fh) implies self@[fh].inode != inode by {
            let j = choose|j: int| 0 <= j < snapshot.len() && snapshot[j].0 == fh;
            assert(snapshot[j].1.inode != inode);
        }
        false
    }

    /// Release (close) a file handle, giving back what it held.
    pub fn release(&mut self, fh: u64) -> (r: Option<OpenFile>)
        requires
            old(self).wf(),
        ensures
            final(self).wf(),
            r == old(self)@.get(fh),
            final(self)@ == old(self)@.remove(fh),
            final(self).next_handle() == old(self).next_handle(),
    {
        handle_table_remove(&mut self.handles, fh)
    }

    /// Get the number of open handles.
    pub fn len(&self) -> (r: usize)
        ensures
            r == self@.len(),
    {
        handle_table_len(&self.handles)
    }
}

/// Opening a handle makes its number lead to the inode until it is
/// released, and releasing it forgets the number; while the counter has not
/// wrapped, a new handle never reuses a number still open.
pub proof fn law_handle_lifecycle(t: Map<u64, OpenFile>, next: u64, inode: u64, flags: i32)
    requires
        forall|fh: u64| #[trigger] t.contains_key(fh) ==> fh < next,
        next < u64::MAX,
    ensures
        !t.contains_key(next),
        t.insert(next, OpenFile { inode, flags }).get(next) == Some(OpenFile { inode, flags }),
        t.insert(next, OpenFile { inode, flags }).remove(next).get(next).is_none(),
        forall|fh: u64| #[trigger] t.insert(next, OpenFile { inode, flags }).contains_key(fh) ==> fh < next_handle_after(next),
{
}

} // verus!
