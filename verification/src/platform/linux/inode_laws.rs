//! Properties of the inode table that hold across its operations.

use vstd::prelude::*;
use crate::paths::{PathComponent, rooted_names, std_path_components};
use crate::platform::linux::inode::{InodeCacheState, InodeEntry, InodeRow, InodeTables, ROOT_INODE, cache_state_name, cache_state_of_name, is_row_of, max_inode_of, below_counter, alloc_step};

verus! {

/// Every stored entry is filed under its own inode number.
pub open spec fn filed_by_number(t: InodeTables) -> bool {
    forall|k: u64| #[trigger] t.entries.contains_key(k) ==> t.entries[k].inode == k
}

/// After an entry is stored, looking it up by number or by its parent and
/// name gives it back.
pub proof fn law_lookup_after_insert(t: InodeTables, e: InodeEntry)
    ensures
        t.inserted(e).get(e.inode) == Some(e),
        t.inserted(e).lookup(e.parent_inode, e.name@) == Some(e),
{
}

/// Replacing an entry's fields gives the new fields back by number and
/// leaves the (parent, name) index untouched.
pub proof fn law_get_after_update(t: InodeTables, e: InodeEntry)
    ensures
        t.updated(e).get(e.inode) == Some(e),
        t.updated(e).children == t.children,
{
}

/// Deleting an inode removes it and everything below it, and keeps every
/// other entry as it was.
pub proof fn law_delete_removes_subtree(t: InodeTables, top: u64, x: u64)
    ensures
        t.subtree(top).contains(x) ==> t.deleted(top).get(x).is_none(),
        !t.subtree(top).contains(x) ==> t.deleted(top).get(x) == t.get(x),
        t.deleted(top).get(top).is_none(),
{
    assert(t.below(top, top, 0));
}

/// After a delete, no lookup by (parent, name) reaches a deleted entry.
pub proof fn law_no_lookup_into_deleted_subtree(t: InodeTables, top: u64, parent: u64, name: Seq<char>)
    requires
        filed_by_number(t),
    ensures
        match t.deleted(top).lookup(parent, name) {
            Some(e) => !t.subtree(top).contains(e.inode),
            None => true,
        },
{
}

/// After clearing the table, no inode can be found by number or by name.
pub proof fn law_cleared_is_empty(t: InodeTables, x: u64, parent: u64, name: Seq<char>)
    ensures
        t.cleared().get(x).is_none(),
        t.cleared().lookup(parent, name).is_none(),
{
}

/// After a rename, the new parent and name lead to the moved entry, which
/// keeps its number and every other field.
pub proof fn law_lookup_after_rename(t: InodeTables, inode: u64, new_parent: u64, new_name: String)
    requires
        t.entries.contains_key(inode),
    ensures
        ({
            let moved = t.renamed(inode, new_parent, new_name@, new_name);
            &&& moved.lookup(new_parent, new_name@) == Some(InodeEntry { parent_inode: new_parent, name: new_name, ..t.entries[inode] })
            &&& moved.get(inode) == Some(InodeEntry { parent_inode: new_parent, name: new_name, ..t.entries[inode] })
        }),
{
}

/// While every filed inode lies below the counter, the number allocated
/// next was never filed, and filing the entry that gets it keeps every
/// filed number below the advanced counter: numbers handed out one after
/// another are fresh and distinct.
pub proof fn law_allocated_numbers_are_fresh(t: InodeTables, next: u64, e: InodeEntry)
    requires
        below_counter(t.entries, next as int),
        next < u64::MAX,
    ensures
        !t.entries.contains_key(next),
        below_counter(t.entries, next + 1),
        e.inode == next ==> below_counter(t.inserted(e).entries, next + 1),
{
}

/// The largest inode among the first `n` entries is at least each of them.
proof fn lemma_max_inode_bounds(s: Seq<InodeEntry>, n: nat)
    requires
        n <= s.len(),
    ensures
        forall|j: int| 0 <= j < n ==> #[trigger] s[j].inode <= max_inode_of(s, n),
        ROOT_INODE <= max_inode_of(s, n),
    decreases n,
{
    if n > 0 {
        lemma_max_inode_bounds(s, (n - 1) as nat);
    }
}

/// An inode filed by storing a batch was filed before or is one of the batch's.
pub proof fn lemma_inserted_all_keys(t: InodeTables, batch: Seq<InodeEntry>, k: u64)
    requires
        t.inserted_all(batch).entries.contains_key(k),
    ensures
        t.entries.contains_key(k) || exists|j: int| 0 <= j < batch.len() && #[trigger] batch[j].inode == k,
    decreases batch.len(),
{
    if batch.len() > 0 {
        let front = batch.drop_last();
        if k != batch.last().inode {
            lemma_inserted_all_keys(t, front, k);
            if !t.entries.contains_key(k) {
                let j = choose|j: int| 0 <= j < front.len() && #[trigger] front[j].inode == k;
                assert(batch[j] == front[j]);
            }
        } else {
            assert(batch[batch.len() - 1].inode == k);
        }
    }
}

/// Loading stored entries into an empty table sets the counter (one past
/// the largest of them and the root) above every filed inode, so the
/// numbers handed out afterwards were never filed.
pub proof fn law_loaded_counter_is_fresh(t: InodeTables, batch: Seq<InodeEntry>)
    requires
        t.entries.dom() == Set::<u64>::empty(),
    ensures
        below_counter(t.inserted_all(batch).entries, max_inode_of(batch, batch.len()) + 1),
{
    lemma_max_inode_bounds(batch, batch.len());
    assert forall|k: u64| #[trigger] t.inserted_all(batch).entries.contains_key(k) implies
        k < max_inode_of(batch, batch.len()) + 1 by {
        lemma_inserted_all_keys(t, batch, k);
        assert(!t.entries.contains_key(k));
        let j = choose|j: int| 0 <= j < batch.len() && #[trigger] batch[j].inode == k;
        assert(batch[j].inode <= max_inode_of(batch, batch.len()));
    }
}

/// Every operation on the tables keeps all filed numbers below the counter:
/// changing fields, renaming, deleting and clearing file no new number, and
/// storing entries does not either while their numbers lie below it.
pub proof fn law_operations_keep_numbers_fresh(
    t: InodeTables,
    next: int,
    e: InodeEntry,
    batch: Seq<InodeEntry>,
    inode: u64,
    state: InodeCacheState,
    flag: bool,
    at: i64,
    new_parent: u64,
    new_name: String,
    top: u64,
)
    requires
        below_counter(t.entries, next),
    ensures
        below_counter(t.with_cache_state(inode, state).entries, next),
        below_counter(t.with_error(inode, flag).entries, next),
        below_counter(t.with_populated(inode, flag).entries, next),
        below_counter(t.with_accessed(inode, at).entries, next),
        below_counter(t.renamed(inode, new_parent, new_name@, new_name).entries, next),
        below_counter(t.deleted(top).entries, next),
        below_counter(t.cleared().entries, next),
        e.inode < next ==> below_counter(t.inserted(e).entries, next),
        e.inode < next ==> below_counter(t.updated(e).entries, next),
        (forall|j: int| 0 <= j < batch.len() ==> #[trigger] batch[j].inode < next)
            ==> below_counter(t.inserted_all(batch).entries, next),
{
    if forall|j: int| 0 <= j < batch.len() ==> #[trigger] batch[j].inode < next {
        assert forall|k: u64| #[trigger] t.inserted_all(batch).entries.contains_key(k) implies k < next by {
            lemma_inserted_all_keys(t, batch, k);
        }
    }
}

/// The number that the `j`-th allocation (counting from 0) hands out when
/// the counter starts at `next`: the counter after `j` steps.
pub open spec fn nth_allocated(next: u64, j: nat) -> u64
    decreases j,
{
    if j == 0 { next } else { alloc_step(nth_allocated(next, (j - 1) as nat)) }
}

/// Without reaching the top, the `j`-th allocation hands out `next + j`.
pub proof fn lemma_nth_allocated_value(next: u64, j: nat)
    requires
        next + j <= u64::MAX,
    ensures
        nth_allocated(next, j) == next + j,
    decreases j,
{
    if j > 0 {
        lemma_nth_allocated_value(next, (j - 1) as nat);
    }
}

/// Handing out `count` numbers in a row from a fresh counter, without
/// reaching the top, gives numbers that are pairwise distinct and were
/// never filed.
pub proof fn law_allocation_sequence(t: InodeTables, next: u64, count: nat)
    requires
        below_counter(t.entries, next as int),
        next + count <= u64::MAX,
    ensures
        forall|j: nat| j < count ==> #[trigger] nth_allocated(next, j) == next + j,
        forall|i: nat, j: nat| i < j < count ==> #[trigger] nth_allocated(next, i) != #[trigger] nth_allocated(next, j),
        forall|j: nat| j < count ==> !t.entries.contains_key(#[trigger] nth_allocated(next, j)),
{
    assert forall|j: nat| j < count implies #[trigger] nth_allocated(next, j) == next + j by {
        lemma_nth_allocated_value(next, j);
    }
}

/// After the stored entries of a drive are loaded into an empty table, the
/// `k`-th allocation (counting from 1) hands out `m + k`, where `m` is the
/// largest loaded inode or the root's, whichever is larger; that number was
/// not loaded, and it differs from every number handed out before it.
pub proof fn law_kth_allocation_after_load(t: InodeTables, batch: Seq<InodeEntry>, k: nat)
    requires
        t.entries.dom() == Set::<u64>::empty(),
        1 <= k,
        max_inode_of(batch, batch.len()) + k <= u64::MAX,
    ensures
        ({
            let m = max_inode_of(batch, batch.len());
            let start = (m + 1) as u64;
            &&& nth_allocated(start, (k - 1) as nat) == m + k
            &&& !t.inserted_all(batch).entries.contains_key(nth_allocated(start, (k - 1) as nat))
            &&& forall|j: nat| j < k - 1 ==> #[trigger] nth_allocated(start, j) != nth_allocated(start, (k - 1) as nat)
        }),
{
    let m = max_inode_of(batch, batch.len());
    let start = (m + 1) as u64;
    law_loaded_counter_is_fresh(t, batch);
    law_allocation_sequence(t.inserted_all(batch), start, (k - 1) as nat);
    lemma_nth_allocated_value(start, (k - 1) as nat);
}

/// Each cache state reads back from its stored name.
pub proof fn law_cache_state_name_round_trip(s: InodeCacheState)
    ensures
        cache_state_of_name(cache_state_name(s)) == s,
{
    reveal_strlit("cached");
    reveal_strlit("dirty");
    reveal_strlit("not_cached");
    assert("cached"@.len() == 6 && "dirty"@.len() == 5 && "not_cached"@.len() == 10);
    assert("dirty"@ != "cached"@);
    assert("not_cached"@ != "cached"@);
    assert("not_cached"@ != "dirty"@);
}

/// Loading a stored entry gives it back: the entry a row describes has
/// every field of the entry the row was made from.
pub proof fn law_row_round_trip(e: InodeEntry, r: InodeRow, drive_id: Seq<char>)
    requires
        is_row_of(r, e, drive_id),
    ensures
        ({
            let back = r.spec_to_entry();
            &&& back.inode == e.inode
            &&& back.parent_inode == e.parent_inode
            &&& back.name@ == e.name@
            &&& back.is_directory == e.is_directory
            &&& back.size == e.size
            &&& back.etag@ == e.etag@
            &&& back.created_at == e.created_at
            &&& back.modified_at == e.modified_at
            &&& back.accessed_at == e.accessed_at
            &&& back.cache_state == e.cache_state
            &&& back.pinned == e.pinned
            &&& back.has_error == e.has_error
            &&& back.populated == e.populated
        }),
{
    law_cache_state_name_round_trip(e.cache_state);
    let a = e.inode;
    let b = e.parent_inode;
    assert((a as i64) as u64 == a) by (bit_vector);
    assert((b as i64) as u64 == b) by (bit_vector);
}

/// Every stored entry is filed in the (parent, name) index under its own
/// parent and name.
pub open spec fn index_consistent(t: InodeTables) -> bool {
    forall|k: u64| #[trigger] t.entries.contains_key(k) ==>
        t.children.get((t.entries[k].parent_inode, t.entries[k].name@)) == Some(k)
}

/// No stored entry but `inode` holds the parent and name `(parent, name)`.
pub open spec fn name_free(t: InodeTables, parent: u64, name: Seq<char>, inode: u64) -> bool {
    forall|k: u64| #[trigger] t.entries.contains_key(k) && t.entries[k].parent_inode == parent
        && t.entries[k].name@ == name ==> k == inode
}

/// Each entry of `batch` takes a parent and name that no other stored
/// inode holds, and entries of the batch that share a parent and name
/// share their inode.
pub open spec fn batch_fits(t: InodeTables, batch: Seq<InodeEntry>) -> bool {
    forall|i: int| 0 <= i < batch.len() ==> {
        &&& name_free(t, #[trigger] batch[i].parent_inode, batch[i].name@, batch[i].inode)
        &&& forall|j: int| 0 <= j < batch.len() && #[trigger] batch[j].parent_inode == batch[i].parent_inode
                && batch[j].name@ == batch[i].name@ ==> batch[j].inode == batch[i].inode
    }
}

/// An entry stored after a batch is the one stored before, or one of the
/// batch's, filed under its own number.
pub proof fn lemma_inserted_all_entry(t: InodeTables, batch: Seq<InodeEntry>, k: u64)
    requires
        t.inserted_all(batch).entries.contains_key(k),
    ensures
        (t.entries.contains_key(k) && t.inserted_all(batch).entries[k] == t.entries[k])
            || exists|j: int| 0 <= j < batch.len() && #[trigger] batch[j] == t.inserted_all(batch).entries[k]
                && batch[j].inode == k,
    decreases batch.len(),
{
    if batch.len() > 0 {
        let front = batch.drop_last();
        if k != batch.last().inode {
            lemma_inserted_all_entry(t, front, k);
            if !(t.entries.contains_key(k) && t.inserted_all(front).entries[k] == t.entries[k]) {
                let j = choose|j: int| 0 <= j < front.len() && #[trigger] front[j] == t.inserted_all(front).entries[k]
                    && front[j].inode == k;
                assert(batch[j] == front[j]);
            }
        } else {
            assert(batch[batch.len() - 1] == batch.last());
        }
    }
}

/// Storing an entry whose parent and name no other stored inode holds
/// keeps the index consistent.
pub proof fn lemma_inserted_keeps_index(t: InodeTables, e: InodeEntry)
    requires
        index_consistent(t),
        name_free(t, e.parent_inode, e.name@, e.inode),
    ensures
        index_consistent(t.inserted(e)),
{
    let u = t.inserted(e);
    assert forall|k: u64| #[trigger] u.entries.contains_key(k) implies
        u.children.get((u.entries[k].parent_inode, u.entries[k].name@)) == Some(k) by {
        if k != e.inode {
            assert(t.entries.contains_key(k));
        }
    }
}

/// Storing a batch that fits keeps the index consistent.
pub proof fn lemma_inserted_all_keeps_index(t: InodeTables, batch: Seq<InodeEntry>)
    requires
        index_consistent(t),
        batch_fits(t, batch),
    ensures
        index_consistent(t.inserted_all(batch)),
    decreases batch.len(),
{
    if batch.len() > 0 {
        let n = batch.len() - 1;
        let front = batch.drop_last();
        let last = batch[n];
        assert forall|i: int| 0 <= i < front.len() implies {
            &&& name_free(t, #[trigger] front[i].parent_inode, front[i].name@, front[i].inode)
            &&& forall|j: int| 0 <= j < front.len() && #[trigger] front[j].parent_inode == front[i].parent_inode
                    && front[j].name@ == front[i].name@ ==> front[j].inode == front[i].inode
        } by {
            assert(front[i] == batch[i]);
            assert(name_free(t, batch[i].parent_inode, batch[i].name@, batch[i].inode));
            assert forall|j: int| 0 <= j < front.len() && #[trigger] front[j].parent_inode == front[i].parent_inode
                    && front[j].name@ == front[i].name@ implies front[j].inode == front[i].inode by {
                assert(front[j] == batch[j]);
                assert(batch[j].parent_inode == batch[i].parent_inode);
            }
        }
        lemma_inserted_all_keeps_index(t, front);
        let mid = t.inserted_all(front);
        assert(name_free(t, batch[n].parent_inode, batch[n].name@, batch[n].inode));
        assert forall|k: u64| #[trigger] mid.entries.contains_key(k) && mid.entries[k].parent_inode == last.parent_inode
            && mid.entries[k].name@ == last.name@ implies k == last.inode by {
            lemma_inserted_all_entry(t, front, k);
            if !(t.entries.contains_key(k) && mid.entries[k] == t.entries[k]) {
                let j = choose|j: int| 0 <= j < front.len() && #[trigger] front[j] == mid.entries[k]
                    && front[j].inode == k;
                assert(front[j] == batch[j]);
                assert(batch[j].parent_inode == batch[n].parent_inode);
            }
        }
        lemma_inserted_keeps_index(mid, last);
        assert(batch.last() == last);
    }
}

/// Deleting a subtree keeps the index consistent.
pub proof fn lemma_deleted_keeps_index(t: InodeTables, top: u64)
    requires
        index_consistent(t),
    ensures
        index_consistent(t.deleted(top)),
{
    let d = t.deleted(top);
    assert forall|k: u64| #[trigger] d.entries.contains_key(k) implies
        d.children.get((d.entries[k].parent_inode, d.entries[k].name@)) == Some(k) by {
        let key = (t.entries[k].parent_inode, t.entries[k].name@);
        if t.keys_of(t.subtree(top)).contains(key) {
            let x = choose|x: u64| #![trigger t.subtree(top).contains(x), t.entries[x]]
                t.subtree(top).contains(x) && t.entries.contains_key(x) && key == (
                    t.entries[x].parent_inode,
                    t.entries[x].name@,
                );
            assert(t.children.get(key) == Some(x));
        }
    }
}

/// Renaming into a parent and name that no other stored inode holds keeps
/// the index consistent.
pub proof fn lemma_renamed_keeps_index(t: InodeTables, inode: u64, new_parent: u64, new_name: String)
    requires
        index_consistent(t),
        name_free(t, new_parent, new_name@, inode),
    ensures
        index_consistent(t.renamed(inode, new_parent, new_name@, new_name)),
{
    let r = t.renamed(inode, new_parent, new_name@, new_name);
    assert forall|k: u64| #[trigger] r.entries.contains_key(k) implies
        r.children.get((r.entries[k].parent_inode, r.entries[k].name@)) == Some(k) by {
        if k != inode {
            assert(t.entries.contains_key(k));
            if t.entries.contains_key(inode) {
                assert(t.children.get((t.entries[inode].parent_inode, t.entries[inode].name@)) == Some(inode));
            }
        }
    }
}

/// Replacing an entry keeps the index consistent while the index files the
/// new entry under its parent and name.
pub proof fn lemma_updated_keeps_index(t: InodeTables, e: InodeEntry)
    requires
        index_consistent(t),
        t.children.get((e.parent_inode, e.name@)) == Some(e.inode),
    ensures
        index_consistent(t.updated(e)),
{
    let u = t.updated(e);
    assert forall|k: u64| #[trigger] u.entries.contains_key(k) implies
        u.children.get((u.entries[k].parent_inode, u.entries[k].name@)) == Some(k) by {
        if k != e.inode {
            assert(t.entries.contains_key(k));
        }
    }
}

/// Where the index is consistent and `(parent, name)` leads to no stored
/// entry, no stored inode holds that parent and name.
pub proof fn lemma_unfound_name_is_free(t: InodeTables, parent: u64, name: Seq<char>, inode: u64)
    requires
        index_consistent(t),
        t.lookup(parent, name) is None,
    ensures
        name_free(t, parent, name, inode),
{
    assert forall|k: u64| #[trigger] t.entries.contains_key(k) && t.entries[k].parent_inode == parent
        && t.entries[k].name@ == name implies k == inode by {
        assert(t.children.get((parent, name)) == Some(k));
    }
}

/// Where the index is consistent, deleting the entry that `(parent, name)`
/// leads to frees that parent and name.
pub proof fn lemma_deleting_found_name_frees_it(t: InodeTables, parent: u64, name: Seq<char>, inode: u64)
    requires
        index_consistent(t),
        filed_by_number(t),
        t.lookup(parent, name) is Some,
    ensures
        name_free(t.deleted(t.lookup(parent, name).unwrap().inode), parent, name, inode),
{
    let top = t.lookup(parent, name).unwrap().inode;
    let d = t.deleted(top);
    assert forall|k: u64| #[trigger] d.entries.contains_key(k) && d.entries[k].parent_inode == parent
        && d.entries[k].name@ == name implies k == inode by {
        assert(t.entries.contains_key(k));
        assert(t.children.get((parent, name)) == Some(k));
        assert(t.below(k, top, 0));
        assert(t.subtree(top).contains(k));
    }
}

/// Every operation on the tables keeps the (parent, name) index consistent
/// with the stored entries: changing fields other than the parent and name,
/// deleting and clearing always do; storing an entry, renaming into a parent
/// and name, and storing a batch do while no other stored inode holds that
/// parent and name; replacing an entry does while the index files it under
/// its new parent and name.
pub proof fn law_operations_keep_index_consistent(
    t: InodeTables,
    e: InodeEntry,
    batch: Seq<InodeEntry>,
    inode: u64,
    state: InodeCacheState,
    flag: bool,
    at: i64,
    new_parent: u64,
    new_name: String,
    top: u64,
)
    requires
        index_consistent(t),
    ensures
        index_consistent(t.with_cache_state(inode, state)),
        index_consistent(t.with_error(inode, flag)),
        index_consistent(t.with_populated(inode, flag)),
        index_consistent(t.with_accessed(inode, at)),
        index_consistent(t.deleted(top)),
        index_consistent(t.cleared()),
        name_free(t, e.parent_inode, e.name@, e.inode) ==> index_consistent(t.inserted(e)),
        t.children.get((e.parent_inode, e.name@)) == Some(e.inode) ==> index_consistent(t.updated(e)),
        name_free(t, new_parent, new_name@, inode) ==> index_consistent(t.renamed(inode, new_parent, new_name@, new_name)),
        batch_fits(t, batch) ==> index_consistent(t.inserted_all(batch)),
{
    if name_free(t, e.parent_inode, e.name@, e.inode) {
        lemma_inserted_keeps_index(t, e);
    }
    if batch_fits(t, batch) {
        lemma_inserted_all_keeps_index(t, batch);
    }
    lemma_deleted_keeps_index(t, top);
    if name_free(t, new_parent, new_name@, inode) {
        lemma_renamed_keeps_index(t, inode, new_parent, new_name);
    }
    if t.children.get((e.parent_inode, e.name@)) == Some(e.inode) {
        lemma_updated_keeps_index(t, e);
    }
    let c1 = t.with_cache_state(inode, state);
    assert forall|k: u64| #[trigger] c1.entries.contains_key(k) implies
        c1.children.get((c1.entries[k].parent_inode, c1.entries[k].name@)) == Some(k) by {
        assert(t.entries.contains_key(k));
    }
    let c2 = t.with_error(inode, flag);
    assert forall|k: u64| #[trigger] c2.entries.contains_key(k) implies
        c2.children.get((c2.entries[k].parent_inode, c2.entries[k].name@)) == Some(k) by {
        assert(t.entries.contains_key(k));
    }
    let c3 = t.with_populated(inode, flag);
    assert forall|k: u64| #[trigger] c3.entries.contains_key(k) implies
        c3.children.get((c3.entries[k].parent_inode, c3.entries[k].name@)) == Some(k) by {
        assert(t.entries.contains_key(k));
    }
    let c4 = t.with_accessed(inode, at);
    assert forall|k: u64| #[trigger] c4.entries.contains_key(k) implies
        c4.children.get((c4.entries[k].parent_inode, c4.entries[k].name@)) == Some(k) by {
        assert(t.entries.contains_key(k));
    }
}

/// Every component is a plain name.
pub open spec fn all_normal(comps: Seq<PathComponent>) -> bool {
    forall|i: int| 0 <= i < comps.len() ==> #[trigger] comps[i] is Normal
}

/// The names that plain-name components carry.
pub open spec fn component_names(comps: Seq<PathComponent>) -> Seq<Seq<char>> {
    comps.map_values(
        |c: PathComponent|
            match c {
                PathComponent::Normal(s) => s@,
                _ => Seq::empty(),
            },
    )
}

/// The walk from `x` up to the root meets only stored entries, each filed
/// in the (parent, name) index under its own parent and name.
pub open spec fn indexed_chain(t: InodeTables, x: u64, fuel: nat) -> bool
    decreases fuel,
{
    if x == ROOT_INODE {
        t.entries.contains_key(ROOT_INODE)
    } else if fuel == 0 {
        false
    } else {
        &&& t.entries.contains_key(x)
        &&& t.entries[x].parent_inode != 0
        &&& t.children.get((t.entries[x].parent_inode, t.entries[x].name@)) == Some(x)
        &&& indexed_chain(t, t.entries[x].parent_inode, (fuel - 1) as nat)
    }
}

/// Following a concatenation of components is following the first part and
/// then the second from where the first ended.
pub proof fn lemma_follow_append(t: InodeTables, a: Seq<PathComponent>, b: Seq<PathComponent>, cur: u64)
    ensures
        t.follow(a + b, cur) == match t.follow(a, cur) {
            Some(y) => t.follow(b, y),
            None => None,
        },
    decreases a.len(),
{
    if a.len() == 0 {
        assert(a + b =~= b);
    } else {
        assert((a + b)[0] == a[0]);
        assert((a + b).skip(1) =~= a.skip(1) + b);
        match a[0] {
            PathComponent::RootDir => {
                lemma_follow_append(t, a.skip(1), b, cur);
            },
            PathComponent::Normal(n) => {
                match t.lookup(cur, n@) {
                    Some(child) => {
                        lemma_follow_append(t, a.skip(1), b, child.inode);
                    },
                    None => {},
                }
            },
            _ => {},
        }
    }
}

/// The names on the way from the root down to an indexed inode lead back
/// to it: resolving an inode to its path and finding that path again gives
/// the same inode.
pub proof fn law_find_inverts_walk_up(t: InodeTables, x: u64, fuel: nat, comps: Seq<PathComponent>)
    requires
        filed_by_number(t),
        indexed_chain(t, x, fuel),
        all_normal(comps),
        t.walk_up(x, fuel) is Some,
        component_names(comps) == t.walk_up(x, fuel).unwrap(),
    ensures
        t.follow(comps, ROOT_INODE) == Some(x),
        t.find(seq![PathComponent::RootDir] + comps) == t.entries.get(x),
    decreases fuel,
{
    assert(component_names(comps).len() == comps.len());
    if x == ROOT_INODE {
        assert(comps.len() == 0);
    } else {
        let e = t.entries[x];
        assert(t.walk_up(e.parent_inode, (fuel - 1) as nat) is Some);
        let pnames = t.walk_up(e.parent_inode, (fuel - 1) as nat).unwrap();
        assert(t.walk_up(x, fuel) == Some(pnames.push(e.name@)));
        assert(comps.len() == pnames.len() + 1);
        let front = comps.drop_last();
        assert forall|i: int| 0 <= i < front.len() implies component_names(front)[i] == pnames[i] by {
            assert(front[i] == comps[i]);
            assert(component_names(comps)[i] == pnames.push(e.name@)[i]);
        }
        assert(component_names(front) =~= pnames);
        assert forall|i: int| 0 <= i < front.len() implies #[trigger] front[i] is Normal by {
            assert(front[i] == comps[i]);
        }
        law_find_inverts_walk_up(t, e.parent_inode, (fuel - 1) as nat, front);
        let last = comps.last();
        assert(comps =~= front + seq![last]);
        lemma_follow_append(t, front, seq![last], ROOT_INODE);
        assert(last is Normal);
        let name = last->Normal_0;
        assert(component_names(comps)[comps.len() - 1] == name@);
        assert(name@ == e.name@);
        assert(t.lookup(e.parent_inode, name@) == Some(e));
        assert(seq![last].skip(1) =~= Seq::<PathComponent>::empty());
        assert(t.follow(seq![last].skip(1), x) == Some(x));
        assert(t.follow(seq![last], e.parent_inode) == Some(x));
    }
    assert(t.follow(comps, ROOT_INODE) == Some(x));
    let root = seq![PathComponent::RootDir];
    assert((root + comps)[0] == PathComponent::RootDir);
    assert((root + comps).skip(1) =~= comps);
}

/// The walk up from `x` meets only stored entries that name a parent, and
/// comes to the stored root within `fuel` steps.
pub open spec fn reaches_root(t: InodeTables, x: u64, fuel: nat) -> bool
    decreases fuel,
{
    if x == ROOT_INODE {
        t.entries.contains_key(ROOT_INODE)
    } else if fuel == 0 {
        false
    } else {
        &&& t.entries.contains_key(x)
        &&& t.entries[x].parent_inode != 0
        &&& reaches_root(t, t.entries[x].parent_inode, (fuel - 1) as nat)
    }
}

/// With a consistent index, a walk that reaches the root is filed in the
/// index all the way up and gives the names on the way.
pub proof fn lemma_reaching_walk_is_indexed(t: InodeTables, x: u64, fuel: nat)
    requires
        index_consistent(t),
        reaches_root(t, x, fuel),
    ensures
        indexed_chain(t, x, fuel),
        t.walk_up(x, fuel) is Some,
    decreases fuel,
{
    if x != ROOT_INODE {
        lemma_reaching_walk_is_indexed(t, t.entries[x].parent_inode, (fuel - 1) as nat);
    }
}

/// The inode `i` parent links above `x`.
pub open spec fn ancestor(t: InodeTables, x: u64, i: nat) -> u64
    decreases i,
{
    if i == 0 {
        x
    } else {
        ancestor(t, t.entries[x].parent_inode, (i - 1) as nat)
    }
}

/// More steps do not stop a walk from reaching the root.
proof fn lemma_reaches_root_more_fuel(t: InodeTables, x: u64, f: nat, g: nat)
    requires
        reaches_root(t, x, f),
        f <= g,
    ensures
        reaches_root(t, x, g),
    decreases f,
{
    if x != ROOT_INODE {
        lemma_reaches_root_more_fuel(t, t.entries[x].parent_inode, (f - 1) as nat, (g - 1) as nat);
    }
}

/// A walk that reaches the root first meets it after some `i` steps, with
/// no root before.
proof fn lemma_first_root(t: InodeTables, x: u64, f: nat) -> (i: nat)
    requires
        reaches_root(t, x, f),
    ensures
        i <= f,
        reaches_root(t, x, i),
        forall|k: nat| k < i ==> #[trigger] ancestor(t, x, k) != ROOT_INODE,
    decreases f,
{
    if x == ROOT_INODE {
        0
    } else {
        let p = t.entries[x].parent_inode;
        let j = lemma_first_root(t, p, (f - 1) as nat);
        assert forall|k: nat| k < j + 1 implies #[trigger] ancestor(t, x, k) != ROOT_INODE by {
            if k > 0 {
                assert(ancestor(t, x, k) == ancestor(t, p, (k - 1) as nat));
            }
        }
        j + 1
    }
}

/// Along a walk that reaches the root and meets no root in its first `j`
/// steps, those steps pass stored entries that name a parent, and the walk
/// from the `j`-th one reaches the root with the steps left.
proof fn lemma_walk_prefix(t: InodeTables, x: u64, f: nat, j: nat)
    requires
        reaches_root(t, x, f),
        j <= f,
        forall|k: nat| k < j ==> #[trigger] ancestor(t, x, k) != ROOT_INODE,
    ensures
        reaches_root(t, ancestor(t, x, j), (f - j) as nat),
        forall|k: nat| k < j ==> t.entries.contains_key(#[trigger] ancestor(t, x, k))
            && t.entries[ancestor(t, x, k)].parent_inode != 0,
    decreases j,
{
    if j > 0 {
        assert(ancestor(t, x, 0) != ROOT_INODE);
        let p = t.entries[x].parent_inode;
        assert forall|k: nat| k < j - 1 implies #[trigger] ancestor(t, p, k) != ROOT_INODE by {
            assert(ancestor(t, x, k + 1) == ancestor(t, p, k));
        }
        lemma_walk_prefix(t, p, (f - 1) as nat, (j - 1) as nat);
        assert(ancestor(t, x, j) == ancestor(t, p, (j - 1) as nat));
        assert forall|k: nat| k < j implies t.entries.contains_key(#[trigger] ancestor(t, x, k))
            && t.entries[ancestor(t, x, k)].parent_inode != 0 by {
            if k > 0 {
                assert(ancestor(t, x, k) == ancestor(t, p, (k - 1) as nat));
            }
        }
    }
}

/// A walk whose first `i` steps pass stored non-root entries that name a
/// parent, and whose `i`-th inode reaches the root in `g` steps, reaches the
/// root in `i + g` steps.
proof fn lemma_walk_join(t: InodeTables, x: u64, i: nat, g: nat)
    requires
        forall|k: nat| k < i ==> #[trigger] ancestor(t, x, k) != ROOT_INODE
            && t.entries.contains_key(ancestor(t, x, k)) && t.entries[ancestor(t, x, k)].parent_inode != 0,
        reaches_root(t, ancestor(t, x, i), g),
    ensures
        reaches_root(t, x, i + g),
    decreases i,
{
    if i > 0 {
        let p = t.entries[x].parent_inode;
        assert(ancestor(t, x, 0) != ROOT_INODE);
        assert forall|k: nat| k < i - 1 implies #[trigger] ancestor(t, p, k) != ROOT_INODE
            && t.entries.contains_key(ancestor(t, p, k)) && t.entries[ancestor(t, p, k)].parent_inode != 0 by {
            assert(ancestor(t, x, k + 1) == ancestor(t, p, k));
        }
        assert(ancestor(t, x, i) == ancestor(t, p, (i - 1) as nat));
        lemma_walk_join(t, p, (i - 1) as nat, g);
        assert((i - 1) as nat + g + 1 == i + g);
    }
}

/// A walk that reaches the root does so within as many steps as there are
/// stored entries: a longer walk passes some inode twice and can skip the
/// loop between.
pub proof fn lemma_reaches_root_within_entries(t: InodeTables, x: u64, f: nat)
    requires
        t.entries.dom().finite(),
        reaches_root(t, x, f),
    ensures
        reaches_root(t, x, t.entries.dom().len()),
    decreases f,
{
    let n = t.entries.dom().len();
    if f <= n {
        lemma_reaches_root_more_fuel(t, x, f, n);
    } else {
        let i = lemma_first_root(t, x, f);
        if i < f {
            lemma_reaches_root_more_fuel(t, x, i, (f - 1) as nat);
        } else {
            lemma_walk_prefix(t, x, f, f);
            let a = Seq::new(f, |k: int| ancestor(t, x, k as nat));
            let others = t.entries.dom().remove(ROOT_INODE);
            assert(reaches_root(t, ancestor(t, x, f), 0));
            assert(t.entries.contains_key(ROOT_INODE));
            assert(others.len() == n - 1);
            assert(a.to_set().subset_of(others)) by {
                assert forall|y: u64| a.to_set().contains(y) implies others.contains(y) by {
                    let k = choose|k: int| 0 <= k < a.len() && a[k] == y;
                    assert(ancestor(t, x, k as nat) != ROOT_INODE);
                    assert(t.entries.contains_key(ancestor(t, x, k as nat)));
                }
            }
            vstd::set_lib::lemma_len_subset(a.to_set(), others);
            if a.no_duplicates() {
                a.unique_seq_to_set();
                assert(false);
            }
            let (i1, j1) = choose|i1: int, j1: int| 0 <= i1 < a.len() && 0 <= j1 < a.len() && i1 != j1 && a[i1] == a[j1];
            let (lo, hi) = if i1 < j1 { (i1 as nat, j1 as nat) } else { (j1 as nat, i1 as nat) };
            assert(ancestor(t, x, lo) == ancestor(t, x, hi)) by {
                assert(a[lo as int] == ancestor(t, x, lo));
                assert(a[hi as int] == ancestor(t, x, hi));
            }
            lemma_walk_prefix(t, x, f, hi);
            lemma_walk_prefix(t, x, f, lo);
            lemma_walk_join(t, x, lo, (f - hi) as nat);
            lemma_reaches_root_more_fuel(t, x, lo + (f - hi) as nat, (f - 1) as nat);
        }
        lemma_reaches_root_within_entries(t, x, (f - 1) as nat);
    }
}

/// Finding a resolved path gives its inode back: when the index is
/// consistent with the entries, the walk up from `x` reaches the root (in
/// any number of steps), and the path text of `x` reads as the root and
/// the names on that walk (which `resolve_path` gives for plain names),
/// finding that text's components leads to the same inode.
pub proof fn law_find_inverts_resolve_path(t: InodeTables, x: u64, steps: nat, p: Seq<char>)
    requires
        t.entries.dom().finite(),
        filed_by_number(t),
        index_consistent(t),
        reaches_root(t, x, steps),
        rooted_names(std_path_components(p), t.walk_up(x, t.entries.dom().len()).unwrap()),
    ensures
        t.walk_up(x, t.entries.dom().len()) is Some,
        t.find(std_path_components(p)) == t.entries.get(x),
{
    let fuel = t.entries.dom().len();
    lemma_reaches_root_within_entries(t, x, steps);
    lemma_reaching_walk_is_indexed(t, x, fuel);
    let names = t.walk_up(x, fuel).unwrap();
    let cs = std_path_components(p);
    let comps = cs.skip(1);
    assert forall|i: int| 0 <= i < comps.len() implies #[trigger] comps[i] is Normal by {
        assert(comps[i] == cs[i + 1]);
    }
    assert forall|i: int| 0 <= i < comps.len() implies #[trigger] component_names(comps)[i] == names[i] by {
        assert(comps[i] == cs[i + 1]);
    }
    assert(component_names(comps) =~= names);
    assert(cs[0] == PathComponent::RootDir);
    assert(cs =~= seq![PathComponent::RootDir] + comps);
    law_find_inverts_walk_up(t, x, fuel, comps);
}

} // verus!
