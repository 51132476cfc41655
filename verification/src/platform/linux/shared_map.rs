//! Trusted interface to `dashmap::DashMap`, the concurrent hash map that
//! backs the inode hot cache.
//!
//! Each map instance used by the library gets a name for its contents and a
//! small wrapper per method.  The wrappers take `&mut` whenever the contents
//! change: DashMap mutates through `&self`, which the model cannot see.

use dashmap::DashMap;
use vstd::prelude::*;
use crate::platform::linux::inode::InodeEntry;
use crate::platform::linux::handle::OpenFile;

verus! {

#[verifier::external_type_specification]
#[verifier::external_body]
#[verifier::reject_recursive_types(K)]
#[verifier::reject_recursive_types(V)]
#[verifier::reject_recursive_types(S)]
pub struct ExDashMap<K, V, S>(DashMap<K, V, S>);

/// What an inode-keyed entry table holds.
pub uninterp spec fn entry_table(m: DashMap<u64, InodeEntry>) -> Map<u64, InodeEntry>;

/// `DashMap::new`: the new map is empty.
#[verifier::external_body]
pub(crate) fn entry_table_new() -> (r: DashMap<u64, InodeEntry>)
    ensures
        entry_table(r) =~= Map::empty(),
{
    DashMap::new()
}

/// `DashMap::get`, with the found value cloned out of the guard.
#[verifier::external_body]
pub(crate) fn entry_table_get(m: &DashMap<u64, InodeEntry>, k: u64) -> (r: Option<InodeEntry>)
    ensures
        r == entry_table(*m).get(k),
{
    match m.get(&k) {
        Some(guard) => Some(guard.value().clone()),
        None => None,
    }
}

/// `DashMap::insert`: afterwards the key maps to the value.
#[verifier::external_body]
pub(crate) fn entry_table_insert(m: &mut DashMap<u64, InodeEntry>, k: u64, v: InodeEntry)
    ensures
        entry_table(*final(m)) == entry_table(*old(m)).insert(k, v),
{
    m.insert(k, v);
}


/// What a (parent inode, name)-keyed child index holds; names by their characters.
pub uninterp spec fn child_table(m: DashMap<(u64, String), u64>) -> Map<(u64, Seq<char>), u64>;

/// `DashMap::new`: the new map is empty.
#[verifier::external_body]
pub(crate) fn child_table_new() -> (r: DashMap<(u64, String), u64>)
    ensures
        child_table(r) =~= Map::empty(),
{
    DashMap::new()
}

/// `DashMap::get` with the key `(parent, name)`.
#[verifier::external_body]
pub(crate) fn child_table_get(m: &DashMap<(u64, String), u64>, parent: u64, name: &str) -> (r: Option<u64>)
    ensures
        r == child_table(*m).get((parent, name@)),
{
    match m.get(&(parent, name.to_string())) {
        Some(guard) => Some(*guard.value()),
        None => None,
    }
}

/// `DashMap::insert`: afterwards `(parent, name)` maps to the value.
#[verifier::external_body]
pub(crate) fn child_table_insert(m: &mut DashMap<(u64, String), u64>, parent: u64, name: String, v: u64)
    ensures
        child_table(*final(m)) == child_table(*old(m)).insert((parent, name@), v),
{
    m.insert((parent, name), v);
}

/// `DashMap::remove` of the key `(parent, name)`.
#[verifier::external_body]
pub(crate) fn child_table_remove(m: &mut DashMap<(u64, String), u64>, parent: u64, name: &str)
    ensures
        child_table(*final(m)) == child_table(*old(m)).remove((parent, name@)),
{
    m.remove(&(parent, name.to_string()));
}

/// `DashMap::remove`, returning the removed value.
#[verifier::external_body]
pub(crate) fn entry_table_remove(m: &mut DashMap<u64, InodeEntry>, k: u64) -> (r: Option<InodeEntry>)
    ensures
        r == entry_table(*old(m)).get(k),
        entry_table(*final(m)) == entry_table(*old(m)).remove(k),
{
    match m.remove(&k) {
        Some((_, v)) => Some(v),
        None => None,
    }
}

/// `DashMap::iter`, each key paired with a clone of its value.  Every
/// stored pair comes out exactly once, in no promised order.
#[verifier::external_body]
pub(crate) fn entry_table_snapshot(m: &DashMap<u64, InodeEntry>) -> (r: Vec<(u64, InodeEntry)>)
    ensures
        forall|i: int| 0 <= i < r.len() ==> entry_table(*m).contains_key(#[trigger] r[i].0),
        forall|i: int| 0 <= i < r.len() ==> entry_table(*m)[#[trigger] r[i].0] == r[i].1,
        forall|k: u64| #[trigger] entry_table(*m).contains_key(k) ==> exists|i: int| 0 <= i < r.len() && r[i].0 == k,
        forall|i: int, j: int| 0 <= i < j < r.len() ==> r[i].0 != r[j].0,
{
    m.iter().map(|guard| (*guard.key(), guard.value().clone())).collect()
}

/// `DashMap::len`.
#[verifier::external_body]
pub(crate) fn entry_table_len(m: &DashMap<u64, InodeEntry>) -> (r: usize)
    ensures
        r == entry_table(*m).len(),
{
    m.len()
}


/// What a handle table holds.
pub uninterp spec fn handle_table(m: DashMap<u64, OpenFile>) -> Map<u64, OpenFile>;

/// `DashMap::new`: the new map is empty.
#[verifier::external_body]
pub(crate) fn handle_table_new() -> (r: DashMap<u64, OpenFile>)
    ensures
        handle_table(r) =~= Map::empty(),
{
    DashMap::new()
}

/// `DashMap::insert`: afterwards the key maps to the value.
#[verifier::external_body]
pub(crate) fn handle_table_insert(m: &mut DashMap<u64, OpenFile>, k: u64, v: OpenFile)
    ensures
        handle_table(*final(m)) == handle_table(*old(m)).insert(k, v),
{
    m.insert(k, v);
}

/// `DashMap::get`, with the found value copied out of the guard.
#[verifier::external_body]
pub(crate) fn handle_table_get(m: &DashMap<u64, OpenFile>, k: u64) -> (r: Option<OpenFile>)
    ensures
        r == handle_table(*m).get(k),
{
    match m.get(&k) {
        Some(guard) => Some(*guard.value()),
        None => None,
    }
}

/// `DashMap::remove`, returning the removed value.
#[verifier::external_body]
pub(crate) fn handle_table_remove(m: &mut DashMap<u64, OpenFile>, k: u64) -> (r: Option<OpenFile>)
    ensures
        r == handle_table(*old(m)).get(k),
        handle_table(*final(m)) == handle_table(*old(m)).remove(k),
{
    match m.remove(&k) {
        Some((_, v)) => Some(v),
        None => None,
    }
}

/// `DashMap::iter`, each key paired with a copy of its value.  Every stored
/// pair comes out exactly once, in no promised order.
#[verifier::external_body]
pub(crate) fn handle_table_snapshot(m: &DashMap<u64, OpenFile>) -> (r: Vec<(u64, OpenFile)>)
    ensures
        forall|i: int| 0 <= i < r.len() ==> handle_table(*m).contains_key(#[trigger] r[i].0),
        forall|i: int| 0 <= i < r.len() ==> handle_table(*m)[#[trigger] r[i].0] == r[i].1,
        forall|k: u64| #[trigger] handle_table(*m).contains_key(k) ==> exists|i: int| 0 <= i < r.len() && r[i].0 == k,
        forall|i: int, j: int| 0 <= i < j < r.len() ==> r[i].0 != r[j].0,
{
    m.iter().map(|guard| (*guard.key(), *guard.value())).collect()
}

/// `DashMap::len`.
#[verifier::external_body]
pub(crate) fn handle_table_len(m: &DashMap<u64, OpenFile>) -> (r: usize)
    ensures
        r == handle_table(*m).len(),
{
    m.len()
}

} // verus!
