//! Properties of the cache layer: its file names, what eviction may take,
//! and how cache files follow renames.

use vstd::prelude::*;
use crate::paths::std_path_join;
use crate::platform::linux::cache_impl::{hex_char, hex_fixed};
use crate::platform::linux::inode::{InodeCacheState, InodeEntry, InodeTables, evictable_filter, lists_exactly};
use crate::platform::linux::inode_laws::{filed_by_number, law_lookup_after_rename};

verus! {

/// Sixteen to the power `k`.
pub open spec fn pow16(k: nat) -> nat
    decreases k,
{
    if k == 0 { 1 } else { 16 * pow16((k - 1) as nat) }
}

/// Different digits have different characters.
proof fn lemma_hex_char_injective(a: nat, b: nat)
    requires
        a < 16,
        b < 16,
        hex_char(a) == hex_char(b),
    ensures
        a == b,
{
    assert((hex_char(a) as int) == (if a < 10 { 48 + a } else { 87 + a }));
    assert((hex_char(b) as int) == (if b < 10 { 48 + b } else { 87 + b }));
}

/// Two numbers below `16^k` with the same `k` lowest hexadecimal digits are
/// equal.
proof fn lemma_hex_fixed_injective(a: nat, b: nat, k: nat)
    requires
        a < pow16(k),
        b < pow16(k),
        hex_fixed(a, k) == hex_fixed(b, k),
    ensures
        a == b,
    decreases k,
{
    if k > 0 {
        let p = pow16((k - 1) as nat);
        let ha = hex_fixed(a, k);
        let hb = hex_fixed(b, k);
        assert(ha.last() == hex_char(a % 16));
        assert(hb.last() == hex_char(b % 16));
        lemma_hex_char_injective(a % 16, b % 16);
        assert(ha.drop_last() =~= hex_fixed(a / 16, (k - 1) as nat));
        assert(hb.drop_last() =~= hex_fixed(b / 16, (k - 1) as nat));
        assert(a / 16 < p) by (nonlinear_arith)
            requires
                a < 16 * p,
        ;
        assert(b / 16 < p) by (nonlinear_arith)
            requires
                b < 16 * p,
        ;
        lemma_hex_fixed_injective(a / 16, b / 16, (k - 1) as nat);
    }
}

/// Different inodes never share a cache file: the 16-digit names of two
/// different 64-bit numbers differ.
pub proof fn law_cache_names_distinct(a: u64, b: u64)
    requires
        a != b,
    ensures
        hex_fixed(a as nat, 16) != hex_fixed(b as nat, 16),
{
    assert(pow16(16) == 0x1_0000_0000_0000_0000) by {
        reveal_with_fuel(pow16, 17);
    }
    if hex_fixed(a as nat, 16) == hex_fixed(b as nat, 16) {
        lemma_hex_fixed_injective(a as nat, b as nat, 16);
    }
}

/// Eviction never takes a dirty or a pinned file: whatever the evictable
/// listing holds is a clean cached file nobody pinned.
pub proof fn law_dirty_files_are_never_evicted(listed: Seq<InodeEntry>, entries: Map<u64, InodeEntry>)
    requires
        lists_exactly(listed, entries, evictable_filter()),
    ensures
        forall|i: int| #![trigger listed[i]] 0 <= i < listed.len() ==>
            listed[i].cache_state == InodeCacheState::Cached && listed[i].cache_state != InodeCacheState::Dirty
                && !listed[i].pinned,
{
    assert forall|i: int| #![trigger listed[i]] 0 <= i < listed.len() implies
        listed[i].cache_state == InodeCacheState::Cached && !listed[i].pinned by {
        assert(evictable_filter()(listed[i]));
    }
}

/// A cache file is named by inode, so it follows its file through a
/// rename: the entry found under the new name has the same cache file as
/// before.
pub proof fn law_cache_file_follows_rename(t: InodeTables, cache_dir: Seq<char>, inode: u64, new_parent: u64, new_name: String)
    requires
        filed_by_number(t),
        t.entries.contains_key(inode),
    ensures
        ({
            let moved = t.renamed(inode, new_parent, new_name@, new_name);
            &&& moved.lookup(new_parent, new_name@) is Some
            &&& std_path_join(cache_dir, hex_fixed(moved.lookup(new_parent, new_name@).unwrap().inode as nat, 16))
                == std_path_join(cache_dir, hex_fixed(inode as nat, 16))
        }),
{
    law_lookup_after_rename(t, inode, new_parent, new_name);
}

} // verus!
