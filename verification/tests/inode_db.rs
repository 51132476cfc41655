use cloudreve_sync::platform::linux::inode::{InodeCacheState, InodeDb, InodeEntry, InodeRow, ROOT_INODE};

fn entry(inode: u64, parent: u64, name: &str, is_dir: bool) -> InodeEntry {
    InodeEntry {
        inode,
        parent_inode: parent,
        name: name.to_string(),
        is_directory: is_dir,
        size: 0,
        etag: String::new(),
        created_at: 100,
        modified_at: 100,
        accessed_at: 100,
        cache_state: InodeCacheState::NotCached,
        pinned: false,
        has_error: false,
        populated: false,
    }
}

fn tree() -> InodeDb {
    let mut db = InodeDb::new("drive-1".to_string());
    db.insert(entry(ROOT_INODE, 0, "", true));
    db.insert(entry(2, ROOT_INODE, "docs", true));
    db.insert(entry(3, 2, "report.txt", false));
    db.insert(entry(4, 2, "sub", true));
    db.insert(entry(5, 4, "deep.txt", false));
    db.insert(entry(6, ROOT_INODE, "top.txt", false));
    db
}

#[test]
fn cache_state_names_round_trip() {
    for s in [InodeCacheState::NotCached, InodeCacheState::Cached, InodeCacheState::Dirty] {
        assert_eq!(InodeCacheState::from_str(s.as_str()), s);
    }
    assert_eq!(InodeCacheState::Cached.as_str(), "cached");
    assert_eq!(InodeCacheState::Dirty.as_str(), "dirty");
    assert_eq!(InodeCacheState::NotCached.as_str(), "not_cached");
    assert_eq!(InodeCacheState::from_str("bogus"), InodeCacheState::NotCached);
}

#[test]
fn new_table_is_empty_and_numbers_after_root() {
    let mut db = InodeDb::new("d".to_string());
    assert_eq!(db.drive_id(), "d");
    assert!(db.get(ROOT_INODE).is_none());
    assert_eq!(db.alloc_inode(), 2);
    assert_eq!(db.alloc_inode(), 3);
}

#[test]
fn lookup_after_insert_finds_the_child() {
    let db = tree();
    let found = db.lookup_child(2, "report.txt").expect("child filed");
    assert_eq!(found.inode, 3);
    assert!(db.lookup_child(2, "missing").is_none());
    assert!(db.lookup_child(ROOT_INODE, "report.txt").is_none());
}

#[test]
fn list_children_lists_exactly_the_children() {
    let db = tree();
    let mut kids: Vec<u64> = db.list_children(2).iter().map(|e| e.inode).collect();
    kids.sort();
    assert_eq!(kids, vec![3, 4]);
    assert!(db.list_children(3).is_empty());
}

#[test]
fn resolve_path_walks_to_the_root() {
    let db = tree();
    assert_eq!(db.resolve_path(ROOT_INODE).as_deref(), Some("/"));
    assert_eq!(db.resolve_path(5).as_deref(), Some("/docs/sub/deep.txt"));
    assert_eq!(db.resolve_path(6).as_deref(), Some("/top.txt"));
    assert_eq!(db.resolve_path(42), None);
}

#[test]
fn resolve_path_ends_on_a_parent_cycle() {
    let mut db = InodeDb::new("d".to_string());
    db.insert(entry(7, 8, "a", true));
    db.insert(entry(8, 7, "b", true));
    assert_eq!(db.resolve_path(7), None);
}

#[test]
fn find_by_path_inverts_resolve_path() {
    let db = tree();
    for ino in [2u64, 3, 4, 5, 6] {
        let path = db.resolve_path(ino).expect("resolvable");
        assert_eq!(db.find_by_path(&path).map(|e| e.inode), Some(ino));
    }
    assert_eq!(db.find_by_path("/").map(|e| e.inode), Some(ROOT_INODE));
    assert!(db.find_by_path("/docs/nothing").is_none());
    assert!(db.find_by_path("/docs/../top.txt").is_none());
}

#[test]
fn update_replaces_the_entry() {
    let mut db = tree();
    let mut e = db.get(3).unwrap();
    e.size = 1234;
    e.etag = "etag-2".to_string();
    db.update(&e);
    let got = db.get(3).unwrap();
    assert_eq!(got.size, 1234);
    assert_eq!(got.etag, "etag-2");
}

#[test]
fn setters_change_one_field() {
    let mut db = tree();
    db.set_cache_state(3, InodeCacheState::Dirty);
    db.set_error(3, true);
    db.set_populated(2, true);
    db.touch_accessed_at(3, 555);
    let e = db.get(3).unwrap();
    assert_eq!(e.cache_state, InodeCacheState::Dirty);
    assert!(e.has_error);
    assert_eq!(e.accessed_at, 555);
    assert!(db.get(2).unwrap().populated);
    db.set_error(99, true);
    assert!(db.get(99).is_none());
}

#[test]
fn delete_removes_the_whole_subtree() {
    let mut db = tree();
    db.delete(2);
    for ino in [2u64, 3, 4, 5] {
        assert!(db.get(ino).is_none(), "inode {} should be gone", ino);
    }
    assert!(db.lookup_child(ROOT_INODE, "docs").is_none());
    assert!(db.lookup_child(4, "deep.txt").is_none());
    assert_eq!(db.get(6).map(|e| e.inode), Some(6));
    assert_eq!(db.get(ROOT_INODE).map(|e| e.inode), Some(ROOT_INODE));
}

#[test]
fn delete_all_clears_the_table() {
    let mut db = tree();
    db.delete_all();
    assert!(db.get(ROOT_INODE).is_none());
    assert!(db.lookup_child(2, "report.txt").is_none());
    assert!(db.list_children(ROOT_INODE).is_empty());
}

#[test]
fn rename_moves_the_name() {
    let mut db = tree();
    db.rename(3, ROOT_INODE, "moved.txt");
    assert!(db.lookup_child(2, "report.txt").is_none());
    assert_eq!(db.lookup_child(ROOT_INODE, "moved.txt").map(|e| e.inode), Some(3));
    assert_eq!(db.resolve_path(3).as_deref(), Some("/moved.txt"));
}

#[test]
fn insert_batch_files_every_entry() {
    let mut db = InodeDb::new("d".to_string());
    db.insert_batch(&[entry(ROOT_INODE, 0, "", true), entry(9, ROOT_INODE, "x", false), entry(10, ROOT_INODE, "y", false)]);
    assert_eq!(db.lookup_child(ROOT_INODE, "x").map(|e| e.inode), Some(9));
    assert_eq!(db.lookup_child(ROOT_INODE, "y").map(|e| e.inode), Some(10));
}

#[test]
fn dirty_before_lists_only_old_dirty_entries() {
    let mut db = tree();
    let mut a = db.get(3).unwrap();
    a.cache_state = InodeCacheState::Dirty;
    a.modified_at = 50;
    db.update(&a);
    let mut b = db.get(5).unwrap();
    b.cache_state = InodeCacheState::Dirty;
    b.modified_at = 500;
    db.update(&b);
    let listed: Vec<u64> = db.list_dirty_before(100).iter().map(|e| e.inode).collect();
    assert_eq!(listed, vec![3]);
    let mut both: Vec<u64> = db.list_dirty_before(1000).iter().map(|e| e.inode).collect();
    both.sort();
    assert_eq!(both, vec![3, 5]);
    assert_eq!(db.list_dirty_older_than(0).len(), 2);
    let mut by_age: Vec<u64> = db.list_dirty_older_than_at(400, 900).iter().map(|e| e.inode).collect();
    by_age.sort();
    assert_eq!(by_age, vec![3]);
    assert_eq!(db.list_dirty_older_than_at(0, 900).len(), 2);
}

#[test]
fn evictable_files_come_least_recently_accessed_first() {
    let mut db = tree();
    for (ino, at, pinned) in [(3u64, 30i64, false), (5, 10, false), (6, 20, false)] {
        let mut e = db.get(ino).unwrap();
        e.cache_state = InodeCacheState::Cached;
        e.accessed_at = at;
        e.pinned = pinned;
        db.update(&e);
    }
    let order: Vec<u64> = db.list_evictable().iter().map(|e| e.inode).collect();
    assert_eq!(order, vec![5, 6, 3]);
    db.update(&InodeEntry { pinned: true, ..db.get(6).unwrap() });
    let order: Vec<u64> = db.list_evictable().iter().map(|e| e.inode).collect();
    assert_eq!(order, vec![5, 3]);
}

#[test]
fn stored_rows_load_and_set_the_counter() {
    let row = |inode: i64, parent: i64, name: &str, state: &str| InodeRow {
        inode,
        parent_inode: parent,
        name: name.to_string(),
        is_directory: false,
        size: 7,
        etag: "e".to_string(),
        created_at: 1,
        modified_at: 2,
        accessed_at: 3,
        cache_state: state.to_string(),
        pinned: false,
        has_error: false,
        populated: false,
        drive_id: "d".to_string(),
    };
    let r = row(12, 1, "a", "dirty");
    let e = r.to_entry();
    assert_eq!(e.inode, 12);
    assert_eq!(e.cache_state, InodeCacheState::Dirty);
    let mut db = InodeDb::new("d".to_string());
    db.load_rows(vec![r, row(40, 1, "b", "cached"), row(3, 1, "c", "weird")]);
    assert_eq!(db.get(40).unwrap().cache_state, InodeCacheState::Cached);
    assert_eq!(db.get(3).unwrap().cache_state, InodeCacheState::NotCached);
    assert_eq!(db.lookup_child(1, "a").map(|e| e.inode), Some(12));
    assert_eq!(db.alloc_inode(), 41);
    assert_eq!(db.alloc_inode(), 42);
    let third = db.alloc_inode();
    assert_eq!(third, 43);
    assert!(db.get(third).is_none());
}

#[test]
fn rows_store_and_load_entries() {
    let mut e = entry(u64::MAX - 1, 3, "big", false);
    e.cache_state = InodeCacheState::Dirty;
    e.etag = "tag".to_string();
    let row = e.to_row("drive-9");
    assert_eq!(row.inode, (u64::MAX - 1) as i64);
    assert_eq!(row.cache_state, "dirty");
    assert_eq!(row.drive_id, "drive-9");
    let back = row.to_entry();
    assert_eq!(back.inode, e.inode);
    assert_eq!(back.parent_inode, 3);
    assert_eq!(back.name, "big");
    assert_eq!(back.etag, "tag");
    assert_eq!(back.cache_state, InodeCacheState::Dirty);
}

#[test]
fn the_table_reports_its_rows() {
    let db = tree();
    let row = db.row_of(5).expect("filed");
    assert_eq!(row.name, "deep.txt");
    assert_eq!(row.drive_id, "drive-1");
    assert!(db.row_of(77).is_none());
    let mut inodes: Vec<i64> = db.rows().iter().map(|r| r.inode).collect();
    inodes.sort();
    assert_eq!(inodes, vec![1, 2, 3, 4, 5, 6]);
}
