use cloudreve_sync::platform::cache::{CacheEntryState, CacheManager};
use cloudreve_sync::platform::error::PlatformError;
use cloudreve_sync::platform::linux::cache_impl::{CacheManagerImpl, cache_file_name};
use cloudreve_sync::platform::linux::inode::{InodeCacheState, InodeDb, InodeEntry, ROOT_INODE};
use cloudreve_sync::platform::linux::provider::{DEFAULT_MAX_CACHE_SIZE, LinuxFuseProvider, ensure_root_inode_at};
use cloudreve_sync::platform::provider::UpdateOptions;
use cloudreve_sync::platform::types::{FileMetadataPlatform, PlaceholderEntry};

fn failed_message(e: PlatformError) -> String {
    match e {
        PlatformError::Failed(m) => m,
        other => panic!("unexpected error {:?}", other),
    }
}

fn file(inode: u64, parent: u64, name: &str, size: i64) -> InodeEntry {
    InodeEntry {
        inode,
        parent_inode: parent,
        name: name.to_string(),
        is_directory: false,
        size,
        etag: "e0".to_string(),
        created_at: 1,
        modified_at: 2,
        accessed_at: 3,
        cache_state: InodeCacheState::NotCached,
        pinned: false,
        has_error: false,
        populated: false,
    }
}

fn rooted() -> InodeDb {
    let mut db = InodeDb::new("drive".to_string());
    ensure_root_inode_at(&mut db, 77);
    db
}

fn placeholder(name: &str, is_dir: bool, size: u64, etag: &str) -> PlaceholderEntry {
    PlaceholderEntry {
        relative_name: name.to_string(),
        metadata: FileMetadataPlatform { is_directory: is_dir, size, created_at: 10, modified_at: 20 },
        etag: etag.to_string(),
        mark_in_sync: true,
    }
}

fn started() -> LinuxFuseProvider {
    let mut p = LinuxFuseProvider::new();
    p.finish_start("drive".to_string(), "/sync".to_string());
    p
}

#[test]
fn cache_file_names_are_sixteen_hex_digits() {
    assert_eq!(cache_file_name(0), "0000000000000000");
    assert_eq!(cache_file_name(255), "00000000000000ff");
    assert_eq!(cache_file_name(0x1234_abcd), "000000001234abcd");
    assert_eq!(cache_file_name(u64::MAX), "ffffffffffffffff");
}

#[test]
fn cache_paths_are_flat_by_inode() {
    let cache = CacheManagerImpl::new("/cache".to_string(), 100, 0);
    assert_eq!(cache.cache_path_for_inode(26), "/cache/000000000000001a");
    let mut db = rooted();
    db.insert(file(26, ROOT_INODE, "a.txt", 10));
    assert_eq!(cache.cache_path(&db, "/a.txt"), "/cache/000000000000001a");
    assert_eq!(cache.cache_path(&db, "/none"), "/cache/__missing__");
    assert_eq!(cache.allocate(&db, "/a.txt").unwrap(), "/cache/000000000000001a");
    assert_eq!(failed_message(cache.allocate(&db, "/none").unwrap_err()), "inode not found");
    assert!(cache.readable_cache_path(&db, 26).is_none());
    cache.mark_inode_cached(&mut db, 26);
    assert_eq!(cache.readable_cache_path(&db, 26).as_deref(), Some("/cache/000000000000001a"));
}

#[test]
fn cache_states_follow_the_marks() {
    let cache = CacheManagerImpl::new("/cache".to_string(), 100, 0);
    let mut db = rooted();
    db.insert(file(5, ROOT_INODE, "f", 42));
    assert!(matches!(cache.get_state(&db, "/f"), CacheEntryState::NotCached));
    cache.mark_cached(&mut db, "/f", 0..42).unwrap();
    assert!(matches!(cache.get_state(&db, "/f"), CacheEntryState::FullyCached));
    cache.mark_dirty(&mut db, "/f", 0..1).unwrap();
    match cache.get_state(&db, "/f") {
        CacheEntryState::Dirty { ranges } => assert_eq!(ranges, vec![0..42]),
        other => panic!("expected dirty, got {:?}", other),
    }
    let dirty = cache.list_dirty(&db);
    assert_eq!(dirty.len(), 1);
    assert_eq!(dirty[0].0, "/f");
    assert_eq!(dirty[0].1, vec![0..42]);
    cache.mark_clean(&mut db, "/f").unwrap();
    assert_eq!(db.get(5).unwrap().cache_state, InodeCacheState::Cached);
    assert_eq!(failed_message(cache.mark_dirty(&mut db, "/g", 0..1).unwrap_err()), "inode not found");
    assert_eq!(cache.evict(&db, "/f").unwrap(), 5);
    assert!(matches!(cache.get_state(&db, "/none"), CacheEntryState::NotCached));
}

#[test]
fn cache_size_accounting() {
    let mut cache = CacheManagerImpl::new("/c".to_string(), 1000, 100);
    assert_eq!(cache.current_size(), 100);
    assert_eq!(cache.max_size_bytes(), 1000);
    cache.note_written(50);
    cache.note_allocated(25);
    assert_eq!(cache.current_size(), 175);
    let mut db = rooted();
    db.insert(file(9, ROOT_INODE, "x", 25));
    cache.mark_inode_dirty(&mut db, 9);
    cache.evict_inode(&mut db, 9, 25);
    assert_eq!(cache.current_size(), 150);
    assert_eq!(db.get(9).unwrap().cache_state, InodeCacheState::NotCached);
    cache.recalculate_size(7);
    assert_eq!(cache.current_size(), 7);
    assert_eq!(DEFAULT_MAX_CACHE_SIZE, 10 * 1024 * 1024 * 1024);
}

#[test]
fn root_inode_is_made_once() {
    let mut db = rooted();
    let root = db.get(ROOT_INODE).unwrap();
    assert!(root.is_directory);
    assert!(!root.populated);
    assert_eq!(root.parent_inode, ROOT_INODE);
    assert_eq!(root.created_at, 77);
    ensure_root_inode_at(&mut db, 99);
    assert_eq!(db.get(ROOT_INODE).unwrap().created_at, 77);
}

#[test]
fn provider_refuses_work_before_start() {
    let p = LinuxFuseProvider::new();
    let mut db = rooted();
    assert!(p.provider_id().is_none());
    let err = p.create_placeholders(&mut db, "/sync", &[placeholder("a", false, 1, "e")]).unwrap_err();
    assert_eq!(failed_message(err), "not started");
    let err = p.delete_placeholder(&mut db, "/sync/a").unwrap_err();
    assert_eq!(failed_message(err), "not started");
    assert!(!p.get_file_state(&db, "/sync").exists);
}

#[test]
fn placeholders_become_inodes() {
    let p = started();
    assert_eq!(p.provider_id(), Some("drive"));
    let mut db = rooted();
    p.create_placeholders(&mut db, "/sync", &[placeholder("docs", true, 0, "d1"), placeholder("a.txt", false, 12, "e1")]).unwrap();
    let docs = db.lookup_child(ROOT_INODE, "docs").unwrap();
    let a = db.lookup_child(ROOT_INODE, "a.txt").unwrap();
    assert_eq!(docs.inode, 2);
    assert_eq!(a.inode, 3);
    assert_eq!(a.size, 12);
    assert_eq!(a.etag, "e1");
    assert_eq!(a.cache_state, InodeCacheState::NotCached);
    assert!(db.get(ROOT_INODE).unwrap().populated);

    p.create_placeholder(&mut db, "/sync/docs", &placeholder("inner.txt", false, 3, "e2")).unwrap();
    assert_eq!(db.lookup_child(docs.inode, "inner.txt").unwrap().inode, 4);
    // An existing name is left as it is.
    p.create_placeholders(&mut db, "/sync", &[placeholder("a.txt", false, 99, "other")]).unwrap();
    assert_eq!(db.lookup_child(ROOT_INODE, "a.txt").unwrap().size, 12);
    let err = p.create_placeholders(&mut db, "/sync/nowhere", &[placeholder("b", false, 1, "e")]).unwrap_err();
    assert_eq!(failed_message(err), "parent inode not found");

    let state = p.get_file_state(&db, "/sync/a.txt");
    assert!(state.exists && state.is_placeholder && !state.is_hydrated && !state.in_sync);
    assert_eq!(state.size, Some(12));
}

#[test]
fn update_convert_and_delete_placeholders() {
    let p = started();
    let mut db = rooted();
    p.create_placeholders(&mut db, "/sync", &[placeholder("a.txt", false, 12, "e1")]).unwrap();
    let meta = FileMetadataPlatform { is_directory: false, size: 30, created_at: 10, modified_at: 40 };
    let evict = p.update_placeholder(&mut db, "/sync/a.txt", &meta, "e2", UpdateOptions { dehydrate: true, mark_no_children: false }).unwrap();
    assert_eq!(evict, Some(2));
    let a = db.get(2).unwrap();
    assert_eq!((a.size, a.modified_at, a.etag.as_str()), (30, 40, "e2"));
    let err = p.update_placeholder(&mut db, "/elsewhere/a.txt", &meta, "e3", UpdateOptions::default()).unwrap_err();
    assert_eq!(failed_message(err), "path not under sync root");
    let err = p.update_placeholder(&mut db, "/sync/b.txt", &meta, "e3", UpdateOptions::default()).unwrap_err();
    assert_eq!(failed_message(err), "inode not found");

    p.convert_to_placeholder(&mut db, "/sync/a.txt", "e9", false).unwrap();
    assert_eq!(db.get(2).unwrap().etag, "e9");
    p.convert_to_placeholder(&mut db, "/sync/new.txt", "n1", false).unwrap();
    let made = db.lookup_child(ROOT_INODE, "new.txt").unwrap();
    assert_eq!(made.cache_state, InodeCacheState::Cached);
    assert_eq!(made.etag, "n1");
    let err = p.convert_to_placeholder(&mut db, "/sync/no/dir.txt", "n1", false).unwrap_err();
    assert_eq!(failed_message(err), "parent inode not found");

    p.set_error_state(&mut db, "/sync/a.txt", true).unwrap();
    assert!(db.get(2).unwrap().has_error);
    assert_eq!(p.delete_placeholder(&mut db, "/sync/a.txt").unwrap(), Some(2));
    assert!(db.get(2).is_none());
    assert_eq!(p.delete_placeholder(&mut db, "/sync/a.txt").unwrap(), None);
    assert!(p.notify_change("/sync/a.txt").is_ok());
}

#[test]
fn cache_files_are_distinct_and_follow_renames() {
    assert_ne!(cache_file_name(1), cache_file_name(16));
    assert_ne!(cache_file_name(0x10), cache_file_name(0x100));
    let cache = CacheManagerImpl::new("/cache".to_string(), 100, 0);
    let mut db = rooted();
    db.insert(file(7, ROOT_INODE, "old.txt", 1));
    let before = cache.cache_path(&db, "/old.txt");
    db.rename(7, ROOT_INODE, "new.txt");
    assert_eq!(cache.cache_path(&db, "/new.txt"), before);
}

#[test]
fn dirty_and_pinned_files_are_not_evictable() {
    let mut db = rooted();
    let mut a = file(2, ROOT_INODE, "dirty", 1);
    a.cache_state = InodeCacheState::Dirty;
    let mut b = file(3, ROOT_INODE, "pinned", 1);
    b.cache_state = InodeCacheState::Cached;
    b.pinned = true;
    let mut c = file(4, ROOT_INODE, "clean", 1);
    c.cache_state = InodeCacheState::Cached;
    db.insert(a);
    db.insert(b);
    db.insert(c);
    let listed: Vec<u64> = db.list_evictable().iter().map(|e| e.inode).collect();
    assert_eq!(listed, vec![4]);
}
