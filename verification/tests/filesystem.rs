use cloudreve_sync::platform::linux::cache_impl::CacheManagerImpl;
use cloudreve_sync::platform::linux::filesystem::{CloudreveFS, FileKind, FsError, LookupStep, TimeSetting, inode_to_attr};
use cloudreve_sync::platform::linux::handle::HandleTable;
use cloudreve_sync::platform::linux::inode::{InodeCacheState, InodeDb, InodeEntry, ROOT_INODE};

fn node(inode: u64, parent: u64, name: &str, is_dir: bool, size: i64) -> InodeEntry {
    InodeEntry {
        inode,
        parent_inode: parent,
        name: name.to_string(),
        is_directory: is_dir,
        size,
        etag: "e".to_string(),
        created_at: 5,
        modified_at: 6,
        accessed_at: 7,
        cache_state: InodeCacheState::NotCached,
        pinned: false,
        has_error: false,
        populated: false,
    }
}

fn mount() -> (CloudreveFS, InodeDb) {
    let fs = CloudreveFS::new("drive".to_string(), "/home/u/Cloud".to_string());
    let mut db = InodeDb::new("drive".to_string());
    db.insert(InodeEntry { populated: true, ..node(ROOT_INODE, ROOT_INODE, "", true, 0) });
    db.insert(node(2, ROOT_INODE, "docs", true, 0));
    db.insert(node(3, 2, "a.txt", false, 1000));
    db.insert(InodeEntry { populated: true, ..node(4, ROOT_INODE, "empty", true, 0) });
    let _ = db.alloc_inode();
    let _ = db.alloc_inode();
    let _ = db.alloc_inode();
    (fs, db)
}

#[test]
fn attributes_round_blocks_up() {
    let a = inode_to_attr(&node(3, 2, "a", false, 1000));
    assert_eq!(a.ino, 3);
    assert_eq!(a.size, 1000);
    assert_eq!(a.blocks, 2);
    assert_eq!(a.perm, 0o644);
    assert_eq!(a.nlink, 1);
    assert_eq!(a.kind, FileKind::RegularFile);
    assert_eq!(a.blksize, 512);
    assert_eq!((a.atime_secs, a.mtime_secs, a.ctime_secs, a.crtime_secs), (7, 6, 6, 5));
    let d = inode_to_attr(&node(2, 1, "d", true, 1024));
    assert_eq!(d.blocks, 2);
    assert_eq!(d.perm, 0o755);
    assert_eq!(d.nlink, 2);
    assert_eq!(d.kind, FileKind::Directory);
    assert_eq!(inode_to_attr(&node(9, 1, "z", false, 0)).blocks, 0);
    assert_eq!(inode_to_attr(&node(9, 1, "z", false, 513)).blocks, 2);
}

#[test]
fn lookup_finds_fetches_or_misses() {
    let (fs, db) = mount();
    match fs.lookup(&db, 2, Some("a.txt")) {
        LookupStep::Found(attr) => assert_eq!(attr.ino, 3),
        _ => panic!("expected the file"),
    }
    match fs.lookup(&db, 2, Some("b.txt")) {
        LookupStep::FetchFirst(path) => assert_eq!(path, "/home/u/Cloud/docs"),
        _ => panic!("expected a fetch of the unpopulated directory"),
    }
    assert!(matches!(fs.lookup(&db, 4, Some("b.txt")), LookupStep::Missing));
    assert!(matches!(fs.lookup(&db, 2, None), LookupStep::Missing));
    assert_eq!(fs.lookup_populated(&db, 2, "a.txt").unwrap().ino, 3);
    assert_eq!(fs.lookup_populated(&db, 2, "b.txt").unwrap_err(), FsError::NotFound);
    assert_eq!(fs.getattr(&db, 3).unwrap().size, 1000);
    assert_eq!(fs.getattr(&db, 99).unwrap_err(), FsError::NotFound);
    assert!(fs.access(&db, 3).is_ok());
    assert_eq!(fs.access(&db, 99).unwrap_err(), FsError::NotFound);
}

#[test]
fn local_paths_sit_under_the_sync_root() {
    let (fs, db) = mount();
    assert_eq!(fs.resolve_local_path(&db, 3).as_deref(), Some("/home/u/Cloud/docs/a.txt"));
    assert_eq!(fs.resolve_local_path(&db, ROOT_INODE).as_deref(), Some("/home/u/Cloud/"));
    assert_eq!(fs.resolve_local_path(&db, 77), None);
}

#[test]
fn setattr_changes_size_and_times() {
    let (fs, mut db) = mount();
    let cache = CacheManagerImpl::new("/cache".to_string(), 1 << 20, 0);
    let (attr, truncate) = fs.setattr_at(&mut db, &cache, 3, Some(10), Some(TimeSetting::At(111)), Some(TimeSetting::Now), 222).unwrap();
    assert_eq!(attr.size, 10);
    assert_eq!(attr.atime_secs, 111);
    assert_eq!(attr.mtime_secs, 222);
    assert_eq!(truncate, Some(("/cache/0000000000000003".to_string(), 10)));
    let e = db.get(3).unwrap();
    assert_eq!((e.size, e.accessed_at, e.modified_at), (10, 111, 222));
    let (_, none) = fs.setattr_at(&mut db, &cache, 3, None, None, None, 0).unwrap();
    assert_eq!(none, None);
    assert_eq!(fs.setattr_at(&mut db, &cache, 99, None, None, None, 0).unwrap_err(), FsError::NotFound);
}

#[test]
fn directory_listings_start_with_dot_entries() {
    let (fs, db) = mount();
    let (dir, fetch) = fs.readdir_start(&db, 2).unwrap();
    assert_eq!(fetch.as_deref(), Some("/home/u/Cloud/docs"));
    let lines = fs.readdir_lines(&db, &dir, 0);
    let names: Vec<(&str, u64, i64)> = lines.iter().map(|l| (l.name.as_str(), l.ino, l.next_offset)).collect();
    assert_eq!(names, vec![(".", 2, 1), ("..", ROOT_INODE, 2), ("a.txt", 3, 3)]);
    assert_eq!(lines[2].kind, FileKind::RegularFile);
    let rest = fs.readdir_lines(&db, &dir, 2);
    assert_eq!(rest.len(), 1);
    assert_eq!(rest[0].name, "a.txt");
    assert!(fs.readdir_lines(&db, &dir, 3).is_empty());
    let (_, fetch) = fs.readdir_start(&db, 4).unwrap();
    assert_eq!(fetch, None);
    assert_eq!(fs.readdir_start(&db, 3).unwrap_err(), FsError::NotDir);
    assert_eq!(fs.readdir_start(&db, 99).unwrap_err(), FsError::NotFound);
}

#[test]
fn handles_are_numbered_and_released() {
    let (mut fs, db) = mount();
    let fh = fs.open(&db, 3, 2).unwrap();
    assert_eq!(fh, 1);
    assert_eq!(fs.opendir(&db, 2, 0).unwrap(), 2);
    assert_eq!(fs.opendir(&db, 3, 0).unwrap_err(), FsError::NotDir);
    assert_eq!(fs.open(&db, 99, 0).unwrap_err(), FsError::NotFound);
    fs.release(fh);
    assert_eq!(fs.open(&db, 3, 0).unwrap(), 3);

    let mut table = HandleTable::new();
    let a = table.open(10, 0);
    let b = table.open(11, 1);
    assert_ne!(a, b);
    assert_eq!(table.get_inode(a), Some(10));
    assert!(table.is_open(11));
    assert_eq!(table.len(), 2);
    let closed = table.release(b).unwrap();
    assert_eq!((closed.inode, closed.flags), (11, 1));
    assert!(!table.is_open(11));
    assert_eq!(table.get_inode(b), None);
    assert!(table.release(b).is_none());
    assert_eq!(table.len(), 1);
}

#[test]
fn reads_of_uncached_files_are_planned() {
    let (fs, db) = mount();
    let cache = CacheManagerImpl::new("/cache".to_string(), 1 << 20, 0);
    let plan = fs.hydration_plan(&db, &cache, 3).unwrap();
    assert_eq!(plan.local_path, "/home/u/Cloud/docs/a.txt");
    assert_eq!(plan.cache_path, "/cache/0000000000000003");
    assert_eq!(plan.file_size, 1000);
    assert!(matches!(fs.hydration_plan(&db, &cache, 2), Err(FsError::IsDir)));
    assert!(matches!(fs.hydration_plan(&db, &cache, 99), Err(FsError::NotFound)));
}

#[test]
fn writes_make_files_dirty_and_grow_them() {
    let (fs, mut db) = mount();
    let e = fs.write_check(&db, 3).unwrap();
    fs.write_commit_at(&mut db, e, 900, 300, 4242);
    let w = db.get(3).unwrap();
    assert_eq!(w.size, 1200);
    assert_eq!(w.modified_at, 4242);
    assert_eq!(w.cache_state, InodeCacheState::Dirty);
    let e = fs.write_check(&db, 3).unwrap();
    fs.write_commit_at(&mut db, e, 0, 10, 4243);
    assert_eq!(db.get(3).unwrap().size, 1200);
    assert_eq!(fs.write_check(&db, 2).unwrap_err(), FsError::IsDir);
    assert_eq!(fs.write_check(&db, 99).unwrap_err(), FsError::NotFound);
}

#[test]
fn create_and_mkdir_file_new_inodes() {
    let (mut fs, mut db) = mount();
    let made = fs.create_at(&mut db, 2, Some("new.txt"), 0, 50).unwrap();
    assert_eq!(made.ino, 5);
    assert_eq!(made.fh, 1);
    assert_eq!(made.attr.size, 0);
    let e = db.lookup_child(2, "new.txt").unwrap();
    assert_eq!(e.cache_state, InodeCacheState::Dirty);
    assert_eq!(e.created_at, 50);
    assert!(matches!(fs.create_at(&mut db, 2, Some("new.txt"), 0, 51), Err(FsError::Exists)));
    assert!(matches!(fs.create_at(&mut db, 2, None, 0, 51), Err(FsError::Invalid)));

    let dir = fs.mkdir_at(&mut db, ROOT_INODE, Some("photos"), 60).unwrap();
    assert_eq!(dir.ino, 6);
    assert_eq!(dir.kind, FileKind::Directory);
    let d = db.lookup_child(ROOT_INODE, "photos").unwrap();
    assert!(d.populated);
    assert_eq!(fs.mkdir_at(&mut db, ROOT_INODE, Some("photos"), 61).unwrap_err(), FsError::Exists);
    assert_eq!(fs.mkdir_at(&mut db, ROOT_INODE, None, 61).unwrap_err(), FsError::Invalid);
}

#[test]
fn unlink_and_rmdir_check_kinds() {
    let (fs, mut db) = mount();
    assert!(matches!(fs.unlink(&mut db, ROOT_INODE, Some("docs")), Err(FsError::IsDir)));
    assert!(matches!(fs.rmdir(&mut db, ROOT_INODE, Some("docs")), Err(FsError::NotEmpty)));
    assert!(matches!(fs.rmdir(&mut db, 2, Some("a.txt")), Err(FsError::NotDir)));
    assert!(matches!(fs.unlink(&mut db, 2, Some("zzz")), Err(FsError::NotFound)));
    let removed = fs.unlink(&mut db, 2, Some("a.txt")).unwrap();
    assert_eq!(removed.ino, 3);
    assert_eq!(removed.local_path.as_deref(), Some("/home/u/Cloud/docs/a.txt"));
    assert!(db.get(3).is_none());
    let gone = fs.rmdir(&mut db, ROOT_INODE, Some("docs")).unwrap();
    assert_eq!(gone.as_deref(), Some("/home/u/Cloud/docs"));
    assert!(db.lookup_child(ROOT_INODE, "docs").is_none());
}

#[test]
fn rename_moves_and_replaces() {
    let (fs, mut db) = mount();
    let r = fs.rename(&mut db, 2, Some("a.txt"), 4, Some("b.txt")).unwrap();
    assert_eq!(r.replaced, None);
    assert_eq!(r.source.as_deref(), Some("/home/u/Cloud/docs/a.txt"));
    assert_eq!(r.destination.as_deref(), Some("/home/u/Cloud/empty/b.txt"));
    assert_eq!(db.lookup_child(4, "b.txt").map(|e| e.inode), Some(3));
    assert!(db.lookup_child(2, "a.txt").is_none());

    db.insert(node(8, 4, "c.txt", false, 1));
    let r = fs.rename(&mut db, 4, Some("b.txt"), 4, Some("c.txt")).unwrap();
    assert_eq!(r.replaced, Some(8));
    assert!(db.get(8).is_none());
    assert_eq!(db.lookup_child(4, "c.txt").map(|e| e.inode), Some(3));
    assert!(matches!(fs.rename(&mut db, 4, Some("nope"), 4, Some("x")), Err(FsError::NotFound)));
    assert!(matches!(fs.rename(&mut db, 4, None, 4, Some("x")), Err(FsError::Invalid)));
}

#[test]
fn reads_of_files_without_a_host_path_fail() {
    let (fs, mut db) = mount();
    db.insert(node(9, 77, "orphan.txt", false, 1));
    let cache = CacheManagerImpl::new("/cache".to_string(), 1 << 20, 0);
    assert!(matches!(fs.hydration_plan(&db, &cache, 9), Err(FsError::Io)));
}

#[test]
fn paths_resolve_and_find_back_after_requests() {
    let (mut fs, mut db) = mount();
    let made = fs.create_at(&mut db, 2, Some("n.txt"), 0, 50).unwrap();
    let dir = fs.mkdir_at(&mut db, 4, Some("sub"), 60).unwrap();
    db.insert(node(9, 4, "old.txt", false, 1));
    fs.rename(&mut db, 2, Some("n.txt"), dir.ino, Some("moved.txt")).unwrap();
    fs.rename(&mut db, 2, Some("a.txt"), 4, Some("old.txt")).unwrap();
    for ino in [ROOT_INODE, 2, 3, 4, made.ino, dir.ino] {
        let path = db.resolve_path(ino).expect("resolvable");
        assert_eq!(db.find_by_path(&path).map(|e| e.inode), Some(ino), "{}", path);
    }
    assert_eq!(db.resolve_path(made.ino).as_deref(), Some("/empty/sub/moved.txt"));
    assert_eq!(db.resolve_path(3).as_deref(), Some("/empty/old.txt"));
    assert!(db.get(9).is_none());
}
