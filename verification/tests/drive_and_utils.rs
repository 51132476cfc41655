use std::sync::Arc;

use sha2::Digest;

use cloudreve_sync::cfapi::placeholder::LocalFileInfo as CfLocalFileInfo;
use cloudreve_sync::drive::fuse::{
    BACKEND_DIR_PREFIX, InodeTable, MOUNT_MARKER_FILE, PassthroughFs, ROOT_INO, backend_root_for, is_backend_dir_name,
    RestoreAction, is_mount_marker, marker_path, mount_marker_path, restore_action, str_starts_with,
};
use cloudreve_sync::drive::placeholder::{CommitStep, LocalFileInfo, commit_step};
use cloudreve_sync::drive::utils::{recycle_bin_url, relative_path_from_remote, remote_path_to_local_relative_path, view_online_url};
use cloudreve_sync::platform::error::PlatformError;
use cloudreve_sync::platform::linux::filesystem::FileKind;
use cloudreve_sync::platform::linux::inode::{InodeCacheState, InodeDb, InodeEntry, ROOT_INODE};
use cloudreve_sync::platform::linux::workers::{EvictionRun, EvictionStep, upload_batch, upload_batch_at};
use cloudreve_sync::platform::provider::ProviderConfig;
use cloudreve_sync::cfapi::filter::ticket::FetchData;
use cloudreve_sync::platform::types::{FileMetadataPlatform, HydrationWriter, PlaceholderEntry};
use cloudreve_sync::platform::windows::{
    SyncRootId, WindowsHydrationWriter, WindowsSyncProvider, entry_to_cfapi_placeholder, local_file_info_to_state,
    metadata_to_cfapi, provider_name_for,
};
use cloudreve_sync::utils::app::{AppRoot, ThemeMode};
use cloudreve_sync::utils::toast::{APP_NAME, conflict_toast_body, notification_enabled};
use cloudreve_sync::win32_notif::{NotifError, ToastsNotifier};

#[test]
fn inode_table_numbers_paths_both_ways() {
    let mut t = InodeTable::new("/backend".to_string());
    assert_eq!(t.next_inode_number(), 2);
    assert_eq!(t.get_path(ROOT_INO).as_deref(), Some("/backend"));
    let a = t.get_or_insert("/backend/a".to_string());
    assert_eq!(a, 2);
    assert_eq!(t.get_or_insert("/backend/a".to_string()), 2);
    assert_eq!(t.get_or_insert("/backend/b".to_string()), 3);
    assert_eq!(t.get_path(2).as_deref(), Some("/backend/a"));
    t.remove_path("/backend/a");
    assert_eq!(t.get_path(2), None);
    assert_eq!(t.get_or_insert("/backend/a".to_string()), 4);
}

#[test]
fn passthrough_fs_paths_handles_and_listing() {
    let mut fs: PassthroughFs<u32> = PassthroughFs::new("/b".to_string());
    assert_eq!(fs.next_inode_number(), 2);
    assert_eq!(fs.path_for_ino(ROOT_INO).as_deref(), Some("/b"));
    assert_eq!(fs.child_path(ROOT_INO, "x.txt").as_deref(), Some("/b/x.txt"));
    assert_eq!(fs.child_path(42, "x.txt"), None);
    let x = fs.ino_for_path("/b/x.txt".to_string());
    assert_eq!(x, 2);
    assert_eq!(fs.next_inode_number(), 3);
    assert_eq!(fs.ino_for_path("/b/x.txt".to_string()), 2);
    assert_eq!(fs.next_inode_number(), 3);
    fs.renamed("/b/x.txt", "/b/y.txt".to_string());
    assert_eq!(fs.path_for_ino(2), None);
    let y = fs.ino_for_path("/b/y.txt".to_string());
    assert_ne!(y, 2);
    fs.remove_path("/b/y.txt");
    assert_eq!(fs.path_for_ino(y), None);

    let fh = fs.open_handle(7);
    assert_eq!(fh, 1);
    assert_eq!(fs.file(fh), Some(&7));
    fs.release(fh);
    assert_eq!(fs.file(fh), None);

    let children = vec![
        ("/b/d".to_string(), FileKind::Directory, "d".to_string()),
        ("/b/f".to_string(), FileKind::RegularFile, "f".to_string()),
    ];
    let lines = fs.readdir_lines(ROOT_INO, children, 0);
    let got: Vec<(&str, i64)> = lines.iter().map(|l| (l.name.as_str(), l.next_offset)).collect();
    assert_eq!(got, vec![(".", 1), ("..", 2), ("d", 3), ("f", 4)]);
    assert_eq!(lines[2].ino, fs.ino_for_path("/b/d".to_string()));
}

#[test]
fn backend_and_marker_names() {
    assert_eq!(MOUNT_MARKER_FILE, ".cloudreve_fuse_active");
    assert_eq!(backend_root_for("/home/u/Cloud", "d1"), format!("/home/u/{}d1", BACKEND_DIR_PREFIX));
    assert_eq!(marker_path("/x"), "/x/.cloudreve_fuse_active");
    assert_eq!(mount_marker_path("/home/u/Cloud", "d1"), "/home/u/.cloudreve_fuse_backend_d1/.cloudreve_fuse_active");
    assert!(is_backend_dir_name(".cloudreve_fuse_backend_abc"));
    assert!(!is_backend_dir_name("notes.txt"));
    assert!(is_mount_marker(".cloudreve_fuse_active"));
    assert!(!is_mount_marker(".cloudreve_fuse_active2"));
    assert!(str_starts_with("abc", ""));
    assert!(!str_starts_with("ab", "abc"));
}

#[test]
fn linux_local_file_info_reads_metadata() {
    let f = LocalFileInfo::from_metadata(false, true, 10, None);
    assert!(f.exists && !f.is_directory());
    assert_eq!(f.file_size, Some(10));
    assert!(!f.is_placeholder() && !f.in_sync() && !f.partial_on_disk());
    let d = LocalFileInfo::from_metadata(true, false, 4096, None);
    assert_eq!(d.file_size, None);
    assert!(d.is_folder_populated());
    let m = LocalFileInfo::missing();
    assert!(!m.exists && !m.is_folder_populated());
}

#[test]
fn upload_batch_gives_host_paths_of_old_dirty_files() {
    let mut db = InodeDb::new("d".to_string());
    let mk = |inode: u64, parent: u64, name: &str, state: InodeCacheState, modified: i64| InodeEntry {
        inode,
        parent_inode: parent,
        name: name.to_string(),
        is_directory: false,
        size: 1,
        etag: String::new(),
        created_at: 0,
        modified_at: modified,
        accessed_at: 0,
        cache_state: state,
        pinned: false,
        has_error: false,
        populated: false,
    };
    db.insert(mk(ROOT_INODE, ROOT_INODE, "", InodeCacheState::NotCached, 0));
    db.insert(mk(2, ROOT_INODE, "old.txt", InodeCacheState::Dirty, 10));
    db.insert(mk(3, ROOT_INODE, "clean.txt", InodeCacheState::Cached, 10));
    db.insert(mk(4, ROOT_INODE, "fresh.txt", InodeCacheState::Dirty, i64::MAX));
    assert_eq!(upload_batch(&db, "/sync"), vec!["/sync/old.txt".to_string()]);
    db.insert(mk(5, ROOT_INODE, "young.txt", InodeCacheState::Dirty, 100));
    // At 102 the file modified at 100 is too young; at 104 it is old enough.
    assert_eq!(upload_batch_at(&db, "/sync", 102), vec!["/sync/old.txt".to_string()]);
    let mut at_104 = upload_batch_at(&db, "/sync", 104);
    at_104.sort();
    assert_eq!(at_104, vec!["/sync/old.txt".to_string(), "/sync/young.txt".to_string()]);
}

#[test]
fn eviction_runs_between_the_watermarks() {
    assert!(EvictionRun::start(90, 90, 70).is_none());
    let mut run = EvictionRun::start(100, 90, 70).expect("above the high watermark");
    assert_eq!(run.next_step(), EvictionStep::EvictNext);
    run.record_evicted(20);
    assert_eq!(run.next_step(), EvictionStep::EvictNext);
    run.record_evicted(10);
    assert_eq!(run.freed(), 30);
    // At the low watermark usage has not yet dropped below it.
    assert_eq!(run.next_step(), EvictionStep::EvictNext);
    run.record_evicted(1);
    assert_eq!(run.next_step(), EvictionStep::Stop);
    // Freeing more than was tracked stops the run too.
    let mut over = EvictionRun::start(100, 90, 0).unwrap();
    over.record_evicted(150);
    assert_eq!(over.next_step(), EvictionStep::Stop);
}

#[test]
fn image_paths_follow_the_theme() {
    let root = AppRoot(Arc::new("C:\\App".to_string()));
    assert_eq!(root.image_path_for(ThemeMode::Dark), "C:\\App\\Images\\darkTheme");
    assert_eq!(root.image_path_for(ThemeMode::Light), "C:\\App\\Images\\lightTheme");
    assert_eq!(root.image_path_for(ThemeMode::Unspecified), "C:\\App\\Images\\lightTheme");
    assert_eq!(root.image_path_general(), "C:\\App\\Images");
    let p = root.image_path();
    assert!(p == "C:\\App\\Images\\darkTheme" || p == "C:\\App\\Images\\lightTheme");
}

#[test]
fn notification_settings_and_bodies() {
    assert_eq!(APP_NAME, "Cloudreve.Sync");
    assert!(notification_enabled(None));
    assert!(notification_enabled(Some(true)));
    assert!(!notification_enabled(Some(false)));
    assert_eq!(conflict_toast_body("/sync/docs/report.txt"), "report.txt");
    assert_eq!(conflict_toast_body("/"), "Unknown file");
}

#[test]
fn toast_stubs_accept_everything() {
    assert_eq!(ToastsNotifier::new(APP_NAME), Ok(ToastsNotifier));
    assert_eq!(NotifError::UnsupportedPlatform.message(), "UnsupportedPlatform");
    assert_eq!(NotifError::DurationTooLong.message(), "DurationTooLong");
}

#[test]
fn platform_error_messages() {
    assert_eq!(PlatformError::NotSupported.message(), "operation not supported on this platform");
    assert_eq!(PlatformError::Failed("boom".to_string()).message(), "operation failed: boom");
    assert_eq!(PlatformError::Other(anyhow::Error::msg("inner")).message(), "inner");
}

#[test]
fn web_page_urls() {
    let url = view_online_url("cloudreve://my/docs", Some("a b.txt"), "https://cloud.example.com/ignored?x=1", "u1").unwrap();
    assert_eq!(
        url,
        "https://cloud.example.com/home?x=1&path=cloudreve%3A%2F%2Fmy%2Fdocs&open=a+b.txt&user_hint=u1"
    );
    let url = view_online_url("cloudreve://my", None, "https://cloud.example.com", "u1").unwrap();
    assert_eq!(url, "https://cloud.example.com/home?path=cloudreve%3A%2F%2Fmy&user_hint=u1");
    let bin = recycle_bin_url("http://host:5212", "u2").unwrap();
    assert_eq!(bin, "http://host:5212/home?user_hint=u2&path=cloudreve%3A%2F%2Ftrash");
    assert!(view_online_url("x", None, "not a url", "u").is_err());
    assert!(recycle_bin_url("", "u").is_err());
}

fn config(provider_id: &str, instance_url: &str) -> ProviderConfig {
    ProviderConfig {
        sync_path: "C:\\Users\\u\\Cloud".to_string(),
        display_name: "Cloud".to_string(),
        icon_path: None,
        provider_id: provider_id.to_string(),
        instance_url: instance_url.to_string(),
        user_id: "user-1".to_string(),
        remote_path: "cloudreve://my".to_string(),
        recycle_bin_uri: String::new(),
    }
}

#[test]
fn sync_root_ids_are_stored_or_derived() {
    let _ = WindowsSyncProvider::new();
    assert_eq!(
        WindowsSyncProvider::resolve_sync_root_id(&config("stored-id", "https://a.example")),
        Ok(SyncRootId::Stored("stored-id".to_string()))
    );
    let derived = WindowsSyncProvider::resolve_sync_root_id(&config("", "https://a.example/path")).unwrap();
    let name = provider_name_for("https://a.example/path", "C:\\Users\\u\\Cloud").unwrap();
    assert_eq!(derived, SyncRootId::New { provider_name: name.clone(), account_name: "user-1".to_string() });
    assert!(name.starts_with("cloudreve"));
    assert_eq!(name.len(), "cloudreve".len() + 16);
    assert!(name["cloudreve".len()..].chars().all(|c| c.is_ascii_hexdigit() && !c.is_ascii_uppercase()));
    // The digest covers the host only, not the rest of the URL.
    assert_eq!(provider_name_for("https://a.example/other?q", "C:\\Users\\u\\Cloud").unwrap(), name);
    assert_ne!(provider_name_for("https://b.example", "C:\\Users\\u\\Cloud").unwrap(), name);
    assert_ne!(provider_name_for("https://a.example", "D:\\Cloud").unwrap(), name);
    assert_eq!(provider_name_for("mailto:x@y", "p"), Err("Invalid URL: no host found".to_string()));
    assert!(WindowsSyncProvider::resolve_sync_root_id(&config("", "nope")).is_err());
}

#[test]
fn sync_root_provider_name_matches_a_known_digest() {
    // The host's bytes and then the sync path's bytes are digested.
    let name = provider_name_for("https://example.com", "/sync").unwrap();
    let expected = {
        let mut h = sha2::Sha256::new();
        h.update(b"example.com");
        h.update(b"/sync");
        let hex = format!("{:x}", h.finalize());
        format!("cloudreve{}", &hex[..16])
    };
    assert_eq!(name, expected);
}

#[test]
fn placeholder_info_reads_as_state() {
    let info = CfLocalFileInfo::from_metadata(false, true, 5, None);
    let s = local_file_info_to_state(&info);
    assert!(s.exists && !s.is_directory && !s.is_placeholder && s.is_hydrated);
    assert!(!s.in_sync && !s.is_pinned && !s.is_unpinned && !s.is_folder_populated);
    assert_eq!(s.size, Some(5));
    let d = local_file_info_to_state(&CfLocalFileInfo::from_metadata(true, false, 0, None));
    assert!(d.is_folder_populated);
}

fn meta(created_at: i64, modified_at: i64) -> FileMetadataPlatform {
    FileMetadataPlatform { is_directory: false, size: 3, created_at, modified_at }
}

fn failure_text(e: PlatformError) -> String {
    match e {
        PlatformError::Failed(m) => m,
        other => panic!("unexpected error {:?}", other),
    }
}

#[test]
fn placeholder_metadata_needs_file_time_range() {
    assert!(metadata_to_cfapi(&meta(0, 1_700_000_000)).is_ok());
    assert!(metadata_to_cfapi(&meta(-11_644_473_600, 1_833_029_933_770)).is_ok());
    assert_eq!(
        failure_text(metadata_to_cfapi(&meta(-11_644_473_601, 0)).unwrap_err()),
        "invalid created_at timestamp: file time is before `1601-01-01 00:00:00 UTC`"
    );
    assert_eq!(
        failure_text(metadata_to_cfapi(&meta(0, 1_833_029_933_771)).unwrap_err()),
        "invalid modified_at timestamp: file time is after `+60056-05-28 05:36:10.955161500 UTC`"
    );
    let entry = PlaceholderEntry {
        relative_name: "a.txt".to_string(),
        metadata: meta(1, 2),
        etag: "etag".to_string(),
        mark_in_sync: true,
    };
    assert!(entry_to_cfapi_placeholder(&entry).is_ok());
    let bad = PlaceholderEntry { metadata: meta(i64::MIN, 2), ..entry };
    assert!(entry_to_cfapi_placeholder(&bad).is_err());
}

#[test]
fn hydration_writes_reach_the_fetch_request() {
    let w = WindowsHydrationWriter(FetchData);
    assert!(w.write_at(b"data", 0).is_ok());
    assert!(w.report_progress(10, 4).is_ok());
}

#[test]
fn restoring_never_overwrites_and_keeps_the_marker() {
    assert_eq!(restore_action(".cloudreve_fuse_active", false), RestoreAction::KeepMarker);
    assert_eq!(restore_action("a.txt", true), RestoreAction::KeepConflict);
    assert_eq!(restore_action("a.txt", false), RestoreAction::Move);
}

#[test]
fn committing_metadata_creates_what_is_missing() {
    assert_eq!(commit_step("/s/a.txt", false, None), Err("File metadata is not set".to_string()));
    assert_eq!(commit_step("/s/a.txt", true, Some(false)), Ok(CommitStep::Nothing));
    assert_eq!(commit_step("/s/photos", false, Some(true)), Ok(CommitStep::CreateDirectory("/s/photos".to_string())));
    assert_eq!(
        commit_step("/s/docs/a.txt", false, Some(false)),
        Ok(CommitStep::CreateFile { parent: Some("/s/docs".to_string()), path: "/s/docs/a.txt".to_string() })
    );
}

#[test]
fn remote_paths_map_to_local_relative_paths() {
    assert_eq!(remote_path_to_local_relative_path("/folder/file.txt", "/"), Ok("folder/file.txt".to_string()));
    assert_eq!(remote_path_to_local_relative_path("/base/a/b", "/base"), Ok("a/b".to_string()));
    assert_eq!(relative_path_from_remote("/base/a/b", "/base/", "\\"), Ok("a\\b".to_string()));
    assert_eq!(
        remote_path_to_local_relative_path("/other/a", "/base"),
        Err("Path is not under remote base".to_string())
    );
    assert_eq!(
        remote_path_to_local_relative_path("/base", "/base"),
        Err("Path is not under remote base".to_string())
    );
}
