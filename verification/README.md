# cloudreve_sync

The core of a desktop sync client for Cloudreve, verified with Verus.

- `src/platform/linux/` — the FUSE mount's inode table (`inode.rs`, with its
  laws in `inode_laws.rs`), open handles, the cache bookkeeping
  (`cache_impl.rs`, laws in `cache_laws.rs`), the provider operations on the
  inode table, the filesystem requests and the workers' decisions.
- `src/platform/windows.rs` — sync-root identities and placeholder
  conversions of the cloud-filter provider.
- `src/drive/` — the passthrough mount's path numbering, the backend
  directory names, and the instance web-page URLs.
- `src/cfapi/`, `src/win32_notif/` — the cloud-filter and notification
  interfaces as they stand on this platform.
- `src/paths.rs`, `src/platform/linux/shared_map.rs` — the trusted
  interfaces to `std::path` and `dashmap`.
- `app/` — the FUSE sessions, cache-file I/O, workers, notifications and
  error types with their `Display` impls, built on the library.
- `tests/` — tests of the library's public API.
