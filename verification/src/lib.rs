//! Core logic of the Cloudreve desktop sync client: the FUSE inode table,
//! open-handle bookkeeping, the local cache state machine and the
//! platform-neutral sync provider types.

pub mod cfapi;
pub mod drive;
pub mod paths;
pub mod platform;
pub mod std_types;
pub mod utils;
pub mod win32_notif;
