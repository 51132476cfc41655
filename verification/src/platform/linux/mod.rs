pub mod filesystem;
pub mod handle;
pub mod inode;
pub mod inode_laws;
pub mod provider;
pub mod request_laws;
pub mod cache_impl;
pub mod cache_laws;
pub mod shared_map;
pub mod workers;
