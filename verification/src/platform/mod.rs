pub mod cache;
pub mod error;
pub mod linux;
pub mod provider;
pub mod types;
pub mod windows;
