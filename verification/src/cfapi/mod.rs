//! The cloud-files API surface as it stands without a cloud filter driver:
//! every operation is accepted and does nothing.

pub mod filter;
pub mod metadata;
pub mod placeholder;
pub mod placeholder_file;
pub mod utility;
