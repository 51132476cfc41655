pub mod fuse;
pub mod placeholder;
pub mod utils;
