pub mod app;
pub mod toast;
