pub mod actions;
pub mod visual;
