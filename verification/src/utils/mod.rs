//! Helpers that the commands share.

pub mod dyer;
pub mod env_loader;
pub mod file;
