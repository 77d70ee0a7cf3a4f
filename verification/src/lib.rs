//! The core of a command-line translation lookup tool: the names under which
//! answers are cached, the cache with its time to live, the providers'
//! request and rendering rules, and the decisions of one lookup.
//!
//! Nothing here touches a file or the network. The caller reads and writes,
//! and hands this library what it found.

pub mod text;
pub mod translators;
pub mod errors;
pub mod json;
pub mod utils;
pub mod cache;
pub mod args;
