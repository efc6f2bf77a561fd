//! File selection by profiles: glob patterns that take files in and leave files out.

pub mod path;
pub mod glob;
pub mod select;
pub mod profile;
pub mod laws;
