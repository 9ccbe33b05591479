//! Scaffolding of new source files from per-extension templates.

pub mod args;
pub mod casing;
pub mod error;
pub mod file;
pub mod plan;
pub mod store;
pub mod template;
pub mod text;
