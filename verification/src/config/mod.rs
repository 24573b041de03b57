//! Layered configuration: loading, merging, migration, requirements, trust and
//! hot reload.

pub mod enforcement;
pub mod error;
pub mod fs_backend;
pub mod generation;
pub mod glob;
pub mod layer;
pub mod loader;
pub mod merge;
pub mod migration;
pub mod requirements;
pub mod resolver;
pub mod trust;
pub mod values;
pub mod watcher;
