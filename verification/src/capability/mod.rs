//! Capabilities: how tools, skills and resources are named, described,
//! captured for a turn, promoted, revoked and explained.

pub mod authority;
pub mod descriptor;
pub mod effective_revision;
pub mod explain;
pub mod exposure;
pub mod fence;
pub mod id;
pub mod idmap;
pub mod manager;
pub mod prepared;
pub mod promotion;
pub mod router;
pub mod tool_search;
pub mod turn;
