//! The types that every part of the agent shares.

pub mod error;
pub mod id;
pub mod policy;
pub mod state;
pub mod tool;
