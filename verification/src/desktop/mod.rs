//! The desktop application: the list of sessions, the saved permissions, the
//! agent process behind the window, and what its panels show.

pub mod rules;
pub mod sessions;
pub mod transport;
pub mod memory_ui;
pub mod telemetry_ui;
