//! The daemon's protocol types and the logic behind its replies.
pub mod ipc;
pub mod snapshot;
pub mod status;
pub mod shell;
pub mod introspect;
