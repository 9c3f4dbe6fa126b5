//! VFIO staging: isolation policy, plans, verification and restore.
pub mod execute;
pub mod isolation;
pub mod plan;
pub mod restore;
pub mod verify;

pub use restore::{RestoreMode, RestoreOutcome, RestoreResultKind, RestoreSummary};
