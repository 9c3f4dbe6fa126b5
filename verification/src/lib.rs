//! Chalybs: deterministic VFIO virtualization orchestration logic.
pub mod affinity;
pub mod config;
pub mod cpu;
pub mod cpuplan;
pub mod cpuset;
pub mod daemon;
pub mod error;
pub mod fmt;
pub mod hugepages;
pub mod irq;
pub mod logging;
pub mod model;
pub mod pci;
pub mod qemu;
pub mod peripherals;
pub mod sorted;
pub mod state;
pub mod text;
pub mod tui;
pub mod util;
pub mod vfio;

pub use error::{ChalybsError, Result};
