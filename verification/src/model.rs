//! Core data model shared by the lifecycle phases.
use vstd::prelude::*;

verus! {

/// Kind of a VM lifecycle event.
#[derive(Debug, Clone, Copy, PartialEq, Eq, Structural)]
pub enum CoreEventKind {
    Info,
    Warning,
    Error,
    System,
}

/// One VM-scoped lifecycle event.
#[derive(Debug, Clone)]
pub struct CoreEvent {
    pub kind: CoreEventKind,
    pub message: String,
}

/// A CPU list.
#[derive(Debug, Clone)]
pub struct CpuSet {
    pub cpus: Vec<u32>,
}

/// Host and VM CPU sets of a VM.
#[derive(Debug, Clone)]
pub struct VmCpuLayout {
    pub host: CpuSet,
    pub vm: CpuSet,
}

/// Cpuset cgroup directories of a VM.
#[derive(Debug, Clone)]
pub struct CgroupPaths {
    pub root: String,
    pub vm: String,
    pub host: String,
}

/// The driver a PCI device was bound to before staging.
#[derive(Debug, Clone)]
pub struct VfioTransition {
    pub bdf: String,
    /// Original driver; `None` when the device was unbound.
    pub from_driver: Option<String>,
    pub iommu_group: Option<u32>,
}

} // verus!
