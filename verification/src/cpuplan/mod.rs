//! CPU planning: fold host identity, NUMA topology and the VM CPU layout
//! into one immutable plan, and check it for consistency.
pub mod builder;
pub mod plan;
pub mod validate;

pub use builder::{build_cpu_plan, CpuPlanInputs};
pub use plan::{CpuPlan, CpuPlanNode};
pub use validate::{validate_cpu_plan, CpuPlanValidationError};
