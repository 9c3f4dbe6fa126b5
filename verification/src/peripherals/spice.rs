//! SPICE peripheral.
//!
//! The QEMU wiring lives in the command builder; the hook only reports
//! lifecycle events, and does nothing while the peripheral is disabled.
use vstd::prelude::*;
use crate::config::SpiceConfig;

verus! {

#[derive(Debug, Clone)]
pub struct SpiceHook {
    pub cfg: SpiceConfig,
}

impl SpiceHook {
    pub fn new(cfg: SpiceConfig) -> (r: Self)
        ensures
            r.cfg == cfg,
    {
        SpiceHook { cfg }
    }
}

} // verus!
