//! Looking Glass shared-memory peripheral.
use vstd::prelude::*;
use crate::config::LookingGlassConfig;

verus! {

/// Looking Glass hook; VM start and stop only log the shared-memory name.
#[derive(Debug, Clone)]
pub struct LgHook {
    pub cfg: LookingGlassConfig,
}

impl LgHook {
    pub fn new(cfg: LookingGlassConfig) -> (r: Self)
        ensures
            r.cfg == cfg,
    {
        LgHook { cfg }
    }
}

} // verus!
