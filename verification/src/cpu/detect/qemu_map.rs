//! Mapping from CPU class to a QEMU `-cpu` model name: every AMD Zen-class
//! host (family 17h or later) gets `EPYC-v2`.
use vstd::prelude::*;
use crate::cpu::detect::classify::CpuArch;

verus! {

/// The QEMU model name for a class: `EPYC-v2` for every AMD Zen class;
/// `None` for `Unknown`.
pub open spec fn qemu_model_of(arch: CpuArch) -> Option<Seq<char>> {
    match arch {
        CpuArch::AmdZen1OrZenPlus => Some("EPYC-v2"@),
        CpuArch::AmdZen2 => Some("EPYC-v2"@),
        CpuArch::AmdZen3OrZen4 => Some("EPYC-v2"@),
        CpuArch::IntelCoreFamily => Some("Skylake-Server"@),
        CpuArch::Arm64Generic => Some("cortex-a57"@),
        CpuArch::Unknown => None,
    }
}

/// Map a CPU class to a QEMU `-cpu` model name.
pub fn map_arch_to_qemu_model(arch: CpuArch) -> (r: Option<&'static str>)
    ensures
        match qemu_model_of(arch) {
            Some(m) => r matches Some(s) && s@ == m,
            None => r is None,
        },
{
    match arch {
        CpuArch::AmdZen1OrZenPlus => Some("EPYC-v2"),
        CpuArch::AmdZen2 => Some("EPYC-v2"),
        CpuArch::AmdZen3OrZen4 => Some("EPYC-v2"),
        CpuArch::IntelCoreFamily => Some("Skylake-Server"),
        CpuArch::Arm64Generic => Some("cortex-a57"),
        CpuArch::Unknown => None,
    }
}

} // verus!
