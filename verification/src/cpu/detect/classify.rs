//! Deterministic classification of a CPU identity into a coarse family.
use vstd::prelude::*;
use crate::cpu::detect::cpuid::{CpuIdentity, CpuVendor};

verus! {

/// Coarse CPU architecture class.
#[derive(Debug, Clone, Copy, PartialEq, Eq, Structural)]
pub enum CpuArch {
    /// AMD family 17h, models below 0x30.
    AmdZen1OrZenPlus,
    /// AMD family 17h, models 0x30 and above.
    AmdZen2,
    /// AMD family 19h.
    AmdZen3OrZen4,
    /// Intel family 6.
    IntelCoreFamily,
    /// 64-bit ARM.
    Arm64Generic,
    /// Anything else.
    Unknown,
}

/// The class of a CPU identity.
pub open spec fn arch_of(vendor: CpuVendor, family: u32, model: u32) -> CpuArch {
    match vendor {
        CpuVendor::Amd => if family == 0x17 {
            if model < 0x30 {
                CpuArch::AmdZen1OrZenPlus
            } else {
                CpuArch::AmdZen2
            }
        } else if family == 0x19 {
            CpuArch::AmdZen3OrZen4
        } else {
            CpuArch::Unknown
        },
        CpuVendor::Intel => if family == 6 {
            CpuArch::IntelCoreFamily
        } else {
            CpuArch::Unknown
        },
        CpuVendor::Arm => CpuArch::Arm64Generic,
        CpuVendor::Unknown => CpuArch::Unknown,
    }
}

/// Classify a CPU identity.
pub fn classify(ident: &CpuIdentity) -> (r: CpuArch)
    ensures
        r == arch_of(ident.vendor, ident.family, ident.model),
{
    match ident.vendor {
        CpuVendor::Amd => classify_amd(ident),
        CpuVendor::Intel => classify_intel(ident),
        CpuVendor::Arm => CpuArch::Arm64Generic,
        CpuVendor::Unknown => CpuArch::Unknown,
    }
}

fn classify_amd(ident: &CpuIdentity) -> (r: CpuArch)
    ensures
        r == arch_of(CpuVendor::Amd, ident.family, ident.model),
{
    if ident.family == 0x17 {
        if ident.model < 0x30 {
            CpuArch::AmdZen1OrZenPlus
        } else {
            CpuArch::AmdZen2
        }
    } else if ident.family == 0x19 {
        CpuArch::AmdZen3OrZen4
    } else {
        CpuArch::Unknown
    }
}

fn classify_intel(ident: &CpuIdentity) -> (r: CpuArch)
    ensures
        r == arch_of(CpuVendor::Intel, ident.family, ident.model),
{
    if ident.family == 6 {
        CpuArch::IntelCoreFamily
    } else {
        CpuArch::Unknown
    }
}

} // verus!
