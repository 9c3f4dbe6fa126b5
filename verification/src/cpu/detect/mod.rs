//! Host CPU detection and classification.
use vstd::prelude::*;

pub mod classify;
pub mod cpuid;
pub mod qemu_map;
pub mod topology;
pub mod validate;

use crate::cpu::detect::classify::{arch_of, CpuArch};
use crate::cpu::detect::cpuid::{CpuVendor, brand_of, family_of, identity_is, model_of, vendor_of, CpuIdentity};
use crate::cpu::detect::qemu_map::qemu_model_of;
use crate::text::lit;

verus! {

/// The QEMU `-cpu` model for a host: `EPYC-v2` for every AMD host of
/// family 17h or later (Zen-class: Ryzen, Threadripper, EPYC); otherwise
/// the model of its CPU class, if it has one.
pub open spec fn qemu_model_for(vendor: CpuVendor, family: u32, model: u32) -> Option<Seq<char>> {
    if vendor == CpuVendor::Amd && family >= 0x17 {
        Some("EPYC-v2"@)
    } else {
        qemu_model_of(arch_of(vendor, family, model))
    }
}

/// The QEMU `-cpu` model for an identity, if it has one.
pub fn qemu_model_for_identity(ident: &CpuIdentity) -> (r: Option<String>)
    ensures
        match qemu_model_for(ident.vendor, ident.family, ident.model) {
            Some(m) => r matches Some(s) && s@ == m,
            None => r is None,
        },
{
    if ident.vendor == CpuVendor::Amd && ident.family >= 0x17 {
        return Some(lit("EPYC-v2"));
    }
    let arch = classify::classify(ident);
    match qemu_map::map_arch_to_qemu_model(arch) {
        Some(m) => Some(lit(m)),
        None => None,
    }
}

/// The QEMU model for the identity built from these CPUID values, if it
/// has one.
pub open spec fn model_from_cpuid(v: Seq<char>, f: (u8, u8, u8, u8, u8), b: Option<Seq<char>>) -> Option<
    Seq<char>,
> {
    qemu_model_for(vendor_of(Some(v), brand_of(b)), family_of(f.0, f.1), model_of(f.0, f.2, f.3))
}

/// A QEMU `-cpu` model for the host, from CPUID: `None` when CPUID gives no
/// identity or the host has no model. A model found is the one the
/// identity built from the CPUID values maps to.
pub fn autodetect_qemu_cpu_model() -> (r: Option<String>)
    ensures
        r matches Some(s) ==> exists|v: Seq<char>, f: (u8, u8, u8, u8, u8), b: Option<Seq<char>>|
            #[trigger] model_from_cpuid(v, f, b) == Some(s@),
{
    let ident = match cpuid::detect_cpu_identity() {
        Some(id) => id,
        None => return None,
    };
    let r = qemu_model_for_identity(&ident);
    proof {
        if r is Some {
            let (v, f, b) = choose|v: Seq<char>, f: (u8, u8, u8, u8, u8), b: Option<Seq<char>>|
                #[trigger] identity_is(ident, Some(v), f, b);
            assert(model_from_cpuid(v, f, b) == Some(r->0@));
        }
    }
    r
}

/// Host CPU identity via CPUID: `None` when the vendor or feature leaf is
/// unavailable; an identity is the one built from a vendor string,
/// feature fields and a brand string.
pub fn detect_cpu_identity() -> (r: Option<CpuIdentity>)
    ensures
        r matches Some(id) ==> exists|v: Seq<char>, f: (u8, u8, u8, u8, u8), b: Option<Seq<char>>|
            #[trigger] identity_is(id, Some(v), f, b),
{
    cpuid::detect_cpu_identity()
}

/// Classify an identity into a CPU class.
pub fn classify_cpu(ident: &CpuIdentity) -> (r: CpuArch)
    ensures
        r == arch_of(ident.vendor, ident.family, ident.model),
{
    classify::classify(ident)
}

} // verus!
