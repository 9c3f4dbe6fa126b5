//! CPU identity from raw CPUID leaves (x86/x86_64).
//!
//! The leaves are read through `raw-cpuid`; turning them into an identity
//! (family/model combination, brand trimming, vendor detection) is ours.
use vstd::prelude::*;
use raw_cpuid::CpuId;
use crate::text::{chars_of, contains_sub, contains_sub_exec, opt_view, str_eq, string_of, trim, trim_chars};

verus! {

#[derive(Debug, Clone, Copy, PartialEq, Eq, Structural)]
pub enum CpuVendor {
    Amd,
    Intel,
    Arm,
    Unknown,
}

#[derive(Debug, Clone)]
pub struct CpuIdentity {
    pub vendor: CpuVendor,
    pub family: u32,
    pub model: u32,
    pub stepping: u32,
    pub raw_vendor: Option<String>,
    pub model_name: Option<String>,
}

/// What `str::to_lowercase` returns for a string.
pub uninterp spec fn lowercase(s: Seq<char>) -> Seq<char>;

/// `str::to_lowercase`: the Unicode lower-case mapping of the string,
/// a function of its characters alone.
#[verifier::external_body]
fn to_lowercase(s: &str) -> (r: String)
    ensures
        r@ == lowercase(s@),
{
    s.to_lowercase()
}

/// The CPUID leaves that identify the CPU, read through one
/// `CpuId::new()` reader: `get_vendor_info` (as its `as_str` text),
/// `get_feature_info` (as family_id, extended_family_id, model_id,
/// extended_model_id, stepping_id) and `get_processor_brand_string` (as
/// its `as_str` text). The values come from the hardware, so nothing is
/// claimed of them.
#[verifier::external_body]
fn cpuid_leaves() -> (Option<String>, Option<(u8, u8, u8, u8, u8)>, Option<String>) {
    let c = CpuId::new();
    let vendor = c.get_vendor_info().map(|v| v.as_str().to_string());
    let feature = c.get_feature_info().map(
        |f| (f.family_id(), f.extended_family_id(), f.model_id(), f.extended_model_id(), f.stepping_id()),
    );
    let brand = c.get_processor_brand_string().map(|b| b.as_str().to_string());
    (vendor, feature, brand)
}

/// Vendor from the CPUID vendor string, else ARM when the lower-cased
/// brand mentions "arm" or "aarch64".
pub open spec fn vendor_of_lower(raw_vendor: Option<Seq<char>>, lower_brand: Option<Seq<char>>) -> CpuVendor {
    if raw_vendor == Some("AuthenticAMD"@) {
        CpuVendor::Amd
    } else if raw_vendor == Some("GenuineIntel"@) {
        CpuVendor::Intel
    } else {
        match lower_brand {
            Some(l) => if contains_sub(l, "arm"@) || contains_sub(l, "aarch64"@) {
                CpuVendor::Arm
            } else {
                CpuVendor::Unknown
            },
            None => CpuVendor::Unknown,
        }
    }
}

/// Vendor from the CPUID vendor string, else ARM when the brand's lower-case
/// form mentions "arm" or "aarch64".
pub open spec fn vendor_of(raw_vendor: Option<Seq<char>>, model_name: Option<Seq<char>>) -> CpuVendor {
    vendor_of_lower(
        raw_vendor,
        match model_name {
            Some(n) => Some(lowercase(n)),
            None => None,
        },
    )
}

/// The vendor from the CPUID vendor string and the brand string already
/// lower-cased.
pub fn vendor_from_lowercase(raw_vendor: &Option<String>, lower_brand: &Option<String>) -> (r: CpuVendor)
    ensures
        r == vendor_of_lower(opt_view(*raw_vendor), opt_view(*lower_brand)),
{
    match raw_vendor {
        Some(v) => {
            if str_eq(v.as_str(), "AuthenticAMD") {
                return CpuVendor::Amd;
            }
            if str_eq(v.as_str(), "GenuineIntel") {
                return CpuVendor::Intel;
            }
        },
        None => {},
    }
    match lower_brand {
        Some(l) => {
            let lower = chars_of(l.as_str());
            let arm = chars_of("arm");
            let aarch = chars_of("aarch64");
            if contains_sub_exec(&lower, &arm) || contains_sub_exec(&lower, &aarch) {
                return CpuVendor::Arm;
            }
        },
        None => {},
    }
    CpuVendor::Unknown
}

fn detect_vendor(raw_vendor: &Option<String>, model_name: &Option<String>) -> (r: CpuVendor)
    ensures
        r == vendor_of(opt_view(*raw_vendor), opt_view(*model_name)),
{
    let lower = match model_name {
        Some(name) => Some(to_lowercase(name.as_str())),
        None => None,
    };
    vendor_from_lowercase(raw_vendor, &lower)
}

/// Family: base plus extended when the base is 0x0f.
pub open spec fn family_of(base_family: u8, ext_family: u8) -> u32 {
    if base_family == 0x0f {
        (base_family + ext_family) as u32
    } else {
        base_family as u32
    }
}

/// Model: extended model in the high nibble when the base family is 0x06
/// or 0x0f.
pub open spec fn model_of(base_family: u8, base_model: u8, ext_model: u8) -> u32 {
    if base_family == 0x06 || base_family == 0x0f {
        (ext_model * 16 + base_model) as u32
    } else {
        base_model as u32
    }
}

/// The brand string trimmed, or nothing when it is blank.
pub open spec fn brand_of(raw: Option<Seq<char>>) -> Option<Seq<char>> {
    match raw {
        Some(b) => if trim(b).len() == 0 {
            None
        } else {
            Some(trim(b))
        },
        None => None,
    }
}

/// Build a CPU identity from the vendor string, the feature fields
/// (family, extended family, model, extended model, stepping) and the
/// brand string.
pub fn identity_from_cpuid(
    raw_vendor: Option<String>,
    feature: (u8, u8, u8, u8, u8),
    brand: Option<String>,
) -> (r: CpuIdentity)
    ensures
        r.family == family_of(feature.0, feature.1),
        r.model == model_of(feature.0, feature.2, feature.3),
        r.stepping == feature.4 as u32,
        opt_view(r.raw_vendor) == opt_view(raw_vendor),
        opt_view(r.model_name) == brand_of(opt_view(brand)),
        r.vendor == vendor_of(opt_view(raw_vendor), brand_of(opt_view(brand))),
{
    let (base_family, ext_family, base_model, ext_model, stepping) = feature;
    let family: u32 = if base_family == 0x0f {
        base_family as u32 + ext_family as u32
    } else {
        base_family as u32
    };
    assert(((ext_model as u32) << 4) == ext_model as u32 * 16) by (bit_vector)
        requires
            ext_model < 256,
    ;
    let model: u32 = if base_family == 0x06 || base_family == 0x0f {
        ((ext_model as u32) << 4) + base_model as u32
    } else {
        base_model as u32
    };
    assert(((ext_model as u32) << 4) == ext_model as u32 * 16) by (bit_vector)
        requires
            ext_model < 256,
    ;
    let model_name = match brand {
        Some(b) => {
            let t = trim_chars(&chars_of(b.as_str()));
            if t.len() == 0 {
                None
            } else {
                Some(string_of(&t))
            }
        },
        None => None,
    };
    let vendor = detect_vendor(&raw_vendor, &model_name);
    CpuIdentity { vendor, family, model, stepping: stepping as u32, raw_vendor, model_name }
}

/// The identity that `identity_from_cpuid` builds from a vendor string,
/// the feature fields and a brand string.
pub open spec fn identity_is(
    id: CpuIdentity,
    raw_vendor: Option<Seq<char>>,
    feature: (u8, u8, u8, u8, u8),
    brand: Option<Seq<char>>,
) -> bool {
    &&& id.family == family_of(feature.0, feature.1)
    &&& id.model == model_of(feature.0, feature.2, feature.3)
    &&& id.stepping == feature.4 as u32
    &&& opt_view(id.raw_vendor) == raw_vendor
    &&& opt_view(id.model_name) == brand_of(brand)
    &&& id.vendor == vendor_of(raw_vendor, brand_of(brand))
}

/// Detect the host CPU identity via CPUID: `None` when the vendor or
/// feature leaf is unavailable. The leaf values come from the hardware;
/// what is certain is that an identity is the one built from a vendor
/// string, feature fields and a brand string.
pub fn detect_cpu_identity() -> (r: Option<CpuIdentity>)
    ensures
        r matches Some(id) ==> exists|v: Seq<char>, f: (u8, u8, u8, u8, u8), b: Option<Seq<char>>|
            #[trigger] identity_is(id, Some(v), f, b),
{
    let (vendor, feature, brand) = cpuid_leaves();
    let raw_vendor = match vendor {
        Some(v) => v,
        None => return None,
    };
    let feature = match feature {
        Some(f) => f,
        None => return None,
    };
    let ghost v = raw_vendor@;
    let ghost b = opt_view(brand);
    let id = identity_from_cpuid(Some(raw_vendor), feature, brand);
    assert(identity_is(id, Some(v), feature, b));
    Some(id)
}

} // verus!
