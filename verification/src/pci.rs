//! PCI/PCIe inventory and the pure queries over it.
//!
//! The inventory itself is read from sysfs by the application; this module
//! holds the data model, the classification of functions by class code and
//! bound driver, and the read-only queries that policy code relies on.
use vstd::prelude::*;
use std::collections::HashMap;
use crate::config::PciDeviceConfig;
use crate::error::{ChalybsError, Result};
use crate::fmt::{
    join, join_strings, parse_err_message, parse_err_text, parse_full, parse_hex_u16, parse_hex_u8,
    parse_unsigned, parse_unsigned_exec, parse_unsigned_full, views,
};
use crate::text::{
    chars_of, copy_opt_string, copy_string, lit, opt_view, seqs_of, slice_chars, split_on,
    split_on_exec, str_eq, string_of, trim, trim_chars, trim_str,
};

verus! {

broadcast use vstd::std_specs::hash::group_hash_axioms;

/// A single PCI function on the host, as read from sysfs.
#[derive(Debug, Clone)]
pub struct PciFunction {
    /// Full BDF string, e.g. "0000:0b:00.0".
    pub bdf: String,
    pub vendor_id: u16,
    pub device_id: u16,
    /// Raw PCI class code, e.g. 0x030000 for a VGA controller.
    pub class: u32,
    /// Bound kernel driver name, if any.
    pub driver: Option<String>,
    /// IOMMU group id, if discoverable.
    pub iommu_group: Option<u32>,
    /// NUMA node id, if reported.
    pub numa_node: Option<i32>,
}

/// Classification of the kernel driver bound to a display controller.
#[derive(Debug, Clone)]
pub enum GpuDriverKind {
    Vfio,
    AmdGpu,
    Nvidia,
    Nouveau,
    OtherKernel(String),
    Unbound,
}

/// `GpuDriverKind` with the driver name as characters.
pub enum DriverKindView {
    Vfio,
    AmdGpu,
    Nvidia,
    Nouveau,
    OtherKernel(Seq<char>),
    Unbound,
}

impl View for GpuDriverKind {
    type V = DriverKindView;

    open spec fn view(&self) -> DriverKindView {
        match self {
            GpuDriverKind::Vfio => DriverKindView::Vfio,
            GpuDriverKind::AmdGpu => DriverKindView::AmdGpu,
            GpuDriverKind::Nvidia => DriverKindView::Nvidia,
            GpuDriverKind::Nouveau => DriverKindView::Nouveau,
            GpuDriverKind::OtherKernel(s) => DriverKindView::OtherKernel(s@),
            GpuDriverKind::Unbound => DriverKindView::Unbound,
        }
    }
}

/// Safety of a host GPU from the passthrough point of view.
#[derive(Debug, Clone, Copy, PartialEq, Eq, Structural)]
pub enum GpuSafetyClass {
    VfioReady,
    HostOwned,
    Unknown,
}

/// How safe it looks to detach a GPU from its current driver.
#[derive(Debug, Clone)]
pub enum GpuUnbindFeasibility {
    Safe,
    Risky(String),
    Unsafe(String),
}

/// `GpuUnbindFeasibility` with the reason as characters.
pub enum FeasibilityView {
    Safe,
    Risky(Seq<char>),
    Unsafe(Seq<char>),
}

impl View for GpuUnbindFeasibility {
    type V = FeasibilityView;

    open spec fn view(&self) -> FeasibilityView {
        match self {
            GpuUnbindFeasibility::Safe => FeasibilityView::Safe,
            GpuUnbindFeasibility::Risky(s) => FeasibilityView::Risky(s@),
            GpuUnbindFeasibility::Unsafe(s) => FeasibilityView::Unsafe(s@),
        }
    }
}

/// Logical device class derived from the PCI class code.
#[derive(Debug, Clone, Copy, PartialEq, Eq, Structural)]
pub enum DeviceClass {
    Gpu,
    Nvme,
    Nic,
    UsbController,
    StorageOther,
    Other,
}

// ---------------------------------------------------------------------------
// Class code
// ---------------------------------------------------------------------------

/// Base class byte of a class code: `class = base << 16 | sub << 8 | prog_if`.
pub open spec fn class_base_of(c: u32) -> u8 {
    ((c as nat / 0x10000) % 0x100) as u8
}

pub open spec fn class_sub_of(c: u32) -> u8 {
    ((c as nat / 0x100) % 0x100) as u8
}

pub open spec fn class_prog_if_of(c: u32) -> u8 {
    (c as nat % 0x100) as u8
}

pub open spec fn is_display(f: PciFunction) -> bool {
    class_base_of(f.class) == 0x03
}

pub open spec fn is_network(f: PciFunction) -> bool {
    class_base_of(f.class) == 0x02
}

pub open spec fn is_storage(f: PciFunction) -> bool {
    class_base_of(f.class) == 0x01
}

pub open spec fn is_nvme_fn(f: PciFunction) -> bool {
    class_base_of(f.class) == 0x01 && class_sub_of(f.class) == 0x08
}

pub open spec fn is_usb(f: PciFunction) -> bool {
    class_base_of(f.class) == 0x0c && class_sub_of(f.class) == 0x03
}

/// Driver classification by name.
pub open spec fn driver_kind_of(d: Option<Seq<char>>) -> DriverKindView {
    match d {
        None => DriverKindView::Unbound,
        Some(s) => if s == "vfio-pci"@ {
            DriverKindView::Vfio
        } else if s == "amdgpu"@ || s == "radeon"@ {
            DriverKindView::AmdGpu
        } else if s == "nvidia"@ {
            DriverKindView::Nvidia
        } else if s == "nouveau"@ {
            DriverKindView::Nouveau
        } else {
            DriverKindView::OtherKernel(s)
        },
    }
}

/// Driver kind of a function: defined for display controllers only.
pub open spec fn gpu_kind(f: PciFunction) -> Option<DriverKindView> {
    if is_display(f) {
        Some(driver_kind_of(opt_view(f.driver)))
    } else {
        None
    }
}

pub open spec fn safety_of_kind(k: DriverKindView) -> GpuSafetyClass {
    match k {
        DriverKindView::Vfio => GpuSafetyClass::VfioReady,
        DriverKindView::AmdGpu | DriverKindView::Nvidia | DriverKindView::Nouveau => {
            GpuSafetyClass::HostOwned
        },
        _ => GpuSafetyClass::Unknown,
    }
}

pub open spec fn gpu_safety(f: PciFunction) -> Option<GpuSafetyClass> {
    match gpu_kind(f) {
        Some(k) => Some(safety_of_kind(k)),
        None => None,
    }
}

pub open spec fn device_class_of(f: PciFunction) -> DeviceClass {
    if is_display(f) {
        DeviceClass::Gpu
    } else if is_nvme_fn(f) {
        DeviceClass::Nvme
    } else if is_network(f) {
        DeviceClass::Nic
    } else if is_usb(f) {
        DeviceClass::UsbController
    } else if is_storage(f) {
        DeviceClass::StorageOther
    } else {
        DeviceClass::Other
    }
}

/// True when the function is bound to `vfio-pci`.
pub open spec fn bound_to_vfio(f: PciFunction) -> bool {
    opt_view(f.driver) == Some("vfio-pci"@)
}

// ---------------------------------------------------------------------------
// BDF parsing
// ---------------------------------------------------------------------------

/// The (domain, bus, slot) key of a BDF "dddd:bb:ss.f": exactly three
/// colon-separated fields, the last of them exactly two dot-separated
/// fields, widths 4/2/2 and a non-empty function, hex digits throughout
/// the first three.
pub open spec fn bdf_slot(s: Seq<char>) -> Option<(u16, u8, u8)> {
    let p = split_on(s, ':');
    if p.len() != 3 {
        None
    } else {
        let q = split_on(p[2], '.');
        if q.len() != 2 || p[0].len() != 4 || p[1].len() != 2 || q[0].len() != 2 || q[1].len()
            == 0 {
            None
        } else {
            match (
                parse_unsigned(p[0], 16, 0xffff),
                parse_unsigned(p[1], 16, 0xff),
                parse_unsigned(q[0], 16, 0xff),
            ) {
                (Some(d), Some(b), Some(v)) => Some((d as u16, b as u8, v as u8)),
                _ => None,
            }
        }
    }
}

/// Parse a BDF "dddd:bb:ss.f" into its (domain, bus, slot) key.
pub fn parse_bdf_slot(bdf: &str) -> (r: Option<(u16, u8, u8)>)
    ensures
        r == bdf_slot(bdf@),
{
    let v = chars_of(bdf);
    let parts = split_on_exec(&v, ':');
    assert(seqs_of(parts@) == split_on(bdf@, ':'));
    if parts.len() != 3 {
        return None;
    }
    let ghost p = split_on(bdf@, ':');
    assert(parts@[2]@ == p[2]);
    let df = split_on_exec(&parts[2], '.');
    if df.len() != 2 {
        return None;
    }
    let ghost q = split_on(p[2], '.');
    assert(parts@[0]@ == p[0]);
    assert(parts@[1]@ == p[1]);
    assert(df@[0]@ == q[0]);
    assert(df@[1]@ == q[1]);
    if parts[0].len() != 4 || parts[1].len() != 2 || df[0].len() != 2 || df[1].len() == 0 {
        return None;
    }
    let domain = parse_hex_u16(&parts[0]);
    let bus = parse_hex_u8(&parts[1]);
    let dev = parse_hex_u8(&df[0]);
    match (domain, bus, dev) {
        (Some(d), Some(b), Some(s)) => Some((d, b, s)),
        _ => None,
    }
}

impl PciFunction {
    /// The (base, sub, prog_if) bytes of the class code.
    pub fn class_triple(&self) -> (r: (u8, u8, u8))
        ensures
            r == (class_base_of(self.class), class_sub_of(self.class), class_prog_if_of(
                self.class,
            )),
    {
        (self.class_base(), self.class_sub(), self.class_prog_if())
    }

    /// Base class code (e.g. 0x03 for a display controller).
    pub fn class_base(&self) -> (r: u8)
        ensures
            r == class_base_of(self.class),
    {
        let c = self.class;
        let x = (c >> 16) & 0xff;
        assert(x == (c / 0x10000) % 0x100) by (bit_vector)
            requires
                x == (c >> 16) & 0xff,
        ;
        x as u8
    }

    /// Subclass code.
    pub fn class_sub(&self) -> (r: u8)
        ensures
            r == class_sub_of(self.class),
    {
        let c = self.class;
        let x = (c >> 8) & 0xff;
        assert(x == (c / 0x100) % 0x100) by (bit_vector)
            requires
                x == (c >> 8) & 0xff,
        ;
        x as u8
    }

    /// Programming interface byte.
    pub fn class_prog_if(&self) -> (r: u8)
        ensures
            r == class_prog_if_of(self.class),
    {
        let c = self.class;
        let x = c & 0xff;
        assert(x == c % 0x100) by (bit_vector)
            requires
                x == c & 0xff,
        ;
        x as u8
    }

    /// For display controllers, the kind of bound driver; `None` otherwise.
    pub fn gpu_driver_kind(&self) -> (r: Option<GpuDriverKind>)
        ensures
            match gpu_kind(*self) {
                Some(k) => r matches Some(x) && x@ == k,
                None => r is None,
            },
    {
        if !self.is_display_controller() {
            return None;
        }
        let d = match &self.driver {
            Some(d) => d,
            None => return Some(GpuDriverKind::Unbound),
        };
        let kind = if str_eq(d.as_str(), "vfio-pci") {
            GpuDriverKind::Vfio
        } else if str_eq(d.as_str(), "amdgpu") || str_eq(d.as_str(), "radeon") {
            GpuDriverKind::AmdGpu
        } else if str_eq(d.as_str(), "nvidia") {
            GpuDriverKind::Nvidia
        } else if str_eq(d.as_str(), "nouveau") {
            GpuDriverKind::Nouveau
        } else {
            GpuDriverKind::OtherKernel(copy_string(d))
        };
        Some(kind)
    }

    /// For display controllers, the host-side safety class; `None` otherwise.
    pub fn gpu_safety_class(&self) -> (r: Option<GpuSafetyClass>)
        ensures
            r == gpu_safety(*self),
    {
        let kind = match self.gpu_driver_kind() {
            Some(k) => k,
            None => return None,
        };
        let safety = match kind {
            GpuDriverKind::Vfio => GpuSafetyClass::VfioReady,
            GpuDriverKind::AmdGpu | GpuDriverKind::Nvidia | GpuDriverKind::Nouveau => {
                GpuSafetyClass::HostOwned
            },
            GpuDriverKind::OtherKernel(_) | GpuDriverKind::Unbound => GpuSafetyClass::Unknown,
        };
        Some(safety)
    }

    pub fn is_display_controller(&self) -> (r: bool)
        ensures
            r == is_display(*self),
    {
        self.class_base() == 0x03
    }

    pub fn is_network_controller(&self) -> (r: bool)
        ensures
            r == is_network(*self),
    {
        self.class_base() == 0x02
    }

    pub fn is_storage_controller(&self) -> (r: bool)
        ensures
            r == is_storage(*self),
    {
        self.class_base() == 0x01
    }

    /// NVMe controllers report class 0x0108xx.
    pub fn is_nvme(&self) -> (r: bool)
        ensures
            r == is_nvme_fn(*self),
    {
        let (base, sub, _pi) = self.class_triple();
        base == 0x01 && sub == 0x08
    }

    /// USB host controllers report class 0x0c03xx.
    pub fn is_usb_controller(&self) -> (r: bool)
        ensures
            r == is_usb(*self),
    {
        let (base, sub, _pi) = self.class_triple();
        base == 0x0c && sub == 0x03
    }

    /// Classification by class code, GPU first.
    pub fn device_class(&self) -> (r: DeviceClass)
        ensures
            r == device_class_of(*self),
    {
        if self.is_display_controller() {
            DeviceClass::Gpu
        } else if self.is_nvme() {
            DeviceClass::Nvme
        } else if self.is_network_controller() {
            DeviceClass::Nic
        } else if self.is_usb_controller() {
            DeviceClass::UsbController
        } else if self.is_storage_controller() {
            DeviceClass::StorageOther
        } else {
            DeviceClass::Other
        }
    }

    /// The (domain, bus, slot) key of this function's BDF.
    pub fn slot_key(&self) -> (r: Option<(u16, u8, u8)>)
        ensures
            r == bdf_slot(self.bdf@),
    {
        parse_bdf_slot(self.bdf.as_str())
    }

    /// True when the bound driver is `vfio-pci`.
    pub fn is_bound_to_vfio(&self) -> (r: bool)
        ensures
            r == bound_to_vfio(*self),
    {
        match &self.driver {
            Some(d) => str_eq(d.as_str(), "vfio-pci"),
            None => false,
        }
    }
}

// ---------------------------------------------------------------------------
// Inventory
// ---------------------------------------------------------------------------

/// All PCI functions discovered on the host, in discovery order.
#[derive(Debug, Clone)]
pub struct PciInventory {
    pub functions: Vec<PciFunction>,
}

/// Driver binding and safety classification of one GPU-like function.
#[derive(Debug, Clone)]
pub struct GpuFunctionSummary {
    pub bdf: String,
    pub vendor_id: u16,
    pub device_id: u16,
    pub driver: Option<String>,
    pub driver_kind: Option<GpuDriverKind>,
    pub safety: Option<GpuSafetyClass>,
}

/// Simulated unbind safety for one GPU.
#[derive(Debug, Clone)]
pub struct GpuUnbindAssessment {
    pub bdf: String,
    pub current_driver: Option<String>,
    pub safety_class: GpuSafetyClass,
    pub iommu_group: Option<u32>,
    /// BDFs of the other members of the GPU's IOMMU group.
    pub group_members: Vec<String>,
    pub feasibility: GpuUnbindFeasibility,
}

/// The functions behind a sequence of references.
pub open spec fn unrefs(s: Seq<&PciFunction>) -> Seq<PciFunction> {
    s.map_values(|r: &PciFunction| *r)
}

proof fn lemma_unrefs_push(s: Seq<&PciFunction>, f: &PciFunction)
    ensures
        unrefs(s.push(f)) == unrefs(s).push(*f),
{
    assert(unrefs(s.push(f)) =~= unrefs(s).push(*f));
}

/// Which class of functions a query selects.
pub enum Selector {
    Display,
    Network,
    Nvme,
    Usb,
    Group(u32),
}

pub open spec fn selects(sel: Selector, f: PciFunction) -> bool {
    match sel {
        Selector::Display => is_display(f),
        Selector::Network => is_network(f),
        Selector::Nvme => is_nvme_fn(f),
        Selector::Usb => is_usb(f),
        Selector::Group(g) => f.iommu_group == Some(g),
    }
}

pub open spec fn sel_pred(sel: Selector) -> spec_fn(PciFunction) -> bool {
    |f: PciFunction| selects(sel, f)
}

fn selects_exec(sel: &Selector, f: &PciFunction) -> (r: bool)
    ensures
        r == selects(*sel, *f),
{
    match sel {
        Selector::Display => f.is_display_controller(),
        Selector::Network => f.is_network_controller(),
        Selector::Nvme => f.is_nvme(),
        Selector::Usb => f.is_usb_controller(),
        Selector::Group(g) => match f.iommu_group {
            Some(x) => x == *g,
            None => false,
        },
    }
}

/// References to the functions that `sel` selects, in inventory order.
fn select<'a>(fs: &'a Vec<PciFunction>, sel: Selector) -> (r: Vec<&'a PciFunction>)
    ensures
        unrefs(r@) == fs@.filter(sel_pred(sel)),
{
    let mut out: Vec<&PciFunction> = Vec::new();
    let mut i: usize = 0;
    while i < fs.len()
        invariant
            i <= fs@.len(),
            unrefs(out@) == fs@.take(i as int).filter(sel_pred(sel)),
        decreases fs@.len() - i,
    {
        let ghost pre = out@;
        proof {
            assert(fs@.take(i + 1) =~= fs@.take(i as int).push(fs@[i as int]));
            fs@.take(i as int).lemma_filter_push(fs@[i as int], sel_pred(sel));
        }
        if selects_exec(&sel, &fs[i]) {
            out.push(&fs[i]);
            proof {
                lemma_unrefs_push(pre, &fs@[i as int]);
            }
        }
        i = i + 1;
    }
    assert(fs@.take(fs@.len() as int) =~= fs@);
    out
}

/// Distinct IOMMU group ids in order of first appearance.
pub open spec fn group_ids(fs: Seq<PciFunction>) -> Seq<u32>
    decreases fs.len(),
{
    if fs.len() == 0 {
        Seq::empty()
    } else {
        let p = group_ids(fs.drop_last());
        match fs.last().iommu_group {
            Some(g) => if p.contains(g) {
                p
            } else {
                p.push(g)
            },
            None => p,
        }
    }
}

/// True when some function reports group `g`.
pub open spec fn has_group(fs: Seq<PciFunction>, g: u32) -> bool {
    exists|i: int| 0 <= i < fs.len() && (#[trigger] fs[i]).iommu_group == Some(g)
}

pub proof fn lemma_contains_push<A>(s: Seq<A>, x: A, g: A)
    ensures
        s.push(x).contains(g) <==> (s.contains(g) || x == g),
{
    if s.push(x).contains(g) {
        let i = choose|i: int| 0 <= i < s.push(x).len() && s.push(x)[i] == g;
        if i < s.len() {
            assert(s[i] == g);
        }
    }
    if s.contains(g) {
        let i = choose|i: int| 0 <= i < s.len() && s[i] == g;
        assert(s.push(x)[i] == g);
    }
    if x == g {
        assert(s.push(x)[s.len() as int] == g);
    }
}

pub proof fn lemma_group_ids(fs: Seq<PciFunction>)
    ensures
        forall|g: u32| #[trigger] group_ids(fs).contains(g) <==> has_group(fs, g),
        group_ids(fs).no_duplicates(),
    decreases fs.len(),
{
    if fs.len() > 0 {
        let d = fs.drop_last();
        let p = group_ids(d);
        lemma_group_ids(d);
        assert forall|g: u32| has_group(fs, g) <==> (has_group(d, g) || fs.last().iommu_group
            == Some(g)) by {
            if has_group(fs, g) {
                let i = choose|i: int| 0 <= i < fs.len() && (#[trigger] fs[i]).iommu_group == Some(
                    g,
                );
                if i < fs.len() - 1 {
                    assert(d[i] == fs[i]);
                }
            }
            if has_group(d, g) {
                let i = choose|i: int| 0 <= i < d.len() && (#[trigger] d[i]).iommu_group == Some(g);
                assert(fs[i] == d[i]);
            }
            if fs.last().iommu_group == Some(g) {
                assert(fs[fs.len() - 1].iommu_group == Some(g));
            }
        }
        match fs.last().iommu_group {
            Some(x) => {
                if !p.contains(x) {
                    assert forall|g: u32| #[trigger] group_ids(fs).contains(g) <==> has_group(
                        fs,
                        g,
                    ) by {
                        lemma_contains_push(p, x, g);
                    }
                    assert forall|a: int, b: int|
                        0 <= a < p.push(x).len() && 0 <= b < p.push(x).len() && a != b implies p.push(
                        x,
                    )[a] != p.push(x)[b] by {
                        if a == p.len() {
                            assert(p[b] == p.push(x)[b]);
                        }
                        if b == p.len() {
                            assert(p[a] == p.push(x)[a]);
                        }
                    }
                }
            },
            None => {},
        }
    }
}

fn contains_u32(v: &Vec<u32>, x: u32) -> (r: bool)
    ensures
        r == v@.contains(x),
{
    let mut i: usize = 0;
    while i < v.len()
        invariant
            i <= v@.len(),
            forall|k: int| 0 <= k < i ==> v@[k] != x,
        decreases v@.len() - i,
    {
        if v[i] == x {
            return true;
        }
        i = i + 1;
    }
    false
}

/// Distinct IOMMU group ids in order of first appearance.
pub fn group_ids_of(fs: &Vec<PciFunction>) -> (r: Vec<u32>)
    ensures
        r@ == group_ids(fs@),
{
    let mut out: Vec<u32> = Vec::new();
    let mut i: usize = 0;
    while i < fs.len()
        invariant
            i <= fs@.len(),
            out@ == group_ids(fs@.take(i as int)),
        decreases fs@.len() - i,
    {
        assert(fs@.take(i + 1).drop_last() =~= fs@.take(i as int));
        assert(fs@.take(i + 1).last() == fs@[i as int]);
        match fs[i].iommu_group {
            Some(g) => {
                if !contains_u32(&out, g) {
                    out.push(g);
                }
            },
            None => {},
        }
        i = i + 1;
    }
    assert(fs@.take(fs@.len() as int) =~= fs@);
    out
}

/// Index of the first function with the given BDF.
pub open spec fn bdf_index(fs: Seq<PciFunction>, b: Seq<char>) -> Option<int>
    decreases fs.len(),
{
    if fs.len() == 0 {
        None
    } else {
        match bdf_index(fs.drop_last(), b) {
            Some(i) => Some(i),
            None => if fs.last().bdf@ == b {
                Some(fs.len() - 1)
            } else {
                None
            },
        }
    }
}

pub proof fn lemma_bdf_index(fs: Seq<PciFunction>, b: Seq<char>)
    ensures
        match bdf_index(fs, b) {
            Some(i) => 0 <= i < fs.len() && fs[i].bdf@ == b && forall|k: int|
                0 <= k < i ==> (#[trigger] fs[k]).bdf@ != b,
            None => forall|k: int| 0 <= k < fs.len() ==> (#[trigger] fs[k]).bdf@ != b,
        },
    decreases fs.len(),
{
    if fs.len() > 0 {
        let d = fs.drop_last();
        lemma_bdf_index(d, b);
        assert forall|k: int| 0 <= k < d.len() implies d[k] == fs[k] by {}
    }
}

/// Result of resolving configured devices: the functions found, or the
/// address of the first required device that is missing.
pub open spec fn resolve_spec(fs: Seq<PciFunction>, cfgs: Seq<PciDeviceConfig>) -> core::result::Result<
    Seq<PciFunction>,
    Seq<char>,
>
    decreases cfgs.len(),
{
    if cfgs.len() == 0 {
        Ok(Seq::empty())
    } else {
        match resolve_spec(fs, cfgs.drop_last()) {
            Err(a) => Err(a),
            Ok(p) => {
                let c = cfgs.last();
                match bdf_index(fs, c.pci_address@) {
                    Some(i) => Ok(p.push(fs[i])),
                    None => if c.required {
                        Err(c.pci_address@)
                    } else {
                        Ok(p)
                    },
                }
            },
        }
    }
}

/// Error text for a required device that is not in the inventory.
pub open spec fn missing_device_msg(a: Seq<char>) -> Seq<char> {
    "required PCI device "@ + a + " not present in host inventory"@
}

/// Slot key of `b` is shared by a display controller in the inventory.
pub open spec fn in_gpu_complex(fs: Seq<PciFunction>, b: Seq<char>) -> bool {
    &&& bdf_slot(b) is Some
    &&& exists|i: int| 0 <= i < fs.len() && (#[trigger] fs[i]).bdf@ == b
    &&& exists|j: int|
        0 <= j < fs.len() && bdf_slot((#[trigger] fs[j]).bdf@) == bdf_slot(b) && is_display(fs[j])
}

/// BDFs of the members of group `gid` other than `b`, in inventory order.
pub open spec fn other_members(fs: Seq<PciFunction>, gid: u32, b: Seq<char>) -> Seq<Seq<char>>
    decreases fs.len(),
{
    if fs.len() == 0 {
        Seq::empty()
    } else {
        let p = other_members(fs.drop_last(), gid, b);
        let m = fs.last();
        if m.iommu_group == Some(gid) && m.bdf@ != b {
            p.push(m.bdf@)
        } else {
            p
        }
    }
}

/// Group members that make a vfio-ready GPU's group risky: any other
/// non-GPU, or another GPU bound to a driver other than vfio-pci.
pub open spec fn problematic_bdfs(gpu: PciFunction, members: Seq<PciFunction>) -> Seq<Seq<char>>
    decreases members.len(),
{
    if members.len() == 0 {
        Seq::empty()
    } else {
        let p = problematic_bdfs(gpu, members.drop_last());
        let m = members.last();
        if m.bdf@ == gpu.bdf@ {
            p
        } else if !is_display(m) {
            p.push(m.bdf@)
        } else {
            match gpu_kind(m) {
                Some(DriverKindView::Vfio) | Some(DriverKindView::Unbound) | None => p,
                Some(_) => p.push(m.bdf@),
            }
        }
    }
}

pub open spec fn risky_shared_prefix() -> Seq<char> {
    "GPU shares IOMMU group with other non-vfio or non-GPU devices: "@
}

pub open spec fn host_owned_reason() -> Seq<char> {
    "GPU appears host-owned (bound to graphics driver); unbinding may disrupt host display"@
}

pub open spec fn unknown_driver_reason() -> Seq<char> {
    "GPU driver state is unknown or unbound; operator review required before unbinding"@
}

pub open spec fn no_group_reason() -> Seq<char> {
    "GPU has no IOMMU group; cannot safely isolate for passthrough"@
}

/// Unbind feasibility of `gpu` with the given safety class and group members.
pub open spec fn feasibility_for(
    gpu: PciFunction,
    safety: GpuSafetyClass,
    members: Seq<PciFunction>,
) -> FeasibilityView {
    match safety {
        GpuSafetyClass::VfioReady => {
            let p = problematic_bdfs(gpu, members);
            if p.len() == 0 {
                FeasibilityView::Safe
            } else {
                FeasibilityView::Risky(risky_shared_prefix() + join(p, ", "@))
            }
        },
        GpuSafetyClass::HostOwned => FeasibilityView::Risky(host_owned_reason()),
        GpuSafetyClass::Unknown => FeasibilityView::Risky(unknown_driver_reason()),
    }
}

pub open spec fn safety_or_unknown(f: PciFunction) -> GpuSafetyClass {
    match gpu_safety(f) {
        Some(s) => s,
        None => GpuSafetyClass::Unknown,
    }
}

/// Feasibility that the inventory assigns to `gpu`: a vfio-bound GPU is
/// never unbound and so is safe; one without a group is unsafe.
pub open spec fn expected_feasibility(fs: Seq<PciFunction>, gpu: PciFunction) -> FeasibilityView {
    if bound_to_vfio(gpu) {
        FeasibilityView::Safe
    } else {
        match gpu.iommu_group {
            None => FeasibilityView::Unsafe(no_group_reason()),
            Some(g) => feasibility_for(
                gpu,
                safety_or_unknown(gpu),
                fs.filter(sel_pred(Selector::Group(g))),
            ),
        }
    }
}

/// The assessment the inventory `fs` gives for `gpu`.
pub open spec fn assessment_matches(a: GpuUnbindAssessment, fs: Seq<PciFunction>, gpu: PciFunction) -> bool {
    &&& a.bdf@ == gpu.bdf@
    &&& opt_view(a.current_driver) == opt_view(gpu.driver)
    &&& a.safety_class == safety_or_unknown(gpu)
    &&& a.iommu_group == gpu.iommu_group
    &&& views(a.group_members@) == match gpu.iommu_group {
        Some(g) => other_members(fs, g, gpu.bdf@),
        None => Seq::empty(),
    }
    &&& a.feasibility@ == expected_feasibility(fs, gpu)
}

pub open spec fn kind_view_opt(k: Option<GpuDriverKind>) -> Option<DriverKindView> {
    match k {
        Some(x) => Some(x@),
        None => None,
    }
}

/// A summary describes `f`.
pub open spec fn summary_matches(s: GpuFunctionSummary, f: PciFunction) -> bool {
    &&& s.bdf@ == f.bdf@
    &&& s.vendor_id == f.vendor_id
    &&& s.device_id == f.device_id
    &&& opt_view(s.driver) == opt_view(f.driver)
    &&& kind_view_opt(s.driver_kind) == gpu_kind(f)
    &&& s.safety == gpu_safety(f)
}

/// BDFs of `members` that make a vfio-ready GPU's group risky.
fn problematic_members(gpu: &PciFunction, members: &Vec<&PciFunction>) -> (r: Vec<String>)
    ensures
        views(r@) == problematic_bdfs(*gpu, unrefs(members@)),
{
    let mut out: Vec<String> = Vec::new();
    let mut i: usize = 0;
    while i < members.len()
        invariant
            i <= members@.len(),
            views(out@) == problematic_bdfs(*gpu, unrefs(members@.take(i as int))),
        decreases members@.len() - i,
    {
        let ghost pre = out@;
        let ghost ms = unrefs(members@.take((i + 1) as int));
        assert(ms.drop_last() =~= unrefs(members@.take(i as int)));
        assert(ms.last() == *members@[i as int]);
        let m = members[i];
        if str_eq(m.bdf.as_str(), gpu.bdf.as_str()) {
        } else if !m.is_display_controller() {
            out.push(copy_string(&m.bdf));
            assert(views(out@) =~= views(pre).push(m.bdf@));
        } else {
            let acceptable = match m.gpu_driver_kind() {
                Some(GpuDriverKind::Vfio) | Some(GpuDriverKind::Unbound) | None => true,
                Some(_) => false,
            };
            if !acceptable {
                out.push(copy_string(&m.bdf));
                assert(views(out@) =~= views(pre).push(m.bdf@));
            }
        }
        i = i + 1;
    }
    assert(members@.take(members@.len() as int) =~= members@);
    out
}

/// How safe it looks to unbind `gpu`, given its safety class and all
/// members of its IOMMU group.
fn evaluate_gpu_unbind_feasibility(
    gpu: &PciFunction,
    safety: &GpuSafetyClass,
    group_members: &Vec<&PciFunction>,
) -> (r: GpuUnbindFeasibility)
    ensures
        r@ == feasibility_for(*gpu, *safety, unrefs(group_members@)),
{
    match safety {
        GpuSafetyClass::VfioReady => {
            let problematic = problematic_members(gpu, group_members);
            if problematic.len() == 0 {
                GpuUnbindFeasibility::Safe
            } else {
                let mut msg = lit("GPU shares IOMMU group with other non-vfio or non-GPU devices: ");
                let joined = join_strings(&problematic, ", ");
                msg.append(joined.as_str());
                GpuUnbindFeasibility::Risky(msg)
            }
        },
        GpuSafetyClass::HostOwned => GpuUnbindFeasibility::Risky(
            lit(
                "GPU appears host-owned (bound to graphics driver); unbinding may disrupt host display",
            ),
        ),
        GpuSafetyClass::Unknown => GpuUnbindFeasibility::Risky(
            lit("GPU driver state is unknown or unbound; operator review required before unbinding"),
        ),
    }
}

/// BDFs of the members of `gid` other than `b`.
fn other_member_bdfs(fs: &Vec<PciFunction>, gid: u32, b: &String) -> (r: Vec<String>)
    ensures
        views(r@) == other_members(fs@, gid, b@),
{
    let mut out: Vec<String> = Vec::new();
    let mut i: usize = 0;
    while i < fs.len()
        invariant
            i <= fs@.len(),
            views(out@) == other_members(fs@.take(i as int), gid, b@),
        decreases fs@.len() - i,
    {
        let ghost pre = out@;
        assert(fs@.take(i + 1).drop_last() =~= fs@.take(i as int));
        assert(fs@.take(i + 1).last() == fs@[i as int]);
        let m = &fs[i];
        let in_group = match m.iommu_group {
            Some(x) => x == gid,
            None => false,
        };
        if in_group && !str_eq(m.bdf.as_str(), b.as_str()) {
            out.push(copy_string(&m.bdf));
            assert(views(out@) =~= views(pre).push(m.bdf@));
        }
        i = i + 1;
    }
    assert(fs@.take(fs@.len() as int) =~= fs@);
    out
}

impl PciInventory {
    /// Number of display controllers (base class 0x03).
    pub fn count_display_controllers(&self) -> (r: usize)
        ensures
            r == self.functions@.filter(sel_pred(Selector::Display)).len(),
    {
        let g = select(&self.functions, Selector::Display);
        g.len()
    }

    /// All display controllers, in inventory order.
    pub fn gpus(&self) -> (r: Vec<&PciFunction>)
        ensures
            unrefs(r@) == self.functions@.filter(sel_pred(Selector::Display)),
    {
        select(&self.functions, Selector::Display)
    }

    /// Driver binding and safety classification of every GPU.
    pub fn gpu_summaries(&self) -> (r: Vec<GpuFunctionSummary>)
        ensures
            r@.len() == self.functions@.filter(sel_pred(Selector::Display)).len(),
            forall|i: int|
                0 <= i < r@.len() ==> summary_matches(
                    #[trigger] r@[i],
                    self.functions@.filter(sel_pred(Selector::Display))[i],
                ),
    {
        let gs = self.gpus();
        let mut out: Vec<GpuFunctionSummary> = Vec::new();
        let mut i: usize = 0;
        while i < gs.len()
            invariant
                i <= gs@.len(),
                out@.len() == i,
                forall|k: int| 0 <= k < i ==> summary_matches(#[trigger] out@[k], *gs@[k]),
            decreases gs@.len() - i,
        {
            let f = gs[i];
            let kind = f.gpu_driver_kind();
            let s = GpuFunctionSummary {
                bdf: copy_string(&f.bdf),
                vendor_id: f.vendor_id,
                device_id: f.device_id,
                driver: copy_opt_string(&f.driver),
                driver_kind: kind,
                safety: f.gpu_safety_class(),
            };
            out.push(s);
            i = i + 1;
        }
        assert forall|i: int| 0 <= i < out@.len() implies summary_matches(
            #[trigger] out@[i],
            self.functions@.filter(sel_pred(Selector::Display))[i],
        ) by {
            assert(unrefs(gs@)[i] == *gs@[i]);
        }
        out
    }

    /// All network controllers.
    pub fn nics(&self) -> (r: Vec<&PciFunction>)
        ensures
            unrefs(r@) == self.functions@.filter(sel_pred(Selector::Network)),
    {
        select(&self.functions, Selector::Network)
    }

    /// All NVMe controllers.
    pub fn nvmes(&self) -> (r: Vec<&PciFunction>)
        ensures
            unrefs(r@) == self.functions@.filter(sel_pred(Selector::Nvme)),
    {
        select(&self.functions, Selector::Nvme)
    }

    /// All USB host controllers.
    pub fn usb_controllers(&self) -> (r: Vec<&PciFunction>)
        ensures
            unrefs(r@) == self.functions@.filter(sel_pred(Selector::Usb)),
    {
        select(&self.functions, Selector::Usb)
    }

    /// Functions grouped by IOMMU group; functions without a group are
    /// left out.
    pub fn by_iommu_group(&self) -> (r: HashMap<u32, Vec<&PciFunction>>)
        ensures
            forall|g: u32| #[trigger] r@.contains_key(g) <==> has_group(self.functions@, g),
            forall|g: u32|
                #[trigger] r@.contains_key(g) ==> unrefs(r@[g]@) == self.functions@.filter(
                    sel_pred(Selector::Group(g)),
                ),
    {
        let ids = group_ids_of(&self.functions);
        proof {
            lemma_group_ids(self.functions@);
        }
        let mut map: HashMap<u32, Vec<&PciFunction>> = HashMap::new();
        let mut i: usize = 0;
        while i < ids.len()
            invariant
                i <= ids@.len(),
                ids@ == group_ids(self.functions@),
                forall|g: u32| #[trigger] map@.contains_key(g) <==> ids@.take(i as int).contains(g),
                forall|g: u32|
                    #[trigger] map@.contains_key(g) ==> unrefs(map@[g]@) == self.functions@.filter(
                        sel_pred(Selector::Group(g)),
                    ),
            decreases ids@.len() - i,
        {
            let gid = ids[i];
            let members = select(&self.functions, Selector::Group(gid));
            map.insert(gid, members);
            i = i + 1;
            assert forall|g: u32| #[trigger] map@.contains_key(g) <==> ids@.take(i as int).contains(
                g,
            ) by {
                assert(ids@.take(i as int) =~= ids@.take(i - 1).push(gid));
                lemma_contains_push(ids@.take(i - 1), gid, g);
            }
        }
        assert(ids@.take(ids@.len() as int) =~= ids@);
        map
    }

    /// The first function with the given BDF.
    pub fn find_by_bdf(&self, bdf: &str) -> (r: Option<&PciFunction>)
        ensures
            match bdf_index(self.functions@, bdf@) {
                Some(i) => r == Some(&self.functions@[i]),
                None => r is None,
            },
    {
        let mut i: usize = 0;
        while i < self.functions.len()
            invariant
                i <= self.functions@.len(),
                bdf_index(self.functions@.take(i as int), bdf@) is None,
            decreases self.functions@.len() - i,
        {
            let ghost t = self.functions@.take(i + 1);
            assert(t.drop_last() =~= self.functions@.take(i as int));
            if str_eq(self.functions[i].bdf.as_str(), bdf) {
                proof {
                    lemma_bdf_prefix(self.functions@, bdf@, i + 1);
                }
                return Some(&self.functions[i]);
            }
            i = i + 1;
        }
        assert(self.functions@.take(self.functions@.len() as int) =~= self.functions@);
        None
    }

    /// Resolve configured devices against the inventory: present ones are
    /// returned in configuration order, a missing required one is an
    /// error, a missing optional one is skipped.
    pub fn resolve_configured(&self, cfgs: &[PciDeviceConfig]) -> (r: Result<Vec<&PciFunction>>)
        ensures
            match resolve_spec(self.functions@, cfgs@) {
                Ok(s) => r matches Ok(v) && unrefs(v@) == s,
                Err(a) => r matches Err(ChalybsError::Vfio(m)) && m@ == missing_device_msg(a),
            },
    {
        let mut out: Vec<&PciFunction> = Vec::new();
        let mut i: usize = 0;
        assert(cfgs@.take(0) =~= Seq::<PciDeviceConfig>::empty());
        assert(unrefs(out@) =~= Seq::<PciFunction>::empty());
        while i < cfgs.len()
            invariant
                i <= cfgs@.len(),
                resolve_spec(self.functions@, cfgs@.take(i as int)) == Ok::<
                    Seq<PciFunction>,
                    Seq<char>,
                >(unrefs(out@)),
            decreases cfgs@.len() - i,
        {
            let ghost pre = out@;
            let ghost t = cfgs@.take(i + 1);
            assert(t.drop_last() =~= cfgs@.take(i as int));
            assert(t.last() == cfgs@[i as int]);
            let dev = &cfgs[i];
            match self.find_by_bdf(dev.pci_address.as_str()) {
                Some(func) => {
                    out.push(func);
                    proof {
                        lemma_unrefs_push(pre, func);
                    }
                },
                None => {
                    if dev.required {
                        let mut m = lit("required PCI device ");
                        m.append(dev.pci_address.as_str());
                        m.append(" not present in host inventory");
                        proof {
                            lemma_resolve_err_sticks(self.functions@, cfgs@, i + 1);
                        }
                        return Err(ChalybsError::Vfio(m));
                    }
                },
            }
            i = i + 1;
        }
        assert(cfgs@.take(cfgs@.len() as int) =~= cfgs@);
        Ok(out)
    }

    /// True when `bdf` is in the inventory and some function in the same
    /// (domain, bus, slot) is a display controller.
    pub fn is_bdf_in_gpu_complex(&self, bdf: &str) -> (r: bool)
        ensures
            r == in_gpu_complex(self.functions@, bdf@),
    {
        let key = match parse_bdf_slot(bdf) {
            Some(k) => k,
            None => return false,
        };
        let fs = &self.functions;
        match self.find_by_bdf(bdf) {
            Some(_) => {},
            None => {
                proof {
                    lemma_bdf_index(fs@, bdf@);
                }
                return false;
            },
        }
        proof {
            lemma_bdf_index(fs@, bdf@);
            let k = bdf_index(fs@, bdf@)->0;
            assert(fs@[k].bdf@ == bdf@);
        }
        let mut i: usize = 0;
        while i < fs.len()
            invariant
                i <= fs@.len(),
                fs@ == self.functions@,
                bdf_slot(bdf@) == Some(key),
                exists|k: int| 0 <= k < fs@.len() && (#[trigger] fs@[k]).bdf@ == bdf@,
                forall|j: int|
                    0 <= j < i ==> !(bdf_slot((#[trigger] fs@[j]).bdf@) == bdf_slot(bdf@)
                        && is_display(fs@[j])),
            decreases fs@.len() - i,
        {
            let func = &fs[i];
            match func.slot_key() {
                Some(fkey) => {
                    if fkey.0 == key.0 && fkey.1 == key.1 && fkey.2 == key.2 && func.is_display_controller() {
                        assert(bdf_slot(fs@[i as int].bdf@) == bdf_slot(bdf@));
                        return true;
                    }
                },
                None => {},
            }
            i = i + 1;
        }
        false
    }

    /// The simulated unbind assessment of one GPU of this inventory.
    pub fn assess_gpu(&self, gpu: &PciFunction) -> (r: GpuUnbindAssessment)
        ensures
            assessment_matches(r, self.functions@, *gpu),
    {
        let safety = match gpu.gpu_safety_class() {
            Some(s) => s,
            None => GpuSafetyClass::Unknown,
        };
        let group_id = gpu.iommu_group;
        let member_bdfs: Vec<String> = match group_id {
            Some(gid) => other_member_bdfs(&self.functions, gid, &gpu.bdf),
            None => Vec::new(),
        };
        assert(views(member_bdfs@) == match gpu.iommu_group {
            Some(g) => other_members(self.functions@, g, gpu.bdf@),
            None => Seq::<Seq<char>>::empty(),
        }) by {
            if gpu.iommu_group is None {
                assert(views(member_bdfs@) =~= Seq::<Seq<char>>::empty());
            }
        }
        let feasibility = if gpu.is_bound_to_vfio() {
            GpuUnbindFeasibility::Safe
        } else {
            match group_id {
                None => GpuUnbindFeasibility::Unsafe(
                    lit("GPU has no IOMMU group; cannot safely isolate for passthrough"),
                ),
                Some(gid) => {
                    let members = select(&self.functions, Selector::Group(gid));
                    evaluate_gpu_unbind_feasibility(gpu, &safety, &members)
                },
            }
        };
        GpuUnbindAssessment {
            bdf: copy_string(&gpu.bdf),
            current_driver: copy_opt_string(&gpu.driver),
            safety_class: safety,
            iommu_group: group_id,
            group_members: member_bdfs,
            feasibility,
        }
    }

    /// Simulated unbind safety for every GPU, in inventory order.
    pub fn assess_gpu_unbind_safety(&self) -> (r: Vec<GpuUnbindAssessment>)
        ensures
            r@.len() == self.functions@.filter(sel_pred(Selector::Display)).len(),
            forall|i: int|
                0 <= i < r@.len() ==> assessment_matches(
                    #[trigger] r@[i],
                    self.functions@,
                    self.functions@.filter(sel_pred(Selector::Display))[i],
                ),
    {
        let gs = self.gpus();
        let mut out: Vec<GpuUnbindAssessment> = Vec::new();
        let mut i: usize = 0;
        while i < gs.len()
            invariant
                i <= gs@.len(),
                out@.len() == i,
                forall|k: int|
                    0 <= k < i ==> assessment_matches(#[trigger] out@[k], self.functions@, *gs@[k]),
            decreases gs@.len() - i,
        {
            out.push(self.assess_gpu(gs[i]));
            i = i + 1;
        }
        assert forall|i: int| 0 <= i < out@.len() implies assessment_matches(
            #[trigger] out@[i],
            self.functions@,
            self.functions@.filter(sel_pred(Selector::Display))[i],
        ) by {
            assert(unrefs(gs@)[i] == *gs@[i]);
        }
        out
    }
}

proof fn lemma_bdf_prefix(fs: Seq<PciFunction>, b: Seq<char>, n: int)
    requires
        0 < n <= fs.len(),
        bdf_index(fs.take(n - 1), b) is None,
        fs[n - 1].bdf@ == b,
    ensures
        bdf_index(fs, b) == Some(n - 1),
    decreases fs.len() - n,
{
    assert(fs.take(n).drop_last() =~= fs.take(n - 1));
    assert(bdf_index(fs.take(n), b) == Some(n - 1));
    if n < fs.len() {
        lemma_bdf_prefix_extend(fs, b, n);
    } else {
        assert(fs.take(n) =~= fs);
    }
}

proof fn lemma_bdf_prefix_extend(fs: Seq<PciFunction>, b: Seq<char>, n: int)
    requires
        0 <= n <= fs.len(),
        bdf_index(fs.take(n), b) is Some,
    ensures
        bdf_index(fs, b) == bdf_index(fs.take(n), b),
    decreases fs.len() - n,
{
    if n < fs.len() {
        assert(fs.take(n + 1).drop_last() =~= fs.take(n));
        lemma_bdf_prefix_extend(fs, b, n + 1);
    } else {
        assert(fs.take(n) =~= fs);
    }
}

proof fn lemma_resolve_err_sticks(fs: Seq<PciFunction>, cfgs: Seq<PciDeviceConfig>, n: int)
    requires
        0 <= n <= cfgs.len(),
        resolve_spec(fs, cfgs.take(n)) is Err,
    ensures
        resolve_spec(fs, cfgs) == resolve_spec(fs, cfgs.take(n)),
    decreases cfgs.len() - n,
{
    if n < cfgs.len() {
        assert(cfgs.take(n + 1).drop_last() =~= cfgs.take(n));
        lemma_resolve_err_sticks(fs, cfgs, n + 1);
    } else {
        assert(cfgs.take(n) =~= cfgs);
    }
}

// ---------------------------------------------------------------------------
// Reading a function's sysfs attributes
// ---------------------------------------------------------------------------

/// The digits of a sysfs hex attribute: its trimmed text without a
/// leading "0x".
pub open spec fn hex_digits(t: Seq<char>) -> Seq<char> {
    if t.len() >= 2 && t[0] == '0' && t[1] == 'x' {
        t.skip(2)
    } else {
        t
    }
}

/// A hex attribute read from `path` as an unsigned value of `bits` bits
/// (largest value `max`), or the error naming the text and the file.
pub open spec fn hex_attr(path: Seq<char>, text: Seq<char>, bits: Seq<char>, max: nat) -> core::result::Result<
    nat,
    Seq<char>,
> {
    let t = trim(text);
    match parse_full(hex_digits(t), 16, max) {
        Ok(n) => Ok(n),
        Err(e) => Err(
            "failed to parse "@ + t + " as hex u"@ + bits + " from "@ + path + ": "@ + parse_err_text(
                e,
            ),
        ),
    }
}

/// A signed decimal as `str::parse::<i32>` reads it.
pub open spec fn parse_i32(s: Seq<char>) -> Option<i32> {
    if s.len() > 0 && s[0] == '-' {
        let b = s.skip(1);
        if b.len() > 0 && b[0] != '+' {
            match parse_unsigned(b, 10, 0x8000_0000) {
                Some(n) => Some((0 - n) as i32),
                None => None,
            }
        } else {
            None
        }
    } else {
        match parse_unsigned(s, 10, 0x7fff_ffff) {
            Some(n) => Some(n as i32),
            None => None,
        }
    }
}

fn parse_i32_exec(v: &[char]) -> (r: Option<i32>)
    ensures
        r == parse_i32(v@),
{
    if v.len() > 0 && v[0] == '-' {
        let b = slice_chars(v, 1, v.len());
        assert(b@ =~= v@.skip(1));
        if b.len() > 0 && b[0] != '+' {
            match parse_unsigned_exec(b.as_slice(), 10, 0x8000_0000) {
                Some(n) => {
                    let m: i64 = 0 - (n as i64);
                    Some(m as i32)
                },
                None => None,
            }
        } else {
            None
        }
    } else {
        match parse_unsigned_exec(v, 10, 0x7fff_ffff) {
            Some(n) => Some(n as i32),
            None => None,
        }
    }
}

fn hex_attr_exec(dir: &str, name: &str, text: &str, bits: &str, max: u64) -> (r: core::result::Result<
    u64,
    String,
>)
    requires
        max >= 16,
    ensures
        match hex_attr(dir@ + "/"@ + name@, text@, bits@, max as nat) {
            Ok(n) => r == Ok::<u64, String>(n as u64) && n <= max,
            Err(m) => r matches Err(x) && x@ == m,
        },
{
    let t = trim_str(text);
    let digits = if t.len() >= 2 && t[0] == '0' && t[1] == 'x' {
        let d = slice_chars(t.as_slice(), 2, t.len());
        assert(d@ =~= t@.skip(2));
        d
    } else {
        t.clone()
    };
    assert(digits@ == hex_digits(t@));
    match parse_unsigned_full(digits.as_slice(), 16, max) {
        Ok(n) => Ok(n),
        Err(e) => {
            let mut m = lit("failed to parse ");
            m.append(string_of(t.as_slice()).as_str());
            m.append(" as hex u");
            m.append(bits);
            m.append(" from ");
            m.append(dir);
            m.append("/");
            m.append(name);
            m.append(": ");
            m.append(parse_err_message(e).as_str());
            Err(m)
        },
    }
}

/// The function read from its sysfs directory `dir` (named `bdf`): the
/// texts of its `vendor`, `device` and `class` files, the names its
/// `driver` and `iommu_group` links point at, and the text of its
/// `numa_node` file (`None` for what could not be read). The first hex
/// attribute that does not parse, in that order, is the error; a group
/// or node that does not parse is left unknown.
pub fn function_from_sysfs(
    dir: &str,
    bdf: &str,
    vendor: &str,
    device: &str,
    class: &str,
    driver_link: Option<String>,
    group_link: Option<String>,
    numa_text: Option<String>,
) -> (r: Result<PciFunction>)
    ensures
        match (
            hex_attr(dir@ + "/vendor"@, vendor@, "16"@, 0xffff),
            hex_attr(dir@ + "/device"@, device@, "16"@, 0xffff),
            hex_attr(dir@ + "/class"@, class@, "32"@, 0xffff_ffff),
        ) {
            (Ok(v), Ok(d), Ok(c)) => r matches Ok(f) && {
                &&& f.bdf@ == bdf@
                &&& f.vendor_id == v && f.device_id == d && f.class == c
                &&& opt_view(f.driver) == opt_view(driver_link)
                &&& f.iommu_group == match group_link {
                    Some(g) => match parse_unsigned(g@, 10, u32::MAX as nat) {
                        Some(n) => Some(n as u32),
                        None => None,
                    },
                    None => None,
                }
                &&& f.numa_node == match numa_text {
                    Some(t) => parse_i32(trim(t@)),
                    None => None,
                }
            },
            (Err(m), _, _) => r matches Err(ChalybsError::Vfio(x)) && x@ == m,
            (Ok(_), Err(m), _) => r matches Err(ChalybsError::Vfio(x)) && x@ == m,
            (Ok(_), Ok(_), Err(m)) => r matches Err(ChalybsError::Vfio(x)) && x@ == m,
        },
{
    proof {
        reveal_strlit("/");
        reveal_strlit("vendor");
        reveal_strlit("device");
        reveal_strlit("class");
        reveal_strlit("/vendor");
        reveal_strlit("/device");
        reveal_strlit("/class");
        assert(dir@ + "/"@ + "vendor"@ =~= dir@ + "/vendor"@);
        assert(dir@ + "/"@ + "device"@ =~= dir@ + "/device"@);
        assert(dir@ + "/"@ + "class"@ =~= dir@ + "/class"@);
    }
    let vendor_id = match hex_attr_exec(dir, "vendor", vendor, "16", 0xffff) {
        Ok(n) => n as u16,
        Err(m) => return Err(ChalybsError::Vfio(m)),
    };
    let device_id = match hex_attr_exec(dir, "device", device, "16", 0xffff) {
        Ok(n) => n as u16,
        Err(m) => return Err(ChalybsError::Vfio(m)),
    };
    let class_code = match hex_attr_exec(dir, "class", class, "32", 0xffff_ffff) {
        Ok(n) => n as u32,
        Err(m) => return Err(ChalybsError::Vfio(m)),
    };
    let iommu_group = match &group_link {
        Some(g) => {
            let gv = chars_of(g.as_str());
            match parse_unsigned_exec(gv.as_slice(), 10, u32::MAX as u64) {
                Some(n) => Some(n as u32),
                None => None,
            }
        },
        None => None,
    };
    let numa_node = match &numa_text {
        Some(t) => parse_i32_exec(trim_str(t.as_str()).as_slice()),
        None => None,
    };
    Ok(PciFunction {
        bdf: lit(bdf),
        vendor_id,
        device_id,
        class: class_code,
        driver: driver_link,
        iommu_group,
        numa_node,
    })
}

} // verus!
