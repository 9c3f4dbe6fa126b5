//! Device isolation policy: IOMMU-group exclusivity, multi-function
//! consistency and host-critical GPU sharing.
//!
//! A pure pass over the PCI inventory and a VM's configuration. Groups and
//! slots are visited in order of first appearance in the inventory.
use vstd::prelude::*;
use crate::config::{IsolationMode, PciDeviceConfig, VmConfig};
use crate::error::{ChalybsError, Result};
use crate::fmt::{dec, hex_pad, join, join_strings, u64_to_dec, u64_to_hex_pad, views};
use crate::pci::{
    bdf_slot, group_ids, group_ids_of, gpu_safety, lemma_contains_push, is_display, parse_bdf_slot, resolve_spec,
    missing_device_msg, unrefs, GpuSafetyClass, PciFunction, PciInventory,
};
use crate::text::{copy_string, lit, opt_view, str_eq};

verus! {

/// Severity of a single isolation finding.
#[derive(Debug, Clone, Copy, PartialEq, Eq, Structural)]
pub enum IsolationSeverity {
    Info,
    Warning,
    Violation,
}

/// A single isolation finding for a VM.
#[derive(Debug, Clone)]
pub struct IsolationFinding {
    pub severity: IsolationSeverity,
    pub code: &'static str,
    pub message: String,
    pub device_bdf: Option<String>,
    pub iommu_group: Option<u32>,
}

/// `IsolationFinding` with its text as characters.
pub struct FindingView {
    pub severity: IsolationSeverity,
    pub code: Seq<char>,
    pub message: Seq<char>,
    pub device_bdf: Option<Seq<char>>,
    pub iommu_group: Option<u32>,
}

impl View for IsolationFinding {
    type V = FindingView;

    open spec fn view(&self) -> FindingView {
        FindingView {
            severity: self.severity,
            code: self.code@,
            message: self.message@,
            device_bdf: opt_view(self.device_bdf),
            iommu_group: self.iommu_group,
        }
    }
}

pub open spec fn finding_views(s: Seq<IsolationFinding>) -> Seq<FindingView> {
    s.map_values(|f: IsolationFinding| f@)
}

/// Aggregate isolation report.
#[derive(Debug, Clone)]
pub struct IsolationReport {
    pub vm_name: String,
    pub findings: Vec<IsolationFinding>,
}

pub open spec fn any_violation(s: Seq<FindingView>) -> bool {
    exists|i: int| 0 <= i < s.len() && (#[trigger] s[i]).severity == IsolationSeverity::Violation
}

/// Number of violations among the findings.
pub open spec fn violation_count(s: Seq<FindingView>) -> nat
    decreases s.len(),
{
    if s.len() == 0 {
        0
    } else {
        violation_count(s.drop_last()) + if s.last().severity == IsolationSeverity::Violation {
            1nat
        } else {
            0nat
        }
    }
}

impl IsolationReport {
    pub fn has_violations(&self) -> (r: bool)
        ensures
            r == any_violation(finding_views(self.findings@)),
    {
        let mut i: usize = 0;
        while i < self.findings.len()
            invariant
                i <= self.findings@.len(),
                forall|k: int|
                    0 <= k < i ==> (#[trigger] self.findings@[k]).severity
                        != IsolationSeverity::Violation,
            decreases self.findings@.len() - i,
        {
            if self.findings[i].severity == IsolationSeverity::Violation {
                assert(finding_views(self.findings@)[i as int].severity
                    == IsolationSeverity::Violation);
                return true;
            }
            i = i + 1;
        }
        false
    }
}

fn count_violations(fs: &Vec<IsolationFinding>) -> (r: usize)
    ensures
        r == violation_count(finding_views(fs@)),
{
    let mut n: usize = 0;
    let mut i: usize = 0;
    while i < fs.len()
        invariant
            i <= fs@.len(),
            n == violation_count(finding_views(fs@.take(i as int))),
            n <= i,
        decreases fs@.len() - i,
    {
        assert(finding_views(fs@.take(i + 1)).drop_last() =~= finding_views(fs@.take(i as int)));
        if fs[i].severity == IsolationSeverity::Violation {
            n = n + 1;
        }
        i = i + 1;
    }
    assert(fs@.take(fs@.len() as int) =~= fs@);
    n
}

// ---------------------------------------------------------------------------
// Predicates over the inventory
// ---------------------------------------------------------------------------

/// BDFs of a sequence of functions.
pub open spec fn bdfs_of(s: Seq<PciFunction>) -> Seq<Seq<char>> {
    s.map_values(|f: PciFunction| f.bdf@)
}

proof fn lemma_bdfs_push(s: Seq<PciFunction>, f: PciFunction)
    ensures
        bdfs_of(s.push(f)) == bdfs_of(s).push(f.bdf@),
{
    assert(bdfs_of(s.push(f)) =~= bdfs_of(s).push(f.bdf@));
}

/// Which members of a group or slot a scan collects.
pub enum Part {
    /// Members of the group that are passed through.
    GroupPassthrough(u32),
    /// Members of the group that stay with the host.
    GroupHost(u32),
    /// Host-owned GPUs in the group.
    GroupHostGpu(u32),
    /// Functions of the slot that are passed through.
    SlotPassthrough((u16, u8, u8)),
    /// Functions of the slot that stay with the host.
    SlotHost((u16, u8, u8)),
}

pub open spec fn part_holds(part: Part, pt: Set<Seq<char>>, f: PciFunction) -> bool {
    match part {
        Part::GroupPassthrough(g) => f.iommu_group == Some(g) && pt.contains(f.bdf@),
        Part::GroupHost(g) => f.iommu_group == Some(g) && !pt.contains(f.bdf@),
        Part::GroupHostGpu(g) => f.iommu_group == Some(g) && is_display(f) && gpu_safety(f)
            == Some(GpuSafetyClass::HostOwned),
        Part::SlotPassthrough(k) => bdf_slot(f.bdf@) == Some(k) && pt.contains(f.bdf@),
        Part::SlotHost(k) => bdf_slot(f.bdf@) == Some(k) && !pt.contains(f.bdf@),
    }
}

pub open spec fn part_pred(part: Part, pt: Set<Seq<char>>) -> spec_fn(PciFunction) -> bool {
    |f: PciFunction| part_holds(part, pt, f)
}

/// BDFs of the inventory functions in `part`, in inventory order.
pub open spec fn part_bdfs(fs: Seq<PciFunction>, part: Part, pt: Set<Seq<char>>) -> Seq<Seq<char>> {
    bdfs_of(fs.filter(part_pred(part, pt)))
}

fn contains_string(v: &Vec<String>, s: &String) -> (r: bool)
    ensures
        r == views(v@).to_set().contains(s@),
{
    let mut i: usize = 0;
    while i < v.len()
        invariant
            i <= v@.len(),
            forall|k: int| 0 <= k < i ==> v@[k]@ != s@,
        decreases v@.len() - i,
    {
        if str_eq(v[i].as_str(), s.as_str()) {
            assert(views(v@)[i as int] == s@);
            return true;
        }
        i = i + 1;
    }
    assert(!views(v@).contains(s@)) by {
        if views(v@).contains(s@) {
            let k = choose|k: int| 0 <= k < views(v@).len() && views(v@)[k] == s@;
            assert(v@[k]@ == s@);
        }
    }
    false
}

fn part_holds_exec(part: &Part, pt: &Vec<String>, f: &PciFunction) -> (r: bool)
    ensures
        r == part_holds(*part, views(pt@).to_set(), *f),
{
    match part {
        Part::GroupPassthrough(g) => match f.iommu_group {
            Some(x) => x == *g && contains_string(pt, &f.bdf),
            None => false,
        },
        Part::GroupHost(g) => match f.iommu_group {
            Some(x) => x == *g && !contains_string(pt, &f.bdf),
            None => false,
        },
        Part::GroupHostGpu(g) => match f.iommu_group {
            Some(x) => x == *g && f.is_display_controller() && match f.gpu_safety_class() {
                Some(GpuSafetyClass::HostOwned) => true,
                _ => false,
            },
            None => false,
        },
        Part::SlotPassthrough(k) => match f.slot_key() {
            Some(x) => x.0 == k.0 && x.1 == k.1 && x.2 == k.2 && contains_string(pt, &f.bdf),
            None => false,
        },
        Part::SlotHost(k) => match f.slot_key() {
            Some(x) => x.0 == k.0 && x.1 == k.1 && x.2 == k.2 && !contains_string(pt, &f.bdf),
            None => false,
        },
    }
}

/// BDFs of the inventory functions in `part`.
fn collect_part(fs: &Vec<PciFunction>, part: Part, pt: &Vec<String>) -> (r: Vec<String>)
    ensures
        views(r@) == part_bdfs(fs@, part, views(pt@).to_set()),
{
    let ghost set = views(pt@).to_set();
    let mut out: Vec<String> = Vec::new();
    let mut i: usize = 0;
    while i < fs.len()
        invariant
            i <= fs@.len(),
            set == views(pt@).to_set(),
            views(out@) == bdfs_of(fs@.take(i as int).filter(part_pred(part, set))),
        decreases fs@.len() - i,
    {
        let ghost pre = out@;
        let ghost pre_f = fs@.take(i as int).filter(part_pred(part, set));
        proof {
            assert(fs@.take(i + 1) =~= fs@.take(i as int).push(fs@[i as int]));
            fs@.take(i as int).lemma_filter_push(fs@[i as int], part_pred(part, set));
        }
        if part_holds_exec(&part, pt, &fs[i]) {
            out.push(copy_string(&fs[i].bdf));
            proof {
                lemma_bdfs_push(pre_f, fs@[i as int]);
                assert(views(out@) =~= views(pre).push(fs@[i as int].bdf@));
            }
        }
        i = i + 1;
    }
    assert(fs@.take(fs@.len() as int) =~= fs@);
    out
}

fn first_string(v: &Vec<String>) -> (r: Option<String>)
    ensures
        match r {
            Some(s) => v@.len() > 0 && s@ == v@[0]@,
            None => v@.len() == 0,
        },
{
    if v.len() > 0 {
        Some(copy_string(&v[0]))
    } else {
        None
    }
}

pub open spec fn first_of(s: Seq<Seq<char>>) -> Option<Seq<char>> {
    if s.len() > 0 {
        Some(s[0])
    } else {
        None
    }
}

// ---------------------------------------------------------------------------
// IOMMU-group exclusivity
// ---------------------------------------------------------------------------

pub open spec fn exclusive_msg(gid: u32, ptb: Seq<Seq<char>>, vm: Seq<char>) -> Seq<char> {
    "IOMMU group "@ + dec(gid as nat) + " contains only passthrough devices ("@ + join(ptb, ","@)
        + "); group is exclusive for VM "@ + vm
}

pub open spec fn not_exclusive_msg(
    gid: u32,
    ptb: Seq<Seq<char>>,
    nonb: Seq<Seq<char>>,
    vm: Seq<char>,
) -> Seq<char> {
    "IOMMU group "@ + dec(gid as nat) + " contains passthrough devices ("@ + join(ptb, ","@)
        + ") and non-passthrough members ("@ + join(nonb, ","@)
        + "); this violates require_iommu_exclusive for VM "@ + vm
}

/// The finding for one group: none without passthrough members, a
/// violation when host members share it, an informational note otherwise.
pub open spec fn exclusivity_finding(
    vm: Seq<char>,
    gid: u32,
    ptb: Seq<Seq<char>>,
    nonb: Seq<Seq<char>>,
) -> Seq<FindingView> {
    if ptb.len() == 0 {
        Seq::empty()
    } else if nonb.len() == 0 {
        seq![
            FindingView {
                severity: IsolationSeverity::Info,
                code: "IOMMU_GROUP_EXCLUSIVE_PASSTHROUGH"@,
                message: exclusive_msg(gid, ptb, vm),
                device_bdf: first_of(ptb),
                iommu_group: Some(gid),
            },
        ]
    } else {
        seq![
            FindingView {
                severity: IsolationSeverity::Violation,
                code: "IOMMU_GROUP_NOT_EXCLUSIVE"@,
                message: not_exclusive_msg(gid, ptb, nonb, vm),
                device_bdf: first_of(ptb),
                iommu_group: Some(gid),
            },
        ]
    }
}

/// Exclusivity findings for the groups `ids`, in order.
pub open spec fn exclusivity_findings(
    vm: Seq<char>,
    fs: Seq<PciFunction>,
    pt: Set<Seq<char>>,
    ids: Seq<u32>,
) -> Seq<FindingView>
    decreases ids.len(),
{
    if ids.len() == 0 {
        Seq::empty()
    } else {
        let g = ids.last();
        exclusivity_findings(vm, fs, pt, ids.drop_last()) + exclusivity_finding(
            vm,
            g,
            part_bdfs(fs, Part::GroupPassthrough(g), pt),
            part_bdfs(fs, Part::GroupHost(g), pt),
        )
    }
}

fn push_finding(
    findings: &mut Vec<IsolationFinding>,
    severity: IsolationSeverity,
    code: &'static str,
    message: String,
    device_bdf: Option<String>,
    iommu_group: Option<u32>,
)
    ensures
        finding_views(final(findings)@) == finding_views(old(findings)@).push(
            FindingView {
                severity,
                code: code@,
                message: message@,
                device_bdf: opt_view(device_bdf),
                iommu_group,
            },
        ),
{
    let ghost pre = findings@;
    findings.push(IsolationFinding { severity, code, message, device_bdf, iommu_group });
    assert(finding_views(findings@) =~= finding_views(pre).push(
        FindingView {
            severity,
            code: code@,
            message: message@,
            device_bdf: opt_view(device_bdf),
            iommu_group,
        },
    ));
}

/// Any IOMMU group holding a passthrough device must hold no host device.
pub fn evaluate_iommu_exclusivity(
    vm_name: &str,
    inv: &PciInventory,
    passthrough_bdfs: &Vec<String>,
    findings: &mut Vec<IsolationFinding>,
)
    ensures
        finding_views(final(findings)@) == finding_views(old(findings)@) + exclusivity_findings(
            vm_name@,
            inv.functions@,
            views(passthrough_bdfs@).to_set(),
            group_ids(inv.functions@),
        ),
{
    let ghost pt = views(passthrough_bdfs@).to_set();
    let ghost fs = inv.functions@;
    let ghost base = finding_views(findings@);
    let ids = group_ids_of(&inv.functions);
    let mut i: usize = 0;
    assert(base + exclusivity_findings(vm_name@, fs, pt, ids@.take(0)) =~= base);
    while i < ids.len()
        invariant
            i <= ids@.len(),
            pt == views(passthrough_bdfs@).to_set(),
            fs == inv.functions@,
            finding_views(findings@) == base + exclusivity_findings(
                vm_name@,
                fs,
                pt,
                ids@.take(i as int),
            ),
        decreases ids@.len() - i,
    {
        let gid = ids[i];
        let ghost pre = finding_views(findings@);
        assert(ids@.take(i + 1).drop_last() =~= ids@.take(i as int));
        assert(ids@.take(i + 1).last() == gid);
        let passthrough_members = collect_part(&inv.functions, Part::GroupPassthrough(gid), passthrough_bdfs);
        let non_passthrough = collect_part(&inv.functions, Part::GroupHost(gid), passthrough_bdfs);
        let ghost ptb = views(passthrough_members@);
        let ghost nonb = views(non_passthrough@);
        if passthrough_members.len() == 0 {
            assert(pre + exclusivity_finding(vm_name@, gid, ptb, nonb) =~= pre);
        } else if non_passthrough.len() == 0 {
            let mut m = lit("IOMMU group ");
            m.append(u64_to_dec(gid as u64).as_str());
            m.append(" contains only passthrough devices (");
            m.append(join_strings(&passthrough_members, ",").as_str());
            m.append("); group is exclusive for VM ");
            m.append(vm_name);
            let first = first_string(&passthrough_members);
            push_finding(
                findings,
                IsolationSeverity::Info,
                "IOMMU_GROUP_EXCLUSIVE_PASSTHROUGH",
                m,
                first,
                Some(gid),
            );
        } else {
            let mut m = lit("IOMMU group ");
            m.append(u64_to_dec(gid as u64).as_str());
            m.append(" contains passthrough devices (");
            m.append(join_strings(&passthrough_members, ",").as_str());
            m.append(") and non-passthrough members (");
            m.append(join_strings(&non_passthrough, ",").as_str());
            m.append("); this violates require_iommu_exclusive for VM ");
            m.append(vm_name);
            let first = first_string(&passthrough_members);
            push_finding(
                findings,
                IsolationSeverity::Violation,
                "IOMMU_GROUP_NOT_EXCLUSIVE",
                m,
                first,
                Some(gid),
            );
        }
        i = i + 1;
    }
    assert(ids@.take(ids@.len() as int) =~= ids@);
}

// ---------------------------------------------------------------------------
// Multi-function consistency
// ---------------------------------------------------------------------------

/// Distinct slot keys of well-formed BDFs, in order of first appearance.
pub open spec fn slot_keys(fs: Seq<PciFunction>) -> Seq<(u16, u8, u8)>
    decreases fs.len(),
{
    if fs.len() == 0 {
        Seq::empty()
    } else {
        let p = slot_keys(fs.drop_last());
        match bdf_slot(fs.last().bdf@) {
            Some(k) => if p.contains(k) {
                p
            } else {
                p.push(k)
            },
            None => p,
        }
    }
}

fn contains_key3(v: &Vec<(u16, u8, u8)>, k: (u16, u8, u8)) -> (r: bool)
    ensures
        r == v@.contains(k),
{
    let mut i: usize = 0;
    while i < v.len()
        invariant
            i <= v@.len(),
            forall|j: int| 0 <= j < i ==> v@[j] != k,
        decreases v@.len() - i,
    {
        let x = v[i];
        if x.0 == k.0 && x.1 == k.1 && x.2 == k.2 {
            assert(v@[i as int] == k);
            return true;
        }
        i = i + 1;
    }
    false
}

fn slot_keys_of(fs: &Vec<PciFunction>) -> (r: Vec<(u16, u8, u8)>)
    ensures
        r@ == slot_keys(fs@),
{
    let mut out: Vec<(u16, u8, u8)> = Vec::new();
    let mut i: usize = 0;
    while i < fs.len()
        invariant
            i <= fs@.len(),
            out@ == slot_keys(fs@.take(i as int)),
        decreases fs@.len() - i,
    {
        assert(fs@.take(i + 1).drop_last() =~= fs@.take(i as int));
        assert(fs@.take(i + 1).last() == fs@[i as int]);
        match parse_bdf_slot(fs[i].bdf.as_str()) {
            Some(k) => {
                if !contains_key3(&out, k) {
                    out.push(k);
                }
            },
            None => {},
        }
        i = i + 1;
    }
    assert(fs@.take(fs@.len() as int) =~= fs@);
    out
}

pub open spec fn mixed_ownership_msg(
    key: (u16, u8, u8),
    ptb: Seq<Seq<char>>,
    hostb: Seq<Seq<char>>,
    vm: Seq<char>,
) -> Seq<char> {
    "PCI device "@ + hex_pad(key.0 as nat, 4) + ":"@ + hex_pad(key.1 as nat, 2) + ":"@ + hex_pad(
        key.2 as nat,
        2,
    ) + ".x has mixed ownership: passthrough functions ("@ + join(ptb, ","@)
        + ") and host-owned functions ("@ + join(hostb, ","@)
        + "); this violates require_multifunction_consistency for VM "@ + vm
}

/// The finding for one slot: a violation when some of its functions are
/// passed through and others are not.
pub open spec fn multifunction_finding(
    vm: Seq<char>,
    key: (u16, u8, u8),
    ptb: Seq<Seq<char>>,
    hostb: Seq<Seq<char>>,
) -> Seq<FindingView> {
    if ptb.len() == 0 || hostb.len() == 0 {
        Seq::empty()
    } else {
        seq![
            FindingView {
                severity: IsolationSeverity::Violation,
                code: "MULTIFUNCTION_MIXED_OWNERSHIP"@,
                message: mixed_ownership_msg(key, ptb, hostb, vm),
                device_bdf: first_of(ptb),
                iommu_group: None,
            },
        ]
    }
}

pub open spec fn multifunction_findings(
    vm: Seq<char>,
    fs: Seq<PciFunction>,
    pt: Set<Seq<char>>,
    keys: Seq<(u16, u8, u8)>,
) -> Seq<FindingView>
    decreases keys.len(),
{
    if keys.len() == 0 {
        Seq::empty()
    } else {
        let k = keys.last();
        multifunction_findings(vm, fs, pt, keys.drop_last()) + multifunction_finding(
            vm,
            k,
            part_bdfs(fs, Part::SlotPassthrough(k), pt),
            part_bdfs(fs, Part::SlotHost(k), pt),
        )
    }
}

/// Functions of one slot must be passed through together or not at all.
pub fn evaluate_multifunction_consistency(
    vm_name: &str,
    inv: &PciInventory,
    passthrough_bdfs: &Vec<String>,
    findings: &mut Vec<IsolationFinding>,
)
    ensures
        finding_views(final(findings)@) == finding_views(old(findings)@) + multifunction_findings(
            vm_name@,
            inv.functions@,
            views(passthrough_bdfs@).to_set(),
            slot_keys(inv.functions@),
        ),
{
    let ghost pt = views(passthrough_bdfs@).to_set();
    let ghost fs = inv.functions@;
    let ghost base = finding_views(findings@);
    let keys = slot_keys_of(&inv.functions);
    let mut i: usize = 0;
    assert(base + multifunction_findings(vm_name@, fs, pt, keys@.take(0)) =~= base);
    while i < keys.len()
        invariant
            i <= keys@.len(),
            pt == views(passthrough_bdfs@).to_set(),
            fs == inv.functions@,
            finding_views(findings@) == base + multifunction_findings(
                vm_name@,
                fs,
                pt,
                keys@.take(i as int),
            ),
        decreases keys@.len() - i,
    {
        let key = keys[i];
        let ghost pre = finding_views(findings@);
        assert(keys@.take(i + 1).drop_last() =~= keys@.take(i as int));
        assert(keys@.take(i + 1).last() == key);
        let pt_list = collect_part(&inv.functions, Part::SlotPassthrough(key), passthrough_bdfs);
        let host_list = collect_part(&inv.functions, Part::SlotHost(key), passthrough_bdfs);
        let ghost ptb = views(pt_list@);
        let ghost hostb = views(host_list@);
        if pt_list.len() == 0 || host_list.len() == 0 {
            assert(pre + multifunction_finding(vm_name@, key, ptb, hostb) =~= pre);
        } else {
            let (domain, bus, slot) = key;
            let mut m = lit("PCI device ");
            m.append(u64_to_hex_pad(domain as u64, 4).as_str());
            m.append(":");
            m.append(u64_to_hex_pad(bus as u64, 2).as_str());
            m.append(":");
            m.append(u64_to_hex_pad(slot as u64, 2).as_str());
            m.append(".x has mixed ownership: passthrough functions (");
            m.append(join_strings(&pt_list, ",").as_str());
            m.append(") and host-owned functions (");
            m.append(join_strings(&host_list, ",").as_str());
            m.append("); this violates require_multifunction_consistency for VM ");
            m.append(vm_name);
            let first = first_string(&pt_list);
            push_finding(
                findings,
                IsolationSeverity::Violation,
                "MULTIFUNCTION_MIXED_OWNERSHIP",
                m,
                first,
                None,
            );
        }
        i = i + 1;
    }
    assert(keys@.take(keys@.len() as int) =~= keys@);
}

// ---------------------------------------------------------------------------
// Host-critical GPU sharing
// ---------------------------------------------------------------------------

pub open spec fn host_gpu_shared_msg(gid: u32, gpus: Seq<Seq<char>>, vm: Seq<char>) -> Seq<char> {
    "IOMMU group "@ + dec(gid as nat) + " contains passthrough devices and host-owned GPU(s) ("@
        + join(gpus, ","@) + "); this violates forbid_host_critical_in_group for VM "@ + vm
}

pub open spec fn host_gpu_only_msg(gid: u32, gpus: Seq<Seq<char>>, vm: Seq<char>) -> Seq<char> {
    "IOMMU group "@ + dec(gid as nat) + " contains host-owned GPU(s) ("@ + join(gpus, ","@)
        + "), but no passthrough devices; group is host-only but may still be performance/availability sensitive for VM "@
        + vm
}

/// The finding for one group holding host-owned GPUs: a violation when
/// passthrough devices share it, a warning otherwise.
pub open spec fn host_critical_finding(
    vm: Seq<char>,
    gid: u32,
    has_passthrough: bool,
    gpus: Seq<Seq<char>>,
) -> Seq<FindingView> {
    if gpus.len() == 0 {
        Seq::empty()
    } else if has_passthrough {
        seq![
            FindingView {
                severity: IsolationSeverity::Violation,
                code: "HOST_CRITICAL_GPU_SHARED_GROUP"@,
                message: host_gpu_shared_msg(gid, gpus, vm),
                device_bdf: first_of(gpus),
                iommu_group: Some(gid),
            },
        ]
    } else {
        seq![
            FindingView {
                severity: IsolationSeverity::Warning,
                code: "HOST_CRITICAL_GPU_SHARED_GROUP_HOST_ONLY"@,
                message: host_gpu_only_msg(gid, gpus, vm),
                device_bdf: first_of(gpus),
                iommu_group: Some(gid),
            },
        ]
    }
}

pub open spec fn host_critical_findings(
    vm: Seq<char>,
    fs: Seq<PciFunction>,
    pt: Set<Seq<char>>,
    ids: Seq<u32>,
) -> Seq<FindingView>
    decreases ids.len(),
{
    if ids.len() == 0 {
        Seq::empty()
    } else {
        let g = ids.last();
        host_critical_findings(vm, fs, pt, ids.drop_last()) + host_critical_finding(
            vm,
            g,
            part_bdfs(fs, Part::GroupPassthrough(g), pt).len() > 0,
            part_bdfs(fs, Part::GroupHostGpu(g), pt),
        )
    }
}

/// No passthrough device may share an IOMMU group with a host-owned GPU;
/// a group of host-owned GPUs without passthrough devices is a warning.
pub fn evaluate_host_critical_sharing(
    vm_name: &str,
    inv: &PciInventory,
    passthrough_bdfs: &Vec<String>,
    findings: &mut Vec<IsolationFinding>,
)
    ensures
        finding_views(final(findings)@) == finding_views(old(findings)@) + host_critical_findings(
            vm_name@,
            inv.functions@,
            views(passthrough_bdfs@).to_set(),
            group_ids(inv.functions@),
        ),
{
    let ghost pt = views(passthrough_bdfs@).to_set();
    let ghost fs = inv.functions@;
    let ghost base = finding_views(findings@);
    let ids = group_ids_of(&inv.functions);
    let mut i: usize = 0;
    assert(base + host_critical_findings(vm_name@, fs, pt, ids@.take(0)) =~= base);
    while i < ids.len()
        invariant
            i <= ids@.len(),
            pt == views(passthrough_bdfs@).to_set(),
            fs == inv.functions@,
            finding_views(findings@) == base + host_critical_findings(
                vm_name@,
                fs,
                pt,
                ids@.take(i as int),
            ),
        decreases ids@.len() - i,
    {
        let gid = ids[i];
        let ghost pre = finding_views(findings@);
        assert(ids@.take(i + 1).drop_last() =~= ids@.take(i as int));
        assert(ids@.take(i + 1).last() == gid);
        let pt_members = collect_part(&inv.functions, Part::GroupPassthrough(gid), passthrough_bdfs);
        let gpu_bdfs = collect_part(&inv.functions, Part::GroupHostGpu(gid), passthrough_bdfs);
        let has_passthrough = pt_members.len() > 0;
        let ghost gpus = views(gpu_bdfs@);
        if gpu_bdfs.len() == 0 {
            assert(pre + host_critical_finding(vm_name@, gid, has_passthrough, gpus) =~= pre);
        } else if has_passthrough {
            let mut m = lit("IOMMU group ");
            m.append(u64_to_dec(gid as u64).as_str());
            m.append(" contains passthrough devices and host-owned GPU(s) (");
            m.append(join_strings(&gpu_bdfs, ",").as_str());
            m.append("); this violates forbid_host_critical_in_group for VM ");
            m.append(vm_name);
            let first = first_string(&gpu_bdfs);
            push_finding(
                findings,
                IsolationSeverity::Violation,
                "HOST_CRITICAL_GPU_SHARED_GROUP",
                m,
                first,
                Some(gid),
            );
        } else {
            let mut m = lit("IOMMU group ");
            m.append(u64_to_dec(gid as u64).as_str());
            m.append(" contains host-owned GPU(s) (");
            m.append(join_strings(&gpu_bdfs, ",").as_str());
            m.append(
                "), but no passthrough devices; group is host-only but may still be performance/availability sensitive for VM ",
            );
            m.append(vm_name);
            let first = first_string(&gpu_bdfs);
            push_finding(
                findings,
                IsolationSeverity::Warning,
                "HOST_CRITICAL_GPU_SHARED_GROUP_HOST_ONLY",
                m,
                first,
                Some(gid),
            );
        }
        i = i + 1;
    }
    assert(ids@.take(ids@.len() as int) =~= ids@);
}

// ---------------------------------------------------------------------------
// Whole-VM evaluation
// ---------------------------------------------------------------------------

/// Parse a BDF "dddd:bb:ss.f" into its (domain, bus, slot) key.
pub fn parse_slot_key(bdf: &str) -> (r: Option<(u16, u8, u8)>)
    ensures
        r == bdf_slot(bdf@),
{
    parse_bdf_slot(bdf)
}

/// The functions that a configured device list resolves to.
pub open spec fn kind_resolve(fs: Seq<PciFunction>, o: Option<Vec<PciDeviceConfig>>) -> core::result::Result<
    Seq<PciFunction>,
    Seq<char>,
> {
    match o {
        Some(v) => if v@.len() == 0 {
            Ok(Seq::empty())
        } else {
            resolve_spec(fs, v@)
        },
        None => Ok(Seq::empty()),
    }
}

/// The set of passthrough BDFs of a VM (GPU, NVMe, NIC, USB in that
/// order), or the address of the first required device that is missing.
pub open spec fn passthrough_spec(cfg: VmConfig, fs: Seq<PciFunction>) -> core::result::Result<
    Set<Seq<char>>,
    Seq<char>,
> {
    match kind_resolve(fs, cfg.devices.gpu) {
        Err(a) => Err(a),
        Ok(g) => match kind_resolve(fs, cfg.devices.nvme) {
            Err(a) => Err(a),
            Ok(n) => match kind_resolve(fs, cfg.devices.nic) {
                Err(a) => Err(a),
                Ok(c) => match kind_resolve(fs, cfg.devices.usb) {
                    Err(a) => Err(a),
                    Ok(u) => Ok(
                        bdfs_of(g).to_set().union(bdfs_of(n).to_set()).union(
                            bdfs_of(c).to_set(),
                        ).union(bdfs_of(u).to_set()),
                    ),
                },
            },
        },
    }
}

/// Add the BDFs of the resolved devices of one kind to `out`.
fn collect_devices_for_kind(
    cfgs_opt: Option<&Vec<PciDeviceConfig>>,
    inv: &PciInventory,
    out: &mut Vec<String>,
) -> (r: Result<()>)
    requires
        views(old(out)@).no_duplicates(),
    ensures
        match kind_resolve(
            inv.functions@,
            match cfgs_opt {
                Some(v) => Some(*v),
                None => None,
            },
        ) {
            Ok(s) => r is Ok && views(final(out)@).to_set() == views(old(out)@).to_set().union(
                bdfs_of(s).to_set(),
            ) && views(final(out)@).no_duplicates(),
            Err(a) => r matches Err(ChalybsError::Vfio(m)) && m@ == missing_device_msg(a),
        },
{
    let cfgs = match cfgs_opt {
        Some(c) => c,
        None => {
            assert(bdfs_of(Seq::<PciFunction>::empty()).to_set() =~= Set::<Seq<char>>::empty());
            assert(views(out@).to_set().union(Set::<Seq<char>>::empty()) =~= views(out@).to_set());
            return Ok(());
        },
    };
    if cfgs.len() == 0 {
        assert(bdfs_of(Seq::<PciFunction>::empty()).to_set() =~= Set::<Seq<char>>::empty());
        assert(views(out@).to_set().union(Set::<Seq<char>>::empty()) =~= views(out@).to_set());
        return Ok(());
    }
    let funcs = match inv.resolve_configured(cfgs.as_slice()) {
        Ok(f) => f,
        Err(e) => return Err(e),
    };
    let ghost s = unrefs(funcs@);
    let ghost base = views(out@).to_set();
    let mut i: usize = 0;
    while i < funcs.len()
        invariant
            i <= funcs@.len(),
            s == unrefs(funcs@),
            views(out@).no_duplicates(),
            views(out@).to_set() == base.union(bdfs_of(s.take(i as int)).to_set()),
        decreases funcs@.len() - i,
    {
        let ghost pre = out@;
        let b = &funcs[i].bdf;
        let ghost old_b = bdfs_of(s.take(i as int));
        assert(bdfs_of(s.take(i + 1)) =~= old_b.push(b@));
        assert(views(pre).to_set() == base.union(old_b.to_set()));
        if !contains_string(out, b) {
            out.push(copy_string(b));
            assert(views(out@) =~= views(pre).push(b@));
            assert(views(out@).no_duplicates()) by {
                assert forall|x: int, y: int|
                    0 <= x < views(out@).len() && 0 <= y < views(out@).len() && x != y implies views(
                    out@,
                )[x] != views(out@)[y] by {
                    if x == views(pre).len() {
                        assert(views(pre).contains(views(pre)[y]));
                    }
                    if y == views(pre).len() {
                        assert(views(pre).contains(views(pre)[x]));
                    }
                }
            }
            assert forall|x: Seq<char>| #[trigger] views(out@).to_set().contains(x) <==> base.union(
                old_b.push(b@).to_set(),
            ).contains(x) by {
                lemma_contains_push(old_b, b@, x);
                lemma_contains_push(views(pre), b@, x);
                assert(views(pre).to_set().contains(x) == base.union(old_b.to_set()).contains(x));
            }
        } else {
            assert(views(pre).contains(b@));
            assert forall|x: Seq<char>| #[trigger] views(out@).to_set().contains(x) <==> base.union(
                old_b.push(b@).to_set(),
            ).contains(x) by {
                lemma_contains_push(old_b, b@, x);
                assert(views(pre).to_set().contains(x) == base.union(old_b.to_set()).contains(x));
            }
        }
        assert(views(out@).to_set() =~= base.union(bdfs_of(s.take(i + 1)).to_set()));
        i = i + 1;
    }
    assert(s.take(s.len() as int) =~= s);
    Ok(())
}

/// The BDFs of all configured passthrough devices that resolve in the
/// inventory, without repeats.
fn collect_passthrough_bdfs(cfg: &VmConfig, inv: &PciInventory) -> (r: Result<Vec<String>>)
    ensures
        match passthrough_spec(*cfg, inv.functions@) {
            Ok(set) => r matches Ok(v) && views(v@).to_set() == set,
            Err(a) => r matches Err(ChalybsError::Vfio(m)) && m@ == missing_device_msg(a),
        },
{
    let mut set: Vec<String> = Vec::new();
    assert(views(set@).to_set() =~= Set::<Seq<char>>::empty());
    match collect_devices_for_kind(cfg.devices.gpu.as_ref(), inv, &mut set) {
        Ok(()) => {},
        Err(e) => return Err(e),
    }
    match collect_devices_for_kind(cfg.devices.nvme.as_ref(), inv, &mut set) {
        Ok(()) => {},
        Err(e) => return Err(e),
    }
    match collect_devices_for_kind(cfg.devices.nic.as_ref(), inv, &mut set) {
        Ok(()) => {},
        Err(e) => return Err(e),
    }
    match collect_devices_for_kind(cfg.devices.usb.as_ref(), inv, &mut set) {
        Ok(()) => {},
        Err(e) => return Err(e),
    }
    proof {
        let fs = inv.functions@;
        let g = kind_resolve(fs, cfg.devices.gpu)->Ok_0;
        assert(Set::<Seq<char>>::empty().union(bdfs_of(g).to_set()) =~= bdfs_of(g).to_set());
    }
    Ok(set)
}

/// All findings the policy asks for, in the order the checks run.
pub open spec fn isolation_findings(
    vm: Seq<char>,
    cfg: VmConfig,
    fs: Seq<PciFunction>,
    pt: Set<Seq<char>>,
) -> Seq<FindingView> {
    let p = cfg.isolation;
    (if p.require_iommu_exclusive {
        exclusivity_findings(vm, fs, pt, group_ids(fs))
    } else {
        Seq::empty()
    }) + (if p.require_multifunction_consistency {
        multifunction_findings(vm, fs, pt, slot_keys(fs))
    } else {
        Seq::empty()
    }) + (if p.forbid_host_critical_in_group {
        host_critical_findings(vm, fs, pt, group_ids(fs))
    } else {
        Seq::empty()
    })
}

/// The report of all isolation findings for a VM, whatever the mode.
pub fn isolation_report(vm_name: &str, cfg: &VmConfig, inv: &PciInventory) -> (r: Result<
    IsolationReport,
>)
    ensures
        match passthrough_spec(*cfg, inv.functions@) {
            Ok(pt) => r matches Ok(rep) && rep.vm_name@ == vm_name@ && finding_views(
                rep.findings@,
            ) == isolation_findings(vm_name@, *cfg, inv.functions@, pt),
            Err(a) => r matches Err(ChalybsError::Vfio(m)) && m@ == missing_device_msg(a),
        },
{
    let policy = cfg.isolation;
    let passthrough_bdfs = match collect_passthrough_bdfs(cfg, inv) {
        Ok(p) => p,
        Err(e) => return Err(e),
    };
    let ghost pt = views(passthrough_bdfs@).to_set();
    let ghost fs = inv.functions@;
    let mut findings: Vec<IsolationFinding> = Vec::new();
    let ghost e = finding_views(findings@);
    assert(e =~= Seq::<FindingView>::empty());
    if policy.require_iommu_exclusive {
        evaluate_iommu_exclusivity(vm_name, inv, &passthrough_bdfs, &mut findings);
    }
    let ghost f1 = finding_views(findings@);
    if policy.require_multifunction_consistency {
        evaluate_multifunction_consistency(vm_name, inv, &passthrough_bdfs, &mut findings);
    }
    let ghost f2 = finding_views(findings@);
    if policy.forbid_host_critical_in_group {
        evaluate_host_critical_sharing(vm_name, inv, &passthrough_bdfs, &mut findings);
    }
    assert(finding_views(findings@) =~= isolation_findings(vm_name@, *cfg, fs, pt));
    Ok(IsolationReport { vm_name: String::from_str(vm_name), findings })
}

proof fn lemma_part_witness(fs: Seq<PciFunction>, part: Part, pt: Set<Seq<char>>)
    requires
        part_bdfs(fs, part, pt).len() > 0,
    ensures
        exists|j: int| 0 <= j < fs.len() && part_holds(part, pt, #[trigger] fs[j]),
{
    let pred = part_pred(part, pt);
    let flt = fs.filter(pred);
    assert(part_bdfs(fs, part, pt).len() == flt.len());
    fs.filter_lemma(pred);
    assert(pred(flt[0]));
    assert(flt.contains(flt[0]));
    fs.lemma_filter_contains_rev(pred, flt[0]);
    let j = choose|j: int| 0 <= j < fs.len() && fs[j] == flt[0];
    assert(part_holds(part, pt, fs[j]));
}

proof fn lemma_any_violation_concat(a: Seq<FindingView>, b: Seq<FindingView>)
    ensures
        any_violation(a + b) ==> any_violation(a) || any_violation(b),
{
    if any_violation(a + b) {
        let i = choose|i: int| 0 <= i < (a + b).len() && (#[trigger] (a + b)[i]).severity
            == IsolationSeverity::Violation;
        if i < a.len() {
            assert(a[i] == (a + b)[i]);
        } else {
            assert(b[i - a.len()] == (a + b)[i]);
        }
    }
}

/// No group holds both a passthrough device and a device left with the
/// host, nor a passthrough device and a host-owned GPU.
pub open spec fn groups_isolated(fs: Seq<PciFunction>, pt: Set<Seq<char>>) -> bool {
    forall|a: int, b: int|
        #![trigger fs[a], fs[b]]
        0 <= a < fs.len() && 0 <= b < fs.len() && fs[a].iommu_group is Some && fs[b].iommu_group
            == fs[a].iommu_group && pt.contains(fs[a].bdf@) ==> pt.contains(fs[b].bdf@) && !(is_display(
            fs[b],
        ) && gpu_safety(fs[b]) == Some(GpuSafetyClass::HostOwned))
}

/// No slot has some functions passed through and others not.
pub open spec fn slots_whole(fs: Seq<PciFunction>, pt: Set<Seq<char>>) -> bool {
    forall|a: int, b: int|
        #![trigger fs[a], fs[b]]
        0 <= a < fs.len() && 0 <= b < fs.len() && bdf_slot(fs[a].bdf@) is Some && bdf_slot(fs[b].bdf@)
            == bdf_slot(fs[a].bdf@) && pt.contains(fs[a].bdf@) ==> pt.contains(fs[b].bdf@)
}

proof fn lemma_exclusivity_clean(vm: Seq<char>, fs: Seq<PciFunction>, pt: Set<Seq<char>>, ids: Seq<u32>)
    requires
        groups_isolated(fs, pt),
    ensures
        !any_violation(exclusivity_findings(vm, fs, pt, ids)),
    decreases ids.len(),
{
    if ids.len() > 0 {
        let g = ids.last();
        lemma_exclusivity_clean(vm, fs, pt, ids.drop_last());
        let ptb = part_bdfs(fs, Part::GroupPassthrough(g), pt);
        let nonb = part_bdfs(fs, Part::GroupHost(g), pt);
        if ptb.len() > 0 && nonb.len() > 0 {
            lemma_part_witness(fs, Part::GroupPassthrough(g), pt);
            lemma_part_witness(fs, Part::GroupHost(g), pt);
            let a = choose|j: int| 0 <= j < fs.len() && part_holds(Part::GroupPassthrough(g), pt, #[trigger] fs[j]);
            let b = choose|j: int| 0 <= j < fs.len() && part_holds(Part::GroupHost(g), pt, #[trigger] fs[j]);
            assert(pt.contains(fs[b].bdf@));
        }
        let last = exclusivity_finding(vm, g, ptb, nonb);
        assert(!any_violation(last));
        lemma_any_violation_concat(exclusivity_findings(vm, fs, pt, ids.drop_last()), last);
    }
}

proof fn lemma_multifunction_clean(vm: Seq<char>, fs: Seq<PciFunction>, pt: Set<Seq<char>>, keys: Seq<(u16, u8, u8)>)
    requires
        slots_whole(fs, pt),
    ensures
        !any_violation(multifunction_findings(vm, fs, pt, keys)),
    decreases keys.len(),
{
    if keys.len() > 0 {
        let k = keys.last();
        lemma_multifunction_clean(vm, fs, pt, keys.drop_last());
        let ptb = part_bdfs(fs, Part::SlotPassthrough(k), pt);
        let hostb = part_bdfs(fs, Part::SlotHost(k), pt);
        if ptb.len() > 0 && hostb.len() > 0 {
            lemma_part_witness(fs, Part::SlotPassthrough(k), pt);
            lemma_part_witness(fs, Part::SlotHost(k), pt);
            let a = choose|j: int| 0 <= j < fs.len() && part_holds(Part::SlotPassthrough(k), pt, #[trigger] fs[j]);
            let b = choose|j: int| 0 <= j < fs.len() && part_holds(Part::SlotHost(k), pt, #[trigger] fs[j]);
            assert(pt.contains(fs[b].bdf@));
        }
        let last = multifunction_finding(vm, k, ptb, hostb);
        assert(!any_violation(last));
        lemma_any_violation_concat(multifunction_findings(vm, fs, pt, keys.drop_last()), last);
    }
}

proof fn lemma_host_critical_clean(vm: Seq<char>, fs: Seq<PciFunction>, pt: Set<Seq<char>>, ids: Seq<u32>)
    requires
        groups_isolated(fs, pt),
    ensures
        !any_violation(host_critical_findings(vm, fs, pt, ids)),
    decreases ids.len(),
{
    if ids.len() > 0 {
        let g = ids.last();
        lemma_host_critical_clean(vm, fs, pt, ids.drop_last());
        let has = part_bdfs(fs, Part::GroupPassthrough(g), pt).len() > 0;
        let gpus = part_bdfs(fs, Part::GroupHostGpu(g), pt);
        if has && gpus.len() > 0 {
            lemma_part_witness(fs, Part::GroupPassthrough(g), pt);
            lemma_part_witness(fs, Part::GroupHostGpu(g), pt);
            let a = choose|j: int| 0 <= j < fs.len() && part_holds(Part::GroupPassthrough(g), pt, #[trigger] fs[j]);
            let b = choose|j: int| 0 <= j < fs.len() && part_holds(Part::GroupHostGpu(g), pt, #[trigger] fs[j]);
            assert(!(is_display(fs[b]) && gpu_safety(fs[b]) == Some(GpuSafetyClass::HostOwned)));
        }
        let last = host_critical_finding(vm, g, has, gpus);
        assert(!any_violation(last));
        lemma_any_violation_concat(host_critical_findings(vm, fs, pt, ids.drop_last()), last);
    }
}

/// Isolation that holds passes the policy: when no IOMMU group mixes a
/// passthrough device with a host device or a host-owned GPU, and no slot
/// is split between the VM and the host, no finding is a violation, so
/// `evaluate_isolation_for_vm` succeeds even in `Enforce` mode. In
/// particular a group made only of passthrough devices is never a
/// violation.
pub proof fn lemma_isolated_devices_pass(vm: Seq<char>, cfg: VmConfig, fs: Seq<PciFunction>, pt: Set<Seq<char>>)
    requires
        groups_isolated(fs, pt),
        slots_whole(fs, pt),
    ensures
        !any_violation(isolation_findings(vm, cfg, fs, pt)),
        violation_count(isolation_findings(vm, cfg, fs, pt)) == 0,
{
    let p = cfg.isolation;
    let e1 = if p.require_iommu_exclusive {
        exclusivity_findings(vm, fs, pt, group_ids(fs))
    } else {
        Seq::empty()
    };
    let e2 = if p.require_multifunction_consistency {
        multifunction_findings(vm, fs, pt, slot_keys(fs))
    } else {
        Seq::empty()
    };
    let e3 = if p.forbid_host_critical_in_group {
        host_critical_findings(vm, fs, pt, group_ids(fs))
    } else {
        Seq::empty()
    };
    lemma_exclusivity_clean(vm, fs, pt, group_ids(fs));
    lemma_multifunction_clean(vm, fs, pt, slot_keys(fs));
    lemma_host_critical_clean(vm, fs, pt, group_ids(fs));
    assert(!any_violation(Seq::<FindingView>::empty()));
    lemma_any_violation_concat(e1, e2);
    lemma_any_violation_concat(e1 + e2, e3);
    assert(isolation_findings(vm, cfg, fs, pt) == e1 + e2 + e3);
    lemma_no_violation_count(isolation_findings(vm, cfg, fs, pt));
}

proof fn lemma_no_violation_count(s: Seq<FindingView>)
    requires
        !any_violation(s),
    ensures
        violation_count(s) == 0,
    decreases s.len(),
{
    if s.len() > 0 {
        assert(s.last() == s[s.len() - 1]);
        assert forall|i: int| 0 <= i < s.drop_last().len() implies (#[trigger] s.drop_last()[i]).severity
            != IsolationSeverity::Violation by {
            assert(s.drop_last()[i] == s[i]);
        }
        lemma_no_violation_count(s.drop_last());
    }
}

/// A group whose members are all passthrough devices is never a
/// violation: its exclusivity finding is informational.
pub proof fn lemma_exclusive_group_is_info(vm: Seq<char>, g: u32, ptb: Seq<Seq<char>>)
    ensures
        !any_violation(exclusivity_finding(vm, g, ptb, Seq::empty())),
{
}

pub open spec fn violations_msg(vm: Seq<char>, n: nat) -> Seq<char> {
    "VM "@ + vm + ": device isolation policy violations detected (count = "@ + dec(n)
        + "); see logs for detailed findings"@
}

/// Evaluate a VM's device isolation policy: `Disabled` never fails;
/// otherwise an unresolvable required device is an error, and in
/// `Enforce` mode so is any violation.
pub fn evaluate_isolation_for_vm(vm_name: &str, cfg: &VmConfig, inv: &PciInventory) -> (r: Result<
    (),
>)
    ensures
        cfg.isolation.mode == IsolationMode::Disabled ==> r is Ok,
        cfg.isolation.mode != IsolationMode::Disabled ==> match passthrough_spec(
            *cfg,
            inv.functions@,
        ) {
            Err(a) => r matches Err(ChalybsError::Vfio(m)) && m@ == missing_device_msg(a),
            Ok(pt) => {
                let f = isolation_findings(vm_name@, *cfg, inv.functions@, pt);
                if cfg.isolation.mode == IsolationMode::Enforce && any_violation(f) {
                    r matches Err(ChalybsError::Vfio(m)) && m@ == violations_msg(
                        vm_name@,
                        violation_count(f),
                    )
                } else {
                    r is Ok
                }
            },
        },
{
    match cfg.isolation.mode {
        IsolationMode::Disabled => {
            return Ok(());
        },
        _ => {},
    }
    let report = match isolation_report(vm_name, cfg, inv) {
        Ok(rep) => rep,
        Err(e) => return Err(e),
    };
    match cfg.isolation.mode {
        IsolationMode::Enforce => {
            if report.has_violations() {
                let n = count_violations(&report.findings);
                let mut m = lit("VM ");
                m.append(vm_name);
                m.append(": device isolation policy violations detected (count = ");
                m.append(u64_to_dec(n as u64).as_str());
                m.append("); see logs for detailed findings");
                Err(ChalybsError::Vfio(m))
            } else {
                Ok(())
            }
        },
        _ => Ok(()),
    }
}

} // verus!
