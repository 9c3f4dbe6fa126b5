//! Deterministic restore of original driver bindings at shutdown.
//!
//! Planning is pure: which devices are skipped and why, and which need a
//! bind to their original driver, in class order GPU, NVMe, NIC, USB,
//! other. The application performs the binds and records their outcome.
use vstd::prelude::*;
use crate::model::VfioTransition;
use crate::vfio::execute::{driver_of, WriteOutcome};
use crate::pci::{
    bdf_index, is_display, is_network, is_nvme_fn, is_usb, PciFunction, PciInventory,
};
use crate::text::{chars_of, copy_opt_string, copy_string, lit, opt_view, str_eq, string_of, trim, trim_chars};

verus! {

/// Restore execution mode.
#[derive(Debug, Clone, Copy, PartialEq, Eq, Structural)]
pub enum RestoreMode {
    /// Perform the sysfs writes.
    Live,
    /// Plan only.
    DryRun,
}

/// Result of one restore attempt.
#[derive(Debug, Clone, Copy, PartialEq, Eq, Structural)]
pub enum RestoreResultKind {
    Succeeded,
    DryRunPlanned,
    SkippedOriginallyUnbound,
    SkippedOriginallyVfio,
    SkippedDeviceMissing,
    Failed,
}

/// Outcome for one device.
#[derive(Debug, Clone)]
pub struct RestoreOutcome {
    pub bdf: String,
    pub original_driver: Option<String>,
    pub target_driver: Option<String>,
    pub iommu_group: Option<u32>,
    pub result: RestoreResultKind,
    pub reason: Option<String>,
}

/// Summary of a VM's restore.
#[derive(Debug, Clone)]
pub struct RestoreSummary {
    pub vm_name: String,
    pub mode: RestoreMode,
    pub outcomes: Vec<RestoreOutcome>,
}

pub open spec fn count_result(s: Seq<RestoreOutcome>, k: RestoreResultKind) -> nat
    decreases s.len(),
{
    if s.len() == 0 {
        0
    } else {
        count_result(s.drop_last(), k) + if s.last().result == k {
            1nat
        } else {
            0nat
        }
    }
}

fn count_result_exec(s: &Vec<RestoreOutcome>, k: RestoreResultKind) -> (r: usize)
    ensures
        r == count_result(s@, k),
{
    let mut n: usize = 0;
    let mut i: usize = 0;
    while i < s.len()
        invariant
            i <= s@.len(),
            n == count_result(s@.take(i as int), k),
            n <= i,
        decreases s@.len() - i,
    {
        assert(s@.take(i + 1).drop_last() =~= s@.take(i as int));
        if s[i].result == k {
            n = n + 1;
        }
        i = i + 1;
    }
    assert(s@.take(s@.len() as int) =~= s@);
    n
}

impl RestoreSummary {
    /// Devices whose restore succeeded.
    pub fn restored_count(&self) -> (r: usize)
        ensures
            r == count_result(self.outcomes@, RestoreResultKind::Succeeded),
    {
        count_result_exec(&self.outcomes, RestoreResultKind::Succeeded)
    }

    /// Devices whose restore failed.
    pub fn failed_count(&self) -> (r: usize)
        ensures
            r == count_result(self.outcomes@, RestoreResultKind::Failed),
    {
        count_result_exec(&self.outcomes, RestoreResultKind::Failed)
    }
}

/// A bind to perform: the device and its original driver.
#[derive(Debug, Clone)]
pub struct PendingBind {
    pub bdf: String,
    pub driver: String,
    pub iommu_group: Option<u32>,
    /// The device is a GPU (vendor-reset hooks apply).
    pub is_gpu: bool,
}

/// One step of a restore: a decided outcome or a bind to perform.
#[derive(Debug, Clone)]
pub enum RestoreStep {
    Outcome(RestoreOutcome),
    Bind(PendingBind),
}

/// (kind, bdf, original, target, group, result, reason) of a step; kind 0
/// for a decided outcome, 1 for a bind (whose driver is the original).
pub type StepView = (int, Seq<char>, Option<Seq<char>>, Option<Seq<char>>, Option<u32>, RestoreResultKind, Option<Seq<char>>);

pub open spec fn outcome_view(o: RestoreOutcome) -> StepView {
    (0, o.bdf@, opt_view(o.original_driver), opt_view(o.target_driver), o.iommu_group, o.result, opt_view(o.reason))
}

pub open spec fn restore_step_view(s: RestoreStep) -> StepView {
    match s {
        RestoreStep::Outcome(o) => outcome_view(o),
        RestoreStep::Bind(b) => (1, b.bdf@, Some(b.driver@), Some(b.driver@), b.iommu_group, RestoreResultKind::Succeeded, None),
    }
}

/// Restore class of a device: 0 GPU, 1 NVMe, 2 NIC, 3 USB, 4 other.
pub open spec fn class_rank(f: PciFunction) -> int {
    if is_display(f) {
        0
    } else if is_nvme_fn(f) {
        1
    } else if is_network(f) {
        2
    } else if is_usb(f) {
        3
    } else {
        4
    }
}

/// The original driver, trimmed; blank counts as none.
pub open spec fn original_driver(t: VfioTransition) -> Option<Seq<char>> {
    match opt_view(t.from_driver) {
        Some(d) => if trim(d).len() == 0 {
            None
        } else {
            Some(trim(d))
        },
        None => None,
    }
}

pub open spec fn group_of(t: VfioTransition, f: PciFunction) -> Option<u32> {
    match t.iommu_group {
        Some(g) => Some(g),
        None => f.iommu_group,
    }
}

/// The step for a transition found in the inventory as `f`.
pub open spec fn step_of(t: VfioTransition, f: PciFunction, mode: RestoreMode) -> StepView {
    let g = group_of(t, f);
    match original_driver(t) {
        None => (0, t.bdf@, None, None, g, RestoreResultKind::SkippedOriginallyUnbound, Some(
            "original driver was None; leaving device unbound"@,
        )),
        Some(d) => if d == "vfio-pci"@ {
            (0, t.bdf@, Some(d), Some(d), g, RestoreResultKind::SkippedOriginallyVfio, Some(
                "device was originally bound to vfio-pci; no restore needed"@,
            ))
        } else if mode == RestoreMode::DryRun {
            (0, t.bdf@, Some(d), Some(d), g, RestoreResultKind::DryRunPlanned, Some(
                "dry-run: no sysfs writes performed"@,
            ))
        } else {
            (1, t.bdf@, Some(d), Some(d), g, RestoreResultKind::Succeeded, None)
        },
    }
}

pub open spec fn found_fn(fs: Seq<PciFunction>, t: VfioTransition) -> Option<PciFunction> {
    match bdf_index(fs, t.bdf@) {
        Some(i) => Some(fs[i]),
        None => None,
    }
}

/// Steps for transitions missing from the inventory, in order.
pub open spec fn missing_steps(ts: Seq<VfioTransition>, fs: Seq<PciFunction>) -> Seq<StepView>
    decreases ts.len(),
{
    if ts.len() == 0 {
        Seq::empty()
    } else {
        let p = missing_steps(ts.drop_last(), fs);
        let t = ts.last();
        if found_fn(fs, t) is None {
            p.push(
                (0, t.bdf@, opt_view(t.from_driver), opt_view(t.from_driver), t.iommu_group, RestoreResultKind::SkippedDeviceMissing, Some(
                    "device from VFIO transition not found in inventory at restore time"@,
                )),
            )
        } else {
            p
        }
    }
}

/// Steps for the found transitions of one class, in order.
pub open spec fn class_steps(ts: Seq<VfioTransition>, fs: Seq<PciFunction>, rank: int, mode: RestoreMode) -> Seq<
    StepView,
>
    decreases ts.len(),
{
    if ts.len() == 0 {
        Seq::empty()
    } else {
        let p = class_steps(ts.drop_last(), fs, rank, mode);
        let t = ts.last();
        match found_fn(fs, t) {
            Some(f) => if class_rank(f) == rank {
                p.push(step_of(t, f, mode))
            } else {
                p
            },
            None => p,
        }
    }
}

/// The whole restore: missing devices first, then GPU, NVMe, NIC, USB and
/// other devices.
pub open spec fn restore_spec(ts: Seq<VfioTransition>, fs: Seq<PciFunction>, mode: RestoreMode) -> Seq<
    StepView,
> {
    missing_steps(ts, fs) + class_steps(ts, fs, 0, mode) + class_steps(ts, fs, 1, mode)
        + class_steps(ts, fs, 2, mode) + class_steps(ts, fs, 3, mode) + class_steps(ts, fs, 4, mode)
}

pub open spec fn step_views(s: Seq<RestoreStep>) -> Seq<StepView> {
    s.map_values(|x: RestoreStep| restore_step_view(x))
}

fn class_rank_exec(f: &PciFunction) -> (r: u8)
    ensures
        r as int == class_rank(*f),
{
    if f.is_display_controller() {
        0
    } else if f.is_nvme() {
        1
    } else if f.is_network_controller() {
        2
    } else if f.is_usb_controller() {
        3
    } else {
        4
    }
}

fn step_exec(t: &VfioTransition, f: &PciFunction, mode: RestoreMode) -> (r: RestoreStep)
    ensures
        restore_step_view(r) == step_of(*t, *f, mode),
{
    let g = match t.iommu_group {
        Some(x) => Some(x),
        None => f.iommu_group,
    };
    let orig: Option<Vec<char>> = match &t.from_driver {
        Some(d) => {
            let v = trim_chars(&chars_of(d.as_str()));
            if v.len() == 0 {
                None
            } else {
                Some(v)
            }
        },
        None => None,
    };
    match orig {
        None => RestoreStep::Outcome(
            RestoreOutcome {
                bdf: copy_string(&t.bdf),
                original_driver: None,
                target_driver: None,
                iommu_group: g,
                result: RestoreResultKind::SkippedOriginallyUnbound,
                reason: Some(lit("original driver was None; leaving device unbound")),
            },
        ),
        Some(dv) => {
            let d = string_of(&dv);
            if str_eq(d.as_str(), "vfio-pci") {
                RestoreStep::Outcome(
                    RestoreOutcome {
                        bdf: copy_string(&t.bdf),
                        original_driver: Some(copy_string(&d)),
                        target_driver: Some(d),
                        iommu_group: g,
                        result: RestoreResultKind::SkippedOriginallyVfio,
                        reason: Some(lit("device was originally bound to vfio-pci; no restore needed")),
                    },
                )
            } else {
                match mode {
                    RestoreMode::DryRun => RestoreStep::Outcome(
                        RestoreOutcome {
                            bdf: copy_string(&t.bdf),
                            original_driver: Some(copy_string(&d)),
                            target_driver: Some(d),
                            iommu_group: g,
                            result: RestoreResultKind::DryRunPlanned,
                            reason: Some(lit("dry-run: no sysfs writes performed")),
                        },
                    ),
                    RestoreMode::Live => RestoreStep::Bind(
                        PendingBind {
                            bdf: copy_string(&t.bdf),
                            driver: d,
                            iommu_group: g,
                            is_gpu: f.is_display_controller(),
                        },
                    ),
                }
            }
        },
    }
}

fn push_step(out: &mut Vec<RestoreStep>, s: RestoreStep)
    ensures
        step_views(final(out)@) == step_views(old(out)@).push(restore_step_view(s)),
{
    let ghost pre = out@;
    out.push(s);
    assert(step_views(out@) =~= step_views(pre).push(restore_step_view(s)));
}

fn push_missing(ts: &Vec<VfioTransition>, inv: &PciInventory, out: &mut Vec<RestoreStep>)
    ensures
        step_views(final(out)@) == step_views(old(out)@) + missing_steps(ts@, inv.functions@),
{
    let ghost base = step_views(out@);
    let mut i: usize = 0;
    assert(base + missing_steps(ts@.take(0), inv.functions@) =~= base);
    while i < ts.len()
        invariant
            i <= ts@.len(),
            step_views(out@) == base + missing_steps(ts@.take(i as int), inv.functions@),
        decreases ts@.len() - i,
    {
        assert(ts@.take(i + 1).drop_last() =~= ts@.take(i as int));
        assert(ts@.take(i + 1).last() == ts@[i as int]);
        let t = &ts[i];
        if inv.find_by_bdf(t.bdf.as_str()).is_none() {
            push_step(
                out,
                RestoreStep::Outcome(
                    RestoreOutcome {
                        bdf: copy_string(&t.bdf),
                        original_driver: copy_opt_string(&t.from_driver),
                        target_driver: copy_opt_string(&t.from_driver),
                        iommu_group: t.iommu_group,
                        result: RestoreResultKind::SkippedDeviceMissing,
                        reason: Some(
                            lit("device from VFIO transition not found in inventory at restore time"),
                        ),
                    },
                ),
            );
        }
        i = i + 1;
        assert(step_views(out@) =~= base + missing_steps(ts@.take(i as int), inv.functions@));
    }
    assert(ts@.take(ts@.len() as int) =~= ts@);
}

fn push_class(
    ts: &Vec<VfioTransition>,
    inv: &PciInventory,
    rank: u8,
    mode: RestoreMode,
    out: &mut Vec<RestoreStep>,
)
    ensures
        step_views(final(out)@) == step_views(old(out)@) + class_steps(
            ts@,
            inv.functions@,
            rank as int,
            mode,
        ),
{
    let ghost base = step_views(out@);
    let mut i: usize = 0;
    assert(base + class_steps(ts@.take(0), inv.functions@, rank as int, mode) =~= base);
    while i < ts.len()
        invariant
            i <= ts@.len(),
            step_views(out@) == base + class_steps(
                ts@.take(i as int),
                inv.functions@,
                rank as int,
                mode,
            ),
        decreases ts@.len() - i,
    {
        assert(ts@.take(i + 1).drop_last() =~= ts@.take(i as int));
        assert(ts@.take(i + 1).last() == ts@[i as int]);
        let t = &ts[i];
        match inv.find_by_bdf(t.bdf.as_str()) {
            Some(f) => {
                if class_rank_exec(f) == rank {
                    push_step(out, step_exec(t, f, mode));
                }
            },
            None => {},
        }
        i = i + 1;
        assert(step_views(out@) =~= base + class_steps(
            ts@.take(i as int),
            inv.functions@,
            rank as int,
            mode,
        ));
    }
    assert(ts@.take(ts@.len() as int) =~= ts@);
}

/// The restore steps for a VM's recorded transitions against the current
/// inventory: missing devices first, then GPU, NVMe, NIC, USB and other
/// devices, each class in transition order.
pub fn plan_restore(ts: &Vec<VfioTransition>, inv: &PciInventory, mode: RestoreMode) -> (r: Vec<
    RestoreStep,
>)
    ensures
        step_views(r@) == restore_spec(ts@, inv.functions@, mode),
{
    let mut out: Vec<RestoreStep> = Vec::new();
    assert(step_views(out@) =~= Seq::<StepView>::empty());
    push_missing(ts, inv, &mut out);
    push_class(ts, inv, 0, mode, &mut out);
    push_class(ts, inv, 1, mode, &mut out);
    push_class(ts, inv, 2, mode, &mut out);
    push_class(ts, inv, 3, mode, &mut out);
    push_class(ts, inv, 4, mode, &mut out);
    assert(step_views(out@) =~= restore_spec(ts@, inv.functions@, mode));
    out
}

/// The outcome of a performed bind: success, or failure with the error
/// text.
pub fn bind_outcome(b: &PendingBind, error: Option<String>) -> (r: RestoreOutcome)
    ensures
        r.bdf@ == b.bdf@,
        opt_view(r.original_driver) == Some(b.driver@),
        opt_view(r.target_driver) == Some(b.driver@),
        r.iommu_group == b.iommu_group,
        match error {
            None => r.result == RestoreResultKind::Succeeded && r.reason is None,
            Some(e) => r.result == RestoreResultKind::Failed && opt_view(r.reason) == Some(
                "failed to restore driver: "@ + e@,
            ),
        },
{
    match error {
        None => RestoreOutcome {
            bdf: copy_string(&b.bdf),
            original_driver: Some(copy_string(&b.driver)),
            target_driver: Some(copy_string(&b.driver)),
            iommu_group: b.iommu_group,
            result: RestoreResultKind::Succeeded,
            reason: None,
        },
        Some(e) => {
            let mut m = lit("failed to restore driver: ");
            m.append(e.as_str());
            RestoreOutcome {
                bdf: copy_string(&b.bdf),
                original_driver: Some(copy_string(&b.driver)),
                target_driver: Some(copy_string(&b.driver)),
                iommu_group: b.iommu_group,
                result: RestoreResultKind::Failed,
                reason: Some(m),
            }
        },
    }
}

/// Whether restoring `b` needs a write: not when the device is found
/// already bound to its original driver.
pub fn bind_needed(b: &PendingBind, inv: &PciInventory) -> (r: bool)
    ensures
        r == (driver_of(inv.functions@, b.bdf@) != Some(b.driver@)),
{
    match inv.find_by_bdf(b.bdf.as_str()) {
        Some(f) => match &f.driver {
            Some(d) => !str_eq(d.as_str(), b.driver.as_str()),
            None => true,
        },
        None => true,
    }
}

pub open spec fn driver_bind_path(driver: Seq<char>) -> Seq<char> {
    "/sys/bus/pci/drivers/"@ + driver + "/bind"@
}

/// The error text of a failed bind write, as the error renders it.
pub open spec fn bind_error_text(b: PendingBind, w: WriteOutcome) -> Option<Seq<char>> {
    match w {
        WriteOutcome::Written => None,
        WriteOutcome::NoPath => Some(
            "VFIO error: driver bind path "@ + driver_bind_path(b.driver@) + " does not exist for `"@
                + b.driver@ + "`; ensure the module is loaded"@,
        ),
        WriteOutcome::Failed(e) => Some(
            "VFIO error: failed to bind BDF "@ + b.bdf@ + " to driver `"@ + b.driver@ + "` via "@
                + driver_bind_path(b.driver@) + ": "@ + e@,
        ),
    }
}

/// The outcome of restoring `b`: with no write (already bound) or a
/// write that succeeded, the driver is restored; a failed write is a
/// failure with its error.
pub fn bind_result(b: &PendingBind, write: Option<WriteOutcome>) -> (r: RestoreOutcome)
    ensures
        r.bdf@ == b.bdf@,
        opt_view(r.original_driver) == Some(b.driver@),
        opt_view(r.target_driver) == Some(b.driver@),
        r.iommu_group == b.iommu_group,
        match write {
            None => r.result == RestoreResultKind::Succeeded && r.reason is None,
            Some(w) => match bind_error_text(*b, w) {
                None => r.result == RestoreResultKind::Succeeded && r.reason is None,
                Some(e) => r.result == RestoreResultKind::Failed && opt_view(r.reason) == Some(
                    "failed to restore driver: "@ + e,
                ),
            },
        },
{
    match write {
        None => bind_outcome(b, None),
        Some(WriteOutcome::Written) => bind_outcome(b, None),
        Some(WriteOutcome::NoPath) => {
            let mut m = lit("VFIO error: driver bind path /sys/bus/pci/drivers/");
            m.append(b.driver.as_str());
            m.append("/bind does not exist for `");
            m.append(b.driver.as_str());
            m.append("`; ensure the module is loaded");
            proof {
                reveal_strlit("VFIO error: driver bind path /sys/bus/pci/drivers/");
                reveal_strlit("VFIO error: driver bind path ");
                reveal_strlit("/sys/bus/pci/drivers/");
                reveal_strlit("/bind does not exist for `");
                reveal_strlit("/bind");
                reveal_strlit(" does not exist for `");
                assert(m@ =~= "VFIO error: driver bind path "@ + driver_bind_path(b.driver@)
                    + " does not exist for `"@ + b.driver@ + "`; ensure the module is loaded"@);
            }
            bind_outcome(b, Some(m))
        },
        Some(WriteOutcome::Failed(e)) => {
            let mut m = lit("VFIO error: failed to bind BDF ");
            m.append(b.bdf.as_str());
            m.append(" to driver `");
            m.append(b.driver.as_str());
            m.append("` via /sys/bus/pci/drivers/");
            m.append(b.driver.as_str());
            m.append("/bind: ");
            m.append(e.as_str());
            proof {
                reveal_strlit("` via /sys/bus/pci/drivers/");
                reveal_strlit("` via ");
                reveal_strlit("/sys/bus/pci/drivers/");
                reveal_strlit("/bind: ");
                reveal_strlit("/bind");
                reveal_strlit(": ");
                assert(m@ =~= "VFIO error: failed to bind BDF "@ + b.bdf@ + " to driver `"@ + b.driver@
                    + "` via "@ + driver_bind_path(b.driver@) + ": "@ + e@);
            }
            bind_outcome(b, Some(m))
        },
    }
}

} // verus!
