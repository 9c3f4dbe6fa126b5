//! The sysfs steps that carry out a VFIO plan.
//!
//! `execute_plan` decides one step per plan action. `staging_progress`
//! then decides, from the outcomes of the writes made so far, which write
//! comes next, when staging has failed and with which error, and which
//! driver transitions were made; the application only performs each
//! write it is given.
use vstd::prelude::*;
use crate::error::ChalybsError;
use crate::model::VfioTransition;
use crate::pci::{bdf_index, PciFunction, PciInventory};
use crate::text::{copy_opt_string, copy_string, lit, opt_view, str_eq};
use crate::vfio::plan::{VfioActionKind, VfioPlan};

verus! {

/// One sysfs step of plan execution.
#[derive(Debug, Clone)]
pub enum SysfsStep {
    /// Write the BDF to `/sys/bus/pci/drivers/<driver>/unbind`.
    Unbind { bdf: String, driver: String },
    /// Write the BDF to `/sys/bus/pci/drivers/vfio-pci/bind`.
    BindVfio { bdf: String },
    /// Nothing to write: no driver, or already on vfio-pci.
    Skip { bdf: String },
    /// The plan names a device the inventory does not hold; execution
    /// fails here with "VFIO plan references unknown PCI device <bdf>".
    UnknownDevice { bdf: String },
}

/// `SysfsStep` with its text as characters: (tag, bdf, driver).
pub open spec fn step_view(s: SysfsStep) -> (int, Seq<char>, Seq<char>) {
    match s {
        SysfsStep::Unbind { bdf, driver } => (0, bdf@, driver@),
        SysfsStep::BindVfio { bdf } => (1, bdf@, Seq::empty()),
        SysfsStep::Skip { bdf } => (2, bdf@, Seq::empty()),
        SysfsStep::UnknownDevice { bdf } => (3, bdf@, Seq::empty()),
    }
}

/// The step for one action on the function `f` found for it (if any):
/// an unbind is skipped without a driver or on vfio-pci, a bind is skipped
/// on vfio-pci.
pub open spec fn step_for(kind: VfioActionKind, b: Seq<char>, f: Option<PciFunction>) -> (
    int,
    Seq<char>,
    Seq<char>,
) {
    match f {
        None => (3, b, Seq::empty()),
        Some(f) => match kind {
            VfioActionKind::UnbindFromCurrentDriver => match opt_view(f.driver) {
                Some(d) => if d == "vfio-pci"@ {
                    (2, b, Seq::empty())
                } else {
                    (0, f.bdf@, d)
                },
                None => (2, b, Seq::empty()),
            },
            VfioActionKind::BindToVfio => if opt_view(f.driver) == Some("vfio-pci"@) {
                (2, b, Seq::empty())
            } else {
                (1, f.bdf@, Seq::empty())
            },
        },
    }
}

pub open spec fn found(fs: Seq<PciFunction>, b: Seq<char>) -> Option<PciFunction> {
    match bdf_index(fs, b) {
        Some(i) => Some(fs[i]),
        None => None,
    }
}

/// The sysfs steps that executing `plan` performs, one per action, in
/// order.
pub fn execute_plan(plan: &VfioPlan, inv: &PciInventory) -> (r: Vec<SysfsStep>)
    ensures
        r@.len() == plan.actions@.len(),
        forall|i: int|
            0 <= i < r@.len() ==> step_view(#[trigger] r@[i]) == step_for(
                plan.actions@[i].kind,
                plan.actions@[i].bdf@,
                found(inv.functions@, plan.actions@[i].bdf@),
            ),
{
    let mut out: Vec<SysfsStep> = Vec::new();
    let mut i: usize = 0;
    while i < plan.actions.len()
        invariant
            i <= plan.actions@.len(),
            out@.len() == i,
            forall|k: int|
                0 <= k < i ==> step_view(#[trigger] out@[k]) == step_for(
                    plan.actions@[k].kind,
                    plan.actions@[k].bdf@,
                    found(inv.functions@, plan.actions@[k].bdf@),
                ),
        decreases plan.actions@.len() - i,
    {
        let action = &plan.actions[i];
        let step = match inv.find_by_bdf(action.bdf.as_str()) {
            None => SysfsStep::UnknownDevice { bdf: copy_string(&action.bdf) },
            Some(func) => match action.kind {
                VfioActionKind::UnbindFromCurrentDriver => match &func.driver {
                    Some(d) => {
                        if str_eq(d.as_str(), "vfio-pci") {
                            SysfsStep::Skip { bdf: copy_string(&action.bdf) }
                        } else {
                            SysfsStep::Unbind { bdf: copy_string(&func.bdf), driver: copy_string(d) }
                        }
                    },
                    None => SysfsStep::Skip { bdf: copy_string(&action.bdf) },
                },
                VfioActionKind::BindToVfio => {
                    if func.is_bound_to_vfio() {
                        SysfsStep::Skip { bdf: copy_string(&action.bdf) }
                    } else {
                        SysfsStep::BindVfio { bdf: copy_string(&func.bdf) }
                    }
                },
            },
        };
        out.push(step);
        i = i + 1;
    }
    out
}

/// What writing a step's BDF to its sysfs file gave.
#[derive(Debug)]
pub enum WriteOutcome {
    /// The BDF was written.
    Written,
    /// The sysfs file does not exist.
    NoPath,
    /// The write failed; the error text.
    Failed(String),
}

/// What staging asks for next.
#[derive(Debug)]
pub enum StagingNext {
    /// Perform the write of step `j` and report its outcome.
    Write(usize),
    /// Staging failed: no further write is made.
    Failed(ChalybsError),
    /// Every step was carried out.
    Finished,
}

/// Staging's progress: what comes next, and every driver transition
/// recorded so far (the earlier ones first).
#[derive(Debug)]
pub struct Staging {
    pub next: StagingNext,
    pub transitions: Vec<VfioTransition>,
}

/// A transition as (BDF, original driver, IOMMU group).
pub open spec fn trans_view(t: VfioTransition) -> (Seq<char>, Option<Seq<char>>, Option<u32>) {
    (t.bdf@, opt_view(t.from_driver), t.iommu_group)
}

pub open spec fn trans_views(v: Seq<VfioTransition>) -> Seq<(Seq<char>, Option<Seq<char>>, Option<u32>)> {
    v.map_values(|t: VfioTransition| trans_view(t))
}

pub open spec fn has_bdf(tr: Seq<(Seq<char>, Option<Seq<char>>, Option<u32>)>, b: Seq<char>) -> bool {
    exists|j: int| 0 <= j < tr.len() && (#[trigger] tr[j]).0 == b
}

pub open spec fn group_of(fs: Seq<PciFunction>, b: Seq<char>) -> Option<u32> {
    match found(fs, b) {
        Some(f) => f.iommu_group,
        None => None,
    }
}

pub open spec fn driver_of(fs: Seq<PciFunction>, b: Seq<char>) -> Option<Seq<char>> {
    match found(fs, b) {
        Some(f) => opt_view(f.driver),
        None => None,
    }
}

pub open spec fn unbind_path(driver: Seq<char>) -> Seq<char> {
    "/sys/bus/pci/drivers/"@ + driver + "/unbind"@
}

pub open spec fn vfio_bind_path() -> Seq<char> {
    "/sys/bus/pci/drivers/vfio-pci/bind"@
}

/// Staging from step `i`, with the outcomes from `k` on still to be used
/// and transitions `tr` recorded: (0, j, _, tr) asks for the write of
/// step `j`; (1, _, m, tr) is a failure with message `m`; (2, _, _, tr)
/// is the end. Skipped steps need no write; an unknown device fails; an
/// unbind records the device's driver and group; a bind records the
/// device as found in the inventory, unless it already has a transition.
/// The first failed write fails staging and nothing after it is written.
pub open spec fn stage_run(
    steps: Seq<SysfsStep>,
    outs: Seq<WriteOutcome>,
    fs: Seq<PciFunction>,
    i: int,
    k: int,
    tr: Seq<(Seq<char>, Option<Seq<char>>, Option<u32>)>,
) -> (int, int, Seq<char>, Seq<(Seq<char>, Option<Seq<char>>, Option<u32>)>)
    decreases steps.len() - i,
{
    if i < 0 || i >= steps.len() || k < 0 {
        (2, 0, Seq::empty(), tr)
    } else {
        match steps[i] {
            SysfsStep::Skip { .. } => stage_run(steps, outs, fs, i + 1, k, tr),
            SysfsStep::UnknownDevice { bdf } => (
                1,
                0,
                "VFIO plan references unknown PCI device "@ + bdf@,
                tr,
            ),
            SysfsStep::Unbind { bdf, driver } => if k >= outs.len() {
                (0, i, Seq::empty(), tr)
            } else {
                match outs[k] {
                    WriteOutcome::Written => stage_run(
                        steps,
                        outs,
                        fs,
                        i + 1,
                        k + 1,
                        tr.push((bdf@, Some(driver@), group_of(fs, bdf@))),
                    ),
                    WriteOutcome::NoPath => (
                        1,
                        0,
                        "cannot unbind "@ + bdf@ + ": driver unbind path "@ + unbind_path(driver@)
                            + " does not exist"@,
                        tr,
                    ),
                    WriteOutcome::Failed(e) => (
                        1,
                        0,
                        "failed to write BDF "@ + bdf@ + " to "@ + unbind_path(driver@) + " for unbind: "@
                            + e@,
                        tr,
                    ),
                }
            },
            SysfsStep::BindVfio { bdf } => if k >= outs.len() {
                (0, i, Seq::empty(), tr)
            } else {
                match outs[k] {
                    WriteOutcome::Written => stage_run(
                        steps,
                        outs,
                        fs,
                        i + 1,
                        k + 1,
                        if has_bdf(tr, bdf@) {
                            tr
                        } else {
                            tr.push((bdf@, driver_of(fs, bdf@), group_of(fs, bdf@)))
                        },
                    ),
                    WriteOutcome::NoPath => (
                        1,
                        0,
                        "vfio-pci bind path "@ + vfio_bind_path()
                            + " does not exist; ensure vfio-pci is loaded and configured"@,
                        tr,
                    ),
                    WriteOutcome::Failed(e) => (
                        1,
                        0,
                        "failed to bind BDF "@ + bdf@ + " to vfio-pci via "@ + vfio_bind_path() + ": "@
                            + e@,
                        tr,
                    ),
                }
            },
        }
    }
}

/// How many of the steps from `i` on are writes.
pub open spec fn writes_from(steps: Seq<SysfsStep>, i: int) -> int
    decreases steps.len() - i,
{
    if i < 0 || i >= steps.len() {
        0
    } else {
        writes_from(steps, i + 1) + if steps[i] is Unbind || steps[i] is BindVfio {
            1int
        } else {
            0int
        }
    }
}

/// Staging stops at the first failed write: once a reported write has
/// failed, staging has failed and asks for no further write; it asks
/// for the next write, or finishes, only while every reported write
/// succeeded. (The outcomes are those of writes it asked for, so there
/// are no more of them than there are write steps.)
pub proof fn lemma_staging_stops_at_failure(
    steps: Seq<SysfsStep>,
    outs: Seq<WriteOutcome>,
    fs: Seq<PciFunction>,
    i: int,
    k: int,
    tr: Seq<(Seq<char>, Option<Seq<char>>, Option<u32>)>,
)
    requires
        0 <= i,
        0 <= k,
        outs.len() - k <= writes_from(steps, i),
    ensures
        0 <= stage_run(steps, outs, fs, i, k, tr).0 <= 2,
        stage_run(steps, outs, fs, i, k, tr).0 != 1 ==> forall|m: int|
            k <= m < outs.len() ==> #[trigger] outs[m] is Written,
        (exists|m: int| k <= m < outs.len() && !(#[trigger] outs[m] is Written)) ==> stage_run(
            steps,
            outs,
            fs,
            i,
            k,
            tr,
        ).0 == 1,
    decreases steps.len() - i,
{
    if i >= steps.len() {
    } else {
        match steps[i] {
            SysfsStep::Skip { .. } => {
                lemma_staging_stops_at_failure(steps, outs, fs, i + 1, k, tr);
            },
            SysfsStep::UnknownDevice { .. } => {},
            SysfsStep::Unbind { bdf, driver } => {
                if k < outs.len() {
                    if outs[k] is Written {
                        lemma_staging_stops_at_failure(
                            steps,
                            outs,
                            fs,
                            i + 1,
                            k + 1,
                            tr.push((bdf@, Some(driver@), group_of(fs, bdf@))),
                        );
                    }
                }
            },
            SysfsStep::BindVfio { bdf } => {
                if k < outs.len() {
                    if outs[k] is Written {
                        lemma_staging_stops_at_failure(
                            steps,
                            outs,
                            fs,
                            i + 1,
                            k + 1,
                            if has_bdf(tr, bdf@) {
                                tr
                            } else {
                                tr.push((bdf@, driver_of(fs, bdf@), group_of(fs, bdf@)))
                            },
                        );
                    }
                }
            },
        }
    }
}

fn copy_transition(t: &VfioTransition) -> (r: VfioTransition)
    ensures
        trans_view(r) == trans_view(*t),
{
    VfioTransition {
        bdf: copy_string(&t.bdf),
        from_driver: copy_opt_string(&t.from_driver),
        iommu_group: t.iommu_group,
    }
}

fn has_bdf_exec(tr: &Vec<VfioTransition>, b: &str) -> (r: bool)
    ensures
        r == has_bdf(trans_views(tr@), b@),
{
    let ghost tv = trans_views(tr@);
    let mut j: usize = 0;
    while j < tr.len()
        invariant
            j <= tr@.len(),
            tv == trans_views(tr@),
            forall|m: int| 0 <= m < j ==> (#[trigger] tv[m]).0 != b@,
        decreases tr@.len() - j,
    {
        assert(tv[j as int] == trans_view(tr@[j as int]));
        if str_eq(tr[j].bdf.as_str(), b) {
            return true;
        }
        j = j + 1;
    }
    false
}

fn push_transition(tr: &mut Vec<VfioTransition>, t: VfioTransition)
    ensures
        trans_views(final(tr)@) == trans_views(old(tr)@).push(trans_view(t)),
{
    let ghost tv = trans_view(t);
    tr.push(t);
    assert(trans_views(final(tr)@) =~= trans_views(old(tr)@).push(tv));
}

/// Where staging stands after the writes whose outcomes are `outcomes`
/// (in the order they were asked for), over the steps `execute_plan`
/// gave and the inventory they came from, with `prior` transitions
/// already recorded. Only a write step is ever asked for; after a failed
/// write staging has failed and asks for nothing more.
pub fn staging_progress(
    steps: &Vec<SysfsStep>,
    outcomes: &Vec<WriteOutcome>,
    inv: &PciInventory,
    prior: &Vec<VfioTransition>,
) -> (r: Staging)
    ensures
        ({
            let run = stage_run(steps@, outcomes@, inv.functions@, 0, 0, trans_views(prior@));
            &&& trans_views(r.transitions@) == run.3
            &&& match r.next {
                StagingNext::Write(j) => run.0 == 0 && j == run.1 && j < steps@.len() && (
                steps@[j as int] is Unbind || steps@[j as int] is BindVfio),
                StagingNext::Failed(e) => run.0 == 1 && (e matches ChalybsError::Vfio(m) && m@ == run.2),
                StagingNext::Finished => run.0 == 2,
            }
        }),
{
    let ghost fs = inv.functions@;
    let ghost run = stage_run(steps@, outcomes@, fs, 0, 0, trans_views(prior@));
    let mut tr: Vec<VfioTransition> = Vec::new();
    let mut p: usize = 0;
    while p < prior.len()
        invariant
            p <= prior@.len(),
            trans_views(tr@) == trans_views(prior@.take(p as int)),
        decreases prior@.len() - p,
    {
        push_transition(&mut tr, copy_transition(&prior[p]));
        assert(trans_views(prior@.take(p + 1)) =~= trans_views(prior@.take(p as int)).push(
            trans_view(prior@[p as int]),
        ));
        p = p + 1;
    }
    assert(prior@.take(prior@.len() as int) =~= prior@);
    let mut i: usize = 0;
    let mut k: usize = 0;
    while i < steps.len()
        invariant
            i <= steps@.len(),
            k <= outcomes@.len(),
            fs == inv.functions@,
            run == stage_run(steps@, outcomes@, fs, 0, 0, trans_views(prior@)),
            run == stage_run(steps@, outcomes@, fs, i as int, k as int, trans_views(tr@)),
        decreases steps@.len() - i,
    {
        let ghost tv = trans_views(tr@);
        match &steps[i] {
            SysfsStep::Skip { .. } => {
                assert(stage_run(steps@, outcomes@, fs, i as int, k as int, tv) == stage_run(
                    steps@,
                    outcomes@,
                    fs,
                    i + 1,
                    k as int,
                    tv,
                ));
            },
            SysfsStep::UnknownDevice { bdf } => {
                let mut m = lit("VFIO plan references unknown PCI device ");
                m.append(bdf.as_str());
                assert(stage_run(steps@, outcomes@, fs, i as int, k as int, tv) == (
                    1int,
                    0int,
                    "VFIO plan references unknown PCI device "@ + bdf@,
                    tv,
                ));
                return Staging { next: StagingNext::Failed(ChalybsError::Vfio(m)), transitions: tr };
            },
            SysfsStep::Unbind { bdf, driver } => {
                if k >= outcomes.len() {
                    assert(stage_run(steps@, outcomes@, fs, i as int, k as int, tv) == (
                        0int,
                        i as int,
                        Seq::<char>::empty(),
                        tv,
                    ));
                    return Staging { next: StagingNext::Write(i), transitions: tr };
                }
                match &outcomes[k] {
                    WriteOutcome::Written => {
                        let group = match inv.find_by_bdf(bdf.as_str()) {
                            Some(f) => f.iommu_group,
                            None => None,
                        };
                        let t = VfioTransition {
                            bdf: copy_string(bdf),
                            from_driver: Some(copy_string(driver)),
                            iommu_group: group,
                        };
                        assert(stage_run(steps@, outcomes@, fs, i as int, k as int, tv) == stage_run(
                            steps@,
                            outcomes@,
                            fs,
                            i + 1,
                            k + 1,
                            tv.push(trans_view(t)),
                        ));
                        push_transition(&mut tr, t);
                    },
                    WriteOutcome::NoPath => {
                        let mut m = lit("cannot unbind ");
                        m.append(bdf.as_str());
                        m.append(": driver unbind path /sys/bus/pci/drivers/");
                        m.append(driver.as_str());
                        m.append("/unbind does not exist");
                        proof {
                            reveal_strlit("/sys/bus/pci/drivers/");
                            reveal_strlit(": driver unbind path /sys/bus/pci/drivers/");
                            reveal_strlit(": driver unbind path ");
                            reveal_strlit("/unbind does not exist");
                            reveal_strlit("/unbind");
                            reveal_strlit(" does not exist");
                            assert(m@ =~= "cannot unbind "@ + bdf@ + ": driver unbind path "@ + unbind_path(driver@)
                                + " does not exist"@);
                        }
                        return Staging { next: StagingNext::Failed(ChalybsError::Vfio(m)), transitions: tr };
                    },
                    WriteOutcome::Failed(e) => {
                        let mut m = lit("failed to write BDF ");
                        m.append(bdf.as_str());
                        m.append(" to /sys/bus/pci/drivers/");
                        m.append(driver.as_str());
                        m.append("/unbind for unbind: ");
                        m.append(e.as_str());
                        proof {
                            reveal_strlit("/sys/bus/pci/drivers/");
                            reveal_strlit(" to /sys/bus/pci/drivers/");
                            reveal_strlit(" to ");
                            reveal_strlit("/unbind for unbind: ");
                            reveal_strlit("/unbind");
                            reveal_strlit(" for unbind: ");
                            assert(m@ =~= "failed to write BDF "@ + bdf@ + " to "@ + unbind_path(driver@)
                                + " for unbind: "@ + e@);
                        }
                        return Staging { next: StagingNext::Failed(ChalybsError::Vfio(m)), transitions: tr };
                    },
                }
                k = k + 1;
            },
            SysfsStep::BindVfio { bdf } => {
                if k >= outcomes.len() {
                    return Staging { next: StagingNext::Write(i), transitions: tr };
                }
                match &outcomes[k] {
                    WriteOutcome::Written => {
                        if has_bdf_exec(&tr, bdf.as_str()) {
                            assert(stage_run(steps@, outcomes@, fs, i as int, k as int, tv) == stage_run(
                                steps@,
                                outcomes@,
                                fs,
                                i + 1,
                                k + 1,
                                tv,
                            ));
                        } else {
                            let (driver, group) = match inv.find_by_bdf(bdf.as_str()) {
                                Some(f) => (copy_opt_string(&f.driver), f.iommu_group),
                                None => (None, None),
                            };
                            let t = VfioTransition { bdf: copy_string(bdf), from_driver: driver, iommu_group: group };
                            assert(stage_run(steps@, outcomes@, fs, i as int, k as int, tv) == stage_run(
                                steps@,
                                outcomes@,
                                fs,
                                i + 1,
                                k + 1,
                                tv.push(trans_view(t)),
                            ));
                            push_transition(&mut tr, t);
                        }
                    },
                    WriteOutcome::NoPath => {
                        let m = lit(
                            "vfio-pci bind path /sys/bus/pci/drivers/vfio-pci/bind does not exist; ensure vfio-pci is loaded and configured",
                        );
                        proof {
                            reveal_strlit(
                                "vfio-pci bind path /sys/bus/pci/drivers/vfio-pci/bind does not exist; ensure vfio-pci is loaded and configured",
                            );
                            reveal_strlit("vfio-pci bind path ");
                            reveal_strlit("/sys/bus/pci/drivers/vfio-pci/bind");
                            reveal_strlit(" does not exist; ensure vfio-pci is loaded and configured");
                            assert(m@ =~= "vfio-pci bind path "@ + vfio_bind_path()
                                + " does not exist; ensure vfio-pci is loaded and configured"@);
                        }
                        return Staging { next: StagingNext::Failed(ChalybsError::Vfio(m)), transitions: tr };
                    },
                    WriteOutcome::Failed(e) => {
                        let mut m = lit("failed to bind BDF ");
                        m.append(bdf.as_str());
                        m.append(" to vfio-pci via /sys/bus/pci/drivers/vfio-pci/bind: ");
                        m.append(e.as_str());
                        proof {
                            reveal_strlit(" to vfio-pci via /sys/bus/pci/drivers/vfio-pci/bind: ");
                            reveal_strlit(" to vfio-pci via ");
                            reveal_strlit("/sys/bus/pci/drivers/vfio-pci/bind");
                            reveal_strlit(": ");
                            assert(m@ =~= "failed to bind BDF "@ + bdf@ + " to vfio-pci via "@ + vfio_bind_path()
                                + ": "@ + e@);
                        }
                        return Staging { next: StagingNext::Failed(ChalybsError::Vfio(m)), transitions: tr };
                    },
                }
                k = k + 1;
            },
        }
        i = i + 1;
    }
    Staging { next: StagingNext::Finished, transitions: tr }
}

} // verus!
