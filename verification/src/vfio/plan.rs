//! Pure construction of the VFIO action plan for a VM.
use vstd::prelude::*;
use crate::config::{PciDeviceConfig, VmConfig};
use crate::error::{ChalybsError, Result};
use crate::pci::{
    bdf_index, expected_feasibility, lemma_bdf_index, in_gpu_complex, is_display, missing_device_msg,
    resolve_spec, sel_pred, unrefs, FeasibilityView, GpuUnbindAssessment, GpuUnbindFeasibility,
    PciFunction, PciInventory, Selector, assessment_matches,
};
use crate::text::{copy_string, lit, opt_view, str_eq};
use crate::vfio::isolation::kind_resolve;

verus! {

/// Kind of VFIO action on a PCI function.
#[derive(Debug, Clone, Copy, PartialEq, Eq, Structural)]
pub enum VfioActionKind {
    /// Unbind the device from its current kernel driver.
    UnbindFromCurrentDriver,
    /// Bind the device to vfio-pci.
    BindToVfio,
}

/// A single VFIO action on a PCI function.
#[derive(Debug, Clone)]
pub struct VfioAction {
    pub bdf: String,
    pub kind: VfioActionKind,
    /// Explanation for logs.
    pub reason: String,
}

/// `VfioAction` with its text as characters.
pub struct ActionView {
    pub bdf: Seq<char>,
    pub kind: VfioActionKind,
    pub reason: Seq<char>,
}

impl View for VfioAction {
    type V = ActionView;

    open spec fn view(&self) -> ActionView {
        ActionView { bdf: self.bdf@, kind: self.kind, reason: self.reason@ }
    }
}

pub open spec fn action_views(s: Seq<VfioAction>) -> Seq<ActionView> {
    s.map_values(|a: VfioAction| a@)
}

/// The actions that stage a VM's devices.
#[derive(Debug, Clone)]
pub struct VfioPlan {
    pub vm_name: String,
    pub actions: Vec<VfioAction>,
}

// ---------------------------------------------------------------------------
// Specification
// ---------------------------------------------------------------------------

pub open spec fn unbind_reason(label: Seq<char>, bdf: Seq<char>, d: Seq<char>, vm: Seq<char>) -> Seq<
    char,
> {
    label + " "@ + bdf + ": unbinding from current driver `"@ + d
        + "` before binding to vfio-pci for VM "@ + vm
}

pub open spec fn bind_reason(label: Seq<char>, vm: Seq<char>) -> Seq<char> {
    label + " device bound to vfio-pci for VM "@ + vm
}

/// Unbind actions for one function: one unless it has no driver or is
/// already on vfio-pci.
pub open spec fn unbinds_for(vm: Seq<char>, label: Seq<char>, f: PciFunction) -> Seq<ActionView> {
    match opt_view(f.driver) {
        Some(d) => if d != "vfio-pci"@ {
            seq![
                ActionView {
                    bdf: f.bdf@,
                    kind: VfioActionKind::UnbindFromCurrentDriver,
                    reason: unbind_reason(label, f.bdf@, d, vm),
                },
            ]
        } else {
            Seq::empty()
        },
        None => Seq::empty(),
    }
}

/// The (always present) bind action for one function.
pub open spec fn bind_for(vm: Seq<char>, label: Seq<char>, f: PciFunction) -> ActionView {
    ActionView { bdf: f.bdf@, kind: VfioActionKind::BindToVfio, reason: bind_reason(label, vm) }
}

/// Unbinds and binds for a list of functions of one kind.
pub open spec fn list_actions(vm: Seq<char>, label: Seq<char>, funcs: Seq<PciFunction>) -> (
    Seq<ActionView>,
    Seq<ActionView>,
)
    decreases funcs.len(),
{
    if funcs.len() == 0 {
        (Seq::empty(), Seq::empty())
    } else {
        let p = list_actions(vm, label, funcs.drop_last());
        let f = funcs.last();
        (p.0 + unbinds_for(vm, label, f), p.1.push(bind_for(vm, label, f)))
    }
}

/// Index of the last display controller with BDF `b`.
pub open spec fn last_gpu_index(fs: Seq<PciFunction>, b: Seq<char>) -> Option<int>
    decreases fs.len(),
{
    if fs.len() == 0 {
        None
    } else if is_display(fs.last()) && fs.last().bdf@ == b {
        Some(fs.len() - 1)
    } else {
        last_gpu_index(fs.drop_last(), b)
    }
}

pub open spec fn no_assessment_msg(vm: Seq<char>, b: Seq<char>) -> Seq<char> {
    "VM "@ + vm + ": no GPU unbind assessment available for "@ + b
}

pub open spec fn risky_gpu_msg(vm: Seq<char>, b: Seq<char>, m: Seq<char>) -> Seq<char> {
    "VM "@ + vm + ": GPU "@ + b + " is classified as RISKY to unbind: "@ + m
}

pub open spec fn unsafe_gpu_msg(vm: Seq<char>, b: Seq<char>, m: Seq<char>) -> Seq<char> {
    "VM "@ + vm + ": GPU "@ + b + " is classified as UNSAFE to unbind: "@ + m
}

pub open spec fn not_gpu_complex_msg(vm: Seq<char>, b: Seq<char>) -> Seq<char> {
    "VM "@ + vm + ": device "@ + b
        + " is listed under devices.gpu but PCI class base is not 0x03 (display controller) and it does not share a PCI slot with a display controller"@
}

/// Whether one configured GPU entry may be staged: a display controller
/// needs a safe unbind assessment (the last one recorded for its BDF); any
/// other function must belong to a GPU complex.
pub open spec fn gpu_entry_error(vm: Seq<char>, fs: Seq<PciFunction>, f: PciFunction) -> Option<
    Seq<char>,
> {
    if is_display(f) {
        match last_gpu_index(fs, f.bdf@) {
            None => Some(no_assessment_msg(vm, f.bdf@)),
            Some(i) => match expected_feasibility(fs, fs[i]) {
                FeasibilityView::Safe => None,
                FeasibilityView::Risky(m) => Some(risky_gpu_msg(vm, f.bdf@, m)),
                FeasibilityView::Unsafe(m) => Some(unsafe_gpu_msg(vm, f.bdf@, m)),
            },
        }
    } else if in_gpu_complex(fs, f.bdf@) {
        None
    } else {
        Some(not_gpu_complex_msg(vm, f.bdf@))
    }
}

/// Actions for the resolved GPU entries, or the first entry's error.
pub open spec fn gpu_actions(vm: Seq<char>, fs: Seq<PciFunction>, funcs: Seq<PciFunction>) -> core::result::Result<
    (Seq<ActionView>, Seq<ActionView>),
    Seq<char>,
>
    decreases funcs.len(),
{
    if funcs.len() == 0 {
        Ok((Seq::empty(), Seq::empty()))
    } else {
        match gpu_actions(vm, fs, funcs.drop_last()) {
            Err(e) => Err(e),
            Ok(p) => {
                let f = funcs.last();
                match gpu_entry_error(vm, fs, f) {
                    Some(e) => Err(e),
                    None => Ok((p.0 + unbinds_for(vm, "GPU"@, f), p.1.push(bind_for(vm, "GPU"@, f)))),
                }
            },
        }
    }
}

/// The whole plan: GPU entries first, then NVMe, NIC and USB; all unbinds
/// precede all binds.
pub open spec fn plan_spec(vm: Seq<char>, cfg: VmConfig, fs: Seq<PciFunction>) -> core::result::Result<
    Seq<ActionView>,
    Seq<char>,
> {
    let g = match kind_resolve(fs, cfg.devices.gpu) {
        Err(a) => Err(missing_device_msg(a)),
        Ok(gf) => gpu_actions(vm, fs, gf),
    };
    match g {
        Err(e) => Err(e),
        Ok(ga) => match kind_resolve(fs, cfg.devices.nvme) {
            Err(a) => Err(missing_device_msg(a)),
            Ok(nf) => match kind_resolve(fs, cfg.devices.nic) {
                Err(a) => Err(missing_device_msg(a)),
                Ok(cf) => match kind_resolve(fs, cfg.devices.usb) {
                    Err(a) => Err(missing_device_msg(a)),
                    Ok(uf) => {
                        let n = list_actions(vm, "NVMe"@, nf);
                        let c = list_actions(vm, "NIC"@, cf);
                        let u = list_actions(vm, "USB"@, uf);
                        Ok(ga.0 + n.0 + c.0 + u.0 + ga.1 + n.1 + c.1 + u.1)
                    },
                },
            },
        },
    }
}

// ---------------------------------------------------------------------------
// Laws
// ---------------------------------------------------------------------------

proof fn lemma_resolve_finds(fs: Seq<PciFunction>, cfgs: Seq<PciDeviceConfig>, j: int)
    requires
        0 <= j < cfgs.len(),
        exists|k: int| 0 <= k < fs.len() && (#[trigger] fs[k]).bdf@ == cfgs[j].pci_address@,
    ensures
        resolve_spec(fs, cfgs) matches Ok(p) ==> exists|t: int|
            0 <= t < p.len() && (#[trigger] p[t]).bdf@ == cfgs[j].pci_address@,
    decreases cfgs.len(),
{
    let a = cfgs[j].pci_address@;
    lemma_bdf_index(fs, a);
    let last = cfgs.len() - 1;
    if j < last {
        assert(cfgs.drop_last()[j] == cfgs[j]);
        lemma_resolve_finds(fs, cfgs.drop_last(), j);
        if resolve_spec(fs, cfgs) is Ok {
            let p = resolve_spec(fs, cfgs.drop_last())->Ok_0;
            let t = choose|t: int| 0 <= t < p.len() && (#[trigger] p[t]).bdf@ == a;
            let q = resolve_spec(fs, cfgs)->Ok_0;
            assert(q[t] == p[t]);
        }
    } else {
        assert(cfgs.last() == cfgs[j]);
        if resolve_spec(fs, cfgs) is Ok {
            let i = bdf_index(fs, a)->0;
            let q = resolve_spec(fs, cfgs)->Ok_0;
            assert(q[q.len() - 1] == fs[i]);
        }
    }
}

proof fn lemma_resolve_missing(fs: Seq<PciFunction>, cfgs: Seq<PciDeviceConfig>, j: int)
    requires
        0 <= j < cfgs.len(),
        cfgs[j].required,
        forall|k: int| 0 <= k < fs.len() ==> (#[trigger] fs[k]).bdf@ != cfgs[j].pci_address@,
    ensures
        resolve_spec(fs, cfgs) is Err,
    decreases cfgs.len(),
{
    let a = cfgs[j].pci_address@;
    lemma_bdf_index(fs, a);
    if j < cfgs.len() - 1 {
        assert(cfgs.drop_last()[j] == cfgs[j]);
        lemma_resolve_missing(fs, cfgs.drop_last(), j);
    } else {
        assert(cfgs.last() == cfgs[j]);
    }
}

proof fn lemma_list_binds(vm: Seq<char>, label: Seq<char>, funcs: Seq<PciFunction>, t: int)
    requires
        0 <= t < funcs.len(),
    ensures
        list_actions(vm, label, funcs).1.contains(bind_for(vm, label, funcs[t])),
    decreases funcs.len(),
{
    let p = list_actions(vm, label, funcs.drop_last());
    let r = list_actions(vm, label, funcs).1;
    if t < funcs.len() - 1 {
        assert(funcs.drop_last()[t] == funcs[t]);
        lemma_list_binds(vm, label, funcs.drop_last(), t);
        let m = choose|m: int| 0 <= m < p.1.len() && p.1[m] == bind_for(vm, label, funcs[t]);
        assert(r[m] == p.1[m]);
    } else {
        assert(r[r.len() - 1] == bind_for(vm, label, funcs.last()));
    }
}

proof fn lemma_gpu_binds(vm: Seq<char>, fs: Seq<PciFunction>, funcs: Seq<PciFunction>, t: int)
    requires
        0 <= t < funcs.len(),
    ensures
        gpu_actions(vm, fs, funcs) matches Ok(ga) ==> ga.1.contains(bind_for(vm, "GPU"@, funcs[t])),
    decreases funcs.len(),
{
    if gpu_actions(vm, fs, funcs) is Ok {
        let p = gpu_actions(vm, fs, funcs.drop_last())->Ok_0;
        let r = gpu_actions(vm, fs, funcs)->Ok_0.1;
        if t < funcs.len() - 1 {
            assert(funcs.drop_last()[t] == funcs[t]);
            lemma_gpu_binds(vm, fs, funcs.drop_last(), t);
            let m = choose|m: int| 0 <= m < p.1.len() && p.1[m] == bind_for(vm, "GPU"@, funcs[t]);
            assert(r[m] == p.1[m]);
        } else {
            assert(r[r.len() - 1] == bind_for(vm, "GPU"@, funcs.last()));
        }
    }
}

proof fn lemma_contains_concat<A>(a: Seq<A>, b: Seq<A>, x: A)
    ensures
        a.contains(x) ==> (a + b).contains(x),
        b.contains(x) ==> (a + b).contains(x),
{
    if a.contains(x) {
        let i = choose|i: int| 0 <= i < a.len() && a[i] == x;
        assert((a + b)[i] == x);
    }
    if b.contains(x) {
        let i = choose|i: int| 0 <= i < b.len() && b[i] == x;
        assert((a + b)[a.len() + i] == x);
    }
}

/// The devices configured for passthrough, any kind.
pub open spec fn is_passthrough_list(cfg: VmConfig, v: Vec<PciDeviceConfig>) -> bool {
    Some(v) == cfg.devices.gpu || Some(v) == cfg.devices.nvme || Some(v) == cfg.devices.nic
        || Some(v) == cfg.devices.usb
}

/// Every device configured under `devices.gpu`, `nvme`, `nic` or `usb`
/// that the inventory holds is bound to vfio-pci by the plan: a built
/// plan has a `BindToVfio` action for its address.
pub proof fn lemma_plan_binds_every_configured_device(
    vm: Seq<char>,
    cfg: VmConfig,
    fs: Seq<PciFunction>,
    v: Vec<PciDeviceConfig>,
    j: int,
)
    requires
        is_passthrough_list(cfg, v),
        0 <= j < v@.len(),
        exists|k: int| 0 <= k < fs.len() && (#[trigger] fs[k]).bdf@ == v@[j].pci_address@,
    ensures
        plan_spec(vm, cfg, fs) matches Ok(acts) ==> exists|m: int|
            0 <= m < acts.len() && (#[trigger] acts[m]).kind == VfioActionKind::BindToVfio && acts[m].bdf
                == v@[j].pci_address@,
{
    let a = v@[j].pci_address@;
    lemma_resolve_finds(fs, v@, j);
    if plan_spec(vm, cfg, fs) is Ok {
        let acts = plan_spec(vm, cfg, fs)->Ok_0;
        let gf = kind_resolve(fs, cfg.devices.gpu)->Ok_0;
        let ga = gpu_actions(vm, fs, gf)->Ok_0;
        let nf = kind_resolve(fs, cfg.devices.nvme)->Ok_0;
        let cf = kind_resolve(fs, cfg.devices.nic)->Ok_0;
        let uf = kind_resolve(fs, cfg.devices.usb)->Ok_0;
        let n = list_actions(vm, "NVMe"@, nf);
        let c = list_actions(vm, "NIC"@, cf);
        let u = list_actions(vm, "USB"@, uf);
        let pre = ga.0 + n.0 + c.0 + u.0;
        assert(acts == pre + ga.1 + n.1 + c.1 + u.1);
        let p = resolve_spec(fs, v@)->Ok_0;
        let t = choose|t: int| 0 <= t < p.len() && (#[trigger] p[t]).bdf@ == a;
        let ghost mut bv = bind_for(vm, "GPU"@, p[t]);
        if Some(v) == cfg.devices.gpu {
            lemma_gpu_binds(vm, fs, gf, t);
            lemma_contains_concat(pre, ga.1, bv);
            lemma_contains_concat(pre + ga.1, n.1, bv);
            lemma_contains_concat(pre + ga.1 + n.1, c.1, bv);
            lemma_contains_concat(pre + ga.1 + n.1 + c.1, u.1, bv);
        } else if Some(v) == cfg.devices.nvme {
            bv = bind_for(vm, "NVMe"@, p[t]);
            lemma_list_binds(vm, "NVMe"@, nf, t);
            lemma_contains_concat(pre + ga.1, n.1, bv);
            lemma_contains_concat(pre + ga.1 + n.1, c.1, bv);
            lemma_contains_concat(pre + ga.1 + n.1 + c.1, u.1, bv);
        } else if Some(v) == cfg.devices.nic {
            bv = bind_for(vm, "NIC"@, p[t]);
            lemma_list_binds(vm, "NIC"@, cf, t);
            lemma_contains_concat(pre + ga.1 + n.1, c.1, bv);
            lemma_contains_concat(pre + ga.1 + n.1 + c.1, u.1, bv);
        } else {
            bv = bind_for(vm, "USB"@, p[t]);
            lemma_list_binds(vm, "USB"@, uf, t);
            lemma_contains_concat(pre + ga.1 + n.1 + c.1, u.1, bv);
        }
        assert(acts.contains(bv));
        let m = choose|m: int| 0 <= m < acts.len() && acts[m] == bv;
        assert(acts[m].kind == VfioActionKind::BindToVfio && acts[m].bdf == a);
    }
}

/// A required device configured for passthrough that the inventory does
/// not hold makes the plan an error.
pub proof fn lemma_plan_fails_on_missing_required(
    vm: Seq<char>,
    cfg: VmConfig,
    fs: Seq<PciFunction>,
    v: Vec<PciDeviceConfig>,
    j: int,
)
    requires
        is_passthrough_list(cfg, v),
        0 <= j < v@.len(),
        v@[j].required,
        forall|k: int| 0 <= k < fs.len() ==> (#[trigger] fs[k]).bdf@ != v@[j].pci_address@,
    ensures
        plan_spec(vm, cfg, fs) is Err,
{
    lemma_resolve_missing(fs, v@, j);
}

// ---------------------------------------------------------------------------
// Construction
// ---------------------------------------------------------------------------

/// Append the unbind (if needed) and bind actions for one function.
fn append_actions_for_function(
    vm_name: &str,
    kind_label: &str,
    func: &PciFunction,
    unbind_actions: &mut Vec<VfioAction>,
    bind_actions: &mut Vec<VfioAction>,
)
    ensures
        action_views(final(unbind_actions)@) == action_views(old(unbind_actions)@) + unbinds_for(
            vm_name@,
            kind_label@,
            *func,
        ),
        action_views(final(bind_actions)@) == action_views(old(bind_actions)@).push(
            bind_for(vm_name@, kind_label@, *func),
        ),
{
    let ghost u0 = action_views(unbind_actions@);
    let ghost b0 = action_views(bind_actions@);
    match &func.driver {
        Some(d) => {
            if !str_eq(d.as_str(), "vfio-pci") {
                let mut reason = lit(kind_label);
                reason.append(" ");
                reason.append(func.bdf.as_str());
                reason.append(": unbinding from current driver `");
                reason.append(d.as_str());
                reason.append("` before binding to vfio-pci for VM ");
                reason.append(vm_name);
                unbind_actions.push(
                    VfioAction {
                        bdf: copy_string(&func.bdf),
                        kind: VfioActionKind::UnbindFromCurrentDriver,
                        reason,
                    },
                );
                assert(action_views(unbind_actions@) =~= u0 + unbinds_for(
                    vm_name@,
                    kind_label@,
                    *func,
                ));
            } else {
                assert(action_views(unbind_actions@) =~= u0 + unbinds_for(
                    vm_name@,
                    kind_label@,
                    *func,
                ));
            }
        },
        None => {
            assert(action_views(unbind_actions@) =~= u0 + unbinds_for(
                vm_name@,
                kind_label@,
                *func,
            ));
        },
    }
    let mut reason = lit(kind_label);
    reason.append(" device bound to vfio-pci for VM ");
    reason.append(vm_name);
    bind_actions.push(
        VfioAction { bdf: copy_string(&func.bdf), kind: VfioActionKind::BindToVfio, reason },
    );
    assert(action_views(bind_actions@) =~= b0.push(bind_for(vm_name@, kind_label@, *func)));
}

/// Stage all configured devices of one kind.
fn stage_device_list(
    vm_name: &str,
    kind_label: &str,
    cfgs_opt: Option<&Vec<PciDeviceConfig>>,
    inv: &PciInventory,
    unbind_actions: &mut Vec<VfioAction>,
    bind_actions: &mut Vec<VfioAction>,
) -> (r: Result<()>)
    ensures
        match kind_resolve(
            inv.functions@,
            match cfgs_opt {
                Some(v) => Some(*v),
                None => None,
            },
        ) {
            Err(a) => r matches Err(ChalybsError::Vfio(m)) && m@ == missing_device_msg(a),
            Ok(s) => r is Ok && action_views(final(unbind_actions)@) == action_views(
                old(unbind_actions)@,
            ) + list_actions(vm_name@, kind_label@, s).0 && action_views(final(bind_actions)@)
                == action_views(old(bind_actions)@) + list_actions(vm_name@, kind_label@, s).1,
        },
{
    let ghost u0 = action_views(unbind_actions@);
    let ghost b0 = action_views(bind_actions@);
    let cfgs = match cfgs_opt {
        Some(c) => c,
        None => {
            assert(u0 + Seq::<ActionView>::empty() =~= u0);
            assert(b0 + Seq::<ActionView>::empty() =~= b0);
            return Ok(());
        },
    };
    if cfgs.len() == 0 {
        assert(u0 + Seq::<ActionView>::empty() =~= u0);
        assert(b0 + Seq::<ActionView>::empty() =~= b0);
        return Ok(());
    }
    let funcs = match inv.resolve_configured(cfgs.as_slice()) {
        Ok(f) => f,
        Err(e) => return Err(e),
    };
    let ghost s = unrefs(funcs@);
    let mut i: usize = 0;
    assert(u0 + list_actions(vm_name@, kind_label@, s.take(0)).0 =~= u0);
    assert(b0 + list_actions(vm_name@, kind_label@, s.take(0)).1 =~= b0);
    while i < funcs.len()
        invariant
            i <= funcs@.len(),
            s == unrefs(funcs@),
            action_views(unbind_actions@) == u0 + list_actions(
                vm_name@,
                kind_label@,
                s.take(i as int),
            ).0,
            action_views(bind_actions@) == b0 + list_actions(vm_name@, kind_label@, s.take(i as int)).1,
        decreases funcs@.len() - i,
    {
        assert(s.take(i + 1).drop_last() =~= s.take(i as int));
        assert(s.take(i + 1).last() == *funcs@[i as int]);
        append_actions_for_function(vm_name, kind_label, funcs[i], unbind_actions, bind_actions);
        i = i + 1;
        assert(action_views(unbind_actions@) =~= u0 + list_actions(
            vm_name@,
            kind_label@,
            s.take(i as int),
        ).0);
        assert(action_views(bind_actions@) =~= b0 + list_actions(
            vm_name@,
            kind_label@,
            s.take(i as int),
        ).1);
    }
    assert(s.take(s.len() as int) =~= s);
    Ok(())
}

proof fn lemma_last_gpu_index(fs: Seq<PciFunction>, b: Seq<char>)
    ensures
        match last_gpu_index(fs, b) {
            Some(i) => 0 <= i < fs.len() && is_display(fs[i]) && fs[i].bdf@ == b,
            None => forall|k: int|
                0 <= k < fs.len() ==> !(is_display(#[trigger] fs[k]) && fs[k].bdf@ == b),
        },
    decreases fs.len(),
{
    if fs.len() > 0 {
        let d = fs.drop_last();
        lemma_last_gpu_index(d, b);
        assert forall|k: int| 0 <= k < d.len() implies d[k] == fs[k] by {}
    }
}

/// Index of the last display controller with the given BDF.
pub(crate) fn last_gpu_index_exec(fs: &Vec<PciFunction>, b: &String) -> (r: Option<usize>)
    ensures
        match r {
            Some(i) => last_gpu_index(fs@, b@) == Some(i as int),
            None => last_gpu_index(fs@, b@) is None,
        },
{
    let mut i: usize = fs.len();
    assert(fs@.take(fs@.len() as int) =~= fs@);
    while i > 0
        invariant
            i <= fs@.len(),
            last_gpu_index(fs@, b@) == last_gpu_index(fs@.take(i as int), b@),
        decreases i,
    {
        assert(fs@.take(i as int).drop_last() =~= fs@.take(i - 1));
        assert(fs@.take(i as int).last() == fs@[i - 1]);
        if fs[i - 1].is_display_controller() && str_eq(fs[i - 1].bdf.as_str(), b.as_str()) {
            return Some(i - 1);
        }
        i = i - 1;
    }
    None
}

/// Actions for configured GPU entries, honouring unbind feasibility.
fn build_gpu_actions(
    vm_name: &str,
    cfg: &VmConfig,
    inv: &PciInventory,
    unbind_actions: &mut Vec<VfioAction>,
    bind_actions: &mut Vec<VfioAction>,
) -> (r: Result<()>)
    ensures
        match kind_resolve(inv.functions@, cfg.devices.gpu) {
            Err(a) => r matches Err(ChalybsError::Vfio(m)) && m@ == missing_device_msg(a),
            Ok(gf) => match gpu_actions(vm_name@, inv.functions@, gf) {
                Err(e) => r matches Err(ChalybsError::Vfio(m)) && m@ == e,
                Ok(p) => r is Ok && action_views(final(unbind_actions)@) == action_views(
                    old(unbind_actions)@,
                ) + p.0 && action_views(final(bind_actions)@) == action_views(old(bind_actions)@)
                    + p.1,
            },
        },
{
    let ghost u0 = action_views(unbind_actions@);
    let ghost b0 = action_views(bind_actions@);
    let ghost fs = inv.functions@;
    let gpu_cfgs = match cfg.devices.gpu.as_ref() {
        Some(list) => list,
        None => {
            assert(u0 + Seq::<ActionView>::empty() =~= u0);
            assert(b0 + Seq::<ActionView>::empty() =~= b0);
            return Ok(());
        },
    };
    if gpu_cfgs.len() == 0 {
        assert(u0 + Seq::<ActionView>::empty() =~= u0);
        assert(b0 + Seq::<ActionView>::empty() =~= b0);
        return Ok(());
    }
    let gpu_funcs = match inv.resolve_configured(gpu_cfgs.as_slice()) {
        Ok(f) => f,
        Err(e) => return Err(e),
    };
    let ghost s = unrefs(gpu_funcs@);
    assert(kind_resolve(fs, cfg.devices.gpu) == Ok::<Seq<PciFunction>, Seq<char>>(s));
    let mut i: usize = 0;
    assert(u0 + Seq::<ActionView>::empty() =~= u0);
    assert(b0 + Seq::<ActionView>::empty() =~= b0);
    while i < gpu_funcs.len()
        invariant
            i <= gpu_funcs@.len(),
            s == unrefs(gpu_funcs@),
            kind_resolve(inv.functions@, cfg.devices.gpu) == Ok::<Seq<PciFunction>, Seq<char>>(s),
            fs == inv.functions@,
            gpu_actions(vm_name@, fs, s.take(i as int)) matches Ok(p) && action_views(
                unbind_actions@,
            ) == u0 + p.0 && action_views(bind_actions@) == b0 + p.1,
        decreases gpu_funcs@.len() - i,
    {
        let ghost t = s.take(i + 1);
        assert(t.drop_last() =~= s.take(i as int));
        assert(t.last() == *gpu_funcs@[i as int]);
        let ghost p = gpu_actions(vm_name@, fs, s.take(i as int))->Ok_0;
        let func = gpu_funcs[i];
        let bdf = &func.bdf;
        if func.is_display_controller() {
            let idx = match last_gpu_index_exec(&inv.functions, bdf) {
                Some(k) => k,
                None => {
                    let mut m = lit("VM ");
                    m.append(vm_name);
                    m.append(": no GPU unbind assessment available for ");
                    m.append(bdf.as_str());
                    proof {
                        lemma_gpu_err_sticks(vm_name@, fs, s, i + 1);
                    }
                    return Err(ChalybsError::Vfio(m));
                },
            };
            proof {
                lemma_last_gpu_index(fs, bdf@);
            }
            let assessment = inv.assess_gpu(&inv.functions[idx]);
            match &assessment.feasibility {
                GpuUnbindFeasibility::Safe => {
                    append_actions_for_function(vm_name, "GPU", func, unbind_actions, bind_actions);
                },
                GpuUnbindFeasibility::Risky(msg) => {
                    let mut m = lit("VM ");
                    m.append(vm_name);
                    m.append(": GPU ");
                    m.append(bdf.as_str());
                    m.append(" is classified as RISKY to unbind: ");
                    m.append(msg.as_str());
                    proof {
                        lemma_gpu_err_sticks(vm_name@, fs, s, i + 1);
                    }
                    return Err(ChalybsError::Vfio(m));
                },
                GpuUnbindFeasibility::Unsafe(msg) => {
                    let mut m = lit("VM ");
                    m.append(vm_name);
                    m.append(": GPU ");
                    m.append(bdf.as_str());
                    m.append(" is classified as UNSAFE to unbind: ");
                    m.append(msg.as_str());
                    proof {
                        lemma_gpu_err_sticks(vm_name@, fs, s, i + 1);
                    }
                    return Err(ChalybsError::Vfio(m));
                },
            }
        } else {
            if inv.is_bdf_in_gpu_complex(bdf.as_str()) {
                append_actions_for_function(vm_name, "GPU", func, unbind_actions, bind_actions);
            } else {
                let mut m = lit("VM ");
                m.append(vm_name);
                m.append(": device ");
                m.append(bdf.as_str());
                m.append(
                    " is listed under devices.gpu but PCI class base is not 0x03 (display controller) and it does not share a PCI slot with a display controller",
                );
                proof {
                    lemma_gpu_err_sticks(vm_name@, fs, s, i + 1);
                }
                return Err(ChalybsError::Vfio(m));
            }
        }
        i = i + 1;
        assert(action_views(unbind_actions@) =~= u0 + (p.0 + unbinds_for(
            vm_name@,
            "GPU"@,
            *func,
        )));
    }
    assert(s.take(s.len() as int) =~= s);
    Ok(())
}

proof fn lemma_gpu_err_sticks(vm: Seq<char>, fs: Seq<PciFunction>, s: Seq<PciFunction>, n: int)
    requires
        0 <= n <= s.len(),
        gpu_actions(vm, fs, s.take(n)) is Err,
    ensures
        gpu_actions(vm, fs, s) == gpu_actions(vm, fs, s.take(n)),
    decreases s.len() - n,
{
    if n < s.len() {
        assert(s.take(n + 1).drop_last() =~= s.take(n));
        lemma_gpu_err_sticks(vm, fs, s, n + 1);
    } else {
        assert(s.take(n) =~= s);
    }
}

/// Build the VFIO action plan for a VM; nothing is written to sysfs.
pub fn build_plan_for_vm(vm_name: &str, cfg: &VmConfig, inv: &PciInventory) -> (r: Result<VfioPlan>)
    ensures
        match plan_spec(vm_name@, *cfg, inv.functions@) {
            Ok(acts) => r matches Ok(p) && p.vm_name@ == vm_name@ && action_views(p.actions@)
                == acts,
            Err(e) => r matches Err(ChalybsError::Vfio(m)) && m@ == e,
        },
{
    let mut unbind_actions: Vec<VfioAction> = Vec::new();
    let mut bind_actions: Vec<VfioAction> = Vec::new();
    assert(action_views(unbind_actions@) =~= Seq::<ActionView>::empty());
    assert(action_views(bind_actions@) =~= Seq::<ActionView>::empty());
    match build_gpu_actions(vm_name, cfg, inv, &mut unbind_actions, &mut bind_actions) {
        Ok(()) => {},
        Err(e) => return Err(e),
    }
    match stage_device_list(vm_name, "NVMe", cfg.devices.nvme.as_ref(), inv, &mut unbind_actions, &mut bind_actions) {
        Ok(()) => {},
        Err(e) => return Err(e),
    }
    match stage_device_list(vm_name, "NIC", cfg.devices.nic.as_ref(), inv, &mut unbind_actions, &mut bind_actions) {
        Ok(()) => {},
        Err(e) => return Err(e),
    }
    match stage_device_list(vm_name, "USB", cfg.devices.usb.as_ref(), inv, &mut unbind_actions, &mut bind_actions) {
        Ok(()) => {},
        Err(e) => return Err(e),
    }
    let ghost uv = action_views(unbind_actions@);
    let ghost bv = action_views(bind_actions@);
    let mut actions: Vec<VfioAction> = Vec::new();
    actions.append(&mut unbind_actions);
    actions.append(&mut bind_actions);
    assert(action_views(actions@) =~= uv + bv);
    proof {
        let fs = inv.functions@;
        let vm = vm_name@;
        if let Ok(acts) = plan_spec(vm, *cfg, fs) {
            let ga = match kind_resolve(fs, cfg.devices.gpu) {
                Ok(gf) => gpu_actions(vm, fs, gf)->Ok_0,
                Err(_) => arbitrary(),
            };
            let n = list_actions(vm, "NVMe"@, kind_resolve(fs, cfg.devices.nvme)->Ok_0);
            let c = list_actions(vm, "NIC"@, kind_resolve(fs, cfg.devices.nic)->Ok_0);
            let u = list_actions(vm, "USB"@, kind_resolve(fs, cfg.devices.usb)->Ok_0);
            assert(uv =~= ga.0 + n.0 + c.0 + u.0);
            assert(bv =~= ga.1 + n.1 + c.1 + u.1);
            assert(acts =~= uv + bv);
        }
    }
    Ok(VfioPlan { vm_name: String::from_str(vm_name), actions })
}

} // verus!
