//! GPU passthrough policy: single-GPU protection and unbind gating.
use vstd::prelude::*;
use crate::config::VmConfig;
use crate::error::{ChalybsError, Result};
use crate::pci::{
    expected_feasibility, is_display, missing_device_msg, resolve_spec, sel_pred, unrefs,
    FeasibilityView, GpuUnbindFeasibility, PciFunction, PciInventory, Selector,
};
use crate::text::{copy_string, lit, str_eq};
use crate::vfio::execute::{step_for, step_view, SysfsStep};
use crate::vfio::isolation::kind_resolve;
use crate::vfio::plan::{last_gpu_index, VfioActionKind};

verus! {

pub open spec fn gpu_request_count(cfg: VmConfig) -> nat {
    match cfg.devices.gpu {
        Some(v) => v@.len(),
        None => 0,
    }
}

pub open spec fn no_host_gpu_msg(vm: Seq<char>) -> Seq<char> {
    "VM "@ + vm
        + ": GPU passthrough requested, but host has NO GPUs detected via PCI inventory."@
}

pub open spec fn single_gpu_msg(vm: Seq<char>) -> Seq<char> {
    "VM "@ + vm + ": GPU passthrough on a SINGLE-GPU host is blocked.\nTo permit this, explicitly set:\n[vm."@
        + vm + ".gpu]\nallow_single_gpu = true\n\nWARNING: this may steal the host display.\n"@
}

/// The preflight's error text, if it fails: a GPU request on a host
/// without GPUs, or on a single-GPU host without `allow_single_gpu`.
pub open spec fn preflight_error(vm: Seq<char>, cfg: VmConfig, fs: Seq<PciFunction>) -> Option<
    Seq<char>,
> {
    let host = fs.filter(sel_pred(Selector::Display)).len();
    if gpu_request_count(cfg) == 0 {
        None
    } else if host == 0 {
        Some(no_host_gpu_msg(vm))
    } else if host == 1 && !cfg.gpu.allow_single_gpu {
        Some(single_gpu_msg(vm))
    } else {
        None
    }
}

/// GPU passthrough preflight: nothing to check without requested GPUs;
/// otherwise the host needs a GPU, and a single-GPU host needs
/// `allow_single_gpu`.
pub fn preflight_gpu_policy(vm_name: &str, cfg: &VmConfig, inv: &PciInventory) -> (r: Result<()>)
    ensures
        ({
            let host = inv.functions@.filter(sel_pred(Selector::Display)).len();
            if gpu_request_count(*cfg) == 0 {
                r is Ok
            } else if host == 0 {
                r matches Err(ChalybsError::Vfio(m)) && m@ == no_host_gpu_msg(vm_name@)
            } else if host == 1 && !cfg.gpu.allow_single_gpu {
                r matches Err(ChalybsError::Vfio(m)) && m@ == single_gpu_msg(vm_name@)
            } else {
                r is Ok
            }
        }),
{
    let vm_gpu_count = match &cfg.devices.gpu {
        Some(v) => v.len(),
        None => 0,
    };
    if vm_gpu_count == 0 {
        return Ok(());
    }
    let host_gpu_count = inv.count_display_controllers();
    if host_gpu_count == 0 {
        let mut m = lit("VM ");
        m.append(vm_name);
        m.append(": GPU passthrough requested, but host has NO GPUs detected via PCI inventory.");
        return Err(ChalybsError::Vfio(m));
    }
    if host_gpu_count == 1 && !cfg.gpu.allow_single_gpu {
        let mut m = lit("VM ");
        m.append(vm_name);
        m.append(": GPU passthrough on a SINGLE-GPU host is blocked.\nTo permit this, explicitly set:\n[vm.");
        m.append(vm_name);
        m.append(".gpu]\nallow_single_gpu = true\n\nWARNING: this may steal the host display.\n");
        return Err(ChalybsError::Vfio(m));
    }
    Ok(())
}

pub open spec fn not_display_gpu_msg(vm: Seq<char>, b: Seq<char>) -> Seq<char> {
    "VM "@ + vm + ": device "@ + b + " in devices.gpu is not a display controller"@
}

pub open spec fn unsafe_unbind_msg(vm: Seq<char>, b: Seq<char>, reason: Seq<char>) -> Seq<char> {
    "VM "@ + vm + ": GPU "@ + b + " is classified as UNSAFE to unbind: "@ + reason
}

/// The first gate failure among the resolved GPUs: a function that is not
/// a display controller, or one whose (last recorded) assessment is unsafe.
pub open spec fn gate_error(vm: Seq<char>, fs: Seq<PciFunction>, funcs: Seq<PciFunction>) -> Option<
    Seq<char>,
>
    decreases funcs.len(),
{
    if funcs.len() == 0 {
        None
    } else {
        match gate_error(vm, fs, funcs.drop_last()) {
            Some(e) => Some(e),
            None => {
                let f = funcs.last();
                if !is_display(f) {
                    Some(not_display_gpu_msg(vm, f.bdf@))
                } else {
                    match last_gpu_index(fs, f.bdf@) {
                        Some(i) => match expected_feasibility(fs, fs[i]) {
                            FeasibilityView::Unsafe(reason) => Some(
                                unsafe_unbind_msg(vm, f.bdf@, reason),
                            ),
                            _ => None,
                        },
                        None => None,
                    }
                }
            },
        }
    }
}

/// The unbind and bind steps for each resolved GPU, in order.
pub open spec fn gpu_steps(funcs: Seq<PciFunction>) -> Seq<(int, Seq<char>, Seq<char>)>
    decreases funcs.len(),
{
    if funcs.len() == 0 {
        Seq::empty()
    } else {
        let f = funcs.last();
        gpu_steps(funcs.drop_last()).push(
            step_for(VfioActionKind::UnbindFromCurrentDriver, f.bdf@, Some(f)),
        ).push(step_for(VfioActionKind::BindToVfio, f.bdf@, Some(f)))
    }
}

pub open spec fn step_views(s: Seq<SysfsStep>) -> Seq<(int, Seq<char>, Seq<char>)> {
    s.map_values(|x: SysfsStep| step_view(x))
}

/// What preparing GPU passthrough amounts to: the sysfs steps, or the
/// error that stops it before any write.
pub open spec fn prepare_spec(vm: Seq<char>, cfg: VmConfig, fs: Seq<PciFunction>) -> core::result::Result<
    Seq<(int, Seq<char>, Seq<char>)>,
    Seq<char>,
> {
    match kind_resolve(fs, cfg.devices.gpu) {
        Err(a) => Err(missing_device_msg(a)),
        Ok(funcs) => match gate_error(vm, fs, funcs) {
            Some(e) => Err(e),
            None => Ok(gpu_steps(funcs)),
        },
    }
}

fn last_gpu_index_exec(fs: &Vec<PciFunction>, b: &String) -> (r: Option<usize>)
    ensures
        match r {
            Some(i) => last_gpu_index(fs@, b@) == Some(i as int) && i < fs@.len(),
            None => last_gpu_index(fs@, b@) is None,
        },
{
    let mut i: usize = fs.len();
    assert(fs@.take(fs@.len() as int) =~= fs@);
    while i > 0
        invariant
            i <= fs@.len(),
            last_gpu_index(fs@, b@) == last_gpu_index(fs@.take(i as int), b@),
        decreases i,
    {
        assert(fs@.take(i as int).drop_last() =~= fs@.take(i - 1));
        assert(fs@.take(i as int).last() == fs@[i - 1]);
        if fs[i - 1].is_display_controller() && str_eq(fs[i - 1].bdf.as_str(), b.as_str()) {
            return Some(i - 1);
        }
        i = i - 1;
    }
    None
}

proof fn lemma_gate_sticks(vm: Seq<char>, fs: Seq<PciFunction>, s: Seq<PciFunction>, n: int)
    requires
        0 <= n <= s.len(),
        gate_error(vm, fs, s.take(n)) is Some,
    ensures
        gate_error(vm, fs, s) == gate_error(vm, fs, s.take(n)),
    decreases s.len() - n,
{
    if n < s.len() {
        assert(s.take(n + 1).drop_last() =~= s.take(n));
        lemma_gate_sticks(vm, fs, s, n + 1);
    } else {
        assert(s.take(n) =~= s);
    }
}

fn unbind_step(f: &PciFunction) -> (r: SysfsStep)
    ensures
        step_view(r) == step_for(VfioActionKind::UnbindFromCurrentDriver, f.bdf@, Some(*f)),
{
    match &f.driver {
        Some(d) => {
            if str_eq(d.as_str(), "vfio-pci") {
                SysfsStep::Skip { bdf: copy_string(&f.bdf) }
            } else {
                SysfsStep::Unbind { bdf: copy_string(&f.bdf), driver: copy_string(d) }
            }
        },
        None => SysfsStep::Skip { bdf: copy_string(&f.bdf) },
    }
}

fn bind_step(f: &PciFunction) -> (r: SysfsStep)
    ensures
        step_view(r) == step_for(VfioActionKind::BindToVfio, f.bdf@, Some(*f)),
{
    if f.is_bound_to_vfio() {
        SysfsStep::Skip { bdf: copy_string(&f.bdf) }
    } else {
        SysfsStep::BindVfio { bdf: copy_string(&f.bdf) }
    }
}

/// Prepare GPU passthrough: resolve the configured GPUs, refuse a
/// non-display entry or an unsafe unbind, and give the sysfs steps
/// (unbind from the current driver, bind to vfio-pci) for each GPU.
pub fn prepare_gpu_passthrough(vm_name: &str, cfg: &VmConfig, inv: &PciInventory) -> (r: Result<
    Vec<SysfsStep>,
>)
    ensures
        match prepare_spec(vm_name@, *cfg, inv.functions@) {
            Ok(steps) => r matches Ok(v) && step_views(v@) == steps,
            Err(e) => r matches Err(ChalybsError::Vfio(m)) && m@ == e,
        },
{
    let ghost fs = inv.functions@;
    let gpu_cfgs = match &cfg.devices.gpu {
        Some(v) => v,
        None => {
            let out: Vec<SysfsStep> = Vec::new();
            assert(step_views(out@) =~= gpu_steps(Seq::<PciFunction>::empty()));
            return Ok(out);
        },
    };
    if gpu_cfgs.len() == 0 {
        let out: Vec<SysfsStep> = Vec::new();
        assert(step_views(out@) =~= gpu_steps(Seq::<PciFunction>::empty()));
        return Ok(out);
    }
    let resolved = match inv.resolve_configured(gpu_cfgs.as_slice()) {
        Ok(f) => f,
        Err(e) => return Err(e),
    };
    let ghost s = unrefs(resolved@);
    assert(kind_resolve(fs, cfg.devices.gpu) == Ok::<Seq<PciFunction>, Seq<char>>(s));
    let mut i: usize = 0;
    while i < resolved.len()
        invariant
            i <= resolved@.len(),
            s == unrefs(resolved@),
            fs == inv.functions@,
            kind_resolve(fs, cfg.devices.gpu) == Ok::<Seq<PciFunction>, Seq<char>>(s),
            gate_error(vm_name@, fs, s.take(i as int)) is None,
        decreases resolved@.len() - i,
    {
        assert(s.take(i + 1).drop_last() =~= s.take(i as int));
        assert(s.take(i + 1).last() == *resolved@[i as int]);
        let func = resolved[i];
        if !func.is_display_controller() {
            let mut m = lit("VM ");
            m.append(vm_name);
            m.append(": device ");
            m.append(func.bdf.as_str());
            m.append(" in devices.gpu is not a display controller");
            proof {
                lemma_gate_sticks(vm_name@, fs, s, i + 1);
            }
            return Err(ChalybsError::Vfio(m));
        }
        match last_gpu_index_exec(&inv.functions, &func.bdf) {
            Some(k) => {
                let a = inv.assess_gpu(&inv.functions[k]);
                match &a.feasibility {
                    GpuUnbindFeasibility::Unsafe(reason) => {
                        let mut m = lit("VM ");
                        m.append(vm_name);
                        m.append(": GPU ");
                        m.append(func.bdf.as_str());
                        m.append(" is classified as UNSAFE to unbind: ");
                        m.append(reason.as_str());
                        proof {
                            lemma_gate_sticks(vm_name@, fs, s, i + 1);
                        }
                        return Err(ChalybsError::Vfio(m));
                    },
                    _ => {},
                }
            },
            None => {},
        }
        i = i + 1;
    }
    assert(s.take(s.len() as int) =~= s);
    let mut out: Vec<SysfsStep> = Vec::new();
    let mut j: usize = 0;
    assert(step_views(out@) =~= gpu_steps(s.take(0)));
    while j < resolved.len()
        invariant
            j <= resolved@.len(),
            s == unrefs(resolved@),
            step_views(out@) == gpu_steps(s.take(j as int)),
        decreases resolved@.len() - j,
    {
        assert(s.take(j + 1).drop_last() =~= s.take(j as int));
        assert(s.take(j + 1).last() == *resolved@[j as int]);
        let ghost pre = out@;
        let func = resolved[j];
        out.push(unbind_step(func));
        out.push(bind_step(func));
        assert(step_views(out@) =~= step_views(pre).push(
            step_for(VfioActionKind::UnbindFromCurrentDriver, func.bdf@, Some(*func)),
        ).push(step_for(VfioActionKind::BindToVfio, func.bdf@, Some(*func))));
        j = j + 1;
    }
    assert(s.take(s.len() as int) =~= s);
    Ok(out)
}

} // verus!
