//! Post-staging verification: every configured passthrough device that
//! resolves in a fresh inventory must be bound to vfio-pci.
use vstd::prelude::*;
use crate::config::{PciDeviceConfig, VmConfig};
use crate::error::{ChalybsError, Result};
use crate::pci::{in_gpu_complex, is_display, missing_device_msg, unrefs, PciFunction, PciInventory};
use crate::text::{lit, opt_view, str_eq};
use crate::vfio::isolation::kind_resolve;

verus! {

/// Logical kind of device, for the extra GPU check.
#[derive(Debug, Clone, Copy, PartialEq, Eq, Structural)]
pub enum DeviceKind {
    /// A display controller or a member of a GPU complex.
    Gpu,
    /// Any other passthrough device.
    Generic,
}

pub open spec fn not_display_msg(vm: Seq<char>, b: Seq<char>) -> Seq<char> {
    "VM "@ + vm + ": device "@ + b + " configured as GPU, but PCI class base is not 0x03 (display controller)"@
}

pub open spec fn wrong_driver_msg(vm: Seq<char>, label: Seq<char>, b: Seq<char>, d: Seq<char>) -> Seq<
    char,
> {
    "VM "@ + vm + ": "@ + label + " device "@ + b + " is bound to `"@ + d
        + "`, expected `vfio-pci` after VFIO staging"@
}

pub open spec fn no_driver_msg(vm: Seq<char>, label: Seq<char>, b: Seq<char>) -> Seq<char> {
    "VM "@ + vm + ": "@ + label + " device "@ + b
        + " has no bound driver, expected `vfio-pci` after VFIO staging"@
}

/// The error for one device, if any: a GPU entry must be a display
/// controller or a GPU-complex member; every device must be on vfio-pci.
pub open spec fn device_error(
    vm: Seq<char>,
    label: Seq<char>,
    kind: Option<DeviceKind>,
    fs: Seq<PciFunction>,
    f: PciFunction,
) -> Option<Seq<char>> {
    if kind == Some(DeviceKind::Gpu) && !is_display(f) && !in_gpu_complex(fs, f.bdf@) {
        Some(not_display_msg(vm, f.bdf@))
    } else {
        match opt_view(f.driver) {
            Some(d) => if d == "vfio-pci"@ {
                None
            } else {
                Some(wrong_driver_msg(vm, label, f.bdf@, d))
            },
            None => Some(no_driver_msg(vm, label, f.bdf@)),
        }
    }
}

/// The first device error in a list.
pub open spec fn list_error(
    vm: Seq<char>,
    label: Seq<char>,
    kind: Option<DeviceKind>,
    fs: Seq<PciFunction>,
    funcs: Seq<PciFunction>,
) -> Option<Seq<char>>
    decreases funcs.len(),
{
    if funcs.len() == 0 {
        None
    } else {
        match list_error(vm, label, kind, fs, funcs.drop_last()) {
            Some(e) => Some(e),
            None => device_error(vm, label, kind, fs, funcs.last()),
        }
    }
}

/// The first error of one category: resolution, then the devices.
pub open spec fn category_error(
    vm: Seq<char>,
    label: Seq<char>,
    kind: Option<DeviceKind>,
    fs: Seq<PciFunction>,
    o: Option<Vec<PciDeviceConfig>>,
) -> Option<Seq<char>> {
    match kind_resolve(fs, o) {
        Err(a) => Some(missing_device_msg(a)),
        Ok(funcs) => list_error(vm, label, kind, fs, funcs),
    }
}

/// The first error over GPU, NVMe, NIC and USB, in that order.
pub open spec fn verify_error(vm: Seq<char>, cfg: VmConfig, fs: Seq<PciFunction>) -> Option<Seq<char>> {
    match category_error(vm, "GPU"@, Some(DeviceKind::Gpu), fs, cfg.devices.gpu) {
        Some(e) => Some(e),
        None => match category_error(vm, "NVMe"@, Some(DeviceKind::Generic), fs, cfg.devices.nvme) {
            Some(e) => Some(e),
            None => match category_error(vm, "NIC"@, Some(DeviceKind::Generic), fs, cfg.devices.nic) {
                Some(e) => Some(e),
                None => category_error(vm, "USB"@, Some(DeviceKind::Generic), fs, cfg.devices.usb),
            },
        },
    }
}

/// Check one device: class for GPU entries, then the vfio-pci binding.
fn verify_single_device(
    vm_name: &str,
    kind_label: &str,
    kind: Option<DeviceKind>,
    inv: &PciInventory,
    func: &PciFunction,
) -> (r: Result<()>)
    ensures
        match device_error(vm_name@, kind_label@, kind, inv.functions@, *func) {
            Some(e) => r matches Err(ChalybsError::Vfio(m)) && m@ == e,
            None => r is Ok,
        },
{
    let bdf = func.bdf.as_str();
    match kind {
        Some(DeviceKind::Gpu) => {
            if !func.is_display_controller() && !inv.is_bdf_in_gpu_complex(bdf) {
                let mut m = lit("VM ");
                m.append(vm_name);
                m.append(": device ");
                m.append(bdf);
                m.append(" configured as GPU, but PCI class base is not 0x03 (display controller)");
                return Err(ChalybsError::Vfio(m));
            }
        },
        _ => {},
    }
    match &func.driver {
        Some(d) => {
            if str_eq(d.as_str(), "vfio-pci") {
                Ok(())
            } else {
                let mut m = lit("VM ");
                m.append(vm_name);
                m.append(": ");
                m.append(kind_label);
                m.append(" device ");
                m.append(bdf);
                m.append(" is bound to `");
                m.append(d.as_str());
                m.append("`, expected `vfio-pci` after VFIO staging");
                Err(ChalybsError::Vfio(m))
            }
        },
        None => {
            let mut m = lit("VM ");
            m.append(vm_name);
            m.append(": ");
            m.append(kind_label);
            m.append(" device ");
            m.append(bdf);
            m.append(" has no bound driver, expected `vfio-pci` after VFIO staging");
            Err(ChalybsError::Vfio(m))
        },
    }
}

proof fn lemma_list_error_sticks(
    vm: Seq<char>,
    label: Seq<char>,
    kind: Option<DeviceKind>,
    fs: Seq<PciFunction>,
    s: Seq<PciFunction>,
    n: int,
)
    requires
        0 <= n <= s.len(),
        list_error(vm, label, kind, fs, s.take(n)) is Some,
    ensures
        list_error(vm, label, kind, fs, s) == list_error(vm, label, kind, fs, s.take(n)),
    decreases s.len() - n,
{
    if n < s.len() {
        assert(s.take(n + 1).drop_last() =~= s.take(n));
        lemma_list_error_sticks(vm, label, kind, fs, s, n + 1);
    } else {
        assert(s.take(n) =~= s);
    }
}

/// Verify one category of configured devices.
fn verify_device_list(
    vm_name: &str,
    kind_label: &str,
    cfgs_opt: Option<&Vec<PciDeviceConfig>>,
    inv: &PciInventory,
    kind: Option<DeviceKind>,
) -> (r: Result<()>)
    ensures
        match category_error(
            vm_name@,
            kind_label@,
            kind,
            inv.functions@,
            match cfgs_opt {
                Some(v) => Some(*v),
                None => None,
            },
        ) {
            Some(e) => r matches Err(ChalybsError::Vfio(m)) && m@ == e,
            None => r is Ok,
        },
{
    let cfgs = match cfgs_opt {
        Some(c) => c,
        None => return Ok(()),
    };
    if cfgs.len() == 0 {
        return Ok(());
    }
    let funcs = match inv.resolve_configured(cfgs.as_slice()) {
        Ok(f) => f,
        Err(e) => return Err(e),
    };
    let ghost s = unrefs(funcs@);
    let ghost fs = inv.functions@;
    assert(kind_resolve(fs, Some(*cfgs)) == Ok::<Seq<PciFunction>, Seq<char>>(s));
    let mut i: usize = 0;
    while i < funcs.len()
        invariant
            i <= funcs@.len(),
            s == unrefs(funcs@),
            fs == inv.functions@,
            kind_resolve(fs, Some(*cfgs)) == Ok::<Seq<PciFunction>, Seq<char>>(s),
            cfgs_opt == Some(cfgs),
            list_error(vm_name@, kind_label@, kind, fs, s.take(i as int)) is None,
        decreases funcs@.len() - i,
    {
        let ghost t = s.take(i + 1);
        assert(t.drop_last() =~= s.take(i as int));
        assert(t.last() == *funcs@[i as int]);
        match verify_single_device(vm_name, kind_label, kind, inv, funcs[i]) {
            Ok(()) => {},
            Err(e) => {
                proof {
                    lemma_list_error_sticks(vm_name@, kind_label@, kind, fs, s, i + 1);
                }
                return Err(e);
            },
        }
        i = i + 1;
    }
    assert(s.take(s.len() as int) =~= s);
    Ok(())
}

/// Verify bindings against a given inventory.
pub fn verify_with_inventory(vm_name: &str, cfg: &VmConfig, inv: &PciInventory) -> (r: Result<()>)
    ensures
        match verify_error(vm_name@, *cfg, inv.functions@) {
            Some(e) => r matches Err(ChalybsError::Vfio(m)) && m@ == e,
            None => r is Ok,
        },
{
    match verify_device_list(vm_name, "GPU", cfg.devices.gpu.as_ref(), inv, Some(DeviceKind::Gpu)) {
        Ok(()) => {},
        Err(e) => return Err(e),
    }
    match verify_device_list(
        vm_name,
        "NVMe",
        cfg.devices.nvme.as_ref(),
        inv,
        Some(DeviceKind::Generic),
    ) {
        Ok(()) => {},
        Err(e) => return Err(e),
    }
    match verify_device_list(vm_name, "NIC", cfg.devices.nic.as_ref(), inv, Some(DeviceKind::Generic)) {
        Ok(()) => {},
        Err(e) => return Err(e),
    }
    verify_device_list(vm_name, "USB", cfg.devices.usb.as_ref(), inv, Some(DeviceKind::Generic))
}

/// Verify the bindings of a VM's devices against a freshly scanned
/// inventory, which the caller passes in.
pub fn verify_vm_vfio_bindings(vm_name: &str, cfg: &VmConfig, inv: &PciInventory) -> (r: Result<()>)
    ensures
        match verify_error(vm_name@, *cfg, inv.functions@) {
            Some(e) => r matches Err(ChalybsError::Vfio(m)) && m@ == e,
            None => r is Ok,
        },
{
    verify_with_inventory(vm_name, cfg, inv)
}

} // verus!
