//! Startup introspection: the events the daemon reports about the host's
//! PCI inventory and about each configured VM before anything runs.
use vstd::prelude::*;
use crate::config::{IsolationLevel, PciDeviceConfig, VmConfig};
use crate::config::pci::{preflight_error, preflight_gpu_policy};
use crate::daemon::ipc::{IpcEvent, IpcEventKind};
use crate::daemon::shell::events_view;
use crate::daemon::status::{isolation_mode_name, isolation_name};
use crate::error::ChalybsError;
use crate::fmt::{dec, hex_pad, radix_digits, u64_to_dec, u64_to_hex_pad, u64_to_radix};
use crate::pci::{
    bdf_index, is_display, is_network, is_nvme_fn, is_usb, DriverKindView, GpuDriverKind,
    GpuFunctionSummary, GpuSafetyClass, PciFunction, PciInventory,
};
use crate::text::{chars_of, lit, opt_view, push_char};
use crate::util::cpu_list;

verus! {

/// The kind a configured device list is expected to hold.
#[derive(Debug, Clone, Copy, PartialEq, Eq, Structural)]
pub enum DeviceKind {
    Gpu,
    Nvme,
    Nic,
    Usb,
}

pub open spec fn kind_name(k: DeviceKind) -> Seq<char> {
    match k {
        DeviceKind::Gpu => "Gpu"@,
        DeviceKind::Nvme => "Nvme"@,
        DeviceKind::Nic => "Nic"@,
        DeviceKind::Usb => "Usb"@,
    }
}

/// Whether a PCI function is of the expected kind.
pub open spec fn kind_matches(f: PciFunction, k: DeviceKind) -> bool {
    match k {
        DeviceKind::Gpu => is_display(f),
        DeviceKind::Nvme => is_nvme_fn(f),
        DeviceKind::Nic => is_network(f),
        DeviceKind::Usb => is_usb(f),
    }
}

pub fn device_kind_matches(f: &PciFunction, k: DeviceKind) -> (r: bool)
    ensures
        r == kind_matches(*f, k),
{
    match k {
        DeviceKind::Gpu => f.is_display_controller(),
        DeviceKind::Nvme => f.is_nvme(),
        DeviceKind::Nic => f.is_network_controller(),
        DeviceKind::Usb => f.is_usb_controller(),
    }
}

fn kind_text(k: DeviceKind) -> (r: &'static str)
    ensures
        r@ == kind_name(k),
{
    match k {
        DeviceKind::Gpu => "Gpu",
        DeviceKind::Nvme => "Nvme",
        DeviceKind::Nic => "Nic",
        DeviceKind::Usb => "Usb",
    }
}

/// The event for one configured device: present (of the right class or
/// not), or missing (an error when required, a warning otherwise).
pub open spec fn device_event(
    vm: Seq<char>,
    label: Seq<char>,
    kind: DeviceKind,
    dev: PciDeviceConfig,
    fs: Seq<PciFunction>,
) -> (IpcEventKind, Seq<char>) {
    let a = dev.pci_address@;
    match bdf_index(fs, a) {
        Some(i) => if kind_matches(fs[i], kind) {
            (IpcEventKind::Info, "vm "@ + vm + ": "@ + label + " device "@ + a + " present in inventory"@)
        } else {
            (
                IpcEventKind::Warning,
                "vm "@ + vm + ": "@ + label + " device "@ + a + " present, wrong PCI class (expected "@
                    + kind_name(kind) + ")"@,
            )
        },
        None => if dev.required {
            (
                IpcEventKind::Error,
                "vm "@ + vm + ": required "@ + label + " device "@ + a
                    + " is missing from PCI inventory"@,
            )
        } else {
            (
                IpcEventKind::Warning,
                "vm "@ + vm + ": optional "@ + label + " device "@ + a
                    + " not found in PCI inventory"@,
            )
        },
    }
}

pub open spec fn device_events(
    vm: Seq<char>,
    label: Seq<char>,
    kind: DeviceKind,
    devs: Option<Vec<PciDeviceConfig>>,
    fs: Seq<PciFunction>,
) -> Seq<(IpcEventKind, Seq<char>)> {
    match devs {
        Some(v) => v@.map_values(|d: PciDeviceConfig| device_event(vm, label, kind, d, fs)),
        None => Seq::empty(),
    }
}

fn push_event(out: &mut Vec<IpcEvent>, kind: IpcEventKind, message: String)
    ensures
        events_view(final(out)@) == events_view(old(out)@).push((kind, message@)),
{
    let ghost m = message@;
    out.push(IpcEvent { kind, message });
    assert(events_view(final(out)@) =~= events_view(old(out)@).push((kind, m)));
}

/// Append the events of one configured device list.
pub fn inspect_device_list(
    vm_name: &str,
    kind_label: &str,
    cfgs: &Option<Vec<PciDeviceConfig>>,
    inv: &PciInventory,
    kind: DeviceKind,
    events: &mut Vec<IpcEvent>,
)
    ensures
        events_view(final(events)@) == events_view(old(events)@) + device_events(
            vm_name@,
            kind_label@,
            kind,
            *cfgs,
            inv.functions@,
        ),
{
    let devs = match cfgs {
        Some(c) => c,
        None => {
            assert(events_view(events@) + device_events(
                vm_name@,
                kind_label@,
                kind,
                *cfgs,
                inv.functions@,
            ) =~= events_view(events@));
            return;
        },
    };
    let ghost base = events_view(events@);
    let mut i: usize = 0;
    while i < devs.len()
        invariant
            i <= devs@.len(),
            *cfgs == Some(*devs),
            events_view(events@) == base + devs@.take(i as int).map_values(
                |d: PciDeviceConfig| device_event(vm_name@, kind_label@, kind, d, inv.functions@),
            ),
        decreases devs@.len() - i,
    {
        let dev = &devs[i];
        let mut m = lit("vm ");
        m.append(vm_name);
        let k = match inv.find_by_bdf(dev.pci_address.as_str()) {
            Some(f) => {
                m.append(": ");
                m.append(kind_label);
                m.append(" device ");
                m.append(dev.pci_address.as_str());
                if device_kind_matches(f, kind) {
                    m.append(" present in inventory");
                    IpcEventKind::Info
                } else {
                    m.append(" present, wrong PCI class (expected ");
                    m.append(kind_text(kind));
                    m.append(")");
                    IpcEventKind::Warning
                }
            },
            None => {
                if dev.required {
                    m.append(": required ");
                    m.append(kind_label);
                    m.append(" device ");
                    m.append(dev.pci_address.as_str());
                    m.append(" is missing from PCI inventory");
                    IpcEventKind::Error
                } else {
                    m.append(": optional ");
                    m.append(kind_label);
                    m.append(" device ");
                    m.append(dev.pci_address.as_str());
                    m.append(" not found in PCI inventory");
                    IpcEventKind::Warning
                }
            },
        };
        let ghost ev = device_event(vm_name@, kind_label@, kind, devs@[i as int], inv.functions@);
        assert((k, m@) == ev);
        push_event(events, k, m);
        assert(devs@.take(i + 1).map_values(
            |d: PciDeviceConfig| device_event(vm_name@, kind_label@, kind, d, inv.functions@),
        ) =~= devs@.take(i as int).map_values(
            |d: PciDeviceConfig| device_event(vm_name@, kind_label@, kind, d, inv.functions@),
        ).push(ev));
        i = i + 1;
    }
    assert(devs@.take(devs@.len() as int) =~= devs@);
}

pub open spec fn level_name(l: IsolationLevel) -> Seq<char> {
    match l {
        IsolationLevel::Dedicated => "Dedicated"@,
        IsolationLevel::SharedWithHost => "SharedWithHost"@,
        IsolationLevel::Forbidden => "Forbidden"@,
    }
}

fn level_text(l: IsolationLevel) -> (r: &'static str)
    ensures
        r@ == level_name(l),
{
    match l {
        IsolationLevel::Dedicated => "Dedicated",
        IsolationLevel::SharedWithHost => "SharedWithHost",
        IsolationLevel::Forbidden => "Forbidden",
    }
}

/// The event for one CPU list of a VM: how many CPUs it names, or why it
/// does not parse.
pub open spec fn cpu_list_event(vm: Seq<char>, field: Seq<char>, unit: Seq<char>, s: Seq<char>) -> (
    IpcEventKind,
    Seq<char>,
) {
    match cpu_list(s) {
        Ok(c) => (
            IpcEventKind::Info,
            "vm "@ + vm + ": parsed "@ + field + "=\""@ + s + "\" ("@ + dec(c.len()) + " "@ + unit
                + ")"@,
        ),
        Err(m) => (
            IpcEventKind::Error,
            "vm "@ + vm + ": failed to parse "@ + field + "=\""@ + s + "\": "@
                + "configuration error: "@ + m,
        ),
    }
}

fn cpu_list_event_exec(vm: &str, field: &str, unit: &str, s: &String) -> (r: IpcEvent)
    ensures
        (r.kind, r.message@) == cpu_list_event(vm@, field@, unit@, s@),
{
    let mut m = lit("vm ");
    m.append(vm);
    match crate::util::parse_cpu_list(s.as_str()) {
        Ok(c) => {
            m.append(": parsed ");
            m.append(field);
            m.append("=\"");
            m.append(s.as_str());
            m.append("\" (");
            m.append(u64_to_dec(c.len() as u64).as_str());
            m.append(" ");
            m.append(unit);
            m.append(")");
            IpcEvent { kind: IpcEventKind::Info, message: m }
        },
        Err(e) => {
            m.append(": failed to parse ");
            m.append(field);
            m.append("=\"");
            m.append(s.as_str());
            m.append("\": ");
            m.append(e.message().as_str());
            IpcEvent { kind: IpcEventKind::Error, message: m }
        },
    }
}

/// What the configuration alone says of a VM: its vCPU list, its host CPU
/// list, and its isolation settings.
pub open spec fn config_events(vm_name: Seq<char>, vm: VmConfig) -> Seq<(IpcEventKind, Seq<char>)> {
    seq![
        cpu_list_event(vm_name, "vm_cpus"@, "vCPUs"@, vm.cpu.vm_cpus@),
        cpu_list_event(vm_name, "host_cpus"@, "host CPUs"@, vm.cpu.host_cpus@),
        (
            IpcEventKind::Info,
            "vm "@ + vm_name + ": isolation mode="@ + isolation_name(vm.isolation.mode)
                + ", default_level="@ + level_name(vm.isolation.default_level),
        ),
    ]
}

pub fn introspect_vm_config_only(vm_name: &str, vm: &VmConfig) -> (r: Vec<IpcEvent>)
    ensures
        events_view(r@) == config_events(vm_name@, *vm),
{
    let mut events: Vec<IpcEvent> = Vec::new();
    events.push(cpu_list_event_exec(vm_name, "vm_cpus", "vCPUs", &vm.cpu.vm_cpus));
    events.push(cpu_list_event_exec(vm_name, "host_cpus", "host CPUs", &vm.cpu.host_cpus));
    let mut m = lit("vm ");
    m.append(vm_name);
    m.append(": isolation mode=");
    m.append(isolation_mode_name(vm.isolation.mode));
    m.append(", default_level=");
    m.append(level_text(vm.isolation.default_level));
    events.push(IpcEvent { kind: IpcEventKind::Info, message: m });
    assert(events_view(events@) =~= config_events(vm_name@, *vm));
    events
}

/// The events for the four device lists, GPU, NVMe, NIC and USB in turn.
pub open spec fn devices_events(vm_name: Seq<char>, vm: VmConfig, fs: Seq<PciFunction>) -> Seq<
    (IpcEventKind, Seq<char>),
> {
    device_events(vm_name, "GPU"@, DeviceKind::Gpu, vm.devices.gpu, fs) + device_events(
        vm_name,
        "NVMe"@,
        DeviceKind::Nvme,
        vm.devices.nvme,
        fs,
    ) + device_events(vm_name, "NIC"@, DeviceKind::Nic, vm.devices.nic, fs) + device_events(
        vm_name,
        "USB"@,
        DeviceKind::Usb,
        vm.devices.usb,
        fs,
    )
}

pub fn introspect_vm_devices(
    vm_name: &str,
    vm: &VmConfig,
    inv: &PciInventory,
    events: &mut Vec<IpcEvent>,
)
    ensures
        events_view(final(events)@) == events_view(old(events)@) + devices_events(
            vm_name@,
            *vm,
            inv.functions@,
        ),
{
    let ghost base = events_view(events@);
    inspect_device_list(vm_name, "GPU", &vm.devices.gpu, inv, DeviceKind::Gpu, events);
    inspect_device_list(vm_name, "NVMe", &vm.devices.nvme, inv, DeviceKind::Nvme, events);
    inspect_device_list(vm_name, "NIC", &vm.devices.nic, inv, DeviceKind::Nic, events);
    inspect_device_list(vm_name, "USB", &vm.devices.usb, inv, DeviceKind::Usb, events);
    assert(events_view(events@) =~= base + devices_events(vm_name@, *vm, inv.functions@));
}

/// Configuration events, device events, then the GPU policy verdict.
pub fn introspect_vm_full(vm_name: &str, vm: &VmConfig, inv: &PciInventory) -> (r: Vec<IpcEvent>)
    ensures
        events_view(r@).len() == 3 + devices_events(vm_name@, *vm, inv.functions@).len() + 1,
        events_view(r@).take(3) == config_events(vm_name@, *vm),
        events_view(r@).subrange(3, events_view(r@).len() - 1) == devices_events(
            vm_name@,
            *vm,
            inv.functions@,
        ),
        events_view(r@).last() == match preflight_error(vm_name@, *vm, inv.functions@) {
            None => (IpcEventKind::Info, "GPU policy preflight passed"@),
            Some(m) => (IpcEventKind::Error, "GPU policy preflight failed: "@ + "VFIO error: "@ + m),
        },
{
    let mut events = introspect_vm_config_only(vm_name, vm);
    let ghost c = events_view(events@);
    introspect_vm_devices(vm_name, vm, inv, &mut events);
    let ghost d = events_view(events@);
    let res = preflight_gpu_policy(vm_name, vm, inv);
    match res {
        Ok(()) => push_event(&mut events, IpcEventKind::Info, lit("GPU policy preflight passed")),
        Err(e) => {
            let mut m = lit("GPU policy preflight failed: ");
            m.append(e.message().as_str());
            push_event(&mut events, IpcEventKind::Error, m);
        },
    }
    assert(events_view(events@).take(3) =~= c);
    assert(events_view(events@).subrange(3, events_view(events@).len() - 1) =~= d.skip(3));
    assert(d.skip(3) =~= devices_events(vm_name@, *vm, inv.functions@));
    events
}


// ---------------------------------------------------------------------------
// Host PCI inventory
// ---------------------------------------------------------------------------

/// One character as `{:?}` writes it inside a string: the usual escapes,
/// and `\u{..}` for the other ASCII control characters.
pub open spec fn escape_char(c: char) -> Seq<char> {
    if c == '\t' {
        "\\t"@
    } else if c == '\r' {
        "\\r"@
    } else if c == '\n' {
        "\\n"@
    } else if c == '\\' {
        "\\\\"@
    } else if c == '"' {
        "\\\""@
    } else if c == '\0' {
        "\\0"@
    } else if (c as u32) < 0x20 || (c as u32) == 0x7f {
        "\\u{"@ + radix_digits(c as u32 as nat, 16) + "}"@
    } else {
        seq![c]
    }
}

pub open spec fn escape_seq(s: Seq<char>) -> Seq<char>
    decreases s.len(),
{
    if s.len() == 0 {
        Seq::empty()
    } else {
        escape_seq(s.drop_last()) + escape_char(s.last())
    }
}

/// A string as `{:?}` writes it: quoted, with escapes.
pub open spec fn debug_str(s: Seq<char>) -> Seq<char> {
    "\""@ + escape_seq(s) + "\""@
}

fn push_escaped(out: &mut String, c: char)
    ensures
        final(out)@ == old(out)@ + escape_char(c),
{
    if c == '\t' {
        out.append("\\t");
    } else if c == '\r' {
        out.append("\\r");
    } else if c == '\n' {
        out.append("\\n");
    } else if c == '\\' {
        out.append("\\\\");
    } else if c == '"' {
        out.append("\\\"");
    } else if c == '\0' {
        out.append("\\0");
    } else if (c as u32) < 0x20 || (c as u32) == 0x7f {
        out.append("\\u{");
        out.append(u64_to_radix(c as u32 as u64, 16).as_str());
        out.append("}");
    } else {
        push_char(out, c);
        assert(final(out)@ =~= old(out)@ + escape_char(c));
    }
}

/// `format!("{:?}", s)` for a string.
pub fn debug_string(s: &str) -> (r: String)
    ensures
        r@ == debug_str(s@),
{
    let v = chars_of(s);
    let mut r = lit("\"");
    let mut i: usize = 0;
    while i < v.len()
        invariant
            i <= v@.len(),
            v@ == s@,
            r@ == "\""@ + escape_seq(v@.take(i as int)),
        decreases v@.len() - i,
    {
        assert(v@.take(i + 1).drop_last() =~= v@.take(i as int));
        push_escaped(&mut r, v[i]);
        i = i + 1;
    }
    assert(v@.take(v@.len() as int) =~= v@);
    r.append("\"");
    r
}

pub open spec fn driver_kind_debug(k: DriverKindView) -> Seq<char> {
    match k {
        DriverKindView::Vfio => "Vfio"@,
        DriverKindView::AmdGpu => "AmdGpu"@,
        DriverKindView::Nvidia => "Nvidia"@,
        DriverKindView::Nouveau => "Nouveau"@,
        DriverKindView::OtherKernel(s) => "OtherKernel("@ + debug_str(s) + ")"@,
        DriverKindView::Unbound => "Unbound"@,
    }
}

pub open spec fn safety_debug(c: GpuSafetyClass) -> Seq<char> {
    match c {
        GpuSafetyClass::VfioReady => "VfioReady"@,
        GpuSafetyClass::HostOwned => "HostOwned"@,
        GpuSafetyClass::Unknown => "Unknown"@,
    }
}

/// The startup line for one host GPU.
pub open spec fn gpu_line(
    bdf: Seq<char>,
    vendor: u16,
    device: u16,
    driver: Option<Seq<char>>,
    kind: Option<DriverKindView>,
    safety: Option<GpuSafetyClass>,
) -> Seq<char> {
    "GPU "@ + bdf + ": vendor=0x"@ + hex_pad(vendor as nat, 4) + ", device=0x"@ + hex_pad(
        device as nat,
        4,
    ) + ", driver="@ + match driver {
        Some(d) => d,
        None => "<none>"@,
    } + ", driver_kind="@ + match kind {
        Some(k) => driver_kind_debug(k),
        None => "<none>"@,
    } + ", safety="@ + match safety {
        Some(c) => safety_debug(c),
        None => "<none>"@,
    }
}

fn driver_kind_text(k: &GpuDriverKind) -> (r: String)
    ensures
        r@ == driver_kind_debug(k@),
{
    match k {
        GpuDriverKind::Vfio => lit("Vfio"),
        GpuDriverKind::AmdGpu => lit("AmdGpu"),
        GpuDriverKind::Nvidia => lit("Nvidia"),
        GpuDriverKind::Nouveau => lit("Nouveau"),
        GpuDriverKind::OtherKernel(s) => {
            let mut m = lit("OtherKernel(");
            m.append(debug_string(s.as_str()).as_str());
            m.append(")");
            m
        },
        GpuDriverKind::Unbound => lit("Unbound"),
    }
}

fn safety_text(c: GpuSafetyClass) -> (r: &'static str)
    ensures
        r@ == safety_debug(c),
{
    match c {
        GpuSafetyClass::VfioReady => "VfioReady",
        GpuSafetyClass::HostOwned => "HostOwned",
        GpuSafetyClass::Unknown => "Unknown",
    }
}

/// The startup line for one GPU summary.
pub fn gpu_summary_line(s: &GpuFunctionSummary) -> (r: String)
    ensures
        r@ == gpu_line(
            s.bdf@,
            s.vendor_id,
            s.device_id,
            opt_view(s.driver),
            crate::pci::kind_view_opt(s.driver_kind),
            s.safety,
        ),
{
    let mut m = lit("GPU ");
    m.append(s.bdf.as_str());
    m.append(": vendor=0x");
    m.append(u64_to_hex_pad(s.vendor_id as u64, 4).as_str());
    m.append(", device=0x");
    m.append(u64_to_hex_pad(s.device_id as u64, 4).as_str());
    m.append(", driver=");
    match &s.driver {
        Some(d) => m.append(d.as_str()),
        None => m.append("<none>"),
    }
    m.append(", driver_kind=");
    match &s.driver_kind {
        Some(k) => m.append(driver_kind_text(k).as_str()),
        None => m.append("<none>"),
    }
    m.append(", safety=");
    match s.safety {
        Some(c) => m.append(safety_text(c)),
        None => m.append("<none>"),
    }
    m
}

/// The startup events for a scanned inventory: its size, then one line
/// per host GPU in inventory order.
pub fn pci_inventory_events(inv: &PciInventory) -> (r: Vec<IpcEvent>)
    ensures
        ({
            let gpus = inv.functions@.filter(crate::pci::sel_pred(crate::pci::Selector::Display));
            &&& events_view(r@).len() == gpus.len() + 1
            &&& events_view(r@)[0] == (
                IpcEventKind::System,
                "daemon: PCI inventory built ("@ + dec(inv.functions@.len()) + " functions, "@
                    + dec(gpus.len()) + " display controllers)"@,
            )
            &&& forall|i: int|
                0 <= i < gpus.len() ==> #[trigger] events_view(r@)[i + 1] == (
                    IpcEventKind::Info,
                    gpu_line(
                        gpus[i].bdf@,
                        gpus[i].vendor_id,
                        gpus[i].device_id,
                        opt_view(gpus[i].driver),
                        crate::pci::gpu_kind(gpus[i]),
                        crate::pci::gpu_safety(gpus[i]),
                    ),
                )
        }),
{
    let mut events: Vec<IpcEvent> = Vec::new();
    let mut m = lit("daemon: PCI inventory built (");
    m.append(u64_to_dec(inv.functions.len() as u64).as_str());
    m.append(" functions, ");
    m.append(u64_to_dec(inv.count_display_controllers() as u64).as_str());
    m.append(" display controllers)");
    push_event(&mut events, IpcEventKind::System, m);
    let sums = inv.gpu_summaries();
    let ghost gpus = inv.functions@.filter(crate::pci::sel_pred(crate::pci::Selector::Display));
    let mut i: usize = 0;
    while i < sums.len()
        invariant
            i <= sums@.len(),
            sums@.len() == gpus.len(),
            forall|k: int| 0 <= k < sums@.len() ==> crate::pci::summary_matches(#[trigger] sums@[k], gpus[k]),
            events_view(events@).len() == i + 1,
            events_view(events@)[0] == (
                IpcEventKind::System,
                "daemon: PCI inventory built ("@ + dec(inv.functions@.len()) + " functions, "@
                    + dec(gpus.len()) + " display controllers)"@,
            ),
            forall|k: int|
                0 <= k < i ==> #[trigger] events_view(events@)[k + 1] == (
                    IpcEventKind::Info,
                    gpu_line(
                        gpus[k].bdf@,
                        gpus[k].vendor_id,
                        gpus[k].device_id,
                        opt_view(gpus[k].driver),
                        crate::pci::gpu_kind(gpus[k]),
                        crate::pci::gpu_safety(gpus[k]),
                    ),
                ),
        decreases sums@.len() - i,
    {
        assert(crate::pci::summary_matches(sums@[i as int], gpus[i as int]));
        let line = gpu_summary_line(&sums[i]);
        push_event(&mut events, IpcEventKind::Info, line);
        i = i + 1;
    }
    events
}

} // verus!
