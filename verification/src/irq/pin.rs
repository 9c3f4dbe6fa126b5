//! Per-device IRQ pinning decisions: which devices, which CPUs, which
//! IRQs. Reading sysfs and writing affinities is the application's part.
use vstd::prelude::*;
use crate::config::{PciDeviceConfig, VmConfig};
use crate::cpu::detect::topology::normalize_cpus;
use crate::error::{ChalybsError, Result};
use crate::fmt::{dec, hex_pad, join, join_strings, parse_full, parse_unsigned, parse_hex_u16, parse_hex_u8, u64_to_dec, u64_to_hex_pad, views};
use crate::text::{chars_of, copy_string, lit, path_join, path_join_exec, seqs_of, split_on, split_on_exec, str_eq};
use crate::cpu::detect::validate::{debug_list, debug_list_exec, sorted_list};
use crate::sorted::{lemma_sorted_unique_eq, strictly_sorted};

verus! {

/// A copy of a device entry.
pub fn copy_device(d: &PciDeviceConfig) -> (r: PciDeviceConfig)
    ensures
        r == *d,
{
    PciDeviceConfig { pci_address: d.pci_address.clone(), required: d.required, level: d.level }
}

pub open spec fn opt_list(o: Option<Vec<PciDeviceConfig>>) -> Seq<PciDeviceConfig> {
    match o {
        Some(v) => v@,
        None => Seq::empty(),
    }
}

fn append_devices(out: &mut Vec<PciDeviceConfig>, o: &Option<Vec<PciDeviceConfig>>)
    ensures
        final(out)@ == old(out)@ + opt_list(*o),
{
    match o {
        Some(v) => {
            let ghost base = out@;
            let mut i: usize = 0;
            while i < v.len()
                invariant
                    i <= v@.len(),
                    out@ == base + v@.take(i as int),
                decreases v@.len() - i,
            {
                out.push(copy_device(&v[i]));
                i = i + 1;
                assert(out@ =~= base + v@.take(i as int));
            }
            assert(v@.take(v@.len() as int) =~= v@);
        },
        None => {
            assert(out@ + opt_list(*o) =~= out@);
        },
    }
}

/// All configured PCI devices: GPU, NVMe, NIC, USB, in that order.
pub fn collect_devices(cfg: &VmConfig) -> (r: Vec<PciDeviceConfig>)
    ensures
        r@ == opt_list(cfg.devices.gpu) + opt_list(cfg.devices.nvme) + opt_list(cfg.devices.nic)
            + opt_list(cfg.devices.usb),
{
    let mut out: Vec<PciDeviceConfig> = Vec::new();
    append_devices(&mut out, &cfg.devices.gpu);
    append_devices(&mut out, &cfg.devices.nvme);
    append_devices(&mut out, &cfg.devices.nic);
    append_devices(&mut out, &cfg.devices.usb);
    assert(out@ =~= opt_list(cfg.devices.gpu) + opt_list(cfg.devices.nvme) + opt_list(
        cfg.devices.nic,
    ) + opt_list(cfg.devices.usb));
    out
}

pub open spec fn msi_dir_of(addr: Seq<char>) -> Seq<char> {
    path_join(path_join("/sys/bus/pci/devices"@, addr), "msi_irqs"@)
}

/// The `msi_irqs` directory of a device.
pub fn msi_irqs_dir(pci_addr: &str) -> (r: String)
    ensures
        r@ == msi_dir_of(pci_addr@),
{
    let d = path_join_exec("/sys/bus/pci/devices", pci_addr);
    path_join_exec(d.as_str(), "msi_irqs")
}

/// Elements of `a` that `b` holds, in `a`'s order.
pub fn intersect(a: &[u32], b: &[u32]) -> (r: Vec<u32>)
    ensures
        r@ == a@.filter(|x: u32| b@.contains(x)),
{
    let mut out: Vec<u32> = Vec::new();
    let mut i: usize = 0;
    while i < a.len()
        invariant
            i <= a@.len(),
            out@ == a@.take(i as int).filter(|x: u32| b@.contains(x)),
        decreases a@.len() - i,
    {
        proof {
            assert(a@.take(i + 1) =~= a@.take(i as int).push(a@[i as int]));
            a@.take(i as int).lemma_filter_push(a@[i as int], |x: u32| b@.contains(x));
        }
        let x = a[i];
        let mut found = false;
        let mut j: usize = 0;
        while j < b.len()
            invariant
                j <= b@.len(),
                found == exists|k: int| 0 <= k < j && b@[k] == x,
            decreases b@.len() - j,
        {
            if b[j] == x {
                found = true;
            }
            j = j + 1;
        }
        if found {
            out.push(x);
        }
        i = i + 1;
    }
    assert(a@.take(a@.len() as int) =~= a@);
    out
}

pub open spec fn u32s(s: Seq<u32>) -> Seq<u64> {
    s.map_values(|x: u32| x as u64)
}

fn widen(v: &[u32]) -> (r: Vec<u64>)
    ensures
        r@ == u32s(v@),
{
    let mut out: Vec<u64> = Vec::new();
    let mut i: usize = 0;
    while i < v.len()
        invariant
            i <= v@.len(),
            out@ == u32s(v@.take(i as int)),
        decreases v@.len() - i,
    {
        out.push(v[i] as u64);
        i = i + 1;
        assert(out@ =~= u32s(v@.take(i as int)));
    }
    assert(v@.take(v@.len() as int) =~= v@);
    out
}

pub open spec fn no_local_cpus_msg(node: i32, addr: Seq<char>, vm: Seq<u32>, nc: Seq<u32>) -> Seq<char> {
    "no VM CPUs on NUMA node "@ + dec(node as nat) + " for device "@ + addr + "; vm_cpus="@
        + debug_list(u32s(vm)) + ", node_cpus="@ + debug_list(u32s(nc))
}

/// CPUs for a device's IRQs: with a NUMA node (>= 0), the VM CPUs on that
/// node, which must not be empty; without one, all VM CPUs.
pub fn target_cpus_for_device(
    vm_cpus: &[u32],
    dev: &PciDeviceConfig,
    node: i32,
    node_cpus: &[u32],
) -> (r: Result<Vec<u32>>)
    ensures
        node < 0 ==> (r matches Ok(v) && v@ == vm_cpus@),
        node >= 0 ==> {
            let subset = vm_cpus@.filter(|x: u32| node_cpus@.contains(x));
            if subset.len() == 0 {
                r matches Err(ChalybsError::Irq(m)) && m@ == no_local_cpus_msg(
                    node,
                    dev.pci_address@,
                    vm_cpus@,
                    node_cpus@,
                )
            } else {
                r matches Ok(v) && v@ == subset
            }
        },
        r matches Ok(v) ==> forall|k: int|
            0 <= k < v@.len() ==> vm_cpus@.contains(#[trigger] v@[k]) && (node >= 0 ==> node_cpus@.contains(
                v@[k],
            )),
{
    if node >= 0 {
        let subset = intersect(vm_cpus, node_cpus);
        proof {
            let f = |x: u32| node_cpus@.contains(x);
            assert forall|k: int| 0 <= k < subset@.len() implies vm_cpus@.contains(#[trigger] subset@[k])
                && node_cpus@.contains(subset@[k]) by {
                vm_cpus@.filter_lemma(f);
                assert(subset@.contains(subset@[k]));
                vm_cpus@.lemma_filter_contains_rev(f, subset@[k]);
            }
        }
        if subset.len() == 0 {
            let mut m = lit("no VM CPUs on NUMA node ");
            m.append(u64_to_dec(node as u64).as_str());
            m.append(" for device ");
            m.append(dev.pci_address.as_str());
            m.append("; vm_cpus=");
            m.append(debug_list_exec(&widen(vm_cpus)).as_str());
            m.append(", node_cpus=");
            m.append(debug_list_exec(&widen(node_cpus)).as_str());
            return Err(ChalybsError::Irq(m));
        }
        Ok(subset)
    } else {
        let mut out: Vec<u32> = Vec::new();
        let mut i: usize = 0;
        while i < vm_cpus.len()
            invariant
                i <= vm_cpus@.len(),
                out@ == vm_cpus@.take(i as int),
            decreases vm_cpus@.len() - i,
        {
            out.push(vm_cpus[i]);
            i = i + 1;
            assert(out@ =~= vm_cpus@.take(i as int));
        }
        assert(vm_cpus@.take(vm_cpus@.len() as int) =~= vm_cpus@);
        assert forall|k: int| 0 <= k < out@.len() implies vm_cpus@.contains(#[trigger] out@[k]) by {}
        Ok(out)
    }
}

/// What reading a device's `msi_irqs` directory gave.
pub enum MsiListing {
    /// The directory does not exist.
    Absent,
    /// The directory could not be read; the error text.
    Unreadable(String),
    /// The entry names.
    Names(Vec<String>),
}

/// Entry names that are IRQ numbers, in order.
pub open spec fn irq_names(names: Seq<String>) -> Seq<u32>
    decreases names.len(),
{
    if names.len() == 0 {
        Seq::empty()
    } else {
        let p = irq_names(names.drop_last());
        match parse_unsigned(names.last()@, 10, u32::MAX as nat) {
            Some(n) => p.push(n as u32),
            None => p,
        }
    }
}

fn parse_irq_names(names: &Vec<String>) -> (r: Vec<u32>)
    ensures
        r@ == irq_names(names@),
{
    let mut out: Vec<u32> = Vec::new();
    let mut i: usize = 0;
    while i < names.len()
        invariant
            i <= names@.len(),
            out@ == irq_names(names@.take(i as int)),
        decreases names@.len() - i,
    {
        assert(names@.take(i + 1).drop_last() =~= names@.take(i as int));
        assert(names@.take(i + 1).last() == names@[i as int]);
        match crate::fmt::parse_u32(&chars_of(names[i].as_str())) {
            Some(n) => out.push(n),
            None => {},
        }
        i = i + 1;
    }
    assert(names@.take(names@.len() as int) =~= names@);
    out
}

/// The IRQs of a device, strictly: a required device must have a
/// non-empty `msi_irqs` directory.
pub fn device_irqs(dev: &PciDeviceConfig, listing: &MsiListing) -> (r: Result<Vec<u32>>)
    ensures
        match listing {
            MsiListing::Absent => if dev.required {
                r matches Err(ChalybsError::Irq(m)) && m@ == "required device "@ + dev.pci_address@
                    + " has no msi_irqs directory at "@ + msi_dir_of(dev.pci_address@)
            } else {
                r matches Ok(v) && v@.len() == 0
            },
            MsiListing::Unreadable(e) => r matches Err(ChalybsError::Irq(m)) && m@
                == "failed to read msi_irqs for "@ + dev.pci_address@ + ": "@ + e@,
            MsiListing::Names(names) => {
                let irqs = irq_names(names@);
                if irqs.len() == 0 && dev.required {
                    r matches Err(ChalybsError::Irq(m)) && m@ == "required device "@
                        + dev.pci_address@ + " has empty msi_irqs directory"@
                } else {
                    r matches Ok(v) && v@ == irqs
                }
            },
        },
{
    match listing {
        MsiListing::Absent => {
            if dev.required {
                let mut m = lit("required device ");
                m.append(dev.pci_address.as_str());
                m.append(" has no msi_irqs directory at ");
                m.append(msi_irqs_dir(dev.pci_address.as_str()).as_str());
                Err(ChalybsError::Irq(m))
            } else {
                Ok(Vec::new())
            }
        },
        MsiListing::Unreadable(e) => {
            let mut m = lit("failed to read msi_irqs for ");
            m.append(dev.pci_address.as_str());
            m.append(": ");
            m.append(e.as_str());
            Err(ChalybsError::Irq(m))
        },
        MsiListing::Names(names) => {
            let irqs = parse_irq_names(names);
            if irqs.len() == 0 && dev.required {
                let mut m = lit("required device ");
                m.append(dev.pci_address.as_str());
                m.append(" has empty msi_irqs directory");
                return Err(ChalybsError::Irq(m));
            }
            Ok(irqs)
        },
    }
}

/// The IRQs of a device, best effort: none when the directory is absent
/// or unreadable.
pub fn device_irqs_best_effort(listing: &MsiListing) -> (r: Vec<u32>)
    ensures
        match listing {
            MsiListing::Names(names) => r@ == irq_names(names@),
            _ => r@.len() == 0,
        },
{
    match listing {
        MsiListing::Names(names) => parse_irq_names(names),
        _ => Vec::new(),
    }
}

/// The cpulist text for `smp_affinity_list`: distinct CPUs, increasing,
/// comma-separated.
pub fn format_cpu_list(cpus: &[u32]) -> (r: String)
    ensures
        r@ == join(
            sorted_list(u32s(cpus@).to_set()).map_values(|c: u64| dec(c as nat)),
            ","@,
        ),
{
    let mut v: Vec<u32> = Vec::new();
    let mut i: usize = 0;
    while i < cpus.len()
        invariant
            i <= cpus@.len(),
            v@ == cpus@.take(i as int),
        decreases cpus@.len() - i,
    {
        v.push(cpus[i]);
        i = i + 1;
        assert(v@ =~= cpus@.take(i as int));
    }
    assert(cpus@.take(cpus@.len() as int) =~= cpus@);
    let s = normalize_cpus(&v);
    let w = widen(&s);
    proof {
        assert(strictly_sorted(w@)) by {
            assert forall|a: int, b: int| 0 <= a < b < w@.len() implies w@[a] < w@[b] by {
                assert(s@[a] < s@[b]);
            }
        }
        assert forall|x: u64| #[trigger] w@.to_set().contains(x) <==> u32s(cpus@).to_set().contains(
            x,
        ) by {
            if w@.contains(x) {
                let k = choose|k: int| 0 <= k < w@.len() && w@[k] == x;
                assert(s@.contains(s@[k]));
                assert(cpus@.contains(s@[k]));
                let m = choose|m: int| 0 <= m < cpus@.len() && cpus@[m] == s@[k];
                assert(u32s(cpus@)[m] == x);
            }
            if u32s(cpus@).contains(x) {
                let m = choose|m: int| 0 <= m < u32s(cpus@).len() && u32s(cpus@)[m] == x;
                assert(cpus@.contains(cpus@[m]));
                assert(s@.contains(cpus@[m]));
                let k = choose|k: int| 0 <= k < s@.len() && s@[k] == cpus@[m];
                assert(w@[k] == x);
            }
        }
        assert(w@.to_set() =~= u32s(cpus@).to_set());
        let q = sorted_list(u32s(cpus@).to_set());
        assert(strictly_sorted(q) && q.to_set() == u32s(cpus@).to_set());
        lemma_sorted_unique_eq(w@, q);
    }
    let mut parts: Vec<String> = Vec::new();
    let mut k: usize = 0;
    while k < w.len()
        invariant
            k <= w@.len(),
            views(parts@) == w@.take(k as int).map_values(|c: u64| dec(c as nat)),
        decreases w@.len() - k,
    {
        let ghost pre = parts@;
        let d = u64_to_dec(w[k]);
        parts.push(d);
        proof {
            crate::fmt::lemma_views_push(pre, d);
            assert(w@.take(k + 1).map_values(|c: u64| dec(c as nat)) =~= w@.take(k as int).map_values(
                |c: u64| dec(c as nat),
            ).push(dec(w@[k as int] as nat)));
        }
        k = k + 1;
    }
    assert(w@.take(w@.len() as int) =~= w@);
    join_strings(&parts, ",")
}

/// "dddd:bb:ss" and the decimal function of a BDF "dddd:bb:ss.f".
pub open spec fn bdf_slot_func(s: Seq<char>) -> Option<(Seq<char>, u8)> {
    let p = split_on(s, ':');
    if p.len() != 3 {
        None
    } else {
        let q = split_on(p[2], '.');
        if q.len() != 2 || p[0].len() != 4 || p[1].len() != 2 || q[0].len() != 2 || q[1].len()
            == 0 {
            None
        } else {
            match (
                parse_unsigned(p[0], 16, 0xffff),
                parse_unsigned(p[1], 16, 0xff),
                parse_unsigned(q[0], 16, 0xff),
                parse_unsigned(q[1], 10, 0xff),
            ) {
                (Some(d), Some(b), Some(v), Some(f)) => Some(
                    (hex_pad(d, 4) + ":"@ + hex_pad(b, 2) + ":"@ + hex_pad(v, 2), f as u8),
                ),
                _ => None,
            }
        }
    }
}

/// Parse "dddd:bb:ss.f" into the canonical "dddd:bb:ss" and the function.
pub fn parse_bdf_slot_and_func(bdf: &str) -> (r: Option<(String, u8)>)
    ensures
        match bdf_slot_func(bdf@) {
            Some((slot, f)) => r matches Some((s, g)) && s@ == slot && g == f,
            None => r is None,
        },
{
    let v = chars_of(bdf);
    let parts = split_on_exec(&v, ':');
    if parts.len() != 3 {
        return None;
    }
    let ghost p = split_on(bdf@, ':');
    assert(parts@[2]@ == p[2]);
    let df = split_on_exec(&parts[2], '.');
    if df.len() != 2 {
        return None;
    }
    let ghost q = split_on(p[2], '.');
    assert(parts@[0]@ == p[0]);
    assert(parts@[1]@ == p[1]);
    assert(df@[0]@ == q[0]);
    assert(df@[1]@ == q[1]);
    if parts[0].len() != 4 || parts[1].len() != 2 || df[0].len() != 2 || df[1].len() == 0 {
        return None;
    }
    let domain = parse_hex_u16(&parts[0]);
    let bus = parse_hex_u8(&parts[1]);
    let dev = parse_hex_u8(&df[0]);
    let func = crate::fmt::parse_unsigned_exec(&df[1], 10, 0xff);
    match (domain, bus, dev, func) {
        (Some(d), Some(b), Some(s), Some(f)) => {
            let mut slot = u64_to_hex_pad(d as u64, 4);
            slot.append(":");
            slot.append(u64_to_hex_pad(b as u64, 2).as_str());
            slot.append(":");
            slot.append(u64_to_hex_pad(s as u64, 2).as_str());
            Some((slot, f as u8))
        },
        _ => None,
    }
}

/// Number of configured GPU entries in `slot`, and whether function 0 is
/// among them.
pub open spec fn slot_census(gpus: Seq<PciDeviceConfig>, slot: Seq<char>) -> (nat, bool)
    decreases gpus.len(),
{
    if gpus.len() == 0 {
        (0, false)
    } else {
        let p = slot_census(gpus.drop_last(), slot);
        match bdf_slot_func(gpus.last().pci_address@) {
            Some((s, f)) => if s == slot {
                (p.0 + 1, p.1 || f == 0)
            } else {
                p
            },
            None => p,
        }
    }
}

/// A non-zero function of a GPU slot whose function 0 is configured too,
/// among several configured functions of that slot (typically HDMI audio).
pub open spec fn aux_gpu(dev: PciDeviceConfig, cfg: VmConfig) -> bool {
    match bdf_slot_func(dev.pci_address@) {
        None => false,
        Some((slot, f)) => {
            let gpus = opt_list(cfg.devices.gpu);
            let c = slot_census(gpus, slot);
            gpus.len() > 0 && c.0 > 1 && c.1 && f != 0
        },
    }
}

/// Whether a device is an auxiliary GPU function for IRQ pinning.
pub fn is_aux_gpu_function(dev: &PciDeviceConfig, cfg: &VmConfig) -> (r: bool)
    ensures
        r == aux_gpu(*dev, *cfg),
{
    let (slot, func) = match parse_bdf_slot_and_func(dev.pci_address.as_str()) {
        Some(v) => v,
        None => return false,
    };
    let gpu_cfgs = match &cfg.devices.gpu {
        Some(v) => v,
        None => return false,
    };
    if gpu_cfgs.len() == 0 {
        return false;
    }
    let mut same_slot_count: usize = 0;
    let mut has_func0 = false;
    let mut i: usize = 0;
    while i < gpu_cfgs.len()
        invariant
            i <= gpu_cfgs@.len(),
            (same_slot_count as nat, has_func0) == slot_census(gpu_cfgs@.take(i as int), slot@),
            same_slot_count <= i,
        decreases gpu_cfgs@.len() - i,
    {
        assert(gpu_cfgs@.take(i + 1).drop_last() =~= gpu_cfgs@.take(i as int));
        assert(gpu_cfgs@.take(i + 1).last() == gpu_cfgs@[i as int]);
        match parse_bdf_slot_and_func(gpu_cfgs[i].pci_address.as_str()) {
            Some((g_slot, g_func)) => {
                if str_eq(g_slot.as_str(), slot.as_str()) {
                    same_slot_count = same_slot_count + 1;
                    if g_func == 0 {
                        has_func0 = true;
                    }
                }
            },
            None => {},
        }
        i = i + 1;
    }
    assert(gpu_cfgs@.take(gpu_cfgs@.len() as int) =~= gpu_cfgs@);
    same_slot_count > 1 && has_func0 && func != 0
}

/// Entry `g[i]` is a function of `slot`.
pub open spec fn in_slot(g: Seq<PciDeviceConfig>, i: int, slot: Seq<char>) -> bool {
    bdf_slot_func(g[i].pci_address@) matches Some((s, _)) && s == slot
}

proof fn lemma_census_counts_one(g: Seq<PciDeviceConfig>, slot: Seq<char>, i: int)
    requires
        0 <= i < g.len(),
        in_slot(g, i, slot),
    ensures
        slot_census(g, slot).0 >= 1,
    decreases g.len(),
{
    if i < g.len() - 1 {
        assert(g.drop_last()[i] == g[i]);
        lemma_census_counts_one(g.drop_last(), slot, i);
    } else {
        assert(g.last() == g[i]);
    }
}

proof fn lemma_census_counts_two(g: Seq<PciDeviceConfig>, slot: Seq<char>, i: int, j: int)
    requires
        0 <= i < g.len(),
        0 <= j < g.len(),
        i != j,
        in_slot(g, i, slot),
        in_slot(g, j, slot),
    ensures
        slot_census(g, slot).0 >= 2,
    decreases g.len(),
{
    let last = g.len() - 1;
    let d = g.drop_last();
    assert(g.last() == g[last]);
    if i == last {
        assert(d[j] == g[j]);
        assert(in_slot(d, j, slot));
        lemma_census_counts_one(d, slot, j);
    } else if j == last {
        assert(d[i] == g[i]);
        assert(in_slot(d, i, slot));
        lemma_census_counts_one(d, slot, i);
    } else {
        assert(d[i] == g[i]);
        assert(d[j] == g[j]);
        lemma_census_counts_two(d, slot, i, j);
    }
}

proof fn lemma_census_has_zero(g: Seq<PciDeviceConfig>, slot: Seq<char>, i: int)
    requires
        0 <= i < g.len(),
        bdf_slot_func(g[i].pci_address@) == Some((slot, 0u8)),
    ensures
        slot_census(g, slot).1,
    decreases g.len(),
{
    if i < g.len() - 1 {
        assert(g.drop_last()[i] == g[i]);
        lemma_census_has_zero(g.drop_last(), slot, i);
    } else {
        assert(g.last() == g[i]);
    }
}

/// Function 0 of a device (the GPU itself) is never auxiliary: its IRQs
/// are pinned.
pub proof fn lemma_function_zero_not_aux(dev: PciDeviceConfig, cfg: VmConfig, slot: Seq<char>)
    requires
        bdf_slot_func(dev.pci_address@) == Some((slot, 0u8)),
    ensures
        !aux_gpu(dev, cfg),
{
}

/// A non-zero function is auxiliary when `devices.gpu` lists function 0
/// of its slot and at least one other function of that slot (say the GPU
/// and its HDMI audio function).
pub proof fn lemma_companion_function_is_aux(
    dev: PciDeviceConfig,
    cfg: VmConfig,
    slot: Seq<char>,
    f: u8,
    i: int,
    j: int,
)
    requires
        bdf_slot_func(dev.pci_address@) == Some((slot, f)),
        f != 0,
        0 <= i < opt_list(cfg.devices.gpu).len(),
        0 <= j < opt_list(cfg.devices.gpu).len(),
        i != j,
        bdf_slot_func(opt_list(cfg.devices.gpu)[i].pci_address@) == Some((slot, 0u8)),
        in_slot(opt_list(cfg.devices.gpu), j, slot),
    ensures
        aux_gpu(dev, cfg),
{
    let g = opt_list(cfg.devices.gpu);
    assert(in_slot(g, i, slot));
    lemma_census_counts_two(g, slot, i, j);
    lemma_census_has_zero(g, slot, i);
}

/// Per-device state of the IRQ worker.
#[derive(Debug, Clone)]
pub struct DeviceWork {
    pub dev: PciDeviceConfig,
    pub target_cpus: Vec<u32>,
    pub is_aux_gpu: bool,
    pub done: bool,
}

/// The IRQ worker's progress over its devices.
#[derive(Debug, Clone)]
pub struct IrqWorker {
    pub items: Vec<DeviceWork>,
    pub completed: usize,
}

pub open spec fn done_count(items: Seq<DeviceWork>) -> nat
    decreases items.len(),
{
    if items.len() == 0 {
        0
    } else {
        done_count(items.drop_last()) + if items.last().done {
            1nat
        } else {
            0nat
        }
    }
}

proof fn lemma_done_count_bound(items: Seq<DeviceWork>)
    ensures
        done_count(items) <= items.len(),
    decreases items.len(),
{
    if items.len() > 0 {
        lemma_done_count_bound(items.drop_last());
    }
}

proof fn lemma_done_count_update(items: Seq<DeviceWork>, i: int, w: DeviceWork)
    requires
        0 <= i < items.len(),
        !items[i].done,
        w.done,
    ensures
        done_count(items.update(i, w)) == done_count(items) + 1,
    decreases items.len(),
{
    let u = items.update(i, w);
    if i == items.len() - 1 {
        assert(u.drop_last() =~= items.drop_last());
    } else {
        assert(u.drop_last() =~= items.drop_last().update(i, w));
        lemma_done_count_update(items.drop_last(), i, w);
    }
}

impl IrqWorker {
    pub open spec fn well_formed(&self) -> bool {
        self.completed == done_count(self.items@)
    }

    /// A worker over fresh items, none done yet.
    pub fn new(items: Vec<DeviceWork>) -> (r: Self)
        requires
            forall|i: int| 0 <= i < items@.len() ==> !(#[trigger] items@[i]).done,
        ensures
            r.well_formed(),
            r.items@ == items@,
            r.completed == 0,
    {
        proof {
            lemma_none_done(items@);
        }
        IrqWorker { items, completed: 0 }
    }

    /// Every device has been handled.
    pub fn finished(&self) -> (r: bool)
        requires
            self.well_formed(),
        ensures
            r == (done_count(self.items@) >= self.items@.len()),
    {
        self.completed >= self.items.len()
    }

    /// One look at device `i`'s `msi_irqs` directory: a device already
    /// handled, or one whose listing names no IRQ yet, is left as it is
    /// and nothing is to be pinned; otherwise the device is done and its
    /// IRQs are returned, to be pinned to its target CPUs.
    pub fn on_listing(&mut self, i: usize, listing: &MsiListing) -> (r: Vec<u32>)
        requires
            old(self).well_formed(),
            i < old(self).items@.len(),
        ensures
            final(self).well_formed(),
            final(self).items@.len() == old(self).items@.len(),
            old(self).items@[i as int].done ==> r@.len() == 0 && *final(self) == *old(self),
            !old(self).items@[i as int].done ==> match listing {
                MsiListing::Names(names) => r@ == irq_names(names@),
                _ => r@.len() == 0,
            },
            !old(self).items@[i as int].done && r@.len() == 0 ==> *final(self) == *old(self),
            !old(self).items@[i as int].done && r@.len() > 0 ==> {
                &&& final(self).items@[i as int].done
                &&& final(self).items@[i as int].dev == old(self).items@[i as int].dev
                &&& final(self).items@[i as int].target_cpus@ == old(self).items@[i as int].target_cpus@
                &&& final(self).items@[i as int].is_aux_gpu == old(self).items@[i as int].is_aux_gpu
                &&& final(self).completed == old(self).completed + 1
                &&& forall|k: int|
                    0 <= k < old(self).items@.len() && k != i ==> final(self).items@[k] == old(
                        self,
                    ).items@[k]
            },
    {
        if self.items[i].done {
            return Vec::new();
        }
        let irqs = device_irqs_best_effort(listing);
        if irqs.len() > 0 {
            self.mark_done(i);
        }
        irqs
    }

    /// Record that device `i` had its IRQs found and pinned.
    pub fn mark_done(&mut self, i: usize)
        requires
            old(self).well_formed(),
            i < old(self).items@.len(),
        ensures
            final(self).well_formed(),
            final(self).items@.len() == old(self).items@.len(),
            final(self).items@[i as int].done,
            final(self).items@[i as int].dev == old(self).items@[i as int].dev,
            final(self).items@[i as int].target_cpus@ == old(self).items@[i as int].target_cpus@,
            final(self).items@[i as int].is_aux_gpu == old(self).items@[i as int].is_aux_gpu,
            forall|k: int|
                0 <= k < old(self).items@.len() && k != i ==> final(self).items@[k] == old(
                    self,
                ).items@[k],
            old(self).items@[i as int].done ==> final(self).completed == old(self).completed,
            !old(self).items@[i as int].done ==> final(self).completed == old(self).completed + 1,
    {
        if self.items[i].done {
            return;
        }
        proof {
            lemma_done_count_bound(self.items@);
        }
        let ghost pre = self.items@;
        let n = self.items.len();
        let old_w = &self.items[i];
        let w = DeviceWork {
            dev: copy_device(&old_w.dev),
            target_cpus: copy_cpus(&old_w.target_cpus),
            is_aux_gpu: old_w.is_aux_gpu,
            done: true,
        };
        let ghost wv = w;
        self.items.set(i, w);
        proof {
            lemma_done_count_update(pre, i as int, wv);
            assert(self.items@ == pre.update(i as int, wv));
            lemma_done_count_bound(self.items@);
            assert(self.completed < n);
        }
        self.completed = self.completed + 1;
    }
}

fn copy_cpus(v: &Vec<u32>) -> (r: Vec<u32>)
    ensures
        r@ == v@,
{
    let mut out: Vec<u32> = Vec::new();
    let mut i: usize = 0;
    while i < v.len()
        invariant
            i <= v@.len(),
            out@ == v@.take(i as int),
        decreases v@.len() - i,
    {
        out.push(v[i]);
        i = i + 1;
        assert(out@ =~= v@.take(i as int));
    }
    assert(v@.take(v@.len() as int) =~= v@);
    out
}

proof fn lemma_none_done(items: Seq<DeviceWork>)
    requires
        forall|i: int| 0 <= i < items.len() ==> !(#[trigger] items[i]).done,
    ensures
        done_count(items) == 0,
    decreases items.len(),
{
    if items.len() > 0 {
        assert(!items[items.len() - 1].done);
        lemma_none_done(items.drop_last());
    }
}

} // verus!
