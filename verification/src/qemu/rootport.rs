//! VFIO devices on the QEMU command line, each on its own PCIe root-port
//! slot.
//!
//! Slots: every configured passthrough device gets one. Devices are taken
//! GPUs first, then NVMe, NIC and USB, each kind ordered by address.
//! Overrides from `qemu.pci_rootport` are applied first (they must name a
//! configured device, read "0xNN" with NN in 00–1f, and not reuse a slot);
//! the remaining devices take the free slots from 0x01 upward, up to 0x1f.
use vstd::prelude::*;
use crate::config::{PciDeviceConfig, VmConfig};
use crate::error::{ChalybsError, Result};
use crate::fmt::{hex_pad, parse_unsigned, parse_unsigned_exec, u64_to_hex_pad, views, lemma_views_push};
use crate::sorted::lex_le;
use crate::text::{chars_eq, chars_of, lit, slice_chars, string_of};

verus! {

/// A device in allocation order: kind priority and address.
pub type Entry = (u8, Seq<char>);

/// `a` sorts no later than `b`: by priority, then by address.
pub open spec fn entry_le(a: Entry, b: Entry) -> bool {
    a.0 < b.0 || (a.0 == b.0 && lex_le(a.1, b.1))
}

pub open spec fn first_after_entry(s: Seq<Entry>, x: Entry, i: int) -> int
    decreases s.len() - i,
{
    if i < 0 || i >= s.len() {
        s.len() as int
    } else if !entry_le(s[i], x) {
        i
    } else {
        first_after_entry(s, x, i + 1)
    }
}

/// The entries in allocation order (a stable sort).
pub open spec fn sort_entries(s: Seq<Entry>) -> Seq<Entry>
    decreases s.len(),
{
    if s.len() == 0 {
        Seq::empty()
    } else {
        let t = sort_entries(s.drop_last());
        t.insert(first_after_entry(t, s.last(), 0), s.last())
    }
}

pub open spec fn kind_entries(p: u8, o: Option<Vec<PciDeviceConfig>>) -> Seq<Entry> {
    match o {
        Some(v) => v@.map_values(|d: PciDeviceConfig| (p, d.pci_address@)),
        None => Seq::empty(),
    }
}

/// Every configured passthrough device, GPUs, NVMe, NIC, USB.
pub open spec fn all_entries(cfg: VmConfig) -> Seq<Entry> {
    kind_entries(0, cfg.devices.gpu) + kind_entries(1, cfg.devices.nvme) + kind_entries(
        2,
        cfg.devices.nic,
    ) + kind_entries(3, cfg.devices.usb)
}

pub open spec fn invalid_addr_msg(vm: Seq<char>, bdf: Seq<char>, addr: Seq<char>) -> Seq<char> {
    "vm "@ + vm + ": invalid pci_rootport address '"@ + addr + "' for device "@ + bdf
        + "; expected '0xNN' with NN in 00-1f"@
}

/// A root-port slot written "0xNN" (or "0XNN"), hex, at most 0x1f.
pub open spec fn slot_spec(vm: Seq<char>, bdf: Seq<char>, addr: Seq<char>) -> core::result::Result<
    u8,
    Seq<char>,
> {
    if !(addr.len() == 4 && addr[0] == '0' && (addr[1] == 'x' || addr[1] == 'X')) {
        Err(invalid_addr_msg(vm, bdf, addr))
    } else {
        match parse_unsigned(addr.skip(2), 16, 255) {
            None => Err(invalid_addr_msg(vm, bdf, addr)),
            Some(n) => if n > 0x1f {
                Err(
                    "vm "@ + vm + ": pci_rootport address '"@ + addr + "' for device "@ + bdf
                        + " is out of range; valid slot range is 0x00-0x1f"@,
                )
            } else {
                Ok(n as u8)
            },
        }
    }
}

/// Parse a root-port slot override.
pub fn parse_rootport_slot(vm_name: &str, bdf: &str, addr: &str) -> (r: Result<u8>)
    ensures
        match slot_spec(vm_name@, bdf@, addr@) {
            Ok(n) => r == Ok::<u8, ChalybsError>(n),
            Err(m) => r matches Err(ChalybsError::Config(x)) && x@ == m,
        },
{
    let v = chars_of(addr);
    let mut invalid = lit("vm ");
    invalid.append(vm_name);
    invalid.append(": invalid pci_rootport address '");
    invalid.append(addr);
    invalid.append("' for device ");
    invalid.append(bdf);
    invalid.append("; expected '0xNN' with NN in 00-1f");
    if !(v.len() == 4 && v[0] == '0' && (v[1] == 'x' || v[1] == 'X')) {
        return Err(ChalybsError::Config(invalid));
    }
    let hex = slice_chars(v.as_slice(), 2, 4);
    assert(hex@ =~= v@.skip(2));
    match parse_unsigned_exec(hex.as_slice(), 16, 255) {
        None => Err(ChalybsError::Config(invalid)),
        Some(n) => {
            if n > 0x1f {
                let mut m = lit("vm ");
                m.append(vm_name);
                m.append(": pci_rootport address '");
                m.append(addr);
                m.append("' for device ");
                m.append(bdf);
                m.append(" is out of range; valid slot range is 0x00-0x1f");
                Err(ChalybsError::Config(m))
            } else {
                Ok(n as u8)
            }
        },
    }
}

/// Slots given so far, in order: (address, slot). A later entry for the
/// same address wins a lookup; every entry's slot counts as used.
pub type SlotMap = Seq<(Seq<char>, u8)>;

pub open spec fn lookup(m: SlotMap, bdf: Seq<char>) -> Option<u8>
    decreases m.len(),
{
    if m.len() == 0 {
        None
    } else if m.last().0 == bdf {
        Some(m.last().1)
    } else {
        lookup(m.drop_last(), bdf)
    }
}

pub open spec fn slot_used(m: SlotMap, s: u8) -> bool {
    exists|i: int| 0 <= i < m.len() && (#[trigger] m[i]).1 == s
}

pub open spec fn is_configured(es: Seq<Entry>, bdf: Seq<char>) -> bool {
    exists|i: int| 0 <= i < es.len() && (#[trigger] es[i]).1 == bdf
}

/// The slots after applying the first overrides, or the first error.
pub open spec fn overrides_spec(vm: Seq<char>, es: Seq<Entry>, ovs: Seq<(Seq<char>, Seq<char>)>) -> core::result::Result<
    SlotMap,
    Seq<char>,
>
    decreases ovs.len(),
{
    if ovs.len() == 0 {
        Ok(Seq::empty())
    } else {
        match overrides_spec(vm, es, ovs.drop_last()) {
            Err(e) => Err(e),
            Ok(m) => {
                let (bdf, addr) = ovs.last();
                if !is_configured(es, bdf) {
                    Err(
                        "vm "@ + vm + ": pci_rootport override for device "@ + bdf
                            + " which is not configured under vm."@ + vm + ".devices"@,
                    )
                } else {
                    match slot_spec(vm, bdf, addr) {
                        Err(e) => Err(e),
                        Ok(s) => if slot_used(m, s) {
                            Err(
                                "vm "@ + vm + ": pci_rootport slot '"@ + addr
                                    + "' is assigned to more than one device"@,
                            )
                        } else {
                            Ok(m.push((bdf, s)))
                        },
                    }
                }
            },
        }
    }
}

/// The first slot from `n` up that nothing uses.
pub open spec fn next_free(m: SlotMap, n: nat) -> nat
    decreases 0x20 - n,
{
    if n >= 0x20 {
        n
    } else if slot_used(m, n as u8) {
        next_free(m, n + 1)
    } else {
        n
    }
}

/// Automatic allocation over the sorted entries, from slot `next`.
pub open spec fn auto_spec(vm: Seq<char>, es: Seq<Entry>, m: SlotMap, next: nat) -> core::result::Result<
    SlotMap,
    Seq<char>,
>
    decreases es.len(),
{
    if es.len() == 0 {
        Ok(m)
    } else {
        let bdf = es[0].1;
        if lookup(m, bdf) is Some {
            auto_spec(vm, es.drop_first(), m, next)
        } else {
            let n = next_free(m, next);
            if n > 0x1f {
                Err(
                    "vm "@ + vm
                        + ": more passthrough devices than available PCIe root-port slots (0x01-0x1f)"@,
                )
            } else {
                auto_spec(vm, es.drop_first(), m.push((bdf, n as u8)), n + 1)
            }
        }
    }
}

/// The root-port slot of every configured device, or the first error.
pub open spec fn rootport_map_spec(vm: Seq<char>, cfg: VmConfig) -> core::result::Result<
    SlotMap,
    Seq<char>,
> {
    let es = all_entries(cfg);
    if es.len() == 0 {
        Ok(Seq::empty())
    } else {
        let ovs = match cfg.qemu.pci_rootport {
            Some(v) => v@.map_values(|p: (String, String)| (p.0@, p.1@)),
            None => Seq::empty(),
        };
        match overrides_spec(vm, es, ovs) {
            Err(e) => Err(e),
            Ok(m) => auto_spec(vm, sort_entries(es), m, 1),
        }
    }
}

/// The `vfio-pci` parameters of one device.
pub open spec fn device_params(bdf: Seq<char>, legacy_vga: bool, rombar_off: Seq<Seq<char>>, m: SlotMap) -> Seq<
    char,
> {
    "host="@ + bdf + (if legacy_vga {
        ",multifunction=on,x-vga=on"@
    } else {
        Seq::empty()
    }) + (if rombar_off.contains(bdf) {
        ",rombar=0"@
    } else {
        Seq::empty()
    }) + match lookup(m, bdf) {
        Some(s) => ",bus=pcie.0,addr=0x"@ + hex_pad(s as nat, 2),
        None => Seq::empty(),
    }
}

pub open spec fn rombar_views(o: Option<Vec<String>>) -> Seq<Seq<char>> {
    match o {
        Some(v) => views(v@),
        None => Seq::empty(),
    }
}

pub open spec fn rombar_list(cfg: VmConfig) -> Seq<Seq<char>> {
    rombar_views(cfg.qemu.rombar_off)
}

/// `-device vfio-pci,...` for each device of a list; the first GPU is the
/// legacy VGA device when asked for and there is more than one GPU.
pub open spec fn list_args(
    devs: Seq<PciDeviceConfig>,
    total: nat,
    gpu: bool,
    legacy: bool,
    rombar_off: Seq<Seq<char>>,
    m: SlotMap,
) -> Seq<Seq<char>>
    decreases devs.len(),
{
    if devs.len() == 0 {
        Seq::empty()
    } else {
        let i = devs.len() - 1;
        let vga = gpu && i == 0 && legacy && total > 1;
        list_args(devs.drop_last(), total, gpu, legacy, rombar_off, m) + seq![
            "-device"@,
            "vfio-pci,"@ + device_params(devs[i].pci_address@, vga, rombar_off, m),
        ]
    }
}

pub open spec fn opt_devs(o: Option<Vec<PciDeviceConfig>>) -> Seq<PciDeviceConfig> {
    match o {
        Some(v) => v@,
        None => Seq::empty(),
    }
}

/// All VFIO device arguments: GPUs, NVMe, NIC, USB.
pub open spec fn vfio_device_args(vm: Seq<char>, cfg: VmConfig) -> core::result::Result<
    Seq<Seq<char>>,
    Seq<char>,
> {
    match rootport_map_spec(vm, cfg) {
        Err(e) => Err(e),
        Ok(m) => {
            let rb = rombar_list(cfg);
            let gpus = opt_devs(cfg.devices.gpu);
            Ok(
                list_args(gpus, gpus.len(), true, cfg.qemu.legacy_primary_gpu, rb, m) + list_args(
                    opt_devs(cfg.devices.nvme),
                    opt_devs(cfg.devices.nvme).len(),
                    false,
                    false,
                    rb,
                    m,
                ) + list_args(
                    opt_devs(cfg.devices.nic),
                    opt_devs(cfg.devices.nic).len(),
                    false,
                    false,
                    rb,
                    m,
                ) + list_args(
                    opt_devs(cfg.devices.usb),
                    opt_devs(cfg.devices.usb).len(),
                    false,
                    false,
                    rb,
                    m,
                ),
            )
        },
    }
}

// ---------------------------------------------------------------------------
// Executable allocation
// ---------------------------------------------------------------------------

fn entry_le_exec(a: &(u8, Vec<char>), b: &(u8, Vec<char>)) -> (r: bool)
    ensures
        r == entry_le((a.0, a.1@), (b.0, b.1@)),
{
    a.0 < b.0 || (a.0 == b.0 && crate::sorted::str_le(a.1.as_slice(), b.1.as_slice()))
}

pub open spec fn entry_views(v: Seq<(u8, Vec<char>)>) -> Seq<Entry> {
    v.map_values(|e: (u8, Vec<char>)| (e.0, e.1@))
}

proof fn lemma_first_after_entry(s: Seq<Entry>, x: Entry, i: int)
    requires
        0 <= i <= s.len(),
        forall|j: int| 0 <= j < i ==> entry_le(#[trigger] s[j], x),
    ensures
        first_after_entry(s, x, 0) == first_after_entry(s, x, i),
    decreases i,
{
    if i > 0 {
        lemma_first_after_entry(s, x, i - 1);
    }
}

fn push_kind(out: &mut Vec<(u8, Vec<char>)>, p: u8, o: &Option<Vec<PciDeviceConfig>>)
    ensures
        entry_views(final(out)@) == entry_views(old(out)@) + kind_entries(p, *o),
{
    match o {
        Some(devs) => {
            let mut i: usize = 0;
            while i < devs.len()
                invariant
                    i <= devs@.len(),
                    *o == Some(*devs),
                    entry_views(out@) == entry_views(old(out)@) + devs@.take(i as int).map_values(
                        |d: PciDeviceConfig| (p, d.pci_address@),
                    ),
                decreases devs@.len() - i,
            {
                let ghost before = out@;
                out.push((p, chars_of(devs[i].pci_address.as_str())));
                assert(entry_views(out@) =~= entry_views(before).push((p, devs@[i as int].pci_address@)));
                assert(devs@.take(i + 1).map_values(|d: PciDeviceConfig| (p, d.pci_address@))
                    =~= devs@.take(i as int).map_values(|d: PciDeviceConfig| (p, d.pci_address@)).push(
                    (p, devs@[i as int].pci_address@),
                ));
                i = i + 1;
            }
            assert(devs@.take(devs@.len() as int) =~= devs@);
        },
        None => {
            assert(entry_views(out@) + kind_entries(p, *o) =~= entry_views(out@));
        },
    }
}

fn sorted_entries(es: &Vec<(u8, Vec<char>)>) -> (r: Vec<(u8, Vec<char>)>)
    ensures
        entry_views(r@) == sort_entries(entry_views(es@)),
{
    let mut out: Vec<(u8, Vec<char>)> = Vec::new();
    let mut i: usize = 0;
    assert(entry_views(es@.take(0)) =~= Seq::<Entry>::empty());
    assert(entry_views(out@) =~= Seq::<Entry>::empty());
    while i < es.len()
        invariant
            i <= es@.len(),
            entry_views(out@) == sort_entries(entry_views(es@.take(i as int))),
        decreases es@.len() - i,
    {
        let x = (es[i].0, es[i].1.clone());
        let mut p: usize = 0;
        while p < out.len() && entry_le_exec(&out[p], &x)
            invariant
                p <= out@.len(),
                x.0 == es@[i as int].0,
                x.1@ == es@[i as int].1@,
                forall|j: int| 0 <= j < p ==> entry_le(#[trigger] entry_views(out@)[j], (x.0, x.1@)),
            decreases out@.len() - p,
        {
            p = p + 1;
        }
        let ghost ov = entry_views(out@);
        proof {
            lemma_first_after_entry(ov, (x.0, x.1@), p as int);
            assert(entry_views(es@.take(i + 1)).drop_last() =~= entry_views(es@.take(i as int)));
            assert(entry_views(es@.take(i + 1)).last() == (x.0, x.1@));
        }
        out.insert(p, x);
        assert(entry_views(out@) =~= ov.insert(p as int, (x.0, x.1@)));
        i = i + 1;
    }
    assert(es@.take(es@.len() as int) =~= es@);
    out
}

pub open spec fn map_views(m: Seq<(Vec<char>, u8)>) -> SlotMap {
    m.map_values(|e: (Vec<char>, u8)| (e.0@, e.1))
}

fn lookup_exec(m: &Vec<(Vec<char>, u8)>, bdf: &[char]) -> (r: Option<u8>)
    ensures
        r == lookup(map_views(m@), bdf@),
{
    let mut j: usize = m.len();
    assert(map_views(m@).take(j as int) =~= map_views(m@));
    while j > 0
        invariant
            j <= m@.len(),
            lookup(map_views(m@), bdf@) == lookup(map_views(m@).take(j as int), bdf@),
        decreases j,
    {
        assert(map_views(m@).take(j as int).drop_last() =~= map_views(m@).take(j - 1));
        if chars_eq(m[j - 1].0.as_slice(), bdf) {
            return Some(m[j - 1].1);
        }
        j = j - 1;
    }
    None
}

fn slot_used_exec(m: &Vec<(Vec<char>, u8)>, s: u8) -> (r: bool)
    ensures
        r == slot_used(map_views(m@), s),
{
    let mut j: usize = 0;
    while j < m.len()
        invariant
            j <= m@.len(),
            forall|k: int| 0 <= k < j ==> (#[trigger] map_views(m@)[k]).1 != s,
        decreases m@.len() - j,
    {
        if m[j].1 == s {
            assert(map_views(m@)[j as int].1 == s);
            return true;
        }
        j = j + 1;
    }
    false
}

fn configured_exec(es: &Vec<(u8, Vec<char>)>, bdf: &[char]) -> (r: bool)
    ensures
        r == is_configured(entry_views(es@), bdf@),
{
    let mut j: usize = 0;
    while j < es.len()
        invariant
            j <= es@.len(),
            forall|k: int| 0 <= k < j ==> (#[trigger] entry_views(es@)[k]).1 != bdf@,
        decreases es@.len() - j,
    {
        if chars_eq(es[j].1.as_slice(), bdf) {
            assert(entry_views(es@)[j as int].1 == bdf@);
            return true;
        }
        j = j + 1;
    }
    false
}

fn apply_overrides(vm_name: &str, es: &Vec<(u8, Vec<char>)>, ovs: &Vec<(String, String)>) -> (r: Result<
    Vec<(Vec<char>, u8)>,
>)
    ensures
        match overrides_spec(
            vm_name@,
            entry_views(es@),
            ovs@.map_values(|p: (String, String)| (p.0@, p.1@)),
        ) {
            Ok(m) => r matches Ok(x) && map_views(x@) == m,
            Err(e) => r matches Err(ChalybsError::Config(x)) && x@ == e,
        },
{
    let ghost ovv = ovs@.map_values(|p: (String, String)| (p.0@, p.1@));
    let mut m: Vec<(Vec<char>, u8)> = Vec::new();
    let mut i: usize = 0;
    assert(ovv.take(0) =~= Seq::<(Seq<char>, Seq<char>)>::empty());
    assert(map_views(m@) =~= SlotMap::empty());
    while i < ovs.len()
        invariant
            i <= ovs@.len(),
            ovv == ovs@.map_values(|p: (String, String)| (p.0@, p.1@)),
            overrides_spec(vm_name@, entry_views(es@), ovv.take(i as int)) == Ok::<SlotMap, Seq<char>>(
                map_views(m@),
            ),
        decreases ovs@.len() - i,
    {
        assert(ovv.take(i + 1).drop_last() =~= ovv.take(i as int));
        assert(ovv.take(i + 1).last() == (ovs@[i as int].0@, ovs@[i as int].1@));
        let bdf = chars_of(ovs[i].0.as_str());
        if !configured_exec(es, bdf.as_slice()) {
            let mut e = lit("vm ");
            e.append(vm_name);
            e.append(": pci_rootport override for device ");
            e.append(ovs[i].0.as_str());
            e.append(" which is not configured under vm.");
            e.append(vm_name);
            e.append(".devices");
            proof {
                lemma_overrides_err_sticks(vm_name@, entry_views(es@), ovv, i as int + 1);
            }
            return Err(ChalybsError::Config(e));
        }
        let s = match parse_rootport_slot(vm_name, ovs[i].0.as_str(), ovs[i].1.as_str()) {
            Ok(s) => s,
            Err(e) => {
                proof {
                    lemma_overrides_err_sticks(vm_name@, entry_views(es@), ovv, i as int + 1);
                }
                return Err(e);
            },
        };
        if slot_used_exec(&m, s) {
            let mut e = lit("vm ");
            e.append(vm_name);
            e.append(": pci_rootport slot '");
            e.append(ovs[i].1.as_str());
            e.append("' is assigned to more than one device");
            proof {
                lemma_overrides_err_sticks(vm_name@, entry_views(es@), ovv, i as int + 1);
            }
            return Err(ChalybsError::Config(e));
        }
        let ghost before = map_views(m@);
        m.push((bdf, s));
        assert(map_views(m@) =~= before.push((ovs@[i as int].0@, s)));
        i = i + 1;
    }
    assert(ovv.take(ovs@.len() as int) =~= ovv);
    Ok(m)
}

/// An error met among the first `n` overrides is the result for all of
/// them.
proof fn lemma_overrides_err_sticks(
    vm: Seq<char>,
    es: Seq<Entry>,
    ovs: Seq<(Seq<char>, Seq<char>)>,
    n: int,
)
    requires
        0 <= n <= ovs.len(),
        overrides_spec(vm, es, ovs.take(n)) is Err,
    ensures
        overrides_spec(vm, es, ovs) == overrides_spec(vm, es, ovs.take(n)),
    decreases ovs.len() - n,
{
    if n < ovs.len() {
        assert(ovs.take(n + 1).drop_last() =~= ovs.take(n));
        lemma_overrides_err_sticks(vm, es, ovs, n + 1);
    } else {
        assert(ovs.take(n) =~= ovs);
    }
}

fn auto_assign(vm_name: &str, sorted: &Vec<(u8, Vec<char>)>, m: &mut Vec<(Vec<char>, u8)>) -> (r: Result<()>)
    requires
        forall|k: int| 0 <= k < old(m)@.len() ==> (#[trigger] old(m)@[k]).1 <= 0x1f,
    ensures
        match auto_spec(vm_name@, entry_views(sorted@), map_views(old(m)@), 1) {
            Ok(x) => r is Ok && map_views(final(m)@) == x,
            Err(e) => r matches Err(ChalybsError::Config(x)) && x@ == e,
        },
{
    let ghost es = entry_views(sorted@);
    let ghost m0 = map_views(m@);
    let mut next: u64 = 1;
    let mut i: usize = 0;
    assert(es.skip(0) =~= es);
    while i < sorted.len()
        invariant
            i <= sorted@.len(),
            es == entry_views(sorted@),
            m0 == map_views(old(m)@),
            1 <= next <= 0x20,
            forall|k: int| 0 <= k < m@.len() ==> (#[trigger] m@[k]).1 <= 0x1f,
            auto_spec(vm_name@, es, m0, 1) == auto_spec(vm_name@, es.skip(i as int), map_views(m@), next as nat),
        decreases sorted@.len() - i,
    {
        assert(es.skip(i as int).drop_first() =~= es.skip(i + 1));
        assert(es.skip(i as int)[0] == (sorted@[i as int].0, sorted@[i as int].1@));
        if lookup_exec(m, sorted[i].1.as_slice()).is_some() {
            i = i + 1;
        } else {
            let ghost start = next as nat;
            while next < 0x20 && slot_used_exec(m, next as u8)
                invariant
                    start <= next <= 0x20,
                    next_free(map_views(m@), start) == next_free(map_views(m@), next as nat),
                decreases 0x20 - next,
            {
                next = next + 1;
            }
            assert(next_free(map_views(m@), next as nat) == next as nat);
            if next > 0x1f {
                assert(auto_spec(vm_name@, es.skip(i as int), map_views(m@), start) is Err);
                let mut e = lit("vm ");
                e.append(vm_name);
                e.append(": more passthrough devices than available PCIe root-port slots (0x01-0x1f)");
                assert(auto_spec(vm_name@, es.skip(i as int), map_views(m@), start) == Err::<SlotMap, Seq<char>>(e@));
                assert(auto_spec(vm_name@, es, m0, 1) == Err::<SlotMap, Seq<char>>(e@));
                assert(auto_spec(vm_name@, entry_views(sorted@), map_views(old(m)@), 1) == Err::<SlotMap, Seq<char>>(e@));
                return Err(ChalybsError::Config(e));
            }
            let ghost before = map_views(m@);
            m.push((sorted[i].1.clone(), next as u8));
            assert(map_views(m@) =~= before.push((es[i as int].1, next as u8)));
            next = next + 1;
            i = i + 1;
        }
    }
    Ok(())
}

/// Allocate the root-port slot of every configured device.
pub fn build_pci_rootport_map(vm_name: &str, cfg: &VmConfig) -> (r: Result<Vec<(Vec<char>, u8)>>)
    ensures
        match rootport_map_spec(vm_name@, *cfg) {
            Ok(x) => r matches Ok(m) && map_views(m@) == x,
            Err(e) => r matches Err(ChalybsError::Config(x)) && x@ == e,
        },
{
    let mut es: Vec<(u8, Vec<char>)> = Vec::new();
    assert(entry_views(es@) =~= Seq::<Entry>::empty());
    push_kind(&mut es, 0, &cfg.devices.gpu);
    push_kind(&mut es, 1, &cfg.devices.nvme);
    push_kind(&mut es, 2, &cfg.devices.nic);
    push_kind(&mut es, 3, &cfg.devices.usb);
    assert(entry_views(es@) =~= all_entries(*cfg));
    if es.len() == 0 {
        let m: Vec<(Vec<char>, u8)> = Vec::new();
        assert(map_views(m@) =~= SlotMap::empty());
        return Ok(m);
    }
    let empty: Vec<(String, String)> = Vec::new();
    let ovs = match &cfg.qemu.pci_rootport {
        Some(v) => v,
        None => &empty,
    };
    assert(ovs@.map_values(|p: (String, String)| (p.0@, p.1@)) =~= match cfg.qemu.pci_rootport {
        Some(v) => v@.map_values(|p: (String, String)| (p.0@, p.1@)),
        None => Seq::empty(),
    });
    let mut m = match apply_overrides(vm_name, &es, ovs) {
        Ok(m) => m,
        Err(e) => return Err(e),
    };
    proof {
        lemma_override_slots(vm_name@, entry_views(es@), ovs@.map_values(|p: (String, String)| (p.0@, p.1@)));
        assert forall|k: int| 0 <= k < m@.len() implies (#[trigger] m@[k]).1 <= 0x1f by {
            assert(map_views(m@)[k].1 == m@[k].1);
        }
    }
    let sorted = sorted_entries(&es);
    match auto_assign(vm_name, &sorted, &mut m) {
        Ok(()) => Ok(m),
        Err(e) => Err(e),
    }
}

/// Override slots are valid slots.
proof fn lemma_override_slots(vm: Seq<char>, es: Seq<Entry>, ovs: Seq<(Seq<char>, Seq<char>)>)
    ensures
        overrides_spec(vm, es, ovs) matches Ok(m) ==> forall|k: int| 0 <= k < m.len() ==> (#[trigger] m[k]).1 <= 0x1f,
    decreases ovs.len(),
{
    if ovs.len() > 0 {
        lemma_override_slots(vm, es, ovs.drop_last());
        if let Ok(m) = overrides_spec(vm, es, ovs) {
            let p = overrides_spec(vm, es, ovs.drop_last())->Ok_0;
            assert forall|k: int| 0 <= k < m.len() implies (#[trigger] m[k]).1 <= 0x1f by {
                if k < p.len() {
                    assert(m[k] == p[k]);
                }
            }
        }
    }
}

fn rombar_has(rombar: &Option<Vec<String>>, bdf: &String) -> (r: bool)
    ensures
        r == rombar_views(*rombar).contains(bdf@),
{
    match rombar {
        Some(v) => {
            let mut j: usize = 0;
            while j < v.len()
                invariant
                    j <= v@.len(),
                    *rombar == Some(*v),
                    forall|k: int| 0 <= k < j ==> (#[trigger] v@[k])@ != bdf@,
                decreases v@.len() - j,
            {
                if crate::text::str_eq(v[j].as_str(), bdf.as_str()) {
                    assert(views(v@)[j as int] == bdf@);
                    assert(views(v@).contains(bdf@));
                    return true;
                }
                j = j + 1;
            }
            proof {
                if views(v@).contains(bdf@) {
                    let k = choose|k: int| 0 <= k < views(v@).len() && views(v@)[k] == bdf@;
                    assert(v@[k]@ == bdf@);
                }
            }
            false
        },
        None => false,
    }
}

fn push_list(
    args: &mut Vec<String>,
    devs: &Vec<PciDeviceConfig>,
    gpu: bool,
    legacy: bool,
    rombar: &Option<Vec<String>>,
    m: &Vec<(Vec<char>, u8)>,
)
    ensures
        views(final(args)@) == views(old(args)@) + list_args(
            devs@,
            devs@.len(),
            gpu,
            legacy,
            rombar_views(*rombar),
            map_views(m@),
        ),
{
    let ghost rb = rombar_views(*rombar);
    let ghost base = views(args@);
    let mut i: usize = 0;
    assert(list_args(devs@.take(0), devs@.len(), gpu, legacy, rb, map_views(m@)) =~= Seq::<Seq<char>>::empty());
    assert(base + Seq::<Seq<char>>::empty() =~= base);
    while i < devs.len()
        invariant
            i <= devs@.len(),
            rb == rombar_views(*rombar),
            views(args@) == base + list_args(devs@.take(i as int), devs@.len(), gpu, legacy, rb, map_views(m@)),
        decreases devs@.len() - i,
    {
        let dev = &devs[i];
        let mut params = lit("host=");
        params.append(dev.pci_address.as_str());
        let vga = gpu && i == 0 && legacy && devs.len() > 1;
        if vga {
            params.append(",multifunction=on,x-vga=on");
        }
        if rombar_has(rombar, &dev.pci_address) {
            params.append(",rombar=0");
        }
        let bv = chars_of(dev.pci_address.as_str());
        match lookup_exec(m, bv.as_slice()) {
            Some(s) => {
                params.append(",bus=pcie.0,addr=0x");
                params.append(u64_to_hex_pad(s as u64, 2).as_str());
            },
            None => {},
        }
        let mut a = lit("vfio-pci,");
        a.append(params.as_str());
        let ghost before = args@;
        let d = lit("-device");
        proof {
            lemma_views_push(before, d);
        }
        args.push(d);
        let ghost mid = args@;
        proof {
            lemma_views_push(mid, a);
        }
        args.push(a);
        let ghost t = devs@.take(i + 1);
        assert(t.drop_last() =~= devs@.take(i as int));
        assert(t[t.len() - 1] == devs@[i as int]);
        assert(a@ == "vfio-pci,"@ + device_params(devs@[i as int].pci_address@, vga, rb, map_views(m@)));
        assert(views(args@) =~= base + list_args(t, devs@.len(), gpu, legacy, rb, map_views(m@)));
        i = i + 1;
    }
    assert(devs@.take(devs@.len() as int) =~= devs@);
}

fn push_opt_list(
    args: &mut Vec<String>,
    o: &Option<Vec<PciDeviceConfig>>,
    gpu: bool,
    legacy: bool,
    rombar: &Option<Vec<String>>,
    m: &Vec<(Vec<char>, u8)>,
)
    ensures
        views(final(args)@) == views(old(args)@) + list_args(
            opt_devs(*o),
            opt_devs(*o).len(),
            gpu,
            legacy,
            rombar_views(*rombar),
            map_views(m@),
        ),
{
    match o {
        Some(devs) => push_list(args, devs, gpu, legacy, rombar, m),
        None => {
            assert(list_args(opt_devs(*o), 0, gpu, legacy, rombar_views(*rombar), map_views(m@))
                =~= Seq::<Seq<char>>::empty());
            assert(views(args@) + Seq::<Seq<char>>::empty() =~= views(args@));
        },
    }
}

/// Append the VFIO device arguments of a VM.
pub fn add_vfio_pci_devices(args: &mut Vec<String>, vm_name: &str, cfg: &VmConfig) -> (r: Result<()>)
    ensures
        match vfio_device_args(vm_name@, *cfg) {
            Ok(a) => r is Ok && views(final(args)@) == views(old(args)@) + a,
            Err(e) => r matches Err(ChalybsError::Config(x)) && x@ == e,
        },
{
    let m = match build_pci_rootport_map(vm_name, cfg) {
        Ok(m) => m,
        Err(e) => return Err(e),
    };
    let ghost a0 = views(args@);
    let rb = &cfg.qemu.rombar_off;
    push_opt_list(args, &cfg.devices.gpu, true, cfg.qemu.legacy_primary_gpu, rb, &m);
    push_opt_list(args, &cfg.devices.nvme, false, false, rb, &m);
    push_opt_list(args, &cfg.devices.nic, false, false, rb, &m);
    push_opt_list(args, &cfg.devices.usb, false, false, rb, &m);
    assert(views(args@) =~= a0 + vfio_device_args(vm_name@, *cfg)->Ok_0);
    Ok(())
}

// ---------------------------------------------------------------------------
// Soundness of the slot map
// ---------------------------------------------------------------------------

/// No slot is given twice, and every slot lies in 0x00..=0x1f.
pub open spec fn slots_ok(m: SlotMap) -> bool {
    &&& forall|i: int, j: int| 0 <= i < j < m.len() ==> (#[trigger] m[i]).1 != (#[trigger] m[j]).1
    &&& forall|i: int| 0 <= i < m.len() ==> (#[trigger] m[i]).1 <= 0x1f
}

proof fn lemma_push_slot(m: SlotMap, b: Seq<char>, s: u8)
    requires
        slots_ok(m),
        !slot_used(m, s),
        s <= 0x1f,
    ensures
        slots_ok(m.push((b, s))),
{
    let m2 = m.push((b, s));
    assert forall|i: int, j: int| 0 <= i < j < m2.len() implies (#[trigger] m2[i]).1 != (
    #[trigger] m2[j]).1 by {
        assert(m2[i] == m[i]);
        if j < m.len() {
            assert(m2[j] == m[j]);
        } else {
            assert(m[i].1 != s);
        }
    }
    assert forall|i: int| 0 <= i < m2.len() implies (#[trigger] m2[i]).1 <= 0x1f by {
        if i < m.len() {
            assert(m2[i] == m[i]);
        }
    }
}

proof fn lemma_overrides_sound(vm: Seq<char>, es: Seq<Entry>, ovs: Seq<(Seq<char>, Seq<char>)>)
    ensures
        overrides_spec(vm, es, ovs) matches Ok(m) ==> slots_ok(m),
    decreases ovs.len(),
{
    if ovs.len() > 0 {
        lemma_overrides_sound(vm, es, ovs.drop_last());
        if let Ok(p) = overrides_spec(vm, es, ovs.drop_last()) {
            let (bdf, addr) = ovs.last();
            if let Ok(s) = slot_spec(vm, bdf, addr) {
                if !slot_used(p, s) {
                    lemma_push_slot(p, bdf, s);
                }
            }
        }
    }
}

proof fn lemma_next_free(m: SlotMap, n: nat)
    ensures
        next_free(m, n) >= n,
        next_free(m, n) < 0x20 ==> !slot_used(m, next_free(m, n) as u8),
    decreases 0x20 - n,
{
    if n < 0x20 && slot_used(m, n as u8) {
        lemma_next_free(m, n + 1);
    }
}

proof fn lemma_lookup_push(m: SlotMap, x: (Seq<char>, u8), b: Seq<char>)
    ensures
        lookup(m, b) is Some ==> lookup(m.push(x), b) is Some,
        lookup(m.push(x), x.0) == Some(x.1),
{
    assert(m.push(x).drop_last() =~= m);
}

proof fn lemma_auto_sound(vm: Seq<char>, es: Seq<Entry>, m: SlotMap, next: nat)
    requires
        slots_ok(m),
    ensures
        auto_spec(vm, es, m, next) matches Ok(r) ==> {
            &&& slots_ok(r)
            &&& forall|i: int| 0 <= i < es.len() ==> lookup(r, (#[trigger] es[i]).1) is Some
            &&& forall|b: Seq<char>| lookup(m, b) is Some ==> #[trigger] lookup(r, b) is Some
        },
    decreases es.len(),
{
    if es.len() > 0 {
        let bdf = es[0].1;
        let rest = es.drop_first();
        if lookup(m, bdf) is Some {
            lemma_auto_sound(vm, rest, m, next);
            if let Ok(r) = auto_spec(vm, es, m, next) {
                assert forall|i: int| 0 <= i < es.len() implies lookup(r, (#[trigger] es[i]).1) is Some by {
                    if i > 0 {
                        assert(es[i] == rest[i - 1]);
                    }
                }
            }
        } else {
            let n = next_free(m, next);
            if n <= 0x1f {
                lemma_next_free(m, next);
                let m2 = m.push((bdf, n as u8));
                lemma_push_slot(m, bdf, n as u8);
                lemma_auto_sound(vm, rest, m2, n + 1);
                if let Ok(r) = auto_spec(vm, es, m, next) {
                    lemma_lookup_push(m, (bdf, n as u8), bdf);
                    assert forall|b: Seq<char>| lookup(m, b) is Some implies #[trigger] lookup(r, b) is Some by {
                        lemma_lookup_push(m, (bdf, n as u8), b);
                    }
                    assert forall|i: int| 0 <= i < es.len() implies lookup(r, (#[trigger] es[i]).1) is Some by {
                        if i > 0 {
                            assert(es[i] == rest[i - 1]);
                        }
                    }
                }
            }
        }
    }
}

proof fn lemma_first_after_bounds(s: Seq<Entry>, x: Entry, i: int)
    requires
        0 <= i <= s.len(),
    ensures
        i <= first_after_entry(s, x, i) <= s.len(),
    decreases s.len() - i,
{
    if i < s.len() && entry_le(s[i], x) {
        lemma_first_after_bounds(s, x, i + 1);
    }
}

/// Sorting keeps every entry.
proof fn lemma_sort_entries_keeps(s: Seq<Entry>)
    ensures
        forall|i: int| 0 <= i < s.len() ==> sort_entries(s).contains(#[trigger] s[i]),
    decreases s.len(),
{
    if s.len() > 0 {
        let p = s.drop_last();
        let t = sort_entries(p);
        let x = s.last();
        lemma_sort_entries_keeps(p);
        lemma_first_after_bounds(t, x, 0);
        let k = first_after_entry(t, x, 0);
        let u = t.insert(k, x);
        assert(u[k] == x);
        assert forall|i: int| 0 <= i < s.len() implies sort_entries(s).contains(#[trigger] s[i]) by {
            if i == s.len() - 1 {
                assert(u[k] == s[i]);
            } else {
                assert(s[i] == p[i]);
                assert(t.contains(p[i]));
                let j = choose|j: int| 0 <= j < t.len() && t[j] == p[i];
                if j < k {
                    assert(u[j] == t[j]);
                } else {
                    assert(u[j + 1] == t[j]);
                }
            }
        }
    }
}

/// Root-port slots: when the map can be built, every configured device
/// has a slot, no slot is given to two devices, and every slot lies in
/// 0x00..=0x1f.
pub proof fn lemma_rootport_map_sound(vm: Seq<char>, cfg: VmConfig)
    ensures
        rootport_map_spec(vm, cfg) matches Ok(m) ==> {
            &&& slots_ok(m)
            &&& forall|i: int|
                0 <= i < all_entries(cfg).len() ==> lookup(m, (#[trigger] all_entries(cfg)[i]).1) is Some
        },
{
    let es = all_entries(cfg);
    if es.len() > 0 {
        let ovs = match cfg.qemu.pci_rootport {
            Some(v) => v@.map_values(|p: (String, String)| (p.0@, p.1@)),
            None => Seq::empty(),
        };
        lemma_overrides_sound(vm, es, ovs);
        if let Ok(m0) = overrides_spec(vm, es, ovs) {
            let s = sort_entries(es);
            lemma_auto_sound(vm, s, m0, 1);
            lemma_sort_entries_keeps(es);
            if let Ok(m) = auto_spec(vm, s, m0, 1) {
                assert forall|i: int| 0 <= i < es.len() implies lookup(m, (#[trigger] es[i]).1) is Some by {
                    assert(s.contains(es[i]));
                    let j = choose|j: int| 0 <= j < s.len() && s[j] == es[i];
                    assert(lookup(m, s[j].1) is Some);
                }
            }
        }
    }
}

} // verus!
