//! The QEMU command line of a VM.
//!
//! Arguments come in a fixed order: the configured pre-arguments; the
//! managed core (`-enable-kvm`, `-cpu`, `-smp`, `-m`, hugepage backing);
//! machine type, firmware and QMP socket; RTC; SMBIOS; VFIO devices;
//! Looking Glass; SPICE; the configured mid and post arguments.
use vstd::prelude::*;
use crate::config::{CpuExtrasConfig, LookingGlassConfig, QemuConfig, SmbiosConfig, SpiceConfig, VmConfig};
use crate::cpu::detect::{autodetect_qemu_cpu_model, model_from_cpuid};
use crate::error::{ChalybsError, Result};
use crate::fmt::{dec, join, join_strings, lemma_views_push, u64_to_dec, views};
use crate::text::{
    chars_of, contains_sub, copy_string, occurs_at, starts_with, lit, opt_view, seqs_of, split_ws, split_ws_exec, string_of, trim, trim_str,
};

pub mod host;
pub mod rootport;

verus! {

/// The QMP socket of a VM.
pub open spec fn qmp_path(vm: Seq<char>) -> Seq<char> {
    "/run/chalybs/"@ + vm + ".qmp"@
}

pub fn qmp_path_for_vm(vm_name: &str) -> (r: String)
    ensures
        r@ == qmp_path(vm_name@),
{
    let mut r = lit("/run/chalybs/");
    r.append(vm_name);
    r.append(".qmp");
    r
}

/// The text of an optional setting, trimmed, when something is left.
pub open spec fn nonempty_trim(o: Option<String>) -> Option<Seq<char>> {
    match o {
        Some(s) => if trim(s@).len() > 0 {
            Some(trim(s@))
        } else {
            None
        },
        None => None,
    }
}

fn nonempty_trim_exec(o: &Option<String>) -> (r: Option<String>)
    ensures
        match nonempty_trim(*o) {
            Some(t) => r matches Some(s) && s@ == t,
            None => r is None,
        },
{
    match o {
        Some(s) => {
            let t = trim_str(s.as_str());
            if t.len() > 0 {
                Some(string_of(t.as_slice()))
            } else {
                None
            }
        },
        None => None,
    }
}

pub open spec fn ascii_lower(c: char) -> char {
    if 'A' <= c && c <= 'Z' {
        ((c as u32) + 32) as char
    } else {
        c
    }
}

/// `s.eq_ignore_ascii_case("auto")`.
pub open spec fn is_auto(s: Seq<char>) -> bool {
    &&& s.len() == 4
    &&& ascii_lower(s[0]) == 'a'
    &&& ascii_lower(s[1]) == 'u'
    &&& ascii_lower(s[2]) == 't'
    &&& ascii_lower(s[3]) == 'o'
}

fn is_auto_exec(s: &String) -> (r: bool)
    ensures
        r == is_auto(s@),
{
    let v = chars_of(s.as_str());
    if v.len() != 4 {
        return false;
    }
    let a = v[0] == 'a' || v[0] == 'A';
    let u = v[1] == 'u' || v[1] == 'U';
    let t = v[2] == 't' || v[2] == 'T';
    let o = v[3] == 'o' || v[3] == 'O';
    proof {
        assert(ascii_lower(v@[0]) == 'a' <==> (v@[0] == 'a' || v@[0] == 'A'));
        assert(ascii_lower(v@[1]) == 'u' <==> (v@[1] == 'u' || v@[1] == 'U'));
        assert(ascii_lower(v@[2]) == 't' <==> (v@[2] == 't' || v@[2] == 'T'));
        assert(ascii_lower(v@[3]) == 'o' <==> (v@[3] == 'o' || v@[3] == 'O'));
    }
    a && u && t && o
}

/// Whether the configuration asks for CPU model autodetection.
pub open spec fn wants_autodetect(q: QemuConfig) -> bool {
    nonempty_trim(q.cpu_model) matches Some(m) && is_auto(m)
}

/// The base CPU model: `cpu_model` (with "auto" resolved to the detected
/// model, or "host" when there is none), else the extras' `abi`, else
/// "host".
pub open spec fn cpu_base(q: QemuConfig, detected: Option<Seq<char>>) -> Seq<char> {
    match nonempty_trim(q.cpu_model) {
        Some(m) => if is_auto(m) {
            match detected {
                Some(d) => d,
                None => "host"@,
            }
        } else {
            m
        },
        None => match q.cpu_extras {
            Some(e) => match nonempty_trim(e.abi) {
                Some(a) => a,
                None => "host"@,
            },
            None => "host"@,
        },
    }
}

pub open spec fn opt_part(o: Option<String>) -> Seq<Seq<char>> {
    match nonempty_trim(o) {
        Some(t) => seq![t],
        None => Seq::empty(),
    }
}

/// The `-cpu` value: the base model, then the extras' topology,
/// hypervisor and vendor fragments that are set, joined by commas.
pub open spec fn cpu_arg_spec(q: QemuConfig, detected: Option<Seq<char>>) -> Seq<char> {
    match q.cpu_extras {
        None => cpu_base(q, detected),
        Some(e) => join(
            seq![cpu_base(q, detected)] + opt_part(e.topo) + opt_part(e.hv_contexts) + opt_part(
                e.vendor_id,
            ),
            ","@,
        ),
    }
}

fn push_opt_part(parts: &mut Vec<String>, o: &Option<String>)
    ensures
        views(final(parts)@) == views(old(parts)@) + opt_part(*o),
{
    match nonempty_trim_exec(o) {
        Some(t) => {
            proof {
                lemma_views_push(old(parts)@, t);
            }
            parts.push(t);
            assert(views(old(parts)@).push(t@) =~= views(old(parts)@) + opt_part(*o));
        },
        None => {
            assert(views(old(parts)@) + opt_part(*o) =~= views(old(parts)@));
        },
    }
}

/// The `-cpu` value given the autodetected model (consulted only for
/// "auto").
pub fn cpu_arg_from(q: &QemuConfig, detected: Option<String>) -> (r: String)
    ensures
        r@ == cpu_arg_spec(*q, opt_view(detected)),
{
    let base = match nonempty_trim_exec(&q.cpu_model) {
        Some(m) => if is_auto_exec(&m) {
            match detected {
                Some(d) => d,
                None => lit("host"),
            }
        } else {
            m
        },
        None => match &q.cpu_extras {
            Some(e) => match nonempty_trim_exec(&e.abi) {
                Some(a) => a,
                None => lit("host"),
            },
            None => lit("host"),
        },
    };
    match &q.cpu_extras {
        None => base,
        Some(e) => {
            let mut parts: Vec<String> = Vec::new();
            let ghost b = base@;
            parts.push(base);
            assert(views(parts@) =~= seq![b]);
            push_opt_part(&mut parts, &e.topo);
            push_opt_part(&mut parts, &e.hv_contexts);
            push_opt_part(&mut parts, &e.vendor_id);
            join_strings(&parts, ",")
        },
    }
}

/// The autodetected CPU model, asked of the host's CPUID only when the
/// configuration says "auto"; a model found is the one the CPUID values'
/// CPU class maps to.
fn detect_if_auto(q: &QemuConfig) -> (r: Option<String>)
    ensures
        !wants_autodetect(*q) ==> r is None,
        r matches Some(s) ==> exists|v: Seq<char>, f: (u8, u8, u8, u8, u8), b: Option<Seq<char>>|
            #[trigger] model_from_cpuid(v, f, b) == Some(s@),
{
    let auto = match nonempty_trim_exec(&q.cpu_model) {
        Some(m) => is_auto_exec(&m),
        None => false,
    };
    if auto {
        autodetect_qemu_cpu_model()
    } else {
        None
    }
}

/// The `-cpu` value, asking the host's CPUID for the model when the
/// configuration says "auto".
pub fn build_cpu_arg(q: &QemuConfig) -> (r: String)
    ensures
        exists|d: Option<Seq<char>>|
            #![trigger cpu_arg_spec(*q, d)]
            (!wants_autodetect(*q) ==> d is None) && r@ == cpu_arg_spec(*q, d),
{
    let detected = detect_if_auto(q);
    let ghost d = opt_view(detected);
    let r = cpu_arg_from(q, detected);
    assert(r@ == cpu_arg_spec(*q, d));
    r
}

pub open spec fn tokens(o: Option<String>) -> Seq<Seq<char>> {
    match o {
        Some(s) => split_ws(s@),
        None => Seq::empty(),
    }
}

/// The managed core arguments.
pub open spec fn core_args(q: QemuConfig, cpu: Seq<char>, hugepages_active: bool) -> Seq<Seq<char>> {
    seq!["-enable-kvm"@, "-cpu"@, cpu, "-smp"@, dec(q.num_vcpus as nat), "-m"@, dec(q.mem_mb as nat)]
        + if hugepages_active {
        seq!["-mem-prealloc"@, "-mem-path"@, "/dev/hugepages"@]
    } else {
        Seq::empty()
    }
}

/// Machine type, firmware drives and the QMP socket.
pub open spec fn machine_args(q: QemuConfig, qmp: Seq<char>) -> Seq<Seq<char>> {
    seq![
        "-machine"@,
        "q35,accel=kvm"@,
        "-drive"@,
        "if=pflash,format=raw,readonly=on,file="@ + q.ovmf_code@,
        "-drive"@,
        "if=pflash,format=raw,file="@ + q.ovmf_vars@,
        "-qmp"@,
        "unix:"@ + qmp + ",server,nowait"@,
    ]
}

/// RTC: the configured value trimmed; nothing for an empty one; the
/// localtime default when unset.
pub open spec fn rtc_args(q: QemuConfig) -> Seq<Seq<char>> {
    match q.rtc {
        None => seq!["-rtc"@, "base=localtime,driftfix=slew"@],
        Some(s) => if trim(s@).len() > 0 {
            seq!["-rtc"@, trim(s@)]
        } else {
            Seq::empty()
        },
    }
}

pub open spec fn kv(key: Seq<char>, o: Option<String>) -> Seq<Seq<char>> {
    match o {
        Some(v) => if v@.len() > 0 {
            seq![key + v@]
        } else {
            Seq::empty()
        },
        None => Seq::empty(),
    }
}

pub open spec fn smbios_table(ty: Seq<char>, parts: Seq<Seq<char>>) -> Seq<Seq<char>> {
    if parts.len() > 0 {
        seq!["-smbios"@, ty + join(parts, ","@)]
    } else {
        Seq::empty()
    }
}

/// SMBIOS tables 0 (BIOS), 1 (system) and 2 (baseboard), each only when
/// one of its fields is set.
pub open spec fn smbios_args(o: Option<SmbiosConfig>) -> Seq<Seq<char>> {
    match o {
        None => Seq::empty(),
        Some(s) => smbios_table(
            "type=0,"@,
            kv("vendor="@, s.bios_vendor) + kv("version="@, s.bios_version) + kv(
                "date="@,
                s.bios_date,
            ),
        ) + smbios_table(
            "type=1,"@,
            kv("manufacturer="@, s.system_manufacturer) + kv("product="@, s.system_product_name)
                + kv("uuid="@, s.system_uuid),
        ) + smbios_table(
            "type=2,"@,
            kv("manufacturer="@, s.baseboard_manufacturer) + kv("product="@, s.baseboard_product),
        ),
    }
}

proof fn lemma_join_ends_with_last(parts: Seq<Seq<char>>, sep: Seq<char>)
    requires
        parts.len() > 0,
    ensures
        join(parts, sep).len() >= parts.last().len(),
        join(parts, sep).subrange(
            join(parts, sep).len() - parts.last().len(),
            join(parts, sep).len() as int,
        ) == parts.last(),
{
    let j = join(parts, sep);
    if parts.len() == 1 {
        assert(j.subrange(0, j.len() as int) =~= j);
    } else {
        let a = join(parts.drop_last(), sep) + sep;
        assert(j == a + parts.last());
        assert(j.subrange(a.len() as int, j.len() as int) =~= parts.last());
    }
}

/// A configured, non-empty system UUID reaches QEMU: the SMBIOS arguments
/// hold a `-smbios` switch whose value is a system (type 1) table
/// containing `uuid=<uuid>`.
pub proof fn lemma_smbios_uuid_reaches_qemu(o: Option<SmbiosConfig>, v: String)
    requires
        o matches Some(s) && s.system_uuid == Some(v),
        v@.len() > 0,
    ensures
        exists|i: int|
            0 <= i && i + 1 < smbios_args(o).len() && smbios_args(o)[i] == "-smbios"@ && starts_with(
                #[trigger] smbios_args(o)[i + 1],
                "type=1,"@,
            ) && contains_sub(smbios_args(o)[i + 1], "uuid="@ + v@),
{
    let s = o->0;
    let t0 = smbios_table(
        "type=0,"@,
        kv("vendor="@, s.bios_vendor) + kv("version="@, s.bios_version) + kv("date="@, s.bios_date),
    );
    let parts = kv("manufacturer="@, s.system_manufacturer) + kv("product="@, s.system_product_name)
        + kv("uuid="@, s.system_uuid);
    let u = "uuid="@ + v@;
    assert(kv("uuid="@, s.system_uuid) == seq![u]);
    assert(parts.last() == u);
    lemma_join_ends_with_last(parts, ","@);
    let val = "type=1,"@ + join(parts, ","@);
    let a = smbios_args(o);
    let i = t0.len() as int;
    assert(a[i] == "-smbios"@);
    assert(a[i + 1] == val);
    let ty = "type=1,"@;
    assert(val.take(ty.len() as int) =~= ty);
    assert(starts_with(a[i + 1], "type=1,"@));
    let k = val.len() - u.len();
    assert(val.subrange(k, k + u.len()) =~= join(parts, ","@).subrange(
        join(parts, ","@).len() - u.len(),
        join(parts, ","@).len() as int,
    ));
    assert(occurs_at(a[i + 1], u, k));
    assert(contains_sub(a[i + 1], "uuid="@ + v@));
    assert(0 <= i && i + 1 < a.len());
}

/// The same for the whole QEMU command line of a VM.
pub proof fn lemma_qemu_command_carries_uuid(vm: Seq<char>, cfg: VmConfig, cpu: Seq<char>, hugepages_active: bool, v: String)
    requires
        cfg.qemu.smbios matches Some(s) && s.system_uuid == Some(v),
        v@.len() > 0,
    ensures
        qemu_args_spec(vm, cfg, cpu, hugepages_active) matches Ok(a) ==> exists|i: int|
            0 <= i && i + 1 < a.len() && a[i] == "-smbios"@ && starts_with(#[trigger] a[i + 1], "type=1,"@)
                && contains_sub(a[i + 1], "uuid="@ + v@),
{
    lemma_smbios_uuid_reaches_qemu(cfg.qemu.smbios, v);
    let q = cfg.qemu;
    let pre = tokens(q.pre_args) + core_args(q, cpu, hugepages_active) + machine_args(q, qmp_path(vm))
        + rtc_args(q);
    let sm = smbios_args(q.smbios);
    if qemu_args_spec(vm, cfg, cpu, hugepages_active) is Ok {
        let a = qemu_args_spec(vm, cfg, cpu, hugepages_active)->Ok_0;
        let j = choose|j: int|
            0 <= j && j + 1 < sm.len() && sm[j] == "-smbios"@ && starts_with(#[trigger] sm[j + 1], "type=1,"@)
                && contains_sub(sm[j + 1], "uuid="@ + v@);
        let dev = rootport::vfio_device_args(vm, cfg)->Ok_0;
        let sp = spice_args(vm, spice_cfg(cfg))->Ok_0;
        let rest = dev + looking_glass_args(lg_cfg(cfg)) + sp + split_ws(q.args@) + tokens(q.post_args);
        assert(a == pre + sm + rest);
        let i = pre.len() + j;
        assert(a[i] == sm[j]);
        assert(a[i + 1] == sm[j + 1]);
    }
}

/// Looking Glass shared memory, unless its size is zero.
pub open spec fn looking_glass_args(o: Option<LookingGlassConfig>) -> Seq<Seq<char>> {
    match o {
        Some(lg) => if lg.mem_mb != 0 {
            seq![
                "-object"@,
                "memory-backend-file,id=ivshmem,share=on,mem-path="@ + lg.shm_name@ + ",size="@
                    + dec(lg.mem_mb as nat) + "M"@,
                "-device"@,
                "ivshmem-plain,memdev=ivshmem,bus=pcie.0"@,
            ]
        } else {
            Seq::empty()
        },
        None => Seq::empty(),
    }
}

/// SPICE: nothing when absent or disabled; an error for port zero or an
/// empty address; otherwise the vdagent channel and the server.
pub open spec fn spice_args(vm: Seq<char>, o: Option<SpiceConfig>) -> core::result::Result<
    Seq<Seq<char>>,
    Seq<char>,
> {
    match o {
        None => Ok(Seq::empty()),
        Some(s) => if !s.enabled {
            Ok(Seq::empty())
        } else if s.port == 0 {
            Err(
                "vm "@ + vm
                    + ": peripherals.spice.enabled = true but port=0; please set a valid SPICE TCP port"@,
            )
        } else if trim(s.addr@).len() == 0 {
            Err(
                "vm "@ + vm
                    + ": peripherals.spice.enabled = true but addr is empty; please set peripherals.spice.addr"@,
            )
        } else {
            Ok(
                seq![
                    "-device"@,
                    "virtio-serial-pci,id=virtio-serial0,max_ports=16,bus=pcie.0,addr=0x10"@,
                    "-chardev"@,
                    "spicevmc,name=vdagent,id=vdagent"@,
                    "-device"@,
                    "virtserialport,nr=1,bus=virtio-serial0.0,chardev=vdagent,name=com.redhat.spice.0"@,
                    "-spice"@,
                    "port="@ + dec(s.port as nat) + ",addr="@ + trim(s.addr@) + ",disable-ticketing=on"@,
                ],
            )
        },
    }
}

fn push_arg(args: &mut Vec<String>, a: String)
    ensures
        views(final(args)@) == views(old(args)@).push(a@),
{
    proof {
        lemma_views_push(old(args)@, a);
    }
    args.push(a);
}

fn push_lit(args: &mut Vec<String>, a: &str)
    ensures
        views(final(args)@) == views(old(args)@).push(a@),
{
    push_arg(args, lit(a));
}

/// Append the whitespace-separated tokens of `s`.
pub fn push_tokens(args: &mut Vec<String>, s: &str)
    ensures
        views(final(args)@) == views(old(args)@) + split_ws(s@),
{
    let cv = chars_of(s);
    let toks = split_ws_exec(cv.as_slice());
    let ghost base = views(args@);
    let mut i: usize = 0;
    while i < toks.len()
        invariant
            i <= toks@.len(),
            seqs_of(toks@) == split_ws(s@),
            views(args@) == base + seqs_of(toks@).take(i as int),
        decreases toks@.len() - i,
    {
        push_arg(args, string_of(toks[i].as_slice()));
        assert(seqs_of(toks@).take(i + 1) =~= seqs_of(toks@).take(i as int).push(toks@[i as int]@));
        i = i + 1;
    }
    assert(seqs_of(toks@).take(toks@.len() as int) =~= seqs_of(toks@));
}

fn push_opt_tokens(args: &mut Vec<String>, o: &Option<String>)
    ensures
        views(final(args)@) == views(old(args)@) + tokens(*o),
{
    match o {
        Some(s) => push_tokens(args, s.as_str()),
        None => {
            assert(views(args@) + tokens(*o) =~= views(args@));
        },
    }
}

fn push_core_args(args: &mut Vec<String>, q: &QemuConfig, cpu: String, hugepages_active: bool)
    ensures
        views(final(args)@) == views(old(args)@) + core_args(*q, cpu@, hugepages_active),
{
    let ghost c = cpu@;
    push_lit(args, "-enable-kvm");
    push_lit(args, "-cpu");
    push_arg(args, cpu);
    push_lit(args, "-smp");
    push_arg(args, u64_to_dec(q.num_vcpus as u64));
    push_lit(args, "-m");
    push_arg(args, u64_to_dec(q.mem_mb));
    if hugepages_active {
        push_lit(args, "-mem-prealloc");
        push_lit(args, "-mem-path");
        push_lit(args, "/dev/hugepages");
    }
    assert(views(args@) =~= views(old(args)@) + core_args(*q, c, hugepages_active));
}

fn push_machine_args(args: &mut Vec<String>, q: &QemuConfig, qmp: &String)
    ensures
        views(final(args)@) == views(old(args)@) + machine_args(*q, qmp@),
{
    push_lit(args, "-machine");
    push_lit(args, "q35,accel=kvm");
    push_lit(args, "-drive");
    let mut d1 = lit("if=pflash,format=raw,readonly=on,file=");
    d1.append(q.ovmf_code.as_str());
    push_arg(args, d1);
    push_lit(args, "-drive");
    let mut d2 = lit("if=pflash,format=raw,file=");
    d2.append(q.ovmf_vars.as_str());
    push_arg(args, d2);
    push_lit(args, "-qmp");
    let mut m = lit("unix:");
    m.append(qmp.as_str());
    m.append(",server,nowait");
    push_arg(args, m);
    assert(views(args@) =~= views(old(args)@) + machine_args(*q, qmp@));
}

/// Append the RTC arguments.
pub fn apply_rtc_args(args: &mut Vec<String>, q: &QemuConfig)
    ensures
        views(final(args)@) == views(old(args)@) + rtc_args(*q),
{
    match &q.rtc {
        None => {
            push_lit(args, "-rtc");
            push_lit(args, "base=localtime,driftfix=slew");
        },
        Some(s) => {
            let t = trim_str(s.as_str());
            if t.len() > 0 {
                push_lit(args, "-rtc");
                push_arg(args, string_of(t.as_slice()));
            }
        },
    }
    assert(views(args@) =~= views(old(args)@) + rtc_args(*q));
}

fn push_kv(parts: &mut Vec<String>, key: &str, o: &Option<String>)
    ensures
        views(final(parts)@) == views(old(parts)@) + kv(key@, *o),
{
    match o {
        Some(v) => {
            if chars_of(v.as_str()).len() > 0 {
                let mut s = lit(key);
                s.append(v.as_str());
                push_arg(parts, s);
            }
        },
        None => {},
    }
    assert(views(parts@) =~= views(old(parts)@) + kv(key@, *o));
}

fn push_table(args: &mut Vec<String>, ty: &str, parts: &Vec<String>)
    ensures
        views(final(args)@) == views(old(args)@) + smbios_table(ty@, views(parts@)),
{
    if parts.len() > 0 {
        push_lit(args, "-smbios");
        let mut s = lit(ty);
        s.append(join_strings(parts, ",").as_str());
        push_arg(args, s);
    }
    assert(views(args@) =~= views(old(args)@) + smbios_table(ty@, views(parts@)));
}

/// Append the SMBIOS arguments.
pub fn apply_smbios_args(args: &mut Vec<String>, q: &QemuConfig)
    ensures
        views(final(args)@) == views(old(args)@) + smbios_args(q.smbios),
{
    let smb = match &q.smbios {
        Some(s) => s,
        None => {
            assert(views(args@) + smbios_args(q.smbios) =~= views(args@));
            return;
        },
    };
    let ghost a0 = views(args@);
    let mut t0: Vec<String> = Vec::new();
    assert(views(t0@) =~= Seq::<Seq<char>>::empty());
    push_kv(&mut t0, "vendor=", &smb.bios_vendor);
    push_kv(&mut t0, "version=", &smb.bios_version);
    push_kv(&mut t0, "date=", &smb.bios_date);
    push_table(args, "type=0,", &t0);
    let mut t1: Vec<String> = Vec::new();
    assert(views(t1@) =~= Seq::<Seq<char>>::empty());
    push_kv(&mut t1, "manufacturer=", &smb.system_manufacturer);
    push_kv(&mut t1, "product=", &smb.system_product_name);
    push_kv(&mut t1, "uuid=", &smb.system_uuid);
    push_table(args, "type=1,", &t1);
    let mut t2: Vec<String> = Vec::new();
    assert(views(t2@) =~= Seq::<Seq<char>>::empty());
    push_kv(&mut t2, "manufacturer=", &smb.baseboard_manufacturer);
    push_kv(&mut t2, "product=", &smb.baseboard_product);
    push_table(args, "type=2,", &t2);
    assert(views(t0@) =~= kv("vendor="@, smb.bios_vendor) + kv("version="@, smb.bios_version) + kv(
        "date="@,
        smb.bios_date,
    ));
    assert(views(t1@) =~= kv("manufacturer="@, smb.system_manufacturer) + kv(
        "product="@,
        smb.system_product_name,
    ) + kv("uuid="@, smb.system_uuid));
    assert(views(t2@) =~= kv("manufacturer="@, smb.baseboard_manufacturer) + kv(
        "product="@,
        smb.baseboard_product,
    ));
    assert(views(args@) =~= a0 + smbios_args(q.smbios));
}

fn apply_looking_glass(args: &mut Vec<String>, o: &Option<LookingGlassConfig>)
    ensures
        views(final(args)@) == views(old(args)@) + looking_glass_args(*o),
{
    match o {
        Some(lg) => {
            if lg.mem_mb != 0 {
                push_lit(args, "-object");
                let mut m = lit("memory-backend-file,id=ivshmem,share=on,mem-path=");
                m.append(lg.shm_name.as_str());
                m.append(",size=");
                m.append(u64_to_dec(lg.mem_mb).as_str());
                m.append("M");
                push_arg(args, m);
                push_lit(args, "-device");
                push_lit(args, "ivshmem-plain,memdev=ivshmem,bus=pcie.0");
            }
        },
        None => {},
    }
    assert(views(args@) =~= views(old(args)@) + looking_glass_args(*o));
}

fn apply_spice(args: &mut Vec<String>, vm_name: &str, o: &Option<SpiceConfig>) -> (r: Result<()>)
    ensures
        match spice_args(vm_name@, *o) {
            Ok(a) => r is Ok && views(final(args)@) == views(old(args)@) + a,
            Err(m) => r matches Err(ChalybsError::Qemu(x)) && x@ == m,
        },
{
    let s = match o {
        Some(s) => s,
        None => {
            assert(views(args@) + Seq::<Seq<char>>::empty() =~= views(args@));
            return Ok(());
        },
    };
    if !s.enabled {
        assert(views(args@) + Seq::<Seq<char>>::empty() =~= views(args@));
        return Ok(());
    }
    if s.port == 0 {
        let mut m = lit("vm ");
        m.append(vm_name);
        m.append(
            ": peripherals.spice.enabled = true but port=0; please set a valid SPICE TCP port",
        );
        return Err(ChalybsError::Qemu(m));
    }
    let addr = trim_str(s.addr.as_str());
    if addr.len() == 0 {
        let mut m = lit("vm ");
        m.append(vm_name);
        m.append(
            ": peripherals.spice.enabled = true but addr is empty; please set peripherals.spice.addr",
        );
        return Err(ChalybsError::Qemu(m));
    }
    let ghost a0 = views(args@);
    push_lit(args, "-device");
    push_lit(args, "virtio-serial-pci,id=virtio-serial0,max_ports=16,bus=pcie.0,addr=0x10");
    push_lit(args, "-chardev");
    push_lit(args, "spicevmc,name=vdagent,id=vdagent");
    push_lit(args, "-device");
    push_lit(
        args,
        "virtserialport,nr=1,bus=virtio-serial0.0,chardev=vdagent,name=com.redhat.spice.0",
    );
    push_lit(args, "-spice");
    let mut m = lit("port=");
    m.append(u64_to_dec(s.port as u64).as_str());
    m.append(",addr=");
    m.append(string_of(addr.as_slice()).as_str());
    m.append(",disable-ticketing=on");
    push_arg(args, m);
    assert(views(args@) =~= a0 + spice_args(vm_name@, *o)->Ok_0);
    Ok(())
}

/// A QEMU invocation.
#[derive(Debug)]
pub struct QemuCommand {
    pub binary: String,
    pub args: Vec<String>,
    pub qmp_path: String,
}

pub open spec fn lg_cfg(cfg: VmConfig) -> Option<LookingGlassConfig> {
    match cfg.peripherals {
        Some(p) => p.looking_glass,
        None => None,
    }
}

pub open spec fn spice_cfg(cfg: VmConfig) -> Option<SpiceConfig> {
    match cfg.peripherals {
        Some(p) => p.spice,
        None => None,
    }
}

/// The whole argument list, or the first configuration error met.
pub open spec fn qemu_args_spec(
    vm: Seq<char>,
    cfg: VmConfig,
    cpu: Seq<char>,
    hugepages_active: bool,
) -> core::result::Result<Seq<Seq<char>>, Seq<char>> {
    let q = cfg.qemu;
    let head = tokens(q.pre_args) + core_args(q, cpu, hugepages_active) + machine_args(q, qmp_path(vm))
        + rtc_args(q) + smbios_args(q.smbios);
    match rootport::vfio_device_args(vm, cfg) {
        Err(e) => Err(e),
        Ok(dev) => match spice_args(vm, spice_cfg(cfg)) {
            Err(e) => Err(e),
            Ok(sp) => Ok(
                head + dev + looking_glass_args(lg_cfg(cfg)) + sp + split_ws(q.args@) + tokens(
                    q.post_args,
                ),
            ),
        },
    }
}

/// The error a failed command build reports.
pub open spec fn build_error_is(r: ChalybsError, vm: Seq<char>, cfg: VmConfig, m: Seq<char>) -> bool {
    match rootport::vfio_device_args(vm, cfg) {
        Err(_) => r matches ChalybsError::Config(x) && x@ == m,
        Ok(_) => r matches ChalybsError::Qemu(x) && x@ == m,
    }
}

/// Build the QEMU command of VM `vm_name` given its `-cpu` value and
/// whether hugepages back its memory.
pub fn build_qemu_command_with(
    vm_name: &str,
    cfg: &VmConfig,
    cpu: String,
    hugepages_active: bool,
) -> (r: Result<QemuCommand>)
    ensures
        match qemu_args_spec(vm_name@, *cfg, cpu@, hugepages_active) {
            Ok(a) => r matches Ok(c) && c.binary@ == cfg.qemu.binary@ && c.qmp_path@ == qmp_path(
                vm_name@,
            ) && views(c.args@) == a,
            Err(m) => r matches Err(e) && build_error_is(e, vm_name@, *cfg, m),
        },
{
    let q = &cfg.qemu;
    let qmp = qmp_path_for_vm(vm_name);
    let mut args: Vec<String> = Vec::new();
    assert(views(args@) =~= Seq::<Seq<char>>::empty());
    push_opt_tokens(&mut args, &q.pre_args);
    push_core_args(&mut args, q, cpu, hugepages_active);
    push_machine_args(&mut args, q, &qmp);
    apply_rtc_args(&mut args, q);
    apply_smbios_args(&mut args, q);
    let ghost head = views(args@);
    match rootport::add_vfio_pci_devices(&mut args, vm_name, cfg) {
        Ok(()) => {},
        Err(e) => return Err(e),
    }
    let ghost with_dev = views(args@);
    let lg = match &cfg.peripherals {
        Some(p) => &p.looking_glass,
        None => &None,
    };
    apply_looking_glass(&mut args, lg);
    let sp = match &cfg.peripherals {
        Some(p) => &p.spice,
        None => &None,
    };
    match apply_spice(&mut args, vm_name, sp) {
        Ok(()) => {},
        Err(e) => return Err(e),
    }
    push_tokens(&mut args, q.args.as_str());
    push_opt_tokens(&mut args, &q.post_args);
    proof {
        let dev = rootport::vfio_device_args(vm_name@, *cfg)->Ok_0;
        assert(with_dev == head + dev);
    }
    Ok(QemuCommand { binary: copy_string(&q.binary), args, qmp_path: qmp })
}

/// The outcome of building the command with `-cpu` value `cpu`.
pub open spec fn command_ok(
    r: Result<QemuCommand>,
    vm: Seq<char>,
    cfg: VmConfig,
    cpu: Seq<char>,
    hugepages_active: bool,
) -> bool {
    match qemu_args_spec(vm, cfg, cpu, hugepages_active) {
        Ok(a) => r matches Ok(c) && c.binary@ == cfg.qemu.binary@ && c.qmp_path@ == qmp_path(vm)
            && views(c.args@) == a,
        Err(m) => r matches Err(e) && build_error_is(e, vm, cfg, m),
    }
}

/// Build the QEMU command of a VM, autodetecting the CPU model when the
/// configuration asks for it.
pub fn build_qemu_command(vm_name: &str, cfg: &VmConfig, hugepages_active: bool) -> (r: Result<
    QemuCommand,
>)
    ensures
        exists|d: Option<Seq<char>>|
            #![trigger cpu_arg_spec(cfg.qemu, d)]
            (!wants_autodetect(cfg.qemu) ==> d is None) && command_ok(
                r,
                vm_name@,
                *cfg,
                cpu_arg_spec(cfg.qemu, d),
                hugepages_active,
            ),
{
    let detected = detect_if_auto(&cfg.qemu);
    let ghost d = opt_view(detected);
    let cpu = cpu_arg_from(&cfg.qemu, detected);
    let r = build_qemu_command_with(vm_name, cfg, cpu, hugepages_active);
    assert(command_ok(r, vm_name@, *cfg, cpu_arg_spec(cfg.qemu, d), hugepages_active));
    r
}

/// The paths a launch needs, checked before anything happens: the QEMU
/// binary, then the OVMF code and vars images.
pub fn preflight(q: &QemuConfig, binary_exists: bool, code_exists: bool, vars_exists: bool) -> (r:
    Result<()>)
    ensures
        !binary_exists ==> (r matches Err(ChalybsError::Qemu(m)) && m@ == "QEMU binary not found: "@
            + q.binary@),
        binary_exists && !code_exists ==> (r matches Err(ChalybsError::Qemu(m)) && m@
            == "OVMF code not found: "@ + q.ovmf_code@),
        binary_exists && code_exists && !vars_exists ==> (r matches Err(ChalybsError::Qemu(m)) && m@
            == "OVMF vars not found: "@ + q.ovmf_vars@),
        binary_exists && code_exists && vars_exists ==> r is Ok,
{
    if !binary_exists {
        let mut m = lit("QEMU binary not found: ");
        m.append(q.binary.as_str());
        return Err(ChalybsError::Qemu(m));
    }
    if !code_exists {
        let mut m = lit("OVMF code not found: ");
        m.append(q.ovmf_code.as_str());
        return Err(ChalybsError::Qemu(m));
    }
    if !vars_exists {
        let mut m = lit("OVMF vars not found: ");
        m.append(q.ovmf_vars.as_str());
        return Err(ChalybsError::Qemu(m));
    }
    Ok(())
}

} // verus!
