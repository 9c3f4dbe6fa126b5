//! What the daemon reports about its VMs each tick, and how it moves each
//! VM towards the state its user asked for.
use vstd::prelude::*;
use crate::config::{IsolationMode, VmConfig};
use crate::daemon::ipc::{
    IpcEvent, IpcEventKind, IpcVmCpuLayout, IpcVmCpuSample, IpcVmEvents, IpcVmHugepages,
    IpcVmState, IpcVmStatus,
};
use crate::error::ChalybsError;
use crate::fmt::{dec, u64_to_dec};
use crate::model::{CoreEvent, CoreEventKind, CpuSet, VmCpuLayout};
use crate::state::VmState;
use crate::text::{copy_string, lit};
use crate::util::{cpu_list, parse_cpu_list};

verus! {

/// The coarse client-side state of a lifecycle state.
pub open spec fn ipc_state_of(s: VmState) -> IpcVmState {
    match s {
        VmState::Steady => IpcVmState::Running,
        VmState::Shutdown | VmState::Cleanup => IpcVmState::ShuttingDown,
        VmState::Idle => IpcVmState::Stopped,
        _ => IpcVmState::Starting,
    }
}

/// Map a lifecycle state to the state clients see.
pub fn map_vm_state_to_ipc(state: VmState) -> (r: IpcVmState)
    ensures
        r == ipc_state_of(state),
{
    match state {
        VmState::Steady => IpcVmState::Running,
        VmState::Shutdown | VmState::Cleanup => IpcVmState::ShuttingDown,
        VmState::Idle => IpcVmState::Stopped,
        _ => IpcVmState::Starting,
    }
}

/// What the daemon does for one VM on one tick.
#[derive(Debug, Clone, Copy, PartialEq, Eq, Structural)]
pub enum DriveAction {
    /// Take one bring-up step; on failure record
    /// `bring_up_error_text` and set the desired state to Stopped.
    BringUpStep,
    /// Take one shutdown step; on failure record `shutdown_error_text`.
    ShutdownStep,
    /// Bring-up is complete: set the desired state to Running.
    MarkRunning,
    /// Nothing this tick.
    Wait,
}

/// Wanting the VM up, bring-up proceeds through the bring-up states;
/// Steady turns the wish into Running; on the shutdown path and in Idle the
/// VM waits. Wanting it down, shutdown proceeds until Idle.
pub open spec fn drive_spec(desired: IpcVmState, s: VmState) -> DriveAction {
    match desired {
        IpcVmState::Running | IpcVmState::Starting => match s {
            VmState::Steady => DriveAction::MarkRunning,
            VmState::Shutdown | VmState::Cleanup | VmState::Idle => DriveAction::Wait,
            _ => DriveAction::BringUpStep,
        },
        IpcVmState::Stopped | IpcVmState::ShuttingDown => match s {
            VmState::Idle => DriveAction::Wait,
            _ => DriveAction::ShutdownStep,
        },
    }
}

pub fn drive_action(desired: IpcVmState, state: VmState) -> (r: DriveAction)
    ensures
        r == drive_spec(desired, state),
{
    match desired {
        IpcVmState::Running | IpcVmState::Starting => match state {
            VmState::Steady => DriveAction::MarkRunning,
            VmState::Shutdown | VmState::Cleanup | VmState::Idle => DriveAction::Wait,
            _ => DriveAction::BringUpStep,
        },
        IpcVmState::Stopped | IpcVmState::ShuttingDown => match state {
            VmState::Idle => DriveAction::Wait,
            _ => DriveAction::ShutdownStep,
        },
    }
}

/// The event text for a failed bring-up step.
pub fn bring_up_error_text(e: &ChalybsError) -> (r: String)
    ensures
        r@ == "vm state machine bring-up error: "@ + e.prefix() + e.detail(),
{
    let mut m = lit("vm state machine bring-up error: ");
    m.append(e.message().as_str());
    m
}

/// The event text for a failed shutdown step.
pub fn shutdown_error_text(e: &ChalybsError) -> (r: String)
    ensures
        r@ == "vm state machine shutdown error: "@ + e.prefix() + e.detail(),
{
    let mut m = lit("vm state machine shutdown error: ");
    m.append(e.message().as_str());
    m
}

/// The isolation mode's name in lower case.
pub open spec fn isolation_name(m: IsolationMode) -> Seq<char> {
    match m {
        IsolationMode::Disabled => "disabled"@,
        IsolationMode::Audit => "audit"@,
        IsolationMode::Enforce => "enforce"@,
    }
}

pub fn isolation_mode_name(m: IsolationMode) -> (r: &'static str)
    ensures
        r@ == isolation_name(m),
{
    match m {
        IsolationMode::Disabled => "disabled",
        IsolationMode::Audit => "audit",
        IsolationMode::Enforce => "enforce",
    }
}

/// A CPU list from the configuration, or nothing when it does not parse.
pub open spec fn cpus_or_empty(s: Seq<char>) -> Seq<u32> {
    match cpu_list(s) {
        Ok(c) => c,
        Err(_) => Seq::empty(),
    }
}

fn cpus_or_empty_exec(s: &String) -> (r: Vec<u32>)
    ensures
        r@ == cpus_or_empty(s@),
{
    match parse_cpu_list(s.as_str()) {
        Ok(v) => v,
        Err(_) => Vec::new(),
    }
}

/// What the daemon knows of a VM that has a state machine.
#[derive(Debug, Clone)]
pub struct RuntimeView {
    /// The lifecycle state after this tick's step.
    pub state: VmState,
    pub pinned_threads: bool,
    pub pinned_irqs: bool,
    /// The relay was last switched on.
    pub tasmota_powered: bool,
    pub hugepages: IpcVmHugepages,
    /// A fresh vCPU usage sample, if one could be taken.
    pub cpu_sample: Option<IpcVmCpuSample>,
}

/// The status reported for VM `name`: layout and hugepage flag from the
/// configuration; the rest from its state machine when it has one. A
/// stopped VM reports no pinning and the relay off; only a running VM
/// carries a usage sample; the relay counts as on only when configured.
pub open spec fn status_matches(
    r: IpcVmStatus,
    name: Seq<char>,
    cfg: VmConfig,
    rt: Option<RuntimeView>,
) -> bool {
    &&& r.name@ == name
    &&& r.isolation_mode@ == isolation_name(cfg.isolation.mode)
    &&& r.hugepages == cfg.qemu.hugepages
    &&& r.cpu_layout.host@ == cpus_or_empty(cfg.cpu.host_cpus@)
    &&& r.cpu_layout.vm@ == cpus_or_empty(cfg.cpu.vm_cpus@)
    &&& match rt {
        None => {
            &&& r.state == IpcVmState::Stopped
            &&& !r.cpu_pinned && !r.irq_pinned && !r.tasmota_on
            &&& r.hugepages_detail == (IpcVmHugepages { active: false, node: None, pages: 0, bytes: 0 })
            &&& r.cpu_sample is None
        },
        Some(v) => {
            let st = ipc_state_of(v.state);
            let stopped = st == IpcVmState::Stopped;
            let tasmota_cfg = cfg.peripherals matches Some(p) && p.tasmota is Some;
            &&& r.state == st
            &&& r.cpu_pinned == (v.pinned_threads && !stopped)
            &&& r.irq_pinned == (v.pinned_irqs && !stopped)
            &&& r.tasmota_on == (tasmota_cfg && v.tasmota_powered && !stopped)
            &&& r.hugepages_detail == v.hugepages
            &&& if st == IpcVmState::Running {
                match v.cpu_sample {
                    Some(s) => r.cpu_sample matches Some(x) && x.vcpu_indices@
                        == s.vcpu_indices@ && x.vcpu_jiffies@ == s.vcpu_jiffies@,
                    None => r.cpu_sample is None,
                }
            } else {
                r.cpu_sample is None
            }
        },
    }
}

/// Build the status of one configured VM.
pub fn vm_status(name: &String, cfg: &VmConfig, rt: Option<RuntimeView>) -> (r: IpcVmStatus)
    ensures
        status_matches(r, name@, *cfg, rt),
{
    let cpu_layout = IpcVmCpuLayout {
        host: cpus_or_empty_exec(&cfg.cpu.host_cpus),
        vm: cpus_or_empty_exec(&cfg.cpu.vm_cpus),
    };
    let isolation_mode = lit(isolation_mode_name(cfg.isolation.mode));
    match rt {
        None => IpcVmStatus {
            name: copy_string(name),
            state: IpcVmState::Stopped,
            cpu_pinned: false,
            irq_pinned: false,
            tasmota_on: false,
            isolation_mode,
            hugepages: cfg.qemu.hugepages,
            cpu_layout,
            hugepages_detail: IpcVmHugepages { active: false, node: None, pages: 0, bytes: 0 },
            cpu_sample: None,
        },
        Some(v) => {
            let st = map_vm_state_to_ipc(v.state);
            let stopped = st == IpcVmState::Stopped;
            let tasmota_cfg = match &cfg.peripherals {
                Some(p) => p.tasmota.is_some(),
                None => false,
            };
            let cpu_sample = if st == IpcVmState::Running {
                v.cpu_sample
            } else {
                None
            };
            IpcVmStatus {
                name: copy_string(name),
                state: st,
                cpu_pinned: v.pinned_threads && !stopped,
                irq_pinned: v.pinned_irqs && !stopped,
                tasmota_on: tasmota_cfg && v.tasmota_powered && !stopped,
                isolation_mode,
                hugepages: cfg.qemu.hugepages,
                cpu_layout,
                hugepages_detail: v.hugepages,
                cpu_sample,
            }
        },
    }
}

/// The heartbeat every 40 ticks.
pub fn heartbeat_event(tick: u64) -> (r: Option<IpcEvent>)
    ensures
        tick % 40 == 0 <==> r is Some,
        r matches Some(e) ==> e.kind == IpcEventKind::Info && e.message@ == "daemon heartbeat: tick="@
            + dec(tick as nat),
{
    if tick % 40 == 0 {
        let mut m = lit("daemon heartbeat: tick=");
        m.append(u64_to_dec(tick).as_str());
        Some(IpcEvent { kind: IpcEventKind::Info, message: m })
    } else {
        None
    }
}

pub open spec fn ipc_kind_of(k: CoreEventKind) -> IpcEventKind {
    match k {
        CoreEventKind::Info => IpcEventKind::Info,
        CoreEventKind::Warning => IpcEventKind::Warning,
        CoreEventKind::Error => IpcEventKind::Error,
        CoreEventKind::System => IpcEventKind::System,
    }
}

/// The VM events recorded since `cursor`, as one batch for `name`, and the
/// new cursor. With nothing new there is no batch and the cursor stays.
pub fn new_vm_events(name: &String, events: &Vec<CoreEvent>, cursor: usize) -> (r: (
    Option<IpcVmEvents>,
    usize,
))
    ensures
        events@.len() <= cursor ==> r.0 is None && r.1 == cursor,
        events@.len() > cursor ==> r.1 == events@.len() && (r.0 matches Some(b) && b.vm_name@
            == name@ && b.events@.len() == events@.len() - cursor && forall|i: int|
            0 <= i < b.events@.len() ==> #[trigger] b.events@[i].kind == ipc_kind_of(
                events@[cursor + i].kind,
            ) && b.events@[i].message@ == events@[cursor + i].message@),
{
    if events.len() <= cursor {
        return (None, cursor);
    }
    let mut out: Vec<IpcEvent> = Vec::new();
    let mut i: usize = cursor;
    while i < events.len()
        invariant
            cursor <= i <= events@.len(),
            out@.len() == i - cursor,
            forall|k: int|
                0 <= k < out@.len() ==> #[trigger] out@[k].kind == ipc_kind_of(
                    events@[cursor + k].kind,
                ) && out@[k].message@ == events@[cursor + k].message@,
        decreases events@.len() - i,
    {
        let kind = match events[i].kind {
            CoreEventKind::Info => IpcEventKind::Info,
            CoreEventKind::Warning => IpcEventKind::Warning,
            CoreEventKind::Error => IpcEventKind::Error,
            CoreEventKind::System => IpcEventKind::System,
        };
        out.push(IpcEvent { kind, message: copy_string(&events[i].message) });
        i = i + 1;
    }
    (Some(IpcVmEvents { vm_name: copy_string(name), events: out }), events.len())
}

/// The text of `parse_cpu_list`'s error as displayed.
pub open spec fn config_error_text(s: Seq<char>) -> Seq<char> {
    match cpu_list(s) {
        Ok(_) => Seq::empty(),
        Err(m) => "configuration error: "@ + m,
    }
}

/// The CPU layout of a VM about to get a state machine, or why its CPU
/// lists do not parse.
pub fn daemon_vm_layout(vm_name: &str, cfg: &VmConfig) -> (r: core::result::Result<
    VmCpuLayout,
    String,
>)
    ensures
        match (cpu_list(cfg.cpu.host_cpus@), cpu_list(cfg.cpu.vm_cpus@)) {
            (Ok(h), Ok(v)) => r matches Ok(l) && l.host.cpus@ == h && l.vm.cpus@ == v,
            (Err(_), _) => r matches Err(m) && m@ == "vm "@ + vm_name@ + ": failed to parse host_cpus=\""@
                + cfg.cpu.host_cpus@ + "\" for runtime construction: "@ + config_error_text(
                cfg.cpu.host_cpus@,
            ),
            (Ok(_), Err(_)) => r matches Err(m) && m@ == "vm "@ + vm_name@
                + ": failed to parse vm_cpus=\""@ + cfg.cpu.vm_cpus@
                + "\" for runtime construction: "@ + config_error_text(cfg.cpu.vm_cpus@),
        },
{
    let host = match parse_cpu_list(cfg.cpu.host_cpus.as_str()) {
        Ok(h) => h,
        Err(e) => {
            let mut m = lit("vm ");
            m.append(vm_name);
            m.append(": failed to parse host_cpus=\"");
            m.append(cfg.cpu.host_cpus.as_str());
            m.append("\" for runtime construction: ");
            m.append(e.message().as_str());
            return Err(m);
        },
    };
    let vm = match parse_cpu_list(cfg.cpu.vm_cpus.as_str()) {
        Ok(v) => v,
        Err(e) => {
            let mut m = lit("vm ");
            m.append(vm_name);
            m.append(": failed to parse vm_cpus=\"");
            m.append(cfg.cpu.vm_cpus.as_str());
            m.append("\" for runtime construction: ");
            m.append(e.message().as_str());
            return Err(m);
        },
    };
    Ok(VmCpuLayout { host: CpuSet { cpus: host }, vm: CpuSet { cpus: vm } })
}


/// The first position at or after `i` whose index exceeds `k` (the length
/// when there is none).
pub open spec fn first_after(s: Seq<(u32, u64)>, k: u32, i: int) -> int
    decreases s.len() - i,
{
    if i < 0 || i >= s.len() {
        s.len() as int
    } else if s[i].0 > k {
        i
    } else {
        first_after(s, k, i + 1)
    }
}

/// `pairs` sorted by vCPU index, equal indices kept in their order
/// (`sort_by_key`, a stable sort): each pair in turn goes after every
/// pair already placed whose index is not larger.
pub open spec fn sort_by_index(pairs: Seq<(u32, u64)>) -> Seq<(u32, u64)>
    decreases pairs.len(),
{
    if pairs.len() == 0 {
        Seq::empty()
    } else {
        let s = sort_by_index(pairs.drop_last());
        let x = pairs.last();
        s.insert(first_after(s, x.0, 0), x)
    }
}

proof fn lemma_first_after(s: Seq<(u32, u64)>, k: u32, i: int)
    requires
        0 <= i <= s.len(),
        forall|j: int| 0 <= j < i ==> (#[trigger] s[j]).0 <= k,
    ensures
        first_after(s, k, 0) == first_after(s, k, i),
    decreases i,
{
    if i > 0 {
        lemma_first_after(s, k, i - 1);
    }
}

/// The usage sample from (vCPU index, jiffies) pairs of a running QEMU's
/// vCPU threads: sorted by index (stable), or nothing without pairs.
pub fn cpu_sample_from_pairs(pairs: &Vec<(u32, u64)>) -> (r: Option<IpcVmCpuSample>)
    ensures
        pairs@.len() == 0 ==> r is None,
        pairs@.len() > 0 ==> (r matches Some(s) && s.vcpu_indices@ == sort_by_index(pairs@).map_values(
            |p: (u32, u64)| p.0,
        ) && s.vcpu_jiffies@ == sort_by_index(pairs@).map_values(|p: (u32, u64)| p.1)),
{
    if pairs.len() == 0 {
        return None;
    }
    let mut out: Vec<(u32, u64)> = Vec::new();
    let mut i: usize = 0;
    while i < pairs.len()
        invariant
            i <= pairs@.len(),
            out@ == sort_by_index(pairs@.take(i as int)),
        decreases pairs@.len() - i,
    {
        let x = pairs[i];
        let mut p: usize = 0;
        while p < out.len() && out[p].0 <= x.0
            invariant
                p <= out@.len(),
                forall|j: int| 0 <= j < p ==> (#[trigger] out@[j]).0 <= x.0,
            decreases out@.len() - p,
        {
            p = p + 1;
        }
        proof {
            lemma_first_after(out@, x.0, p as int);
            assert(pairs@.take(i + 1).drop_last() =~= pairs@.take(i as int));
            assert(pairs@.take(i + 1).last() == x);
        }
        out.insert(p, x);
        i = i + 1;
    }
    assert(pairs@.take(pairs@.len() as int) =~= pairs@);
    let mut idx: Vec<u32> = Vec::new();
    let mut jif: Vec<u64> = Vec::new();
    let mut k: usize = 0;
    while k < out.len()
        invariant
            k <= out@.len(),
            idx@ == out@.take(k as int).map_values(|p: (u32, u64)| p.0),
            jif@ == out@.take(k as int).map_values(|p: (u32, u64)| p.1),
        decreases out@.len() - k,
    {
        idx.push(out[k].0);
        jif.push(out[k].1);
        assert(out@.take(k + 1).map_values(|p: (u32, u64)| p.0) =~= out@.take(k as int).map_values(
            |p: (u32, u64)| p.0,
        ).push(out@[k as int].0));
        assert(out@.take(k + 1).map_values(|p: (u32, u64)| p.1) =~= out@.take(k as int).map_values(
            |p: (u32, u64)| p.1,
        ).push(out@[k as int].1));
        k = k + 1;
    }
    assert(out@.take(out@.len() as int) =~= out@);
    Some(IpcVmCpuSample { vcpu_indices: idx, vcpu_jiffies: jif })
}

} // verus!
