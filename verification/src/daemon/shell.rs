//! The daemon's shell: commands typed in a client, answered with events
//! and turned into VM intents.
//!
//! Commands: `help` (or `h`, `?`), `vm list`, `vm status <name>`,
//! `vm start <name>`, `vm restart <name>`, `vm stop <name>`.
use vstd::prelude::*;
use crate::config::{RootConfig, VmConfig};
use crate::daemon::ipc::{IpcEvent, IpcEventKind, IpcVmState};
use crate::daemon::status::{
    config_error_text, daemon_vm_layout, ipc_state_of, isolation_mode_name, isolation_name,
    map_vm_state_to_ipc,
};
use crate::fmt::{dec, join, join_strings, u64_to_dec, views};
use crate::model::VmCpuLayout;
use crate::sorted::{lex_sorted, sort_strings};
use crate::state::VmState;
use crate::text::{chars_eq, chars_of, copy_string, lit, seqs_of, split_ws, split_ws_exec, string_of};
use crate::util::cpu_list;

verus! {

/// A VM the daemon holds a state machine for.
#[derive(Debug, Clone)]
pub struct DaemonVmView {
    pub name: String,
    pub state: VmState,
    pub desired: IpcVmState,
}

/// What a command asks of the daemon's VM registry.
#[derive(Debug)]
pub enum ShellEffect {
    Nothing,
    /// Set the VM's desired state to Starting, first creating a fresh state
    /// machine with this layout when one is given.
    Start { name: String, fresh: Option<VmCpuLayout> },
    /// Set the VM's desired state to ShuttingDown.
    Stop { name: String },
}

/// The events a command produces and what it asks of the registry.
#[derive(Debug)]
pub struct ShellReply {
    pub events: Vec<IpcEvent>,
    pub effect: ShellEffect,
}

pub open spec fn events_view(v: Seq<IpcEvent>) -> Seq<(IpcEventKind, Seq<char>)> {
    v.map_values(|e: IpcEvent| (e.kind, e.message@))
}

/// The first configured VM called `name`.
pub open spec fn cfg_index(v: Seq<(String, VmConfig)>, name: Seq<char>) -> Option<int>
    decreases v.len(),
{
    if v.len() == 0 {
        None
    } else if v[0].0@ == name {
        Some(0)
    } else {
        match cfg_index(v.drop_first(), name) {
            Some(i) => Some(i + 1),
            None => None,
        }
    }
}

/// The first registered VM called `name`.
pub open spec fn entry_index(v: Seq<DaemonVmView>, name: Seq<char>) -> Option<int>
    decreases v.len(),
{
    if v.len() == 0 {
        None
    } else if v[0].name@ == name {
        Some(0)
    } else {
        match entry_index(v.drop_first(), name) {
            Some(i) => Some(i + 1),
            None => None,
        }
    }
}

pub open spec fn ipc_state_name(s: IpcVmState) -> Seq<char> {
    match s {
        IpcVmState::Stopped => "Stopped"@,
        IpcVmState::Starting => "Starting"@,
        IpcVmState::Running => "Running"@,
        IpcVmState::ShuttingDown => "ShuttingDown"@,
    }
}

pub open spec fn bool_text(b: bool) -> Seq<char> {
    if b {
        "true"@
    } else {
        "false"@
    }
}

pub open spec fn list_len<T>(o: Option<Vec<T>>) -> nat {
    match o {
        Some(v) => v@.len(),
        None => 0,
    }
}

pub open spec fn help_text() -> Seq<char> {
    "available commands: help | vm list | vm status <name> | vm start <name> | vm stop <name> | vm restart <name>"@
}

pub open spec fn help_note() -> Seq<char> {
    "note: VM lifecycle is now driven by real state machines; starts/stops will affect actual VMs"@
}

pub open spec fn not_found(name: Seq<char>) -> Seq<char> {
    "vm "@ + name + ": not found in configuration"@
}

pub open spec fn one(k: IpcEventKind, m: Seq<char>) -> Seq<(IpcEventKind, Seq<char>)> {
    seq![(k, m)]
}

/// The status lines for configured VM `name` given its registry entry.
pub open spec fn status_lines(name: Seq<char>, vm: VmConfig, entry: Option<DaemonVmView>) -> Seq<
    (IpcEventKind, Seq<char>),
> {
    let (view, desired) = match entry {
        Some(e) => (ipc_state_of(e.state), e.desired),
        None => (IpcVmState::Stopped, IpcVmState::Stopped),
    };
    seq![
        (
            IpcEventKind::Info,
            "vm "@ + name + ": state="@ + ipc_state_name(view) + ", desired="@ + ipc_state_name(
                desired,
            ) + ", isolation="@ + isolation_name(vm.isolation.mode) + ", hugepages="@ + bool_text(
                vm.qemu.hugepages,
            ),
        ),
        (
            IpcEventKind::Info,
            "vm "@ + name + ": devices gpu="@ + dec(list_len(vm.devices.gpu)) + ", nvme="@ + dec(
                list_len(vm.devices.nvme),
            ) + ", nic="@ + dec(list_len(vm.devices.nic)) + ", usb="@ + dec(
                list_len(vm.devices.usb),
            ),
        ),
    ]
}

/// The reply to `vm <args>`.
pub open spec fn vm_reply_ok(
    cfg: Option<RootConfig>,
    vms: Seq<DaemonVmView>,
    args: Seq<Seq<char>>,
    r: ShellReply,
) -> bool {
    let ev = events_view(r.events@);
    if args.len() == 0 {
        ev == one(IpcEventKind::Error, "usage: vm <list|status|start|stop|restart> [name]"@)
            && r.effect is Nothing
    } else if cfg is None {
        ev == one(IpcEventKind::Error, "daemon: no config loaded; vm commands are unavailable"@)
            && r.effect is Nothing
    } else {
        let c = cfg->0;
        let sub = args[0];
        &&& (sub == "list"@ ==> {
            &&& r.effect is Nothing
            &&& if c.vm@.len() == 0 {
                ev == one(IpcEventKind::Info, "daemon: no VMs defined in configuration"@)
            } else {
                exists|names: Seq<Seq<char>>|
                    #![trigger lex_sorted(names)]
                    lex_sorted(names) && names.to_multiset() == c.vm@.map_values(
                        |p: (String, VmConfig)| p.0@,
                    ).to_multiset() && ev == one(
                        IpcEventKind::Info,
                        "daemon: configured VMs: "@ + join(names, ", "@),
                    )
            }
        })
        &&& (sub == "status"@ ==> {
            &&& r.effect is Nothing
            &&& if args.len() < 2 {
                ev == one(IpcEventKind::Error, "usage: vm status <name>"@)
            } else {
                match cfg_index(c.vm@, args[1]) {
                    None => ev == one(IpcEventKind::Error, not_found(args[1])),
                    Some(i) => ev == status_lines(
                        args[1],
                        c.vm@[i].1,
                        match entry_index(vms, args[1]) {
                            Some(j) => Some(vms[j]),
                            None => None,
                        },
                    ),
                }
            }
        })
        &&& (sub == "start"@ || sub == "restart"@ ==> if args.len() < 2 {
            ev == one(IpcEventKind::Error, "usage: vm "@ + sub + " <name>"@) && r.effect is Nothing
        } else {
            let name = args[1];
            match cfg_index(c.vm@, name) {
                None => ev == one(IpcEventKind::Error, not_found(name)) && r.effect is Nothing,
                Some(i) => {
                    let vm = c.vm@[i].1;
                    let fresh = match entry_index(vms, name) {
                        None => true,
                        Some(j) => vms[j].state == VmState::Idle,
                    };
                    let hosts = cpu_list(vm.cpu.host_cpus@);
                    let guests = cpu_list(vm.cpu.vm_cpus@);
                    if fresh && hosts is Err {
                        ev == one(
                            IpcEventKind::Error,
                            "vm "@ + name + ": failed to parse host_cpus=\""@ + vm.cpu.host_cpus@
                                + "\" for runtime construction: "@ + config_error_text(
                                vm.cpu.host_cpus@,
                            ),
                        ) && r.effect is Nothing
                    } else if fresh && guests is Err {
                        ev == one(
                            IpcEventKind::Error,
                            "vm "@ + name + ": failed to parse vm_cpus=\""@ + vm.cpu.vm_cpus@
                                + "\" for runtime construction: "@ + config_error_text(
                                vm.cpu.vm_cpus@,
                            ),
                        ) && r.effect is Nothing
                    } else {
                        &&& ev == one(
                            IpcEventKind::System,
                            "vm "@ + name + ": `"@ + sub
                                + "` requested; desired state set to Starting"@,
                        )
                        &&& r.effect matches ShellEffect::Start { name: n, fresh: f }
                        &&& n@ == name
                        &&& (fresh <==> f is Some)
                        &&& (f matches Some(l) ==> l.host.cpus@ == hosts->Ok_0 && l.vm.cpus@
                            == guests->Ok_0)
                    }
                },
            }
        })
        &&& (sub == "stop"@ ==> if args.len() < 2 {
            ev == one(IpcEventKind::Error, "usage: vm stop <name>"@) && r.effect is Nothing
        } else {
            let name = args[1];
            if cfg_index(c.vm@, name) is None {
                ev == one(IpcEventKind::Error, not_found(name)) && r.effect is Nothing
            } else if entry_index(vms, name) is Some {
                ev == one(
                    IpcEventKind::System,
                    "vm "@ + name + ": `stop` requested; desired state set to ShuttingDown"@,
                ) && (r.effect matches ShellEffect::Stop { name: n } && n@ == name)
            } else {
                ev == one(
                    IpcEventKind::Info,
                    "vm "@ + name
                        + ": stop requested but VM has no active state machine; ignoring"@,
                ) && r.effect is Nothing
            }
        })
        &&& (sub != "list"@ && sub != "status"@ && sub != "start"@ && sub != "restart"@ && sub
            != "stop"@ ==> ev == one(
            IpcEventKind::Error,
            "daemon: unknown vm subcommand `"@ + sub
                + "` (expected list|status|start|stop|restart)"@,
        ) && r.effect is Nothing)
    }
}

/// The reply to a whole command line.
pub open spec fn shell_reply_ok(
    cfg: Option<RootConfig>,
    vms: Seq<DaemonVmView>,
    command: Seq<char>,
    r: ShellReply,
) -> bool {
    let parts = split_ws(command);
    if parts.len() == 0 {
        r.events@.len() == 0 && r.effect is Nothing
    } else if parts[0] == "help"@ || parts[0] == "h"@ || parts[0] == "?"@ {
        events_view(r.events@) == seq![
            (IpcEventKind::Info, help_text()),
            (IpcEventKind::Info, help_note()),
        ] && r.effect is Nothing
    } else if parts[0] == "vm"@ {
        vm_reply_ok(cfg, vms, parts.skip(1), r)
    } else {
        events_view(r.events@) == one(
            IpcEventKind::Error,
            "daemon: unknown command `"@ + parts[0] + "` (try `help`)"@,
        ) && r.effect is Nothing
    }
}

fn reply1(kind: IpcEventKind, m: String) -> (r: ShellReply)
    ensures
        events_view(r.events@) == one(kind, m@),
        r.effect is Nothing,
{
    let mut v: Vec<IpcEvent> = Vec::new();
    v.push(IpcEvent { kind, message: m });
    assert(events_view(v@) =~= one(kind, m@));
    ShellReply { events: v, effect: ShellEffect::Nothing }
}

fn is_word(w: &Vec<char>, s: &str) -> (r: bool)
    ensures
        r == (w@ == s@),
{
    let sv = chars_of(s);
    chars_eq(w.as_slice(), sv.as_slice())
}

proof fn lemma_cfg_index(v: Seq<(String, VmConfig)>, name: Seq<char>, i: int)
    requires
        0 <= i <= v.len(),
        forall|k: int| 0 <= k < i ==> (#[trigger] v[k]).0@ != name,
    ensures
        i < v.len() && v[i].0@ == name ==> cfg_index(v, name) == Some(i),
        i == v.len() ==> cfg_index(v, name) is None,
    decreases i,
{
    if i > 0 {
        let t = v.drop_first();
        assert forall|k: int| 0 <= k < i - 1 implies (#[trigger] t[k]).0@ != name by {
            assert(t[k] == v[k + 1]);
        }
        lemma_cfg_index(t, name, i - 1);
        assert(v[0].0@ != name);
    }
}

proof fn lemma_entry_index(v: Seq<DaemonVmView>, name: Seq<char>, i: int)
    requires
        0 <= i <= v.len(),
        forall|k: int| 0 <= k < i ==> (#[trigger] v[k]).name@ != name,
    ensures
        i < v.len() && v[i].name@ == name ==> entry_index(v, name) == Some(i),
        i == v.len() ==> entry_index(v, name) is None,
    decreases i,
{
    if i > 0 {
        let t = v.drop_first();
        assert forall|k: int| 0 <= k < i - 1 implies (#[trigger] t[k]).name@ != name by {
            assert(t[k] == v[k + 1]);
        }
        lemma_entry_index(t, name, i - 1);
        assert(v[0].name@ != name);
    }
}

fn find_cfg(v: &Vec<(String, VmConfig)>, name: &Vec<char>) -> (r: Option<usize>)
    ensures
        match r {
            Some(i) => i < v@.len() && cfg_index(v@, name@) == Some(i as int),
            None => cfg_index(v@, name@) is None,
        },
{
    let mut i: usize = 0;
    while i < v.len()
        invariant
            i <= v@.len(),
            forall|k: int| 0 <= k < i ==> (#[trigger] v@[k]).0@ != name@,
        decreases v@.len() - i,
    {
        let kc = chars_of(v[i].0.as_str());
        if chars_eq(kc.as_slice(), name.as_slice()) {
            proof {
                lemma_cfg_index(v@, name@, i as int);
            }
            return Some(i);
        }
        i = i + 1;
    }
    proof {
        lemma_cfg_index(v@, name@, i as int);
    }
    None
}

fn find_entry(v: &Vec<DaemonVmView>, name: &Vec<char>) -> (r: Option<usize>)
    ensures
        match r {
            Some(i) => i < v@.len() && entry_index(v@, name@) == Some(i as int),
            None => entry_index(v@, name@) is None,
        },
{
    let mut i: usize = 0;
    while i < v.len()
        invariant
            i <= v@.len(),
            forall|k: int| 0 <= k < i ==> (#[trigger] v@[k]).name@ != name@,
        decreases v@.len() - i,
    {
        let kc = chars_of(v[i].name.as_str());
        if chars_eq(kc.as_slice(), name.as_slice()) {
            proof {
                lemma_entry_index(v@, name@, i as int);
            }
            return Some(i);
        }
        i = i + 1;
    }
    proof {
        lemma_entry_index(v@, name@, i as int);
    }
    None
}

fn ipc_state_text(s: IpcVmState) -> (r: &'static str)
    ensures
        r@ == ipc_state_name(s),
{
    match s {
        IpcVmState::Stopped => "Stopped",
        IpcVmState::Starting => "Starting",
        IpcVmState::Running => "Running",
        IpcVmState::ShuttingDown => "ShuttingDown",
    }
}

fn count_of<T>(o: &Option<Vec<T>>) -> (r: usize)
    ensures
        r == list_len(*o),
{
    match o {
        Some(v) => v.len(),
        None => 0,
    }
}

fn vm_list(c: &RootConfig) -> (r: ShellReply)
    ensures
        r.effect is Nothing,
        c.vm@.len() == 0 ==> events_view(r.events@) == one(
            IpcEventKind::Info,
            "daemon: no VMs defined in configuration"@,
        ),
        c.vm@.len() > 0 ==> exists|names: Seq<Seq<char>>|
            #![trigger lex_sorted(names)]
            lex_sorted(names) && names.to_multiset() == c.vm@.map_values(
                |p: (String, VmConfig)| p.0@,
            ).to_multiset() && events_view(r.events@) == one(
                IpcEventKind::Info,
                "daemon: configured VMs: "@ + join(names, ", "@),
            ),
{
    if c.vm.len() == 0 {
        return reply1(IpcEventKind::Info, lit("daemon: no VMs defined in configuration"));
    }
    let mut names: Vec<String> = Vec::new();
    let mut i: usize = 0;
    while i < c.vm.len()
        invariant
            i <= c.vm@.len(),
            views(names@) == c.vm@.take(i as int).map_values(|p: (String, VmConfig)| p.0@),
        decreases c.vm@.len() - i,
    {
        let n = copy_string(&c.vm[i].0);
        let ghost before = names@;
        names.push(n);
        assert(views(names@) =~= views(before).push(n@));
        assert(c.vm@.take(i + 1).map_values(|p: (String, VmConfig)| p.0@) =~= c.vm@.take(
            i as int,
        ).map_values(|p: (String, VmConfig)| p.0@).push(c.vm@[i as int].0@));
        i = i + 1;
    }
    assert(c.vm@.take(c.vm@.len() as int) =~= c.vm@);
    let sorted = sort_strings(&names);
    let mut m = lit("daemon: configured VMs: ");
    m.append(join_strings(&sorted, ", ").as_str());
    let r = reply1(IpcEventKind::Info, m);
    assert(lex_sorted(views(sorted@)));
    r
}

fn vm_status_reply(c: &RootConfig, vms: &Vec<DaemonVmView>, i: usize, name: &Vec<char>) -> (r:
    ShellReply)
    requires
        i < c.vm@.len(),
    ensures
        r.effect is Nothing,
        events_view(r.events@) == status_lines(
            name@,
            c.vm@[i as int].1,
            match entry_index(vms@, name@) {
                Some(j) => Some(vms@[j]),
                None => None,
            },
        ),
{
    let vm = &c.vm[i].1;
    let nm = string_of(name.as_slice());
    let (view, desired) = match find_entry(vms, name) {
        Some(j) => (map_vm_state_to_ipc(vms[j].state), vms[j].desired),
        None => (IpcVmState::Stopped, IpcVmState::Stopped),
    };
    let mut m1 = lit("vm ");
    m1.append(nm.as_str());
    m1.append(": state=");
    m1.append(ipc_state_text(view));
    m1.append(", desired=");
    m1.append(ipc_state_text(desired));
    m1.append(", isolation=");
    m1.append(isolation_mode_name(vm.isolation.mode));
    m1.append(", hugepages=");
    m1.append(
        if vm.qemu.hugepages {
            "true"
        } else {
            "false"
        },
    );
    let mut m2 = lit("vm ");
    m2.append(nm.as_str());
    m2.append(": devices gpu=");
    m2.append(u64_to_dec(count_of(&vm.devices.gpu) as u64).as_str());
    m2.append(", nvme=");
    m2.append(u64_to_dec(count_of(&vm.devices.nvme) as u64).as_str());
    m2.append(", nic=");
    m2.append(u64_to_dec(count_of(&vm.devices.nic) as u64).as_str());
    m2.append(", usb=");
    m2.append(u64_to_dec(count_of(&vm.devices.usb) as u64).as_str());
    let mut v: Vec<IpcEvent> = Vec::new();
    v.push(IpcEvent { kind: IpcEventKind::Info, message: m1 });
    v.push(IpcEvent { kind: IpcEventKind::Info, message: m2 });
    let ghost lines = status_lines(
        name@,
        c.vm@[i as int].1,
        match entry_index(vms@, name@) {
            Some(j) => Some(vms@[j]),
            None => None,
        },
    );
    assert(events_view(v@) =~= lines);
    ShellReply { events: v, effect: ShellEffect::Nothing }
}

fn vm_start_reply(
    c: &RootConfig,
    vms: &Vec<DaemonVmView>,
    sub: &Vec<char>,
    name: &Vec<char>,
) -> (r: ShellReply)
    ensures
        match cfg_index(c.vm@, name@) {
            None => events_view(r.events@) == one(IpcEventKind::Error, not_found(name@))
                && r.effect is Nothing,
            Some(i) => {
                let vm = c.vm@[i].1;
                let fresh = match entry_index(vms@, name@) {
                    None => true,
                    Some(j) => vms@[j].state == VmState::Idle,
                };
                let hosts = cpu_list(vm.cpu.host_cpus@);
                let guests = cpu_list(vm.cpu.vm_cpus@);
                if fresh && hosts is Err {
                    events_view(r.events@) == one(
                        IpcEventKind::Error,
                        "vm "@ + name@ + ": failed to parse host_cpus=\""@ + vm.cpu.host_cpus@
                            + "\" for runtime construction: "@ + config_error_text(
                            vm.cpu.host_cpus@,
                        ),
                    ) && r.effect is Nothing
                } else if fresh && guests is Err {
                    events_view(r.events@) == one(
                        IpcEventKind::Error,
                        "vm "@ + name@ + ": failed to parse vm_cpus=\""@ + vm.cpu.vm_cpus@
                            + "\" for runtime construction: "@ + config_error_text(
                            vm.cpu.vm_cpus@,
                        ),
                    ) && r.effect is Nothing
                } else {
                    &&& events_view(r.events@) == one(
                        IpcEventKind::System,
                        "vm "@ + name@ + ": `"@ + sub@
                            + "` requested; desired state set to Starting"@,
                    )
                    &&& r.effect matches ShellEffect::Start { name: n, fresh: f }
                    &&& n@ == name@
                    &&& (fresh <==> f is Some)
                    &&& (f matches Some(l) ==> l.host.cpus@ == hosts->Ok_0 && l.vm.cpus@
                        == guests->Ok_0)
                }
            },
        },
{
    let nm = string_of(name.as_slice());
    let i = match find_cfg(&c.vm, name) {
        Some(i) => i,
        None => {
            let mut m = lit("vm ");
            m.append(nm.as_str());
            m.append(": not found in configuration");
            return reply1(IpcEventKind::Error, m);
        },
    };
    let fresh = match find_entry(vms, name) {
        None => true,
        Some(j) => vms[j].state == VmState::Idle,
    };
    let layout = if fresh {
        match daemon_vm_layout(nm.as_str(), &c.vm[i].1) {
            Ok(l) => Some(l),
            Err(m) => return reply1(IpcEventKind::Error, m),
        }
    } else {
        None
    };
    let mut m = lit("vm ");
    m.append(nm.as_str());
    m.append(": `");
    m.append(string_of(sub.as_slice()).as_str());
    m.append("` requested; desired state set to Starting");
    let r = reply1(IpcEventKind::System, m);
    ShellReply { events: r.events, effect: ShellEffect::Start { name: nm, fresh: layout } }
}

fn vm_stop_reply(c: &RootConfig, vms: &Vec<DaemonVmView>, name: &Vec<char>) -> (r: ShellReply)
    ensures
        if cfg_index(c.vm@, name@) is None {
            events_view(r.events@) == one(IpcEventKind::Error, not_found(name@))
                && r.effect is Nothing
        } else if entry_index(vms@, name@) is Some {
            events_view(r.events@) == one(
                IpcEventKind::System,
                "vm "@ + name@ + ": `stop` requested; desired state set to ShuttingDown"@,
            ) && (r.effect matches ShellEffect::Stop { name: n } && n@ == name@)
        } else {
            events_view(r.events@) == one(
                IpcEventKind::Info,
                "vm "@ + name@ + ": stop requested but VM has no active state machine; ignoring"@,
            ) && r.effect is Nothing
        },
{
    let nm = string_of(name.as_slice());
    let mut m = lit("vm ");
    m.append(nm.as_str());
    if find_cfg(&c.vm, name).is_none() {
        m.append(": not found in configuration");
        return reply1(IpcEventKind::Error, m);
    }
    match find_entry(vms, name) {
        Some(_) => {
            m.append(": `stop` requested; desired state set to ShuttingDown");
            let r = reply1(IpcEventKind::System, m);
            ShellReply { events: r.events, effect: ShellEffect::Stop { name: nm } }
        },
        None => {
            m.append(": stop requested but VM has no active state machine; ignoring");
            reply1(IpcEventKind::Info, m)
        },
    }
}

/// Answer `vm <args>`.
pub fn handle_vm_command(cfg: &Option<RootConfig>, vms: &Vec<DaemonVmView>, args: &[Vec<char>]) -> (r:
    ShellReply)
    ensures
        vm_reply_ok(*cfg, vms@, seqs_of(args@), r),
{
    let ghost a = seqs_of(args@);
    if args.len() == 0 {
        return reply1(
            IpcEventKind::Error,
            lit("usage: vm <list|status|start|stop|restart> [name]"),
        );
    }
    let c = match cfg {
        Some(c) => c,
        None => {
            return reply1(
                IpcEventKind::Error,
                lit("daemon: no config loaded; vm commands are unavailable"),
            );
        },
    };
    let sub = &args[0];
    assert(a[0] == sub@);
    proof {
        reveal_strlit("list");
        reveal_strlit("status");
        reveal_strlit("start");
        reveal_strlit("restart");
        reveal_strlit("stop");
    }
    if is_word(sub, "list") {
        let r = vm_list(c);
        assert("list"@[0] != "stop"@[0]);
        assert(sub@ != "stop"@);
        r
    } else if is_word(sub, "status") {
        if args.len() < 2 {
            let r = reply1(IpcEventKind::Error, lit("usage: vm status <name>"));
            assert(vm_reply_ok(*cfg, vms@, a, r));
            return r;
        }
        assert(a[1] == args@[1]@);
        match find_cfg(&c.vm, &args[1]) {
            None => {
                let mut m = lit("vm ");
                m.append(string_of(args[1].as_slice()).as_str());
                m.append(": not found in configuration");
                let r = reply1(IpcEventKind::Error, m);
                assert(vm_reply_ok(*cfg, vms@, a, r));
                r
            },
            Some(i) => {
                let r = vm_status_reply(c, vms, i, &args[1]);
                assert(vm_reply_ok(*cfg, vms@, a, r));
                r
            },
        }
    } else if is_word(sub, "start") || is_word(sub, "restart") {
        if args.len() < 2 {
            let mut m = lit("usage: vm ");
            m.append(string_of(sub.as_slice()).as_str());
            m.append(" <name>");
            return reply1(IpcEventKind::Error, m);
        }
        assert(a[1] == args@[1]@);
        vm_start_reply(c, vms, sub, &args[1])
    } else if is_word(sub, "stop") {
        if args.len() < 2 {
            return reply1(IpcEventKind::Error, lit("usage: vm stop <name>"));
        }
        assert(a[1] == args@[1]@);
        vm_stop_reply(c, vms, &args[1])
    } else {
        let mut m = lit("daemon: unknown vm subcommand `");
        m.append(string_of(sub.as_slice()).as_str());
        m.append("` (expected list|status|start|stop|restart)");
        reply1(IpcEventKind::Error, m)
    }
}

/// Answer one shell command line.
pub fn handle_shell_command(cfg: &Option<RootConfig>, vms: &Vec<DaemonVmView>, command: &str) -> (r:
    ShellReply)
    ensures
        shell_reply_ok(*cfg, vms@, command@, r),
{
    let cv = chars_of(command);
    let parts = split_ws_exec(cv.as_slice());
    let ghost p = seqs_of(parts@);
    if parts.len() == 0 {
        return ShellReply { events: Vec::new(), effect: ShellEffect::Nothing };
    }
    assert(p[0] == parts@[0]@);
    proof {
        reveal_strlit("help");
        reveal_strlit("h");
        reveal_strlit("?");
        reveal_strlit("vm");
    }
    if is_word(&parts[0], "help") || is_word(&parts[0], "h") || is_word(&parts[0], "?") {
        let mut v: Vec<IpcEvent> = Vec::new();
        v.push(
            IpcEvent {
                kind: IpcEventKind::Info,
                message: lit(
                    "available commands: help | vm list | vm status <name> | vm start <name> | vm stop <name> | vm restart <name>",
                ),
            },
        );
        v.push(
            IpcEvent {
                kind: IpcEventKind::Info,
                message: lit(
                    "note: VM lifecycle is now driven by real state machines; starts/stops will affect actual VMs",
                ),
            },
        );
        assert(events_view(v@) =~= seq![
            (IpcEventKind::Info, help_text()),
            (IpcEventKind::Info, help_note()),
        ]);
        ShellReply { events: v, effect: ShellEffect::Nothing }
    } else if is_word(&parts[0], "vm") {
        let rest = vstd::slice::slice_subrange(parts.as_slice(), 1, parts.len());
        assert(seqs_of(rest@) =~= p.skip(1));
        handle_vm_command(cfg, vms, rest)
    } else {
        let mut m = lit("daemon: unknown command `");
        m.append(string_of(parts[0].as_slice()).as_str());
        m.append("` (try `help`)");
        reply1(IpcEventKind::Error, m)
    }
}

} // verus!
