//! Types exchanged between the daemon and its clients.
//!
//! They form a newline-delimited JSON protocol over a Unix socket; the
//! application holds serialisable copies and converts.
use vstd::prelude::*;
use crate::text::{chars_of, seqs_of, split_on, split_on_exec, string_of, trim, trim_chars};

verus! {

/// VM state as clients see it.
#[derive(Debug, Clone, Copy, PartialEq, Eq, Structural)]
pub enum IpcVmState {
    Stopped,
    Starting,
    Running,
    ShuttingDown,
}

/// Host and VM CPU lists of a VM, from its configuration.
#[derive(Debug, Clone)]
pub struct IpcVmCpuLayout {
    pub host: Vec<u32>,
    pub vm: Vec<u32>,
}

/// Hugepage backing of a VM.
#[derive(Debug, Clone, Copy, PartialEq, Eq, Structural)]
pub struct IpcVmHugepages {
    /// Hugepages currently back the VM.
    pub active: bool,
    /// NUMA node the pages were taken from.
    pub node: Option<u16>,
    /// Number of 2 MiB pages.
    pub pages: u64,
    pub bytes: u64,
}

/// Raw per-vCPU usage: `vcpu_jiffies[i]` is utime+stime of vCPU
/// `vcpu_indices[i]`, sorted by index. Clients difference samples.
#[derive(Debug, Clone)]
pub struct IpcVmCpuSample {
    pub vcpu_indices: Vec<u32>,
    pub vcpu_jiffies: Vec<u64>,
}

/// A VM as clients see it.
#[derive(Debug, Clone)]
pub struct IpcVmStatus {
    pub name: String,
    pub state: IpcVmState,
    pub cpu_pinned: bool,
    pub irq_pinned: bool,
    pub tasmota_on: bool,
    pub isolation_mode: String,
    /// Hugepages requested in the configuration.
    pub hugepages: bool,
    pub cpu_layout: IpcVmCpuLayout,
    pub hugepages_detail: IpcVmHugepages,
    /// Present while the VM runs and its vCPU threads are known.
    pub cpu_sample: Option<IpcVmCpuSample>,
}

#[derive(Debug, Clone, Copy, PartialEq, Eq, Structural)]
pub enum IpcEventKind {
    Info,
    Warning,
    Error,
    Shell,
    System,
}

/// One line of the daemon's event stream.
#[derive(Debug, Clone)]
pub struct IpcEvent {
    pub kind: IpcEventKind,
    pub message: String,
}

/// New events of one VM.
#[derive(Debug, Clone)]
pub struct IpcVmEvents {
    pub vm_name: String,
    pub events: Vec<IpcEvent>,
}

/// The message envelope on the wire.
#[derive(Debug, Clone)]
pub enum IpcMessage {
    /// Client to daemon: a shell command typed by the user.
    ShellCommand { command: String },
    /// Daemon to client: VM statuses with global and per-VM events.
    Snapshot { vms: Vec<IpcVmStatus>, events_global: Vec<IpcEvent>, events_vm: Vec<IpcVmEvents> },
}

/// An event's kind and text.
pub open spec fn event_is(e: IpcEvent, kind: IpcEventKind, text: Seq<char>) -> bool {
    e.kind == kind && e.message@ == text
}

/// The complete lines of a receive buffer, trimmed, empty ones left out,
/// in order.
pub open spec fn frame_lines(parts: Seq<Seq<char>>) -> Seq<Seq<char>>
    decreases parts.len(),
{
    if parts.len() == 0 {
        Seq::empty()
    } else {
        let p = frame_lines(parts.drop_last());
        if trim(parts.last()).len() == 0 {
            p
        } else {
            p.push(trim(parts.last()))
        }
    }
}

/// Split a receive buffer at newlines: the messages it completes (each
/// line trimmed, empty lines skipped) and the unfinished rest.
pub fn take_frames(buf: &str) -> (r: (Vec<String>, String))
    ensures
        ({
            let parts = split_on(buf@, '\n');
            &&& r.1@ == parts.last()
            &&& r.0@.map_values(|s: String| s@) == frame_lines(parts.drop_last())
        }),
{
    let v = chars_of(buf);
    let parts = split_on_exec(v.as_slice(), '\n');
    let ghost ps = seqs_of(parts@);
    proof {
        crate::text::lemma_split_on_nonempty(buf@, '\n');
    }
    let n = parts.len() - 1;
    let mut out: Vec<String> = Vec::new();
    let mut i: usize = 0;
    while i < n
        invariant
            n + 1 == parts@.len(),
            i <= n,
            ps == seqs_of(parts@),
            ps == split_on(buf@, '\n'),
            out@.map_values(|s: String| s@) == frame_lines(ps.take(i as int)),
        decreases n - i,
    {
        assert(ps.take(i + 1).drop_last() =~= ps.take(i as int));
        assert(ps.take(i + 1).last() == parts@[i as int]@);
        let t = trim_chars(parts[i].as_slice());
        if t.len() > 0 {
            let ghost before = out@;
            out.push(string_of(t.as_slice()));
            assert(out@.map_values(|s: String| s@) =~= before.map_values(|s: String| s@).push(t@));
        }
        i = i + 1;
    }
    assert(ps.take(n as int) =~= ps.drop_last());
    assert(ps.last() == parts@[n as int]@);
    (out, string_of(parts[n].as_slice()))
}

} // verus!
