//! 2 MiB hugepage backing for VM memory.
//!
//! Provisioning picks a NUMA node (configuration first, else the node that
//! shares most CPUs with the VM's host CPUs), computes the pages the VM's
//! memory needs, and makes sure the node's free pool covers them: when it
//! does not, up to three rounds of cache dropping, compaction and raising
//! the node's pool follow. The application reads and writes sysfs and
//! procfs; this module decides.
use vstd::prelude::*;
use crate::config::VmConfig;
use crate::error::{ChalybsError, Result};
use crate::fmt::{
    dec, parse_err_message, parse_err_text, parse_full, parse_unsigned, parse_unsigned_exec,
    parse_unsigned_full, u64_to_dec,
};
use crate::text::{chars_eq, chars_of, lit, seqs_of, slice_chars, split_on, split_on_exec, split_ws, split_ws_exec, starts_with, starts_with_exec, trim, trim_str};
use crate::util::{cpu_list, parse_cpu_list};

verus! {

pub const HUGEPAGE_SIZE_BYTES: u64 = 2097152;

/// Rounds of compaction and pool raising before giving up.
pub const MAX_ATTEMPTS: u8 = 3;

/// Where hugetlbfs is mounted.
pub open spec fn mount_point() -> Seq<char> {
    "/dev/hugepages"@
}

/// The sysfs directory of a node's 2 MiB pages.
pub open spec fn node_dir(node: u16) -> Seq<char> {
    "/sys/devices/system/node/node"@ + dec(node as nat) + "/hugepages/hugepages-2048kB"@
}

pub fn node_hugepages_dir(node: u16) -> (r: String)
    ensures
        r@ == node_dir(node),
{
    let mut r = lit("/sys/devices/system/node/node");
    r.append(u64_to_dec(node as u64).as_str());
    r.append("/hugepages/hugepages-2048kB");
    r
}

/// A counter file's value: its trimmed text as a `u64`, or the error that
/// names the counter and the file.
pub fn parse_counter(raw: &str, label: &str, path: &str) -> (r: Result<u64>)
    ensures
        match parse_full(trim(raw@), 10, u64::MAX as nat) {
            Ok(n) => r == Ok::<u64, ChalybsError>(n as u64),
            Err(e) => r matches Err(ChalybsError::Other(m)) && m@ == "hugepages: failed to parse "@
                + label@ + " from "@ + path@ + ": "@ + parse_err_text(e),
        },
{
    let t = trim_str(raw);
    match parse_unsigned_full(t.as_slice(), 10, u64::MAX) {
        Ok(n) => Ok(n),
        Err(e) => {
            let mut m = lit("hugepages: failed to parse ");
            m.append(label);
            m.append(" from ");
            m.append(path);
            m.append(": ");
            m.append(parse_err_message(e).as_str());
            Err(ChalybsError::Other(m))
        },
    }
}

/// Whether `/proc/mounts` text shows something mounted on
/// `/dev/hugepages`: a line whose second field is that path.
pub open spec fn mounted(text: Seq<char>) -> bool {
    exists|i: int|
        0 <= i < split_on(text, '\n').len() && {
            let f = split_ws(#[trigger] split_on(text, '\n')[i]);
            f.len() >= 2 && f[1] == mount_point()
        }
}

pub fn is_hugetlbfs_mounted(mounts: &str) -> (r: bool)
    ensures
        r == mounted(mounts@),
{
    let lines = split_on_exec(chars_of(mounts).as_slice(), '\n');
    let mp = chars_of("/dev/hugepages");
    let mut i: usize = 0;
    while i < lines.len()
        invariant
            i <= lines@.len(),
            seqs_of(lines@) == split_on(mounts@, '\n'),
            mp@ == mount_point(),
            forall|k: int|
                0 <= k < i ==> {
                    let f = split_ws(#[trigger] split_on(mounts@, '\n')[k]);
                    !(f.len() >= 2 && f[1] == mount_point())
                },
        decreases lines@.len() - i,
    {
        assert(split_on(mounts@, '\n')[i as int] == lines@[i as int]@);
        let f = split_ws_exec(lines[i].as_slice());
        if f.len() >= 2 {
            assert(seqs_of(f@)[1] == f@[1]@);
            if chars_eq(f[1].as_slice(), mp.as_slice()) {
                return true;
            }
        }
        i = i + 1;
    }
    false
}

/// Pages needed for `mem_mb` MiB: the bytes divided by the page size,
/// rounded up.
pub open spec fn pages_for(mem_mb: u64) -> int {
    (mem_mb * 1048576 + HUGEPAGE_SIZE_BYTES - 1) / (HUGEPAGE_SIZE_BYTES as int)
}

pub fn required_pages(mem_mb: u64) -> (r: u64)
    requires
        mem_mb * 1048576 + HUGEPAGE_SIZE_BYTES <= u64::MAX,
    ensures
        r == pages_for(mem_mb),
        r * HUGEPAGE_SIZE_BYTES <= u64::MAX,
{
    let mem_bytes = mem_mb * 1024 * 1024;
    let r = (mem_bytes + HUGEPAGE_SIZE_BYTES - 1) / HUGEPAGE_SIZE_BYTES;
    assert(r * HUGEPAGE_SIZE_BYTES <= mem_bytes + HUGEPAGE_SIZE_BYTES - 1) by (nonlinear_arith)
        requires
            r == (mem_bytes + HUGEPAGE_SIZE_BYTES - 1) / (HUGEPAGE_SIZE_BYTES as int),
            HUGEPAGE_SIZE_BYTES > 0,
    ;
    r
}

/// `pages` 2 MiB pages in GiB with one decimal, as `{:.1}` prints the
/// exact value `pages / 512`: rounded to the nearest tenth, halves to
/// even.
pub open spec fn gib_tenths(pages: nat) -> nat {
    let q = (pages * 5) / 256;
    let r = (pages * 5) % 256;
    if r > 128 || (r == 128 && q % 2 == 1) {
        q + 1
    } else {
        q
    }
}

pub open spec fn gib_text(pages: nat) -> Seq<char> {
    dec(gib_tenths(pages) / 10) + "."@ + dec(gib_tenths(pages) % 10)
}

pub fn gib_string(pages: u64) -> (r: String)
    requires
        pages * 5 + 256 <= u64::MAX,
    ensures
        r@ == gib_text(pages as nat),
{
    let q = (pages * 5) / 256;
    let rem = (pages * 5) % 256;
    let t = if rem > 128 || (rem == 128 && q % 2 == 1) {
        q + 1
    } else {
        q
    };
    let mut s = u64_to_dec(t / 10);
    s.append(".");
    s.append(u64_to_dec(t % 10).as_str());
    s
}

// ---------------------------------------------------------------------------
// Node selection
// ---------------------------------------------------------------------------

/// How many of the host CPUs (counted as listed) a node holds.
pub open spec fn overlap(host: Seq<u32>, node: Seq<u32>) -> nat {
    host.filter(|c: u32| node.contains(c)).len()
}

/// A `/sys/devices/system/node` entry as a candidate: "node<N>" with a
/// CPU list that parses.
pub open spec fn candidate(name: Seq<char>, cpulist: Option<Seq<char>>) -> Option<(u16, Seq<u32>)> {
    if starts_with(name, "node"@) {
        match (parse_unsigned(name.skip(4), 10, 65535), cpulist) {
            (Some(id), Some(c)) => match cpu_list(trim(c)) {
                Ok(cpus) => Some((id as u16, cpus)),
                Err(_) => None,
            },
            _ => None,
        }
    } else {
        None
    }
}

/// The first entry with the largest non-zero overlap, scanning in order:
/// (node, overlap).
pub open spec fn best_node(host: Seq<u32>, entries: Seq<(Seq<char>, Option<Seq<char>>)>) -> (Option<u16>, nat)
    decreases entries.len(),
{
    if entries.len() == 0 {
        (None, 0)
    } else {
        let (b, o) = best_node(host, entries.drop_last());
        match candidate(entries.last().0, entries.last().1) {
            Some((id, cpus)) => if overlap(host, cpus) > o {
                (Some(id), overlap(host, cpus))
            } else {
                (b, o)
            },
            None => (b, o),
        }
    }
}

/// A node entry's share of the host CPUs (none for other entries).
pub open spec fn entry_overlap(host: Seq<u32>, e: (Seq<char>, Option<Seq<char>>)) -> nat {
    match candidate(e.0, e.1) {
        Some(c) => overlap(host, c.1),
        None => 0,
    }
}

/// A node entry's node number.
pub open spec fn entry_node(e: (Seq<char>, Option<Seq<char>>)) -> Option<u16> {
    match candidate(e.0, e.1) {
        Some(c) => Some(c.0),
        None => None,
    }
}

/// The chosen node is where the VM's CPUs live: it is one of the node
/// entries, it holds at least one of the host CPUs, and no node entry
/// holds more of them. No node is chosen only when no node entry holds
/// any.
pub proof fn lemma_best_node_is_local(host: Seq<u32>, entries: Seq<(Seq<char>, Option<Seq<char>>)>)
    ensures
        forall|i: int| 0 <= i < entries.len() ==> #[trigger] entry_overlap(host, entries[i]) <= best_node(host, entries).1,
        best_node(host, entries).0 is None ==> best_node(host, entries).1 == 0,
        best_node(host, entries).0 is Some ==> best_node(host, entries).1 > 0 && exists|i: int|
            0 <= i < entries.len() && #[trigger] entry_node(entries[i]) == best_node(host, entries).0
                && entry_overlap(host, entries[i]) == best_node(host, entries).1,
    decreases entries.len(),
{
    if entries.len() > 0 {
        let prefix = entries.drop_last();
        lemma_best_node_is_local(host, prefix);
        let last = entries.len() - 1;
        assert(entries[last] == entries.last());
        assert forall|i: int| 0 <= i < last implies #[trigger] entries[i] == prefix[i] by {}
        if best_node(host, prefix).0 is Some {
            let i = choose|i: int|
                0 <= i < prefix.len() && #[trigger] entry_node(prefix[i]) == best_node(host, prefix).0
                    && entry_overlap(host, prefix[i]) == best_node(host, prefix).1;
            assert(entries[i] == prefix[i]);
            assert(entry_node(entries[i]) == best_node(host, prefix).0);
        }
        assert(entry_node(entries[last]) == entry_node(entries.last()));
        assert forall|i: int| 0 <= i < entries.len() implies #[trigger] entry_overlap(host, entries[i])
            <= best_node(host, entries).1 by {
            if i < last {
                assert(entries[i] == prefix[i]);
                assert(entry_overlap(host, prefix[i]) <= best_node(host, prefix).1);
            }
        }
    }
}

pub open spec fn entry_views(v: Seq<(String, Option<String>)>) -> Seq<(Seq<char>, Option<Seq<char>>)> {
    v.map_values(
        |e: (String, Option<String>)|
            (
                e.0@,
                match e.1 {
                    Some(s) => Some(s@),
                    None => None,
                },
            ),
    )
}

/// The NUMA node for the VM's hugepages from its configuration alone.
pub open spec fn configured_node(cfg: VmConfig) -> Option<u16> {
    match cfg.numa {
        Some(n) => match n.hugepage_node {
            Some(h) => Some(h),
            None => n.node,
        },
        None => None,
    }
}

fn count_overlap(host: &Vec<u32>, node: &Vec<u32>) -> (r: usize)
    ensures
        r == overlap(host@, node@),
{
    let mut n: usize = 0;
    let mut i: usize = 0;
    while i < host.len()
        invariant
            i <= host@.len(),
            n == overlap(host@.take(i as int), node@),
            n <= i,
        decreases host@.len() - i,
    {
        let c = host[i];
        let mut found = false;
        let mut j: usize = 0;
        while j < node.len()
            invariant
                j <= node@.len(),
                found <==> exists|k: int| 0 <= k < j && node@[k] == c,
            decreases node@.len() - j,
        {
            if node[j] == c {
                found = true;
            }
            j = j + 1;
        }
        proof {
            assert(host@.take(i + 1) =~= host@.take(i as int).push(c));
            host@.take(i as int).lemma_filter_push(c, |x: u32| node@.contains(x));
            assert(found == node@.contains(c));
        }
        if found {
            n = n + 1;
        }
        i = i + 1;
    }
    assert(host@.take(host@.len() as int) =~= host@);
    n
}

/// Choose the NUMA node for the VM's hugepages: `numa.hugepage_node`,
/// else `numa.node`, else the node listing most of the host CPUs among
/// the entries of `/sys/devices/system/node` (name, CPU list text or
/// `None` when unreadable), in the order the directory gave them.
pub fn select_hugepage_node(cfg: &VmConfig, entries: &Vec<(String, Option<String>)>) -> (r: Result<u16>)
    ensures
        match configured_node(*cfg) {
            Some(n) => r == Ok::<u16, ChalybsError>(n),
            None => match cpu_list(trim(cfg.cpu.host_cpus@)) {
                Err(e) => r matches Err(ChalybsError::Other(m)) && m@
                    == "hugepages: failed to parse host CPU list '"@ + cfg.cpu.host_cpus@ + "' for NUMA detection: "@
                    + "configuration error: "@ + e,
                Ok(host) => match best_node(host, entry_views(entries@)).0 {
                    Some(n) => r == Ok::<u16, ChalybsError>(n),
                    None => r matches Err(ChalybsError::Other(m)) && m@
                        == "hugepages: failed to determine NUMA node (no overlap between host CPUs and NUMA nodes)"@,
                },
            },
        },
{
    match &cfg.numa {
        Some(n) => {
            match n.hugepage_node {
                Some(h) => return Ok(h),
                None => {},
            }
            match n.node {
                Some(h) => return Ok(h),
                None => {},
            }
        },
        None => {},
    }
    let ht = trim_str(cfg.cpu.host_cpus.as_str());
    let hts = crate::text::string_of(ht.as_slice());
    let host = match parse_cpu_list(hts.as_str()) {
        Ok(h) => h,
        Err(e) => {
            let mut m = lit("hugepages: failed to parse host CPU list '");
            m.append(cfg.cpu.host_cpus.as_str());
            m.append("' for NUMA detection: ");
            m.append(e.message().as_str());
            return Err(ChalybsError::Other(m));
        },
    };
    let ghost ev = entry_views(entries@);
    let node_prefix = chars_of("node");
    let mut best: Option<u16> = None;
    let mut best_overlap: usize = 0;
    let mut i: usize = 0;
    proof {
        reveal_strlit("node");
    }
    while i < entries.len()
        invariant
            i <= entries@.len(),
            ev == entry_views(entries@),
            node_prefix@ == "node"@,
            node_prefix@.len() == 4,
            host@ == cpu_list(trim(cfg.cpu.host_cpus@))->Ok_0,
            (best, best_overlap as nat) == best_node(host@, ev.take(i as int)),
        decreases entries@.len() - i,
    {
        assert(ev.take(i + 1).drop_last() =~= ev.take(i as int));
        let name = chars_of(entries[i].0.as_str());
        let ghost e = ev[i as int];
        assert(ev.take(i + 1).last() == e);
        assert(e.0 == name@);
        if starts_with_exec(name.as_slice(), node_prefix.as_slice()) {
            assert(name@.len() >= 4);
            let rest = slice_chars(name.as_slice(), 4, name.len());
            assert(rest@ =~= name@.skip(4));
            match parse_unsigned_exec(rest.as_slice(), 10, 65535) {
                Some(id) => {
                    match &entries[i].1 {
                        Some(text) => {
                            let t = trim_str(text.as_str());
                            let ts = crate::text::string_of(t.as_slice());
                            match parse_cpu_list(ts.as_str()) {
                                Ok(cpus) => {
                                    let ov = count_overlap(&host, &cpus);
                                    if ov > best_overlap {
                                        best_overlap = ov;
                                        best = Some(id as u16);
                                    }
                                },
                                Err(_) => {},
                            }
                        },
                        None => {},
                    }
                },
                None => {},
            }
        }
        i = i + 1;
    }
    assert(ev.take(entries@.len() as int) =~= ev);
    match best {
        Some(n) => Ok(n),
        None => Err(
            ChalybsError::Other(
                lit(
                    "hugepages: failed to determine NUMA node (no overlap between host CPUs and NUMA nodes)",
                ),
            ),
        ),
    }
}

// ---------------------------------------------------------------------------
// Provisioning
// ---------------------------------------------------------------------------

/// The I/O the provisioning asks for next. Compaction and the pool
/// write are each followed by reading the counters.
#[derive(Debug, Clone, Copy, PartialEq, Eq, Structural)]
pub enum HugepageIo {
    /// Read the node's (nr_hugepages, free_hugepages).
    ReadCounters,
    /// Drop the page cache and compact memory (failures only logged).
    DropCachesAndCompact,
    /// Write the node's nr_hugepages.
    WriteNr(u64),
}

/// Where the provisioning stands.
#[derive(Debug, Clone, Copy, PartialEq, Eq, Structural)]
pub enum HugepageStage {
    /// Waiting for the first counters.
    Initial,
    /// In round `attempt`, waiting for the counters after compaction.
    AfterCompaction,
    /// In round `attempt`, waiting for the counters after the pool raise
    /// (or after deciding none was needed).
    Verify,
}

/// The provisioning of one VM's pages on one node.
#[derive(Debug, Clone, Copy, PartialEq, Eq, Structural)]
pub struct Provisioner {
    pub node: u16,
    pub pages: u64,
    pub attempt: u8,
    pub stage: HugepageStage,
}

/// What to do after a step.
#[derive(Debug)]
pub enum ProvisionStep {
    Io(HugepageIo),
    /// Enough free pages: the VM uses `pages` pages on the node; the
    /// event text says so.
    Done(String),
    Failed(ChalybsError),
}

pub open spec fn success_text(pages: u64, node: u16, vm: Seq<char>, attempt: u8) -> Seq<char> {
    if attempt == 0 {
        "hugepages: using existing "@ + dec(pages as nat) + " x 2MiB pages ("@ + gib_text(
            pages as nat,
        ) + " GiB) on NUMA node "@ + dec(node as nat) + " for VM "@ + vm
    } else {
        "hugepages: provisioned "@ + dec(pages as nat) + " x 2MiB pages ("@ + gib_text(pages as nat)
            + " GiB) on NUMA node "@ + dec(node as nat) + " for VM "@ + vm + " after "@ + dec(
            attempt as nat,
        ) + " attempt(s)"@
    }
}

pub open spec fn failure_text(node: u16, pages: u64, nr: u64, free: u64) -> Seq<char> {
    "hugepages: insufficient 2MiB hugepages on NUMA node "@ + dec(node as nat)
        + " after compaction/raise attempts: required "@ + dec(pages as nat) + ", nr_hugepages="@
        + dec(nr as nat) + ", free_hugepages="@ + dec(free as nat)
        + ". Consider increasing large-page capacity or reducing VM RAM."@
}

fn success_message(pages: u64, node: u16, vm: &str, attempt: u8) -> (r: String)
    requires
        pages * 5 + 256 <= u64::MAX,
    ensures
        r@ == success_text(pages, node, vm@, attempt),
{
    let mut m = if attempt == 0 {
        lit("hugepages: using existing ")
    } else {
        lit("hugepages: provisioned ")
    };
    m.append(u64_to_dec(pages).as_str());
    m.append(" x 2MiB pages (");
    m.append(gib_string(pages).as_str());
    m.append(" GiB) on NUMA node ");
    m.append(u64_to_dec(node as u64).as_str());
    m.append(" for VM ");
    m.append(vm);
    if attempt != 0 {
        m.append(" after ");
        m.append(u64_to_dec(attempt as u64).as_str());
        m.append(" attempt(s)");
    }
    m
}

/// How much provisioning work can remain: two units per round left,
/// one more while waiting for the counters after compaction.
pub open spec fn work_left(p: Provisioner) -> int {
    2 * (MAX_ATTEMPTS - p.attempt) + if p.stage == HugepageStage::AfterCompaction {
        1int
    } else {
        0int
    }
}

impl Provisioner {
    /// Start provisioning `pages` pages on `node`: read the counters.
    pub fn start(node: u16, pages: u64) -> (r: (Self, HugepageIo))
        ensures
            r.0 == (Provisioner { node, pages, attempt: 0, stage: HugepageStage::Initial }),
            r.1 == HugepageIo::ReadCounters,
    {
        (Provisioner { node, pages, attempt: 0, stage: HugepageStage::Initial }, HugepageIo::ReadCounters)
    }

    /// The counters (nr_hugepages, free_hugepages) just read.
    pub fn on_counters(&mut self, vm_name: &str, nr: u64, free: u64) -> (r: ProvisionStep)
        requires
            old(self).pages * 5 + 256 <= u64::MAX,
            old(self).attempt <= MAX_ATTEMPTS,
        ensures
            final(self).node == old(self).node && final(self).pages == old(self).pages,
            final(self).attempt <= MAX_ATTEMPTS,
            r is Io ==> 0 <= work_left(*final(self)) < work_left(*old(self)),
            match old(self).stage {
                HugepageStage::Initial | HugepageStage::Verify => if free >= old(self).pages {
                    r matches ProvisionStep::Done(m) && m@ == success_text(
                        old(self).pages,
                        old(self).node,
                        vm_name@,
                        old(self).attempt,
                    )
                } else if old(self).attempt < MAX_ATTEMPTS {
                    r == ProvisionStep::Io(HugepageIo::DropCachesAndCompact)
                        && final(self).attempt == old(self).attempt + 1
                        && final(self).stage == HugepageStage::AfterCompaction
                } else {
                    r matches ProvisionStep::Failed(ChalybsError::Other(m)) && m@ == failure_text(
                        old(self).node,
                        old(self).pages,
                        nr,
                        free,
                    )
                },
                HugepageStage::AfterCompaction => {
                    &&& final(self).attempt == old(self).attempt
                    &&& final(self).stage == HugepageStage::Verify
                    &&& if nr < old(self).pages {
                        r == ProvisionStep::Io(HugepageIo::WriteNr(old(self).pages))
                    } else {
                        r == ProvisionStep::Io(HugepageIo::ReadCounters)
                    }
                },
            },
    {
        match self.stage {
            HugepageStage::Initial | HugepageStage::Verify => {
                if free >= self.pages {
                    ProvisionStep::Done(success_message(self.pages, self.node, vm_name, self.attempt))
                } else if self.attempt < MAX_ATTEMPTS {
                    self.attempt = self.attempt + 1;
                    self.stage = HugepageStage::AfterCompaction;
                    ProvisionStep::Io(HugepageIo::DropCachesAndCompact)
                } else {
                    let mut m = lit("hugepages: insufficient 2MiB hugepages on NUMA node ");
                    m.append(u64_to_dec(self.node as u64).as_str());
                    m.append(" after compaction/raise attempts: required ");
                    m.append(u64_to_dec(self.pages).as_str());
                    m.append(", nr_hugepages=");
                    m.append(u64_to_dec(nr).as_str());
                    m.append(", free_hugepages=");
                    m.append(u64_to_dec(free).as_str());
                    m.append(". Consider increasing large-page capacity or reducing VM RAM.");
                    ProvisionStep::Failed(ChalybsError::Other(m))
                }
            },
            HugepageStage::AfterCompaction => {
                self.stage = HugepageStage::Verify;
                if nr < self.pages {
                    ProvisionStep::Io(HugepageIo::WriteNr(self.pages))
                } else {
                    ProvisionStep::Io(HugepageIo::ReadCounters)
                }
            },
        }
    }

}

/// Teardown steps, all best effort.
#[derive(Debug, Clone, Copy, PartialEq, Eq, Structural)]
pub enum CleanupIo {
    /// Reset the node's nr_hugepages to zero.
    ResetNode(u16),
    /// Reset `/proc/sys/vm/nr_hugepages` to zero.
    ResetGlobal,
    DropCachesAndCompact,
    /// Unmount hugetlbfs if the daemon mounted it.
    UnmountIfManaged,
}

/// Teardown: nothing when the VM had no hugepages; else the node reset
/// (when a node was recorded), the global reset, compaction and the
/// unmount, in that order.
pub fn cleanup_steps(active: bool, node: Option<u16>) -> (r: Vec<CleanupIo>)
    ensures
        !active ==> r@.len() == 0,
        active ==> r@ == (match node {
            Some(n) => seq![CleanupIo::ResetNode(n)],
            None => Seq::empty(),
        }) + seq![CleanupIo::ResetGlobal, CleanupIo::DropCachesAndCompact, CleanupIo::UnmountIfManaged],
{
    let mut v: Vec<CleanupIo> = Vec::new();
    if !active {
        return v;
    }
    match node {
        Some(n) => v.push(CleanupIo::ResetNode(n)),
        None => {},
    }
    v.push(CleanupIo::ResetGlobal);
    v.push(CleanupIo::DropCachesAndCompact);
    v.push(CleanupIo::UnmountIfManaged);
    proof {
        let pre: Seq<CleanupIo> = match node {
            Some(n) => seq![CleanupIo::ResetNode(n)],
            None => Seq::empty(),
        };
        assert(v@ =~= pre + seq![CleanupIo::ResetGlobal, CleanupIo::DropCachesAndCompact, CleanupIo::UnmountIfManaged]);
    }
    v
}

} // verus!
