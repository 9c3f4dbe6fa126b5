//! CPU / NUMA topology validation (diagnostic only).
//!
//! A pure function from an explicit host topology and VM placement to a
//! list of issues, in a fixed order.
use vstd::prelude::*;
use crate::fmt::{dec, join, u64_to_dec};
use crate::sorted::{lemma_sorted_unique_eq, sorted_unique, strictly_sorted};
use crate::text::lit;

verus! {

/// Severity of a topology issue.
#[derive(Debug, Clone, Copy, PartialEq, Eq, Structural)]
pub enum CpuTopologySeverity {
    Info,
    Warning,
    Error,
}

/// One issue found during validation.
#[derive(Debug, Clone)]
pub struct CpuTopologyIssue {
    pub severity: CpuTopologySeverity,
    /// Stable identifier of the issue.
    pub code: &'static str,
    pub message: String,
}

/// `CpuTopologyIssue` with its text as characters.
pub struct IssueView {
    pub severity: CpuTopologySeverity,
    pub code: Seq<char>,
    pub message: Seq<char>,
}

impl View for CpuTopologyIssue {
    type V = IssueView;

    open spec fn view(&self) -> IssueView {
        IssueView { severity: self.severity, code: self.code@, message: self.message@ }
    }
}

pub open spec fn issue_views(s: Seq<CpuTopologyIssue>) -> Seq<IssueView> {
    s.map_values(|i: CpuTopologyIssue| i@)
}

/// All issues found, in the order the checks run.
#[derive(Debug, Clone)]
pub struct CpuTopologyReport {
    pub issues: Vec<CpuTopologyIssue>,
}

pub open spec fn has_severity(s: Seq<CpuTopologyIssue>, sev: CpuTopologySeverity) -> bool {
    exists|i: int| 0 <= i < s.len() && (#[trigger] s[i]).severity == sev
}

fn any_severity(s: &Vec<CpuTopologyIssue>, sev: CpuTopologySeverity) -> (r: bool)
    ensures
        r == has_severity(s@, sev),
{
    let mut i: usize = 0;
    while i < s.len()
        invariant
            i <= s@.len(),
            forall|k: int| 0 <= k < i ==> (#[trigger] s@[k]).severity != sev,
        decreases s@.len() - i,
    {
        if s[i].severity == sev {
            return true;
        }
        i = i + 1;
    }
    false
}

impl Default for CpuTopologyReport {
    fn default() -> (r: Self)
        ensures
            r.issues@.len() == 0,
    {
        CpuTopologyReport { issues: Vec::new() }
    }
}

impl CpuTopologyReport {
    /// No error-level issue.
    pub fn is_ok(&self) -> (r: bool)
        ensures
            r == !has_severity(self.issues@, CpuTopologySeverity::Error),
    {
        !any_severity(&self.issues, CpuTopologySeverity::Error)
    }

    /// No issue at all.
    pub fn is_clean(&self) -> (r: bool)
        ensures
            r == (self.issues@.len() == 0),
    {
        self.issues.len() == 0
    }

    /// At least one warning.
    pub fn has_warnings(&self) -> (r: bool)
        ensures
            r == has_severity(self.issues@, CpuTopologySeverity::Warning),
    {
        any_severity(&self.issues, CpuTopologySeverity::Warning)
    }

    /// At least one error.
    pub fn has_errors(&self) -> (r: bool)
        ensures
            r == has_severity(self.issues@, CpuTopologySeverity::Error),
    {
        any_severity(&self.issues, CpuTopologySeverity::Error)
    }
}

/// One host NUMA node and its logical CPUs.
#[derive(Debug, Clone)]
pub struct HostNumaNode {
    pub id: u16,
    pub logical_cpus: Vec<u32>,
}

/// The host NUMA CPU topology.
#[derive(Debug, Clone)]
pub struct HostNumaTopology {
    pub nodes: Vec<HostNumaNode>,
}

/// A VM's CPU and memory placement in host coordinates.
#[derive(Debug, Clone)]
pub struct VmCpuPlacement {
    /// Requested vCPU count from configuration.
    pub requested_vcpu_count: u32,
    /// Host CPU each vCPU is pinned to.
    pub vm_vcpus: Vec<u32>,
    /// Host NUMA nodes supplying RAM / hugepages.
    pub hugepage_nodes: Vec<u16>,
}

/// Input to the validator.
#[derive(Debug, Clone)]
pub struct CpuTopologyInput {
    pub host: HostNumaTopology,
    pub vm: VmCpuPlacement,
}

// ---------------------------------------------------------------------------
// Model
// ---------------------------------------------------------------------------

/// The node a CPU belongs to: the last node listing it.
pub open spec fn cpu_node(nodes: Seq<HostNumaNode>, cpu: u32) -> Option<u16>
    decreases nodes.len(),
{
    if nodes.len() == 0 {
        None
    } else if nodes.last().logical_cpus@.contains(cpu) {
        Some(nodes.last().id)
    } else {
        cpu_node(nodes.drop_last(), cpu)
    }
}

/// CPU `cpu` belongs to node `n`.
pub open spec fn maps_to(nodes: Seq<HostNumaNode>, cpu: u32, n: u64) -> bool {
    match cpu_node(nodes, cpu) {
        Some(k) => k as u64 == n,
        None => false,
    }
}

/// The CPU count of a node id: that of the last node with the id.
pub open spec fn node_cap(nodes: Seq<HostNumaNode>, id: u16) -> Option<nat>
    decreases nodes.len(),
{
    if nodes.len() == 0 {
        None
    } else if nodes.last().id == id {
        Some(nodes.last().logical_cpus@.len())
    } else {
        node_cap(nodes.drop_last(), id)
    }
}

/// Nodes the vCPUs run on.
pub open spec fn vcpu_nodes(nodes: Seq<HostNumaNode>, vcpus: Seq<u32>) -> Set<u64> {
    Set::new(
        |n: u64|
            exists|i: int|
                0 <= i < vcpus.len() && #[trigger] maps_to(nodes, vcpus[i], n),
    )
}

/// Nodes that supply memory.
pub open spec fn mem_nodes(hp: Seq<u16>) -> Set<u64> {
    Set::new(|n: u64| exists|i: int| 0 <= i < hp.len() && (#[trigger] hp[i]) as u64 == n)
}

/// The elements of a finite set of integers in increasing order.
pub open spec fn sorted_list(s: Set<u64>) -> Seq<u64> {
    choose|q: Seq<u64>| strictly_sorted(q) && q.to_set() == s
}

/// vCPUs whose host CPU no node lists, in order.
pub open spec fn unmapped(nodes: Seq<HostNumaNode>, vcpus: Seq<u32>) -> Seq<u32>
    decreases vcpus.len(),
{
    if vcpus.len() == 0 {
        Seq::empty()
    } else {
        let p = unmapped(nodes, vcpus.drop_last());
        if cpu_node(nodes, vcpus.last()) is None {
            p.push(vcpus.last())
        } else {
            p
        }
    }
}

/// Number of vCPUs on node `n`.
pub open spec fn used_on(nodes: Seq<HostNumaNode>, vcpus: Seq<u32>, n: u64) -> nat
    decreases vcpus.len(),
{
    if vcpus.len() == 0 {
        0
    } else {
        used_on(nodes, vcpus.drop_last(), n) + if maps_to(nodes, vcpus.last(), n) {
            1nat
        } else {
            0nat
        }
    }
}

/// `format!("{:?}", v)` for a list of unsigned integers.
pub open spec fn debug_list(s: Seq<u64>) -> Seq<char> {
    "["@ + join(s.map_values(|x: u64| dec(x as nat)), ", "@) + "]"@
}

pub open spec fn issue(sev: CpuTopologySeverity, code: Seq<char>, msg: Seq<char>) -> IssueView {
    IssueView { severity: sev, code, message: msg }
}

pub open spec fn u32s(s: Seq<u32>) -> Seq<u64> {
    s.map_values(|x: u32| x as u64)
}

/// Warnings for memory nodes that the topology does not know, in order.
pub open spec fn unknown_mem_issues(nodes: Seq<HostNumaNode>, hp: Seq<u16>) -> Seq<IssueView>
    decreases hp.len(),
{
    if hp.len() == 0 {
        Seq::empty()
    } else {
        let p = unknown_mem_issues(nodes, hp.drop_last());
        let n = hp.last();
        if node_cap(nodes, n) is None {
            p.push(
                issue(
                    CpuTopologySeverity::Warning,
                    "memory_node_unknown"@,
                    "memory/hugepage node "@ + dec(n as nat)
                        + " is not present in host CPU topology; cannot verify CPU-locality for this node"@,
                ),
            )
        } else {
            p
        }
    }
}

/// "node {id}: {used} vCPUs > {cap} CPUs" for each oversubscribed node of
/// `ns`, in order.
pub open spec fn oversub_details(nodes: Seq<HostNumaNode>, vcpus: Seq<u32>, ns: Seq<u64>) -> Seq<
    Seq<char>,
>
    decreases ns.len(),
{
    if ns.len() == 0 {
        Seq::empty()
    } else {
        let p = oversub_details(nodes, vcpus, ns.drop_last());
        let n = ns.last();
        let used = used_on(nodes, vcpus, n);
        match node_cap(nodes, n as u16) {
            Some(cap) => if used > cap {
                p.push(
                    "node "@ + dec(n as nat) + ": "@ + dec(used) + " vCPUs > "@ + dec(cap)
                        + " CPUs"@,
                )
            } else {
                p
            },
            None => p,
        }
    }
}

pub open spec fn count_issue(input: CpuTopologyInput) -> Seq<IssueView> {
    let vcpus = input.vm.vm_vcpus@;
    let req = input.vm.requested_vcpu_count;
    if req == 0 {
        seq![
            issue(
                CpuTopologySeverity::Warning,
                "vcpu_count_zero"@,
                "requested_vcpu_count is zero; VM will have no vCPUs"@,
            ),
        ]
    } else if (vcpus.len() as u32) != req {
        seq![
            issue(
                CpuTopologySeverity::Warning,
                "vcpu_mapping_incomplete"@,
                "vCPU mapping is incomplete or inconsistent: requested "@ + dec(req as nat)
                    + " vCPUs, but only "@ + dec(vcpus.len()) + " host CPU assignments are present"@,
            ),
        ]
    } else {
        Seq::empty()
    }
}

pub open spec fn unmapped_issue(input: CpuTopologyInput) -> Seq<IssueView> {
    let um = unmapped(input.host.nodes@, input.vm.vm_vcpus@);
    if um.len() > 0 {
        seq![
            issue(
                CpuTopologySeverity::Error,
                "vcpu_host_cpu_unmapped"@,
                "one or more vCPUs are assigned to host CPUs that do not appear in the host NUMA topology: "@
                    + debug_list(u32s(um)),
            ),
        ]
    } else {
        Seq::empty()
    }
}

pub open spec fn vsorted(input: CpuTopologyInput) -> Seq<u64> {
    sorted_list(vcpu_nodes(input.host.nodes@, input.vm.vm_vcpus@))
}

pub open spec fn msorted(input: CpuTopologyInput) -> Seq<u64> {
    sorted_list(mem_nodes(input.vm.hugepage_nodes@))
}

pub open spec fn spread_issues(input: CpuTopologyInput) -> Seq<IssueView> {
    let vs = vsorted(input);
    let ms = msorted(input);
    (if vs.len() > 1 {
        seq![
            issue(
                CpuTopologySeverity::Warning,
                "vcpu_cross_node"@,
                "vCPUs are spread across multiple NUMA nodes: "@ + debug_list(vs)
                    + "; this may increase cross-node memory latency"@,
            ),
        ]
    } else {
        Seq::empty()
    }) + (if ms.len() > 1 {
        seq![
            issue(
                CpuTopologySeverity::Warning,
                "memory_cross_node"@,
                "memory/hugepages are allocated from multiple NUMA nodes: "@ + debug_list(ms)
                    + "; this may reduce locality for vCPUs"@,
            ),
        ]
    } else {
        Seq::empty()
    })
}

pub open spec fn mismatch_issue(input: CpuTopologyInput) -> Seq<IssueView> {
    let vs = vsorted(input);
    let ms = msorted(input);
    if vs.len() > 0 && ms.len() > 0 && vcpu_nodes(input.host.nodes@, input.vm.vm_vcpus@)
        != mem_nodes(input.vm.hugepage_nodes@) {
        seq![
            issue(
                CpuTopologySeverity::Warning,
                "vcpu_memory_node_mismatch"@,
                "NUMA nodes for vCPUs ("@ + debug_list(vs)
                    + ") do not match NUMA nodes for memory/hugepages ("@ + debug_list(ms)
                    + "); this may introduce cross-node memory access"@,
            ),
        ]
    } else {
        Seq::empty()
    }
}

pub open spec fn oversub_issue(input: CpuTopologyInput) -> Seq<IssueView> {
    let det = oversub_details(input.host.nodes@, input.vm.vm_vcpus@, vsorted(input));
    if input.vm.vm_vcpus@.len() > 0 && det.len() > 0 {
        seq![
            issue(
                CpuTopologySeverity::Error,
                "node_oversubscribed"@,
                "one or more NUMA nodes are oversubscribed by vCPUs relative to their logical CPU capacity: "@
                    + join(det, "; "@),
            ),
        ]
    } else {
        Seq::empty()
    }
}

/// The issues found before the final alignment note, in check order.
pub open spec fn main_issues(input: CpuTopologyInput) -> Seq<IssueView> {
    count_issue(input) + unmapped_issue(input) + unknown_mem_issues(
        input.host.nodes@,
        input.vm.hugepage_nodes@,
    ) + spread_issues(input) + mismatch_issue(input) + oversub_issue(input)
}

/// The full report: with no nodes, a single warning; otherwise the main
/// issues, then a note when vCPUs and memory sit on one and the same node
/// and nothing else was found.
pub open spec fn topology_issues(input: CpuTopologyInput) -> Seq<IssueView> {
    let nodes = input.host.nodes@;
    if nodes.len() == 0 {
        seq![
            issue(
                CpuTopologySeverity::Warning,
                "host_topology_empty"@,
                "host NUMA topology is empty; cannot perform CPU/NUMA validation"@,
            ),
        ]
    } else {
        let m = main_issues(input);
        let vset = vcpu_nodes(nodes, input.vm.vm_vcpus@);
        let mset = mem_nodes(input.vm.hugepage_nodes@);
        let vs = sorted_list(vset);
        let ms = sorted_list(mset);
        if m.len() == 0 && vs.len() == 1 && ms.len() == 1 && vset == mset {
            seq![
                issue(
                    CpuTopologySeverity::Info,
                    "topology_local_and_aligned"@,
                    "vCPUs and memory/hugepages are confined to NUMA node "@ + dec(vs[0] as nat)
                        + "; topology appears local and aligned"@,
                ),
            ]
        } else {
            m
        }
    }
}

proof fn lemma_cpu_node_none(nodes: Seq<HostNumaNode>, cpu: u32)
    requires
        forall|n: int| 0 <= n < nodes.len() ==> !(#[trigger] nodes[n]).logical_cpus@.contains(cpu),
    ensures
        cpu_node(nodes, cpu) is None,
    decreases nodes.len(),
{
    if nodes.len() > 0 {
        assert(!nodes[nodes.len() - 1].logical_cpus@.contains(cpu));
        assert forall|n: int| 0 <= n < nodes.drop_last().len() implies !(
        #[trigger] nodes.drop_last()[n]).logical_cpus@.contains(cpu) by {
            assert(nodes.drop_last()[n] == nodes[n]);
        }
        lemma_cpu_node_none(nodes.drop_last(), cpu);
    }
}

proof fn lemma_unmapped_nonempty(nodes: Seq<HostNumaNode>, vcpus: Seq<u32>, i: int)
    requires
        0 <= i < vcpus.len(),
        cpu_node(nodes, vcpus[i]) is None,
    ensures
        unmapped(nodes, vcpus).len() > 0,
    decreases vcpus.len(),
{
    if i < vcpus.len() - 1 {
        assert(vcpus.drop_last()[i] == vcpus[i]);
        lemma_unmapped_nonempty(nodes, vcpus.drop_last(), i);
    }
}

/// A vCPU placed on a host CPU that no node of a non-empty topology lists
/// is an error: the validation reports an Error-level issue.
pub proof fn lemma_unlisted_vcpu_is_error(input: CpuTopologyInput, i: int)
    requires
        input.host.nodes@.len() > 0,
        0 <= i < input.vm.vm_vcpus@.len(),
        forall|n: int|
            0 <= n < input.host.nodes@.len() ==> !(#[trigger] input.host.nodes@[n]).logical_cpus@.contains(
                input.vm.vm_vcpus@[i],
            ),
    ensures
        exists|k: int|
            0 <= k < topology_issues(input).len() && (#[trigger] topology_issues(input)[k]).severity
                == CpuTopologySeverity::Error,
{
    let nodes = input.host.nodes@;
    let vcpus = input.vm.vm_vcpus@;
    lemma_cpu_node_none(nodes, vcpus[i]);
    lemma_unmapped_nonempty(nodes, vcpus, i);
    let c = count_issue(input);
    let u = unmapped_issue(input);
    let rest = unknown_mem_issues(nodes, input.vm.hugepage_nodes@) + spread_issues(input) + mismatch_issue(
        input,
    ) + oversub_issue(input);
    let m = main_issues(input);
    assert(m == c + u + rest);
    assert(u.len() == 1 && u[0].severity == CpuTopologySeverity::Error);
    let k = c.len() as int;
    assert(m[k] == u[0]);
    assert(m.len() > 0);
    assert(topology_issues(input) == m);
    assert(topology_issues(input)[k].severity == CpuTopologySeverity::Error);
}

/// The same of a validation report: it is not ok.
pub proof fn lemma_unlisted_vcpu_fails_report(input: CpuTopologyInput, report: CpuTopologyReport, i: int)
    requires
        issue_views(report.issues@) == topology_issues(input),
        input.host.nodes@.len() > 0,
        0 <= i < input.vm.vm_vcpus@.len(),
        forall|n: int|
            0 <= n < input.host.nodes@.len() ==> !(#[trigger] input.host.nodes@[n]).logical_cpus@.contains(
                input.vm.vm_vcpus@[i],
            ),
    ensures
        has_severity(report.issues@, CpuTopologySeverity::Error),
{
    lemma_unlisted_vcpu_is_error(input, i);
    let k = choose|k: int|
        0 <= k < topology_issues(input).len() && (#[trigger] topology_issues(input)[k]).severity
            == CpuTopologySeverity::Error;
    assert(issue_views(report.issues@)[k] == report.issues@[k]@);
}

// ---------------------------------------------------------------------------
// Computation
// ---------------------------------------------------------------------------

fn contains_cpu(v: &Vec<u32>, x: u32) -> (r: bool)
    ensures
        r == v@.contains(x),
{
    let mut i: usize = 0;
    while i < v.len()
        invariant
            i <= v@.len(),
            forall|k: int| 0 <= k < i ==> v@[k] != x,
        decreases v@.len() - i,
    {
        if v[i] == x {
            return true;
        }
        i = i + 1;
    }
    false
}

fn cpu_node_exec(nodes: &Vec<HostNumaNode>, cpu: u32) -> (r: Option<u16>)
    ensures
        r == cpu_node(nodes@, cpu),
{
    let mut i: usize = nodes.len();
    assert(nodes@.take(nodes@.len() as int) =~= nodes@);
    while i > 0
        invariant
            i <= nodes@.len(),
            cpu_node(nodes@, cpu) == cpu_node(nodes@.take(i as int), cpu),
        decreases i,
    {
        assert(nodes@.take(i as int).drop_last() =~= nodes@.take(i - 1));
        assert(nodes@.take(i as int).last() == nodes@[i - 1]);
        if contains_cpu(&nodes[i - 1].logical_cpus, cpu) {
            return Some(nodes[i - 1].id);
        }
        i = i - 1;
    }
    None
}

fn node_cap_exec(nodes: &Vec<HostNumaNode>, id: u16) -> (r: Option<usize>)
    ensures
        match node_cap(nodes@, id) {
            Some(c) => r == Some(c as usize) && c <= usize::MAX,
            None => r is None,
        },
{
    let mut i: usize = nodes.len();
    assert(nodes@.take(nodes@.len() as int) =~= nodes@);
    while i > 0
        invariant
            i <= nodes@.len(),
            node_cap(nodes@, id) == node_cap(nodes@.take(i as int), id),
        decreases i,
    {
        assert(nodes@.take(i as int).drop_last() =~= nodes@.take(i - 1));
        assert(nodes@.take(i as int).last() == nodes@[i - 1]);
        if nodes[i - 1].id == id {
            return Some(nodes[i - 1].logical_cpus.len());
        }
        i = i - 1;
    }
    None
}

proof fn lemma_cpu_node_has_cap(nodes: Seq<HostNumaNode>, cpu: u32)
    ensures
        match cpu_node(nodes, cpu) {
            Some(k) => node_cap(nodes, k) is Some,
            None => true,
        },
    decreases nodes.len(),
{
    if nodes.len() > 0 {
        lemma_cpu_node_has_cap(nodes.drop_last(), cpu);
        match cpu_node(nodes, cpu) {
            Some(k) => {
                if nodes.last().id != k {
                    lemma_node_cap_extends(nodes, k);
                }
            },
            None => {},
        }
    }
}

proof fn lemma_node_cap_extends(nodes: Seq<HostNumaNode>, k: u16)
    requires
        nodes.len() > 0,
        node_cap(nodes.drop_last(), k) is Some,
    ensures
        node_cap(nodes, k) is Some,
{
}

/// `format!("{:?}", v)` for a list of unsigned integers.
pub fn debug_list_exec(v: &Vec<u64>) -> (r: String)
    ensures
        r@ == debug_list(v@),
{
    let mut parts: Vec<String> = Vec::new();
    let mut i: usize = 0;
    while i < v.len()
        invariant
            i <= v@.len(),
            crate::fmt::views(parts@) == v@.take(i as int).map_values(|x: u64| dec(x as nat)),
        decreases v@.len() - i,
    {
        let ghost pre = parts@;
        let d = u64_to_dec(v[i]);
        parts.push(d);
        proof {
            crate::fmt::lemma_views_push(pre, d);
            assert(v@.take(i + 1).map_values(|x: u64| dec(x as nat)) =~= v@.take(i as int).map_values(
                |x: u64| dec(x as nat),
            ).push(dec(v@[i as int] as nat)));
        }
        i = i + 1;
    }
    assert(v@.take(v@.len() as int) =~= v@);
    let mut r = lit("[");
    r.append(crate::fmt::join_strings(&parts, ", ").as_str());
    r.append("]");
    r
}

/// The increasing list of a set given by a list with those elements.
fn sorted_of(raw: &Vec<u64>, Ghost(set): Ghost<Set<u64>>) -> (r: Vec<u64>)
    requires
        raw@.to_set() == set,
    ensures
        r@ == sorted_list(set),
        strictly_sorted(r@),
        r@.to_set() == set,
{
    let s = sorted_unique(raw);
    proof {
        let q = sorted_list(set);
        assert(strictly_sorted(q) && q.to_set() == set);
        lemma_sorted_unique_eq(s@, q);
    }
    s
}

fn u64_lists_eq(a: &Vec<u64>, b: &Vec<u64>) -> (r: bool)
    ensures
        r == (a@ == b@),
{
    if a.len() != b.len() {
        return false;
    }
    let mut i: usize = 0;
    while i < a.len()
        invariant
            a@.len() == b@.len(),
            i <= a@.len(),
            forall|k: int| 0 <= k < i ==> a@[k] == b@[k],
        decreases a@.len() - i,
    {
        if a[i] != b[i] {
            return false;
        }
        i = i + 1;
    }
    assert(a@ =~= b@);
    true
}

fn push_issue(
    issues: &mut Vec<CpuTopologyIssue>,
    severity: CpuTopologySeverity,
    code: &'static str,
    message: String,
)
    ensures
        issue_views(final(issues)@) == issue_views(old(issues)@).push(
            issue(severity, code@, message@),
        ),
{
    let ghost pre = issues@;
    issues.push(CpuTopologyIssue { severity, code, message });
    assert(issue_views(issues@) =~= issue_views(pre).push(issue(severity, code@, message@)));
}

fn used_on_exec(nodes: &Vec<HostNumaNode>, vcpus: &Vec<u32>, n: u64) -> (r: usize)
    ensures
        r == used_on(nodes@, vcpus@, n),
{
    let mut c: usize = 0;
    let mut i: usize = 0;
    while i < vcpus.len()
        invariant
            i <= vcpus@.len(),
            c == used_on(nodes@, vcpus@.take(i as int), n),
            c <= i,
        decreases vcpus@.len() - i,
    {
        assert(vcpus@.take(i + 1).drop_last() =~= vcpus@.take(i as int));
        assert(vcpus@.take(i + 1).last() == vcpus@[i as int]);
        match cpu_node_exec(&nodes, vcpus[i]) {
            Some(k) => {
                if k as u64 == n {
                    c = c + 1;
                }
            },
            None => {},
        }
        i = i + 1;
    }
    assert(vcpus@.take(vcpus@.len() as int) =~= vcpus@);
    c
}

/// vCPU host CPUs that no node lists (as `u64`, in order), and a list
/// holding exactly the nodes of the others.
fn scan_vcpus(nodes: &Vec<HostNumaNode>, vcpus: &Vec<u32>) -> (r: (Vec<u64>, Vec<u64>))
    ensures
        r.0@ == u32s(unmapped(nodes@, vcpus@)),
        r.1@.to_set() == vcpu_nodes(nodes@, vcpus@),
{
    let ghost nv = nodes@;
    let ghost vv = vcpus@;
    let mut unmapped_cpus: Vec<u64> = Vec::new();
    let mut raw_nodes: Vec<u64> = Vec::new();
    let mut i: usize = 0;
    assert(unmapped_cpus@ =~= u32s(unmapped(nv, vv.take(0))));
    while i < vcpus.len()
        invariant
            i <= vv.len(),
            nv == nodes@,
            vv == vcpus@,
            unmapped_cpus@ == u32s(unmapped(nv, vv.take(i as int))),
            forall|n: u64|
                #[trigger] raw_nodes@.contains(n) <==> exists|j: int|
                    0 <= j < i && #[trigger] maps_to(nv, vv[j], n),
        decreases vv.len() - i,
    {
        let ghost pre_raw = raw_nodes@;
        assert(vv.take(i + 1).drop_last() =~= vv.take(i as int));
        assert(vv.take(i + 1).last() == vv[i as int]);
        match cpu_node_exec(nodes, vcpus[i]) {
            Some(k) => {
                raw_nodes.push(k as u64);
                assert forall|n: u64| #[trigger] raw_nodes@.contains(n) <==> exists|j: int|
                    0 <= j < i + 1 && #[trigger] maps_to(nv, vv[j], n) by {
                    crate::pci::lemma_contains_push(pre_raw, k as u64, n);
                    if n == k as u64 {
                        assert(maps_to(nv, vv[i as int], n));
                    }
                    if exists|j: int| 0 <= j < i + 1 && #[trigger] maps_to(nv, vv[j], n) {
                        let j = choose|j: int| 0 <= j < i + 1 && #[trigger] maps_to(nv, vv[j], n);
                        if j < i {
                            assert(pre_raw.contains(n));
                        } else {
                            assert(n == k as u64);
                        }
                    }
                }
                assert(u32s(unmapped(nv, vv.take(i + 1))) =~= u32s(unmapped(nv, vv.take(i as int))));
            },
            None => {
                unmapped_cpus.push(vcpus[i] as u64);
                assert(unmapped_cpus@ =~= u32s(unmapped(nv, vv.take(i + 1))));
                assert forall|n: u64| #[trigger] raw_nodes@.contains(n) <==> exists|j: int|
                    0 <= j < i + 1 && #[trigger] maps_to(nv, vv[j], n) by {
                    if exists|j: int| 0 <= j < i + 1 && #[trigger] maps_to(nv, vv[j], n) {
                        let j = choose|j: int| 0 <= j < i + 1 && #[trigger] maps_to(nv, vv[j], n);
                        assert(j != i);
                    }
                }
            },
        }
        i = i + 1;
    }
    assert(vv.take(vv.len() as int) =~= vv);
    assert(raw_nodes@.to_set() =~= vcpu_nodes(nv, vv));
    (unmapped_cpus, raw_nodes)
}

/// Warn about memory nodes the topology does not know; return the memory
/// nodes as `u64`.
fn scan_mem_nodes(nodes: &Vec<HostNumaNode>, hp: &Vec<u16>, issues: &mut Vec<CpuTopologyIssue>) -> (r:
    Vec<u64>)
    ensures
        issue_views(final(issues)@) == issue_views(old(issues)@) + unknown_mem_issues(nodes@, hp@),
        r@.to_set() == mem_nodes(hp@),
{
    let ghost nv = nodes@;
    let ghost hv = hp@;
    let ghost e2 = issue_views(issues@);
    let mut raw_mem: Vec<u64> = Vec::new();
    let mut j: usize = 0;
    assert(e2 + unknown_mem_issues(nv, hv.take(0)) =~= e2);
    while j < hp.len()
        invariant
            j <= hv.len(),
            nv == nodes@,
            hv == hp@,
            issue_views(issues@) == e2 + unknown_mem_issues(nv, hv.take(j as int)),
            raw_mem@ == hv.take(j as int).map_values(|x: u16| x as u64),
        decreases hv.len() - j,
    {
        assert(hv.take(j + 1).drop_last() =~= hv.take(j as int));
        assert(hv.take(j + 1).last() == hv[j as int]);
        let n = hp[j];
        raw_mem.push(n as u64);
        if node_cap_exec(nodes, n).is_none() {
            let mut m = lit("memory/hugepage node ");
            m.append(u64_to_dec(n as u64).as_str());
            m.append(
                " is not present in host CPU topology; cannot verify CPU-locality for this node",
            );
            push_issue(issues, CpuTopologySeverity::Warning, "memory_node_unknown", m);
        }
        j = j + 1;
        assert(raw_mem@ =~= hv.take(j as int).map_values(|x: u16| x as u64));
        assert(issue_views(issues@) =~= e2 + unknown_mem_issues(nv, hv.take(j as int)));
    }
    assert(hv.take(hv.len() as int) =~= hv);
    assert forall|n: u64| #[trigger] raw_mem@.to_set().contains(n) <==> mem_nodes(hv).contains(n) by {
        if raw_mem@.contains(n) {
            let k = choose|k: int| 0 <= k < raw_mem@.len() && raw_mem@[k] == n;
            assert(hv[k] as u64 == n);
        }
        if mem_nodes(hv).contains(n) {
            let k = choose|k: int| 0 <= k < hv.len() && (#[trigger] hv[k]) as u64 == n;
            assert(raw_mem@[k] == n);
        }
    }
    assert(raw_mem@.to_set() =~= mem_nodes(hv));
    raw_mem
}

/// The oversubscription details for the nodes `vs`, in order.
fn oversubscribed(nodes: &Vec<HostNumaNode>, vcpus: &Vec<u32>, vs: &Vec<u64>) -> (r: Vec<String>)
    requires
        vs@.to_set() == vcpu_nodes(nodes@, vcpus@),
    ensures
        crate::fmt::views(r@) == oversub_details(nodes@, vcpus@, vs@),
{
    let ghost nv = nodes@;
    let ghost vv = vcpus@;
    let ghost vset = vcpu_nodes(nv, vv);
    let mut details: Vec<String> = Vec::new();
    let mut t: usize = 0;
    assert(crate::fmt::views(details@) =~= oversub_details(nv, vv, vs@.take(0)));
    while t < vs.len()
        invariant
            t <= vs@.len(),
            nv == nodes@,
            vv == vcpus@,
            vs@.to_set() == vset,
            vset == vcpu_nodes(nv, vv),
            crate::fmt::views(details@) == oversub_details(nv, vv, vs@.take(t as int)),
        decreases vs@.len() - t,
    {
        let ghost pre = details@;
        assert(vs@.take(t + 1).drop_last() =~= vs@.take(t as int));
        assert(vs@.take(t + 1).last() == vs@[t as int]);
        let n = vs[t];
        proof {
            assert(vs@.to_set().contains(n));
            assert(vset.contains(n));
            let j = choose|j: int| 0 <= j < vv.len() && #[trigger] maps_to(nv, vv[j], n);
            lemma_cpu_node_has_cap(nv, vv[j]);
        }
        let used = used_on_exec(nodes, vcpus, n);
        match node_cap_exec(nodes, n as u16) {
            Some(cap) => {
                if used > cap {
                    let mut d = lit("node ");
                    d.append(u64_to_dec(n).as_str());
                    d.append(": ");
                    d.append(u64_to_dec(used as u64).as_str());
                    d.append(" vCPUs > ");
                    d.append(u64_to_dec(cap as u64).as_str());
                    d.append(" CPUs");
                    details.push(d);
                    proof {
                        crate::fmt::lemma_views_push(pre, d);
                    }
                }
            },
            None => {},
        }
        t = t + 1;
    }
    assert(vs@.take(vs@.len() as int) =~= vs@);
    details
}

/// Validate a VM's CPU/NUMA placement against the host topology.
#[verifier::rlimit(40)]
pub fn validate_cpu_topology(input: &CpuTopologyInput) -> (r: CpuTopologyReport)
    ensures
        issue_views(r.issues@) == topology_issues(*input),
{
    let nodes = &input.host.nodes;
    let vcpus = &input.vm.vm_vcpus;
    let hp = &input.vm.hugepage_nodes;
    let mut issues: Vec<CpuTopologyIssue> = Vec::new();
    if nodes.len() == 0 {
        push_issue(
            &mut issues,
            CpuTopologySeverity::Warning,
            "host_topology_empty",
            lit("host NUMA topology is empty; cannot perform CPU/NUMA validation"),
        );
        assert(issue_views(issues@) =~= topology_issues(*input));
        return CpuTopologyReport { issues };
    }
    let ghost vset = vcpu_nodes(nodes@, vcpus@);
    let ghost mset = mem_nodes(hp@);
    assert(issue_views(issues@) =~= Seq::<IssueView>::empty());

    // 1) requested count against the mapping length.
    let req = input.vm.requested_vcpu_count;
    if req == 0 {
        push_issue(
            &mut issues,
            CpuTopologySeverity::Warning,
            "vcpu_count_zero",
            lit("requested_vcpu_count is zero; VM will have no vCPUs"),
        );
    } else if vcpus.len() as u32 != req {
        let mut m = lit("vCPU mapping is incomplete or inconsistent: requested ");
        m.append(u64_to_dec(req as u64).as_str());
        m.append(" vCPUs, but only ");
        m.append(u64_to_dec(vcpus.len() as u64).as_str());
        m.append(" host CPU assignments are present");
        push_issue(&mut issues, CpuTopologySeverity::Warning, "vcpu_mapping_incomplete", m);
    }
    assert(issue_views(issues@) =~= count_issue(*input));
    let ghost e1 = issue_views(issues@);

    // 2) vCPUs whose host CPU no node lists.
    let (unmapped_cpus, raw_nodes) = scan_vcpus(nodes, vcpus);
    if unmapped_cpus.len() > 0 {
        let mut m = lit(
            "one or more vCPUs are assigned to host CPUs that do not appear in the host NUMA topology: ",
        );
        m.append(debug_list_exec(&unmapped_cpus).as_str());
        push_issue(&mut issues, CpuTopologySeverity::Error, "vcpu_host_cpu_unmapped", m);
    }
    assert(issue_views(issues@) =~= e1 + unmapped_issue(*input));
    let ghost e2 = issue_views(issues@);

    // 3) memory nodes the topology does not know.
    let raw_mem = scan_mem_nodes(nodes, hp, &mut issues);
    let ghost e3 = issue_views(issues@);

    let vs = sorted_of(&raw_nodes, Ghost(vset));
    let ms = sorted_of(&raw_mem, Ghost(mset));
    let same = u64_lists_eq(&vs, &ms);
    proof {
        if vs@ == ms@ {
            assert(vset == mset);
        }
        if vset == mset {
            assert(vs@ == ms@);
        }
    }

    // 4) and 5) cross-node placement.
    if vs.len() > 1 {
        let mut m = lit("vCPUs are spread across multiple NUMA nodes: ");
        m.append(debug_list_exec(&vs).as_str());
        m.append("; this may increase cross-node memory latency");
        push_issue(&mut issues, CpuTopologySeverity::Warning, "vcpu_cross_node", m);
    }
    if ms.len() > 1 {
        let mut m = lit("memory/hugepages are allocated from multiple NUMA nodes: ");
        m.append(debug_list_exec(&ms).as_str());
        m.append("; this may reduce locality for vCPUs");
        push_issue(&mut issues, CpuTopologySeverity::Warning, "memory_cross_node", m);
    }
    assert(issue_views(issues@) =~= e3 + spread_issues(*input));
    let ghost e5 = issue_views(issues@);

    // 6) vCPU nodes against memory nodes.
    if vs.len() > 0 && ms.len() > 0 && !same {
        let mut m = lit("NUMA nodes for vCPUs (");
        m.append(debug_list_exec(&vs).as_str());
        m.append(") do not match NUMA nodes for memory/hugepages (");
        m.append(debug_list_exec(&ms).as_str());
        m.append("); this may introduce cross-node memory access");
        push_issue(&mut issues, CpuTopologySeverity::Warning, "vcpu_memory_node_mismatch", m);
    }
    assert(issue_views(issues@) =~= e5 + mismatch_issue(*input));
    let ghost e6 = issue_views(issues@);

    // 7) oversubscribed nodes, in node order.
    let details = oversubscribed(nodes, vcpus, &vs);
    if vcpus.len() > 0 && details.len() > 0 {
        let mut m = lit(
            "one or more NUMA nodes are oversubscribed by vCPUs relative to their logical CPU capacity: ",
        );
        m.append(crate::fmt::join_strings(&details, "; ").as_str());
        push_issue(&mut issues, CpuTopologySeverity::Error, "node_oversubscribed", m);
    }
    assert(issue_views(issues@) =~= e6 + oversub_issue(*input));
    assert(issue_views(issues@) =~= main_issues(*input));

    // 8) the single-node, fully local case.
    if issues.len() == 0 && vs.len() == 1 && ms.len() == 1 && same {
        let mut m = lit("vCPUs and memory/hugepages are confined to NUMA node ");
        m.append(u64_to_dec(vs[0]).as_str());
        m.append("; topology appears local and aligned");
        push_issue(&mut issues, CpuTopologySeverity::Info, "topology_local_and_aligned", m);
    }
    assert(issue_views(issues@) =~= topology_issues(*input));
    CpuTopologyReport { issues }
}

} // verus!
