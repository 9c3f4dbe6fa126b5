//! Pure construction of a CPU plan from already-discovered signals.
use vstd::prelude::*;
use crate::cpu::detect::classify::CpuArch;
use crate::cpu::detect::cpuid::CpuIdentity;
use crate::cpu::detect::topology::{normalize_cpus, HostNumaNode, HostNumaTopology};
use crate::cpuplan::plan::{CpuPlan, CpuPlanNode};
use crate::model::VmCpuLayout;

verus! {

/// Inputs of the plan builder.
#[derive(Debug, Clone)]
pub struct CpuPlanInputs {
    pub ident: CpuIdentity,
    pub arch: CpuArch,
    pub topology: HostNumaTopology,
    pub vm_layout: VmCpuLayout,
}

impl CpuPlanInputs {
    pub fn new(
        ident: CpuIdentity,
        arch: CpuArch,
        topology: HostNumaTopology,
        vm_layout: VmCpuLayout,
    ) -> (r: Self)
        ensures
            r == (CpuPlanInputs { ident, arch, topology, vm_layout }),
    {
        CpuPlanInputs { ident, arch, topology, vm_layout }
    }
}

/// The plan node built from a topology node, for the VM CPU set `vm`.
pub open spec fn node_matches(p: CpuPlanNode, t: HostNumaNode, vm: Seq<u32>) -> bool {
    &&& p.node_id == t.node_id
    &&& forall|i: int, j: int| 0 <= i < j < p.host_cpus@.len() ==> p.host_cpus@[i] < p.host_cpus@[j]
    &&& forall|x: u32| #[trigger] p.host_cpus@.contains(x) <==> t.cpus@.contains(x)
    &&& p.vm_cpus@ == p.host_cpus@.filter(|c: u32| vm.contains(c))
}

/// Number of nodes that hold VM CPUs.
pub open spec fn vm_node_count(nodes: Seq<CpuPlanNode>) -> nat
    decreases nodes.len(),
{
    if nodes.len() == 0 {
        0
    } else {
        vm_node_count(nodes.drop_last()) + if nodes.last().vm_cpus@.len() > 0 {
            1nat
        } else {
            0nat
        }
    }
}

/// The first node with the most VM CPUs, and that count.
pub open spec fn dominant(nodes: Seq<CpuPlanNode>) -> (Option<u32>, nat)
    decreases nodes.len(),
{
    if nodes.len() == 0 {
        (None, 0)
    } else {
        let p = dominant(nodes.drop_last());
        let n = nodes.last();
        if n.vm_cpus@.len() > 0 && n.vm_cpus@.len() > p.1 {
            (Some(n.node_id), n.vm_cpus@.len())
        } else {
            p
        }
    }
}

fn contains_u32(v: &Vec<u32>, x: u32) -> (r: bool)
    ensures
        r == v@.contains(x),
{
    let mut i: usize = 0;
    while i < v.len()
        invariant
            i <= v@.len(),
            forall|k: int| 0 <= k < i ==> v@[k] != x,
        decreases v@.len() - i,
    {
        if v[i] == x {
            return true;
        }
        i = i + 1;
    }
    false
}

fn vm_filter(host: &Vec<u32>, vm: &Vec<u32>) -> (r: Vec<u32>)
    ensures
        r@ == host@.filter(|c: u32| vm@.contains(c)),
{
    let mut out: Vec<u32> = Vec::new();
    let mut i: usize = 0;
    while i < host.len()
        invariant
            i <= host@.len(),
            out@ == host@.take(i as int).filter(|c: u32| vm@.contains(c)),
        decreases host@.len() - i,
    {
        proof {
            assert(host@.take(i + 1) =~= host@.take(i as int).push(host@[i as int]));
            host@.take(i as int).lemma_filter_push(host@[i as int], |c: u32| vm@.contains(c));
        }
        if contains_u32(vm, host[i]) {
            out.push(host[i]);
        }
        i = i + 1;
    }
    assert(host@.take(host@.len() as int) =~= host@);
    out
}

/// Build the CPU plan: per topology node its sorted host CPUs and the VM
/// CPUs among them; whether the VM spans nodes; the dominant node.
pub fn build_cpu_plan(inputs: CpuPlanInputs) -> (r: CpuPlan)
    ensures
        r.ident == inputs.ident,
        r.arch == inputs.arch,
        r.topology == inputs.topology,
        r.vm_layout == inputs.vm_layout,
        r.nodes@.len() == inputs.topology.nodes@.len(),
        forall|i: int|
            0 <= i < r.nodes@.len() ==> node_matches(
                #[trigger] r.nodes@[i],
                inputs.topology.nodes@[i],
                inputs.vm_layout.vm.cpus@,
            ),
        r.vm_spans_nodes == (vm_node_count(r.nodes@) > 1),
        r.dominant_node == dominant(r.nodes@).0,
{
    let mut nodes: Vec<CpuPlanNode> = Vec::new();
    let mut vm_count: usize = 0;
    let mut dominant_node: Option<u32> = None;
    let mut dominant_vm_count: usize = 0;
    let mut i: usize = 0;
    let tnodes = &inputs.topology.nodes;
    let vm = &inputs.vm_layout.vm.cpus;
    while i < tnodes.len()
        invariant
            i <= tnodes@.len(),
            tnodes@ == inputs.topology.nodes@,
            vm@ == inputs.vm_layout.vm.cpus@,
            nodes@.len() == i,
            forall|k: int| 0 <= k < i ==> node_matches(#[trigger] nodes@[k], tnodes@[k], vm@),
            vm_count == vm_node_count(nodes@),
            vm_count <= i,
            (dominant_node, dominant_vm_count as nat) == dominant(nodes@),
        decreases tnodes@.len() - i,
    {
        let node = &tnodes[i];
        let host_cpus = normalize_cpus(&node.cpus);
        let vm_cpus = vm_filter(&host_cpus, vm);
        let ghost pre = nodes@;
        let vlen = vm_cpus.len();
        if vlen > 0 {
            vm_count = vm_count + 1;
            if vlen > dominant_vm_count {
                dominant_vm_count = vlen;
                dominant_node = Some(node.node_id);
            }
        }
        nodes.push(CpuPlanNode { node_id: node.node_id, host_cpus, vm_cpus });
        assert(nodes@.drop_last() =~= pre);
        i = i + 1;
    }
    let vm_spans_nodes = vm_count > 1;
    CpuPlan {
        ident: inputs.ident,
        arch: inputs.arch,
        topology: inputs.topology,
        vm_layout: inputs.vm_layout,
        nodes,
        vm_spans_nodes,
        dominant_node,
    }
}

} // verus!
