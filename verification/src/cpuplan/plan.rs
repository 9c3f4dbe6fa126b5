//! The immutable CPU plan.
use vstd::prelude::*;
use crate::cpu::detect::classify::CpuArch;
use crate::cpu::detect::cpuid::CpuIdentity;
use crate::cpu::detect::topology::HostNumaTopology;
use crate::model::VmCpuLayout;
use crate::sorted::{sort_u64, sorted};

verus! {

/// One NUMA node of the plan.
#[derive(Debug, Clone)]
pub struct CpuPlanNode {
    pub node_id: u32,
    /// Host CPUs of the node, increasing, without repeats.
    pub host_cpus: Vec<u32>,
    /// The node's CPUs that the VM uses.
    pub vm_cpus: Vec<u32>,
}

/// The CPU plan of a VM.
#[derive(Debug, Clone)]
pub struct CpuPlan {
    pub ident: CpuIdentity,
    pub arch: CpuArch,
    pub topology: HostNumaTopology,
    pub vm_layout: VmCpuLayout,
    pub nodes: Vec<CpuPlanNode>,
    /// The VM's CPUs lie on more than one node.
    pub vm_spans_nodes: bool,
    /// The first node with the most VM CPUs, if any node has one.
    pub dominant_node: Option<u32>,
}

/// Index of the first plan node with the given id.
pub open spec fn node_index(nodes: Seq<CpuPlanNode>, id: u32) -> Option<int>
    decreases nodes.len(),
{
    if nodes.len() == 0 {
        None
    } else {
        match node_index(nodes.drop_last(), id) {
            Some(i) => Some(i),
            None => if nodes.last().node_id == id {
                Some(nodes.len() - 1)
            } else {
                None
            },
        }
    }
}

/// All VM CPUs of the plan's nodes, node by node.
pub open spec fn all_vm_cpus(nodes: Seq<CpuPlanNode>) -> Seq<u32>
    decreases nodes.len(),
{
    if nodes.len() == 0 {
        Seq::empty()
    } else {
        all_vm_cpus(nodes.drop_last()) + nodes.last().vm_cpus@
    }
}

pub open spec fn widen(s: Seq<u32>) -> Seq<u64> {
    s.map_values(|x: u32| x as u64)
}

fn widen_exec(v: &Vec<u32>) -> (r: Vec<u64>)
    ensures
        r@ == widen(v@),
{
    let mut out: Vec<u64> = Vec::new();
    let mut i: usize = 0;
    while i < v.len()
        invariant
            i <= v@.len(),
            out@ == widen(v@.take(i as int)),
        decreases v@.len() - i,
    {
        out.push(v[i] as u64);
        i = i + 1;
        assert(out@ =~= widen(v@.take(i as int)));
    }
    assert(v@.take(v@.len() as int) =~= v@);
    out
}

/// Narrow a sorted list of values that came from `u32`s.
fn narrow_exec(v: &Vec<u64>, Ghost(src): Ghost<Seq<u32>>) -> (r: Vec<u32>)
    requires
        v@.to_multiset() == widen(src).to_multiset(),
    ensures
        widen(r@) == v@,
{
    let mut out: Vec<u32> = Vec::new();
    let mut i: usize = 0;
    while i < v.len()
        invariant
            i <= v@.len(),
            v@.to_multiset() == widen(src).to_multiset(),
            widen(out@) == v@.take(i as int),
        decreases v@.len() - i,
    {
        proof {
            broadcast use vstd::seq_lib::group_to_multiset_ensures;
            assert(v@.contains(v@[i as int]));
            assert(widen(src).to_multiset().count(v@[i as int]) > 0);
            assert(widen(src).contains(v@[i as int]));
            let k = choose|k: int| 0 <= k < widen(src).len() && widen(src)[k] == v@[i as int];
            assert(widen(src)[k] == src[k] as u64);
            assert(v@[i as int] <= u32::MAX);
        }
        let ghost pre = out@;
        let x = v[i];
        out.push(x as u32);
        assert(widen(out@) =~= widen(pre).push(x)) by {
            assert(out@ == pre.push(x as u32));
            assert((x as u32) as u64 == x);
        }
        assert(v@.take(i + 1) =~= v@.take(i as int).push(x));
        i = i + 1;
    }
    assert(v@.take(v@.len() as int) =~= v@);
    out
}

/// Values in increasing order with repeats, as `sort_unstable` leaves them.
pub fn sorted_u32(v: &Vec<u32>) -> (r: Vec<u32>)
    ensures
        sorted(widen(r@)),
        widen(r@).to_multiset() == widen(v@).to_multiset(),
{
    let w = widen_exec(v);
    let s = sort_u64(&w);
    narrow_exec(&s, Ghost(v@))
}

impl CpuPlan {
    /// The first node with the given id.
    pub fn node(&self, id: u32) -> (r: Option<&CpuPlanNode>)
        ensures
            match node_index(self.nodes@, id) {
                Some(i) => r == Some(&self.nodes@[i]),
                None => r is None,
            },
    {
        let mut i: usize = 0;
        while i < self.nodes.len()
            invariant
                i <= self.nodes@.len(),
                node_index(self.nodes@.take(i as int), id) is None,
            decreases self.nodes@.len() - i,
        {
            assert(self.nodes@.take(i + 1).drop_last() =~= self.nodes@.take(i as int));
            if self.nodes[i].node_id == id {
                proof {
                    lemma_node_index_prefix(self.nodes@, id, i + 1);
                }
                return Some(&self.nodes[i]);
            }
            i = i + 1;
        }
        assert(self.nodes@.take(self.nodes@.len() as int) =~= self.nodes@);
        None
    }

    /// All VM CPUs of the plan in increasing order.
    pub fn vm_cpus(&self) -> (r: Vec<u32>)
        ensures
            sorted(widen(r@)),
            widen(r@).to_multiset() == widen(all_vm_cpus(self.nodes@)).to_multiset(),
    {
        let mut all: Vec<u32> = Vec::new();
        let mut i: usize = 0;
        while i < self.nodes.len()
            invariant
                i <= self.nodes@.len(),
                all@ == all_vm_cpus(self.nodes@.take(i as int)),
            decreases self.nodes@.len() - i,
        {
            assert(self.nodes@.take(i + 1).drop_last() =~= self.nodes@.take(i as int));
            let ghost pre = all@;
            let mut j: usize = 0;
            let n = &self.nodes[i];
            while j < n.vm_cpus.len()
                invariant
                    j <= n.vm_cpus@.len(),
                    all@ == pre + n.vm_cpus@.take(j as int),
                decreases n.vm_cpus@.len() - j,
            {
                all.push(n.vm_cpus[j]);
                j = j + 1;
                assert(all@ =~= pre + n.vm_cpus@.take(j as int));
            }
            assert(n.vm_cpus@.take(n.vm_cpus@.len() as int) =~= n.vm_cpus@);
            i = i + 1;
        }
        assert(self.nodes@.take(self.nodes@.len() as int) =~= self.nodes@);
        sorted_u32(&all)
    }

    /// The VM's host CPUs in increasing order.
    pub fn host_cpus(&self) -> (r: Vec<u32>)
        ensures
            sorted(widen(r@)),
            widen(r@).to_multiset() == widen(self.vm_layout.host.cpus@).to_multiset(),
    {
        sorted_u32(&self.vm_layout.host.cpus)
    }
}

proof fn lemma_node_index_prefix(nodes: Seq<CpuPlanNode>, id: u32, n: int)
    requires
        0 < n <= nodes.len(),
        node_index(nodes.take(n - 1), id) is None,
        nodes[n - 1].node_id == id,
    ensures
        node_index(nodes, id) == Some(n - 1),
    decreases nodes.len() - n,
{
    assert(nodes.take(n).drop_last() =~= nodes.take(n - 1));
    if n < nodes.len() {
        lemma_node_index_extend(nodes, id, n);
    } else {
        assert(nodes.take(n) =~= nodes);
    }
}

proof fn lemma_node_index_extend(nodes: Seq<CpuPlanNode>, id: u32, n: int)
    requires
        0 <= n <= nodes.len(),
        node_index(nodes.take(n), id) is Some,
    ensures
        node_index(nodes, id) == node_index(nodes.take(n), id),
    decreases nodes.len() - n,
{
    if n < nodes.len() {
        assert(nodes.take(n + 1).drop_last() =~= nodes.take(n));
        lemma_node_index_extend(nodes, id, n + 1);
    } else {
        assert(nodes.take(n) =~= nodes);
    }
}

} // verus!
