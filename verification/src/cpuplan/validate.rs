//! Structural consistency of a CPU plan with the discovered topology.
use vstd::prelude::*;
use crate::cpu::detect::topology::HostNumaNode;
use crate::cpuplan::plan::CpuPlan;

verus! {

/// A structural finding.
#[derive(Debug, Clone, Copy, PartialEq, Eq, Structural)]
pub enum CpuPlanValidationError {
    /// A host CPU of the VM layout is on no topology node.
    HostCpuOutsideTopology { cpu: u32 },
    /// A VM CPU of the VM layout is on no topology node.
    VmCpuOutsideTopology { cpu: u32 },
}

/// Some topology node lists the CPU.
pub open spec fn in_topology(nodes: Seq<HostNumaNode>, cpu: u32) -> bool {
    exists|i: int| 0 <= i < nodes.len() && (#[trigger] nodes[i]).cpus@.contains(cpu)
}

/// One finding per listed CPU outside the topology, in list order.
pub open spec fn outside(nodes: Seq<HostNumaNode>, cpus: Seq<u32>, host: bool) -> Seq<
    CpuPlanValidationError,
>
    decreases cpus.len(),
{
    if cpus.len() == 0 {
        Seq::empty()
    } else {
        let p = outside(nodes, cpus.drop_last(), host);
        let c = cpus.last();
        if in_topology(nodes, c) {
            p
        } else if host {
            p.push(CpuPlanValidationError::HostCpuOutsideTopology { cpu: c })
        } else {
            p.push(CpuPlanValidationError::VmCpuOutsideTopology { cpu: c })
        }
    }
}

fn in_topology_exec(nodes: &Vec<HostNumaNode>, cpu: u32) -> (r: bool)
    ensures
        r == in_topology(nodes@, cpu),
{
    let mut i: usize = 0;
    while i < nodes.len()
        invariant
            i <= nodes@.len(),
            forall|k: int| 0 <= k < i ==> !(#[trigger] nodes@[k]).cpus@.contains(cpu),
        decreases nodes@.len() - i,
    {
        let cs = &nodes[i].cpus;
        let mut j: usize = 0;
        while j < cs.len()
            invariant
                j <= cs@.len(),
                i < nodes@.len(),
                cs@ == nodes@[i as int].cpus@,
                forall|k: int| 0 <= k < j ==> cs@[k] != cpu,
            decreases cs@.len() - j,
        {
            if cs[j] == cpu {
                assert(nodes@[i as int].cpus@.contains(cpu));
                return true;
            }
            j = j + 1;
        }
        i = i + 1;
    }
    false
}

fn push_outside(
    nodes: &Vec<HostNumaNode>,
    cpus: &Vec<u32>,
    host: bool,
    out: &mut Vec<CpuPlanValidationError>,
)
    ensures
        final(out)@ == old(out)@ + outside(nodes@, cpus@, host),
{
    let ghost base = out@;
    let mut i: usize = 0;
    assert(base + outside(nodes@, cpus@.take(0), host) =~= base);
    while i < cpus.len()
        invariant
            i <= cpus@.len(),
            out@ == base + outside(nodes@, cpus@.take(i as int), host),
        decreases cpus@.len() - i,
    {
        assert(cpus@.take(i + 1).drop_last() =~= cpus@.take(i as int));
        assert(cpus@.take(i + 1).last() == cpus@[i as int]);
        let c = cpus[i];
        if !in_topology_exec(nodes, c) {
            if host {
                out.push(CpuPlanValidationError::HostCpuOutsideTopology { cpu: c });
            } else {
                out.push(CpuPlanValidationError::VmCpuOutsideTopology { cpu: c });
            }
        }
        i = i + 1;
        assert(out@ =~= base + outside(nodes@, cpus@.take(i as int), host));
    }
    assert(cpus@.take(cpus@.len() as int) =~= cpus@);
}

/// Findings for host CPUs, then VM CPUs, of the layout that no topology
/// node lists; none when the topology has no nodes.
pub fn validate_cpu_plan(plan: &CpuPlan) -> (r: Vec<CpuPlanValidationError>)
    ensures
        plan.topology.nodes@.len() == 0 ==> r@.len() == 0,
        plan.topology.nodes@.len() > 0 ==> r@ == outside(
            plan.topology.nodes@,
            plan.vm_layout.host.cpus@,
            true,
        ) + outside(plan.topology.nodes@, plan.vm_layout.vm.cpus@, false),
{
    let mut findings: Vec<CpuPlanValidationError> = Vec::new();
    if plan.topology.nodes.len() == 0 {
        return findings;
    }
    push_outside(&plan.topology.nodes, &plan.vm_layout.host.cpus, true, &mut findings);
    push_outside(&plan.topology.nodes, &plan.vm_layout.vm.cpus, false, &mut findings);
    assert(findings@ =~= outside(plan.topology.nodes@, plan.vm_layout.host.cpus@, true) + outside(
        plan.topology.nodes@,
        plan.vm_layout.vm.cpus@,
        false,
    ));
    findings
}

} // verus!
