//! Read-only views of a daemon snapshot.
//!
//! A snapshot is the triple the daemon builds each tick: VM statuses,
//! global events and per-VM event batches. These helpers look things up
//! and project fields; they never change anything.
use vstd::prelude::*;
use vstd::std_specs::iter::IteratorSpec;
use vstd::std_specs::slice::axiom_spec_slice_iter;
use crate::daemon::ipc::{IpcEvent, IpcVmCpuLayout, IpcVmCpuSample, IpcVmEvents, IpcVmHugepages, IpcVmStatus};
use crate::text::str_eq;

verus! {

/// A borrowed view of one snapshot.
pub struct DaemonSnapshot<'a> {
    pub vms: &'a [IpcVmStatus],
    pub events_global: &'a [IpcEvent],
    pub events_vm: &'a [IpcVmEvents],
}

/// `i` is the first position whose VM is called `name`.
pub open spec fn first_vm_named(vms: Seq<IpcVmStatus>, name: Seq<char>, i: int) -> bool {
    &&& 0 <= i < vms.len()
    &&& vms[i].name@ == name
    &&& forall|j: int| 0 <= j < i ==> (#[trigger] vms[j]).name@ != name
}

/// `i` is the first position whose event batch belongs to `name`.
pub open spec fn first_batch_named(batches: Seq<IpcVmEvents>, name: Seq<char>, i: int) -> bool {
    &&& 0 <= i < batches.len()
    &&& batches[i].vm_name@ == name
    &&& forall|j: int| 0 <= j < i ==> (#[trigger] batches[j]).vm_name@ != name
}

impl<'a> DaemonSnapshot<'a> {
    pub fn new(
        vms: &'a [IpcVmStatus],
        events_global: &'a [IpcEvent],
        events_vm: &'a [IpcVmEvents],
    ) -> (r: Self)
        ensures
            r.vms@ == vms@,
            r.events_global@ == events_global@,
            r.events_vm@ == events_vm@,
    {
        DaemonSnapshot { vms, events_global, events_vm }
    }

    /// All VMs, in the daemon's order (sorted by name).
    pub fn vms(&self) -> (r: &'a [IpcVmStatus])
        ensures
            r@ == self.vms@,
    {
        self.vms
    }

    /// An iterator over all VMs, in order.
    pub fn iter_vms(&self) -> (r: std::slice::Iter<'a, IpcVmStatus>)
        ensures
            IteratorSpec::remaining(&r) == self.vms@.as_ref(),
    {
        proof {
            axiom_spec_slice_iter(self.vms);
        }
        self.vms.iter()
    }

    /// The first VM called `name`.
    pub fn vm_by_name(&self, name: &str) -> (r: Option<&'a IpcVmStatus>)
        ensures
            match r {
                Some(v) => exists|i: int| first_vm_named(self.vms@, name@, i) && *v == self.vms@[i],
                None => forall|j: int| 0 <= j < self.vms@.len() ==> (#[trigger] self.vms@[j]).name@ != name@,
            },
    {
        let mut i: usize = 0;
        while i < self.vms.len()
            invariant
                i <= self.vms@.len(),
                forall|j: int| 0 <= j < i ==> (#[trigger] self.vms@[j]).name@ != name@,
            decreases self.vms@.len() - i,
        {
            if str_eq(self.vms[i].name.as_str(), name) {
                assert(first_vm_named(self.vms@, name@, i as int));
                return Some(&self.vms[i]);
            }
            i = i + 1;
        }
        None
    }

    /// Global events of the snapshot.
    pub fn events_global(&self) -> (r: &'a [IpcEvent])
        ensures
            r@ == self.events_global@,
    {
        self.events_global
    }

    /// Per-VM event batches of the snapshot.
    pub fn events_vm(&self) -> (r: &'a [IpcVmEvents])
        ensures
            r@ == self.events_vm@,
    {
        self.events_vm
    }

    /// The new events of VM `name`: those of its first batch, or none.
    pub fn events_for_vm(&self, name: &str) -> (r: &'a [IpcEvent])
        ensures
            (exists|i: int| first_batch_named(self.events_vm@, name@, i) && r@ == self.events_vm@[i].events@)
            || ((forall|j: int| 0 <= j < self.events_vm@.len() ==> (#[trigger] self.events_vm@[j]).vm_name@ != name@) && r@.len() == 0),
    {
        let mut i: usize = 0;
        while i < self.events_vm.len()
            invariant
                i <= self.events_vm@.len(),
                forall|j: int| 0 <= j < i ==> (#[trigger] self.events_vm@[j]).vm_name@ != name@,
            decreases self.events_vm@.len() - i,
        {
            if str_eq(self.events_vm[i].vm_name.as_str(), name) {
                assert(first_batch_named(self.events_vm@, name@, i as int));
                return self.events_vm[i].events.as_slice();
            }
            i = i + 1;
        }
        &[]
    }
}

/// The VM's CPU layout.
pub fn vm_cpu_layout(vm: &IpcVmStatus) -> (r: &IpcVmCpuLayout)
    ensures
        *r == vm.cpu_layout,
{
    &vm.cpu_layout
}

/// Host CPUs of the VM, from its configuration (not its pinning state).
pub fn vm_host_cpus(vm: &IpcVmStatus) -> (r: &[u32])
    ensures
        r@ == vm.cpu_layout.host@,
{
    vm.cpu_layout.host.as_slice()
}

/// vCPU indices of the VM, from its configuration.
pub fn vm_vcpus(vm: &IpcVmStatus) -> (r: &[u32])
    ensures
        r@ == vm.cpu_layout.vm@,
{
    vm.cpu_layout.vm.as_slice()
}

pub fn vm_hugepages(vm: &IpcVmStatus) -> (r: &IpcVmHugepages)
    ensures
        *r == vm.hugepages_detail,
{
    &vm.hugepages_detail
}

/// Whether hugepages back the VM at snapshot time.
pub fn vm_hugepages_active(vm: &IpcVmStatus) -> (r: bool)
    ensures
        r == vm.hugepages_detail.active,
{
    vm.hugepages_detail.active
}

/// The raw vCPU sample, if any.
pub fn vm_cpu_sample(vm: &IpcVmStatus) -> (r: Option<&IpcVmCpuSample>)
    ensures
        match vm.cpu_sample {
            Some(s) => r matches Some(x) && *x == s,
            None => r is None,
        },
{
    vm.cpu_sample.as_ref()
}

/// The number of positions where both sample arrays have an entry.
pub open spec fn paired_len(s: IpcVmCpuSample) -> int {
    if s.vcpu_indices@.len() <= s.vcpu_jiffies@.len() {
        s.vcpu_indices@.len() as int
    } else {
        s.vcpu_jiffies@.len() as int
    }
}

/// The (vCPU index, jiffies) pairs of a sample, up to the shorter array.
pub open spec fn vcpu_pairs(s: IpcVmCpuSample) -> Seq<(u32, u64)> {
    Seq::new(paired_len(s) as nat, |i: int| (s.vcpu_indices@[i], s.vcpu_jiffies@[i]))
}

/// The jiffies of the pairs folded with `saturating_add` from 0.
pub open spec fn saturating_fold(p: Seq<(u32, u64)>) -> u64
    decreases p.len(),
{
    if p.len() == 0 {
        0
    } else {
        let a = saturating_fold(p.drop_last());
        if a + p.last().1 > u64::MAX {
            u64::MAX
        } else {
            (a + p.last().1) as u64
        }
    }
}

/// The exact sum of the pairs' jiffies.
pub open spec fn jiffies_sum(p: Seq<(u32, u64)>) -> nat
    decreases p.len(),
{
    if p.len() == 0 {
        0
    } else {
        jiffies_sum(p.drop_last()) + (p.last().1 as nat)
    }
}

proof fn lemma_fold_is_capped_sum(p: Seq<(u32, u64)>)
    ensures
        saturating_fold(p) == if jiffies_sum(p) > u64::MAX {
            u64::MAX as nat
        } else {
            jiffies_sum(p)
        },
    decreases p.len(),
{
    if p.len() > 0 {
        lemma_fold_is_capped_sum(p.drop_last());
    }
}

proof fn lemma_total_prefix(s: IpcVmCpuSample, k: int)
    requires
        0 <= k <= paired_len(s),
    ensures
        saturating_total(s.vcpu_jiffies@, k) == saturating_fold(vcpu_pairs(s).take(k)),
    decreases k,
{
    if k > 0 {
        lemma_total_prefix(s, k - 1);
        assert(vcpu_pairs(s).take(k).drop_last() =~= vcpu_pairs(s).take(k - 1));
    }
}

/// A VM's total jiffies is the sum of its per-vCPU jiffies, folded with
/// `saturating_add`: the exact sum, or `u64::MAX` when that would
/// overflow; there is a total exactly when there are per-vCPU values.
pub proof fn lemma_total_is_saturating_sum(s: IpcVmCpuSample)
    ensures
        saturating_total(s.vcpu_jiffies@, paired_len(s)) == saturating_fold(vcpu_pairs(s)),
        saturating_fold(vcpu_pairs(s)) == if jiffies_sum(vcpu_pairs(s)) > u64::MAX {
            u64::MAX as nat
        } else {
            jiffies_sum(vcpu_pairs(s))
        },
{
    lemma_total_prefix(s, paired_len(s));
    assert(vcpu_pairs(s).take(paired_len(s)) =~= vcpu_pairs(s));
    lemma_fold_is_capped_sum(vcpu_pairs(s));
}

/// (vCPU index, jiffies) pairs, position by position, up to the shorter of
/// the two arrays.
pub fn vm_vcpu_jiffies(vm: &IpcVmStatus) -> (r: Option<Vec<(u32, u64)>>)
    ensures
        match vm.cpu_sample {
            None => r is None,
            Some(s) => r matches Some(v) && v@.len() == paired_len(s) && (forall|i: int|
                0 <= i < v@.len() ==> #[trigger] v@[i] == (s.vcpu_indices@[i], s.vcpu_jiffies@[i]))
                && v@ == vcpu_pairs(s),
        },
{
    let sample = match vm.cpu_sample.as_ref() {
        Some(s) => s,
        None => return None,
    };
    let len = if sample.vcpu_indices.len() <= sample.vcpu_jiffies.len() {
        sample.vcpu_indices.len()
    } else {
        sample.vcpu_jiffies.len()
    };
    let mut out: Vec<(u32, u64)> = Vec::new();
    let mut i: usize = 0;
    while i < len
        invariant
            i <= len,
            len == paired_len(*sample),
            out@.len() == i,
            forall|k: int|
                0 <= k < i ==> #[trigger] out@[k] == (sample.vcpu_indices@[k], sample.vcpu_jiffies@[k]),
        decreases len - i,
    {
        out.push((sample.vcpu_indices[i], sample.vcpu_jiffies[i]));
        i = i + 1;
    }
    assert(out@ =~= vcpu_pairs(*sample));
    Some(out)
}

/// Saturating sum of the first `n` values.
pub open spec fn saturating_total(s: Seq<u64>, n: int) -> u64
    decreases n,
{
    if n <= 0 {
        0
    } else {
        let p = saturating_total(s, n - 1);
        if p + s[n - 1] > u64::MAX {
            u64::MAX
        } else {
            (p + s[n - 1]) as u64
        }
    }
}

/// Total jiffies over the paired vCPUs, saturating at `u64::MAX`.
pub fn vm_total_jiffies(vm: &IpcVmStatus) -> (r: Option<u64>)
    ensures
        match vm.cpu_sample {
            None => r is None,
            Some(s) => r == Some(saturating_total(s.vcpu_jiffies@, paired_len(s))),
        },
{
    let sample = match vm.cpu_sample.as_ref() {
        Some(s) => s,
        None => return None,
    };
    let len = if sample.vcpu_indices.len() <= sample.vcpu_jiffies.len() {
        sample.vcpu_indices.len()
    } else {
        sample.vcpu_jiffies.len()
    };
    let mut total: u64 = 0;
    let mut i: usize = 0;
    while i < len
        invariant
            i <= len,
            len == paired_len(*sample),
            len <= sample.vcpu_jiffies@.len(),
            total == saturating_total(sample.vcpu_jiffies@, i as int),
        decreases len - i,
    {
        total = total.saturating_add(sample.vcpu_jiffies[i]);
        i = i + 1;
    }
    Some(total)
}

} // verus!
