//! vCPU thread discovery and pinning decisions.
//!
//! QEMU names its vCPU threads "CPU N/KVM" (or "CPU N", "CPU N/<x>"). The
//! application lists a process's threads from procfs and sets affinities;
//! this module reads the names, decides when all vCPUs are present, and
//! plans which thread goes to which host CPU.
use vstd::prelude::*;
use crate::cpu::detect::validate::{debug_list, debug_list_exec};
use crate::error::{ChalybsError, Result};
use crate::fmt::{dec, parse_unsigned, parse_unsigned_exec, u64_to_dec};
use crate::text::{chars_of, lit, slice_chars};

verus! {

pub open spec fn is_ascii_digit(c: char) -> bool {
    '0' <= c && c <= '9'
}

/// The longest prefix of `s` made of ASCII digits.
pub open spec fn digit_prefix_len(s: Seq<char>, i: int) -> int
    decreases s.len() - i,
{
    if i < 0 || i >= s.len() || !is_ascii_digit(s[i]) {
        i
    } else {
        digit_prefix_len(s, i + 1)
    }
}

/// The vCPU index in a thread name: the decimal number right after a
/// leading "CPU ", if it fits in a `u32`.
pub open spec fn vcpu_index_of(name: Seq<char>) -> Option<u32> {
    if name.len() >= 4 && name.take(4) == "CPU "@ {
        let rest = name.skip(4);
        let digits = rest.take(digit_prefix_len(rest, 0));
        if digits.len() == 0 {
            None
        } else {
            match parse_unsigned(digits, 10, u32::MAX as nat) {
                Some(n) => Some(n as u32),
                None => None,
            }
        }
    } else {
        None
    }
}

proof fn lemma_digit_prefix(s: Seq<char>, i: int)
    requires
        0 <= i <= s.len(),
        forall|k: int| 0 <= k < i ==> is_ascii_digit(#[trigger] s[k]),
    ensures
        digit_prefix_len(s, 0) == digit_prefix_len(s, i),
    decreases i,
{
    if i > 0 {
        lemma_digit_prefix(s, i - 1);
    }
}

/// The vCPU index in a QEMU thread name.
pub fn parse_vcpu_name(name: &str) -> (r: Option<u32>)
    ensures
        r == vcpu_index_of(name@),
{
    let v = chars_of(name);
    proof {
        reveal_strlit("CPU ");
    }
    if !(v.len() >= 4 && v[0] == 'C' && v[1] == 'P' && v[2] == 'U' && v[3] == ' ') {
        proof {
            if v@.len() >= 4 && v@.take(4) == "CPU "@ {
                assert(v@.take(4)[0] == v@[0] && v@.take(4)[1] == v@[1]);
                assert(v@.take(4)[2] == v@[2] && v@.take(4)[3] == v@[3]);
            }
        }
        return None;
    }
    assert(v@.take(4) =~= "CPU "@);
    let rest = slice_chars(v.as_slice(), 4, v.len());
    assert(rest@ =~= v@.skip(4));
    let mut n: usize = 0;
    while n < rest.len() && '0' <= rest[n] && rest[n] <= '9'
        invariant
            n <= rest@.len(),
            forall|k: int| 0 <= k < n ==> is_ascii_digit(#[trigger] rest@[k]),
        decreases rest@.len() - n,
    {
        n = n + 1;
    }
    proof {
        lemma_digit_prefix(rest@, n as int);
    }
    if n == 0 {
        return None;
    }
    let digits = slice_chars(rest.as_slice(), 0, n);
    assert(digits@ =~= rest@.take(n as int));
    match parse_unsigned_exec(digits.as_slice(), 10, 0xffff_ffff) {
        Some(x) => Some(x as u32),
        None => None,
    }
}

/// vCPU threads among a process's threads: (thread id, vCPU index) for
/// each thread whose name carries an index, in thread order.
pub open spec fn vcpu_threads(tasks: Seq<(i32, Seq<char>)>) -> Seq<(i32, u32)>
    decreases tasks.len(),
{
    if tasks.len() == 0 {
        Seq::empty()
    } else {
        let p = vcpu_threads(tasks.drop_last());
        match vcpu_index_of(tasks.last().1) {
            Some(i) => p.push((tasks.last().0, i)),
            None => p,
        }
    }
}

pub open spec fn task_views(tasks: Seq<(i32, String)>) -> Seq<(i32, Seq<char>)> {
    tasks.map_values(|t: (i32, String)| (t.0, t.1@))
}

/// Keep the threads whose names carry a vCPU index.
pub fn discover_vcpus(tasks: &Vec<(i32, String)>) -> (r: Vec<(i32, u32)>)
    ensures
        r@ == vcpu_threads(task_views(tasks@)),
{
    let mut out: Vec<(i32, u32)> = Vec::new();
    let mut i: usize = 0;
    while i < tasks.len()
        invariant
            i <= tasks@.len(),
            out@ == vcpu_threads(task_views(tasks@.take(i as int))),
        decreases tasks@.len() - i,
    {
        assert(task_views(tasks@.take(i + 1)).drop_last() =~= task_views(tasks@.take(i as int)));
        assert(task_views(tasks@.take(i + 1)).last() == (tasks@[i as int].0, tasks@[i as int].1@));
        match parse_vcpu_name(tasks[i].1.as_str()) {
            Some(idx) => out.push((tasks[i].0, idx)),
            None => {},
        }
        i = i + 1;
    }
    assert(tasks@.take(tasks@.len() as int) =~= tasks@);
    out
}

/// Whether `k` is the index of one of the threads.
pub open spec fn has_index(threads: Seq<(i32, u32)>, k: u32) -> bool {
    exists|j: int| 0 <= j < threads.len() && (#[trigger] threads[j]).1 == k
}

/// All vCPUs are present: the thread indices are exactly 0..expected.
pub open spec fn all_present(threads: Seq<(i32, u32)>, expected: u32) -> bool {
    &&& forall|k: u32| k < expected ==> has_index(threads, k)
    &&& forall|j: int| 0 <= j < threads.len() ==> (#[trigger] threads[j]).1 < expected
}

fn find_index(threads: &Vec<(i32, u32)>, k: u32) -> (r: bool)
    ensures
        r == has_index(threads@, k),
{
    let mut j: usize = 0;
    while j < threads.len()
        invariant
            j <= threads@.len(),
            forall|m: int| 0 <= m < j ==> (#[trigger] threads@[m]).1 != k,
        decreases threads@.len() - j,
    {
        if threads[j].1 == k {
            return true;
        }
        j = j + 1;
    }
    false
}

/// The readiness barrier: the set of thread indices is exactly
/// 0..expected.
pub fn all_vcpus_present(threads: &Vec<(i32, u32)>, expected: u32) -> (r: bool)
    ensures
        r == all_present(threads@, expected),
{
    let mut j: usize = 0;
    while j < threads.len()
        invariant
            j <= threads@.len(),
            forall|m: int| 0 <= m < j ==> (#[trigger] threads@[m]).1 < expected,
        decreases threads@.len() - j,
    {
        if threads[j].1 >= expected {
            return false;
        }
        j = j + 1;
    }
    let mut k: u32 = 0;
    while k < expected
        invariant
            k <= expected,
            forall|x: u32| x < k ==> has_index(threads@, x),
        decreases expected - k,
    {
        if !find_index(threads, k) {
            return false;
        }
        k = k + 1;
    }
    true
}

/// The error when the vCPU threads never all appeared.
pub fn vcpu_wait_timeout(expected: u32, pid: i32) -> (r: ChalybsError)
    ensures
        r matches ChalybsError::Affinity(m) && m@ == "timed out waiting for "@ + dec(expected as nat)
            + " vCPU threads for QEMU pid "@ + crate::state::int_text(pid as int) + " via procfs"@,
{
    let mut m = lit("timed out waiting for ");
    m.append(u64_to_dec(expected as u64).as_str());
    m.append(" vCPU threads for QEMU pid ");
    m.append(crate::state::i64_to_dec(pid as i64).as_str());
    m.append(" via procfs");
    ChalybsError::Affinity(m)
}

/// The thread of the last entry with index `k`.
pub open spec fn last_tid(threads: Seq<(i32, u32)>, k: u32) -> Option<i32>
    decreases threads.len(),
{
    if threads.len() == 0 {
        None
    } else if threads.last().1 == k {
        Some(threads.last().0)
    } else {
        last_tid(threads.drop_last(), k)
    }
}

/// Indices below `expected` that no thread carries, in increasing order.
pub open spec fn missing_indices(threads: Seq<(i32, u32)>, expected: nat) -> Seq<u64>
    decreases expected,
{
    if expected == 0 {
        Seq::empty()
    } else {
        let p = missing_indices(threads, (expected - 1) as nat);
        if has_index(threads, (expected - 1) as u32) {
            p
        } else {
            p.push((expected - 1) as u64)
        }
    }
}

/// One pin: vCPU thread `tid` with index `vcpu` goes to host CPU `cpu`.
#[derive(Debug, Clone, Copy, PartialEq, Eq, Structural)]
pub struct VcpuPin {
    pub tid: i32,
    pub vcpu: u32,
    pub cpu: u32,
}

/// The pins: for every index carried by a thread and mapped by `vm_cpus`,
/// the last such thread goes to `vm_cpus[index]`; in increasing index
/// order (the order of the pins does not change their effect).
pub open spec fn pins_ok(pins: Seq<VcpuPin>, threads: Seq<(i32, u32)>, vm_cpus: Seq<u32>) -> bool {
    &&& forall|a: int, b: int| 0 <= a < b < pins.len() ==> pins[a].vcpu < pins[b].vcpu
    &&& forall|a: int|
        0 <= a < pins.len() ==> {
            let p = #[trigger] pins[a];
            &&& p.vcpu < vm_cpus.len()
            &&& last_tid(threads, p.vcpu) == Some(p.tid)
            &&& p.cpu == vm_cpus[p.vcpu as int]
        }
    &&& forall|k: u32|
        has_index(threads, k) && k < vm_cpus.len() ==> exists|a: int|
            0 <= a < pins.len() && (#[trigger] pins[a]).vcpu == k
}

proof fn lemma_last_tid(threads: Seq<(i32, u32)>, k: u32)
    ensures
        has_index(threads, k) <==> last_tid(threads, k) is Some,
    decreases threads.len(),
{
    if threads.len() > 0 {
        lemma_last_tid(threads.drop_last(), k);
        if has_index(threads, k) && threads.last().1 != k {
            let j = choose|j: int| 0 <= j < threads.len() && (#[trigger] threads[j]).1 == k;
            assert(threads.drop_last()[j] == threads[j]);
        }
        if has_index(threads.drop_last(), k) {
            let j = choose|j: int| 0 <= j < threads.len() - 1 && (#[trigger] threads.drop_last()[j]).1 == k;
            assert(threads[j] == threads.drop_last()[j]);
        }
        if threads.last().1 == k {
            assert(threads[threads.len() - 1].1 == k);
        }
    }
}

fn find_last_tid(threads: &Vec<(i32, u32)>, k: u32) -> (r: Option<i32>)
    ensures
        r == last_tid(threads@, k),
{
    let mut j: usize = threads.len();
    assert(threads@.take(j as int) =~= threads@);
    while j > 0
        invariant
            j <= threads@.len(),
            last_tid(threads@, k) == last_tid(threads@.take(j as int), k),
        decreases j,
    {
        assert(threads@.take(j as int).drop_last() =~= threads@.take(j - 1));
        if threads[j - 1].1 == k {
            return Some(threads[j - 1].0);
        }
        j = j - 1;
    }
    None
}

/// Plan the pinning of vCPU threads onto the VM's host CPUs: fails when
/// `vm_cpus` is shorter than the vCPU count, or when an index below the
/// vCPU count has no thread.
pub fn plan_vcpu_pins(threads: &Vec<(i32, u32)>, vm_cpus: &Vec<u32>, expected: usize) -> (r: Result<
    Vec<VcpuPin>,
>)
    requires
        expected <= u32::MAX,
    ensures
        vm_cpus@.len() < expected ==> (r matches Err(ChalybsError::Affinity(m)) && m@
            == "vm_cpus length "@ + dec(vm_cpus@.len()) + " < expected num_vcpus "@ + dec(
            expected as nat,
        )),
        vm_cpus@.len() >= expected && missing_indices(threads@, expected as nat).len() > 0 ==> (r matches Err(
            ChalybsError::Affinity(m),
        ) && m@ == "missing vCPU threads for indices: "@ + debug_list(
            missing_indices(threads@, expected as nat),
        )),
        vm_cpus@.len() >= expected && missing_indices(threads@, expected as nat).len() == 0 ==> (r matches Ok(
            p,
        ) && pins_ok(p@, threads@, vm_cpus@)),
{
    if vm_cpus.len() < expected {
        let mut m = lit("vm_cpus length ");
        m.append(u64_to_dec(vm_cpus.len() as u64).as_str());
        m.append(" < expected num_vcpus ");
        m.append(u64_to_dec(expected as u64).as_str());
        return Err(ChalybsError::Affinity(m));
    }
    let mut missing: Vec<u64> = Vec::new();
    let mut k: usize = 0;
    while k < expected
        invariant
            k <= expected <= u32::MAX,
            missing@ == missing_indices(threads@, k as nat),
        decreases expected - k,
    {
        if !find_index(threads, k as u32) {
            missing.push(k as u64);
        }
        k = k + 1;
    }
    if missing.len() > 0 {
        let mut m = lit("missing vCPU threads for indices: ");
        m.append(debug_list_exec(&missing).as_str());
        return Err(ChalybsError::Affinity(m));
    }
    let mut pins: Vec<VcpuPin> = Vec::new();
    let mut i: usize = 0;
    while i < vm_cpus.len()
        invariant
            i <= vm_cpus@.len(),
            forall|a: int, b: int| 0 <= a < b < pins@.len() ==> pins@[a].vcpu < pins@[b].vcpu,
            forall|a: int| 0 <= a < pins@.len() ==> (#[trigger] pins@[a]).vcpu < i,
            forall|a: int|
                0 <= a < pins@.len() ==> {
                    let p = #[trigger] pins@[a];
                    &&& p.vcpu < vm_cpus@.len()
                    &&& last_tid(threads@, p.vcpu) == Some(p.tid)
                    &&& p.cpu == vm_cpus@[p.vcpu as int]
                },
            forall|x: u32|
                has_index(threads@, x) && x < i ==> exists|a: int|
                    0 <= a < pins@.len() && (#[trigger] pins@[a]).vcpu == x,
        decreases vm_cpus@.len() - i,
    {
        let ghost before = pins@;
        if i <= u32::MAX as usize {
            match find_last_tid(threads, i as u32) {
                Some(tid) => {
                    pins.push(VcpuPin { tid, vcpu: i as u32, cpu: vm_cpus[i] });
                    assert(pins@[before.len() as int].vcpu == i as u32);
                },
                None => {
                    proof {
                        lemma_last_tid(threads@, i as u32);
                    }
                },
            }
        }
        proof {
            assert forall|x: u32| has_index(threads@, x) && x < i + 1 implies exists|a: int|
                0 <= a < pins@.len() && (#[trigger] pins@[a]).vcpu == x by {
                if x == i {
                    lemma_last_tid(threads@, x);
                    assert(pins@[pins@.len() - 1].vcpu == x);
                } else {
                    let a = choose|a: int| 0 <= a < before.len() && (#[trigger] before[a]).vcpu == x;
                    assert(pins@[a] == before[a]);
                }
            }
        }
        i = i + 1;
    }
    Ok(pins)
}

} // verus!
