//! IRQ affinity: masks, cpulists and the selection of target CPUs.
use vstd::prelude::*;
use crate::error::{ChalybsError, Result};
use crate::fmt::{dec, parse_unsigned, parse_u32, radix_digits, u128_to_hex, u64_to_dec};
use crate::sorted::{sorted_unique, strictly_sorted};
use crate::text::{chars_of, contains_sub, contains_sub_exec, lit, seqs_of, split_on, split_on_exec, split_once, split_once_exec, trim, trim_chars};

pub mod pin;

verus! {

/// The affinity mask with one bit per CPU.
pub open spec fn mask_of(s: Seq<u32>) -> u128
    decreases s.len(),
{
    if s.len() == 0 {
        0
    } else {
        mask_of(s.drop_last()) | (1u128 << (s.last() as u128))
    }
}

/// The first CPU (in list order) that does not fit a 128-bit mask.
pub open spec fn first_big_cpu(s: Seq<u32>) -> Option<u32>
    decreases s.len(),
{
    if s.len() == 0 {
        None
    } else {
        match first_big_cpu(s.drop_last()) {
            Some(c) => Some(c),
            None => if s.last() >= 128 {
                Some(s.last())
            } else {
                None
            },
        }
    }
}

/// A non-empty list of CPUs below 128 gives a non-zero mask.
pub proof fn lemma_mask_nonzero(s: Seq<u32>)
    requires
        s.len() > 0,
        first_big_cpu(s) is None,
    ensures
        mask_of(s) != 0,
    decreases s.len(),
{
    let m = mask_of(s.drop_last());
    let c = s.last() as u128;
    if first_big_cpu(s.drop_last()) is None {
        assert(c < 128);
        assert((m | (1u128 << c)) != 0) by (bit_vector)
            requires
                c < 128,
        ;
    }
}

pub open spec fn big_cpu_msg(c: u32) -> Seq<char> {
    "CPU index "@ + dec(c as nat) + " is too large for u128 mask (>=128)"@
}

/// Hex affinity mask for `smp_affinity`: one bit per CPU, CPUs below 128.
pub fn cpus_to_hex_mask(cpus: &[u32]) -> (r: Result<String>)
    ensures
        match first_big_cpu(cpus@) {
            Some(c) => r matches Err(ChalybsError::Irq(m)) && m@ == big_cpu_msg(c),
            None => if cpus@.len() == 0 {
                r matches Err(ChalybsError::Irq(m)) && m@
                    == "computed zero IRQ affinity mask from vm cpus"@
            } else {
                r matches Ok(s) && s@ == radix_digits(mask_of(cpus@) as nat, 16)
            },
        },
{
    let mut mask: u128 = 0;
    let mut i: usize = 0;
    while i < cpus.len()
        invariant
            i <= cpus@.len(),
            first_big_cpu(cpus@.take(i as int)) is None,
            mask == mask_of(cpus@.take(i as int)),
        decreases cpus@.len() - i,
    {
        assert(cpus@.take(i + 1).drop_last() =~= cpus@.take(i as int));
        assert(cpus@.take(i + 1).last() == cpus@[i as int]);
        let cpu = cpus[i];
        if cpu >= 128 {
            let mut m = lit("CPU index ");
            m.append(u64_to_dec(cpu as u64).as_str());
            m.append(" is too large for u128 mask (>=128)");
            proof {
                lemma_first_big_sticks(cpus@, i + 1);
            }
            return Err(ChalybsError::Irq(m));
        }
        mask = mask | (1u128 << (cpu as u128));
        i = i + 1;
    }
    assert(cpus@.take(cpus@.len() as int) =~= cpus@);
    if mask == 0 {
        proof {
            if cpus@.len() > 0 {
                lemma_mask_nonzero(cpus@);
            }
        }
        return Err(ChalybsError::Irq(lit("computed zero IRQ affinity mask from vm cpus")));
    }
    proof {
        if cpus@.len() == 0 {
            assert(mask_of(cpus@) == 0);
        }
    }
    Ok(u128_to_hex(mask))
}

proof fn lemma_first_big_sticks(s: Seq<u32>, n: int)
    requires
        0 <= n <= s.len(),
        first_big_cpu(s.take(n)) is Some,
    ensures
        first_big_cpu(s) == first_big_cpu(s.take(n)),
    decreases s.len() - n,
{
    if n < s.len() {
        assert(s.take(n + 1).drop_last() =~= s.take(n));
        lemma_first_big_sticks(s, n + 1);
    } else {
        assert(s.take(n) =~= s);
    }
}

/// The IRQ number of a `/proc/interrupts` line that mentions "vfio": the
/// trimmed text before the first ':', if it is a number.
pub open spec fn vfio_line_irq(line: Seq<char>) -> Option<u32> {
    if !contains_sub(line, "vfio"@) {
        None
    } else {
        match split_once(line, ':') {
            Some((left, _)) => match parse_unsigned(trim(left), 10, u32::MAX as nat) {
                Some(n) => Some(n as u32),
                None => None,
            },
            None => None,
        }
    }
}

/// IRQs of the vfio lines, in line order.
pub open spec fn vfio_irqs(lines: Seq<Seq<char>>) -> Seq<u32>
    decreases lines.len(),
{
    if lines.len() == 0 {
        Seq::empty()
    } else {
        let p = vfio_irqs(lines.drop_last());
        match vfio_line_irq(lines.last()) {
            Some(n) => p.push(n),
            None => p,
        }
    }
}

/// The vfio IRQ numbers listed in `/proc/interrupts` text, increasing and
/// without repeats.
pub fn vfio_irqs_from_interrupts(contents: &str) -> (r: Vec<u32>)
    ensures
        forall|i: int, j: int| 0 <= i < j < r@.len() ==> r@[i] < r@[j],
        forall|x: u32| #[trigger] r@.contains(x) <==> vfio_irqs(split_on(contents@, '\n')).contains(x),
{
    let v = chars_of(contents);
    let lines = split_on_exec(&v, '\n');
    let ghost ls = seqs_of(lines@);
    let vfio = chars_of("vfio");
    let mut irqs: Vec<u32> = Vec::new();
    let mut i: usize = 0;
    while i < lines.len()
        invariant
            i <= lines@.len(),
            ls == seqs_of(lines@),
            vfio@ == "vfio"@,
            irqs@ == vfio_irqs(ls.take(i as int)),
        decreases lines@.len() - i,
    {
        assert(ls.take(i + 1).drop_last() =~= ls.take(i as int));
        assert(ls.take(i + 1).last() == lines@[i as int]@);
        let line = &lines[i];
        if contains_sub_exec(line, &vfio) {
            match split_once_exec(line, ':') {
                Some((left, _)) => {
                    match parse_u32(&trim_chars(&left)) {
                        Some(n) => {
                            irqs.push(n);
                        },
                        None => {},
                    }
                },
                None => {},
            }
        }
        i = i + 1;
    }
    assert(ls.take(ls.len() as int) =~= ls);
    crate::cpu::detect::topology::normalize_cpus(&irqs)
}

} // verus!
