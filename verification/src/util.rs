//! CPU list parsing ("0-3,8,9,10-12").
use vstd::prelude::*;
use crate::error::{ChalybsError, Result};
use crate::fmt::{parse_err_message, parse_err_text, parse_full, parse_unsigned_full, ParseErrKind};
use crate::text::{chars_of, lit, split_on, split_on_exec, split_once, split_once_exec, string_of, trim, trim_chars, seqs_of};

verus! {

/// CPUs `start..=end` in order; empty when `end < start`.
pub open spec fn cpu_range(start: nat, end: nat) -> Seq<u32> {
    if end < start {
        Seq::empty()
    } else {
        Seq::new((end - start + 1) as nat, |i: int| (start + i) as u32)
    }
}

/// Push `start..=end` onto `out`.
pub fn push_cpu_range(out: &mut Vec<u32>, start: u32, end: u32)
    ensures
        final(out)@ == old(out)@ + cpu_range(start as nat, end as nat),
{
    if end < start {
        assert(old(out)@ + cpu_range(start as nat, end as nat) =~= old(out)@);
        return;
    }
    let ghost base = out@;
    let mut c: u64 = start as u64;
    assert(out@ =~= base + Seq::new((c - start) as nat, |i: int| (start + i) as u32));
    while c <= end as u64
        invariant
            start <= end,
            start <= c <= end as u64 + 1,
            out@ == base + Seq::new((c - start) as nat, |i: int| (start + i) as u32),
        decreases end as u64 + 1 - c,
    {
        out.push(c as u32);
        c = c + 1;
        assert(out@ =~= base + Seq::new((c - start) as nat, |i: int| (start + i) as u32));
    }
    assert(out@ =~= base + cpu_range(start as nat, end as nat));
}

/// The CPUs one comma-separated field stands for, or the error text.
pub open spec fn cpu_field(t: Seq<char>) -> core::result::Result<Seq<u32>, Seq<char>> {
    match split_once(t, '-') {
        Some((a, b)) => match parse_full(a, 10, u32::MAX as nat) {
            Err(e) => Err("invalid cpu range start '"@ + a + "': "@ + parse_err_text(e)),
            Ok(x) => match parse_full(b, 10, u32::MAX as nat) {
                Err(e) => Err("invalid cpu range end '"@ + b + "': "@ + parse_err_text(e)),
                Ok(y) => Ok(cpu_range(x, y)),
            },
        },
        None => match parse_full(t, 10, u32::MAX as nat) {
            Err(e) => Err("invalid cpu '"@ + t + "': "@ + parse_err_text(e)),
            Ok(x) => Ok(seq![x as u32]),
        },
    }
}

/// CPUs of the comma-separated fields, trimmed, blank ones skipped; the
/// first bad field's error.
pub open spec fn cpu_fields(parts: Seq<Seq<char>>) -> core::result::Result<Seq<u32>, Seq<char>>
    decreases parts.len(),
{
    if parts.len() == 0 {
        Ok(Seq::empty())
    } else {
        match cpu_fields(parts.drop_last()) {
            Err(e) => Err(e),
            Ok(p) => {
                let t = trim(parts.last());
                if t.len() == 0 {
                    Ok(p)
                } else {
                    match cpu_field(t) {
                        Err(e) => Err(e),
                        Ok(c) => Ok(p + c),
                    }
                }
            },
        }
    }
}

pub open spec fn cpu_list(s: Seq<char>) -> core::result::Result<Seq<u32>, Seq<char>> {
    cpu_fields(split_on(s, ','))
}

fn parse_u32_full(v: &[char]) -> (r: core::result::Result<u32, ParseErrKind>)
    ensures
        match parse_full(v@, 10, u32::MAX as nat) {
            Ok(n) => r == Ok::<u32, ParseErrKind>(n as u32) && n <= u32::MAX,
            Err(e) => r == Err::<u32, ParseErrKind>(e),
        },
{
    match parse_unsigned_full(v, 10, u32::MAX as u64) {
        Ok(n) => Ok(n as u32),
        Err(e) => Err(e),
    }
}

fn cpu_field_exec(t: &Vec<char>, out: &mut Vec<u32>) -> (r: Result<()>)
    ensures
        match cpu_field(t@) {
            Ok(c) => r is Ok && final(out)@ == old(out)@ + c,
            Err(m) => r matches Err(ChalybsError::Config(x)) && x@ == m,
        },
{
    match split_once_exec(t, '-') {
        Some((a, b)) => {
            let start = match parse_u32_full(&a) {
                Ok(x) => x,
                Err(e) => {
                    let mut m = lit("invalid cpu range start '");
                    m.append(string_of(&a).as_str());
                    m.append("': ");
                    m.append(parse_err_message(e).as_str());
                    return Err(ChalybsError::Config(m));
                },
            };
            let end = match parse_u32_full(&b) {
                Ok(x) => x,
                Err(e) => {
                    let mut m = lit("invalid cpu range end '");
                    m.append(string_of(&b).as_str());
                    m.append("': ");
                    m.append(parse_err_message(e).as_str());
                    return Err(ChalybsError::Config(m));
                },
            };
            push_cpu_range(out, start, end);
            Ok(())
        },
        None => {
            let c = match parse_u32_full(t) {
                Ok(x) => x,
                Err(e) => {
                    let mut m = lit("invalid cpu '");
                    m.append(string_of(t).as_str());
                    m.append("': ");
                    m.append(parse_err_message(e).as_str());
                    return Err(ChalybsError::Config(m));
                },
            };
            let ghost pre = out@;
            out.push(c);
            assert(out@ =~= pre + seq![c]);
            Ok(())
        },
    }
}

/// Parse a CPU list such as "0-3,8,9,10-12" into CPU ids in order.
pub fn parse_cpu_list(s: &str) -> (r: Result<Vec<u32>>)
    ensures
        match cpu_list(s@) {
            Ok(c) => r matches Ok(v) && v@ == c,
            Err(m) => r matches Err(ChalybsError::Config(x)) && x@ == m,
        },
{
    let v = chars_of(s);
    let parts = split_on_exec(&v, ',');
    let ghost ps = seqs_of(parts@);
    let mut cpus: Vec<u32> = Vec::new();
    let mut i: usize = 0;
    assert(ps.take(0) =~= Seq::<Seq<char>>::empty());
    while i < parts.len()
        invariant
            i <= parts@.len(),
            ps == seqs_of(parts@),
            ps == split_on(s@, ','),
            cpu_fields(ps.take(i as int)) == Ok::<Seq<u32>, Seq<char>>(cpus@),
        decreases parts@.len() - i,
    {
        let ghost pre = cpus@;
        assert(ps.take(i + 1).drop_last() =~= ps.take(i as int));
        assert(ps.take(i + 1).last() == parts@[i as int]@);
        let t = trim_chars(&parts[i]);
        if t.len() > 0 {
            match cpu_field_exec(&t, &mut cpus) {
                Ok(()) => {},
                Err(e) => {
                    proof {
                        lemma_fields_err_sticks(ps, i + 1);
                    }
                    return Err(e);
                },
            }
        }
        i = i + 1;
    }
    assert(ps.take(ps.len() as int) =~= ps);
    Ok(cpus)
}

proof fn lemma_fields_err_sticks(ps: Seq<Seq<char>>, n: int)
    requires
        0 <= n <= ps.len(),
        cpu_fields(ps.take(n)) is Err,
    ensures
        cpu_fields(ps) == cpu_fields(ps.take(n)),
    decreases ps.len() - n,
{
    if n < ps.len() {
        assert(ps.take(n + 1).drop_last() =~= ps.take(n));
        lemma_fields_err_sticks(ps, n + 1);
    } else {
        assert(ps.take(n) =~= ps);
    }
}

} // verus!
