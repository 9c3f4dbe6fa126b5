//! Host NUMA topology as read from sysfs, and the lenient cpulist parser
//! used on `/sys/devices/system/node/node*/cpulist`.
use vstd::prelude::*;
use crate::fmt::{parse_unsigned, parse_unsigned_exec, parse_u32};
use crate::sorted::{sorted_unique, strictly_sorted};
use crate::text::{
    chars_of, seqs_of, slice_chars, split_on, split_on_exec, split_once, split_once_exec, starts_with,
    starts_with_exec, trim, trim_chars, trim_str,
};
use crate::util::{cpu_range, push_cpu_range};

verus! {

#[derive(Debug, Clone)]
pub struct HostNumaNode {
    pub node_id: u32,
    pub cpus: Vec<u32>,
}

#[derive(Debug, Clone)]
pub struct HostNumaTopology {
    pub nodes: Vec<HostNumaNode>,
}

/// CPUs of one trimmed, non-blank field. Invalid pieces are skipped: a
/// range whose end does not parse stands for its start alone ("0-x" is
/// CPU 0); one whose start does not parse, a range whose end precedes its
/// start, and a single number that does not parse stand for none.
pub open spec fn lenient_field(t: Seq<char>) -> Seq<u32> {
    match split_once(t, '-') {
        Some((a, b)) => match (
            parse_unsigned(trim(a), 10, u32::MAX as nat),
            parse_unsigned(trim(b), 10, u32::MAX as nat),
        ) {
            (Some(x), Some(y)) => cpu_range(x, y),
            (Some(x), None) => seq![x as u32],
            _ => Seq::empty(),
        },
        None => match parse_unsigned(t, 10, u32::MAX as nat) {
            Some(x) => seq![x as u32],
            None => Seq::empty(),
        },
    }
}

pub open spec fn lenient_fields(parts: Seq<Seq<char>>) -> Seq<u32>
    decreases parts.len(),
{
    if parts.len() == 0 {
        Seq::empty()
    } else {
        let t = trim(parts.last());
        lenient_fields(parts.drop_last()) + if t.len() == 0 {
            Seq::<u32>::empty()
        } else {
            lenient_field(t)
        }
    }
}

fn lenient_field_exec(t: &Vec<char>, out: &mut Vec<u32>)
    ensures
        final(out)@ == old(out)@ + lenient_field(t@),
{
    let ghost base = out@;
    match split_once_exec(t, '-') {
        Some((a, b)) => {
            let x = parse_u32(&trim_chars(&a));
            let y = parse_u32(&trim_chars(&b));
            match (x, y) {
                (Some(x), Some(y)) => {
                    push_cpu_range(out, x, y);
                },
                (Some(x), None) => {
                    out.push(x);
                    assert(out@ =~= base + lenient_field(t@));
                },
                _ => {
                    assert(out@ =~= base + lenient_field(t@));
                },
            }
        },
        None => {
            match parse_u32(t) {
                Some(c) => {
                    out.push(c);
                    assert(out@ =~= base + lenient_field(t@));
                },
                None => {
                    assert(out@ =~= base + lenient_field(t@));
                },
            }
        },
    }
}

/// Parse a Linux cpulist ("0-7,16-23,32"), skipping fields that do not
/// parse and ranges whose end precedes their start.
pub fn parse_cpulist(s: &str) -> (r: Vec<u32>)
    ensures
        r@ == lenient_fields(split_on(s@, ',')),
{
    let v = chars_of(s);
    let parts = split_on_exec(&v, ',');
    let ghost ps = seqs_of(parts@);
    let mut out: Vec<u32> = Vec::new();
    let mut i: usize = 0;
    assert(ps.take(0) =~= Seq::<Seq<char>>::empty());
    while i < parts.len()
        invariant
            i <= parts@.len(),
            ps == seqs_of(parts@),
            out@ == lenient_fields(ps.take(i as int)),
        decreases parts@.len() - i,
    {
        assert(ps.take(i + 1).drop_last() =~= ps.take(i as int));
        assert(ps.take(i + 1).last() == parts@[i as int]@);
        let t = trim_chars(&parts[i]);
        if t.len() > 0 {
            lenient_field_exec(&t, &mut out);
        } else {
            assert(out@ + Seq::<u32>::empty() =~= out@);
        }
        i = i + 1;
    }
    assert(ps.take(ps.len() as int) =~= ps);
    out
}

/// Distinct CPU ids in increasing order, as `sort_unstable` + `dedup`
/// leave them.
pub fn normalize_cpus(cpus: &Vec<u32>) -> (r: Vec<u32>)
    ensures
        forall|i: int, j: int| 0 <= i < j < r@.len() ==> r@[i] < r@[j],
        forall|x: u32| #[trigger] r@.contains(x) <==> cpus@.contains(x),
{
    let mut wide: Vec<u64> = Vec::new();
    let mut i: usize = 0;
    while i < cpus.len()
        invariant
            i <= cpus@.len(),
            wide@ == cpus@.take(i as int).map_values(|x: u32| x as u64),
        decreases cpus@.len() - i,
    {
        wide.push(cpus[i] as u64);
        i = i + 1;
        assert(wide@ =~= cpus@.take(i as int).map_values(|x: u32| x as u64));
    }
    assert(cpus@.take(cpus@.len() as int) =~= cpus@);
    let s = sorted_unique(&wide);
    let mut out: Vec<u32> = Vec::new();
    let mut j: usize = 0;
    while j < s.len()
        invariant
            j <= s@.len(),
            strictly_sorted(s@),
            s@.to_set() == wide@.to_set(),
            wide@ == cpus@.map_values(|x: u32| x as u64),
            out@.len() == j,
            forall|k: int| 0 <= k < j ==> out@[k] as u64 == s@[k],
        decreases s@.len() - j,
    {
        proof {
            assert(wide@.to_set().contains(s@[j as int]));
            let k = choose|k: int| 0 <= k < wide@.len() && wide@[k] == s@[j as int];
            assert(wide@[k] == cpus@[k] as u64);
        }
        assert(s@[j as int] <= u32::MAX);
        out.push(s[j] as u32);
        j = j + 1;
    }
    assert forall|a: int, b: int| 0 <= a < b < out@.len() implies out@[a] < out@[b] by {
        assert(s@[a] < s@[b]);
    }
    assert forall|x: u32| #[trigger] out@.contains(x) <==> cpus@.contains(x) by {
        if out@.contains(x) {
            let k = choose|k: int| 0 <= k < out@.len() && out@[k] == x;
            assert(s@.to_set().contains(s@[k]));
            let m = choose|m: int| 0 <= m < wide@.len() && wide@[m] == s@[k];
            assert(cpus@[m] == x);
        }
        if cpus@.contains(x) {
            let m = choose|m: int| 0 <= m < cpus@.len() && cpus@[m] == x;
            assert(wide@[m] == x as u64);
            assert(wide@.to_set().contains(x as u64));
            assert(s@.contains(x as u64));
            let k = choose|k: int| 0 <= k < s@.len() && s@[k] == x as u64;
            assert(out@[k] == x);
        }
    }
    out
}

/// A `/sys/devices/system/node` entry as a NUMA node: a "node<N>" name
/// and a readable cpulist naming at least one CPU (as `parse_cpulist`
/// reads its trimmed text).
pub open spec fn node_entry(name: Seq<char>, text: Option<Seq<char>>) -> Option<(u32, Seq<u32>)> {
    if starts_with(name, "node"@) {
        match (parse_unsigned(name.skip(4), 10, u32::MAX as nat), text) {
            (Some(id), Some(t)) => {
                let c = lenient_fields(split_on(trim(t), ','));
                if c.len() == 0 {
                    None
                } else {
                    Some((id as u32, c))
                }
            },
            _ => None,
        }
    } else {
        None
    }
}

/// The nodes among the entries, in directory order.
pub open spec fn node_entries(es: Seq<(Seq<char>, Option<Seq<char>>)>) -> Seq<(u32, Seq<u32>)>
    decreases es.len(),
{
    if es.len() == 0 {
        Seq::empty()
    } else {
        match node_entry(es.last().0, es.last().1) {
            Some(n) => node_entries(es.drop_last()).push(n),
            None => node_entries(es.drop_last()),
        }
    }
}

pub open spec fn dir_views(v: Seq<(String, Option<String>)>) -> Seq<(Seq<char>, Option<Seq<char>>)> {
    v.map_values(
        |e: (String, Option<String>)|
            (
                e.0@,
                match e.1 {
                    Some(s) => Some(s@),
                    None => None,
                },
            ),
    )
}

/// The topology from the entries of `/sys/devices/system/node` (name and
/// cpulist text, `None` when unreadable), in directory order: each node's
/// CPUs distinct and increasing.
pub fn topology_from_entries(entries: &Vec<(String, Option<String>)>) -> (r: HostNumaTopology)
    ensures
        r.nodes@.len() == node_entries(dir_views(entries@)).len(),
        forall|i: int|
            0 <= i < r.nodes@.len() ==> {
                let n = node_entries(dir_views(entries@))[i];
                &&& (#[trigger] r.nodes@[i]).node_id == n.0
                &&& forall|a: int, b: int| 0 <= a < b < r.nodes@[i].cpus@.len() ==> r.nodes@[i].cpus@[a] < r.nodes@[i].cpus@[b]
                &&& forall|x: u32| r.nodes@[i].cpus@.contains(x) <==> n.1.contains(x)
            },
{
    let ghost dv = dir_views(entries@);
    let mut nodes: Vec<HostNumaNode> = Vec::new();
    proof {
        reveal_strlit("node");
    }
    let prefix = chars_of("node");
    let mut i: usize = 0;
    while i < entries.len()
        invariant
            i <= entries@.len(),
            dv == dir_views(entries@),
            prefix@ == "node"@,
            prefix@.len() == 4,
            nodes@.len() == node_entries(dv.take(i as int)).len(),
            forall|k: int|
                0 <= k < nodes@.len() ==> {
                    let n = node_entries(dv.take(i as int))[k];
                    &&& (#[trigger] nodes@[k]).node_id == n.0
                    &&& forall|a: int, b: int| 0 <= a < b < nodes@[k].cpus@.len() ==> nodes@[k].cpus@[a] < nodes@[k].cpus@[b]
                    &&& forall|x: u32| nodes@[k].cpus@.contains(x) <==> n.1.contains(x)
                },
        decreases entries@.len() - i,
    {
        let ghost before = node_entries(dv.take(i as int));
        assert(dv.take(i + 1).drop_last() =~= dv.take(i as int));
        assert(dv.take(i + 1).last() == dv[i as int]);
        let name = chars_of(entries[i].0.as_str());
        let mut found: Option<(u32, Vec<u32>)> = None;
        if starts_with_exec(name.as_slice(), prefix.as_slice()) {
            let rest = slice_chars(name.as_slice(), 4, name.len());
            assert(rest@ =~= name@.skip(4));
            match (parse_unsigned_exec(rest.as_slice(), 10, u32::MAX as u64), &entries[i].1) {
                (Some(id), Some(t)) => {
                    let trimmed = trim_str(t.as_str());
                    let text = crate::text::string_of(trimmed.as_slice());
                    let cpus = parse_cpulist(text.as_str());
                    if cpus.len() > 0 {
                        found = Some((id as u32, cpus));
                    }
                },
                _ => {},
            }
        }
        match found {
            Some((id, cpus)) => {
                let norm = normalize_cpus(&cpus);
                nodes.push(HostNumaNode { node_id: id, cpus: norm });
                assert(node_entries(dv.take(i + 1)) == before.push((id, cpus@)));
            },
            None => {
                assert(node_entries(dv.take(i + 1)) == before);
            },
        }
        i = i + 1;
    }
    assert(dv.take(entries@.len() as int) =~= dv);
    HostNumaTopology { nodes }
}

} // verus!
