//! Sorting: integer lists, and strings in `str`'s order.
use vstd::prelude::*;
use crate::fmt::views;

verus! {

/// Strictly increasing.
pub open spec fn strictly_sorted(s: Seq<u64>) -> bool {
    forall|i: int, j: int| 0 <= i < j < s.len() ==> s[i] < s[j]
}

/// Insert `x` into a strictly increasing list, keeping it so.
pub fn insert_sorted(v: &mut Vec<u64>, x: u64)
    requires
        strictly_sorted(old(v)@),
    ensures
        strictly_sorted(final(v)@),
        final(v)@.to_set() == old(v)@.to_set().insert(x),
{
    let mut p: usize = 0;
    while p < v.len() && v[p] < x
        invariant
            p <= v@.len(),
            forall|k: int| 0 <= k < p ==> v@[k] < x,
        decreases v@.len() - p,
    {
        p = p + 1;
    }
    if p < v.len() && v[p] == x {
        assert(v@.to_set().insert(x) =~= v@.to_set()) by {
            assert(v@.contains(x) && v@[p as int] == x);
        }
        return;
    }
    let ghost old_v = v@;
    v.insert(p, x);
    assert(v@ == old_v.insert(p as int, x));
    assert forall|i: int, j: int| 0 <= i < j < v@.len() implies v@[i] < v@[j] by {
        if j < p {
        } else if j == p {
        } else if i < p {
            assert(v@[j] == old_v[j - 1]);
            assert(old_v[j - 1] >= x);
        } else if i == p {
            assert(v@[j] == old_v[j - 1]);
            assert(old_v[p as int] > x);
            if j - 1 > p {
                assert(old_v[p as int] < old_v[j - 1]);
            }
        } else {
            assert(v@[i] == old_v[i - 1]);
            assert(v@[j] == old_v[j - 1]);
        }
    }
    assert forall|y: u64| #[trigger] v@.to_set().contains(y) <==> old_v.to_set().insert(
        x,
    ).contains(y) by {
        if v@.contains(y) {
            let k = choose|k: int| 0 <= k < v@.len() && v@[k] == y;
            if k < p {
                assert(old_v[k] == y);
            } else if k > p {
                assert(old_v[k - 1] == y);
            }
        }
        if old_v.contains(y) {
            let k = choose|k: int| 0 <= k < old_v.len() && old_v[k] == y;
            if k < p {
                assert(v@[k] == y);
            } else {
                assert(v@[k + 1] == y);
            }
        }
        if y == x {
            assert(v@[p as int] == x);
        }
    }
    assert(v@.to_set() =~= old_v.to_set().insert(x));
}

/// The distinct values of `v` in increasing order.
pub fn sorted_unique(v: &Vec<u64>) -> (r: Vec<u64>)
    ensures
        strictly_sorted(r@),
        r@.to_set() == v@.to_set(),
{
    let mut out: Vec<u64> = Vec::new();
    let mut i: usize = 0;
    assert(out@.to_set() =~= v@.take(0).to_set());
    while i < v.len()
        invariant
            i <= v@.len(),
            strictly_sorted(out@),
            out@.to_set() == v@.take(i as int).to_set(),
        decreases v@.len() - i,
    {
        insert_sorted(&mut out, v[i]);
        assert(v@.take(i + 1) =~= v@.take(i as int).push(v@[i as int]));
        assert(v@.take(i + 1).to_set() =~= v@.take(i as int).to_set().insert(v@[i as int])) by {
            assert forall|y: u64| #[trigger] v@.take(i + 1).to_set().contains(y) <==> v@.take(
                i as int,
            ).to_set().insert(v@[i as int]).contains(y) by {
                if v@.take(i + 1).contains(y) {
                    let k = choose|k: int| 0 <= k < v@.take(i + 1).len() && #[trigger] v@.take(i + 1)[k] == y;
                    if k < i {
                        assert(v@.take(i as int)[k] == y);
                    }
                }
                if v@.take(i as int).contains(y) {
                    let k = choose|k: int|
                        0 <= k < v@.take(i as int).len() && #[trigger] v@.take(i as int)[k] == y;
                    assert(v@.take(i + 1)[k] == y);
                }
                if y == v@[i as int] {
                    assert(v@.take(i + 1)[i as int] == y);
                }
            }
        }
        i = i + 1;
    }
    assert(v@.take(v@.len() as int) =~= v@);
    out
}

/// Two strictly increasing lists with the same elements are equal.
pub proof fn lemma_sorted_unique_eq(a: Seq<u64>, b: Seq<u64>)
    requires
        strictly_sorted(a),
        strictly_sorted(b),
        a.to_set() == b.to_set(),
    ensures
        a == b,
    decreases a.len() + b.len(),
{
    if a.len() == 0 {
        if b.len() > 0 {
            assert(b.to_set().contains(b[0]));
            assert(a.to_set().contains(b[0]));
        }
        assert(a =~= b);
    } else if b.len() == 0 {
        assert(a.to_set().contains(a[0]));
        assert(b.to_set().contains(a[0]));
    } else {
        let la = a.last();
        let lb = b.last();
        assert(a.to_set().contains(la));
        assert(b.to_set().contains(lb));
        assert(b.to_set().contains(la));
        assert(a.to_set().contains(lb));
        let ka = choose|k: int| 0 <= k < b.len() && b[k] == la;
        let kb = choose|k: int| 0 <= k < a.len() && a[k] == lb;
        assert(la >= lb) by {
            if kb < a.len() - 1 {
                assert(a[kb] < a[a.len() - 1]);
            }
        }
        assert(lb >= la) by {
            if ka < b.len() - 1 {
                assert(b[ka] < b[b.len() - 1]);
            }
        }
        let da = a.drop_last();
        let db = b.drop_last();
        assert forall|y: u64| #[trigger] da.to_set().contains(y) <==> db.to_set().contains(y) by {
            if da.contains(y) {
                let k = choose|k: int| 0 <= k < da.len() && da[k] == y;
                assert(a[k] == y);
                assert(y < la);
                assert(a.to_set().contains(y));
                assert(b.contains(y));
                let k2 = choose|k2: int| 0 <= k2 < b.len() && b[k2] == y;
                assert(k2 != b.len() - 1);
                assert(db[k2] == y);
            }
            if db.contains(y) {
                let k = choose|k: int| 0 <= k < db.len() && db[k] == y;
                assert(b[k] == y);
                assert(y < lb);
                assert(b.to_set().contains(y));
                assert(a.contains(y));
                let k2 = choose|k2: int| 0 <= k2 < a.len() && a[k2] == y;
                assert(k2 != a.len() - 1);
                assert(da[k2] == y);
            }
        }
        assert(da.to_set() =~= db.to_set());
        lemma_sorted_unique_eq(da, db);
        assert(a =~= da.push(la));
        assert(b =~= db.push(lb));
    }
}

/// Non-decreasing.
pub open spec fn sorted(s: Seq<u64>) -> bool {
    forall|i: int, j: int| 0 <= i <= j < s.len() ==> s[i] <= s[j]
}

/// The values of `v` in non-decreasing order, repeats kept.
pub fn sort_u64(v: &Vec<u64>) -> (r: Vec<u64>)
    ensures
        sorted(r@),
        r@.to_multiset() == v@.to_multiset(),
{
    broadcast use vstd::seq_lib::group_to_multiset_ensures;

    let mut out: Vec<u64> = Vec::new();
    let mut i: usize = 0;
    assert(v@.take(0) =~= Seq::<u64>::empty());
    while i < v.len()
        invariant
            i <= v@.len(),
            sorted(out@),
            out@.to_multiset() == v@.take(i as int).to_multiset(),
        decreases v@.len() - i,
    {
        let x = v[i];
        let mut p: usize = 0;
        while p < out.len() && out[p] <= x
            invariant
                p <= out@.len(),
                forall|k: int| 0 <= k < p ==> out@[k] <= x,
            decreases out@.len() - p,
        {
            p = p + 1;
        }
        let ghost old_out = out@;
        out.insert(p, x);
        proof {
            assert(out@ == old_out.insert(p as int, x));
            vstd::seq_lib::to_multiset_insert(old_out, p as int, x);
            assert(v@.take(i + 1) =~= v@.take(i as int).push(x));
            vstd::seq_lib::to_multiset_build(v@.take(i as int), x);
            assert(out@.to_multiset() == v@.take(i + 1).to_multiset());
            assert forall|a: int, b: int| 0 <= a <= b < out@.len() implies out@[a] <= out@[b] by {
                if b < p {
                } else if a < p && b == p {
                } else if a < p && b > p {
                    assert(out@[b] == old_out[b - 1]);
                    assert(old_out[a] <= old_out[b - 1]);
                } else if a == p && b > p {
                    assert(out@[b] == old_out[b - 1]);
                    assert(old_out[p as int] > x);
                    assert(old_out[p as int] <= old_out[b - 1]);
                } else if a == p && b == p {
                } else {
                    assert(out@[a] == old_out[a - 1]);
                    assert(out@[b] == old_out[b - 1]);
                }
            }
        }
        i = i + 1;
    }
    assert(v@.take(v@.len() as int) =~= v@);
    out
}


// ---------------------------------------------------------------------------
// Strings
// ---------------------------------------------------------------------------

/// `a <= b` in `str`'s order: lexicographic by character (UTF-8 byte order
/// and code-point order agree).
pub open spec fn lex_le(a: Seq<char>, b: Seq<char>) -> bool
    decreases a.len(),
{
    if a.len() == 0 {
        true
    } else if b.len() == 0 {
        false
    } else if a[0] != b[0] {
        a[0] < b[0]
    } else {
        lex_le(a.drop_first(), b.drop_first())
    }
}

pub proof fn lemma_lex_total(a: Seq<char>, b: Seq<char>)
    ensures
        lex_le(a, b) || lex_le(b, a),
    decreases a.len(),
{
    if a.len() > 0 && b.len() > 0 && a[0] == b[0] {
        lemma_lex_total(a.drop_first(), b.drop_first());
    }
}

pub proof fn lemma_lex_trans(a: Seq<char>, b: Seq<char>, c: Seq<char>)
    requires
        lex_le(a, b),
        lex_le(b, c),
    ensures
        lex_le(a, c),
    decreases a.len(),
{
    if a.len() > 0 && b.len() > 0 && c.len() > 0 && a[0] == b[0] && b[0] == c[0] {
        lemma_lex_trans(a.drop_first(), b.drop_first(), c.drop_first());
    }
}

pub fn str_le(a: &[char], b: &[char]) -> (r: bool)
    ensures
        r == lex_le(a@, b@),
{
    let mut i: usize = 0;
    assert(a@.skip(0) =~= a@);
    assert(b@.skip(0) =~= b@);
    while i < a.len() && i < b.len() && a[i] == b[i]
        invariant
            i <= a@.len(),
            i <= b@.len(),
            lex_le(a@, b@) == lex_le(a@.skip(i as int), b@.skip(i as int)),
        decreases a@.len() - i,
    {
        assert(a@.skip(i as int).drop_first() =~= a@.skip(i + 1));
        assert(b@.skip(i as int).drop_first() =~= b@.skip(i + 1));
        i = i + 1;
    }
    assert(a@.skip(i as int).len() == 0 ==> lex_le(a@.skip(i as int), b@.skip(i as int)));
    if i == a.len() {
        true
    } else if i == b.len() {
        false
    } else {
        assert(a@.skip(i as int)[0] == a@[i as int]);
        assert(b@.skip(i as int)[0] == b@[i as int]);
        a[i] < b[i]
    }
}

/// Non-decreasing in `str`'s order.
pub open spec fn lex_sorted(s: Seq<Seq<char>>) -> bool {
    forall|i: int, j: int| 0 <= i <= j < s.len() ==> lex_le(s[i], s[j])
}

/// The strings of `v` in `str`'s order, repeats kept (`sort()` on
/// strings).
pub fn sort_strings(v: &Vec<String>) -> (r: Vec<String>)
    ensures
        lex_sorted(views(r@)),
        views(r@).to_multiset() == views(v@).to_multiset(),
{
    broadcast use vstd::seq_lib::group_to_multiset_ensures;

    let mut out: Vec<String> = Vec::new();
    let mut i: usize = 0;
    assert(views(v@.take(0)) =~= Seq::<Seq<char>>::empty());
    assert(views(out@) =~= Seq::<Seq<char>>::empty());
    while i < v.len()
        invariant
            i <= v@.len(),
            lex_sorted(views(out@)),
            views(out@).to_multiset() == views(v@.take(i as int)).to_multiset(),
        decreases v@.len() - i,
    {
        let x = v[i].clone();
        let xc = crate::text::chars_of(x.as_str());
        let mut p: usize = 0;
        while p < out.len() && str_le(crate::text::chars_of(out[p].as_str()).as_slice(), xc.as_slice())
            invariant
                p <= out@.len(),
                xc@ == x@,
                forall|k: int| 0 <= k < p ==> lex_le(out@[k]@, x@),
            decreases out@.len() - p,
        {
            p = p + 1;
        }
        let ghost old_out = out@;
        let ghost ov = views(old_out);
        out.insert(p, x);
        proof {
            assert(views(out@) =~= ov.insert(p as int, x@));
            vstd::seq_lib::to_multiset_insert(ov, p as int, x@);
            assert(views(v@.take(i + 1)) =~= views(v@.take(i as int)).push(x@));
            vstd::seq_lib::to_multiset_build(views(v@.take(i as int)), x@);
            if p < old_out.len() {
                lemma_lex_total(x@, old_out[p as int]@);
            }
            assert forall|a: int, b: int| 0 <= a <= b < views(out@).len() implies lex_le(
                views(out@)[a],
                views(out@)[b],
            ) by {
                let w = views(out@);
                if b < p {
                    assert(w[a] == ov[a] && w[b] == ov[b]);
                } else if a < p && b == p {
                    assert(w[a] == ov[a] && w[b] == x@);
                } else if a < p && b > p {
                    assert(w[a] == ov[a] && w[b] == ov[b - 1]);
                } else if a == p && b > p {
                    assert(w[a] == x@ && w[b] == ov[b - 1]);
                    assert(lex_le(x@, ov[p as int]));
                    if b - 1 > p {
                        lemma_lex_trans(x@, ov[p as int], ov[b - 1]);
                    }
                } else if a == p && b == p {
                    lemma_lex_total(x@, x@);
                } else {
                    assert(w[a] == ov[a - 1] && w[b] == ov[b - 1]);
                }
            }
        }
        i = i + 1;
    }
    assert(v@.take(v@.len() as int) =~= v@);
    out
}

} // verus!
