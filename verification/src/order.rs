//! String order, and lists kept in strictly ascending order (a sorted set of strings).
use vstd::prelude::*;
use vstd::string::*;
use crate::text::{lemma_seq_lt_irreflexive, lemma_seq_lt_total, lemma_seq_lt_transitive, seq_lt};

verus! {

/// The characters of each string.
pub open spec fn views(v: Seq<String>) -> Seq<Seq<char>> {
    v.map_values(|s: String| s@)
}

/// Strictly ascending, hence free of repeats.
pub open spec fn strictly_sorted(v: Seq<Seq<char>>) -> bool {
    forall|i: int, j: int| 0 <= i < j < v.len() ==> seq_lt(#[trigger] v[i], #[trigger] v[j])
}

/// `a < b` in string order.
pub fn str_lt(a: &str, b: &str) -> (r: bool)
    ensures
        r == seq_lt(a@, b@),
{
    let n = a.unicode_len();
    let m = b.unicode_len();
    let mut i: usize = 0;
    assert(a@.subrange(0, n as int) =~= a@);
    assert(b@.subrange(0, m as int) =~= b@);
    while i < n && i < m
        invariant
            n == a@.len(),
            m == b@.len(),
            i <= n,
            i <= m,
            seq_lt(a@, b@) == seq_lt(a@.subrange(i as int, n as int), b@.subrange(i as int, m as int)),
        decreases n - i,
    {
        let x = a.get_char(i);
        let y = b.get_char(i);
        let ghost ra = a@.subrange(i as int, n as int);
        let ghost rb = b@.subrange(i as int, m as int);
        assert(ra[0] == x && rb[0] == y);
        if (x as u32) < (y as u32) {
            return true;
        }
        if (x as u32) > (y as u32) {
            return false;
        }
        assert(ra.drop_first() =~= a@.subrange(i + 1, n as int));
        assert(rb.drop_first() =~= b@.subrange(i + 1, m as int));
        i = i + 1;
    }
    i == n && i < m
}

/// Add `s` to a strictly ascending list, unless it is already there.
pub fn insert_sorted(v: &mut Vec<String>, s: String)
    requires
        strictly_sorted(views(old(v)@)),
    ensures
        strictly_sorted(views(final(v)@)),
        views(final(v)@).to_set() == views(old(v)@).to_set().insert(s@),
{
    let ghost old_v = views(v@);
    let mut p: usize = 0;
    while p < v.len() && str_lt(v[p].as_str(), s.as_str())
        invariant
            p <= v.len(),
            views(v@) == old_v,
            strictly_sorted(old_v),
            forall|j: int| 0 <= j < p ==> seq_lt(#[trigger] old_v[j], s@),
        decreases v.len() - p,
    {
        p = p + 1;
    }
    if p < v.len() && v[p] == s {
        proof {
            assert(old_v[p as int] == s@);
            assert(old_v.to_set().contains(s@));
            assert(old_v.to_set().insert(s@) =~= old_v.to_set());
        }
        return;
    }
    proof {
        if p < v.len() {
            lemma_seq_lt_total(old_v[p as int], s@);
            assert forall|j: int| p <= j < old_v.len() implies seq_lt(s@, #[trigger] old_v[j]) by {
                if j > p {
                    lemma_seq_lt_transitive(s@, old_v[p as int], old_v[j]);
                }
            }
        }
    }
    let ghost before = v@;
    v.insert(p, s);
    proof {
        let nv = views(v@);
        assert(nv =~= old_v.insert(p as int, s@));
        assert forall|i: int, j: int| 0 <= i < j < nv.len() implies seq_lt(
            #[trigger] nv[i],
            #[trigger] nv[j],
        ) by {
            if j < p {
            } else if j == p {
            } else if i < p {
                assert(nv[j] == old_v[j - 1]);
                lemma_seq_lt_transitive(old_v[i], s@, old_v[j - 1]);
            } else if i == p {
                assert(nv[j] == old_v[j - 1]);
            } else {
                assert(nv[i] == old_v[i - 1]);
                assert(nv[j] == old_v[j - 1]);
            }
        }
        assert forall|x: Seq<char>| nv.to_set().contains(x) <==> old_v.to_set().insert(
            s@,
        ).contains(x) by {
            if nv.to_set().contains(x) {
                let i = choose|i: int| 0 <= i < nv.len() && nv[i] == x;
                if i < p {
                    assert(old_v[i] == x);
                } else if i > p {
                    assert(old_v[i - 1] == x);
                }
            }
            if old_v.to_set().contains(x) {
                let i = choose|i: int| 0 <= i < old_v.len() && old_v[i] == x;
                if i < p {
                    assert(nv[i] == x);
                } else {
                    assert(nv[i + 1] == x);
                }
            }
            if x == s@ {
                assert(nv[p as int] == x);
            }
        }
        assert(nv.to_set() =~= old_v.to_set().insert(s@));
    }
}

/// The distinct strings of a list, in ascending order.
pub fn sorted_dedup(v: Vec<String>) -> (r: Vec<String>)
    ensures
        views(r@) == sorted_distinct(views(v@)),
        strictly_sorted(views(r@)),
        views(r@).to_set() == views(v@).to_set(),
{
    let mut r: Vec<String> = Vec::new();
    let mut i: usize = 0;
    assert(views(r@).to_set() =~= views(v@.take(0)).to_set());
    while i < v.len()
        invariant
            i <= v.len(),
            strictly_sorted(views(r@)),
            views(r@).to_set() == views(v@.take(i as int)).to_set(),
        decreases v.len() - i,
    {
        insert_sorted(&mut r, v[i].clone());
        proof {
            assert(views(v@.take(i + 1)) =~= views(v@.take(i as int)).push(v@[i as int]@));
            views(v@.take(i as int)).lemma_push_to_set_commute(v@[i as int]@);
        }
        i = i + 1;
    }
    assert(v@.take(v.len() as int) =~= v@);
    proof {
        lemma_sorted_distinct(views(r@), views(v@));
    }
    r
}

/// Two strictly ascending lists with the same elements are the same list.
pub proof fn lemma_sorted_set_unique(a: Seq<Seq<char>>, b: Seq<Seq<char>>)
    requires
        strictly_sorted(a),
        strictly_sorted(b),
        a.to_set() == b.to_set(),
    ensures
        a == b,
    decreases a.len(),
{
    if a.len() == 0 {
        if b.len() > 0 {
            assert(b.to_set().contains(b[0]));
        }
        assert(a =~= b);
    } else if b.len() == 0 {
        assert(a.to_set().contains(a[0]));
    } else {
        // The least elements agree.
        assert(b.to_set().contains(a[0]));
        assert(a.to_set().contains(b[0]));
        let ia = choose|i: int| 0 <= i < a.len() && a[i] == b[0];
        let ib = choose|i: int| 0 <= i < b.len() && b[i] == a[0];
        if ia > 0 && ib > 0 {
            lemma_seq_lt_transitive(a[0], b[0], a[0]);
            lemma_seq_lt_irreflexive(a[0]);
        }
        if ia > 0 && ib == 0 {
            lemma_seq_lt_irreflexive(a[0]);
        }
        if ia == 0 && ib > 0 {
            lemma_seq_lt_irreflexive(b[0]);
        }
        assert(a[0] == b[0]);
        assert forall|x: Seq<char>| a.drop_first().to_set().contains(x) <==> b.drop_first().to_set().contains(x) by {
            if a.drop_first().to_set().contains(x) {
                let i = choose|i: int| 0 <= i < a.drop_first().len() && a.drop_first()[i] == x;
                assert(a[i + 1] == x);
                assert(b.to_set().contains(x));
                let j = choose|j: int| 0 <= j < b.len() && b[j] == x;
                if j == 0 {
                    lemma_seq_lt_irreflexive(a[0]);
                }
                assert(b.drop_first()[j - 1] == x);
            }
            if b.drop_first().to_set().contains(x) {
                let i = choose|i: int| 0 <= i < b.drop_first().len() && b.drop_first()[i] == x;
                assert(b[i + 1] == x);
                assert(a.to_set().contains(x));
                let j = choose|j: int| 0 <= j < a.len() && a[j] == x;
                if j == 0 {
                    lemma_seq_lt_irreflexive(b[0]);
                }
                assert(a.drop_first()[j - 1] == x);
            }
        }
        assert(a.drop_first().to_set() =~= b.drop_first().to_set());
        lemma_sorted_set_unique(a.drop_first(), b.drop_first());
        assert(a =~= seq![a[0]] + a.drop_first());
        assert(b =~= seq![b[0]] + b.drop_first());
    }
}

/// The distinct elements of `s`, in ascending order.
pub open spec fn sorted_distinct(s: Seq<Seq<char>>) -> Seq<Seq<char>> {
    choose|r: Seq<Seq<char>>| strictly_sorted(r) && r.to_set() == s.to_set()
}

pub proof fn lemma_sorted_distinct(r: Seq<Seq<char>>, s: Seq<Seq<char>>)
    requires
        strictly_sorted(r),
        r.to_set() == s.to_set(),
    ensures
        sorted_distinct(s) == r,
{
    let c = sorted_distinct(s);
    assert(strictly_sorted(c) && c.to_set() == s.to_set());
    lemma_sorted_set_unique(c, r);
}

} // verus!
