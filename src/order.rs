use vstd::prelude::*;
use vstd::relations::{sorted_by, total_ordering};
use vstd::seq_lib::lemma_sorted_unique;

verus! {

/// The usual order on timestamps and spans, as a relation.
pub open spec fn leq() -> spec_fn(i64, i64) -> bool {
    |a: i64, b: i64| a <= b
}

/// `s` in ascending order.
pub open spec fn ascending(s: Seq<i64>) -> Seq<i64> {
    s.sort_by(leq())
}

/// `leq` is a total order.
pub proof fn lemma_leq_total()
    ensures
        total_ordering(leq()),
{
}

/// Sorting yields the unique ascending arrangement of the same values.
pub proof fn lemma_ascending(s: Seq<i64>)
    ensures
        sorted_by(ascending(s), leq()),
        ascending(s).to_multiset() == s.to_multiset(),
        ascending(s).len() == s.len(),
{
    lemma_leq_total();
    s.lemma_sort_by_ensures(leq());
    broadcast use vstd::seq_lib::group_to_multiset_ensures;
    assert(ascending(s).len() == ascending(s).to_multiset().len());
}

/// Any ascending arrangement of the values of `s` is `ascending(s)`.
pub proof fn lemma_ascending_unique(s: Seq<i64>, t: Seq<i64>)
    requires
        sorted_by(t, leq()),
        t.to_multiset() == s.to_multiset(),
    ensures
        t == ascending(s),
{
    lemma_ascending(s);
    lemma_leq_total();
    lemma_sorted_unique(t, ascending(s), leq());
}

/// Returns the values of `v` in ascending order.
pub fn sort_ascending(v: &Vec<i64>) -> (r: Vec<i64>)
    ensures
        r@ == ascending(v@),
{
    let mut out: Vec<i64> = Vec::new();
    let mut i: usize = 0;
    proof {
        broadcast use vstd::seq_lib::group_to_multiset_ensures;
        assert(v@.take(0) =~= Seq::<i64>::empty());
        assert(out@ =~= Seq::<i64>::empty());
    }
    while i < v.len()
        invariant
            i <= v.len(),
            sorted_by(out@, leq()),
            out@.to_multiset() == v@.take(i as int).to_multiset(),
        decreases v.len() - i,
    {
        let x = v[i];
        let mut pos: usize = 0;
        while pos < out.len() && out[pos] <= x
            invariant
                pos <= out.len(),
                forall|k: int| 0 <= k < pos ==> out@[k] <= x,
            decreases out.len() - pos,
        {
            pos = pos + 1;
        }
        let ghost before = out@;
        out.insert(pos, x);
        proof {
            broadcast use vstd::seq_lib::group_to_multiset_ensures;
            assert(out@ == before.insert(pos as int, x));
            assert forall|a: int, b: int| 0 <= a < b < out@.len() implies #[trigger] leq()(
                out@[a],
                out@[b],
            ) by {
                if b < pos {
                    assert(leq()(before[a], before[b]));
                } else if b == pos {
                    assert(out@[a] == before[a]);
                } else if a == pos {
                    assert(out@[b] == before[b - 1]);
                    if (pos as int) < before.len() {
                        assert(before[pos as int] > x);
                        if b - 1 > pos {
                            assert(leq()(before[pos as int], before[b - 1]));
                        }
                    }
                } else if a < pos {
                    assert(leq()(before[a], before[b - 1]));
                } else {
                    assert(leq()(before[a - 1], before[b - 1]));
                }
            }
            assert(v@.take(i + 1) == v@.take(i as int).push(x));
        }
        i = i + 1;
    }
    proof {
        assert(v@.take(v.len() as int) == v@);
        lemma_ascending_unique(v@, out@);
    }
    out
}

} // verus!
