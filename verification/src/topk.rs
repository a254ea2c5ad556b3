//! Top-k extraction from a candidate pool.
//!
//! The final stage of every query: order the pooled candidates by the
//! result order and keep the first `k`. [`is_top_k`] characterises the
//! output: a sorted selection from the pool that no left-out candidate
//! beats.

use vstd::prelude::*;
use vstd::relations::sorted_by;
use crate::candidate::{Candidate, cand_le, cand_order, sort_candidates};

verus! {

/// `r` is a top-`k` of the pool `cs`: sorted in the result order, of
/// length `k` (or the whole pool when it is smaller), drawn from the
/// pool, and such that every pool entry left out is no better than any
/// entry kept.
pub open spec fn is_top_k(cs: Seq<Candidate>, k: int, r: Seq<Candidate>) -> bool {
    &&& sorted_by(r, cand_order())
    &&& r.len() == if k < cs.len() {
        k
    } else {
        cs.len() as int
    }
    &&& r.to_multiset().subset_of(cs.to_multiset())
    &&& (forall|c: Candidate|
        #![trigger cs.to_multiset().count(c)]
        cs.to_multiset().count(c) > r.to_multiset().count(c) ==> (forall|i: int|
            0 <= i < r.len() ==> cand_le(#[trigger] r[i], c)))
}

/// The refine guarantee: re-ranking a candidate pool by exact
/// distances and keeping the best `k` gives distances that are
/// pointwise no worse than those of any other sorted selection of the
/// same size from the same pool — in particular, than the selection a
/// query without the refine step would have kept.
pub proof fn lemma_top_k_pointwise_minimal(
    cs: Seq<Candidate>,
    k: int,
    r: Seq<Candidate>,
    t: Seq<Candidate>,
)
    requires
        is_top_k(cs, k, r),
        sorted_by(t, cand_order()),
        t.to_multiset().subset_of(cs.to_multiset()),
        t.len() == r.len(),
    ensures
        forall|i: int| 0 <= i < r.len() ==> (#[trigger] r[i]).dist <= t[i].dist,
{
    broadcast use vstd::seq_lib::group_to_multiset_ensures;
    broadcast use vstd::multiset::group_multiset_axioms;

    assert forall|i: int| 0 <= i < r.len() implies (#[trigger] r[i]).dist <= t[i].dist by {
        if t[i].dist < r[i].dist {
            // Then the first i+1 entries of t are pool candidates all
            // strictly closer than r[i]; every such candidate sits in
            // the first i entries of r, which is one slot too few.
            let tp = t.take(i + 1);
            let rp = r.take(i);
            assert(t =~= tp + t.skip(i + 1));
            assert(r =~= rp + r.skip(i));
            vstd::seq_lib::lemma_multiset_commutative(tp, t.skip(i + 1));
            vstd::seq_lib::lemma_multiset_commutative(rp, r.skip(i));
            assert forall|c: Candidate| #[trigger]
                tp.to_multiset().count(c) <= rp.to_multiset().count(c) by {
                if tp.to_multiset().count(c) > 0 {
                    assert(tp.contains(c));
                    let j = choose|j: int| 0 <= j < tp.len() && tp[j] == c;
                    if j < i {
                        assert(cand_order()(t[j], t[i]));
                    }
                    assert(c.dist <= t[i].dist);
                    assert(c.dist < r[i].dist);
                    assert(tp.to_multiset().count(c) <= t.to_multiset().count(c));
                    assert(t.to_multiset().count(c) <= cs.to_multiset().count(c));
                    if cs.to_multiset().count(c) > r.to_multiset().count(c) {
                        assert(cand_le(r[i], c));
                        assert(false);
                    }
                    if r.skip(i).to_multiset().count(c) > 0 {
                        assert(r.skip(i).contains(c));
                        let j2 = choose|j2: int|
                            0 <= j2 < r.skip(i).len() && r.skip(i)[j2] == c;
                        if j2 > 0 {
                            assert(cand_order()(r[i], r[i + j2]));
                        }
                        assert(r[i].dist <= c.dist);
                        assert(false);
                    }
                    assert(rp.to_multiset().count(c) == r.to_multiset().count(c));
                }
            }
            assert(tp.to_multiset().subset_of(rp.to_multiset()));
            assert(tp.to_multiset().len() == i + 1);
            assert(rp.to_multiset().len() == i);
            assert(rp.to_multiset().sub(tp.to_multiset()).len() == i - (i + 1));
            assert(false);
        }
    }
}

/// Returns the best `k` candidates of the pool, sorted by distance and
/// then row id.
pub fn top_k(v: &Vec<Candidate>, k: usize) -> (r: Vec<Candidate>)
    ensures
        is_top_k(v@, k as int, r@),
{
    let sorted = sort_candidates(v);
    let n: usize = if k < sorted.len() {
        k
    } else {
        sorted.len()
    };
    let mut out: Vec<Candidate> = Vec::new();
    let mut i: usize = 0;
    while i < n
        invariant
            i <= n,
            n <= sorted.len(),
            out@ == sorted@.take(i as int),
        decreases n - i,
    {
        out.push(sorted[i]);
        proof {
            assert(sorted@.take(i as int + 1) =~= sorted@.take(i as int).push(
                sorted@[i as int],
            ));
        }
        i += 1;
    }
    proof {
        broadcast use vstd::multiset::group_multiset_axioms;
        broadcast use vstd::seq_lib::group_to_multiset_ensures;

        let s = sorted@;
        let t = s.take(n as int);
        let sk = s.skip(n as int);
        assert(s =~= t + sk);
        assert(v@.to_multiset().len() == s.to_multiset().len());
        assert(v@.len() == s.len());
        assert forall|p: int, q: int| 0 <= p < q < t.len() implies #[trigger] cand_order()(
            t[p],
            t[q],
        ) by {
            assert(cand_order()(s[p], s[q]));
        }
        assert(out@ == t);
        vstd::seq_lib::lemma_multiset_commutative(t, sk);
        assert forall|c: Candidate|
            #![trigger v@.to_multiset().count(c)]
            v@.to_multiset().count(c) > t.to_multiset().count(c) implies (forall|m: int|
            0 <= m < t.len() ==> cand_le(#[trigger] t[m], c)) by {
            assert(sk.to_multiset().count(c) > 0);
            assert(sk.contains(c));
            let j = choose|j: int| 0 <= j < sk.len() && sk[j] == c;
            assert forall|m: int| 0 <= m < t.len() implies cand_le(#[trigger] t[m], c) by {
                assert(cand_order()(s[m], s[n + j]));
            }
        }
    }
    out
}

} // verus!
