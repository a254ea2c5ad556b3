//! Search candidates and the deterministic result ordering.
//!
//! A [`Candidate`] pairs a row id with a distance key. Distance keys are
//! unsigned integers whose order agrees with the metric's
//! lower-is-better order (see `metric::order_key`), so ranking
//! candidates never touches floating point. Results are ordered by
//! distance first and by row id second, which makes the order total and
//! the output of every query deterministic.

use vstd::prelude::*;
use vstd::relations::{sorted_by, total_ordering};

verus! {

/// One search result: a row id and the distance key of that row's
/// vector from the query vector.
#[derive(Debug, Clone, Copy, PartialEq, Eq, Structural)]
pub struct Candidate {
    /// Identifier of the stored row.
    pub row_id: u64,
    /// Total-order distance key; smaller is a better match.
    pub dist: u64,
}

/// The result order: better (smaller) distance first, ties broken by
/// ascending row id.
pub open spec fn cand_le(a: Candidate, b: Candidate) -> bool {
    a.dist < b.dist || (a.dist == b.dist && a.row_id <= b.row_id)
}

/// The result order as a relation value, for `sorted_by` and the
/// ordering lemmas of vstd.
pub open spec fn cand_order() -> spec_fn(Candidate, Candidate) -> bool {
    |a: Candidate, b: Candidate| cand_le(a, b)
}

/// The result order is a total ordering: reflexive, antisymmetric,
/// transitive and strongly connected. Antisymmetry holds because a
/// candidate consists of exactly the two ordered fields.
pub proof fn lemma_cand_order_total()
    ensures
        total_ordering(cand_order()),
{
}

/// Exec comparison deciding the result order.
pub fn cand_better_eq(a: &Candidate, b: &Candidate) -> (r: bool)
    ensures
        r == cand_le(*a, *b),
{
    a.dist < b.dist || (a.dist == b.dist && a.row_id <= b.row_id)
}

/// Sorts candidates into the result order.
///
/// The output is a permutation of the input (stated as multiset
/// equality) and is sorted by distance, ties by row id.
pub fn sort_candidates(v: &Vec<Candidate>) -> (r: Vec<Candidate>)
    ensures
        sorted_by(r@, cand_order()),
        r@.to_multiset() == v@.to_multiset(),
{
    let mut r: Vec<Candidate> = Vec::new();
    let mut idx: usize = 0;
    proof {
        assert(r@ =~= v@.take(0));
    }
    while idx < v.len()
        invariant
            idx <= v.len(),
            sorted_by(r@, cand_order()),
            r@.to_multiset() == v@.take(idx as int).to_multiset(),
        decreases v.len() - idx,
    {
        let x = v[idx];
        let mut j: usize = 0;
        while j < r.len() && cand_better_eq(&r[j], &x)
            invariant
                j <= r.len(),
                forall|m: int| 0 <= m < j ==> cand_le(r@[m], x),
            decreases r.len() - j,
        {
            j += 1;
        }
        let ghost old_r = r@;
        r.insert(j, x);
        proof {
            // Sortedness of old_r.insert(j, x): elements before j stay
            // below x, elements from j on are at least x by totality.
            old_r.insert_ensures(j as int, x);
            assert forall|i: int, k: int| 0 <= i < k < r@.len() implies #[trigger] cand_order()(
                r@[i],
                r@[k],
            ) by {
                if k < j {
                    assert(cand_order()(old_r[i], old_r[k]));
                } else if i > j {
                    assert(cand_order()(old_r[i - 1], old_r[k - 1]));
                } else if i < j && k == j {
                    assert(cand_le(old_r[i], x));
                } else if i == j {
                    // x <= old_r[k - 1]: the inner loop stopped at j.
                    if j < old_r.len() {
                        assert(!cand_le(old_r[j as int], x));
                        assert(cand_le(x, old_r[j as int]));
                        if k - 1 > j {
                            assert(cand_order()(old_r[j as int], old_r[k - 1]));
                        }
                    }
                } else {
                    // i < j < k: old pair plus x in between.
                    assert(cand_order()(old_r[i], old_r[k - 1]));
                    assert(cand_le(old_r[i], x));
                }
            }
            vstd::seq_lib::to_multiset_insert(old_r, j as int, x);
            assert(v@.take(idx as int + 1) =~= v@.take(idx as int).push(v@[idx as int]));
            vstd::seq_lib::to_multiset_build(v@.take(idx as int), v@[idx as int]);
        }
        idx += 1;
    }
    proof {
        assert(v@.take(v@.len() as int) =~= v@);
    }
    r
}

} // verus!
