//! Merging per-partition candidate lists.
//!
//! Every selected partition contributes its own candidate list; the
//! merge step combines them into one list sorted by the result order
//! and deduplicated by row id, keeping for each row the best (smallest)
//! distance seen. The merged output is characterised exactly by
//! [`is_merged`] and is unique ([`lemma_merged_unique`]), so the order
//! in which partitions were scanned can never affect the result
//! ([`lemma_merge_scan_order_irrelevant`]).

use vstd::prelude::*;
use vstd::relations::sorted_by;
use crate::candidate::{Candidate, cand_le, cand_order, sort_candidates, lemma_cand_order_total};

verus! {

/// There is an entry in `r` for the same row as `c` whose distance is
/// at least as good.
pub open spec fn covers(r: Seq<Candidate>, c: Candidate) -> bool {
    exists|i: int|
        0 <= i < r.len() && (#[trigger] r[i]).row_id == c.row_id && r[i].dist <= c.dist
}

/// `r` is the merged form of the candidate pool `cs`: sorted in the
/// result order, at most one entry per row id, every entry taken from
/// the pool, and every pool entry represented by an entry for its row
/// with the best pooled distance.
pub open spec fn is_merged(cs: Seq<Candidate>, r: Seq<Candidate>) -> bool {
    &&& sorted_by(r, cand_order())
    &&& (forall|i: int, j: int| 0 <= i < j < r.len() ==> r[i].row_id != r[j].row_id)
    &&& (forall|i: int| 0 <= i < r.len() ==> cs.contains(#[trigger] r[i]))
    &&& (forall|j: int| 0 <= j < cs.len() ==> covers(r, #[trigger] cs[j]))
}

/// The candidate pool of a list of per-partition candidate lists: their
/// concatenation, in partition order.
pub open spec fn pool_of(lists: Seq<Seq<Candidate>>) -> Seq<Candidate> {
    lists.flatten()
}

/// Whether a candidate pool merges to `r` depends only on which
/// candidates are pooled, not on the order they were gathered in.
pub proof fn lemma_is_merged_congruence(cs1: Seq<Candidate>, cs2: Seq<Candidate>, r: Seq<Candidate>)
    requires
        cs1.to_multiset() == cs2.to_multiset(),
        is_merged(cs1, r),
    ensures
        is_merged(cs2, r),
{
    broadcast use vstd::seq_lib::group_to_multiset_ensures;

    assert forall|i: int| 0 <= i < r.len() implies cs2.contains(#[trigger] r[i]) by {
        assert(cs1.contains(r[i]));
        assert(cs1.to_multiset().count(r[i]) > 0);
    }
    assert forall|j: int| 0 <= j < cs2.len() implies covers(r, #[trigger] cs2[j]) by {
        assert(cs2.contains(cs2[j]));
        assert(cs1.to_multiset().count(cs2[j]) > 0);
        assert(cs1.contains(cs2[j]));
        let jj = choose|jj: int| 0 <= jj < cs1.len() && cs1[jj] == cs2[j];
        assert(covers(r, cs1[jj]));
    }
}

/// A candidate pool has exactly one merged form: any two lists that
/// both merge the same pool are equal. Together with
/// [`lemma_is_merged_congruence`] this is the dedup guarantee — two
/// partitions sharing a row id contribute one entry, with the better of
/// the two distances — stated so that no implementation detail of the
/// merge is part of the claim.
pub proof fn lemma_merged_unique(cs: Seq<Candidate>, r1: Seq<Candidate>, r2: Seq<Candidate>)
    requires
        is_merged(cs, r1),
        is_merged(cs, r2),
    ensures
        r1 == r2,
{
    lemma_cand_order_total();
    assert forall|c: Candidate| r1.contains(c) implies r2.contains(c) by {
        lemma_merged_member(cs, r1, r2, c);
    }
    assert forall|c: Candidate| r2.contains(c) implies r1.contains(c) by {
        lemma_merged_member(cs, r2, r1, c);
    }
    assert(r1.no_duplicates()) by {
        lemma_merged_no_duplicates(cs, r1);
    }
    assert(r2.no_duplicates()) by {
        lemma_merged_no_duplicates(cs, r2);
    }
    r1.lemma_multiset_has_no_duplicates();
    r2.lemma_multiset_has_no_duplicates();
    broadcast use vstd::seq_lib::group_to_multiset_ensures;

    assert(r1.to_multiset() =~= r2.to_multiset()) by {
        assert forall|c: Candidate| r1.to_multiset().count(c) == r2.to_multiset().count(c) by {
            if r1.contains(c) {
                assert(r2.contains(c));
                assert(r1.to_multiset().count(c) > 0 && r2.to_multiset().count(c) > 0);
            } else {
                assert(!r2.contains(c));
                assert(r1.to_multiset().count(c) == 0);
                assert(r2.to_multiset().count(c) == 0);
            }
        }
    }
    vstd::seq_lib::lemma_sorted_unique(r1, r2, cand_order());
}

/// Entries of a merged list have pairwise distinct row ids, hence the
/// list holds no duplicate candidates.
proof fn lemma_merged_no_duplicates(cs: Seq<Candidate>, r: Seq<Candidate>)
    requires
        is_merged(cs, r),
    ensures
        r.no_duplicates(),
{
}

/// Any entry of one merged form of a pool occurs in every other merged
/// form of the same pool.
proof fn lemma_merged_member(cs: Seq<Candidate>, ra: Seq<Candidate>, rb: Seq<Candidate>, c: Candidate)
    requires
        is_merged(cs, ra),
        is_merged(cs, rb),
        ra.contains(c),
    ensures
        rb.contains(c),
{
    let i = choose|i: int| 0 <= i < ra.len() && ra[i] == c;
    assert(cs.contains(c));
    let j = choose|j: int| 0 <= j < cs.len() && cs[j] == c;
    assert(covers(rb, cs[j]));
    let m = choose|m: int|
        0 <= m < rb.len() && (#[trigger] rb[m]).row_id == c.row_id && rb[m].dist <= c.dist;
    assert(cs.contains(rb[m]));
    let j2 = choose|j2: int| 0 <= j2 < cs.len() && cs[j2] == rb[m];
    assert(covers(ra, cs[j2]));
    let m1 = choose|m1: int|
        0 <= m1 < ra.len() && (#[trigger] ra[m1]).row_id == rb[m].row_id && ra[m1].dist <= rb[m].dist;
    assert(m1 == i);
    assert(rb[m] == c);
}

/// Merging is insensitive to how the pool was split into partitions
/// and to the order partitions were scanned in: two pools holding the
/// same candidates merge to the same list. In particular a query that
/// scans every partition merges to exactly what one brute-force scan
/// over all rows merges to.
pub proof fn lemma_merge_scan_order_irrelevant(
    cs1: Seq<Candidate>,
    cs2: Seq<Candidate>,
    r1: Seq<Candidate>,
    r2: Seq<Candidate>,
)
    requires
        cs1.to_multiset() == cs2.to_multiset(),
        is_merged(cs1, r1),
        is_merged(cs2, r2),
    ensures
        r1 == r2,
{
    lemma_is_merged_congruence(cs1, cs2, r1);
    lemma_merged_unique(cs2, r1, r2);
}

/// Concatenates the per-partition candidate lists into one pool.
fn concat_lists(lists: &Vec<Vec<Candidate>>) -> (r: Vec<Candidate>)
    ensures
        r@ == pool_of(lists@.map_values(|l: Vec<Candidate>| l@)),
{
    let ghost views = lists@.map_values(|l: Vec<Candidate>| l@);
    let mut out: Vec<Candidate> = Vec::new();
    let mut li: usize = 0;
    proof {
        assert(views.take(0) =~= Seq::<Seq<Candidate>>::empty());
        assert(views.take(0).flatten() =~= Seq::<Candidate>::empty());
        assert(out@ =~= views.take(0).flatten());
    }
    while li < lists.len()
        invariant
            li <= lists.len(),
            views == lists@.map_values(|l: Vec<Candidate>| l@),
            out@ == views.take(li as int).flatten(),
        decreases lists.len() - li,
    {
        let inner = &lists[li];
        let mut ei: usize = 0;
        while ei < inner.len()
            invariant
                ei <= inner.len(),
                li < lists.len(),
                views == lists@.map_values(|l: Vec<Candidate>| l@),
                inner@ == lists@[li as int]@,
                out@ == views.take(li as int).flatten() + inner@.take(ei as int),
            decreases inner.len() - ei,
        {
            out.push(inner[ei]);
            proof {
                assert(inner@.take(ei as int + 1) =~= inner@.take(ei as int).push(
                    inner@[ei as int],
                ));
                assert(out@ =~= views.take(li as int).flatten() + inner@.take(ei as int + 1));
            }
            ei += 1;
        }
        proof {
            assert(inner@.take(inner@.len() as int) =~= inner@);
            assert(views.take(li as int + 1) =~= views.take(li as int).push(views[li as int]));
            views.take(li as int).lemma_flatten_push(views[li as int]);
            assert(out@ =~= views.take(li as int + 1).flatten());
        }
        li += 1;
    }
    proof {
        assert(views.take(views.len() as int) =~= views);
    }
    out
}

/// Merges the per-partition candidate lists: one sorted list, one entry
/// per row id, carrying the best distance that any partition reported
/// for that row.
pub fn merge_candidates(lists: &Vec<Vec<Candidate>>) -> (r: Vec<Candidate>)
    ensures
        is_merged(pool_of(lists@.map_values(|l: Vec<Candidate>| l@)), r@),
{
    let pool = concat_lists(lists);
    let sorted = sort_candidates(&pool);
    let ghost s = sorted@;
    let mut out: Vec<Candidate> = Vec::new();
    let mut i: usize = 0;
    while i < sorted.len()
        invariant
            i <= sorted.len(),
            s == sorted@,
            sorted_by(s, cand_order()),
            sorted_by(out@, cand_order()),
            forall|m: int, n: int| 0 <= m < n < out@.len() ==> out@[m].row_id != out@[n].row_id,
            forall|m: int|
                0 <= m < out@.len() ==> exists|j: int|
                    0 <= j < i && #[trigger] out@[m] == s[j],
            forall|j: int| 0 <= j < i ==> covers(out@, #[trigger] s[j]),
        decreases sorted.len() - i,
    {
        let c = sorted[i];
        let mut m: usize = 0;
        let mut found = false;
        while m < out.len() && !found
            invariant
                m <= out.len(),
                found ==> m < out.len() && out@[m as int].row_id == c.row_id,
                !found ==> forall|n: int| 0 <= n < m ==> out@[n].row_id != c.row_id,
                c == s[i as int],
            decreases out.len() - m, (if found { 0int } else { 1int }),
        {
            if out[m].row_id == c.row_id {
                found = true;
            } else {
                m += 1;
            }
        }
        let ghost old_out = out@;
        if !found {
            out.push(c);
            proof {
                assert forall|p: int, q: int| 0 <= p < q < out@.len() implies #[trigger] cand_order()(
                    out@[p],
                    out@[q],
                ) by {
                    if q == out@.len() - 1 {
                        let jp = choose|jp: int| 0 <= jp < i && old_out[p] == s[jp];
                        assert(cand_order()(s[jp], s[i as int]));
                    } else {
                        assert(cand_order()(old_out[p], old_out[q]));
                    }
                }
            }
        }
        proof {
            assert forall|j: int| 0 <= j < i + 1 implies covers(out@, #[trigger] s[j]) by {
                if j < i {
                    assert(covers(old_out, s[j]));
                    let n = choose|n: int|
                        0 <= n < old_out.len() && (#[trigger] old_out[n]).row_id == s[j].row_id
                            && old_out[n].dist <= s[j].dist;
                    assert((out@[n]).row_id == s[j].row_id && out@[n].dist <= s[j].dist);
                } else {
                    if found {
                        let n = m as int;
                        let jn = choose|jn: int| 0 <= jn < i && old_out[n] == s[jn];
                        // The earlier entry for this row is at least as
                        // good: the pool is sorted and rows are equal.
                        assert(cand_order()(s[jn], s[i as int]));
                        assert(cand_le(old_out[n], c));
                        assert(out@[n].row_id == c.row_id && out@[n].dist <= c.dist);
                    } else {
                        let n = out@.len() - 1;
                        assert(out@[n] == c);
                    }
                }
            }
        }
        i += 1;
    }
    proof {
        assert(s.take(s.len() as int) =~= s);
        // Transfer the merge facts from the sorted pool to the pool
        // itself: the two hold the same candidates.
        assert forall|idx: int| 0 <= idx < out@.len() implies s.contains(#[trigger] out@[idx]) by {
            let j = choose|j: int| 0 <= j < s.len() && out@[idx] == s[j];
        }
        assert(is_merged(s, out@));
        lemma_is_merged_congruence(s, pool@, out@);
    }
    out
}

} // verus!
