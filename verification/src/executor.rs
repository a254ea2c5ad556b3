//! The query executor and the index it runs against.
//!
//! A query proceeds through fixed stages: validate the parameters,
//! select the partitions to probe (all of them when the index is
//! bypassed, else the `nprobes` nearest centroids), scan each selected
//! partition into candidates, merge and deduplicate, and truncate to
//! the requested `k`. Every stage's effect is stated against the spec
//! of the one before it, and the final result is pinned up to the
//! uniqueness of the merge, which makes bypassed queries provably
//! equal to a brute-force linear scan
//! ([`lemma_query_deterministic`]).

use vstd::prelude::*;
use vstd::relations::sorted_by;
use crate::arrays::{FloatVector, elems_of, vector_len};
use crate::candidate::{Candidate, cand_order};
use crate::error::Error;
use crate::ivf::IvfModel;
use crate::keys::{dist_key, dist_key_of};
use crate::merge::{is_merged, lemma_merge_scan_order_irrelevant, merge_candidates, pool_of};
use crate::metric::DistanceType;
use crate::topk::is_top_k;
use crate::topk::top_k;

verus! {

/// Name of the column holding product-quantized codes in a persisted
/// index.
pub const PQ_CODE_COLUMN: &'static str = "__pq_code";

/// Name of the column holding partition ids in a persisted index.
pub const PART_ID_COLUMN: &'static str = "__ivf_part_id";

/// Name of the output column holding result distances.
pub const DIST_COL: &'static str = "_distance";

/// Query parameters for the vector indices.
#[derive(Debug, Clone)]
pub struct Query {
    /// The column to be searched.
    pub column: String,
    /// The vector to be searched.
    pub key: FloatVector,
    /// Top k results to return.
    pub k: usize,
    /// The number of probes to load and search.
    pub nprobes: usize,
    /// If present, apply a refine step with this oversampling factor.
    pub refine_factor: Option<u32>,
    /// Distance metric type.
    pub metric_type: DistanceType,
    /// Whether to use an ANN index if available.
    pub use_index: bool,
}

/// One partition: the row ids assigned to its centroid and their
/// vectors, kept aligned.
#[derive(Debug)]
pub struct Partition {
    /// Row ids of the vectors stored in this partition.
    pub row_ids: Vec<u64>,
    /// The stored vectors, aligned with `row_ids`.
    pub vectors: Vec<FloatVector>,
}

impl Partition {
    /// Rows and vectors are aligned and every vector has the index's
    /// dimension.
    pub open spec fn wf(self, dim: usize) -> bool {
        &&& self.row_ids@.len() == self.vectors@.len()
        &&& forall|i: int|
            0 <= i < self.vectors@.len() ==> elems_of(#[trigger] self.vectors@[i]).len() == dim
    }

    /// The candidates a linear scan of this partition yields for a
    /// query: one per stored row, in storage order.
    pub open spec fn scan_spec(self, m: DistanceType, q: Seq<u32>) -> Seq<Candidate> {
        Seq::new(
            self.row_ids@.len(),
            |i: int|
                Candidate {
                    row_id: self.row_ids@[i],
                    dist: dist_key_of(m, q, elems_of(self.vectors@[i])),
                },
        )
    }
}

/// Scans one partition: the distance key of every stored vector from
/// the query, paired with its row id.
fn scan_partition(p: &Partition, m: DistanceType, q: &FloatVector, dim: usize) -> (r: Vec<
    Candidate,
>)
    requires
        p.wf(dim),
        elems_of(*q).len() == dim,
    ensures
        r@ == p.scan_spec(m, elems_of(*q)),
{
    let mut out: Vec<Candidate> = Vec::new();
    let mut i: usize = 0;
    while i < p.row_ids.len()
        invariant
            i <= p.row_ids@.len(),
            p.wf(dim),
            elems_of(*q).len() == dim,
            out@.len() == i,
            forall|n: int| 0 <= n < i ==> out@[n] == p.scan_spec(m, elems_of(*q))[n],
        decreases p.row_ids@.len() - i,
    {
        let d = dist_key(m, q, &p.vectors[i]);
        out.push(Candidate { row_id: p.row_ids[i], dist: d });
        i += 1;
    }
    proof {
        assert(out@ =~= p.scan_spec(m, elems_of(*q)));
    }
    out
}

/// The per-centroid selection candidates of a query: partition id as
/// row id, distance key from the query to the centroid.
pub open spec fn centroid_cands(m: DistanceType, cents: Seq<FloatVector>, q: Seq<u32>) -> Seq<
    Candidate,
> {
    Seq::new(
        cents.len(),
        |i: int| Candidate { row_id: i as u64, dist: dist_key_of(m, q, elems_of(cents[i])) },
    )
}

/// The refine factor is absent, or at least one with `k` times it
/// still representable.
pub open spec fn refine_ok(k: usize, rf: Option<u32>) -> bool {
    match rf {
        Option::None => true,
        Option::Some(f) => f >= 1 && k * f <= usize::MAX,
    }
}

/// How many candidates the refine stage oversamples to: `k` times the
/// refine factor, or plain `k` without one.
pub open spec fn oversampled_k_of(k: usize, rf: Option<u32>) -> int {
    match rf {
        Option::None => k as int,
        Option::Some(f) => k * f,
    }
}

/// A query is valid for an index with `num_partitions` partitions of
/// dimension `dim`: positive `k` and `nprobes`, `nprobes` within the
/// partition count (an empty index accepts any probe count and
/// returns an empty result), matching key dimension, and a sane
/// refine factor.
pub open spec fn valid_query(q: Query, num_partitions: int, dim: int) -> bool {
    &&& q.k >= 1
    &&& q.nprobes >= 1
    &&& (num_partitions == 0 || q.nprobes <= num_partitions)
    &&& elems_of(q.key).len() == dim
    &&& refine_ok(q.k, q.refine_factor)
}

/// `r` is what a query over the candidate pool returns: the first
/// `k` entries of the merged (sorted, deduplicated, best-distance)
/// form of the pool.
pub open spec fn query_result_matches(pool: Seq<Candidate>, k: int, r: Seq<Candidate>) -> bool {
    exists|m: Seq<Candidate>|
        #[trigger] is_merged(pool, m) && r == m.take(
            if k < m.len() {
                k
            } else {
                m.len() as int
            },
        )
}

/// What a query returns is a function of which candidates were pooled
/// and of `k` alone: pools holding the same candidates — however they
/// were split into partitions and in whatever order they were scanned
/// — give byte-for-byte the same result. With the executor's
/// postcondition this makes a query that bypasses the index return
/// exactly what a brute-force linear scan over all stored vectors
/// returns.
pub proof fn lemma_query_deterministic(
    pool1: Seq<Candidate>,
    pool2: Seq<Candidate>,
    k: int,
    r1: Seq<Candidate>,
    r2: Seq<Candidate>,
)
    requires
        pool1.to_multiset() == pool2.to_multiset(),
        query_result_matches(pool1, k, r1),
        query_result_matches(pool2, k, r2),
    ensures
        r1 == r2,
{
    let m1 = choose|m: Seq<Candidate>|
        #[trigger] is_merged(pool1, m) && r1 == m.take(
            if k < m.len() {
                k
            } else {
                m.len() as int
            },
        );
    let m2 = choose|m: Seq<Candidate>|
        #[trigger] is_merged(pool2, m) && r2 == m.take(
            if k < m.len() {
                k
            } else {
                m.len() as int
            },
        );
    lemma_merge_scan_order_irrelevant(pool1, pool2, m1, m2);
}

/// Validates query parameters against an index shape; exact about
/// which error each rejection surfaces. A wrong key dimension is
/// reported as such; any other violation is an invalid parameter.
pub fn validate_query(query: &Query, num_partitions: usize, dim: usize) -> (r: Result<(), Error>)
    ensures
        match r {
            Result::Ok(()) => valid_query(*query, num_partitions as int, dim as int),
            Result::Err(e) => {
                &&& !valid_query(*query, num_partitions as int, dim as int)
                &&& (e matches Error::DimensionMismatch { expected, actual } ==> expected == dim
                    && actual == elems_of(query.key).len() && actual != dim)
                &&& (e == Error::InvalidQueryParameter ==> elems_of(query.key).len() == dim)
                &&& (e matches Error::DimensionMismatch { .. } || e == Error::InvalidQueryParameter)
            },
        },
{
    let klen = vector_len(&query.key);
    if klen != dim {
        return Err(Error::DimensionMismatch { expected: dim, actual: klen });
    }
    if query.k < 1 || query.nprobes < 1 {
        return Err(Error::InvalidQueryParameter);
    }
    if num_partitions > 0 && query.nprobes > num_partitions {
        return Err(Error::InvalidQueryParameter);
    }
    match query.refine_factor {
        Option::Some(f) => {
            if f < 1 {
                return Err(Error::InvalidQueryParameter);
            }
            let fu = f as usize;
            if query.k > usize::MAX / fu {
                proof {
                    assert(query.k * f > usize::MAX) by (nonlinear_arith)
                        requires
                            f >= 1,
                            fu == f,
                            query.k > usize::MAX / fu,
                            usize::MAX / fu <= usize::MAX,
                    ;
                }
                return Err(Error::InvalidQueryParameter);
            }
            proof {
                assert(query.k * f <= usize::MAX) by (nonlinear_arith)
                    requires
                        f >= 1,
                        fu == f,
                        query.k <= usize::MAX / fu,
                ;
            }
        },
        Option::None => {},
    }
    Ok(())
}

/// The oversampled candidate count of a valid query: `k` times the
/// refine factor when one is set.
pub fn oversampled_k(k: usize, rf: Option<u32>) -> (r: usize)
    requires
        refine_ok(k, rf),
    ensures
        r == oversampled_k_of(k, rf),
        r >= k || (rf matches Option::None),
{
    match rf {
        Option::Some(f) => {
            proof {
                assert(k * f >= k && k * f <= usize::MAX) by (nonlinear_arith)
                    requires
                        f >= 1,
                        k * f <= usize::MAX,
                ;
            }
            k * (f as usize)
        },
        Option::None => k,
    }
}

/// Keeps the first `k` entries of a candidate list.
fn take_prefix(v: Vec<Candidate>, k: usize) -> (r: Vec<Candidate>)
    ensures
        r@ == v@.take(
            if k < v@.len() {
                k as int
            } else {
                v@.len() as int
            },
        ),
{
    let n: usize = if k < v.len() {
        k
    } else {
        v.len()
    };
    let mut out: Vec<Candidate> = Vec::new();
    let mut i: usize = 0;
    while i < n
        invariant
            i <= n,
            n <= v@.len(),
            out@ == v@.take(i as int),
        decreases n - i,
    {
        out.push(v[i]);
        proof {
            assert(v@.take(i as int + 1) =~= v@.take(i as int).push(v@[i as int]));
        }
        i += 1;
    }
    out
}

/// A built IVF index: the trained model and one partition per
/// centroid. Read-only during queries.
#[derive(Debug)]
pub struct IvfIndex {
    /// The trained model: metric, dimension, centroids.
    pub model: IvfModel,
    /// One partition per centroid, in partition-id order.
    pub partitions: Vec<Partition>,
}

impl IvfIndex {
    /// The model is well formed, partitions align with centroids, and
    /// every partition is well formed at the model's dimension.
    pub open spec fn wf(self) -> bool {
        &&& self.model.wf()
        &&& self.partitions@.len() == self.model.centroids@.len()
        &&& forall|p: int|
            0 <= p < self.partitions@.len() ==> (#[trigger] self.partitions@[p]).wf(
                self.model.dimension,
            )
    }

    /// The pool a scan of every partition yields: the concatenation
    /// of all per-partition scans, in partition order — the linear
    /// scan over all stored vectors.
    pub open spec fn full_pool(self, m: DistanceType, q: Seq<u32>) -> Seq<Candidate> {
        pool_of(
            Seq::new(self.partitions@.len(), |p: int| self.partitions@[p].scan_spec(m, q)),
        )
    }

    /// An empty index over a trained model: one empty partition per
    /// centroid.
    pub fn new(model: IvfModel) -> (r: IvfIndex)
        requires
            model.wf(),
        ensures
            r.wf(),
            r.model == model,
            forall|p: int|
                0 <= p < r.partitions@.len() ==> (#[trigger] r.partitions@[p]).row_ids@.len()
                    == 0,
    {
        let n = model.centroids.len();
        let mut partitions: Vec<Partition> = Vec::new();
        let mut i: usize = 0;
        while i < n
            invariant
                i <= n,
                partitions@.len() == i,
                forall|p: int|
                    0 <= p < i ==> (#[trigger] partitions@[p]).row_ids@.len() == 0
                        && partitions@[p].vectors@.len() == 0,
            decreases n - i,
        {
            partitions.push(Partition { row_ids: Vec::new(), vectors: Vec::new() });
            i += 1;
        }
        IvfIndex { model, partitions }
    }

    /// Inserts one vector: assigns it to the partition of its nearest
    /// centroid and appends its row id and vector there. Every other
    /// partition, and the model, are untouched; a vector of the wrong
    /// dimension is rejected and nothing changes.
    pub fn add_vector(&mut self, row_id: u64, v: FloatVector) -> (r: Result<usize, Error>)
        requires
            old(self).wf(),
            old(self).model.centroids@.len() > 0,
        ensures
            final(self).wf(),
            final(self).model == old(self).model,
            match r {
                Result::Ok(p) => {
                    &&& elems_of(v).len() == old(self).model.dimension
                    &&& crate::ivf::is_assignment(
                        old(self).model.dists_to(elems_of(v)),
                        p as int,
                    )
                    &&& final(self).partitions@.len() == old(self).partitions@.len()
                    &&& final(self).partitions@[p as int].row_ids@ == old(self).partitions@[p as int].row_ids@.push(row_id)
                    &&& final(self).partitions@[p as int].vectors@ == old(self).partitions@[p as int].vectors@.push(v)
                    &&& forall|q: int|
                        0 <= q < old(self).partitions@.len() && q != p
                            ==> final(self).partitions@[q] == old(self).partitions@[q]
                },
                Result::Err(e) => {
                    &&& elems_of(v).len() != old(self).model.dimension
                    &&& e == (Error::DimensionMismatch {
                        expected: old(self).model.dimension,
                        actual: elems_of(v).len() as usize,
                    })
                    &&& *final(self) == *old(self)
                },
            },
    {
        let p = match self.model.assign(&v) {
            Result::Ok(p) => p,
            Result::Err(e) => {
                return Err(e);
            },
        };
        let ghost old_parts = self.partitions@;
        let mut part = self.partitions.remove(p);
        part.row_ids.push(row_id);
        part.vectors.push(v);
        self.partitions.insert(p, part);
        proof {
            assert(self.partitions@ =~= old_parts.update(p as int, self.partitions@[p as int]));
        }
        Ok(p)
    }

    /// The candidate lists of the selected partitions, given the
    /// selection: one scan per selection entry, in selection order.
    pub open spec fn selected_pool(self, m: DistanceType, q: Seq<u32>, sel: Seq<Candidate>) -> Seq<
        Candidate,
    > {
        pool_of(
            Seq::new(sel.len(), |i: int| self.partitions@[sel[i].row_id as int].scan_spec(m, q)),
        )
    }

    /// Runs selection, scan, merge and truncation for a validated
    /// query; `limit` is how many merged candidates to keep.
    fn run_pipeline(&self, query: &Query, limit: usize) -> (r: Vec<Candidate>)
        requires
            self.wf(),
            elems_of(query.key).len() == self.model.dimension,
        ensures
            sorted_by(r@, cand_order()),
            r@.len() <= limit,
            !query.use_index ==> query_result_matches(
                self.full_pool(query.metric_type, elems_of(query.key)),
                limit as int,
                r@,
            ),
            query.use_index ==> exists|sel: Seq<Candidate>|
                #[trigger] is_top_k(
                    centroid_cands(query.metric_type, self.model.centroids@, elems_of(query.key)),
                    query.nprobes as int,
                    sel,
                ) && query_result_matches(
                    self.selected_pool(query.metric_type, elems_of(query.key), sel),
                    limit as int,
                    r@,
                ),
    {
        let m = query.metric_type;
        let dim = self.model.dimension;
        let ghost qv = elems_of(query.key);
        let mut lists: Vec<Vec<Candidate>> = Vec::new();
        let ghost mut sel_view: Seq<Candidate> = Seq::empty();
        if !query.use_index {
            let mut p: usize = 0;
            while p < self.partitions.len()
                invariant
                    p <= self.partitions@.len(),
                    self.wf(),
                    qv == elems_of(query.key),
                    qv.len() == self.model.dimension,
                    m == query.metric_type,
                    dim == self.model.dimension,
                    lists@.len() == p,
                    forall|n: int|
                        0 <= n < p ==> (#[trigger] lists@[n])@ == self.partitions@[n].scan_spec(
                            m,
                            qv,
                        ),
                decreases self.partitions@.len() - p,
            {
                lists.push(scan_partition(&self.partitions[p], m, &query.key, dim));
                p += 1;
            }
        } else {
            let n = self.partitions.len();
            let ghost cands_spec = centroid_cands(m, self.model.centroids@, qv);
            let mut cands: Vec<Candidate> = Vec::new();
            let mut i: usize = 0;
            while i < n
                invariant
                    i <= n,
                    self.wf(),
                    qv == elems_of(query.key),
                    qv.len() == self.model.dimension,
                    m == query.metric_type,
                    n == self.partitions@.len(),
                    cands_spec == centroid_cands(m, self.model.centroids@, qv),
                    cands@.len() == i,
                    forall|j: int| 0 <= j < i ==> cands@[j] == cands_spec[j],
                decreases n - i,
            {
                let d = dist_key(m, &query.key, &self.model.centroids[i]);
                cands.push(Candidate { row_id: i as u64, dist: d });
                i += 1;
            }
            proof {
                assert(cands@ =~= cands_spec);
            }
            let sel = top_k(&cands, query.nprobes);
            proof {
                sel_view = sel@;
            }
            let mut s: usize = 0;
            while s < sel.len()
                invariant
                    s <= sel@.len(),
                    self.wf(),
                    qv == elems_of(query.key),
                    qv.len() == self.model.dimension,
                    m == query.metric_type,
                    dim == self.model.dimension,
                    cands_spec == centroid_cands(m, self.model.centroids@, qv),
                    n == self.partitions@.len(),
                    cands_spec.len() == n,
                    is_top_k(cands_spec, query.nprobes as int, sel@),
                    lists@.len() == s,
                    forall|j: int|
                        0 <= j < s ==> (#[trigger] lists@[j])@
                            == self.partitions@[sel@[j].row_id as int].scan_spec(m, qv),
                decreases sel@.len() - s,
            {
                proof {
                    broadcast use vstd::seq_lib::group_to_multiset_ensures;

                    assert(sel@.contains(sel@[s as int]));
                    assert(sel@.to_multiset().count(sel@[s as int]) > 0);
                    assert(cands_spec.to_multiset().count(sel@[s as int]) > 0);
                    assert(cands_spec.contains(sel@[s as int]));
                    let j = choose|j: int|
                        0 <= j < cands_spec.len() && cands_spec[j] == sel@[s as int];
                    assert(0 <= j < n);
                    assert(cands_spec[j].row_id == j as u64);
                    assert(sel@[s as int].row_id as int == j);
                }
                let idx = sel[s].row_id as usize;
                lists.push(scan_partition(&self.partitions[idx], m, &query.key, dim));
                s += 1;
            }
            proof {
                assert(Seq::new(
                    lists@.len(),
                    |i: int| lists@[i]@,
                ) =~= Seq::new(
                    sel_view.len(),
                    |i: int| self.partitions@[sel_view[i].row_id as int].scan_spec(m, qv),
                ));
            }
        }
        let merged = merge_candidates(&lists);
        let ghost merged_view = merged@;
        let out = take_prefix(merged, limit);
        proof {
            assert(lists@.map_values(|l: Vec<Candidate>| l@) =~= Seq::new(
                lists@.len(),
                |i: int| lists@[i]@,
            ));
            if !query.use_index {
                assert(Seq::new(lists@.len(), |i: int| lists@[i]@) =~= Seq::new(
                    self.partitions@.len(),
                    |p: int| self.partitions@[p].scan_spec(m, qv),
                ));
                assert(is_merged(self.full_pool(m, qv), merged_view));
            } else {
                assert(is_merged(self.selected_pool(m, qv, sel_view), merged_view));
            }
            // The output is a prefix of the sorted merged list.
            let cut = if limit < merged_view.len() {
                limit as int
            } else {
                merged_view.len() as int
            };
            assert(out@ == merged_view.take(cut));
            assert forall|a: int, b: int| 0 <= a < b < out@.len() implies #[trigger] cand_order()(
                out@[a],
                out@[b],
            ) by {
                assert(cand_order()(merged_view[a], merged_view[b]));
            }
        }
        out
    }

    /// Executes a query: validates it, selects partitions (all of
    /// them when the index is bypassed, else the `nprobes` nearest
    /// centroids), scans them, merges with dedup, and returns the
    /// best `k` candidates. An empty index yields an empty result; an
    /// invalid query yields exactly the error `validate_query` gives
    /// it.
    pub fn execute_query(&self, query: &Query) -> (r: Result<Vec<Candidate>, Error>)
        requires
            self.wf(),
        ensures
            match r {
                Result::Ok(res) => {
                    &&& valid_query(
                        *query,
                        self.partitions@.len() as int,
                        self.model.dimension as int,
                    )
                    &&& sorted_by(res@, cand_order())
                    &&& res@.len() <= query.k
                    &&& self.partitions@.len() == 0 ==> res@ == Seq::<Candidate>::empty()
                    &&& (self.partitions@.len() > 0 && !query.use_index) ==> query_result_matches(
                        self.full_pool(query.metric_type, elems_of(query.key)),
                        query.k as int,
                        res@,
                    )
                    &&& (self.partitions@.len() > 0 && query.use_index) ==> exists|
                        sel: Seq<Candidate>,
                    |
                        #[trigger] is_top_k(
                            centroid_cands(
                                query.metric_type,
                                self.model.centroids@,
                                elems_of(query.key),
                            ),
                            query.nprobes as int,
                            sel,
                        ) && query_result_matches(
                            self.selected_pool(query.metric_type, elems_of(query.key), sel),
                            query.k as int,
                            res@,
                        )
                },
                Result::Err(e) => {
                    &&& !valid_query(
                        *query,
                        self.partitions@.len() as int,
                        self.model.dimension as int,
                    )
                    &&& (e matches Error::DimensionMismatch { expected, actual } ==> expected
                        == self.model.dimension && actual == elems_of(query.key).len() && actual
                        != self.model.dimension)
                    &&& (e == Error::InvalidQueryParameter ==> elems_of(query.key).len()
                        == self.model.dimension)
                    &&& (e matches Error::DimensionMismatch { .. } || e
                        == Error::InvalidQueryParameter)
                },
            },
    {
        match validate_query(query, self.partitions.len(), self.model.dimension) {
            Result::Ok(()) => {},
            Result::Err(e) => {
                return Err(e);
            },
        }
        if self.partitions.len() == 0 {
            let empty: Vec<Candidate> = Vec::new();
            return Ok(empty);
        }
        Ok(self.run_pipeline(query, query.k))
    }

    /// The oversampled candidate pool of a refine step: like
    /// [`Self::execute_query`] but keeping `k` times the refine
    /// factor candidates, for the caller to re-rank against exact
    /// distances (see `topk::top_k`).
    pub fn oversampled_candidates(&self, query: &Query) -> (r: Result<Vec<Candidate>, Error>)
        requires
            self.wf(),
        ensures
            match r {
                Result::Ok(res) => {
                    &&& valid_query(
                        *query,
                        self.partitions@.len() as int,
                        self.model.dimension as int,
                    )
                    &&& sorted_by(res@, cand_order())
                    &&& res@.len() <= oversampled_k_of(query.k, query.refine_factor)
                    &&& self.partitions@.len() == 0 ==> res@ == Seq::<Candidate>::empty()
                    &&& (self.partitions@.len() > 0 && !query.use_index) ==> query_result_matches(
                        self.full_pool(query.metric_type, elems_of(query.key)),
                        oversampled_k_of(query.k, query.refine_factor),
                        res@,
                    )
                },
                Result::Err(e) => {
                    &&& !valid_query(
                        *query,
                        self.partitions@.len() as int,
                        self.model.dimension as int,
                    )
                    &&& (e matches Error::DimensionMismatch { expected, actual } ==> expected
                        == self.model.dimension && actual == elems_of(query.key).len() && actual
                        != self.model.dimension)
                    &&& (e matches Error::DimensionMismatch { .. } || e
                        == Error::InvalidQueryParameter)
                },
            },
    {
        match validate_query(query, self.partitions.len(), self.model.dimension) {
            Result::Ok(()) => {},
            Result::Err(e) => {
                return Err(e);
            },
        }
        if self.partitions.len() == 0 {
            let empty: Vec<Candidate> = Vec::new();
            return Ok(empty);
        }
        let limit = oversampled_k(query.k, query.refine_factor);
        Ok(self.run_pipeline(query, limit))
    }
}

} // verus!
