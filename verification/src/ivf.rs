//! Inverted-file partitioning: nearest-centroid assignment.
//!
//! A trained model is an ordered centroid set; the position of a
//! centroid is the partition id. Every vector belongs to the partition
//! of its nearest centroid under the configured metric, ties broken by
//! the lowest partition id — a rule that makes assignment a function
//! of the distances alone, so repeated assignment of the same vector
//! against the same centroids can never move it
//! ([`lemma_assignment_unique`]).

use vstd::prelude::*;
use crate::arrays::{FloatVector, elems_of, vector_len};
use crate::error::Error;
use crate::keys::{dist_key, dist_key_of};
use crate::metric::DistanceType;

verus! {

/// `i` is the assignment for the distance keys `dists`: its distance
/// is minimal and every earlier partition is strictly farther.
pub open spec fn is_assignment(dists: Seq<u64>, i: int) -> bool {
    &&& 0 <= i < dists.len()
    &&& (forall|j: int| 0 <= j < dists.len() ==> dists[i] <= #[trigger] dists[j])
    &&& (forall|j: int| 0 <= j < i ==> dists[i] < #[trigger] dists[j])
}

/// Assignment is deterministic and stable: the distance keys admit
/// exactly one assignment, so assigning the same vector against the
/// same centroids twice yields the same partition id.
pub proof fn lemma_assignment_unique(dists: Seq<u64>, i1: int, i2: int)
    requires
        is_assignment(dists, i1),
        is_assignment(dists, i2),
    ensures
        i1 == i2,
{
    if i1 < i2 {
        assert(dists[i2] < dists[i1]);
        assert(dists[i1] <= dists[i2]);
    }
    if i2 < i1 {
        assert(dists[i1] < dists[i2]);
        assert(dists[i2] <= dists[i1]);
    }
}

/// Index of the smallest distance key, ties to the lowest index;
/// `None` exactly when there are no keys.
pub fn argmin_key(dists: &Vec<u64>) -> (r: Option<usize>)
    ensures
        match r {
            Option::None => dists@.len() == 0,
            Option::Some(i) => is_assignment(dists@, i as int),
        },
{
    if dists.len() == 0 {
        return None;
    }
    let mut best: usize = 0;
    let mut j: usize = 1;
    while j < dists.len()
        invariant
            best < j <= dists@.len(),
            forall|m: int| 0 <= m < j ==> dists@[best as int] <= #[trigger] dists@[m],
            forall|m: int| 0 <= m < best ==> dists@[best as int] < #[trigger] dists@[m],
        decreases dists@.len() - j,
    {
        if dists[j] < dists[best] {
            best = j;
        }
        j += 1;
    }
    Some(best)
}

/// The distance keys from a query (given by its element bit patterns)
/// to each centroid, in partition order.
pub open spec fn centroid_dists(m: DistanceType, cents: Seq<FloatVector>, q: Seq<u32>) -> Seq<u64> {
    Seq::new(cents.len(), |i: int| dist_key_of(m, q, elems_of(cents[i])))
}

/// A trained IVF model: the metric, the fixed vector dimension, and
/// the ordered centroid set. Immutable once trained.
#[derive(Debug)]
pub struct IvfModel {
    /// Metric the model was trained under.
    pub metric_type: DistanceType,
    /// Dimension every centroid, stored vector and query must have.
    pub dimension: usize,
    /// Trained centroids; the position is the partition id.
    pub centroids: Vec<FloatVector>,
}

impl IvfModel {
    /// Every centroid has the model's dimension.
    pub open spec fn wf(self) -> bool {
        forall|i: int|
            0 <= i < self.centroids@.len() ==> elems_of(
                #[trigger] self.centroids@[i],
            ).len() == self.dimension
    }

    /// The distance keys from a query to this model's centroids.
    pub open spec fn dists_to(self, q: Seq<u32>) -> Seq<u64> {
        centroid_dists(self.metric_type, self.centroids@, q)
    }

    /// Builds a model after checking that every centroid has the
    /// stated dimension; rejects the first centroid that does not.
    pub fn new(metric_type: DistanceType, dimension: usize, centroids: Vec<FloatVector>) -> (r:
        Result<IvfModel, Error>)
        ensures
            match r {
                Result::Ok(model) => {
                    &&& model.wf()
                    &&& model.metric_type == metric_type
                    &&& model.dimension == dimension
                    &&& model.centroids@ == centroids@
                },
                Result::Err(e) => {
                    &&& exists|i: int|
                        0 <= i < centroids@.len() && elems_of(#[trigger] centroids@[i]).len()
                            != dimension
                    &&& e matches Error::DimensionMismatch { expected, actual } && expected
                        == dimension
                },
            },
    {
        let mut i: usize = 0;
        while i < centroids.len()
            invariant
                i <= centroids@.len(),
                forall|m: int|
                    0 <= m < i ==> elems_of(#[trigger] centroids@[m]).len() == dimension,
            decreases centroids@.len() - i,
        {
            let len = vector_len(&centroids[i]);
            if len != dimension {
                return Err(Error::DimensionMismatch { expected: dimension, actual: len });
            }
            i += 1;
        }
        Ok(IvfModel { metric_type, dimension, centroids })
    }

    /// Assigns a vector to the partition of its nearest centroid, ties
    /// to the lowest partition id. A vector of the wrong dimension is
    /// rejected, never coerced.
    pub fn assign(&self, q: &FloatVector) -> (r: Result<usize, Error>)
        requires
            self.wf(),
            self.centroids@.len() > 0,
        ensures
            match r {
                Result::Ok(i) => {
                    &&& elems_of(*q).len() == self.dimension
                    &&& is_assignment(self.dists_to(elems_of(*q)), i as int)
                },
                Result::Err(e) => {
                    &&& elems_of(*q).len() != self.dimension
                    &&& e == (Error::DimensionMismatch {
                        expected: self.dimension,
                        actual: elems_of(*q).len() as usize,
                    })
                },
            },
    {
        let qlen = vector_len(q);
        if qlen != self.dimension {
            return Err(Error::DimensionMismatch { expected: self.dimension, actual: qlen });
        }
        let mut dists: Vec<u64> = Vec::new();
        let mut i: usize = 0;
        while i < self.centroids.len()
            invariant
                i <= self.centroids@.len(),
                self.wf(),
                elems_of(*q).len() == self.dimension,
                dists@.len() == i,
                forall|m: int|
                    0 <= m < i ==> dists@[m] == self.dists_to(elems_of(*q))[m],
            decreases self.centroids@.len() - i,
        {
            let d = dist_key(self.metric_type, q, &self.centroids[i]);
            dists.push(d);
            i += 1;
        }
        proof {
            assert(dists@ =~= self.dists_to(elems_of(*q)));
        }
        match argmin_key(&dists) {
            Option::Some(best) => Ok(best),
            Option::None => {
                proof {
                    assert(false);
                }
                Err(Error::InvalidQueryParameter)
            },
        }
    }
}

/// The sample-size floor for training: a sample must hold at least
/// this many points per requested cluster, or training is rejected
/// with `InsufficientData` before any partial structure is built.
pub const MIN_SAMPLES_PER_CLUSTER: usize = 2;

/// Accepts a training sample exactly when it holds at least
/// [`MIN_SAMPLES_PER_CLUSTER`] points per requested cluster (and at
/// least one cluster is requested).
pub fn validate_training_sample(sample_size: usize, cluster_count: usize) -> (r: Result<
    (),
    Error,
>)
    ensures
        match r {
            Result::Ok(()) => cluster_count >= 1 && sample_size >= MIN_SAMPLES_PER_CLUSTER
                * cluster_count,
            Result::Err(e) => {
                &&& (cluster_count < 1 || sample_size < MIN_SAMPLES_PER_CLUSTER * cluster_count)
                &&& e == (Error::InsufficientData {
                    requested: cluster_count,
                    available: sample_size,
                })
            },
        },
{
    if cluster_count >= 1 && sample_size / MIN_SAMPLES_PER_CLUSTER >= cluster_count {
        proof {
            assert(sample_size >= MIN_SAMPLES_PER_CLUSTER * cluster_count) by (nonlinear_arith)
                requires
                    cluster_count >= 1,
                    sample_size / 2 >= cluster_count,
                    MIN_SAMPLES_PER_CLUSTER == 2,
            ;
        }
        Ok(())
    } else {
        proof {
            assert(cluster_count < 1 || sample_size < MIN_SAMPLES_PER_CLUSTER * cluster_count)
                by (nonlinear_arith)
                requires
                    !(cluster_count >= 1 && sample_size / 2 >= cluster_count),
                    MIN_SAMPLES_PER_CLUSTER == 2,
            ;
        }
        Err(Error::InsufficientData { requested: cluster_count, available: sample_size })
    }
}

} // verus!
