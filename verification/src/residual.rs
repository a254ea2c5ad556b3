//! Residual quantization: product-quantize the difference from the
//! coarse centroid.
//!
//! Within a partition, vectors cluster around their centroid, so the
//! residual (vector minus centroid) spans a smaller range than the
//! raw vector and the same codebooks quantize it with less error.
//! Encoding subtracts the assigned centroid and applies the product
//! quantizer to the residual; decoding reconstructs the residual and
//! adds the centroid back. The subtraction and addition are the arrow
//! arithmetic kernels, named by `sub_of` and `add_of` in the
//! contracts.

use vstd::prelude::*;
use crate::arrays::{FloatVector, add_of, elems_of, sub_of, vector_add, vector_from_bits,
    vector_len, vector_sub};
use crate::error::Error;
use crate::ivf::is_assignment;
use crate::pq::ProductQuantizer;

verus! {

/// A residual quantizer: coarse centroids (one per partition) and the
/// product quantizer trained on residuals.
#[derive(Debug)]
pub struct ResidualQuantizer {
    /// Coarse centroids, one per partition, each of the quantizer's
    /// dimension.
    pub centroids: Vec<FloatVector>,
    /// The product quantizer applied to residuals.
    pub pq: ProductQuantizer,
}

impl ResidualQuantizer {
    /// The product quantizer is well formed and every centroid has
    /// its dimension.
    pub open spec fn wf(self) -> bool {
        &&& self.pq.wf()
        &&& forall|i: int|
            0 <= i < self.centroids@.len() ==> elems_of(#[trigger] self.centroids@[i]).len()
                == self.pq.dimension()
    }

    /// The residual of a query against a partition's centroid.
    pub open spec fn residual_spec(self, q: Seq<u32>, partition_id: int) -> Seq<u32> {
        sub_of(q, elems_of(self.centroids@[partition_id]))
    }

    /// Encodes a vector assigned to `partition_id`: subtracts that
    /// partition's centroid and product-quantizes the residual. A
    /// vector of the wrong dimension is rejected.
    pub fn encode(&self, v: &FloatVector, partition_id: usize) -> (r: Result<Vec<u8>, Error>)
        requires
            self.wf(),
            partition_id < self.centroids@.len(),
        ensures
            match r {
                Result::Ok(code) => {
                    &&& elems_of(*v).len() == self.pq.dimension()
                    &&& code@.len() == self.pq.num_sub_vectors
                    &&& forall|m: int|
                        0 <= m < code@.len() ==> is_assignment(
                            self.pq.sub_dists(
                                self.residual_spec(elems_of(*v), partition_id as int),
                                m,
                            ),
                            #[trigger] code@[m] as int,
                        )
                },
                Result::Err(e) => {
                    &&& elems_of(*v).len() != self.pq.dimension()
                    &&& e == (Error::DimensionMismatch {
                        expected: (self.pq.num_sub_vectors * self.pq.sub_dimension) as usize,
                        actual: elems_of(*v).len() as usize,
                    })
                },
            },
    {
        proof {
            assert(self.pq.num_sub_vectors * self.pq.sub_dimension <= usize::MAX);
        }
        let dim: usize = self.pq.num_sub_vectors * self.pq.sub_dimension;
        let len = vector_len(v);
        if len != dim {
            return Err(Error::DimensionMismatch { expected: dim, actual: len });
        }
        let residual = vector_sub(v, &self.centroids[partition_id]);
        match self.pq.encode(&residual) {
            Result::Ok(code) => Ok(code),
            Result::Err(_) => {
                proof {
                    assert(false);
                }
                Err(Error::InvalidQueryParameter)
            },
        }
    }

    /// Decodes a code for `partition_id`: reconstructs the residual
    /// through the product quantizer and adds the centroid back.
    pub fn decode(&self, code: &Vec<u8>, partition_id: usize) -> (r: FloatVector)
        requires
            self.wf(),
            partition_id < self.centroids@.len(),
            code@.len() == self.pq.num_sub_vectors,
            forall|m: int|
                0 <= m < code@.len() ==> (#[trigger] code@[m] as int)
                    < self.pq.codebooks@[m]@.len(),
        ensures
            elems_of(r) == add_of(
                self.pq.decode_spec(code@),
                elems_of(self.centroids@[partition_id as int]),
            ),
    {
        proof {
            self.pq.lemma_decode_spec_len(code@);
        }
        let residual_bits = self.pq.decode(code);
        let residual = vector_from_bits(&residual_bits);
        vector_add(&residual, &self.centroids[partition_id])
    }
}

} // verus!
