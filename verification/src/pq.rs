//! Product quantization: sub-vector-wise compression against small
//! codebooks.
//!
//! A vector of dimension `M * d` is split into `M` contiguous
//! sub-vectors of length `d`; each is encoded independently as the
//! index of its nearest centroid in that position's sub-codebook (at
//! most 256 centroids, so one byte per sub-vector). Decoding
//! concatenates the chosen centroids — the reconstruction the
//! quantizer is able to offer.

use vstd::prelude::*;
use crate::arrays::{FloatVector, elems_of, vector_bits, vector_len, vector_slice};
use crate::error::Error;
use crate::ivf::{argmin_key, is_assignment};
use crate::keys::{dist_key, dist_key_of};
use crate::metric::DistanceType;

verus! {

/// A trained product quantizer: `num_sub_vectors` sub-codebooks, each
/// holding the centroids for one sub-vector of length
/// `sub_dimension`. Immutable after training.
#[derive(Debug)]
pub struct ProductQuantizer {
    /// Metric the codebooks were trained under.
    pub metric_type: DistanceType,
    /// Number of sub-vectors a vector is split into.
    pub num_sub_vectors: usize,
    /// Length of each sub-vector.
    pub sub_dimension: usize,
    /// One sub-codebook per sub-vector position.
    pub codebooks: Vec<Vec<FloatVector>>,
}

impl ProductQuantizer {
    /// The dimension of encodable vectors.
    pub open spec fn dimension(self) -> int {
        self.num_sub_vectors * self.sub_dimension
    }

    /// One sub-codebook per position, each non-empty, at most 256
    /// centroids (a code fits one byte), every centroid of the
    /// sub-vector length, and the full dimension representable.
    pub open spec fn wf(self) -> bool {
        &&& self.num_sub_vectors >= 1
        &&& self.sub_dimension >= 1
        &&& self.num_sub_vectors * self.sub_dimension <= usize::MAX
        &&& self.codebooks@.len() == self.num_sub_vectors
        &&& forall|m: int|
            0 <= m < self.codebooks@.len() ==> 1 <= (#[trigger] self.codebooks@[m])@.len() <= 256
        &&& forall|m: int, k: int|
            0 <= m < self.codebooks@.len() && 0 <= k < self.codebooks@[m]@.len() ==> elems_of(
                #[trigger] self.codebooks@[m]@[k],
            ).len() == self.sub_dimension
    }

    /// The `m`-th sub-vector of a query: elements `m*d .. (m+1)*d`.
    pub open spec fn sub_vector(self, q: Seq<u32>, m: int) -> Seq<u32> {
        q.subrange(m * self.sub_dimension, (m + 1) * self.sub_dimension)
    }

    /// Distance keys from the `m`-th sub-vector of a query to the
    /// centroids of sub-codebook `m`.
    pub open spec fn sub_dists(self, q: Seq<u32>, m: int) -> Seq<u64> {
        Seq::new(
            self.codebooks@[m]@.len(),
            |k: int|
                dist_key_of(
                    self.metric_type,
                    self.sub_vector(q, m),
                    elems_of(self.codebooks@[m]@[k]),
                ),
        )
    }

    /// The reconstruction of a code: the chosen centroids of each
    /// sub-codebook, concatenated in position order.
    pub open spec fn decode_spec(self, code: Seq<u8>) -> Seq<u32> {
        Seq::new(
            code.len(),
            |m: int| elems_of(self.codebooks@[m]@[code[m] as int]),
        ).flatten()
    }

    /// A valid code reconstructs to exactly the quantizer's
    /// dimension: the concatenation of `code.len()` centroids of the
    /// sub-vector length.
    pub proof fn lemma_decode_spec_len(self, code: Seq<u8>)
        requires
            self.wf(),
            code.len() <= self.num_sub_vectors,
            forall|m: int|
                0 <= m < code.len() ==> (#[trigger] code[m] as int) < self.codebooks@[m]@.len(),
        ensures
            self.decode_spec(code).len() == code.len() * self.sub_dimension,
        decreases code.len(),
    {
        let parts = Seq::new(
            code.len(),
            |m: int| elems_of(self.codebooks@[m]@[code[m] as int]),
        );
        lemma_uniform_flatten_len(parts, self.sub_dimension as int);
    }

    /// Encodes a vector: each sub-vector becomes the index of its
    /// nearest centroid (ties to the lowest index) in that position's
    /// sub-codebook. A vector of the wrong dimension is rejected.
    pub fn encode(&self, v: &FloatVector) -> (r: Result<Vec<u8>, Error>)
        requires
            self.wf(),
        ensures
            match r {
                Result::Ok(code) => {
                    &&& elems_of(*v).len() == self.dimension()
                    &&& code@.len() == self.num_sub_vectors
                    &&& forall|m: int|
                        0 <= m < code@.len() ==> is_assignment(
                            self.sub_dists(elems_of(*v), m),
                            #[trigger] code@[m] as int,
                        )
                },
                Result::Err(e) => {
                    &&& elems_of(*v).len() != self.dimension()
                    &&& e == (Error::DimensionMismatch {
                        expected: (self.num_sub_vectors * self.sub_dimension) as usize,
                        actual: elems_of(*v).len() as usize,
                    })
                },
            },
    {
        proof {
            assert(self.num_sub_vectors * self.sub_dimension <= usize::MAX);
        }
        let dim: usize = self.num_sub_vectors * self.sub_dimension;
        let len = vector_len(v);
        if len != dim {
            return Err(Error::DimensionMismatch { expected: dim, actual: len });
        }
        let ghost qv = elems_of(*v);
        let mut code: Vec<u8> = Vec::new();
        let mut m: usize = 0;
        while m < self.num_sub_vectors
            invariant
                m <= self.num_sub_vectors,
                self.wf(),
                qv == elems_of(*v),
                qv.len() == self.dimension(),
                dim == self.dimension(),
                code@.len() == m,
                forall|n: int|
                    0 <= n < m ==> is_assignment(self.sub_dists(qv, n), #[trigger] code@[n] as int),
            decreases self.num_sub_vectors - m,
        {
            proof {
                assert(m * self.sub_dimension + self.sub_dimension <= self.num_sub_vectors
                    * self.sub_dimension) by (nonlinear_arith)
                    requires
                        m < self.num_sub_vectors,
                        self.sub_dimension >= 1,
                ;
            }
            let off: usize = m * self.sub_dimension;
            proof {
                assert((m + 1) * self.sub_dimension == m * self.sub_dimension
                    + self.sub_dimension) by (nonlinear_arith);
            }
            let sub = vector_slice(v, off, self.sub_dimension);
            let cb = &self.codebooks[m];
            let mut dists: Vec<u64> = Vec::new();
            let mut k: usize = 0;
            while k < cb.len()
                invariant
                    k <= cb@.len(),
                    self.wf(),
                    qv == elems_of(*v),
                    qv.len() == self.dimension(),
                    m < self.num_sub_vectors,
                    cb@ == self.codebooks@[m as int]@,
                    elems_of(sub) == self.sub_vector(qv, m as int),
                    elems_of(sub).len() == self.sub_dimension,
                    dists@.len() == k,
                    forall|j: int| 0 <= j < k ==> dists@[j] == self.sub_dists(qv, m as int)[j],
                decreases cb@.len() - k,
            {
                let d = dist_key(self.metric_type, &sub, &cb[k]);
                dists.push(d);
                k += 1;
            }
            proof {
                assert(dists@ =~= self.sub_dists(qv, m as int));
            }
            match argmin_key(&dists) {
                Option::Some(best) => {
                    code.push(best as u8);
                },
                Option::None => {
                    proof {
                        assert(false);
                    }
                },
            }
            m += 1;
        }
        Ok(code)
    }

    /// Decodes a code of this quantizer — one valid centroid index
    /// per sub-vector position — into the concatenation of the chosen
    /// centroids' elements.
    pub fn decode(&self, code: &Vec<u8>) -> (r: Vec<u32>)
        requires
            self.wf(),
            code@.len() == self.num_sub_vectors,
            forall|m: int|
                0 <= m < code@.len() ==> (#[trigger] code@[m] as int)
                    < self.codebooks@[m]@.len(),
        ensures
            r@ == self.decode_spec(code@),
    {
        let ghost target = Seq::new(
            code@.len(),
            |m: int| elems_of(self.codebooks@[m]@[code@[m] as int]),
        );
        let mut out: Vec<u32> = Vec::new();
        let mut m: usize = 0;
        proof {
            assert(target.take(0) =~= Seq::<Seq<u32>>::empty());
            assert(out@ =~= target.take(0).flatten());
        }
        while m < code.len()
            invariant
                m <= code@.len(),
                self.wf(),
                code@.len() == self.num_sub_vectors,
                forall|n: int|
                    0 <= n < code@.len() ==> (#[trigger] code@[n] as int)
                        < self.codebooks@[n]@.len(),
                target == Seq::new(
                    code@.len(),
                    |n: int| elems_of(self.codebooks@[n]@[code@[n] as int]),
                ),
                out@ == target.take(m as int).flatten(),
            decreases code@.len() - m,
        {
            let idx = code[m] as usize;
            let mut bits = vector_bits(&self.codebooks[m][idx]);
            out.append(&mut bits);
            proof {
                assert(target.take(m as int + 1) =~= target.take(m as int).push(
                    target[m as int],
                ));
                target.take(m as int).lemma_flatten_push(target[m as int]);
            }
            m += 1;
        }
        proof {
            assert(target.take(target.len() as int) =~= target);
        }
        out
    }
}

/// The flattening of uniformly sized sequences has the product
/// length.
proof fn lemma_uniform_flatten_len(ls: Seq<Seq<u32>>, d: int)
    requires
        forall|i: int| 0 <= i < ls.len() ==> (#[trigger] ls[i]).len() == d,
    ensures
        ls.flatten().len() == ls.len() * d,
    decreases ls.len(),
{
    if ls.len() == 0 {
        assert(ls.flatten() =~= Seq::<u32>::empty());
    } else {
        lemma_uniform_flatten_len(ls.drop_first(), d);
        assert(ls.flatten().len() == d + (ls.len() - 1) * d);
        assert(d + (ls.len() - 1) * d == ls.len() * d) by (nonlinear_arith);
    }
}

} // verus!
