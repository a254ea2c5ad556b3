//! Flat quantization: no compression, exact reconstruction.
//!
//! The code of a vector is the sequence of its element bit patterns;
//! decoding returns it unchanged, so the reconstruction error is
//! exactly zero ([`lemma_flat_round_trip`]).

use vstd::prelude::*;
use crate::arrays::{FloatVector, elems_of, vector_bits, vector_len};
use crate::error::Error;

verus! {

/// What flat encoding yields: the vector's own elements.
pub open spec fn flat_encode_spec(v: FloatVector) -> Seq<u32> {
    elems_of(v)
}

/// What flat decoding yields: the code, unchanged.
pub open spec fn flat_decode_spec(code: Seq<u32>) -> Seq<u32> {
    code
}

/// Flat codes reconstruct exactly: decoding the code of any vector
/// yields that vector's elements, bit for bit — zero reconstruction
/// error.
pub proof fn lemma_flat_round_trip(v: FloatVector)
    ensures
        flat_decode_spec(flat_encode_spec(v)) == elems_of(v),
{
}

/// The flat (identity) quantizer for a fixed dimension.
#[derive(Debug)]
pub struct FlatQuantizer {
    /// Dimension every encoded vector must have.
    pub dimension: usize,
}

impl FlatQuantizer {
    /// Encodes a vector as its element bit patterns; a vector of the
    /// wrong dimension is rejected.
    pub fn encode(&self, v: &FloatVector) -> (r: Result<Vec<u32>, Error>)
        ensures
            match r {
                Result::Ok(code) => elems_of(*v).len() == self.dimension && code@
                    == flat_encode_spec(*v),
                Result::Err(e) => {
                    &&& elems_of(*v).len() != self.dimension
                    &&& e == (Error::DimensionMismatch {
                        expected: self.dimension,
                        actual: elems_of(*v).len() as usize,
                    })
                },
            },
    {
        let len = vector_len(v);
        if len != self.dimension {
            return Err(Error::DimensionMismatch { expected: self.dimension, actual: len });
        }
        Ok(vector_bits(v))
    }

    /// Decodes a flat code: the reconstruction is the code itself.
    pub fn decode(&self, code: &Vec<u32>) -> (r: Vec<u32>)
        ensures
            r@ == flat_decode_spec(code@),
    {
        let mut out: Vec<u32> = Vec::new();
        let mut i: usize = 0;
        while i < code.len()
            invariant
                i <= code@.len(),
                out@ == code@.take(i as int),
            decreases code@.len() - i,
        {
            out.push(code[i]);
            proof {
                assert(code@.take(i as int + 1) =~= code@.take(i as int).push(code@[i as int]));
            }
            i += 1;
        }
        proof {
            assert(code@.take(code@.len() as int) =~= code@);
        }
        out
    }
}

} // verus!
