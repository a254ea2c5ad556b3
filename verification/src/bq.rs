//! Binary quantization: one sign bit per dimension.
//!
//! A vector is encoded against per-dimension thresholds: each bit says
//! whether the element is at least its threshold in the total order of
//! the floats (compared through the order keys of `keys`). Distance
//! between codes is the Hamming distance — the count of differing
//! bits — the fastest and most lossy of the quantizers, useful as a
//! pre-filter before an exact refine.

use vstd::prelude::*;
use crate::arrays::{FloatVector, elems_of, vector_bits, vector_len};
use crate::error::Error;
use crate::keys::{order_key, order_key_of};

verus! {

/// The sign bits of a vector against thresholds: bit `i` is set when
/// element `i` is at least threshold `i` in the float total order.
pub open spec fn bq_encode_spec(thresholds: Seq<u32>, v: Seq<u32>) -> Seq<bool> {
    Seq::new(v.len(), |i: int| order_key_of(v[i]) >= order_key_of(thresholds[i]))
}

/// Number of positions at which two equal-length codes differ.
pub open spec fn code_hamming_of(a: Seq<bool>, b: Seq<bool>) -> int
    decreases a.len(),
{
    if a.len() == 0 {
        0
    } else {
        code_hamming_of(a.drop_last(), b.drop_last()) + if a.last() == b.last() {
            0int
        } else {
            1int
        }
    }
}

/// The binary quantizer: per-dimension thresholds, stored as element
/// bit patterns.
#[derive(Debug)]
pub struct BinaryQuantizer {
    /// Per-dimension thresholds (element bit patterns); the length is
    /// the dimension.
    pub thresholds: Vec<u32>,
}

impl BinaryQuantizer {
    /// Encodes a vector to one sign bit per dimension; a vector of
    /// the wrong dimension is rejected.
    pub fn encode(&self, v: &FloatVector) -> (r: Result<Vec<bool>, Error>)
        ensures
            match r {
                Result::Ok(code) => {
                    &&& elems_of(*v).len() == self.thresholds@.len()
                    &&& code@ == bq_encode_spec(self.thresholds@, elems_of(*v))
                },
                Result::Err(e) => {
                    &&& elems_of(*v).len() != self.thresholds@.len()
                    &&& e == (Error::DimensionMismatch {
                        expected: self.thresholds@.len() as usize,
                        actual: elems_of(*v).len() as usize,
                    })
                },
            },
    {
        let len = vector_len(v);
        if len != self.thresholds.len() {
            return Err(Error::DimensionMismatch {
                expected: self.thresholds.len(),
                actual: len,
            });
        }
        let bits = vector_bits(v);
        let mut code: Vec<bool> = Vec::new();
        let mut i: usize = 0;
        while i < bits.len()
            invariant
                i <= bits@.len(),
                bits@ == elems_of(*v),
                bits@.len() == self.thresholds@.len(),
                code@.len() == i,
                forall|n: int|
                    0 <= n < i ==> code@[n] == bq_encode_spec(self.thresholds@, bits@)[n],
            decreases bits@.len() - i,
        {
            code.push(order_key(bits[i]) >= order_key(self.thresholds[i]));
            i += 1;
        }
        proof {
            assert(code@ =~= bq_encode_spec(self.thresholds@, bits@));
        }
        Ok(code)
    }

    /// Hamming distance between two codes of this quantizer's
    /// dimension: the count of differing sign bits.
    pub fn distance(&self, a: &Vec<bool>, b: &Vec<bool>) -> (r: Result<u64, Error>)
        ensures
            match r {
                Result::Ok(d) => a@.len() == b@.len() && d == code_hamming_of(a@, b@),
                Result::Err(e) => {
                    &&& a@.len() != b@.len()
                    &&& e == (Error::DimensionMismatch {
                        expected: a@.len() as usize,
                        actual: b@.len() as usize,
                    })
                },
            },
    {
        if a.len() != b.len() {
            return Err(Error::DimensionMismatch { expected: a.len(), actual: b.len() });
        }
        let mut count: u64 = 0;
        let mut i: usize = 0;
        proof {
            assert(a@.take(0) =~= Seq::<bool>::empty());
        }
        while i < a.len()
            invariant
                i <= a@.len(),
                a@.len() == b@.len(),
                count == code_hamming_of(a@.take(i as int), b@.take(i as int)),
                count <= i,
            decreases a@.len() - i,
        {
            proof {
                assert(a@.take(i as int + 1).drop_last() =~= a@.take(i as int));
                assert(b@.take(i as int + 1).drop_last() =~= b@.take(i as int));
                assert(a@.take(i as int + 1).last() == a@[i as int]);
                assert(b@.take(i as int + 1).last() == b@[i as int]);
            }
            if a[i] != b[i] {
                count += 1;
            }
            i += 1;
        }
        proof {
            assert(a@.take(a@.len() as int) =~= a@);
            assert(b@.take(b@.len() as int) =~= b@);
        }
        Ok(count)
    }
}

} // verus!
