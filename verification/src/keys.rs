//! Total-order distance keys.
//!
//! Ranking never touches floating point: the bit pattern of each kernel
//! result is mapped through [`order_key_of`], the order-preserving
//! transform the standard library documents for `total_cmp` on
//! 32-bit floats (negative
//! values have all bits inverted, non-negative values have the sign
//! bit set), so comparing keys as unsigned integers compares the
//! distances in the total order of the floats. The Hamming metric is
//! computed here directly: it is a per-dimension comparison and needs
//! no kernel.

use vstd::prelude::*;
use crate::arrays::{FloatVector, cosine_bits, cosine_distance_bits, dot_bits, dot_distance_bits,
    elems_of, l2_bits, l2_distance_bits, vector_bits};
use crate::metric::DistanceType;

verus! {

/// Order-preserving key of a 32-bit float's bit pattern: inverting all
/// bits of negatives and setting the sign bit of non-negatives turns
/// the total order of the floats into the unsigned order of the keys.
pub open spec fn order_key_of(bits: u32) -> u32 {
    if bits >= 0x8000_0000 {
        !bits
    } else {
        bits | 0x8000_0000
    }
}

/// Exec form of [`order_key_of`].
pub fn order_key(bits: u32) -> (r: u32)
    ensures
        r == order_key_of(bits),
{
    if bits >= 0x8000_0000 {
        !bits
    } else {
        bits | 0x8000_0000
    }
}

/// Number of positions at which two equal-length vectors differ.
pub open spec fn hamming_of(a: Seq<u32>, b: Seq<u32>) -> int
    decreases a.len(),
{
    if a.len() == 0 {
        0
    } else {
        hamming_of(a.drop_last(), b.drop_last()) + if a.last() == b.last() {
            0int
        } else {
            1int
        }
    }
}

/// The distance key of a query vector and a stored vector under a
/// metric: the order key of the kernel's result for the float metrics,
/// the differing-dimension count for Hamming.
pub open spec fn dist_key_of(m: DistanceType, q: Seq<u32>, v: Seq<u32>) -> u64 {
    match m {
        DistanceType::L2 => order_key_of(l2_bits(q, v)) as u64,
        DistanceType::Cosine => order_key_of(cosine_bits(q, v)) as u64,
        DistanceType::Dot => order_key_of(dot_bits(q, v)) as u64,
        DistanceType::Hamming => hamming_of(q, v) as u64,
    }
}

/// Computes the distance key of two equal-length vectors under a
/// metric. Smaller keys are better matches under every metric.
pub fn dist_key(m: DistanceType, q: &FloatVector, v: &FloatVector) -> (r: u64)
    requires
        elems_of(*q).len() == elems_of(*v).len(),
    ensures
        r == dist_key_of(m, elems_of(*q), elems_of(*v)),
{
    match m {
        DistanceType::L2 => order_key(l2_distance_bits(q, v)) as u64,
        DistanceType::Cosine => order_key(cosine_distance_bits(q, v)) as u64,
        DistanceType::Dot => order_key(dot_distance_bits(q, v)) as u64,
        DistanceType::Hamming => {
            let qb = vector_bits(q);
            let vb = vector_bits(v);
            hamming_count(&qb, &vb)
        },
    }
}

/// Counts the differing positions of two equal-length vectors.
pub fn hamming_count(a: &Vec<u32>, b: &Vec<u32>) -> (r: u64)
    requires
        a@.len() == b@.len(),
    ensures
        r == hamming_of(a@, b@),
{
    let mut count: u64 = 0;
    let mut i: usize = 0;
    proof {
        assert(a@.take(0) =~= Seq::<u32>::empty());
    }
    while i < a.len()
        invariant
            i <= a@.len(),
            a@.len() == b@.len(),
            count == hamming_of(a@.take(i as int), b@.take(i as int)),
            count <= i,
        decreases a@.len() - i,
    {
        proof {
            assert(a@.take(i as int + 1).drop_last() =~= a@.take(i as int));
            assert(b@.take(i as int + 1).drop_last() =~= b@.take(i as int));
            assert(a@.take(i as int + 1).last() == a@[i as int]);
            assert(b@.take(i as int + 1).last() == b@[i as int]);
        }
        if a[i] != b[i] {
            count += 1;
        }
        i += 1;
    }
    proof {
        assert(a@.take(a@.len() as int) =~= a@);
        assert(b@.take(b@.len() as int) =~= b@);
    }
    count
}

} // verus!
