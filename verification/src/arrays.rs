//! Trusted boundary to the arrow float arrays and the lance-linalg
//! distance kernels.
//!
//! A stored vector or query key is a [`FloatVector`]: an
//! `arrow_array::Float32Array` held opaquely. What it holds is named by
//! [`elems_of`], the sequence of the 32-bit patterns of its elements
//! (`from_bits` of the pattern is the element), and every trusted
//! wrapper below speaks of the vector only through that name. Distance
//! kernels likewise have their results named as bit patterns; the
//! verified code never handles a floating-point value, only its bits.

use vstd::prelude::*;
use arrow_array::Array;
use arrow_array::Float32Array;
use arrow_array::types::{ArrowPrimitiveType, Float32Type};

verus! {

/// A fixed-dimension vector of 32-bit floats, backed by an arrow
/// array. Opaque to verification: its contents are reached only
/// through the trusted wrappers of this module.
#[verifier::external_body]
#[derive(Debug)]
pub struct FloatVector {
    inner: Float32Array,
}

impl Clone for FloatVector {
    /// Relies on `arrow_array::PrimitiveArray::clone`: a clone shares
    /// the same buffer, so it holds the same elements.
    #[verifier::external_body]
    fn clone(&self) -> (r: Self)
        ensures
            elems_of(r) == elems_of(*self),
    {
        FloatVector { inner: self.inner.clone() }
    }
}

/// The element bit patterns a vector holds, in order.
pub uninterp spec fn elems_of(v: FloatVector) -> Seq<u32>;

/// Relies on `from_bits` of the 32-bit float type (applied to each
/// pattern in order) and `arrow_array::PrimitiveArray::from_iter_values`:
/// builds the vector whose elements are exactly the given bit patterns.
#[verifier::external_body]
pub fn vector_from_bits(bits: &Vec<u32>) -> (r: FloatVector)
    ensures
        elems_of(r) == bits@,
{
    FloatVector {
        inner: Float32Array::from_iter_values(
            bits.iter().map(|b| <<Float32Type as ArrowPrimitiveType>::Native>::from_bits(*b)),
        ),
    }
}

/// Relies on `arrow_array::PrimitiveArray::len`: the number of
/// elements the vector holds.
#[verifier::external_body]
pub fn vector_len(v: &FloatVector) -> (r: usize)
    ensures
        r == elems_of(*v).len(),
{
    v.inner.len()
}

/// Relies on `to_bits` of the 32-bit float type, applied to each
/// element in order: hands the verified code the element bit patterns
/// of the vector.
#[verifier::external_body]
pub fn vector_bits(v: &FloatVector) -> (r: Vec<u32>)
    ensures
        r@ == elems_of(*v),
{
    v.inner.values().iter().map(|x| x.to_bits()).collect()
}

/// Relies on `arrow_array::PrimitiveArray::slice`: a zero-copy view of
/// `length` elements starting at `offset`.
#[verifier::external_body]
pub fn vector_slice(v: &FloatVector, offset: usize, length: usize) -> (r: FloatVector)
    requires
        offset + length <= elems_of(*v).len(),
    ensures
        elems_of(r) == elems_of(*v).subrange(offset as int, offset as int + length as int),
{
    FloatVector { inner: v.inner.slice(offset, length) }
}

/// The L2-normalized form of a float vector, as the lance-linalg
/// kernel computes it (element bit patterns).
pub uninterp spec fn normalize_of(v: Seq<u32>) -> Seq<u32>;

/// Relies on `lance_linalg::kernels::normalize`: each element divided
/// by the vector's L2 norm, one output element per input element. The
/// result depends on the element values alone.
#[verifier::external_body]
pub fn vector_normalize(v: &FloatVector) -> (r: FloatVector)
    ensures
        elems_of(r) == normalize_of(elems_of(*v)),
        elems_of(r).len() == elems_of(*v).len(),
{
    let x: &[_] = v.inner.values();
    let (it, _norm) = lance_linalg::kernels::normalize(x);
    FloatVector { inner: Float32Array::from_iter_values(it) }
}

/// The elementwise difference of two equal-length float vectors, as
/// the arrow arithmetic kernel computes it (element bit patterns).
pub uninterp spec fn sub_of(a: Seq<u32>, b: Seq<u32>) -> Seq<u32>;

/// Relies on `arrow_arith::numeric::sub`: the elementwise difference
/// of two equal-length float arrays, of the same length and type as
/// its inputs. Unequal lengths are rejected by the kernel and
/// excluded here.
#[verifier::external_body]
pub fn vector_sub(a: &FloatVector, b: &FloatVector) -> (r: FloatVector)
    requires
        elems_of(*a).len() == elems_of(*b).len(),
    ensures
        elems_of(r) == sub_of(elems_of(*a), elems_of(*b)),
        elems_of(r).len() == elems_of(*a).len(),
{
    let diff = arrow_arith::numeric::sub(&a.inner, &b.inner).unwrap();
    FloatVector {
        inner: diff.as_any().downcast_ref::<Float32Array>().unwrap().clone(),
    }
}

/// The elementwise sum of two equal-length float vectors, as the
/// arrow arithmetic kernel computes it (element bit patterns).
pub uninterp spec fn add_of(a: Seq<u32>, b: Seq<u32>) -> Seq<u32>;

/// Relies on `arrow_arith::numeric::add`: the elementwise sum of two
/// equal-length float arrays, of the same length and type as its
/// inputs. Unequal lengths are rejected by the kernel and excluded
/// here.
#[verifier::external_body]
pub fn vector_add(a: &FloatVector, b: &FloatVector) -> (r: FloatVector)
    requires
        elems_of(*a).len() == elems_of(*b).len(),
    ensures
        elems_of(r) == add_of(elems_of(*a), elems_of(*b)),
        elems_of(r).len() == elems_of(*a).len(),
{
    let sum = arrow_arith::numeric::add(&a.inner, &b.inner).unwrap();
    FloatVector {
        inner: sum.as_any().downcast_ref::<Float32Array>().unwrap().clone(),
    }
}

/// The bit pattern of the squared Euclidean distance between two
/// equal-length float vectors, as `lance_linalg` computes it.
pub uninterp spec fn l2_bits(a: Seq<u32>, b: Seq<u32>) -> u32;

/// Relies on `lance_linalg::distance::l2_distance` (squared Euclidean
/// distance of two float slices): the result depends on the element
/// values alone. The kernel asserts equal lengths, so unequal lengths
/// are excluded here.
#[verifier::external_body]
pub fn l2_distance_bits(a: &FloatVector, b: &FloatVector) -> (r: u32)
    requires
        elems_of(*a).len() == elems_of(*b).len(),
    ensures
        r == l2_bits(elems_of(*a), elems_of(*b)),
{
    lance_linalg::distance::l2_distance(a.inner.values(), b.inner.values()).to_bits()
}

/// The bit pattern of the cosine distance (one minus cosine
/// similarity) between two equal-length float vectors, as
/// `lance_linalg` computes it.
pub uninterp spec fn cosine_bits(a: Seq<u32>, b: Seq<u32>) -> u32;

/// Relies on `lance_linalg::distance::cosine_distance` (one minus the
/// cosine of the angle between two float slices): the result depends on
/// the element values alone. The kernel asserts equal lengths, so
/// unequal lengths are excluded here.
#[verifier::external_body]
pub fn cosine_distance_bits(a: &FloatVector, b: &FloatVector) -> (r: u32)
    requires
        elems_of(*a).len() == elems_of(*b).len(),
    ensures
        r == cosine_bits(elems_of(*a), elems_of(*b)),
{
    let x: &[_] = a.inner.values();
    let y: &[_] = b.inner.values();
    lance_linalg::distance::cosine_distance(x, y).to_bits()
}

/// The bit pattern of the dot-product distance (one minus the dot
/// product) between two equal-length float vectors, as `lance_linalg`
/// computes it.
pub uninterp spec fn dot_bits(a: Seq<u32>, b: Seq<u32>) -> u32;

/// Relies on `lance_linalg::distance::dot_distance` (one minus the dot
/// product of two float slices): the result depends on the element
/// values alone. The kernel asserts equal lengths, so unequal lengths
/// are excluded here.
#[verifier::external_body]
pub fn dot_distance_bits(a: &FloatVector, b: &FloatVector) -> (r: u32)
    requires
        elems_of(*a).len() == elems_of(*b).len(),
    ensures
        r == dot_bits(elems_of(*a), elems_of(*b)),
{
    let x: &[_] = a.inner.values();
    let y: &[_] = b.inner.values();
    lance_linalg::distance::dot_distance(x, y).to_bits()
}

} // verus!
