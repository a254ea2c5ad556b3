//! Optional vector transforms applied before training and querying.
//!
//! A transform is chosen at build time and applied uniformly: the same
//! transform must run over every vector before it is trained on or
//! stored, and over every query vector before comparison, so that
//! distances are computed in the transformed space. Normalization
//! makes cosine-style comparison cheaper and compression more
//! effective; the identity leaves vectors untouched.

use vstd::prelude::*;
use crate::arrays::{FloatVector, elems_of, normalize_of, vector_normalize};

verus! {

/// The transform an index was configured with.
#[derive(Debug, Clone, Copy, PartialEq, Eq, Structural)]
pub enum Transform {
    /// Vectors pass through unchanged.
    Identity,
    /// Vectors are L2-normalized.
    Normalize,
}

/// What a transform yields for a vector's elements.
pub open spec fn transform_of(t: Transform, v: Seq<u32>) -> Seq<u32> {
    match t {
        Transform::Identity => v,
        Transform::Normalize => normalize_of(v),
    }
}

/// Applies a transform to a vector. The dimension is preserved, so a
/// transformed vector stays valid for the index it was built for.
pub fn apply_transform(t: Transform, v: &FloatVector) -> (r: FloatVector)
    ensures
        elems_of(r) == transform_of(t, elems_of(*v)),
        elems_of(r).len() == elems_of(*v).len(),
{
    match t {
        Transform::Identity => v.clone(),
        Transform::Normalize => vector_normalize(v),
    }
}

} // verus!
