//! Error taxonomy of the index core.
//!
//! Shape disagreements and invalid query parameters are surfaced to the
//! caller, never coerced. An empty index is not an error: queries
//! against it return an empty result.

use vstd::prelude::*;

verus! {

/// Why an index or query operation was rejected.
#[derive(Debug, Clone, Copy, PartialEq, Eq, Structural)]
pub enum Error {
    /// A vector's dimension disagrees with the trained structures.
    DimensionMismatch { expected: usize, actual: usize },
    /// A training sample is too small for the requested cluster count.
    InsufficientData { requested: usize, available: usize },
    /// `k` or `nprobes` is zero, `nprobes` exceeds the partition
    /// count, or the refine factor oversamples beyond the machine's
    /// limits.
    InvalidQueryParameter,
}

} // verus!
