//! Distance metric families and the wire form they are persisted as.
//!
//! `DistanceType` is the metric a query or an index is configured with.
//! `VectorMetricType` is the enumeration used by the persisted index
//! metadata; the two convert into each other losslessly.

use vstd::prelude::*;

verus! {

/// Distance metric family for vector comparison.
///
/// Every family is normalised so that a *smaller* distance key means a
/// better match: the dot-product kernel already returns a
/// lower-is-better value (one minus the product).
#[derive(Debug, Clone, Copy, PartialEq, Eq, Structural)]
pub enum DistanceType {
    /// Squared Euclidean distance.
    L2,
    /// Cosine distance (one minus cosine similarity).
    Cosine,
    /// Dot-product distance (one minus the dot product).
    Dot,
    /// Hamming distance over binary codes.
    Hamming,
}

/// Metric enumeration as stored in persisted index metadata.
#[derive(Debug, Clone, Copy, PartialEq, Eq, Structural)]
pub enum VectorMetricType {
    /// Squared Euclidean distance.
    L2,
    /// Cosine distance.
    Cosine,
    /// Dot-product distance.
    Dot,
    /// Hamming distance.
    Hamming,
}

impl From<VectorMetricType> for DistanceType {
    fn from(proto: VectorMetricType) -> (r: Self) {
        match proto {
            VectorMetricType::L2 => Self::L2,
            VectorMetricType::Cosine => Self::Cosine,
            VectorMetricType::Dot => Self::Dot,
            VectorMetricType::Hamming => Self::Hamming,
        }
    }
}

impl vstd::std_specs::convert::FromSpecImpl<VectorMetricType> for DistanceType {
    open spec fn obeys_from_spec() -> bool {
        true
    }

    open spec fn from_spec(proto: VectorMetricType) -> Self {
        match proto {
            VectorMetricType::L2 => Self::L2,
            VectorMetricType::Cosine => Self::Cosine,
            VectorMetricType::Dot => Self::Dot,
            VectorMetricType::Hamming => Self::Hamming,
        }
    }
}

impl From<DistanceType> for VectorMetricType {
    fn from(mt: DistanceType) -> (r: Self) {
        match mt {
            DistanceType::L2 => Self::L2,
            DistanceType::Cosine => Self::Cosine,
            DistanceType::Dot => Self::Dot,
            DistanceType::Hamming => Self::Hamming,
        }
    }
}

impl vstd::std_specs::convert::FromSpecImpl<DistanceType> for VectorMetricType {
    open spec fn obeys_from_spec() -> bool {
        true
    }

    open spec fn from_spec(mt: DistanceType) -> Self {
        match mt {
            DistanceType::L2 => Self::L2,
            DistanceType::Cosine => Self::Cosine,
            DistanceType::Dot => Self::Dot,
            DistanceType::Hamming => Self::Hamming,
        }
    }
}

/// Converting a metric to its wire form and back yields the original
/// metric, and the other way round: the two enumerations are in exact
/// correspondence.
pub proof fn lemma_metric_wire_round_trip(mt: DistanceType, proto: VectorMetricType)
    ensures
        <DistanceType as vstd::std_specs::convert::FromSpec<VectorMetricType>>::from_spec(
            <VectorMetricType as vstd::std_specs::convert::FromSpec<DistanceType>>::from_spec(mt),
        ) == mt,
        <VectorMetricType as vstd::std_specs::convert::FromSpec<DistanceType>>::from_spec(
            <DistanceType as vstd::std_specs::convert::FromSpec<VectorMetricType>>::from_spec(proto),
        ) == proto,
{
}

} // verus!
