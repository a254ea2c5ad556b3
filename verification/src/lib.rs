//! Approximate-nearest-neighbor vector index core.
//!
//! Builds and queries inverted-file (IVF) indices over fixed-dimension
//! embedding vectors: coarse partitioning by nearest centroid, lossy
//! vector compression (flat, product and binary quantization), and a
//! query pipeline that scans selected partitions, merges and deduplicates
//! candidates, and extracts the top-k results.
//!
//! Distances are produced by the metric kernels of `lance_linalg`,
//! vector arithmetic by the arrow kernels, and both are carried
//! through this crate as plain bit patterns and total-order keys (see
//! `keys`), so that every ranking, merging and selection step is
//! verified.

pub mod arrays;
pub mod bq;
pub mod candidate;
pub mod error;
pub mod executor;
pub mod flat;
pub mod graph;
pub mod ivf;
pub mod keys;
pub mod merge;
pub mod metric;
pub mod pq;
pub mod residual;
pub mod topk;
pub mod transform;

pub use candidate::Candidate;
pub use error::Error;
pub use executor::Query;
pub use metric::DistanceType;
pub use metric::VectorMetricType;
