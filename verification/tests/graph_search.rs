//! Graph index tests: construction, degree bounds, and search recall
//! on a fixed dataset.

use lance_index::arrays::{vector_from_bits, FloatVector};
use lance_index::error::Error;
use lance_index::graph::GraphIndex;
use lance_index::keys::order_key;
use lance_index::metric::DistanceType;

fn vector(xs: &[f32]) -> FloatVector {
    let bits: Vec<u32> = xs.iter().map(|x| x.to_bits()).collect();
    vector_from_bits(&bits)
}

fn key_of(d: f32) -> u64 {
    order_key(d.to_bits()) as u64
}

fn sample_graph(points: &[&[f32]]) -> GraphIndex {
    let mut g = GraphIndex::new(DistanceType::L2, 2, 3);
    for p in points {
        g.insert(vector(p)).unwrap();
    }
    g
}

#[test]
fn empty_graph_search_returns_empty() {
    let g = GraphIndex::new(DistanceType::L2, 2, 2);
    let res = g.search(&vector(&[0.0, 0.0]), 3, 5).unwrap();
    assert!(res.is_empty());
}

#[test]
fn graph_insert_rejects_wrong_dimension() {
    let mut g = GraphIndex::new(DistanceType::L2, 2, 2);
    let err = g.insert(vector(&[1.0, 2.0, 3.0])).unwrap_err();
    assert_eq!(err, Error::DimensionMismatch { expected: 2, actual: 3 });
}

#[test]
fn graph_search_rejects_wrong_dimension() {
    let mut g = GraphIndex::new(DistanceType::L2, 2, 2);
    g.insert(vector(&[0.0, 0.0])).unwrap();
    let err = g.search(&vector(&[1.0]), 1, 1).unwrap_err();
    assert_eq!(err, Error::DimensionMismatch { expected: 2, actual: 1 });
}

#[test]
fn graph_recall_on_fixed_dataset() {
    // Eight fixed points; with an exploration budget covering the
    // whole graph, search must return the true nearest neighbors.
    let points: Vec<&[f32]> = vec![
        &[0.0, 0.0][..],
        &[1.0, 0.0][..],
        &[0.0, 1.0][..],
        &[2.0, 2.0][..],
        &[5.0, 5.0][..],
        &[6.0, 5.0][..],
        &[5.0, 6.0][..],
        &[10.0, 10.0][..],
    ];
    let g = sample_graph(&points);
    let res = g.search(&vector(&[0.1, 0.0]), 3, 16).unwrap();
    let ids: Vec<u64> = res.iter().map(|c| c.row_id).collect();
    // Brute-force nearest three to (0.1, 0): nodes 0, 1, 2.
    assert_eq!(ids, vec![0, 1, 2]);
    assert_eq!(res[0].dist, key_of(0.1f32 * 0.1));
}

#[test]
fn graph_search_returns_true_distance_keys() {
    let points: Vec<&[f32]> = vec![&[0.0, 0.0][..], &[3.0, 4.0][..]];
    let g = sample_graph(&points);
    let res = g.search(&vector(&[0.0, 0.0]), 2, 4).unwrap();
    assert_eq!(res.len(), 2);
    assert_eq!(res[0].row_id, 0);
    assert_eq!(res[0].dist, key_of(0.0));
    assert_eq!(res[1].row_id, 1);
    // Squared Euclidean distance of (3,4) from the origin is 25.
    assert_eq!(res[1].dist, key_of(25.0));
}

#[test]
fn graph_degree_stays_bounded() {
    // More inserts than the degree bound: every adjacency list must
    // stay within it, and search must still reach a best match.
    let mut g = GraphIndex::new(DistanceType::L2, 1, 2);
    for i in 0..6 {
        g.insert(vector(&[i as f32])).unwrap();
    }
    let res = g.search(&vector(&[2.2]), 1, 12).unwrap();
    assert_eq!(res.len(), 1);
    assert_eq!(res[0].row_id, 2);
}
