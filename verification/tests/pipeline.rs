//! End-to-end query pipeline tests against the real distance kernels.

use lance_index::arrays::{vector_from_bits, FloatVector};
use lance_index::candidate::Candidate;
use lance_index::error::Error;
use lance_index::executor::{IvfIndex, Query};
use lance_index::ivf::IvfModel;
use lance_index::keys::order_key;
use lance_index::metric::DistanceType;

fn vector(xs: &[f32]) -> FloatVector {
    let bits: Vec<u32> = xs.iter().map(|x| x.to_bits()).collect();
    vector_from_bits(&bits)
}

fn key_of(d: f32) -> u64 {
    order_key(d.to_bits()) as u64
}

fn sample_index(centroids: Vec<FloatVector>, dim: usize, rows: &[(u64, &[f32])]) -> IvfIndex {
    let model = IvfModel::new(DistanceType::L2, dim, centroids).unwrap();
    let mut index = IvfIndex::new(model);
    for (row_id, xs) in rows {
        index.add_vector(*row_id, vector(xs)).unwrap();
    }
    index
}

fn query(key: &[f32], k: usize, nprobes: usize, use_index: bool) -> Query {
    Query {
        column: String::from("vector"),
        key: vector(key),
        k,
        nprobes,
        refine_factor: None,
        metric_type: DistanceType::L2,
        use_index,
    }
}

#[test]
fn brute_force_two_nearest_of_four() {
    // Four 4-dimensional vectors; the two nearest to the origin are
    // row 0 (distance 0) and, by the row-id tie-break, row 1
    // (distance 1, tied with row 2).
    let rows: Vec<(u64, &[f32])> = vec![
        (0, &[0.0, 0.0, 0.0, 0.0][..]),
        (1, &[1.0, 0.0, 0.0, 0.0][..]),
        (2, &[0.0, 1.0, 0.0, 0.0][..]),
        (3, &[5.0, 5.0, 5.0, 5.0][..]),
    ];
    let index = sample_index(vec![vector(&[0.0, 0.0, 0.0, 0.0])], 4, &rows);
    let q = query(&[0.0, 0.0, 0.0, 0.0], 2, 1, false);
    let res = index.execute_query(&q).unwrap();
    assert_eq!(res.len(), 2);
    assert_eq!(res[0], Candidate { row_id: 0, dist: key_of(0.0) });
    assert_eq!(res[1], Candidate { row_id: 1, dist: key_of(1.0) });
}

#[test]
fn indexed_probe_all_matches_brute_force() {
    let rows: Vec<(u64, &[f32])> = vec![
        (10, &[0.2, 0.1][..]),
        (11, &[9.5, 9.9][..]),
        (12, &[0.4, 0.3][..]),
        (13, &[10.1, 10.4][..]),
        (14, &[5.0, 5.0][..]),
    ];
    let centroids = vec![vector(&[0.0, 0.0]), vector(&[10.0, 10.0])];
    let index = sample_index(centroids, 2, &rows);
    let mut q = query(&[0.0, 0.0], 3, 2, true);
    let indexed = index.execute_query(&q).unwrap();
    q.use_index = false;
    let brute = index.execute_query(&q).unwrap();
    assert_eq!(indexed, brute);
    assert_eq!(brute[0].row_id, 10);
    assert_eq!(brute[1].row_id, 12);
    assert_eq!(brute[2].row_id, 14);
}

#[test]
fn single_probe_searches_nearest_partition() {
    let rows: Vec<(u64, &[f32])> = vec![
        (1, &[0.5, 0.5][..]),
        (2, &[10.5, 10.5][..]),
        (3, &[9.5, 9.5][..]),
    ];
    let centroids = vec![vector(&[0.0, 0.0]), vector(&[10.0, 10.0])];
    let index = sample_index(centroids, 2, &rows);
    let q = query(&[10.0, 10.0], 2, 1, true);
    let res = index.execute_query(&q).unwrap();
    // Only the far partition is probed: rows 2 and 3, which tie at
    // squared distance 0.5, so the lower row id comes first.
    let ids: Vec<u64> = res.iter().map(|c| c.row_id).collect();
    assert_eq!(ids, vec![2, 3]);
}

#[test]
fn empty_index_returns_empty_result() {
    let model = IvfModel::new(DistanceType::L2, 2, Vec::new()).unwrap();
    let index = IvfIndex::new(model);
    let q = query(&[0.0, 0.0], 5, 1, false);
    let res = index.execute_query(&q).unwrap();
    assert!(res.is_empty());
}

#[test]
fn zero_k_is_invalid() {
    let index = sample_index(vec![vector(&[0.0, 0.0])], 2, &[(0, &[1.0, 1.0][..])]);
    let q = query(&[0.0, 0.0], 0, 1, false);
    assert_eq!(index.execute_query(&q).unwrap_err(), Error::InvalidQueryParameter);
}

#[test]
fn excessive_nprobes_is_invalid() {
    let index = sample_index(vec![vector(&[0.0, 0.0])], 2, &[(0, &[1.0, 1.0][..])]);
    let q = query(&[0.0, 0.0], 1, 2, true);
    assert_eq!(index.execute_query(&q).unwrap_err(), Error::InvalidQueryParameter);
}

#[test]
fn wrong_query_dimension_is_reported() {
    let index = sample_index(vec![vector(&[0.0, 0.0])], 2, &[(0, &[1.0, 1.0][..])]);
    let q = query(&[0.0, 0.0, 0.0], 1, 1, false);
    assert_eq!(
        index.execute_query(&q).unwrap_err(),
        Error::DimensionMismatch { expected: 2, actual: 3 }
    );
}

#[test]
fn wrong_insert_dimension_is_reported() {
    let model = IvfModel::new(DistanceType::L2, 2, vec![vector(&[0.0, 0.0])]).unwrap();
    let mut index = IvfIndex::new(model);
    let err = index.add_vector(7, vector(&[1.0, 2.0, 3.0])).unwrap_err();
    assert_eq!(err, Error::DimensionMismatch { expected: 2, actual: 3 });
}

#[test]
fn oversampled_pool_extends_plain_result() {
    let rows: Vec<(u64, &[f32])> = vec![
        (0, &[0.0, 0.0][..]),
        (1, &[1.0, 0.0][..]),
        (2, &[2.0, 0.0][..]),
        (3, &[3.0, 0.0][..]),
    ];
    let index = sample_index(vec![vector(&[0.0, 0.0])], 2, &rows);
    let mut q = query(&[0.0, 0.0], 2, 1, false);
    q.refine_factor = Some(2);
    let pool = index.oversampled_candidates(&q).unwrap();
    let plain = index.execute_query(&q).unwrap();
    assert_eq!(pool.len(), 4);
    assert_eq!(plain.len(), 2);
    assert_eq!(&pool[..2], &plain[..]);
}

#[test]
fn cosine_and_dot_metrics_rank_by_kernel_distance() {
    let rows: Vec<(u64, &[f32])> = vec![
        (0, &[1.0, 0.0][..]),
        (1, &[0.0, 1.0][..]),
        (2, &[0.7071, 0.7071][..]),
    ];
    let index = {
        let model = IvfModel::new(DistanceType::Cosine, 2, vec![vector(&[0.0, 0.0])]).unwrap();
        let mut index = IvfIndex::new(model);
        for (row_id, xs) in &rows {
            index.add_vector(*row_id, vector(xs)).unwrap();
        }
        index
    };
    let mut q = query(&[1.0, 0.0], 3, 1, false);
    q.metric_type = DistanceType::Cosine;
    let res = index.execute_query(&q).unwrap();
    // Cosine distance: identical direction first, orthogonal last.
    let ids: Vec<u64> = res.iter().map(|c| c.row_id).collect();
    assert_eq!(ids, vec![0, 2, 1]);

    q.metric_type = DistanceType::Dot;
    let res = index.execute_query(&q).unwrap();
    // Dot distance is one minus the dot product: largest dot first.
    assert_eq!(res[0].row_id, 0);
    assert_eq!(res[0].dist, key_of(1.0 - 1.0));
    assert_eq!(res[2].row_id, 1);
    assert_eq!(res[2].dist, key_of(1.0 - 0.0));
}

#[test]
fn duplicate_rows_across_partitions_keep_best_distance() {
    // The same row id sits in both partitions with different vectors;
    // the merge keeps one occurrence, with the better distance.
    let centroids = vec![vector(&[0.0, 0.0]), vector(&[10.0, 10.0])];
    let model = IvfModel::new(DistanceType::L2, 2, centroids).unwrap();
    let mut index = IvfIndex::new(model);
    index.add_vector(42, vector(&[1.0, 0.0])).unwrap();
    index.add_vector(42, vector(&[10.0, 10.0])).unwrap();
    let q = query(&[0.0, 0.0], 5, 1, false);
    let res = index.execute_query(&q).unwrap();
    assert_eq!(res.len(), 1);
    assert_eq!(res[0], Candidate { row_id: 42, dist: key_of(1.0) });
}
