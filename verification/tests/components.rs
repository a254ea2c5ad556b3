//! Component tests: ordering, merge, top-k, quantizers, metric
//! conversions and validation.

use lance_index::arrays::{vector_bits, vector_from_bits, FloatVector};
use lance_index::bq::BinaryQuantizer;
use lance_index::candidate::{sort_candidates, Candidate};
use lance_index::error::Error;
use lance_index::flat::FlatQuantizer;
use lance_index::ivf::{argmin_key, validate_training_sample, IvfModel};
use lance_index::keys::{dist_key, hamming_count, order_key};
use lance_index::merge::merge_candidates;
use lance_index::metric::{DistanceType, VectorMetricType};
use lance_index::pq::ProductQuantizer;
use lance_index::residual::ResidualQuantizer;
use lance_index::transform::{apply_transform, Transform};
use lance_index::topk::top_k;

fn vector(xs: &[f32]) -> FloatVector {
    let bits: Vec<u32> = xs.iter().map(|x| x.to_bits()).collect();
    vector_from_bits(&bits)
}

fn key_of(d: f32) -> u64 {
    order_key(d.to_bits()) as u64
}

fn cand(row_id: u64, dist: u64) -> Candidate {
    Candidate { row_id, dist }
}

#[test]
fn order_keys_sort_floats_totally() {
    let mut values = vec![3.5f32, -1.0, 0.0, -0.0, 2.0, -7.25, 0.125];
    let mut keyed: Vec<(u64, f32)> = values.iter().map(|v| (order_key(v.to_bits()) as u64, *v)).collect();
    keyed.sort_by_key(|p| p.0);
    values.sort_by(|a, b| a.total_cmp(b));
    let by_key: Vec<f32> = keyed.iter().map(|p| p.1).collect();
    assert_eq!(by_key, values);
}

#[test]
fn l2_key_matches_kernel_value() {
    let a = vector(&[0.0, 0.0, 0.0, 0.0]);
    let b = vector(&[1.0, 0.0, 0.0, 0.0]);
    // Squared Euclidean distance of these vectors is exactly 1.
    assert_eq!(dist_key(DistanceType::L2, &a, &b), key_of(1.0));
    assert_eq!(dist_key(DistanceType::L2, &a, &a), key_of(0.0));
}

#[test]
fn hamming_key_counts_differing_dimensions() {
    let a = vec![1u32, 2, 3, 4];
    let b = vec![1u32, 9, 3, 7];
    assert_eq!(hamming_count(&a, &b), 2);
    assert_eq!(hamming_count(&a, &a), 0);
}

#[test]
fn sort_orders_by_distance_then_row() {
    let v = vec![cand(5, 30), cand(2, 10), cand(9, 10), cand(1, 20)];
    let sorted = sort_candidates(&v);
    assert_eq!(sorted, vec![cand(2, 10), cand(9, 10), cand(1, 20), cand(5, 30)]);
}

#[test]
fn merge_dedups_shared_row_keeping_best() {
    let left = vec![cand(1, 10), cand(7, 50)];
    let right = vec![cand(7, 30), cand(2, 40)];
    let merged = merge_candidates(&vec![left, right]);
    assert_eq!(merged, vec![cand(1, 10), cand(7, 30), cand(2, 40)]);
}

#[test]
fn merge_is_insensitive_to_partitioning() {
    let a = vec![cand(1, 10), cand(2, 20), cand(3, 30)];
    let split = merge_candidates(&vec![vec![cand(3, 30)], vec![cand(1, 10), cand(2, 20)]]);
    let whole = merge_candidates(&vec![a]);
    assert_eq!(split, whole);
}

#[test]
fn top_k_truncates_sorted_pool() {
    let v = vec![cand(4, 40), cand(1, 10), cand(3, 30), cand(2, 20)];
    assert_eq!(top_k(&v, 2), vec![cand(1, 10), cand(2, 20)]);
    assert_eq!(top_k(&v, 10).len(), 4);
    assert_eq!(top_k(&v, 0).len(), 0);
}

#[test]
fn argmin_breaks_ties_to_lowest_index() {
    assert_eq!(argmin_key(&vec![5u64, 3, 3, 9]), Some(1));
    assert_eq!(argmin_key(&vec![7u64]), Some(0));
    assert_eq!(argmin_key(&Vec::new()), None);
}

#[test]
fn assignment_is_stable_across_calls() {
    let model = IvfModel::new(
        DistanceType::L2,
        2,
        vec![vector(&[0.0, 0.0]), vector(&[10.0, 10.0])],
    )
    .unwrap();
    let near_origin = vector(&[1.0, 1.0]);
    let near_far = vector(&[9.0, 9.0]);
    let first = model.assign(&near_origin).unwrap();
    let second = model.assign(&near_origin).unwrap();
    assert_eq!(first, 0);
    assert_eq!(first, second);
    assert_eq!(model.assign(&near_far).unwrap(), 1);
}

#[test]
fn flat_codes_reconstruct_exactly() {
    let q = FlatQuantizer { dimension: 3 };
    let v = vector(&[1.5, -2.25, 0.0]);
    let code = q.encode(&v).unwrap();
    let decoded = q.decode(&code);
    assert_eq!(decoded, code);
    let expected: Vec<u32> = [1.5f32, -2.25, 0.0].iter().map(|x| x.to_bits()).collect();
    assert_eq!(decoded, expected);
}

#[test]
fn flat_encode_rejects_wrong_dimension() {
    let q = FlatQuantizer { dimension: 3 };
    let err = q.encode(&vector(&[1.0, 2.0])).unwrap_err();
    assert_eq!(err, Error::DimensionMismatch { expected: 3, actual: 2 });
}

#[test]
fn bq_encodes_signs_against_thresholds() {
    let thresholds: Vec<u32> = [0.0f32, 0.0, 5.0].iter().map(|x| x.to_bits()).collect();
    let q = BinaryQuantizer { thresholds };
    let code = q.encode(&vector(&[1.0, -1.0, 5.0])).unwrap();
    assert_eq!(code, vec![true, false, true]);
    let other = q.encode(&vector(&[-3.0, 2.0, 4.0])).unwrap();
    assert_eq!(other, vec![false, true, false]);
    assert_eq!(q.distance(&code, &other).unwrap(), 3);
    assert_eq!(q.distance(&code, &code).unwrap(), 0);
}

#[test]
fn bq_rejects_wrong_dimension() {
    let q = BinaryQuantizer { thresholds: vec![0u32, 0] };
    let err = q.encode(&vector(&[1.0])).unwrap_err();
    assert_eq!(err, Error::DimensionMismatch { expected: 2, actual: 1 });
}

#[test]
fn pq_picks_nearest_centroid_per_subvector() {
    let pq = ProductQuantizer {
        metric_type: DistanceType::L2,
        num_sub_vectors: 2,
        sub_dimension: 2,
        codebooks: vec![
            vec![vector(&[0.0, 0.0]), vector(&[10.0, 10.0])],
            vec![vector(&[0.0, 5.0]), vector(&[5.0, 0.0])],
        ],
    };
    let code = pq.encode(&vector(&[9.0, 9.5, 4.5, 0.5])).unwrap();
    assert_eq!(code, vec![1, 1]);
    let decoded = pq.decode(&code);
    let expected: Vec<u32> = [10.0f32, 10.0, 5.0, 0.0].iter().map(|x| x.to_bits()).collect();
    assert_eq!(decoded, expected);
}

#[test]
fn pq_round_trip_is_exact_on_codebook_vectors() {
    let pq = ProductQuantizer {
        metric_type: DistanceType::L2,
        num_sub_vectors: 2,
        sub_dimension: 1,
        codebooks: vec![
            vec![vector(&[1.0]), vector(&[2.0])],
            vec![vector(&[3.0]), vector(&[4.0])],
        ],
    };
    let code = pq.encode(&vector(&[2.0, 3.0])).unwrap();
    assert_eq!(code, vec![1, 0]);
    let decoded = pq.decode(&code);
    let expected: Vec<u32> = [2.0f32, 3.0].iter().map(|x| x.to_bits()).collect();
    assert_eq!(decoded, expected);
}

#[test]
fn pq_rejects_wrong_dimension() {
    let pq = ProductQuantizer {
        metric_type: DistanceType::L2,
        num_sub_vectors: 2,
        sub_dimension: 2,
        codebooks: vec![vec![vector(&[0.0, 0.0])], vec![vector(&[0.0, 0.0])]],
    };
    let err = pq.encode(&vector(&[1.0, 2.0, 3.0])).unwrap_err();
    assert_eq!(err, Error::DimensionMismatch { expected: 4, actual: 3 });
}

#[test]
fn metric_wire_conversions_round_trip() {
    let metrics = [
        DistanceType::L2,
        DistanceType::Cosine,
        DistanceType::Dot,
        DistanceType::Hamming,
    ];
    for m in metrics {
        let wire = VectorMetricType::from(m);
        assert_eq!(DistanceType::from(wire), m);
    }
    let wires = [
        VectorMetricType::L2,
        VectorMetricType::Cosine,
        VectorMetricType::Dot,
        VectorMetricType::Hamming,
    ];
    for w in wires {
        let metric = DistanceType::from(w);
        assert_eq!(VectorMetricType::from(metric), w);
    }
}

#[test]
fn training_sample_floor_is_enforced() {
    assert!(validate_training_sample(10, 2).is_ok());
    assert!(validate_training_sample(4, 2).is_ok());
    assert_eq!(
        validate_training_sample(3, 2).unwrap_err(),
        Error::InsufficientData { requested: 2, available: 3 }
    );
    assert_eq!(
        validate_training_sample(5, 0).unwrap_err(),
        Error::InsufficientData { requested: 0, available: 5 }
    );
}

#[test]
fn model_rejects_centroid_of_wrong_dimension() {
    let err = IvfModel::new(
        DistanceType::L2,
        3,
        vec![vector(&[0.0, 0.0, 0.0]), vector(&[1.0, 1.0])],
    )
    .unwrap_err();
    assert_eq!(err, Error::DimensionMismatch { expected: 3, actual: 2 });
}

#[test]
fn residual_round_trip_on_exact_values() {
    let rq = ResidualQuantizer {
        centroids: vec![vector(&[1.0, 1.0]), vector(&[10.0, 10.0])],
        pq: ProductQuantizer {
            metric_type: DistanceType::L2,
            num_sub_vectors: 2,
            sub_dimension: 1,
            codebooks: vec![
                vec![vector(&[0.0]), vector(&[5.0])],
                vec![vector(&[0.0]), vector(&[5.0])],
            ],
        },
    };
    // Residual of [6, 1] against centroid [1, 1] is [5, 0]: codes 1, 0.
    let code = rq.encode(&vector(&[6.0, 1.0]), 0).unwrap();
    assert_eq!(code, vec![1, 0]);
    // Decoding adds the centroid back; these values are float-exact.
    let decoded = rq.decode(&code, 0);
    let expected: Vec<u32> = [6.0f32, 1.0].iter().map(|x| x.to_bits()).collect();
    assert_eq!(vector_bits(&decoded), expected);
}

#[test]
fn residual_rejects_wrong_dimension() {
    let rq = ResidualQuantizer {
        centroids: vec![vector(&[0.0, 0.0])],
        pq: ProductQuantizer {
            metric_type: DistanceType::L2,
            num_sub_vectors: 1,
            sub_dimension: 2,
            codebooks: vec![vec![vector(&[0.0, 0.0])]],
        },
    };
    let err = rq.encode(&vector(&[1.0]), 0).unwrap_err();
    assert_eq!(err, Error::DimensionMismatch { expected: 2, actual: 1 });
}

#[test]
fn transform_normalizes_or_passes_through() {
    let v = vector(&[2.0, 0.0]);
    let same = apply_transform(Transform::Identity, &v);
    assert_eq!(vector_bits(&same), vector_bits(&v));
    // The norm of (2, 0) is exactly 2; normalization yields (1, 0).
    let unit = apply_transform(Transform::Normalize, &v);
    let expected: Vec<u32> = [1.0f32, 0.0].iter().map(|x| x.to_bits()).collect();
    assert_eq!(vector_bits(&unit), expected);
}
