use curvature::haar::{interleave, sample_pairs, zip_coefficients, TransformError};

#[test]
fn odd_signal_is_rejected() {
    assert_eq!(sample_pairs(&[1.0, 2.0, 3.0]), Err(TransformError::InvalidLength));
}

#[test]
fn pairs_of_scenario_signal() {
    let pairs = sample_pairs(&[1.0, 1.5, 0.8, 2.0]).unwrap();
    assert_eq!(pairs, vec![(1.0, 1.5), (0.8, 2.0)]);
    let approximation: Vec<f64> = pairs.iter().map(|p| (p.0 + p.1) / 2.0).collect();
    let detail: Vec<f64> = pairs.iter().map(|p| (p.0 - p.1) / 2.0).collect();
    assert_eq!(approximation, vec![1.25, 1.4]);
    assert_eq!(detail, vec![-0.25, -0.6]);
    let zipped = zip_coefficients(&approximation, &detail).unwrap();
    let restored: Vec<(f64, f64)> = zipped.iter().map(|p| (p.0 + p.1, p.0 - p.1)).collect();
    let signal = interleave(&restored);
    let expected = [1.0, 1.5, 0.8, 2.0];
    assert_eq!(signal.len(), expected.len());
    for (x, y) in signal.iter().zip(expected.iter()) {
        assert!((x - y).abs() < 1e-12);
    }
}

#[test]
fn pairs_round_trip_through_interleave() {
    let signal = vec![3, 1, 4, 1, 5, 9, 2, 6];
    let pairs = sample_pairs(&signal).unwrap();
    assert_eq!(interleave(&pairs), signal);
    let empty: Vec<i32> = Vec::new();
    assert_eq!(sample_pairs(&empty), Ok(Vec::new()));
}

#[test]
fn mismatched_halves_are_rejected() {
    assert_eq!(
        zip_coefficients(&[1.0, 2.0], &[0.5]),
        Err(TransformError::ReconstructionFailed)
    );
    assert_eq!(zip_coefficients(&[1.0], &[0.5]), Ok(vec![(1.0, 0.5)]));
}
