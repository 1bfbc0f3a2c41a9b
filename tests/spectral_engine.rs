use curvature::basis::{coefficient_count, WaveletBasis};
use curvature::spectral::{
    common_length, first_max_index, fuse_decompositions, sample_or, select_dominant,
    BasisTransform, FusionContext, FusionError, WaveletDecomposition, WaveletEngine,
    WaveletFusionStrategy,
};

/// Every basis yields the signal scaled by a factor of its own.
struct ScaleTransform;

impl BasisTransform<f64> for ScaleTransform {
    fn transform(&self, basis: &WaveletBasis, signal: &[f64]) -> Vec<f64> {
        let factor = match basis {
            WaveletBasis::Haar => 1.0,
            WaveletBasis::Daubechies(o) => *o as f64,
            WaveletBasis::Biorthogonal(a, s) => (*a as f64) + (*s as f64),
            WaveletBasis::Custom(_) => -1.0,
        };
        signal.iter().map(|x| x * factor).collect()
    }
}

/// Keeps as many leading samples as each basis fixes for the signal's length.
struct Truncate;

impl BasisTransform<f64> for Truncate {
    fn transform(&self, basis: &WaveletBasis, signal: &[f64]) -> Vec<f64> {
        signal[..coefficient_count(basis, signal.len())].to_vec()
    }
}

/// Drops the last sample for the custom basis only.
struct ShortCustom;

impl BasisTransform<f64> for ShortCustom {
    fn transform(&self, basis: &WaveletBasis, signal: &[f64]) -> Vec<f64> {
        match basis {
            WaveletBasis::Custom(_) => signal[..signal.len() - 1].to_vec(),
            _ => signal.to_vec(),
        }
    }
}

/// Plain mean per index; scores a basis by its scale factor.
struct MeanFusion;

impl WaveletFusionStrategy<f64, FusionContext<f64>> for MeanFusion {
    fn fuse(ds: &[WaveletDecomposition<f64>], _context: &FusionContext<f64>) -> WaveletDecomposition<f64> {
        let n = ds[0].coefficients.len();
        let mut sum = vec![0.0; n];
        for d in ds {
            for i in 0..n {
                sum[i] += d.coefficients[i];
            }
        }
        WaveletDecomposition {
            basis: WaveletBasis::Custom("MeanFused".to_string()),
            coefficients: sum.iter().map(|s| s / ds.len() as f64).collect(),
            level: ds[0].level,
        }
    }

    fn score_basis(basis: &WaveletBasis, signal: &[f64], context: &FusionContext<f64>) -> f64 {
        let coefficients = ScaleTransform.transform(basis, signal);
        coefficients
            .iter()
            .enumerate()
            .map(|(i, c)| context.resonance_weight(i, 1.0) * c.abs())
            .sum()
    }
}

/// Returns one coefficient fewer than it was given.
struct Truncating;

impl WaveletFusionStrategy<f64, FusionContext<f64>> for Truncating {
    fn fuse(ds: &[WaveletDecomposition<f64>], _context: &FusionContext<f64>) -> WaveletDecomposition<f64> {
        let mut c = ds[0].coefficients.clone();
        c.pop();
        WaveletDecomposition { basis: WaveletBasis::Haar, coefficients: c, level: 0 }
    }

    fn score_basis(_basis: &WaveletBasis, _signal: &[f64], _context: &FusionContext<f64>) -> f64 {
        0.0
    }
}

fn decomposition(coefficients: Vec<f64>) -> WaveletDecomposition<f64> {
    WaveletDecomposition { basis: WaveletBasis::Haar, coefficients, level: 1 }
}

#[test]
fn decompose_all_keeps_basis_order_and_level() {
    let bases = vec![
        WaveletBasis::Custom("identity".to_string()),
        WaveletBasis::Haar,
        WaveletBasis::Custom("reverse".to_string()),
    ];
    let engine = WaveletEngine::new(bases.clone(), MeanFusion, ScaleTransform);
    let ds = engine.decompose_all(&[1.0, 2.0], 3).unwrap();
    assert_eq!(ds.len(), 3);
    for (d, b) in ds.iter().zip(bases.iter()) {
        assert_eq!(&d.basis, b);
        assert_eq!(d.level, 3);
    }
    assert_eq!(ds[1].coefficients, vec![1.0, 2.0]);
    assert_eq!(ds[2].coefficients, vec![-1.0, -2.0]);
}

#[test]
fn decompose_all_follows_the_coefficient_counts() {
    let bases = vec![
        WaveletBasis::Haar,
        WaveletBasis::Daubechies(4),
        WaveletBasis::Biorthogonal(3, 5),
        WaveletBasis::Daubechies(9),
    ];
    let engine = WaveletEngine::new(bases, MeanFusion, Truncate);
    let ds = engine.decompose_all(&[1.0, 2.0, 3.0, 4.0, 5.0, 6.0], 0).unwrap();
    let counts: Vec<usize> = ds.iter().map(|d| d.coefficients.len()).collect();
    assert_eq!(counts, vec![6, 2, 3, 0]);
    let wrong = WaveletEngine::new(vec![WaveletBasis::Daubechies(2)], MeanFusion, ScaleTransform);
    assert!(matches!(
        wrong.decompose_all(&[1.0, 2.0, 3.0], 0),
        Err(FusionError::CoefficientCountMismatch)
    ));
}

#[test]
fn fusing_identical_decompositions_keeps_them() {
    let ds = vec![decomposition(vec![0.5, 0.5]), decomposition(vec![0.5, 0.5])];
    let fused = fuse_decompositions::<f64, FusionContext<f64>, MeanFusion>(&ds, &FusionContext::default())
        .unwrap();
    assert_eq!(fused.coefficients, vec![0.5, 0.5]);
}

#[test]
fn fusion_keeps_the_common_length() {
    for k in 1..4 {
        let ds: Vec<WaveletDecomposition<f64>> =
            (0..k).map(|j| decomposition(vec![j as f64; 5])).collect();
        let fused =
            fuse_decompositions::<f64, FusionContext<f64>, MeanFusion>(&ds, &FusionContext::default())
                .unwrap();
        assert_eq!(fused.coefficients.len(), 5);
    }
}

#[test]
fn fusion_errors() {
    let none: Vec<WaveletDecomposition<f64>> = Vec::new();
    assert_eq!(common_length(&none), Err(FusionError::NoDecompositions));
    let ragged = vec![decomposition(vec![1.0, 2.0]), decomposition(vec![1.0])];
    assert_eq!(common_length(&ragged), Err(FusionError::ShapeMismatch));
    assert!(matches!(
        fuse_decompositions::<f64, FusionContext<f64>, MeanFusion>(&ragged, &FusionContext::default()),
        Err(FusionError::ShapeMismatch)
    ));
    let even = vec![decomposition(vec![1.0, 2.0])];
    assert_eq!(common_length(&even), Ok(2));
    assert!(matches!(
        fuse_decompositions::<f64, FusionContext<f64>, Truncating>(&even, &FusionContext::default()),
        Err(FusionError::FusedShapeMismatch)
    ));
}

#[test]
fn engine_fuse_needs_bases_and_equal_shapes() {
    let empty = WaveletEngine::new(Vec::new(), MeanFusion, ScaleTransform);
    assert!(matches!(
        empty.fuse(&[1.0, 2.0], &FusionContext::default(), 1),
        Err(FusionError::NoDecompositions)
    ));
    let engine = WaveletEngine::new(
        vec![WaveletBasis::Haar, WaveletBasis::Custom("x".to_string())],
        MeanFusion,
        ScaleTransform,
    );
    let fused = engine.fuse(&[1.0, 2.0], &FusionContext::default(), 2).unwrap();
    assert_eq!(fused.coefficients, vec![0.0, 0.0]);
    assert_eq!(fused.level, 2);
    let mixed = WaveletEngine::new(
        vec![WaveletBasis::Haar, WaveletBasis::Daubechies(2)],
        MeanFusion,
        Truncate,
    );
    assert!(matches!(
        mixed.fuse(&[1.0, 2.0, 3.0], &FusionContext::default(), 1),
        Err(FusionError::ShapeMismatch)
    ));
    let short = WaveletEngine::new(
        vec![WaveletBasis::Haar, WaveletBasis::Custom("x".to_string())],
        MeanFusion,
        ShortCustom,
    );
    assert!(matches!(
        short.fuse(&[1.0, 2.0], &FusionContext::default(), 1),
        Err(FusionError::CoefficientCountMismatch)
    ));
    let truncating = WaveletEngine::new(vec![WaveletBasis::Haar], Truncating, ScaleTransform);
    assert!(matches!(
        truncating.fuse(&[1.0, 2.0], &FusionContext::default(), 1),
        Err(FusionError::FusedShapeMismatch)
    ));
}

#[test]
fn first_max_index_prefers_the_first_tie() {
    assert_eq!(first_max_index::<f64>(&[]), None);
    assert_eq!(first_max_index(&[1.0, 3.0, 2.0, 3.0]), Some(1));
    assert_eq!(first_max_index(&[5, 5, 5]), Some(0));
    assert_eq!(first_max_index(&[-1.0, -0.5]), Some(1));
}

#[test]
fn score_bases_and_dominant_basis() {
    let engine = WaveletEngine::new(
        vec![
            WaveletBasis::Haar,
            WaveletBasis::Daubechies(4),
            WaveletBasis::Biorthogonal(1, 3),
            WaveletBasis::Custom("pulse".to_string()),
        ],
        MeanFusion,
        ScaleTransform,
    );
    let scored = engine.score_bases(&[1.0, -2.0], &FusionContext::default());
    let scores: Vec<f64> = scored.iter().map(|p| p.1).collect();
    assert_eq!(scores, vec![3.0, 12.0, 12.0, 3.0]);
    assert_eq!(select_dominant(&scored), Some(WaveletBasis::Daubechies(4)));
    assert_eq!(select_dominant::<f64>(&[]), None);
}

#[test]
fn resonance_weights_default_to_unit() {
    let mut context = FusionContext::with_entropy(0.25);
    assert_eq!(context.resonance_weight(0, 1.0), 1.0);
    context.resonance_profile = Some(vec![0.5, 2.0]);
    assert_eq!(context.resonance_weight(1, 1.0), 2.0);
    assert_eq!(context.resonance_weight(2, 1.0), 1.0);
    assert_eq!(context.domain_entropy, 0.25);
    assert_eq!(sample_or(&[4.0, 5.0], 1, 0.0), 5.0);
    assert_eq!(sample_or(&[4.0, 5.0], 7, 0.0), 0.0);
    let d: FusionContext<f64> = FusionContext::default();
    assert_eq!(d.domain_entropy, 0.0);
    assert!(d.resonance_profile.is_none() && d.semantic_tags.is_empty() && d.domain_label.is_none());
}
