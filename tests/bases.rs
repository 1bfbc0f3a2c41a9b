use curvature::basis::{
    biorthogonal_spans, coefficient_count, daubechies_spans, reversed, window_size,
    CustomTransform, Span, WaveletBasis,
};

#[test]
fn window_size_has_a_floor_of_two() {
    assert_eq!(window_size(0), 2);
    assert_eq!(window_size(1), 2);
    assert_eq!(window_size(2), 2);
    assert_eq!(window_size(4), 4);
    assert_eq!(window_size(255), 255);
}

#[test]
fn coefficient_counts_per_basis() {
    assert_eq!(coefficient_count(&WaveletBasis::Haar, 8), 8);
    assert_eq!(coefficient_count(&WaveletBasis::Daubechies(4), 8), 4);
    assert_eq!(coefficient_count(&WaveletBasis::Daubechies(4), 3), 0);
    assert_eq!(coefficient_count(&WaveletBasis::Daubechies(0), 5), 3);
    assert_eq!(coefficient_count(&WaveletBasis::Biorthogonal(3, 5), 8), 5);
    assert_eq!(coefficient_count(&WaveletBasis::Custom("reverse".to_string()), 6), 6);
    assert_eq!(coefficient_count(&WaveletBasis::Haar, 0), 0);
}

#[test]
fn daubechies_windows_slide_by_one() {
    let spans = daubechies_spans(6, 4);
    assert_eq!(
        spans,
        vec![Span { start: 0, end: 4 }, Span { start: 1, end: 5 }]
    );
    assert!(daubechies_spans(4, 4).is_empty());
    assert!(daubechies_spans(0, 2).is_empty());
}

#[test]
fn biorthogonal_windows_clamp_at_both_ends() {
    let spans = biorthogonal_spans(6, 2, 4);
    assert_eq!(spans.len(), 4);
    assert_eq!(spans[0], (Span { start: 0, end: 2 }, Span { start: 0, end: 4 }));
    assert_eq!(spans[1], (Span { start: 1, end: 3 }, Span { start: 0, end: 4 }));
    assert_eq!(spans[2], (Span { start: 2, end: 4 }, Span { start: 0, end: 4 }));
    assert_eq!(spans[3], (Span { start: 3, end: 5 }, Span { start: 1, end: 5 }));
    let tail = biorthogonal_spans(5, 2, 8);
    assert_eq!(tail[2], (Span { start: 2, end: 4 }, Span { start: 0, end: 5 }));
}

#[test]
fn custom_names_select_transforms() {
    assert_eq!(CustomTransform::from_name("identity"), CustomTransform::Identity);
    assert_eq!(CustomTransform::from_name("reverse"), CustomTransform::Reverse);
    assert_eq!(CustomTransform::from_name("pulse"), CustomTransform::Pulse);
    assert_eq!(CustomTransform::from_name("wobble"), CustomTransform::Identity);
    assert_eq!(CustomTransform::from_name(""), CustomTransform::Identity);
    assert_eq!(CustomTransform::from_name("reverse "), CustomTransform::Identity);
}

#[test]
fn reversed_turns_the_signal_around() {
    assert_eq!(reversed(&[1.0, 2.5, -3.0]), vec![-3.0, 2.5, 1.0]);
    let empty: [f64; 0] = [];
    assert!(reversed(&empty).is_empty());
}

#[test]
fn bases_compare_by_value() {
    assert_eq!(WaveletBasis::Daubechies(4), WaveletBasis::Daubechies(4));
    assert_ne!(WaveletBasis::Daubechies(4), WaveletBasis::Daubechies(8));
    assert_ne!(WaveletBasis::Biorthogonal(1, 3), WaveletBasis::Biorthogonal(3, 1));
    assert_eq!(
        WaveletBasis::Custom("pulse".to_string()),
        WaveletBasis::Custom("pulse".to_string()).clone()
    );
    assert_ne!(WaveletBasis::Haar, WaveletBasis::Custom("Haar".to_string()));
}
