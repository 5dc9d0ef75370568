use wyvern::kinds::SampleKind;

#[test]
fn is_complex_flag_matches_scalar_kind() {
    assert!(!SampleKind::Float64.is_complex());
    assert!(!SampleKind::Float32.is_complex());
    assert!(SampleKind::Complex128.is_complex());
    assert!(SampleKind::Complex64.is_complex());
}

#[test]
fn real_type_matches_underlying_scalar() {
    // real kinds are their own real kind
    assert_eq!(SampleKind::Float64.real_kind(), SampleKind::Float64);
    assert_eq!(SampleKind::Complex128.real_kind(), SampleKind::Float64);
}

#[test]
fn complex_kinds_take_two_real_slots() {
    assert_eq!(SampleKind::Float32.stride(), 1);
    assert_eq!(SampleKind::Float64.stride(), 1);
    assert_eq!(SampleKind::Complex64.stride(), 2);
    assert_eq!(SampleKind::Complex128.stride(), 2);
    assert_eq!(SampleKind::Complex128.real_len(3), 6);
    assert_eq!(SampleKind::Float32.real_len(3), 3);
    assert_eq!(SampleKind::Complex64.real_kind(), SampleKind::Float32);
    assert_eq!(SampleKind::Float32.real_kind(), SampleKind::Float32);
}

#[test]
fn weights_must_match_the_data_bit_depth() {
    assert!(SampleKind::Float32.accepts_weights(SampleKind::Float32));
    assert!(SampleKind::Float64.accepts_weights(SampleKind::Float64));
    assert!(SampleKind::Complex64.accepts_weights(SampleKind::Float32));
    assert!(SampleKind::Complex128.accepts_weights(SampleKind::Float64));
    assert!(!SampleKind::Float32.accepts_weights(SampleKind::Float64));
    assert!(!SampleKind::Complex128.accepts_weights(SampleKind::Float32));
    assert!(!SampleKind::Complex128.accepts_weights(SampleKind::Complex128));
    assert!(!SampleKind::Float64.accepts_weights(SampleKind::Complex128));
}
