use wyvern::ieee::{
    from_total_order_key, is_finite, is_nan, is_positive_finite, le, lt, magnitude, ordinal,
    total_order_key, zero_masked,
};

fn b(x: f64) -> u64 {
    x.to_bits()
}

#[test]
fn comparisons_match_ieee() {
    let values = [
        f64::NEG_INFINITY,
        -1.5e300,
        -2.0,
        -f64::MIN_POSITIVE,
        -0.0,
        0.0,
        5e-324,
        0.5,
        3.0,
        f64::MAX,
        f64::INFINITY,
        f64::NAN,
        -f64::NAN,
    ];
    for &x in &values {
        for &y in &values {
            assert_eq!(le(b(x), b(y)), x <= y, "{x} <= {y}");
            assert_eq!(lt(b(x), b(y)), x < y, "{x} < {y}");
        }
        assert_eq!(is_nan(b(x)), x.is_nan());
        assert_eq!(is_finite(b(x)), x.is_finite());
        assert_eq!(is_positive_finite(b(x)), x > 0.0 && x.is_finite());
    }
}

#[test]
fn zeros_compare_equal() {
    assert!(le(b(0.0), b(-0.0)));
    assert!(le(b(-0.0), b(0.0)));
    assert!(!lt(b(-0.0), b(0.0)));
    assert_eq!(ordinal(b(-0.0)), 0);
    assert_eq!(magnitude(b(-2.0)), b(2.0));
}

#[test]
fn total_order_keys_follow_total_order() {
    let values = [
        -f64::NAN,
        f64::NEG_INFINITY,
        -2.0,
        -0.0,
        0.0,
        1e-300,
        2.0,
        f64::INFINITY,
        f64::NAN,
    ];
    for &x in &values {
        assert_eq!(from_total_order_key(total_order_key(b(x))), b(x));
        for &y in &values {
            assert_eq!(
                total_order_key(b(x)).cmp(&total_order_key(b(y))),
                x.total_cmp(&y),
                "{x} vs {y}"
            );
        }
    }
}

fn invert_no_zero(x: f64) -> f64 {
    if x == 0.0 { 0.0 } else { 1.0 / x }
}

fn invert_no_zero_branchless(x: f64) -> f64 {
    f64::from_bits(zero_masked(x.to_bits(), (1.0 / x).to_bits()))
}

#[test]
fn invert_no_zero_branchless_matches_invert_no_zero() {
    for x in [-3.0, 0.0, 0.5, 2.0, 10.0] {
        assert_eq!(invert_no_zero_branchless(x), invert_no_zero(x));
    }
}

#[test]
fn zero_masked_keeps_value_for_nonzero_and_nan() {
    assert_eq!(zero_masked(b(-0.0), b(f64::NEG_INFINITY)), 0);
    assert_eq!(zero_masked(b(0.0), b(f64::INFINITY)), 0);
    assert_eq!(zero_masked(b(f64::NAN), 12345), 12345);
    assert_eq!(zero_masked(b(4.0), b(0.25)), b(0.25));
}
