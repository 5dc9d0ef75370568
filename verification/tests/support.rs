use wyvern::support::{abs_encoding, boxcar_weight, in_closed_support, in_open_support, ONE_BITS, ZERO_BITS};

fn boxcar(x: f64, a: f64) -> f64 {
    f64::from_bits(boxcar_weight(x.to_bits(), a.to_bits()))
}

#[test]
fn evaluate_is_flat_inside_support_and_zero_outside() {
    // a boxcar of 8 taps has half-width 4
    let a = 4.0;
    assert_eq!(boxcar(0.0, a), 1.0);
    assert_eq!(boxcar(3.9, a), 1.0);
    assert_eq!(boxcar(4.0, a), 0.0);
    assert_eq!(boxcar(-4.0, a), 0.0);
    assert_eq!(boxcar(10.0, a), 0.0);
}

#[test]
fn boxcar_weights_are_one_or_zero() {
    assert_eq!(boxcar_weight(0.5f64.to_bits(), 1.0f64.to_bits()), ONE_BITS);
    assert_eq!(boxcar_weight(1.5f64.to_bits(), 1.0f64.to_bits()), ZERO_BITS);
    assert_eq!(f64::from_bits(ONE_BITS), 1.0);
    // a NaN coordinate is not beyond the edge
    assert_eq!(boxcar(f64::NAN, 1.0), 1.0);
    // an empty support has no inside
    assert_eq!(boxcar(0.0, 0.0), 0.0);
}

#[test]
fn supports_match_float_comparisons() {
    let xs = [-5.0, -3.0, -2.9, -0.0, 0.0, 1.0, 3.0, 3.5, f64::INFINITY, f64::NAN];
    for a in [0.0, 3.0, f64::INFINITY, f64::NAN] {
        for &x in &xs {
            assert_eq!(in_open_support(x.to_bits(), a.to_bits()), !(x.abs() >= a), "{x} {a}");
            assert_eq!(in_closed_support(x.to_bits(), a.to_bits()), !(x.abs() > a), "{x} {a}");
            assert_eq!(abs_encoding(x.to_bits()), x.abs().to_bits());
        }
    }
}

#[test]
fn closed_support_keeps_its_edge() {
    assert!(in_closed_support(4.0f64.to_bits(), 4.0f64.to_bits()));
    assert!(!in_open_support(4.0f64.to_bits(), 4.0f64.to_bits()));
    assert!(!in_closed_support(4.1f64.to_bits(), 4.0f64.to_bits()));
    assert!(!in_closed_support((-4.1f64).to_bits(), 4.0f64.to_bits()));
}
