use wyvern::median::select_median;

/// Encodings of the absolute differences of consecutive coordinates.
fn spacing_bits(x: &[f64]) -> Vec<u64> {
    x.windows(2).map(|w| (w[1] - w[0]).abs().to_bits()).collect()
}

/// The median spacing, as the selected middle spacing(s) give it.
fn median_spacing(x: &[f64]) -> f64 {
    let m = select_median(&spacing_bits(x));
    let upper = f64::from_bits(m.upper);
    match m.lower {
        Some(lower) => f64::midpoint(f64::from_bits(lower), upper),
        None => upper,
    }
}

#[test]
fn median_abs_sample_spacing_odd_length() {
    let x = [0.0, 1.0, 3.0, 6.0];
    // diffs: 1, 2, 3 -> median is 2
    assert_eq!(median_spacing(&x), 2.0);
}

#[test]
fn median_abs_sample_spacing_even_length() {
    let x = [0.0, 1.0, 2.0, 4.0];
    // diffs: 1, 1, 2 -> odd number of diffs (3), median is 1
    assert_eq!(median_spacing(&x), 1.0);

    let x = [0.0, 1.0, 3.0, 4.0, 8.0];
    // diffs: 1, 2, 1, 4 -> even number (4), median is midpoint of 1 and 2
    assert_eq!(median_spacing(&x), 1.5);
}

#[test]
fn median_abs_sample_spacing_handles_uniform_spacing() {
    let x = [0.0, 2.0, 4.0, 6.0, 8.0];
    assert_eq!(median_spacing(&x), 2.0);
}

#[test]
fn select_median_picks_middle_ranks() {
    let bits: Vec<u64> = [5.0f64, 1.0, 4.0, 2.0, 3.0].iter().map(|v| v.to_bits()).collect();
    let m = select_median(&bits);
    assert_eq!(f64::from_bits(m.upper), 3.0);
    assert_eq!(m.lower, None);

    let bits: Vec<u64> = [7.0f64, 1.0, 5.0, 3.0].iter().map(|v| v.to_bits()).collect();
    let m = select_median(&bits);
    assert_eq!(f64::from_bits(m.upper), 5.0);
    assert_eq!(m.lower.map(f64::from_bits), Some(3.0));
}

#[test]
fn select_median_single_spacing() {
    let m = select_median(&vec![2.5f64.to_bits()]);
    assert_eq!(f64::from_bits(m.upper), 2.5);
    assert_eq!(m.lower, None);
}

#[test]
fn select_median_ranks_by_total_order() {
    // -1.0 < -0.0 < +0.0 < 1.0 < NaN
    let values = [f64::NAN, 1.0, 0.0, -0.0, -1.0];
    let bits: Vec<u64> = values.iter().map(|v| v.to_bits()).collect();
    let m = select_median(&bits);
    assert_eq!(m.upper, 0.0f64.to_bits());
    let bits: Vec<u64> = values[1..].iter().map(|v| v.to_bits()).collect();
    let m = select_median(&bits);
    // ranks: -1.0, -0.0, +0.0, 1.0 -> middle pair is (-0.0, +0.0)
    assert_eq!(m.upper, 0.0f64.to_bits());
    assert_eq!(m.lower, Some((-0.0f64).to_bits()));
}
