use wyvern::ieee::POSITIVE_ZERO;
use wyvern::plan::PlanError;
use wyvern::window::{
    build_window_brackets, check_filter_scale, check_window_request, place_windows,
    select_window_width, MAX_WINDOW_WIDTH,
};

fn bits(x: &[f64]) -> Vec<u64> {
    x.iter().map(|v| v.to_bits()).collect()
}

#[test]
fn smallest_covering_width_is_chosen() {
    assert_eq!(select_window_width(0), Some(4));
    assert_eq!(select_window_width(4), Some(4));
    assert_eq!(select_window_width(5), Some(8));
    assert_eq!(select_window_width(16), Some(16));
    assert_eq!(select_window_width(17), Some(32));
    assert_eq!(select_window_width(100), Some(128));
    assert_eq!(select_window_width(256), Some(256));
    assert_eq!(select_window_width(257), None);
    assert_eq!(MAX_WINDOW_WIDTH, 256);
}

#[test]
fn filter_scale_must_be_finite_and_not_negative() {
    assert!(check_filter_scale(1.0f64.to_bits()).is_ok());
    assert!(check_filter_scale(0.0f64.to_bits()).is_ok());
    assert!(check_filter_scale((-0.0f64).to_bits()).is_ok());
    assert!(check_filter_scale(2.5e10f64.to_bits()).is_ok());
    assert!(check_filter_scale(POSITIVE_ZERO).is_ok());
    for s in [-1.0, -1e-300, f64::INFINITY, f64::NEG_INFINITY, f64::NAN] {
        assert_eq!(
            check_filter_scale(s.to_bits()),
            Err(PlanError::InvalidFilterScale),
            "{s}"
        );
    }
}

#[test]
fn window_request_errors_in_order() {
    assert_eq!(
        check_window_request(3, 0, 4, 8),
        Err(PlanError::TooFewInputs { required: 4 })
    );
    assert_eq!(check_window_request(4, 0, 4, 8), Err(PlanError::NoOutputs));
    assert_eq!(
        check_window_request(4, 1, 4, 8),
        Err(PlanError::KernelTooWide { ntaps: 8, width: 4 })
    );
    assert_eq!(check_window_request(4, 1, 4, 4), Ok(()));
}

#[test]
fn window_brackets_check_sizes_then_order() {
    let x_in = bits(&[0.0, 1.0, 2.0, 3.0, 4.0]);
    assert_eq!(
        build_window_brackets(&x_in, &bits(&[1.0]), 8, 4).err(),
        Some(PlanError::TooFewInputs { required: 8 })
    );
    assert_eq!(
        build_window_brackets(&bits(&[0.0, 1.0, 3.0, 2.0]), &bits(&[1.0]), 4, 4).err(),
        Some(PlanError::UnsortedInputs)
    );
    let b = build_window_brackets(&x_in, &bits(&[1.2, 3.9]), 4, 4).unwrap();
    assert_eq!(b.lower_indices(), &vec![1, 3]);
}

#[test]
fn windows_are_centred_and_clamped() {
    let x_in = bits(&[0.0, 1.0, 2.0, 3.0, 4.0, 5.0, 6.0, 7.0, 8.0, 9.0]);
    let x_out = bits(&[0.2, 4.4, 4.6, 8.9, 9.5, -1.0]);
    let b = build_window_brackets(&x_in, &x_out, 4, 4).unwrap();
    assert_eq!(b.lower_indices(), &vec![0, 4, 4, 8, 8, 8]);
    let nearer = vec![false, false, true, true, true, false];
    let w = place_windows(&x_in, &x_out, &b, &nearer, 4, 2);
    assert_eq!(w.width(), 4);
    assert_eq!(w.n_in(), 10);
    // centres 0, 4, 5, 9, 9, 8 shifted by 2 and clamped to [0, 6]
    assert_eq!(w.starts(), &vec![0, 2, 3, 6, 6, 6]);
    // 9.5 lies beyond the last sample of its window, -1.0 before the first
    assert_eq!(w.outside(), &vec![false, false, false, false, true, true]);
}

#[test]
fn negative_half_width_shifts_right() {
    let x_in = bits(&[0.0, 1.0, 2.0, 3.0, 4.0, 5.0]);
    let x_out = bits(&[1.0]);
    let b = build_window_brackets(&x_in, &x_out, 4, 0).unwrap();
    let w = place_windows(&x_in, &x_out, &b, &vec![false], 4, -1);
    assert_eq!(w.starts(), &vec![2]);
    assert_eq!(w.outside(), &vec![true]);
    let w = place_windows(&x_in, &x_out, &b, &vec![false], 4, isize::MIN);
    assert_eq!(w.starts(), &vec![2]);
    let w = place_windows(&x_in, &x_out, &b, &vec![false], 4, isize::MAX);
    assert_eq!(w.starts(), &vec![0]);
}
