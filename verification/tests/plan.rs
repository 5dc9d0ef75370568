use wyvern::plan::{build_brackets, is_strictly_increasing, Brackets, PlanError};

fn bits(x: &[f64]) -> Vec<u64> {
    x.iter().map(|v| v.to_bits()).collect()
}

fn lower(b: &Brackets) -> Vec<usize> {
    b.lower_indices().clone()
}

#[test]
fn brackets_of_sorted_outputs() {
    let x_in = bits(&[0.0, 1.0, 2.0, 3.0]);
    let x_out = bits(&[-1.0, 0.0, 0.5, 1.0, 1.5, 2.999, 3.0, 7.0]);
    let b = build_brackets(&x_in, &x_out).unwrap();
    assert_eq!(b.n_in(), 4);
    assert_eq!(b.len(), 8);
    assert_eq!(lower(&b), vec![0, 0, 0, 1, 1, 2, 2, 2]);
    assert_eq!(b.lower(4), 1);
}

#[test]
fn brackets_never_move_back_for_unsorted_outputs() {
    let x_in = bits(&[0.0, 1.0, 2.0, 3.0, 4.0]);
    let x_out = bits(&[2.5, 0.5, 3.5, 1.0]);
    let b = build_brackets(&x_in, &x_out).unwrap();
    assert_eq!(lower(&b), vec![2, 2, 3, 3]);
}

#[test]
fn nan_output_keeps_the_pointer() {
    let x_in = bits(&[0.0, 1.0, 2.0]);
    let x_out = bits(&[f64::NAN, 1.5, f64::NAN]);
    let b = build_brackets(&x_in, &x_out).unwrap();
    assert_eq!(lower(&b), vec![0, 1, 1]);
}

#[test]
fn irregular_inputs_and_infinities() {
    let x_in = bits(&[f64::NEG_INFINITY, -10.0, 0.001, 0.002, f64::INFINITY]);
    let x_out = bits(&[-1e308, -10.0, 0.0015, 1e308, f64::INFINITY]);
    let b = build_brackets(&x_in, &x_out).unwrap();
    assert_eq!(lower(&b), vec![0, 1, 2, 3, 3]);
}

#[test]
fn too_few_inputs() {
    let x_out = bits(&[0.0]);
    assert_eq!(
        build_brackets(&bits(&[1.0]), &x_out).err(),
        Some(PlanError::TooFewInputs { required: 2 })
    );
    assert_eq!(
        build_brackets(&bits(&[]), &bits(&[])).err(),
        Some(PlanError::TooFewInputs { required: 2 })
    );
}

#[test]
fn no_outputs() {
    assert_eq!(
        build_brackets(&bits(&[0.0, 1.0]), &bits(&[])).err(),
        Some(PlanError::NoOutputs)
    );
}

#[test]
fn unsorted_or_repeated_inputs() {
    let x_out = bits(&[0.5]);
    for x_in in [
        vec![1.0, 0.0],
        vec![0.0, 1.0, 1.0],
        vec![0.0, 2.0, 1.0, 3.0],
        vec![0.0, f64::NAN, 1.0],
        vec![-0.0, 0.0],
        vec![f64::INFINITY, f64::INFINITY],
    ] {
        assert_eq!(
            build_brackets(&bits(&x_in), &x_out).err(),
            Some(PlanError::UnsortedInputs),
            "{x_in:?}"
        );
    }
}

#[test]
fn strictly_increasing_check() {
    assert!(is_strictly_increasing(&bits(&[])));
    assert!(is_strictly_increasing(&bits(&[f64::NAN])));
    assert!(is_strictly_increasing(&bits(&[-1.0, 0.0, 1e-300])));
    assert!(!is_strictly_increasing(&bits(&[0.0, -0.0])));
    assert!(!is_strictly_increasing(&bits(&[0.0, 1.0, 0.5])));
}
