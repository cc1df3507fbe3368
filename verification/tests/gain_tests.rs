use extract_lector::errors::ExtractError;
use extract_lector::gain::estimate_gain;

#[test]
fn gain_ratio_concrete() {
    let a: Vec<i16> = vec![1, 2];
    let c: Vec<i16> = vec![2, 4];
    let g = estimate_gain(&a, &c).unwrap();
    // a.c = 1*2 + 2*4 = 10, a.a = 1 + 4 = 5: alpha is exactly 2
    assert_eq!(g.num, 10);
    assert_eq!(g.den, 5);
}

#[test]
fn gain_numerator_can_be_negative() {
    let a: Vec<i16> = vec![1, 1];
    let c: Vec<i16> = vec![-3, -5];
    let g = estimate_gain(&a, &c).unwrap();
    assert_eq!(g.num, -8);
    assert_eq!(g.den, 2);
}

#[test]
fn gain_degenerate_on_silent_reference() {
    let a: Vec<i16> = vec![0, 0, 0];
    let c: Vec<i16> = vec![5, 6, 7];
    assert_eq!(estimate_gain(&a, &c), Err(ExtractError::DegenerateSignal));
}

#[test]
fn gain_degenerate_on_empty_reference() {
    let a: Vec<i16> = Vec::new();
    let c: Vec<i16> = Vec::new();
    assert_eq!(estimate_gain(&a, &c), Err(ExtractError::DegenerateSignal));
}

#[test]
fn gain_rejects_length_mismatch() {
    let a: Vec<i16> = vec![1, 2, 3];
    let c: Vec<i16> = vec![1, 2];
    assert_eq!(estimate_gain(&a, &c), Err(ExtractError::LengthMismatch));
}
