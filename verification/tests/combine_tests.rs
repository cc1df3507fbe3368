use extract_lector::errors::ExtractError;
use extract_lector::combine::{combine_diff, combine_gain_compensated, combine_sum};
use extract_lector::gain::GainRatio;

#[test]
fn diff_halves_each_channel_then_subtracts() {
    let a: Vec<i16> = vec![200, 5, -7, 0];
    let c: Vec<i16> = vec![0, -7, 5, 9];
    // c/2 - a/2 with truncating halving: [0-100, -3-2, 2-(-3), 4-0]
    assert_eq!(combine_diff(&a, &c), Ok(vec![-100, -5, 5, 4]));
}

#[test]
fn sum_halves_each_channel_then_adds() {
    let a: Vec<i16> = vec![200, 5, -7, 0];
    let c: Vec<i16> = vec![0, -7, 5, 9];
    // a/2 + c/2: [100+0, 2+(-3), -3+2, 0+4]
    assert_eq!(combine_sum(&a, &c), Ok(vec![100, -1, -1, 4]));
}

#[test]
fn combine_rejects_length_mismatch() {
    let a: Vec<i16> = vec![1, 2];
    let c: Vec<i16> = vec![1];
    assert_eq!(combine_diff(&a, &c), Err(ExtractError::LengthMismatch));
    assert_eq!(combine_sum(&a, &c), Err(ExtractError::LengthMismatch));
    let g = GainRatio { num: 1, den: 1 };
    assert_eq!(
        combine_gain_compensated(&a, &c, &g),
        Err(ExtractError::LengthMismatch)
    );
}

#[test]
fn sum_plus_diff_reconstructs_within_one() {
    let samples: [i16; 8] = [0, 1, -1, 7, -7, 32767, -32768, 12345];
    for &a in &samples {
        for &c in &samples {
            let va: Vec<i16> = vec![a];
            let vc: Vec<i16> = vec![c];
            let d = combine_diff(&va, &vc).unwrap()[0] as i32;
            let s = combine_sum(&va, &vc).unwrap()[0] as i32;
            let reconstructed = s + d;
            assert!((reconstructed - c as i32).abs() <= 1);
        }
    }
}

#[test]
fn gain_compensated_subtracts_scaled_reference() {
    let a: Vec<i16> = vec![100, -100, 0];
    let c: Vec<i16> = vec![250, 0, 9];
    // alpha = 2: c - 2a = [50, 200, 9]
    let g = GainRatio { num: 2, den: 1 };
    assert_eq!(combine_gain_compensated(&a, &c, &g), Ok(vec![50, 200, 9]));
}

#[test]
fn gain_compensated_rounds_half_away_from_zero() {
    let a: Vec<i16> = vec![3, -3, 1];
    let c: Vec<i16> = vec![10, 10, 0];
    // alpha = 1/2: alpha*a = [1.5, -1.5, 0.5] rounds to [2, -2, 1]
    let g = GainRatio { num: 1, den: 2 };
    assert_eq!(combine_gain_compensated(&a, &c, &g), Ok(vec![8, 12, -1]));
}

#[test]
fn gain_compensated_clamps_to_sample_range() {
    let a: Vec<i16> = vec![32767, -32768];
    let c: Vec<i16> = vec![-32768, 32767];
    let g = GainRatio { num: 2, den: 1 };
    assert_eq!(
        combine_gain_compensated(&a, &c, &g),
        Ok(vec![-32768, 32767])
    );
}
