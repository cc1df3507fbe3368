use extract_lector::align::shift_signal;
use extract_lector::lag::{correlation, find_best_lag};

#[test]
fn correlation_concrete_value() {
    let a: Vec<i16> = vec![1, 2, 3];
    let c: Vec<i16> = vec![4, 5, 6];
    // 1*4 + 2*5 + 3*6
    assert_eq!(correlation(&a, &c, 0), 32);
    // 1*5 + 2*6
    assert_eq!(correlation(&a, &c, 1), 17);
    // 2*4 + 3*5
    assert_eq!(correlation(&a, &c, -1), 23);
    // out of range everywhere
    assert_eq!(correlation(&a, &c, 5), 0);
}

#[test]
fn shifted_probe_recovers_positive_lag() {
    let a: Vec<i16> = vec![100, 200, 300, 400];
    let c: Vec<i16> = shift_signal(&a, 1, 5);
    assert_eq!(c, vec![0, 100, 200, 300, 400]);
    assert_eq!(find_best_lag(&a, &c, 2), 1);
}

#[test]
fn shifted_probe_recovers_negative_lag() {
    let a: Vec<i16> = vec![0, 0, 5, 7];
    let c: Vec<i16> = shift_signal(&a, -1, 4);
    assert_eq!(c, vec![0, 5, 7, 0]);
    assert_eq!(find_best_lag(&a, &c, 2), -1);
}

#[test]
fn unshifted_probe_gives_zero_lag() {
    let a: Vec<i16> = vec![3, 1, 4, 1, 5];
    assert_eq!(find_best_lag(&a, &a, 3), 0);
}

#[test]
fn silent_reference_keeps_first_candidate() {
    let a: Vec<i16> = vec![0, 0, 0, 0];
    let c: Vec<i16> = vec![1, 2, 3, 4];
    assert_eq!(find_best_lag(&a, &c, 3), -3);
}

#[test]
fn tie_keeps_earliest_lag() {
    // corr(-1) = a[1]*c[0] = 1 and corr(0) = a[1]*c[1] = 1 tie exactly;
    // the scan keeps the earlier candidate.
    let a: Vec<i16> = vec![0, 1];
    let c: Vec<i16> = vec![1, 1];
    assert_eq!(find_best_lag(&a, &c, 1), -1);
}

#[test]
fn left_shift_can_hide_the_true_lag() {
    // A negative shift discards leading reference samples.  Here the loud
    // head of the reference is gone from the probe, and what remains
    // correlates best at lag 0, not at the true -1: recovery of the lag is
    // only guaranteed for non-negative shifts.
    let a: Vec<i16> = vec![5, 1, 1];
    let c: Vec<i16> = shift_signal(&a, -1, 3);
    assert_eq!(c, vec![1, 1, 0]);
    assert_eq!(correlation(&a, &c, -1), 2);
    assert_eq!(correlation(&a, &c, 0), 6);
    assert_eq!(find_best_lag(&a, &c, 2), 0);
}

#[test]
fn window_bounds_the_estimate() {
    let a: Vec<i16> = vec![9, 1, 1, 1, 1, 1];
    let c: Vec<i16> = shift_signal(&a, 4, 10);
    // the true lag 4 lies outside the +/-2 window; the result stays inside
    let lag = find_best_lag(&a, &c, 2);
    assert!(-2 <= lag && lag <= 2);
}
