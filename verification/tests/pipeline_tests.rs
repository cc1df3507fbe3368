use extract_lector::errors::ExtractError;
use extract_lector::lag::{correlation, find_best_lag};
use extract_lector::pipeline::separate_tracks;

#[test]
fn end_to_end_example() {
    // The original track, and a mix of it shifted one sample right with a
    // voice-over added on top.
    let orig: Vec<i16> = vec![100, 200, 300, 400];
    let mixed: Vec<i16> = vec![0, 250, 350, 450];

    // On so short a ramp the added voice outweighs the shift: the exact
    // cross-correlation peaks at lag 0 (335000) rather than at the true
    // lag 1 (230000), and the estimator reports that maximum.
    assert_eq!(correlation(&orig, &mixed, 0), 335_000);
    assert_eq!(correlation(&orig, &mixed, 1), 230_000);
    assert_eq!(find_best_lag(&orig, &mixed, 2), 0);

    // The reference workflow overrides the estimate with the externally
    // known lag; both paths feed the same separation stage.
    let known_lag: usize = 1;
    let sep = separate_tracks(&orig, &mixed, known_lag);

    // aligned orig = [200, 300, 400], aligned mixed = [0, 250, 350];
    // diff = mixed/2 - orig/2 and sum = orig/2 + mixed/2, sample by sample
    assert_eq!(sep.lector, vec![0 - 100, 125 - 150, 175 - 200]);
    assert_eq!(sep.remix, vec![100 + 0, 150 + 125, 200 + 175]);

    // gain over the overlap: a.c = 215000, a.a = 290000
    let g = sep.gain.unwrap();
    assert_eq!(g.num, 215_000);
    assert_eq!(g.den, 290_000);
}

#[test]
fn clean_shift_end_to_end() {
    // With no voice-over at all the estimator recovers the lag, the
    // zero-padded shift reproduces the mixed track exactly, and the
    // difference signal is silence.
    let orig: Vec<i16> = vec![100, 200, 300, 400];
    let mixed: Vec<i16> = extract_lector::align::shift_signal(&orig, 1, 5);
    let lag = find_best_lag(&orig, &mixed, 2);
    assert_eq!(lag, 1);
    let aligned = extract_lector::align::shift_signal(&orig, lag, mixed.len());
    assert_eq!(aligned, mixed);
    let diff = extract_lector::combine::combine_diff(&aligned, &mixed).unwrap();
    assert_eq!(diff, vec![0, 0, 0, 0, 0]);
    let g = extract_lector::gain::estimate_gain(&aligned, &mixed).unwrap();
    assert_eq!(g.num, g.den);
    assert_eq!(g.den, 100 * 100 + 200 * 200 + 300 * 300 + 400 * 400);
}

#[test]
fn separation_with_zero_lag_keeps_full_overlap() {
    let orig: Vec<i16> = vec![10, -10];
    let mixed: Vec<i16> = vec![14, -2];
    let sep = separate_tracks(&orig, &mixed, 0);
    assert_eq!(sep.lector, vec![7 - 5, -1 - (-5)]);
    assert_eq!(sep.remix, vec![5 + 7, -5 + (-1)]);
}

#[test]
fn separation_reports_degenerate_gain() {
    let orig: Vec<i16> = vec![0, 0, 0];
    let mixed: Vec<i16> = vec![1, 2, 3];
    let sep = separate_tracks(&orig, &mixed, 0);
    assert_eq!(sep.gain, Err(ExtractError::DegenerateSignal));
    assert_eq!(sep.lector, vec![0, 1, 1]);
}
