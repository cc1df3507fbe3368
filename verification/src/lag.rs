//! Lag estimation by exhaustive cross-correlation over a bounded window.

use vstd::prelude::*;

verus! {

/// The contribution of index `i` of the reference `a` to the
/// cross-correlation at `lag`: the product with the probe sample `lag`
/// ahead, or nothing where that sample does not exist.  Out-of-range pairs
/// contribute zero, which makes this the "valid" zero-padded correlation
/// rather than a circular one.
pub open spec fn corr_term(a: Seq<i16>, c: Seq<i16>, lag: int, i: int) -> int {
    if 0 <= i + lag < c.len() {
        a[i] * c[i + lag]
    } else {
        0
    }
}

/// The cross-correlation at `lag` restricted to the first `n` samples of the
/// reference.
pub open spec fn corr_prefix(a: Seq<i16>, c: Seq<i16>, lag: int, n: nat) -> int
    decreases n,
{
    if n == 0 {
        0
    } else {
        corr_prefix(a, c, lag, (n - 1) as nat) + corr_term(a, c, lag, n - 1)
    }
}

/// The zero-padded cross-correlation of reference `a` and probe `c` at
/// `lag`: the sum of `a[i] * c[i + lag]` over every `i` where both indices
/// are valid.
pub open spec fn corr_at(a: Seq<i16>, c: Seq<i16>, lag: int) -> int {
    corr_prefix(a, c, lag, a.len())
}

/// `l` is the lag the estimator must return for the window `[-max_lag,
/// max_lag]`: it lies in the window, no candidate scores a higher
/// correlation, and every earlier candidate scores strictly lower.  The last
/// clause is the tie-break: the scan runs in increasing lag order and only a
/// strictly greater score displaces the current best, so ties keep the first
/// candidate.  These three clauses pin `l` down uniquely
/// (`lemma_best_lag_unique`).
pub open spec fn is_best_lag(a: Seq<i16>, c: Seq<i16>, max_lag: int, l: int) -> bool {
    &&& -max_lag <= l <= max_lag
    &&& forall|k: int| -max_lag <= k <= max_lag ==> corr_at(a, c, k) <= corr_at(a, c, l)
    &&& forall|k: int| -max_lag <= k < l ==> corr_at(a, c, k) < corr_at(a, c, l)
}

/// No two lags satisfy `is_best_lag` for the same signals and window.
pub proof fn lemma_best_lag_unique(a: Seq<i16>, c: Seq<i16>, max_lag: int, l1: int, l2: int)
    requires
        is_best_lag(a, c, max_lag, l1),
        is_best_lag(a, c, max_lag, l2),
    ensures
        l1 == l2,
{
    if l1 < l2 {
        assert(corr_at(a, c, l1) < corr_at(a, c, l2));
        assert(corr_at(a, c, l2) <= corr_at(a, c, l1));
    }
    if l2 < l1 {
        assert(corr_at(a, c, l2) < corr_at(a, c, l1));
        assert(corr_at(a, c, l1) <= corr_at(a, c, l2));
    }
}

/// Every prefix correlation is bounded by the largest 16-bit product per
/// sample of the reference.
proof fn lemma_corr_prefix_bound(a: Seq<i16>, c: Seq<i16>, lag: int, n: nat)
    ensures
        -1073741824 * n <= corr_prefix(a, c, lag, n) <= 1073741824 * n,
    decreases n,
{
    if n > 0 {
        lemma_corr_prefix_bound(a, c, lag, (n - 1) as nat);
        let i = n - 1;
        if 0 <= i + lag < c.len() {
            let x = a[i] as int;
            let y = c[i + lag] as int;
            assert(-1073741824 <= x * y <= 1073741824) by (nonlinear_arith)
                requires
                    -32768 <= x <= 32767,
                    -32768 <= y <= 32767,
            ;
        }
    }
}

/// The cross-correlation of `a` and `c` at `lag`, accumulated exactly in
/// 128-bit integers, which a 16-bit product per sample can never overflow.
pub fn correlation(a: &[i16], c: &[i16], lag: isize) -> (r: i128)
    ensures
        r as int == corr_at(a@, c@, lag as int),
{
    let mut sum: i128 = 0;
    let mut i: usize = 0;
    while i < a.len()
        invariant
            i <= a@.len(),
            sum as int == corr_prefix(a@, c@, lag as int, i as nat),
            -1073741824 * (i as int) <= sum as int <= 1073741824 * (i as int),
        decreases a@.len() - i,
    {
        let j: i128 = i as i128 + lag as i128;
        proof {
            lemma_corr_prefix_bound(a@, c@, lag as int, (i + 1) as nat);
        }
        if 0 <= j && j < c.len() as i128 {
            let x: i128 = a[i] as i128;
            let y: i128 = c[j as usize] as i128;
            proof {
                assert(-1073741824 <= x * y <= 1073741824) by (nonlinear_arith)
                    requires
                        -32768 <= x <= 32767,
                        -32768 <= y <= 32767,
                ;
            }
            sum = sum + x * y;
        }
        i = i + 1;
    }
    sum
}

/// Finds the lag in `[-max_lag, max_lag]` at which the cross-correlation of
/// `a` and `c` is greatest, scanning in increasing lag order and keeping the
/// first of equally scoring candidates.
///
/// A caller with external knowledge of the true offset may bypass this
/// estimate and feed its own lag to the alignment step; both paths hand the
/// same kind of value downstream.
pub fn find_best_lag(a: &[i16], c: &[i16], max_lag: usize) -> (r: isize)
    requires
        max_lag <= isize::MAX,
    ensures
        is_best_lag(a@, c@, max_lag as int, r as int),
{
    let neg: isize = -(max_lag as isize);
    let mut best_lag: isize = neg;
    let mut best_corr: i128 = correlation(a, c, neg);
    let mut lag: isize = neg;
    while lag < max_lag as isize
        invariant
            max_lag <= isize::MAX,
            -(max_lag as int) <= best_lag <= lag <= max_lag as int,
            best_corr as int == corr_at(a@, c@, best_lag as int),
            forall|k: int| -(max_lag as int) <= k <= lag && k != best_lag
                ==> corr_at(a@, c@, k) <= best_corr as int,
            forall|k: int| -(max_lag as int) <= k < best_lag
                ==> corr_at(a@, c@, k) < best_corr as int,
        decreases max_lag as int - lag,
    {
        let next: isize = lag + 1;
        let corr: i128 = correlation(a, c, next);
        if corr > best_corr {
            best_corr = corr;
            best_lag = next;
        }
        lag = next;
    }
    best_lag
}

/// The correlation of an all-zero reference is zero at every lag.
proof fn lemma_silent_corr_prefix(a: Seq<i16>, c: Seq<i16>, lag: int, n: nat)
    requires
        n <= a.len(),
        forall|i: int| 0 <= i < a.len() ==> a[i] == 0,
    ensures
        corr_prefix(a, c, lag, n) == 0,
    decreases n,
{
    if n > 0 {
        lemma_silent_corr_prefix(a, c, lag, (n - 1) as nat);
        let i = n - 1;
        if 0 <= i + lag < c.len() {
            let y = c[i + lag] as int;
            assert(a[i] * c[i + lag] == 0) by (nonlinear_arith)
                requires
                    a[i] == 0,
            ;
        }
    }
}

/// Tie-break determinism: an all-zero reference scores zero at every lag, so
/// the estimator settles on `-max_lag`, the first candidate in scan order.
pub proof fn lemma_silent_reference_best_lag(a: Seq<i16>, c: Seq<i16>, max_lag: int)
    requires
        max_lag >= 0,
        forall|i: int| 0 <= i < a.len() ==> a[i] == 0,
    ensures
        is_best_lag(a, c, max_lag, -max_lag),
{
    assert forall|k: int| -max_lag <= k <= max_lag
        implies #[trigger] corr_at(a, c, k) <= corr_at(a, c, -max_lag) by {
        lemma_silent_corr_prefix(a, c, k, a.len());
        lemma_silent_corr_prefix(a, c, -max_lag, a.len());
    }
}

/// The form of the tie-break law a caller of `find_best_lag` applies
/// directly: whatever lag the estimator certified for an all-zero
/// reference, it is `-max_lag`.
pub proof fn lemma_silent_reference_pins_result(a: Seq<i16>, c: Seq<i16>, max_lag: int, r: int)
    requires
        max_lag >= 0,
        forall|i: int| 0 <= i < a.len() ==> a[i] == 0,
        is_best_lag(a, c, max_lag, r),
    ensures
        r == -max_lag,
{
    lemma_silent_reference_best_lag(a, c, max_lag);
    lemma_best_lag_unique(a, c, max_lag, r, -max_lag);
}

} // verus!
