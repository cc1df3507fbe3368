//! The correctness law of the lag estimator: a probe built by shifting the
//! reference is recognized at exactly the lag it was shifted by.  The proof
//! walks over windowed square sums: twice any correlation is bounded by two
//! square sums, term by term, and the candidate lags before the true one
//! leave provable slack.

use vstd::prelude::*;

use crate::align::spec_shift;
use crate::gain::dot;
use crate::gain::dot_prefix;
use crate::lag::corr_at;
use crate::lag::corr_prefix;
use crate::lag::corr_term;
use crate::lag::is_best_lag;

verus! {

/// The squared sample at index `j`, or zero outside the signal.
pub open spec fn sq_at(a: Seq<i16>, j: int) -> int {
    if 0 <= j < a.len() {
        a[j] * a[j]
    } else {
        0
    }
}

/// The sum of the squared samples over the index interval `[lo, hi)`;
/// indices outside the signal contribute zero.
pub open spec fn sq_range(a: Seq<i16>, lo: int, hi: int) -> int
    decreases hi - lo,
{
    if hi <= lo {
        0
    } else {
        sq_range(a, lo, hi - 1) + sq_at(a, hi - 1)
    }
}

proof fn lemma_sq_at_nonneg(a: Seq<i16>, j: int)
    ensures
        sq_at(a, j) >= 0,
        sq_at(a, j) == 0 ==> !(0 <= j < a.len()) || a[j] == 0,
{
    if 0 <= j < a.len() {
        let x = a[j] as int;
        assert(x * x >= 0 && (x * x == 0 ==> x == 0)) by (nonlinear_arith);
    }
}

proof fn lemma_sq_range_nonneg(a: Seq<i16>, lo: int, hi: int)
    ensures
        sq_range(a, lo, hi) >= 0,
    decreases hi - lo,
{
    if hi > lo {
        lemma_sq_range_nonneg(a, lo, hi - 1);
        lemma_sq_at_nonneg(a, hi - 1);
    }
}

/// Splitting a square sum at any interior point.
proof fn lemma_sq_range_split(a: Seq<i16>, lo: int, mid: int, hi: int)
    requires
        lo <= mid <= hi,
    ensures
        sq_range(a, lo, hi) == sq_range(a, lo, mid) + sq_range(a, mid, hi),
    decreases hi - mid,
{
    if hi > mid {
        lemma_sq_range_split(a, lo, mid, hi - 1);
    }
}

/// Any single square is at most the square sum of an interval around it.
proof fn lemma_sq_range_single(a: Seq<i16>, lo: int, j: int, hi: int)
    requires
        lo <= j < hi,
    ensures
        sq_range(a, lo, hi) >= sq_at(a, j),
{
    lemma_sq_range_split(a, lo, j, hi);
    lemma_sq_range_split(a, j, j + 1, hi);
    lemma_sq_range_nonneg(a, lo, j);
    lemma_sq_range_nonneg(a, j + 1, hi);
    assert(sq_range(a, j, j + 1) == sq_range(a, j, j) + sq_at(a, j));
}

/// Indices left of the signal contribute nothing.
proof fn lemma_sq_range_clip_left(a: Seq<i16>, lo: int, hi: int)
    requires
        lo <= 0,
    ensures
        sq_range(a, lo, hi) == if hi >= 0 {
            sq_range(a, 0, hi)
        } else {
            0
        },
    decreases hi - lo,
{
    if hi > lo {
        lemma_sq_range_clip_left(a, lo, hi - 1);
    }
}

/// Indices right of the signal contribute nothing.
proof fn lemma_sq_range_clip_right(a: Seq<i16>, lo: int, hi: int)
    requires
        hi >= a.len(),
    ensures
        sq_range(a, lo, hi) == if lo <= a.len() {
            sq_range(a, lo, a.len() as int)
        } else {
            0
        },
    decreases hi - lo,
{
    if hi > lo && hi > a.len() {
        lemma_sq_range_clip_right(a, lo, hi - 1);
    }
}

/// Widening the interval can only grow a square sum.
proof fn lemma_sq_range_mono(a: Seq<i16>, lo2: int, lo: int, hi: int, hi2: int)
    requires
        lo2 <= lo,
        hi <= hi2,
    ensures
        sq_range(a, lo, hi) <= sq_range(a, lo2, hi2),
{
    if hi <= lo {
        lemma_sq_range_nonneg(a, lo, hi);
        lemma_sq_range_nonneg(a, lo2, hi2);
    } else {
        lemma_sq_range_split(a, lo2, lo, hi2);
        lemma_sq_range_split(a, lo, hi, hi2);
        lemma_sq_range_nonneg(a, lo2, lo);
        lemma_sq_range_nonneg(a, hi, hi2);
    }
}

/// Any square sum over an interval of the signal's own width is at most the
/// signal's energy.
proof fn lemma_sq_range_le_energy(a: Seq<i16>, d: int)
    ensures
        sq_range(a, d, d + a.len()) <= sq_range(a, 0, a.len() as int),
{
    let n = a.len() as int;
    lemma_sq_range_nonneg(a, 0, n);
    if d >= 0 {
        lemma_sq_range_clip_right(a, d, d + n);
        if d <= n {
            lemma_sq_range_mono(a, 0, d, n, n);
        }
    } else {
        lemma_sq_range_clip_left(a, d, d + n);
        if d + n >= 0 {
            lemma_sq_range_mono(a, 0, 0, d + n, n);
        }
    }
}

/// The self inner product is the square sum over the whole signal.
proof fn lemma_dot_self_is_sq_range(a: Seq<i16>, n: nat)
    requires
        n <= a.len(),
    ensures
        dot_prefix(a, a, n) == sq_range(a, 0, n as int),
    decreases n,
{
    if n > 0 {
        lemma_dot_self_is_sq_range(a, (n - 1) as nat);
    }
}

/// A probe that carries the reference at offset `l` correlates with it, at
/// lag `l`, to exactly the reference's energy.
proof fn lemma_corr_at_true_lag(a: Seq<i16>, c: Seq<i16>, l: int, n: nat)
    requires
        0 <= l,
        c.len() >= a.len() + l,
        forall|j: int| 0 <= j < c.len() ==> #[trigger] c[j] == crate::align::shifted_sample(a, l, j),
        n <= a.len(),
    ensures
        corr_prefix(a, c, l, n) == sq_range(a, 0, n as int),
    decreases n,
{
    if n > 0 {
        lemma_corr_at_true_lag(a, c, l, (n - 1) as nat);
        let i = n - 1;
        assert(c[i + l] == a[i]);
        assert(corr_term(a, c, l, i) == sq_at(a, i));
    }
}

/// Twice any prefix correlation with such a probe is bounded by the square
/// sum of the reference prefix plus the square sum of the window the probe
/// draws its samples from: term by term, `2xy <= x^2 + y^2`.
proof fn lemma_corr_prefix_bound_by_sq(a: Seq<i16>, c: Seq<i16>, k: int, l: int, n: nat)
    requires
        0 <= l,
        c.len() >= a.len() + l,
        forall|j: int| 0 <= j < c.len() ==> #[trigger] c[j] == crate::align::shifted_sample(a, l, j),
        n <= a.len(),
    ensures
        2 * corr_prefix(a, c, k, n) <= sq_range(a, 0, n as int) + sq_range(a, k - l, k - l + n),
    decreases n,
{
    let d = k - l;
    if n > 0 {
        lemma_corr_prefix_bound_by_sq(a, c, k, l, (n - 1) as nat);
        let i = n - 1;
        lemma_sq_at_nonneg(a, i);
        lemma_sq_at_nonneg(a, i + d);
        if 0 <= i + k < c.len() {
            if 0 <= i + k - l < a.len() {
                let x = a[i] as int;
                let y = a[i + d] as int;
                assert(c[i + k] == a[i + d]);
                assert(2 * (x * y) <= x * x + y * y) by (nonlinear_arith);
                assert(sq_at(a, i + d) == y * y);
            } else {
                assert(c[i + k] == 0i16);
                assert(a[i] * c[i + k] == 0) by (nonlinear_arith)
                    requires
                        c[i + k] == 0i16,
                ;
            }
        }
    }
}

/// As `lemma_corr_prefix_bound_by_sq`, strengthened by the slack of one
/// reference index `p` that holds a zero sample: the probe sample facing it
/// is not consumed by the correlation, so its square can be subtracted from
/// the bound.
proof fn lemma_corr_prefix_bound_slack(a: Seq<i16>, c: Seq<i16>, k: int, l: int, n: nat, p: int)
    requires
        0 <= l,
        c.len() >= a.len() + l,
        forall|j: int| 0 <= j < c.len() ==> #[trigger] c[j] == crate::align::shifted_sample(a, l, j),
        n <= a.len(),
        0 <= p < n,
        a[p] == 0,
    ensures
        2 * corr_prefix(a, c, k, n) <= sq_range(a, 0, n as int) + sq_range(a, k - l, k - l + n)
            - sq_at(a, p + (k - l)),
    decreases n,
{
    let d = k - l;
    let i = n - 1;
    if i == p {
        lemma_corr_prefix_bound_by_sq(a, c, k, l, (n - 1) as nat);
        assert(sq_at(a, p) == 0) by (nonlinear_arith)
            requires
                0 <= p < a.len(),
                a[p] == 0,
        ;
        if 0 <= i + k < c.len() {
            assert(a[i] * c[i + k] == 0) by (nonlinear_arith)
                requires
                    a[i] == 0,
            ;
        }
        assert(corr_term(a, c, k, i) == 0);
    } else {
        lemma_corr_prefix_bound_slack(a, c, k, l, (n - 1) as nat, p);
        lemma_sq_at_nonneg(a, i);
        lemma_sq_at_nonneg(a, i + d);
        if 0 <= i + k < c.len() {
            if 0 <= i + k - l < a.len() {
                let x = a[i] as int;
                let y = a[i + d] as int;
                assert(c[i + k] == a[i + d]);
                assert(2 * (x * y) <= x * x + y * y) by (nonlinear_arith);
                assert(sq_at(a, i + d) == y * y);
            } else {
                assert(c[i + k] == 0i16);
                assert(a[i] * c[i + k] == 0) by (nonlinear_arith)
                    requires
                        c[i + k] == 0i16,
                ;
            }
        }
    }
}

/// The greatest index at which the first `n` samples are not silent.
spec fn last_nonzero(a: Seq<i16>, n: nat) -> int
    decreases n,
{
    if n == 0 {
        -1
    } else if a[n - 1] != 0 {
        n - 1
    } else {
        last_nonzero(a, (n - 1) as nat)
    }
}

proof fn lemma_last_nonzero(a: Seq<i16>, n: nat)
    requires
        n <= a.len(),
        exists|i: int| 0 <= i < n && #[trigger] a[i] != 0,
    ensures
        0 <= last_nonzero(a, n) < n,
        a[last_nonzero(a, n)] != 0,
        forall|j: int| last_nonzero(a, n) < j < n ==> a[j] == 0,
    decreases n,
{
    if n > 0 && a[n - 1] == 0 {
        let w = choose|i: int| 0 <= i < n && #[trigger] a[i] != 0;
        assert(0 <= w < n - 1 && a[w] != 0);
        lemma_last_nonzero(a, (n - 1) as nat);
    }
}

/// At any candidate lag earlier than the true one, the correlation stays
/// strictly below the reference's energy, as long as the reference is not
/// silence.  Shifting left in time would have to match the last sounded
/// sample of the reference against something later than itself, and there
/// is nothing there.
proof fn lemma_earlier_lag_strictly_below(a: Seq<i16>, c: Seq<i16>, k: int, l: int)
    requires
        0 <= l,
        c.len() >= a.len() + l,
        forall|j: int| 0 <= j < c.len() ==> #[trigger] c[j] == crate::align::shifted_sample(a, l, j),
        k < l,
        exists|i: int| 0 <= i < a.len() && #[trigger] a[i] != 0,
    ensures
        2 * corr_at(a, c, k) <= 2 * sq_range(a, 0, a.len() as int) - 1,
{
    let n = a.len() as int;
    let d = k - l;
    lemma_last_nonzero(a, a.len());
    let jm = last_nonzero(a, a.len());
    let xm = a[jm] as int;
    assert(xm * xm >= 1) by (nonlinear_arith)
        requires
            xm != 0,
    ;
    assert(sq_at(a, jm) == xm * xm);
    if jm >= n + d {
        lemma_corr_prefix_bound_by_sq(a, c, k, l, a.len());
        lemma_sq_range_clip_left(a, d, d + n);
        if d + n >= 0 {
            lemma_sq_range_split(a, 0, d + n, n);
            lemma_sq_range_single(a, d + n, jm, n);
        } else {
            lemma_sq_range_single(a, 0, jm, n);
        }
    } else {
        let p = jm - d;
        lemma_corr_prefix_bound_slack(a, c, k, l, a.len(), p);
        lemma_sq_range_le_energy(a, d);
    }
}

/// Lag estimation correctness: when the probe is the reference shifted by a
/// known lag `l` in the search window, zero-padded and long enough that no
/// reference content is cut off, and the reference is not silence, then `l`
/// is exactly the lag the estimator settles on, and its correlation score is
/// the reference's self-energy.
///
/// A silent reference is excluded: there every candidate scores zero and the
/// estimator falls back to the first candidate in scan order
/// (`crate::lag::lemma_silent_reference_best_lag`).  A negative true lag is
/// excluded as well: shifting left discards leading reference samples, and
/// what remains of the probe can correlate better with a later candidate.
pub proof fn lemma_shifted_probe_recovers_lag(a: Seq<i16>, c: Seq<i16>, max_lag: int, l: int)
    requires
        0 <= l <= max_lag,
        c == spec_shift(a, l, c.len()),
        c.len() >= a.len() + l,
        exists|i: int| 0 <= i < a.len() && #[trigger] a[i] != 0,
    ensures
        is_best_lag(a, c, max_lag, l),
        corr_at(a, c, l) == dot(a, a),
{
    let n = a.len();
    assert forall|j: int| 0 <= j < c.len() implies #[trigger] c[j] == crate::align::shifted_sample(
        a,
        l,
        j,
    ) by {
        assert(c[j] == spec_shift(a, l, c.len())[j]);
    }
    lemma_corr_at_true_lag(a, c, l, n);
    lemma_dot_self_is_sq_range(a, n);
    assert forall|k: int| -max_lag <= k <= max_lag implies #[trigger] corr_at(a, c, k) <= corr_at(
        a,
        c,
        l,
    ) by {
        lemma_corr_prefix_bound_by_sq(a, c, k, l, n);
        lemma_sq_range_le_energy(a, k - l);
    }
    assert forall|k: int| -max_lag <= k < l implies #[trigger] corr_at(a, c, k) < corr_at(
        a,
        c,
        l,
    ) by {
        lemma_earlier_lag_strictly_below(a, c, k, l);
    }
}

/// The form of the correctness law a caller of `find_best_lag` applies
/// directly: whatever lag the estimator certified for such a probe, it is
/// the lag the probe was built with.
pub proof fn lemma_shifted_probe_pins_result(
    a: Seq<i16>,
    c: Seq<i16>,
    max_lag: int,
    l: int,
    r: int,
)
    requires
        0 <= l <= max_lag,
        c == spec_shift(a, l, c.len()),
        c.len() >= a.len() + l,
        exists|i: int| 0 <= i < a.len() && #[trigger] a[i] != 0,
        is_best_lag(a, c, max_lag, r),
    ensures
        r == l,
{
    lemma_shifted_probe_recovers_lag(a, c, max_lag, l);
    crate::lag::lemma_best_lag_unique(a, c, max_lag, r, l);
}

} // verus!
