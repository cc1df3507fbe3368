//! Least-squares gain estimation over two aligned tracks, as an exact
//! integer ratio.

use vstd::prelude::*;

use crate::errors::ExtractError;

verus! {

/// The inner product of the first `n` samples of two equally long signals.
pub open spec fn dot_prefix(a: Seq<i16>, c: Seq<i16>, n: nat) -> int
    decreases n,
{
    if n == 0 {
        0
    } else {
        dot_prefix(a, c, (n - 1) as nat) + a[n - 1] * c[n - 1]
    }
}

/// The inner product of two equally long signals.
pub open spec fn dot(a: Seq<i16>, c: Seq<i16>) -> int {
    dot_prefix(a, c, a.len())
}

/// A cap (`2^100`) on the magnitude of the entries of a `GainRatio`.  Inner
/// products of 16-bit signals stay far below it, and entries below it keep
/// every later 128-bit product in range.
pub const GAIN_ENTRY_BOUND: i128 = 1267650600228229401496703205376;

/// The least-squares gain relating two aligned tracks, held as the exact
/// integer ratio `num / den` with `num = a·c` and `den = a·a`.  The scalar
/// itself is `num` divided by `den` in whatever precision a consumer wants;
/// the library never forms the quotient.
#[derive(Clone, Copy, Debug, PartialEq, Eq, Structural)]
pub struct GainRatio {
    /// The inner product of reference and probe.
    pub num: i128,
    /// The self-energy of the reference; positive by construction.
    pub den: i128,
}

impl GainRatio {
    /// Every ratio the estimator hands out satisfies this: the denominator
    /// is positive (the reference was not degenerate) and both entries are
    /// small enough to survive further 128-bit arithmetic.
    pub open spec fn wf(self) -> bool {
        &&& 0 < self.den < GAIN_ENTRY_BOUND
        &&& -GAIN_ENTRY_BOUND < self.num < GAIN_ENTRY_BOUND
    }
}

/// A signal's self inner product is non-negative, and vanishes exactly on
/// all-zero prefixes.
proof fn lemma_dot_self_prefix(a: Seq<i16>, n: nat)
    requires
        n <= a.len(),
    ensures
        0 <= dot_prefix(a, a, n),
        dot_prefix(a, a, n) == 0 <==> (forall|i: int| 0 <= i < n ==> a[i] == 0),
    decreases n,
{
    if n > 0 {
        lemma_dot_self_prefix(a, (n - 1) as nat);
        let x = a[n - 1] as int;
        assert(x * x >= 0 && (x * x == 0 <==> x == 0)) by (nonlinear_arith);
    }
}

/// Gain degeneracy: the reference's self-energy vanishes exactly when the
/// reference is silence, so `estimate_gain` reports `DegenerateSignal` on an
/// all-zero reference and on no other.
pub proof fn lemma_degenerate_iff_silent(a: Seq<i16>)
    ensures
        dot(a, a) >= 0,
        dot(a, a) == 0 <==> (forall|i: int| 0 <= i < a.len() ==> a[i] == 0),
{
    lemma_dot_self_prefix(a, a.len());
}

/// Estimates the least-squares gain `alpha = (a·c) / (a·a)` over two aligned
/// tracks of equal length, as an exact integer ratio.
///
/// Tracks of unequal length are rejected with `LengthMismatch`.  A reference
/// with zero self-energy leaves the ratio undefined and is rejected with
/// `DegenerateSignal` rather than divided into garbage.
pub fn estimate_gain(a: &[i16], c: &[i16]) -> (r: Result<GainRatio, ExtractError>)
    ensures
        a@.len() != c@.len() ==> r == Err::<GainRatio, ExtractError>(ExtractError::LengthMismatch),
        a@.len() == c@.len() && dot(a@, a@) == 0 ==> r == Err::<GainRatio, ExtractError>(
            ExtractError::DegenerateSignal,
        ),
        a@.len() == c@.len() && dot(a@, a@) != 0 ==> match r {
            Ok(g) => g.wf() && g.num == dot(a@, c@) && g.den == dot(a@, a@),
            Err(_) => false,
        },
{
    if a.len() != c.len() {
        return Err(ExtractError::LengthMismatch);
    }
    let mut dot_ac: i128 = 0;
    let mut dot_aa: i128 = 0;
    let mut i: usize = 0;
    while i < a.len()
        invariant
            i <= a@.len(),
            a@.len() == c@.len(),
            dot_ac as int == dot_prefix(a@, c@, i as nat),
            dot_aa as int == dot_prefix(a@, a@, i as nat),
            -1073741824 * (i as int) <= dot_ac as int <= 1073741824 * (i as int),
            0 <= dot_aa as int <= 1073741824 * (i as int),
        decreases a@.len() - i,
    {
        let x: i128 = a[i] as i128;
        let y: i128 = c[i] as i128;
        proof {
            assert(-1073741824 <= x * y <= 1073741824) by (nonlinear_arith)
                requires
                    -32768 <= x <= 32767,
                    -32768 <= y <= 32767,
            ;
            assert(0 <= x * x <= 1073741824) by (nonlinear_arith)
                requires
                    -32768 <= x <= 32767,
            ;
            lemma_dot_self_prefix(a@, (i + 1) as nat);
        }
        dot_ac = dot_ac + x * y;
        dot_aa = dot_aa + x * x;
        i = i + 1;
    }
    if dot_aa == 0 {
        Err(ExtractError::DegenerateSignal)
    } else {
        Ok(GainRatio { num: dot_ac, den: dot_aa })
    }
}

} // verus!
