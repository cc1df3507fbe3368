//! Sample-wise combination of two aligned tracks: the halving difference
//! and sum policies, and the gain-compensated alternative.

use vstd::prelude::*;

use crate::errors::ExtractError;
use crate::gain::GainRatio;

verus! {

/// `x` divided by two, rounding toward zero, as the hardware `/` operator of
/// the samples' integer type does.
pub open spec fn half_tz(x: int) -> int {
    if x >= 0 {
        x / 2
    } else {
        -((-x) / 2)
    }
}

/// One sample of the lector estimate: each channel is halved before the
/// subtraction, which keeps the intermediate value inside the 16-bit range
/// and leaves headroom for the complementary half-sum.
pub open spec fn diff_sample(a: i16, c: i16) -> int {
    half_tz(c as int) - half_tz(a as int)
}

/// One sample of the remix: the complementary half-sum of the two channels.
pub open spec fn sum_sample(a: i16, c: i16) -> int {
    half_tz(a as int) + half_tz(c as int)
}

/// Divides by two rounding toward zero, over the full `i32` range.
pub(crate) fn half_i32(x: i32) -> (r: i32)
    ensures
        r as int == half_tz(x as int),
{
    if x >= 0 {
        ((x as u32) / 2) as i32
    } else {
        let m: u32 = (-(x as i64)) as u32;
        -((m / 2) as i32)
    }
}

/// The half-difference signal over two aligned tracks of equal length.
pub(crate) fn halved_diff(a: &[i16], c: &[i16]) -> (r: Vec<i16>)
    requires
        a@.len() == c@.len(),
    ensures
        r@.len() == a@.len(),
        forall|i: int| 0 <= i < r@.len() ==> r@[i] as int == diff_sample(a@[i], c@[i]),
{
    let mut out: Vec<i16> = Vec::new();
    let mut i: usize = 0;
    while i < a.len()
        invariant
            i <= a@.len(),
            a@.len() == c@.len(),
            out@.len() == i,
            forall|t: int| 0 <= t < i ==> out@[t] as int == diff_sample(a@[t], c@[t]),
        decreases a@.len() - i,
    {
        let h: i32 = half_i32(c[i] as i32) - half_i32(a[i] as i32);
        out.push(h as i16);
        i = i + 1;
    }
    out
}

/// The half-sum signal over two aligned tracks of equal length.
pub(crate) fn halved_sum(a: &[i16], c: &[i16]) -> (r: Vec<i16>)
    requires
        a@.len() == c@.len(),
    ensures
        r@.len() == a@.len(),
        forall|i: int| 0 <= i < r@.len() ==> r@[i] as int == sum_sample(a@[i], c@[i]),
{
    let mut out: Vec<i16> = Vec::new();
    let mut i: usize = 0;
    while i < a.len()
        invariant
            i <= a@.len(),
            a@.len() == c@.len(),
            out@.len() == i,
            forall|t: int| 0 <= t < i ==> out@[t] as int == sum_sample(a@[t], c@[t]),
        decreases a@.len() - i,
    {
        let h: i32 = half_i32(a[i] as i32) + half_i32(c[i] as i32);
        out.push(h as i16);
        i = i + 1;
    }
    out
}

/// Difference combine: per sample `c[i]/2 - a[i]/2`, the halving policy that
/// approximates the isolated voice-over.  Signals of unequal length are
/// rejected with `LengthMismatch`; no truncation is done here.
pub fn combine_diff(a: &[i16], c: &[i16]) -> (r: Result<Vec<i16>, ExtractError>)
    ensures
        a@.len() != c@.len() ==> r == Err::<Vec<i16>, ExtractError>(ExtractError::LengthMismatch),
        a@.len() == c@.len() ==> match r {
            Ok(b) => b@.len() == a@.len() && forall|i: int|
                0 <= i < b@.len() ==> b@[i] as int == diff_sample(a@[i], c@[i]),
            Err(_) => false,
        },
{
    if a.len() != c.len() {
        Err(ExtractError::LengthMismatch)
    } else {
        Ok(halved_diff(a, c))
    }
}

/// Sum combine: per sample `a[i]/2 + c[i]/2`, the complementary half-sum that
/// reconstructs a blended track.  Signals of unequal length are rejected with
/// `LengthMismatch`; no truncation is done here.
pub fn combine_sum(a: &[i16], c: &[i16]) -> (r: Result<Vec<i16>, ExtractError>)
    ensures
        a@.len() != c@.len() ==> r == Err::<Vec<i16>, ExtractError>(ExtractError::LengthMismatch),
        a@.len() == c@.len() ==> match r {
            Ok(b) => b@.len() == a@.len() && forall|i: int|
                0 <= i < b@.len() ==> b@[i] as int == sum_sample(a@[i], c@[i]),
            Err(_) => false,
        },
{
    if a.len() != c.len() {
        Err(ExtractError::LengthMismatch)
    } else {
        Ok(halved_sum(a, c))
    }
}

/// `x` pinned to the representable 16-bit sample range.
pub open spec fn clamp_i16(x: int) -> int {
    if x < -32768 {
        -32768
    } else if x > 32767 {
        32767
    } else {
        x
    }
}

/// `p / q` (for positive `q`) rounded to the nearest integer, halves away
/// from zero.
pub open spec fn round_div(p: int, q: int) -> int {
    if p >= 0 {
        (2 * p + q) / (2 * q)
    } else {
        -((2 * (-p) + q) / (2 * q))
    }
}

/// One sample of the gain-compensated difference `c[i] - alpha * a[i]`: the
/// gain is applied as the exact ratio `num / den`, the product is rounded to
/// the nearest sample once, and the result is clamped to the 16-bit range.
pub open spec fn gain_comp_sample(a: i16, c: i16, num: int, den: int) -> int {
    clamp_i16(c - round_div(num * a, den))
}

/// A cap (`2^116`) on the numerators `round_div_by` accepts; a gain entry
/// within `GAIN_ENTRY_BOUND` times a 16-bit sample stays below it.
const ROUND_NUM_BOUND: i128 = 83076749736557242056487941267521536;

/// `p / den` rounded to nearest, halves away from zero, computed exactly.
fn round_div_by(p: i128, den: i128) -> (q: i128)
    requires
        0 < den < crate::gain::GAIN_ENTRY_BOUND,
        -ROUND_NUM_BOUND < p < ROUND_NUM_BOUND,
    ensures
        q as int == round_div(p as int, den as int),
{
    let d: u128 = 2 * (den as u128);
    if p >= 0 {
        let n: u128 = 2 * (p as u128) + den as u128;
        proof {
            vstd::arithmetic::div_mod::lemma_div_is_ordered_by_denominator(n as int, 1, d as int);
        }
        (n / d) as i128
    } else {
        let n: u128 = 2 * ((-p) as u128) + den as u128;
        proof {
            vstd::arithmetic::div_mod::lemma_div_is_ordered_by_denominator(n as int, 1, d as int);
        }
        -((n / d) as i128)
    }
}

/// Gain-compensated combine: per sample `c[i] - alpha * a[i]`, clamped to
/// the 16-bit range, with `alpha` the exact ratio carried by `gain`.  This
/// is the documented alternative to the halving policy of `combine_diff`,
/// not the default.  Signals of unequal length are rejected with
/// `LengthMismatch`.
pub fn combine_gain_compensated(a: &[i16], c: &[i16], gain: &GainRatio) -> (r: Result<
    Vec<i16>,
    ExtractError,
>)
    requires
        gain.wf(),
    ensures
        a@.len() != c@.len() ==> r == Err::<Vec<i16>, ExtractError>(ExtractError::LengthMismatch),
        a@.len() == c@.len() ==> match r {
            Ok(b) => b@.len() == a@.len() && forall|i: int|
                0 <= i < b@.len() ==> b@[i] as int == gain_comp_sample(
                    a@[i],
                    c@[i],
                    gain.num as int,
                    gain.den as int,
                ),
            Err(_) => false,
        },
{
    if a.len() != c.len() {
        return Err(ExtractError::LengthMismatch);
    }
    let mut out: Vec<i16> = Vec::new();
    let mut i: usize = 0;
    while i < a.len()
        invariant
            i <= a@.len(),
            a@.len() == c@.len(),
            gain.wf(),
            out@.len() == i,
            forall|t: int| 0 <= t < i ==> out@[t] as int == gain_comp_sample(
                a@[t],
                c@[t],
                gain.num as int,
                gain.den as int,
            ),
        decreases a@.len() - i,
    {
        let x: i128 = a[i] as i128;
        proof {
            assert(-ROUND_NUM_BOUND < gain.num * x < ROUND_NUM_BOUND) by (nonlinear_arith)
                requires
                    -crate::gain::GAIN_ENTRY_BOUND < gain.num < crate::gain::GAIN_ENTRY_BOUND,
                    -32768 <= x <= 32767,
            ;
        }
        let q: i128 = round_div_by(gain.num * x, gain.den);
        let v: i128 = c[i] as i128 - q;
        let s: i16 = if v < -32768 {
            -32768i16
        } else if v > 32767 {
            32767i16
        } else {
            v as i16
        };
        out.push(s);
        i = i + 1;
    }
    Ok(out)
}

/// Adding the half-sum and half-difference signals gives back the mixed
/// track, up to the one unit each odd sample loses to the two truncating
/// halvings.
pub proof fn lemma_combine_round_trip(a: Seq<i16>, c: Seq<i16>)
    requires
        a.len() == c.len(),
    ensures
        forall|i: int| 0 <= i < c.len()
            ==> c[i] - 1 <= #[trigger] sum_sample(a[i], c[i]) + diff_sample(a[i], c[i]) <= c[i] + 1,
{
    assert forall|i: int| 0 <= i < c.len()
        implies c[i] - 1 <= #[trigger] sum_sample(a[i], c[i]) + diff_sample(a[i], c[i]) <= c[i] + 1 by {
        let x = c[i] as int;
        assert(sum_sample(a[i], c[i]) + diff_sample(a[i], c[i]) == 2 * half_tz(x));
        assert(x - 1 <= 2 * half_tz(x) <= x + 1);
    }
}

} // verus!
