//! The separation stage: alignment, gain, and combination in one pass.

use vstd::prelude::*;

use crate::align::skip_first_n;
use crate::align::spec_skip;
use crate::combine::diff_sample;
use crate::combine::halved_diff;
use crate::combine::halved_sum;
use crate::combine::sum_sample;
use crate::errors::ExtractError;
use crate::gain::GainRatio;
use crate::gain::dot;
use crate::gain::estimate_gain;

verus! {

/// Everything one run of the separation stage produces: the voice-over
/// estimate, the recombined blend, and the gain relating the aligned
/// tracks (or the reason it is undefined).
pub struct Separation {
    /// The half-difference of the aligned tracks: the lector estimate.
    pub lector: Vec<i16>,
    /// The half-sum of the aligned tracks: the recombined blend.
    pub remix: Vec<i16>,
    /// The least-squares gain over the aligned overlap, or
    /// `DegenerateSignal` when the aligned reference carries no energy.
    pub gain: Result<GainRatio, ExtractError>,
}

/// The separation stage of the pipeline, after the lag is known: align the
/// original onto the mixed track by a truncating skip of `lag` samples,
/// truncate the mixed track to the overlap, estimate the gain over the
/// overlap, and combine the aligned tracks into the lector estimate and the
/// remix.
///
/// The truncating-skip policy assumes the mixed track covers the whole
/// aligned reference, so the overlap may not be longer than the mixed
/// track; the caller checks that before calling.
pub fn separate_tracks(orig: &[i16], mixed: &[i16], lag: usize) -> (r: Separation)
    requires
        spec_skip(orig@, lag as int).len() <= mixed@.len(),
    ensures
        ({
            let a = spec_skip(orig@, lag as int);
            let c = mixed@.subrange(0, a.len() as int);
            &&& r.lector@.len() == a.len()
            &&& forall|i: int| 0 <= i < a.len() ==> r.lector@[i] as int == diff_sample(a[i], c[i])
            &&& r.remix@.len() == a.len()
            &&& forall|i: int| 0 <= i < a.len() ==> r.remix@[i] as int == sum_sample(a[i], c[i])
            &&& (dot(a, a) == 0 ==> r.gain == Err::<GainRatio, ExtractError>(
                ExtractError::DegenerateSignal,
            ))
            &&& (dot(a, a) != 0 ==> match r.gain {
                Ok(g) => g.wf() && g.num == dot(a, c) && g.den == dot(a, a),
                Err(_) => false,
            })
        }),
{
    let a: Vec<i16> = skip_first_n(orig, lag);
    let mut c: Vec<i16> = Vec::new();
    let mut i: usize = 0;
    while i < a.len()
        invariant
            i <= a@.len(),
            a@.len() <= mixed@.len(),
            c@ == mixed@.subrange(0, i as int),
        decreases a@.len() - i,
    {
        let s: i16 = mixed[i];
        c.push(s);
        proof {
            assert(c@ =~= mixed@.subrange(0, i + 1));
        }
        i = i + 1;
    }
    let gain: Result<GainRatio, ExtractError> = estimate_gain(a.as_slice(), c.as_slice());
    let lector: Vec<i16> = halved_diff(a.as_slice(), c.as_slice());
    let remix: Vec<i16> = halved_sum(a.as_slice(), c.as_slice());
    Separation { lector, remix, gain }
}

} // verus!
