//! The two alignment strategies: truncating skip and zero-padded shift.

use vstd::prelude::*;

verus! {

/// The samples of `v` with the first `n` dropped; empty once `n` reaches the
/// end of `v`.
pub open spec fn spec_skip(v: Seq<i16>, n: int) -> Seq<i16> {
    if n >= v.len() {
        Seq::empty()
    } else {
        v.subrange(n, v.len() as int)
    }
}

/// Truncating skip: drop the first `len` samples of `v`.
///
/// This is the alignment strategy for a known non-negative lag.  The result
/// is not padded: when `len >= v.len()` it is empty, and a caller combining
/// the result with another signal must truncate that signal to the same
/// length itself.
pub fn skip_first_n(v: &[i16], len: usize) -> (r: Vec<i16>)
    ensures
        r@ == spec_skip(v@, len as int),
{
    if len >= v.len() {
        Vec::new()
    } else {
        let mut out: Vec<i16> = Vec::new();
        let mut i: usize = len;
        while i < v.len()
            invariant
                len <= i <= v@.len(),
                len < v@.len(),
                out@ == v@.subrange(len as int, i as int),
            decreases v@.len() - i,
        {
            let s: i16 = v[i];
            out.push(s);
            proof {
                assert(out@ =~= v@.subrange(len as int, i + 1));
            }
            i = i + 1;
        }
        out
    }
}

/// The sample a zero-padded shift of `a` by `lag` places at position `j`:
/// the sample of `a` that `j` falls back onto, or silence where none does.
pub open spec fn shifted_sample(a: Seq<i16>, lag: int, j: int) -> i16 {
    if 0 <= j - lag < a.len() {
        a[j - lag]
    } else {
        0i16
    }
}

/// The zero-padded shift of `a` by `lag`, cut or padded to exactly
/// `target_len` samples.
pub open spec fn spec_shift(a: Seq<i16>, lag: int, target_len: nat) -> Seq<i16> {
    Seq::new(target_len, |j: int| shifted_sample(a, lag, j))
}

/// Zero-padded shift: move `a` by `lag` samples and return exactly
/// `target_len` samples, filling every gap with silence.
///
/// A positive `lag` prepends `lag` zero samples before the content; a
/// non-positive `lag` drops the first `-lag` samples (clamped to the length
/// of `a`).  Either way the result is truncated or right-padded with zeros to
/// `target_len`, so the call never fails, whatever the lag magnitude or the
/// input length.
pub fn shift_signal(a: &[i16], lag: isize, target_len: usize) -> (r: Vec<i16>)
    ensures
        r@ == spec_shift(a@, lag as int, target_len as nat),
        r@.len() == target_len,
{
    let mut out: Vec<i16> = Vec::new();
    let mut j: usize = 0;
    while j < target_len
        invariant
            j <= target_len,
            out@.len() == j,
            forall|t: int| 0 <= t < j ==> out@[t] == shifted_sample(a@, lag as int, t),
        decreases target_len - j,
    {
        let src: i128 = j as i128 - lag as i128;
        if 0 <= src && src < a.len() as i128 {
            let s: i16 = a[src as usize];
            out.push(s);
        } else {
            out.push(0i16);
        }
        j = j + 1;
    }
    proof {
        assert(out@ =~= spec_shift(a@, lag as int, target_len as nat));
    }
    out
}

} // verus!
