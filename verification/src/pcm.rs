//! Raw 16-bit little-endian PCM: decoding, encoding, and stereo downmix.

use vstd::prelude::*;

use crate::combine::half_tz;
use crate::errors::ExtractError;

verus! {

/// The signed 16-bit sample encoded by the little-endian byte pair
/// `(lo, hi)`: the 16-bit word read as two's complement.
pub open spec fn sample_val(lo: u8, hi: u8) -> int {
    let w = lo + 256 * hi;
    if w < 32768 {
        w
    } else {
        w - 65536
    }
}

/// The sample `x` as an unsigned 16-bit word, two's complement.
pub open spec fn sample_word(x: i16) -> int {
    if x >= 0 {
        x as int
    } else {
        x + 65536
    }
}

/// Reading back the two little-endian bytes of a sample gives the sample.
pub proof fn lemma_sample_bytes_round_trip(x: i16)
    ensures
        sample_val((sample_word(x) % 256) as u8, (sample_word(x) / 256) as u8) == x,
{
    let w = sample_word(x);
    assert(0 <= w < 65536);
    assert(256 * (w / 256) + w % 256 == w) by {
        vstd::arithmetic::div_mod::lemma_fundamental_div_mod(w, 256);
    }
}

/// Decodes a headerless little-endian 16-bit mono PCM byte stream into its
/// samples.  A stream of odd length ends with an incomplete sample and is
/// rejected with `FormatError`.
pub fn decode_samples(bytes: &[u8]) -> (r: Result<Vec<i16>, ExtractError>)
    ensures
        bytes@.len() % 2 != 0 ==> r == Err::<Vec<i16>, ExtractError>(ExtractError::FormatError),
        bytes@.len() % 2 == 0 ==> match r {
            Ok(s) => s@.len() == bytes@.len() / 2 && forall|i: int|
                0 <= i < s@.len() ==> s@[i] as int == sample_val(bytes@[2 * i], bytes@[2 * i + 1]),
            Err(_) => false,
        },
{
    if bytes.len() % 2 != 0 {
        return Err(ExtractError::FormatError);
    }
    let n: usize = bytes.len() / 2;
    let mut out: Vec<i16> = Vec::new();
    let mut i: usize = 0;
    while i < n
        invariant
            i <= n,
            n == bytes@.len() / 2,
            bytes@.len() % 2 == 0,
            2 * n <= usize::MAX,
            out@.len() == i,
            forall|t: int| 0 <= t < i
                ==> out@[t] as int == sample_val(bytes@[2 * t], bytes@[2 * t + 1]),
        decreases n - i,
    {
        proof {
            assert(2 * i + 1 < bytes@.len());
        }
        let lo: u8 = bytes[2 * i];
        let hi: u8 = bytes[2 * i + 1];
        let w: u16 = lo as u16 + (hi as u16) * 256;
        let s: i16 = if w < 32768 {
            w as i16
        } else {
            ((w as i32) - 65536) as i16
        };
        out.push(s);
        i = i + 1;
    }
    Ok(out)
}

/// Encodes samples as a headerless little-endian 16-bit mono PCM byte
/// stream: two bytes per sample, low byte first.
pub fn encode_samples(samples: &[i16]) -> (r: Vec<u8>)
    ensures
        r@.len() == 2 * samples@.len(),
        forall|i: int| 0 <= i < samples@.len() ==> {
            &&& r@[2 * i] as int == sample_word(#[trigger] samples@[i]) % 256
            &&& r@[2 * i + 1] as int == sample_word(samples@[i]) / 256
        },
{
    let mut out: Vec<u8> = Vec::new();
    let mut i: usize = 0;
    while i < samples.len()
        invariant
            i <= samples@.len(),
            out@.len() == 2 * i,
            forall|t: int| 0 <= t < i ==> {
                &&& out@[2 * t] as int == sample_word(#[trigger] samples@[t]) % 256
                &&& out@[2 * t + 1] as int == sample_word(samples@[t]) / 256
            },
        decreases samples@.len() - i,
    {
        let x: i16 = samples[i];
        let w: u16 = if x >= 0 {
            x as u16
        } else {
            ((x as i32) + 65536) as u16
        };
        out.push((w % 256) as u8);
        out.push((w / 256) as u8);
        i = i + 1;
    }
    out
}

/// Downmixes interleaved stereo samples (left, right, left, right, ...) to
/// mono by averaging each frame's two channels, rounding toward zero.  A
/// trailing half frame is ignored, as the capture path that feeds this
/// function does.
pub fn downmix_stereo(stereo: &[i16]) -> (r: Vec<i16>)
    ensures
        r@.len() == stereo@.len() / 2,
        forall|i: int| 0 <= i < r@.len()
            ==> r@[i] as int == half_tz(stereo@[2 * i] + stereo@[2 * i + 1]),
{
    let n: usize = stereo.len() / 2;
    let mut out: Vec<i16> = Vec::new();
    let mut i: usize = 0;
    while i < n
        invariant
            i <= n,
            n == stereo@.len() / 2,
            2 * n <= usize::MAX,
            out@.len() == i,
            forall|t: int| 0 <= t < i
                ==> out@[t] as int == half_tz(stereo@[2 * t] + stereo@[2 * t + 1]),
        decreases n - i,
    {
        proof {
            assert(2 * i + 1 < stereo@.len());
        }
        let l: i32 = stereo[2 * i] as i32;
        let rch: i32 = stereo[2 * i + 1] as i32;
        let avg: i32 = crate::combine::half_i32(l + rch);
        out.push(avg as i16);
        i = i + 1;
    }
    out
}

} // verus!
