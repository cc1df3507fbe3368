use extract_lector::errors::ExtractError;
use extract_lector::pcm::{decode_samples, downmix_stereo, encode_samples};

#[test]
fn decode_reads_little_endian_pairs() {
    let bytes: Vec<u8> = vec![0x34, 0x12, 0x00, 0x00, 0x01, 0x00];
    assert_eq!(decode_samples(&bytes), Ok(vec![0x1234, 0, 1]));
}

#[test]
fn decode_reads_negative_samples() {
    let bytes: Vec<u8> = vec![0xFF, 0xFF, 0x00, 0x80];
    assert_eq!(decode_samples(&bytes), Ok(vec![-1, i16::MIN]));
}

#[test]
fn decode_empty_stream_is_empty() {
    let bytes: Vec<u8> = Vec::new();
    assert_eq!(decode_samples(&bytes), Ok(Vec::new()));
}

#[test]
fn decode_rejects_odd_length() {
    let bytes: Vec<u8> = vec![0x01, 0x02, 0x03];
    assert_eq!(decode_samples(&bytes), Err(ExtractError::FormatError));
}

#[test]
fn encode_writes_little_endian_pairs() {
    let samples: Vec<i16> = vec![0x1234, -1, i16::MIN, 0];
    assert_eq!(
        encode_samples(&samples),
        vec![0x34, 0x12, 0xFF, 0xFF, 0x00, 0x80, 0x00, 0x00]
    );
}

#[test]
fn encode_then_decode_round_trips() {
    let samples: Vec<i16> = vec![0, 1, -1, 32767, -32768, 100, -12345];
    assert_eq!(decode_samples(&encode_samples(&samples)), Ok(samples));
}

#[test]
fn downmix_averages_each_frame() {
    let stereo: Vec<i16> = vec![100, 200, -100, -200, 0, 1];
    assert_eq!(downmix_stereo(&stereo), vec![150, -150, 0]);
}

#[test]
fn downmix_truncates_toward_zero() {
    let stereo: Vec<i16> = vec![0, -1, 0, 1, -3, 0];
    assert_eq!(downmix_stereo(&stereo), vec![0, 0, -1]);
}

#[test]
fn downmix_ignores_trailing_half_frame() {
    let stereo: Vec<i16> = vec![10, 20, 30];
    assert_eq!(downmix_stereo(&stereo), vec![15]);
}
