use pink_core::codec::{decode_compact, decode_value, encode_compact, encode_value, CodecError, Output};
use parity_scale_codec::{Compact, Encode};

fn compact_bytes(n: u32) -> Vec<u8> {
    let mut out: Vec<u8> = Vec::new();
    encode_compact(n, &mut out);
    out
}

#[test]
fn round_trip_undefined() {
    let v = Output::Undefined;
    let enc = encode_value(&v);
    let (dec, used) = decode_value(&enc, 0).unwrap();
    assert_eq!(dec, Output::Undefined);
    assert_eq!(used, enc.len());
}

#[test]
fn round_trip_string() {
    let v = Output::String("x".to_string());
    let enc = encode_value(&v);
    let (dec, used) = decode_value(&enc, 0).unwrap();
    assert_eq!(dec, Output::String("x".to_string()));
    assert_eq!(used, enc.len());
}

#[test]
fn round_trip_bytes() {
    let v = Output::Bytes(vec![1u8, 2u8, 3u8]);
    let enc = encode_value(&v);
    let (dec, used) = decode_value(&enc, 0).unwrap();
    assert_eq!(dec, Output::Bytes(vec![1u8, 2u8, 3u8]));
    assert_eq!(used, enc.len());
}

#[test]
fn round_trip_unicode_string() {
    let v = Output::String("héllo ☂".to_string());
    let enc = encode_value(&v);
    let (dec, used) = decode_value(&enc, 0).unwrap();
    assert_eq!(dec, v);
    assert_eq!(used, enc.len());
}

#[test]
fn exact_wire_bytes() {
    assert_eq!(encode_value(&Output::Undefined), vec![2u8]);
    assert_eq!(encode_value(&Output::String("x".to_string())), vec![0u8, 4u8, 120u8]);
    assert_eq!(
        encode_value(&Output::Bytes(vec![1u8, 2u8, 3u8])),
        vec![1u8, 12u8, 1u8, 2u8, 3u8]
    );
}

#[test]
fn string_encoding_matches_scale() {
    let s = "a longer sample string to cross the one-byte length".to_string();
    let reference = s.encode();
    let mut ours: Vec<u8> = Vec::new();
    pink_core::codec::encode_str(&s, &mut ours);
    assert_eq!(ours, reference);
}

#[test]
fn string_vec_encoding_matches_scale() {
    let args = vec!["test".to_string(), "".to_string(), "third".to_string()];
    let reference = args.encode();
    let mut ours: Vec<u8> = Vec::new();
    pink_core::codec::encode_str_vec(&args, &mut ours);
    assert_eq!(ours, reference);
}

#[test]
fn compact_encoding_matches_scale() {
    for n in [0u32, 1, 63, 64, 255, 16383, 16384, 65536, 1073741823, 1073741824, u32::MAX] {
        assert_eq!(compact_bytes(n), Compact(n).encode(), "compact of {}", n);
    }
}

#[test]
fn compact_decode_round_trip() {
    for n in [0u32, 63, 64, 16383, 16384, 1073741823, 1073741824, u32::MAX] {
        let enc = compact_bytes(n);
        let (v, used) = decode_compact(&enc, 0).unwrap();
        assert_eq!(v, n);
        assert_eq!(used, enc.len());
    }
}

#[test]
fn decode_rejects_unknown_tag() {
    assert_eq!(decode_value(&vec![3u8], 0), Err(CodecError::UnknownTag));
    assert_eq!(decode_value(&vec![9u8, 0u8], 0), Err(CodecError::UnknownTag));
}

#[test]
fn decode_rejects_truncated() {
    assert_eq!(decode_value(&Vec::new(), 0), Err(CodecError::Truncated));
    // A string announcing 4 bytes with only 1 present.
    assert_eq!(decode_value(&vec![0u8, 16u8, 120u8], 0), Err(CodecError::Truncated));
}

#[test]
fn decode_rejects_non_canonical_length() {
    // Two-byte compact form carrying a value under 64.
    assert_eq!(decode_value(&vec![1u8, 1u8, 0u8], 0), Err(CodecError::NonCanonical));
}

#[test]
fn decode_rejects_invalid_utf8() {
    // Tag 0 (string), length 1, byte 0xFF.
    assert_eq!(decode_value(&vec![0u8, 4u8, 255u8], 0), Err(CodecError::InvalidUtf8));
}

#[test]
fn decode_ignores_bytes_before_pos() {
    let mut buf = vec![99u8, 99u8];
    buf.extend(encode_value(&Output::String("ok".to_string())));
    let (dec, used) = decode_value(&buf, 2).unwrap();
    assert_eq!(dec, Output::String("ok".to_string()));
    assert_eq!(used, buf.len());
}
