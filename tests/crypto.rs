use chaos::utils::crypto::{decode_b64, encode_b64, text_from_bytes, CryptoError};

#[test]
fn encode_known_value() {
    assert_eq!(encode_b64("hello"), "aGVsbG8=");
    assert_eq!(encode_b64(""), "");
}

#[test]
fn decode_known_value() {
    assert_eq!(decode_b64("aGVsbG8="), Ok("hello".to_string()));
}

#[test]
fn decode_round_trip() {
    let s = "{\"type\":\"offer\",\"sdp\":\"v=0\"}";
    assert_eq!(decode_b64(&encode_b64(s)), Ok(s.to_string()));
}

#[test]
fn decode_rejects_invalid_base64() {
    assert_eq!(decode_b64("not base64!"), Err(CryptoError::InvalidBase64));
}

#[test]
fn decode_rejects_invalid_utf8() {
    assert_eq!(decode_b64("/w=="), Err(CryptoError::InvalidUtf8));
}

#[test]
fn text_from_bytes_cases() {
    assert_eq!(text_from_bytes(None), Err(CryptoError::InvalidBase64));
    assert_eq!(text_from_bytes(Some(vec![0xff])), Err(CryptoError::InvalidUtf8));
    assert_eq!(text_from_bytes(Some(b"hi".to_vec())), Ok("hi".to_string()));
}
