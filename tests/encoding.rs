use hablara::{decode_audio_base64, encode_audio_base64};

#[test]
fn base64_round_trip() {
    let bytes = vec![0u8, 1, 2, 250, 255, 82, 73];
    let text = encode_audio_base64(&bytes);
    assert_eq!(text, "AAEC+v9SSQ==");
    assert_eq!(decode_audio_base64(&text).unwrap(), bytes);
}

#[test]
fn base64_invalid_text() {
    let err = decode_audio_base64("not*base64").unwrap_err();
    assert!(err.starts_with("Failed to decode audio: "));
    assert_eq!(encode_audio_base64(&[]), "");
}
