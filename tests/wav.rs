use hablara::{samples_to_wav_bytes, validate_audio, wav_bytes_to_samples, WavError};

#[test]
fn wav_round_trip_keeps_samples() {
    let samples: Vec<i16> = vec![0, 1, -1, 32767, -32768, 1234, -4321];
    let bytes = samples_to_wav_bytes(&samples, 16000);
    assert_eq!(bytes.len(), 44 + 2 * samples.len());
    let d = wav_bytes_to_samples(&bytes).unwrap();
    assert_eq!(d.sample_rate, 16000);
    assert_eq!(d.channels, 1);
    assert_eq!(d.bits_per_sample, 16);
    assert_eq!(d.samples, samples);
}

#[test]
fn wav_header_layout() {
    let bytes = samples_to_wav_bytes(&[0x0102], 48000);
    assert_eq!(&bytes[0..4], b"RIFF");
    assert_eq!(&bytes[4..8], &38u32.to_le_bytes());
    assert_eq!(&bytes[8..16], b"WAVEfmt ");
    assert_eq!(&bytes[24..28], &48000u32.to_le_bytes());
    assert_eq!(&bytes[28..32], &96000u32.to_le_bytes());
    assert_eq!(&bytes[36..40], b"data");
    assert_eq!(&bytes[40..44], &2u32.to_le_bytes());
    assert_eq!(&bytes[44..46], &[0x02, 0x01]);
}

#[test]
fn wav_too_short() {
    assert!(matches!(wav_bytes_to_samples(&[0u8; 43]), Err(WavError::TooShort)));
    let d = wav_bytes_to_samples(&[0u8; 44]).unwrap();
    assert!(d.samples.is_empty());
}

#[test]
fn wav_odd_trailing_byte_ignored() {
    let mut bytes = samples_to_wav_bytes(&[-2, 7], 16000);
    bytes.push(0xff);
    assert_eq!(wav_bytes_to_samples(&bytes).unwrap().samples, vec![-2, 7]);
}

#[test]
fn validate_audio_rejects_short_and_quiet() {
    let short = samples_to_wav_bytes(&vec![10000i16; 100], 16000);
    assert!(!validate_audio(&short));
    let quiet = samples_to_wav_bytes(&vec![100i16; 16000], 16000);
    assert!(!validate_audio(&quiet));
    let loud = samples_to_wav_bytes(&vec![1000i16; 16000], 16000);
    assert!(validate_audio(&loud));
}

#[test]
fn validate_audio_threshold_is_one_percent_rms() {
    // 328 / 32768 is just above 0.01, 327 / 32768 just below
    assert!(validate_audio(&samples_to_wav_bytes(&vec![328i16; 16000], 16000)));
    assert!(!validate_audio(&samples_to_wav_bytes(&vec![327i16; 16000], 16000)));
}

#[test]
fn wav_byte_rate_wraps_for_huge_rates() {
    let bytes = samples_to_wav_bytes(&[5], u32::MAX);
    assert_eq!(&bytes[28..32], &u32::MAX.wrapping_mul(2).to_le_bytes());
    let d = wav_bytes_to_samples(&bytes).unwrap();
    assert_eq!(d.sample_rate, u32::MAX);
    assert_eq!(d.samples, vec![5]);
}
