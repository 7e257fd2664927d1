use hablara::{
    RecordingSession, MAX_RECORDING_DURATION_SECS, MAX_RECORDING_SAMPLES, SHUTDOWN_TIMEOUT_MS,
    WHISPER_SAMPLE_RATE,
};

#[test]
fn test_max_recording_constants() {
    assert_eq!(MAX_RECORDING_DURATION_SECS, 1800);
    assert_eq!(
        MAX_RECORDING_SAMPLES,
        1800 * (WHISPER_SAMPLE_RATE as usize),
        "MAX_RECORDING_SAMPLES should be 30 minutes worth of samples at 16kHz"
    );
}

#[test]
fn test_shutdown_timeout_constant() {
    assert_eq!(SHUTDOWN_TIMEOUT_MS, 2000);
}

#[test]
fn test_oom_prevention_samples_calculation() {
    let expected = 1800 * 16000;
    assert_eq!(MAX_RECORDING_SAMPLES, expected);
    let estimated_bytes = MAX_RECORDING_SAMPLES * std::mem::size_of::<f32>();
    assert!(
        estimated_bytes < 200_000_000,
        "Max memory usage should be under 200MB, got {}MB",
        estimated_bytes / 1_000_000
    );
}

#[test]
fn session_stop_without_start_is_empty() {
    let mut s: RecordingSession<f32> = RecordingSession::new();
    s.record_frame(&[0.5; 4]);
    assert!(s.stop().is_empty());
}

#[test]
fn session_keeps_frames_while_recording() {
    let mut s: RecordingSession<f32> = RecordingSession::new();
    s.start();
    s.record_frame(&[0.5, 0.25]);
    s.record_frame(&[0.125]);
    assert!(!s.enforce_cap());
    assert_eq!(s.stop(), vec![0.5, 0.25, 0.125]);
    assert!(!s.is_recording());
}

#[test]
fn session_cap_halts_growth_and_keeps_buffer() {
    let mut s: RecordingSession<f32> = RecordingSession::with_cap(4);
    s.start();
    s.record_frame(&[1.0, 2.0, 3.0]);
    assert!(!s.enforce_cap());
    s.record_frame(&[4.0, 5.0]);
    assert!(s.enforce_cap());
    s.record_frame(&[6.0]);
    s.flush_frame(&[7.0]);
    assert!(!s.enforce_cap());
    assert_eq!(s.stop(), vec![1.0, 2.0, 3.0, 4.0, 5.0]);
}

#[test]
fn session_start_clears_buffer() {
    let mut s: RecordingSession<f32> = RecordingSession::with_cap(100);
    s.start();
    s.record_frame(&[1.0]);
    s.start();
    s.record_frame(&[2.0]);
    assert_eq!(s.stop(), vec![2.0]);
}

#[test]
fn session_flush_without_start_keeps_nothing() {
    let mut s: RecordingSession<f32> = RecordingSession::new();
    s.flush_frame(&[0.0; 480]);
    assert!(s.stop().is_empty());
}

#[test]
fn session_flush_while_recording_keeps_frame() {
    let mut s: RecordingSession<f32> = RecordingSession::new();
    s.start();
    s.flush_frame(&[0.5, 0.0]);
    assert_eq!(s.stop(), vec![0.5, 0.0]);
}
