use hablara::{SmoothedVad, VadFrame, VadPipeline, VAD_FRAME_SIZE};

fn frame(v: f32) -> Vec<f32> {
    vec![v; VAD_FRAME_SIZE]
}

fn payload_len(f: &VadFrame<f32>) -> Option<usize> {
    match f {
        VadFrame::Speech(v) => Some(v.len()),
        VadFrame::Noise => None,
    }
}

#[test]
fn smoothed_onset_needs_two_voice_frames() {
    let mut vad: SmoothedVad<f32> = SmoothedVad::new(15, 15, 2);
    let f = frame(0.1);
    assert_eq!(payload_len(&vad.push_decision(&f, true)), None);
    let out = vad.push_decision(&f, true);
    // confirmed speech carries the buffered frame and the current one
    assert_eq!(payload_len(&out), Some(2 * VAD_FRAME_SIZE));
    assert!(vad.is_in_speech());
}

#[test]
fn smoothed_broken_onset_stays_silent() {
    let mut vad: SmoothedVad<f32> = SmoothedVad::new(3, 3, 3);
    let f = frame(0.1);
    assert!(!vad.push_decision(&f, true).is_speech());
    assert!(!vad.push_decision(&f, true).is_speech());
    assert!(!vad.push_decision(&f, false).is_speech());
    assert!(!vad.push_decision(&f, true).is_speech());
    assert!(!vad.push_decision(&f, true).is_speech());
    assert!(vad.push_decision(&f, true).is_speech());
}

#[test]
fn smoothed_prefill_is_bounded() {
    let mut vad: SmoothedVad<f32> = SmoothedVad::new(2, 0, 5);
    let f = frame(0.2);
    for _ in 0..4 {
        assert!(!vad.push_decision(&f, true).is_speech());
    }
    // at most prefill + 1 frames are emitted at onset
    assert_eq!(payload_len(&vad.push_decision(&f, true)), Some(3 * VAD_FRAME_SIZE));
}

#[test]
fn smoothed_hangover_keeps_trailing_frames() {
    let mut vad: SmoothedVad<f32> = SmoothedVad::new(0, 2, 1);
    let f = frame(0.3);
    assert_eq!(payload_len(&vad.push_decision(&f, true)), Some(VAD_FRAME_SIZE));
    assert!(vad.push_decision(&f, false).is_speech());
    assert!(vad.push_decision(&f, false).is_speech());
    assert!(!vad.push_decision(&f, false).is_speech());
    assert!(!vad.is_in_speech());
}

#[test]
fn smoothed_reset_clears_state() {
    let mut vad: SmoothedVad<f32> = SmoothedVad::new(1, 5, 1);
    let f = frame(0.3);
    assert!(vad.push_decision(&f, true).is_speech());
    vad.reset();
    assert!(!vad.is_in_speech());
    assert!(!vad.push_decision(&f, false).is_speech());
}

#[test]
fn pipeline_empty_input() {
    let mut p: VadPipeline<f32> = VadPipeline::new();
    let r = p.filter_audio(&[], &[]);
    assert!(r.samples.is_empty());
    assert_eq!(r.speech_duration_ms, 0);
    assert_eq!(r.total_duration_ms, 0);
}

#[test]
fn pipeline_filters_and_times() {
    let mut p: VadPipeline<f32> = VadPipeline::with_params(1, 1, 2);
    // 6 whole frames and 10 trailing samples; frame k holds the value k
    let mut samples = Vec::new();
    for k in 0..6 {
        samples.extend(frame(k as f32));
    }
    samples.extend(vec![9.0f32; 10]);
    let voice = [false, true, true, false, false, false];
    let r = p.filter_audio(&samples, &voice);
    // frame 2 confirms speech with frame 1 as pre-roll; frame 3 is hangover
    assert_eq!(r.speech_frames, 2);
    assert_eq!(r.total_frames, 6);
    assert_eq!(r.speech_duration_ms, 60);
    assert_eq!(r.total_duration_ms, 180);
    assert_eq!(r.samples.len(), 3 * VAD_FRAME_SIZE);
    assert_eq!(r.samples[0], 1.0);
    assert_eq!(r.samples[VAD_FRAME_SIZE], 2.0);
    assert_eq!(r.samples[2 * VAD_FRAME_SIZE], 3.0);
}

#[test]
fn pipeline_appends_tail_in_speech() {
    let mut p: VadPipeline<f32> = VadPipeline::with_params(0, 5, 1);
    let mut samples = frame(0.5);
    samples.extend(vec![0.25f32; 7]);
    let r = p.filter_audio(&samples, &[true]);
    assert_eq!(r.samples.len(), VAD_FRAME_SIZE + 7);
    assert_eq!(r.samples[VAD_FRAME_SIZE + 6], 0.25);
}

#[test]
fn pipeline_no_tail_in_silence() {
    let mut p: VadPipeline<f32> = VadPipeline::new();
    let mut samples = frame(0.5);
    samples.extend(vec![0.25f32; 7]);
    let r = p.filter_audio(&samples, &[false]);
    assert!(r.samples.is_empty());
    assert_eq!(r.total_duration_ms, 30);
}

#[test]
fn pipeline_has_speech_uses_smoothed_output() {
    let mut p: VadPipeline<f32> = VadPipeline::new();
    let samples = vec![0.1f32; 40 * VAD_FRAME_SIZE];
    assert!(!p.has_speech(&[], &[]));
    // one voice frame is not confirmed with the default onset of two frames
    assert!(!p.has_speech(&samples, &[false, false, true]));
    assert!(p.has_speech(&samples, &[false, true, true]));
    // speech confirmed only at the 31st frame is not looked at
    let mut late = vec![false; 29];
    late.push(true);
    late.push(true);
    assert!(!p.has_speech(&samples, &late));
    // the state is reset afterwards: a lone voice frame stays unconfirmed
    assert!(p.has_speech(&samples, &[true, true]));
    assert!(!p.has_speech(&samples, &[true]));
}

#[test]
fn pipeline_one_second_is_long_enough() {
    let mut p: VadPipeline<f32> = VadPipeline::with_params(0, 0, 1);
    let samples = vec![0.5f32; 34 * VAD_FRAME_SIZE];
    let mut voice = vec![true; 34];
    let r = p.filter_audio(&samples, &voice);
    assert_eq!(r.samples.len(), 16320);
    assert!(r.long_enough());
    p.reset();
    voice[33] = false;
    voice[32] = false;
    let r = p.filter_audio(&samples, &voice);
    assert_eq!(r.samples.len(), 15360);
    assert!(!r.long_enough());
}
