use hablara::ProsodicAnalyzer;

fn labels(pattern: &[(bool, usize)]) -> Vec<bool> {
    let mut v = Vec::new();
    for &(speech, n) in pattern {
        for _ in 0..n {
            v.push(speech);
        }
    }
    v
}

#[test]
fn test_pause_analysis_no_pauses() {
    let analyzer = ProsodicAnalyzer::new(16000);
    let vad_frames = vec![true; 100];
    let stats = analyzer.pause_stats(&vad_frames);
    let avg_duration = if stats.pause_count == 0 {
        0.0
    } else {
        stats.pause_frames as f32 / stats.pause_count as f32 * 30.0
    };
    let frequency = stats.pause_count as f32 / (stats.total_frames as f32 * 0.03);
    assert_eq!(avg_duration, 0.0, "No pauses should give 0 duration");
    assert_eq!(frequency, 0.0, "No pauses should give 0 frequency");
}

#[test]
fn test_pause_analysis_with_pauses() {
    let analyzer = ProsodicAnalyzer::new(16000);
    let vad_frames = labels(&[(true, 10), (false, 5), (true, 10), (false, 5)]);
    let stats = analyzer.pause_stats(&vad_frames);
    let avg_duration = stats.pause_frames as f32 / stats.pause_count as f32 * 30.0;
    let frequency = stats.pause_count as f32 / (stats.total_frames as f32 * 0.03);
    assert!(
        (avg_duration - 150.0).abs() < 1.0,
        "Expected ~150ms pause duration, got {}",
        avg_duration
    );
    assert!(
        frequency > 2.0 && frequency < 2.5,
        "Expected ~2.2 pauses/sec, got {}",
        frequency
    );
}

#[test]
fn pause_counts_exact() {
    let analyzer = ProsodicAnalyzer::new(16000);
    // leading noise is no pause
    let s = analyzer.pause_stats(&labels(&[(false, 2), (true, 3), (false, 4), (true, 1)]));
    assert_eq!(s.pause_count, 1);
    assert_eq!(s.pause_frames, 4);
    assert_eq!(s.total_frames, 10);
    let t = analyzer.pause_stats(&labels(&[(true, 1), (false, 2), (true, 1), (false, 3)]));
    assert_eq!((t.pause_count, t.pause_frames), (2, 5));
    let silent = analyzer.pause_stats(&[false; 5]);
    assert_eq!((silent.pause_count, silent.pause_frames), (0, 0));
    let e = analyzer.pause_stats(&[]);
    assert_eq!((e.pause_count, e.pause_frames, e.total_frames), (0, 0, 0));
}

#[test]
fn equal_pauses_give_run_length() {
    let analyzer = ProsodicAnalyzer::new(16000);
    let s = analyzer.pause_stats(&labels(&[(true, 3), (false, 4), (true, 2), (false, 4), (true, 1), (false, 4)]));
    assert_eq!(s.pause_count, 3);
    assert_eq!(s.pause_frames, 12);
    assert_eq!(s.pause_frames * 30 / s.pause_count, 120);
}

#[test]
fn prosodic_analyzer_settings() {
    let a = ProsodicAnalyzer::new(22050);
    assert_eq!(a.sample_rate(), 22050);
    assert_eq!(a.frame_size(), 512);
}
