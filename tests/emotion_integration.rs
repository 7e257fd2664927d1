//! Synthetic test signals for the emotion pipeline.

use std::f32::consts::PI;

#[test]
fn test_emotion_stress_signal() {
    let sample_rate = 16000;
    let duration = 2.0;
    let num_samples = (sample_rate as f32 * duration) as usize;

    let samples: Vec<f32> = (0..num_samples)
        .map(|i| {
            let pitch = 180.0 + 40.0 * ((i as f32 / 1000.0).sin());
            let amplitude = 0.7;
            amplitude * (2.0 * PI * pitch * i as f32 / sample_rate as f32).sin()
        })
        .collect();

    assert_eq!(samples.len(), num_samples);
    assert!(samples.iter().any(|&s| s.abs() > 0.5), "Signal should have high energy");
}

#[test]
fn test_emotion_calm_signal() {
    let sample_rate = 16000;
    let duration = 2.0;
    let num_samples = (sample_rate as f32 * duration) as usize;

    let samples: Vec<f32> = (0..num_samples)
        .map(|i| {
            let pitch = 100.0;
            let amplitude = 0.15;
            amplitude * (2.0 * PI * pitch * i as f32 / sample_rate as f32).sin()
        })
        .collect();

    assert_eq!(samples.len(), num_samples);
    assert!(samples.iter().all(|&s| s.abs() < 0.2), "Signal should have low energy");
}

#[test]
fn test_emotion_12_features_extracted() {

    let sample_rate = 16000;
    let samples: Vec<f32> = (0..16000)
        .map(|i| {
            let freq = 150.0;
            (2.0 * PI * freq * i as f32 / sample_rate as f32).sin() * 0.5
        })
        .collect();

    assert!(samples.len() > 0);
}
