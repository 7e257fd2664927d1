use hablara::ToneClassifier;

#[test]
fn tone_score_is_clamped() {
    assert_eq!(ToneClassifier::clamp_score(3, 1), 4);
    assert_eq!(ToneClassifier::clamp_score(5, 1), 5);
    assert_eq!(ToneClassifier::clamp_score(1, -1), 1);
    assert_eq!(ToneClassifier::clamp_score(i32::MAX, i32::MAX), 5);
    assert_eq!(ToneClassifier::clamp_score(i32::MIN, -1), 1);
}
