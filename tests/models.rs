use hablara::get_known_model_info;

#[test]
fn test_get_known_model_info_german_turbo() {
    let info = get_known_model_info("whisper-large-v3-turbo-german-f16");
    assert!(info.is_some());
    let info = info.unwrap();
    assert_eq!(info.id, "german-turbo");
    assert_eq!(info.display_name, "GERMAN TURBO");
    assert_eq!(info.size_estimate, Some("~1.6GB".to_string()));
}

#[test]
fn test_get_known_model_info_large_v3() {
    let info = get_known_model_info("whisper-large-v3-f16");
    assert!(info.is_some());
    let info = info.unwrap();
    assert_eq!(info.id, "large-v3");
    assert_eq!(info.display_name, "LARGE V3");
    assert_eq!(info.size_estimate, Some("~2.9GB".to_string()));
}

#[test]
fn test_get_known_model_info_unknown() {
    let info = get_known_model_info("whisper-unknown-model");
    assert!(info.is_none());
}

#[test]
fn test_get_known_model_info_non_whisper() {
    let info = get_known_model_info("some-other-directory");
    assert!(info.is_none());
}

#[test]
fn model_info_keeps_directory_and_description() {
    let info = get_known_model_info("mlx-whisper-tiny").unwrap();
    assert_eq!(info.id, "tiny");
    assert_eq!(info.directory, "mlx-whisper-tiny");
    assert_eq!(info.description, Some("Tiny Modell".to_string()));
    // turbo without german does not match the first entry
    assert!(get_known_model_info("whisper-turbo").is_none());
}
