use hablara::{
    get_default_storage_path, storage_path_below, RecordingSummary, StorageConfig, StorageManager,
};

#[test]
fn test_storage_config_default() {
    let config = StorageConfig::default();
    assert!(config.max_recordings > 0);
    assert!(
        config.storage_path.to_lowercase().contains("hablara"),
        "Storage path should contain 'hablara': {}",
        config.storage_path
    );
}

#[test]
fn test_storage_manager_config() {
    let mut manager = StorageManager::new();
    let config = manager.get_config().unwrap();
    assert!(config.max_recordings > 0);

    let mut updated = config.duplicate();
    updated.max_recordings = 50;
    manager.update_config(updated).unwrap();

    let new_config = manager.get_config().unwrap();
    assert_eq!(new_config.max_recordings, 50);
}

#[test]
fn test_storage_path_ends_with_recordings() {
    let path = get_default_storage_path();
    assert!(path.ends_with("recordings"));
}

#[test]
fn test_direct_linux_uses_xdg() {
    let path = get_default_storage_path();
    assert!(path.contains(".local/share"));
}

#[test]
fn storage_path_below_base() {
    assert_eq!(storage_path_below("/data"), "/data/hablara/recordings");
}

#[test]
fn storage_stats_sum_recordings() {
    let manager = StorageManager::with_config(StorageConfig::with_storage_path("/r".to_string()));
    let recs = [
        RecordingSummary { file_size: 100, duration_ms: 3000 },
        RecordingSummary { file_size: 50, duration_ms: 1500 },
    ];
    let stats = manager.get_storage_stats(&recs).unwrap();
    assert_eq!(stats.recording_count, 2);
    assert_eq!(stats.total_size_bytes, 150);
    assert_eq!(stats.total_duration_ms, 4500);
    assert_eq!(stats.storage_path, "/r");
    assert_eq!(stats.max_recordings, 100);
    assert_eq!(manager.recordings_to_delete(130), 30);
    assert_eq!(manager.recordings_to_delete(70), 0);
}
