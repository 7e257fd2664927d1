use hablara::{correct_size, position_is_visible, MonitorBounds, DEFAULT_HEIGHT, DEFAULT_WIDTH, MAX_HEIGHT, MAX_WIDTH};

#[test]
fn test_size_constants_are_sane() {
    assert!(DEFAULT_WIDTH < MAX_WIDTH);
    assert!(DEFAULT_HEIGHT < MAX_HEIGHT);
    assert!(DEFAULT_WIDTH >= 800);
    assert!(MAX_WIDTH <= 7680);
}

#[test]
fn test_logical_size_within_bounds() {
    let (corrected_width, corrected_height) = correct_size(1500, 1600);
    assert_eq!(corrected_width, 1500);
    assert_eq!(corrected_height, 1600);
}

#[test]
fn test_logical_size_at_default() {
    let (corrected_width, corrected_height) = correct_size(DEFAULT_WIDTH, DEFAULT_HEIGHT);
    assert_eq!(corrected_width, DEFAULT_WIDTH);
    assert_eq!(corrected_height, DEFAULT_HEIGHT);
}

#[test]
fn test_logical_size_below_default_plugin_bug_251() {
    let (corrected_width, corrected_height) = correct_size(1024, 768);
    assert_eq!(corrected_width, DEFAULT_WIDTH);
    assert_eq!(corrected_height, DEFAULT_HEIGHT);
}

#[test]
fn test_logical_size_zero_plugin_bug_251() {
    let (corrected_width, corrected_height) = correct_size(0, 0);
    assert_eq!(corrected_width, DEFAULT_WIDTH);
    assert_eq!(corrected_height, DEFAULT_HEIGHT);
}

#[test]
fn test_logical_size_above_max() {
    let (corrected_width, corrected_height) = correct_size(5000, 3000);
    assert_eq!(corrected_width, MAX_WIDTH);
    assert_eq!(corrected_height, MAX_HEIGHT);
}

#[test]
fn test_dpi_scaling_conversion() {
    let physical_width = 2560_u32;
    let physical_height = 2880_u32;
    let scale_factor = 2.0_f64;
    let logical_width = (physical_width as f64 / scale_factor).round() as u32;
    let logical_height = (physical_height as f64 / scale_factor).round() as u32;
    assert_eq!(logical_width, 1280);
    assert_eq!(logical_height, 1440);
}

#[test]
fn test_dpi_scaling_conversion_non_integer() {
    let physical_width = 1600_u32;
    let physical_height = 1000_u32;
    let scale_factor = 1.25_f64;
    let logical_width = (physical_width as f64 / scale_factor).round() as u32;
    let logical_height = (physical_height as f64 / scale_factor).round() as u32;
    assert_eq!(logical_width, 1280);
    assert_eq!(logical_height, 800);
}

#[test]
fn test_position_conversion_logical() {
    let physical_x = 5120_i32;
    let physical_y = 272_i32;
    let scale_factor = 2.0_f64;
    let logical_x = (physical_x as f64 / scale_factor).round() as i32;
    let logical_y = (physical_y as f64 / scale_factor).round() as i32;
    assert_eq!(logical_x, 2560);
    assert_eq!(logical_y, 136);
}

#[test]
fn window_position_on_second_monitor() {
    let monitors = [
        MonitorBounds { x: 0, y: 0, width: 1920, height: 1080 },
        MonitorBounds { x: 1920, y: -500, width: 3840, height: 2160 },
    ];
    assert!(position_is_visible(2000, 0, 1280, 1440, &monitors));
    assert!(!position_is_visible(100, 100, 1280, 1440, &monitors));
    assert!(!position_is_visible(5000, 0, 1280, 1440, &monitors));
    assert!(!position_is_visible(0, 0, 10, 10, &[]));
}
