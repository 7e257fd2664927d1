use hablara::{format_score, pick_config, ConfigRange, SampleFormat};

fn range(min_rate: u32, max_rate: u32, format: SampleFormat) -> ConfigRange {
    ConfigRange { min_rate, max_rate, format }
}

#[test]
fn config_prefers_float_then_i16() {
    let ranges = [
        range(8000, 48000, SampleFormat::I32),
        range(44100, 48000, SampleFormat::F32),
        range(8000, 96000, SampleFormat::I16),
        range(8000, 96000, SampleFormat::F32),
    ];
    assert_eq!(pick_config(&ranges, 16000), Some(3));
    assert_eq!(pick_config(&ranges[..3], 16000), Some(2));
}

#[test]
fn config_none_when_rate_unsupported() {
    let ranges = [range(44100, 48000, SampleFormat::F32)];
    assert_eq!(pick_config(&ranges, 16000), None);
    assert_eq!(pick_config(&[], 16000), None);
}

#[test]
fn config_first_of_equal_rank_wins() {
    let ranges = [range(8000, 48000, SampleFormat::U8), range(8000, 48000, SampleFormat::I8)];
    assert_eq!(pick_config(&ranges, 16000), Some(0));
    assert_eq!(format_score(SampleFormat::F32), 4);
    assert_eq!(format_score(SampleFormat::Other), 1);
}
