use hablara::parse_whisper_stdout;

#[test]
fn whisper_joins_timestamped_lines() {
    let out = "[00:00:00.000 --> 00:00:02.000]   Hallo Welt\n[00:00:02.000 --> 00:00:04.000]  wie geht's?\n";
    assert_eq!(parse_whisper_stdout(out), Some("Hallo Welt wie geht's?".to_string()));
}

#[test]
fn whisper_skips_markers_and_artifacts() {
    let out = "[00:00:00.000 --> 00:00:01.000]   [Musik]\n\
               [00:00:01.000 --> 00:00:02.000]   ...\n\
               [00:00:02.000 --> 00:00:03.000]   Ähm\n\
               [00:00:03.000 --> 00:00:04.000]   Thanks for watching!\n\
               [00:00:04.000 --> 00:00:05.000]   Echter Text\n";
    assert_eq!(parse_whisper_stdout(out), Some("Echter Text".to_string()));
}

#[test]
fn whisper_none_without_speech() {
    assert_eq!(parse_whisper_stdout(""), None);
    assert_eq!(parse_whisper_stdout("whisper_init: loading model\n\n"), None);
    assert_eq!(parse_whisper_stdout("[00:00:00.000 --> 00:00:01.000]   [BLANK_AUDIO]\r\n"), None);
    assert_eq!(parse_whisper_stdout("[no arrow] text"), None);
}

#[test]
fn whisper_handles_crlf_and_indent() {
    let out = "  [00:00:00.000 --> 00:00:02.000]  eins \r\n[00:00:02.000 --> 00:00:03.000]zwei\r\n";
    assert_eq!(parse_whisper_stdout(out), Some("eins zwei".to_string()));
}
