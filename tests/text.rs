use hablara::{collapse_stutters, filter_transcription_output};

#[test]
fn test_filter_filler_words() {
    let text = "So um I was thinking uh about this";
    let result = filter_transcription_output(text);
    assert_eq!(result, "So I was thinking about this");
}

#[test]
fn test_filter_filler_words_case_insensitive() {
    let text = "UM this is UH a test";
    let result = filter_transcription_output(text);
    assert_eq!(result, "this is a test");
}

#[test]
fn test_filter_hallucination_zdf() {
    let text = "Untertitelung des ZDF, 2020";
    let result = filter_transcription_output(text);
    assert_eq!(result, "");  // Should return empty for hallucination
}

#[test]
fn test_filter_hallucination_case_insensitive() {
    let text = "UNTERTITELUNG DES ZDF";
    let result = filter_transcription_output(text);
    assert_eq!(result, "");
}

#[test]
fn test_filter_hallucination_partial_match() {
    let text = "Some text with untertitelung des zdf in it";
    let result = filter_transcription_output(text);
    assert_eq!(result, "");  // Entire text rejected if contains hallucination
}

#[test]
fn test_filter_german_filler_words() {
    let text = "Also äh ich denke ähm dass das richtig ist";
    let result = filter_transcription_output(text);
    assert_eq!(result, "ich denke dass das richtig ist");
}

#[test]
fn test_filter_filler_words_with_punctuation() {
    let text = "Well, um, I think, uh. that's right";
    let result = filter_transcription_output(text);
    assert_eq!(result, "Well, I think, that's right");
}

#[test]
fn test_filter_cleans_whitespace() {
    let text = "Hello    world   test";
    let result = filter_transcription_output(text);
    assert_eq!(result, "Hello world test");
}

#[test]
fn test_filter_trims() {
    let text = "  Hello world  ";
    let result = filter_transcription_output(text);
    assert_eq!(result, "Hello world");
}

#[test]
fn test_filter_combined() {
    let text = "  Um, so I was, uh, thinking about this  ";
    let result = filter_transcription_output(text);
    assert_eq!(result, "so I was, thinking about this");
}

#[test]
fn test_filter_preserves_valid_text() {
    let text = "This is a completely normal sentence.";
    let result = filter_transcription_output(text);
    assert_eq!(result, "This is a completely normal sentence.");
}

#[test]
fn test_filter_stutter_collapse() {
    let text = "w wh wh wh wh wh wh wh wh wh why";
    let result = filter_transcription_output(text);
    assert_eq!(result, "w wh why");
}

#[test]
fn test_filter_stutter_short_words() {
    let text = "I I I I think so so so so";
    let result = filter_transcription_output(text);
    assert_eq!(result, "I think so");
}

#[test]
fn test_filter_stutter_mixed_case() {
    let text = "No NO no NO no";
    let result = filter_transcription_output(text);
    assert_eq!(result, "No");
}

#[test]
fn test_filter_stutter_preserves_two_repetitions() {
    let text = "no no is fine";
    let result = filter_transcription_output(text);
    assert_eq!(result, "no no is fine");
}

#[test]
fn test_empty_string() {
    let text = "";
    let result = filter_transcription_output(text);
    assert_eq!(result, "");
}

#[test]
fn test_only_filler_words() {
    let text = "um uh hmm äh";
    let result = filter_transcription_output(text);
    assert_eq!(result, "");
}

#[test]
fn collapse_keeps_text_without_words() {
    assert_eq!(collapse_stutters("   "), "   ");
    assert_eq!(collapse_stutters(""), "");
}

#[test]
fn collapse_joins_words_with_single_spaces() {
    assert_eq!(collapse_stutters(" a\tb  c "), "a b c");
    assert_eq!(collapse_stutters("ab ab ab abc"), "ab abc");
    assert_eq!(collapse_stutters("abc abc abc"), "abc abc abc");
}
