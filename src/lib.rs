//! Speech-capture and voice-activity core of the Hablara recorder.
//!
//! The modules hold the parts of the pipeline that decide: voice-activity
//! smoothing and segmentation, frame re-chunking, the bounded recording
//! session, the 16-bit PCM container codec, pause statistics, device
//! configuration choice and a few small policies of the desktop shell.
//! It also holds the text handling around transcription (output parsing and
//! clean-up), the transfer encoding, and storage settings.
//!
//! Floating-point sample values are opaque to this crate: the buffers are
//! generic over the sample type, the container codec works on 16-bit PCM,
//! and the signal arithmetic (levels, spectra, pitch, the classifiers'
//! thresholds) lives with the caller.

mod chars;
mod chunker;
mod device;
mod encoding;
mod models;
mod pipeline;
mod platform;
mod prosodic;
mod session;
mod smoothed;
mod storage;
mod text;
mod types;
mod wav;
mod whisper;
mod window;

pub use smoothed::{
    concat_frames, keep_last, lemma_hangover_keeps_speech, lemma_onset_needs_consecutive_voice,
    lemma_speech_output_size, push_model, run_state, smooth_step, speech_flags, state_wf, uniform,
    SmoothedVad, SmootherState, VadFrame,
};
pub use pipeline::{
    count_true, lemma_run_follows_flags, frames_of, run_model, VadPipeline, VadResult, DEFAULT_HANGOVER, DEFAULT_ONSET, DEFAULT_PREFILL,
    HAS_SPEECH_MAX_FRAMES, MIN_SPEECH_SAMPLES, VAD_FRAME_DURATION_MS, VAD_FRAME_SIZE, WHISPER_SAMPLE_RATE,
};
pub use chunker::{frame_samples_for, frame_samples_spec, FrameChunker};
pub use session::{
    cap_model, lemma_cap_halts_growth, record_all, record_model, RecordingSession,
    MAX_RECORDING_DURATION_SECS, MAX_RECORDING_SAMPLES, SHUTDOWN_TIMEOUT_MS,
};
pub use wav::{
    le16, le32, lemma_wav_round_trip, pcm_bytes, pcm_samples, read_le16, read_le32, sample_bits,
    sample_of_bits, samples_to_wav_bytes, sum_squares, validate_audio, wav_bytes_to_samples,
    wav_encoding, wav_header, WavData, WavError, MIN_AUDIO_BYTES, WAV_HEADER_LEN,
};
pub use prosodic::{
    lemma_equal_pauses, lemma_no_noise_no_pauses, noise_frames, noise_run, pause_count,
    any_speech, pause_pattern, pause_starts_at, speech_run, PauseStats, ProsodicAnalyzer,
    PROSODIC_FRAME_SIZE,
};
pub use device::{format_rank, format_score, pick_config, supports, ConfigRange, SampleFormat};
pub use types::{
    clamped_score, emotion_label, CognitiveDistortion, CognitiveDistortionResult, CpalDeviceInfo,
    EmotionClassifier, EmotionType, FourSidesAnalysis, GfkAnalysis, KeyringDiagnostics,
    MlxModelInfo, MlxPaths, MlxWhisperStatus, SecurityError, TextFilterMeta, ToneClassifier,
    TranscriptionMeta, WhisperStatus,
};
pub use window::{
    bounded, correct_size, fits_in, position_is_visible, MonitorBounds, DEFAULT_HEIGHT,
    DEFAULT_WIDTH, MAX_HEIGHT, MAX_WIDTH,
};
pub use chars::{chars_contain, chars_occur_at, occurs_at, seq_contains, seq_starts_with, to_chars};
pub use platform::{
    expand_tilde, expand_tilde_with, expanded, join_path, get_plist_path, get_target_triple, is_mlx_available, long_path, setup_hint, target_triple,
    thread_count, to_long_path, validate_params, whisper_binary_name, TargetArch, TargetOs,
    DEFAULT_WHISPER_THREADS, MAX_KEYRING_PARAM_BYTES, MAX_SHORT_PATH_BYTES, MAX_WHISPER_THREADS,
    PLIST_NAME,
};
pub use models::{entry_matches, first_match, get_known_model_info, known_model, KNOWN_MODEL_COUNT};
pub use storage::{
    fallback_storage_path, get_default_storage_path, recordings_below, storage_path_below,
    total_duration, total_size, RecordingSummary, StorageConfig, StorageManager, StorageStats,
    DEFAULT_MAX_RECORDINGS, DEFAULT_MAX_USER_STORAGE_MB,
};
pub use text::{
    alphabetic, collapse_from, collapse_stutters, collapse_text, filler_pattern, filler_word,
    filter_transcription_output, filtered_text, hallucination_marker, is_regex_meta, has_hallucination, is_whitespace,
    is_ws, join_words, lower_of, next_word, regex_escaped, regex_replaced, repeat_run, replaced_or_kept, short_alpha,
    split_from, strip_fillers, trim_end, trim_start, trim_whitespace, trim_ws, utf8_len, utf8_width,
    words_of, FILLER_COUNT, HALLUCINATION_COUNT,
};
pub use whisper::{
    artifact, first_at, is_noise, line_text, lines_from, lines_of, noise_marker, parse_whisper_stdout,
    texts_of, transcript_of, ARTIFACT_COUNT, NOISE_MARKER_COUNT,
};
pub use encoding::{base64_decoded, base64_of, decode_audio_base64, encode_audio_base64};
