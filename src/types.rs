//! Plain records exchanged with the application shell.
use vstd::prelude::*;

verus! {

/// Emotion labels of the classifier.
#[derive(Clone, Copy, Debug, PartialEq, Eq)]
pub enum EmotionType {
    Neutral,
    Calm,
    Stress,
    Excitement,
    Uncertainty,
    Frustration,
    Joy,
    Doubt,
    Conviction,
    Aggression,
}

/// The snake-case name of a label.
pub open spec fn emotion_label(e: EmotionType) -> &'static str {
    match e {
        EmotionType::Neutral => "neutral",
        EmotionType::Calm => "calm",
        EmotionType::Stress => "stress",
        EmotionType::Excitement => "excitement",
        EmotionType::Uncertainty => "uncertainty",
        EmotionType::Frustration => "frustration",
        EmotionType::Joy => "joy",
        EmotionType::Doubt => "doubt",
        EmotionType::Conviction => "conviction",
        EmotionType::Aggression => "aggression",
    }
}

impl EmotionType {
    /// The snake-case name of the label.
    pub fn as_str(&self) -> (r: &'static str)
        ensures
            r == emotion_label(*self),
    {
        match self {
            EmotionType::Neutral => "neutral",
            EmotionType::Calm => "calm",
            EmotionType::Stress => "stress",
            EmotionType::Excitement => "excitement",
            EmotionType::Uncertainty => "uncertainty",
            EmotionType::Frustration => "frustration",
            EmotionType::Joy => "joy",
            EmotionType::Doubt => "doubt",
            EmotionType::Conviction => "conviction",
            EmotionType::Aggression => "aggression",
        }
    }
}

/// The rule-table emotion classifier (its rules work on the real-valued
/// features and stand with the caller).
pub struct EmotionClassifier;

/// The five-dimension tone classifier (its scoring works on the real-valued
/// features and stands with the caller).
pub struct ToneClassifier;

/// A tone score: `base` moved by `adjust`, kept within 1..=5.
pub open spec fn clamped_score(base: int, adjust: int) -> int {
    if base + adjust < 1 {
        1
    } else if base + adjust > 5 {
        5
    } else {
        base + adjust
    }
}

impl ToneClassifier {
    /// A tone score from a step-function level and its correction, clamped
    /// to the 1..=5 scale.
    pub fn clamp_score(base: i32, adjust: i32) -> (r: u8)
        ensures
            r == clamped_score(base as int, adjust as int),
            1 <= r <= 5,
    {
        let v = base as i64 + adjust as i64;
        if v < 1 {
            1
        } else if v > 5 {
            5
        } else {
            v as u8
        }
    }
}

/// An audio input device as shown to the user.
pub struct CpalDeviceInfo {
    pub index: String,
    pub name: String,
    pub is_default: bool,
    pub sample_rate: u32,
}

/// State of the OS credential store.
pub struct KeyringDiagnostics {
    pub available: bool,
    pub os: String,
    pub error: Option<String>,
}

/// Where the local language-model runtime lives.
pub struct MlxPaths {
    pub python_path: String,
    pub models_dir: String,
}

/// State of the local MLX transcription runtime.
pub struct MlxWhisperStatus {
    pub available: bool,
    pub python_path: Option<String>,
    pub script_path: Option<String>,
    pub models: Vec<String>,
    pub error: Option<String>,
}

/// A known MLX transcription model found on disk.
pub struct MlxModelInfo {
    pub id: String,
    pub display_name: String,
    pub directory: String,
    pub size_estimate: Option<String>,
    pub description: Option<String>,
}

/// State of the whisper.cpp transcription binary.
pub struct WhisperStatus {
    pub installed: bool,
    pub binary_path: Option<String>,
    pub models: Vec<String>,
    pub error: Option<String>,
}

/// Why a path was refused.
pub enum SecurityError {
    PathTraversal(String),
    NotInAllowedDir(String),
    SymlinkNotAllowed(String),
    InvalidExtension { expected: String, got: String },
    FileTooLarge { size: u64, limit: u64 },
    Io(String),
    PathNotFound(String),
    InvalidStoragePath(String),
}

/// Transcription details kept with a recording.
pub struct TranscriptionMeta {
    pub text: String,
    pub provider: String,
    pub model: String,
    pub language: String,
    pub processing_time_ms: u64,
}

/// What the transcript filter did.
pub struct TextFilterMeta {
    pub original_text: String,
    pub filtered_text: String,
    pub filler_words_removed: usize,
    pub hallucinations_detected: bool,
}

/// Nonviolent-communication reading of a text.
pub struct GfkAnalysis {
    pub observations: Vec<String>,
    pub feelings: Vec<String>,
    pub needs: Vec<String>,
    pub requests: Vec<String>,
    pub gfk_translation: String,
    pub reflection_question: String,
}

/// One cognitive distortion found in a text.
pub struct CognitiveDistortion {
    pub distortion_type: String,
    pub quote: String,
    pub explanation: String,
    pub reframe: String,
}

/// All cognitive distortions found in a text.
pub struct CognitiveDistortionResult {
    pub distortions: Vec<CognitiveDistortion>,
    pub overall_thinking_style: String,
}

/// Four-sides reading of a message.
pub struct FourSidesAnalysis {
    pub sachinhalt: String,
    pub selbstoffenbarung: String,
    pub beziehung: String,
    pub appell: String,
    pub potentielle_missverstaendnisse: Vec<String>,
}

} // verus!
