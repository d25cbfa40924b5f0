use vstd::prelude::*;

verus! {

/// Which backend family a model runs on.
#[derive(Clone, Copy, Debug, PartialEq, Eq, Structural)]
pub enum EngineType {
    Whisper,
    Parakeet,
}

/// Capability flags a backend reports.
#[derive(Clone, Copy, Debug, PartialEq, Eq, Structural)]
pub struct EngineCapabilities {
    pub supports_translation: bool,
    pub supports_initial_prompt: bool,
    pub supports_timestamps: bool,
}

/// The capability set of each backend family: Whisper supports translation
/// and an initial prompt; Parakeet is transcription-only. Both produce
/// segment timestamps.
pub fn capabilities_of(engine: EngineType) -> (r: EngineCapabilities)
    ensures
        r == spec_capabilities_of(engine),
{
    match engine {
        EngineType::Whisper => EngineCapabilities {
            supports_translation: true,
            supports_initial_prompt: true,
            supports_timestamps: true,
        },
        EngineType::Parakeet => EngineCapabilities {
            supports_translation: false,
            supports_initial_prompt: false,
            supports_timestamps: true,
        },
    }
}

pub open spec fn spec_capabilities_of(engine: EngineType) -> EngineCapabilities {
    match engine {
        EngineType::Whisper => EngineCapabilities {
            supports_translation: true,
            supports_initial_prompt: true,
            supports_timestamps: true,
        },
        EngineType::Parakeet => EngineCapabilities {
            supports_translation: false,
            supports_initial_prompt: false,
            supports_timestamps: true,
        },
    }
}

/// Canonical audio parameters: mono samples at 16 kHz, sliced into
/// 5-second chunks for inference.
pub const SAMPLE_RATE: usize = 16000;

pub const CHUNK_SAMPLES: usize = 16000 * 5;

/// Milliseconds of audio covered by `n` samples at 16 kHz, rounded down.
/// (n * 1000 / 16000 equals n / 16.)
pub open spec fn ms_of_samples(n: int) -> int {
    n / 16
}

pub fn samples_to_ms(n: usize) -> (r: u64)
    ensures
        r == ms_of_samples(n as int),
{
    (n / 16) as u64
}

/// A model descriptor from the external catalog, read-only to this
/// subsystem.
#[derive(Clone, Debug)]
pub struct ModelInfo {
    pub id: String,
    pub name: String,
    pub engine_type: EngineType,
    pub is_downloaded: bool,
    pub path: String,
    pub accuracy_score: u32,
}

/// When the engine is unloaded after a transcription finishes.
#[derive(Clone, Copy, Debug, PartialEq, Eq, Structural)]
pub enum ModelUnloadTimeout {
    Immediately,
    AfterSeconds(u64),
    Never,
}

/// User preferences consumed by the core, read-only.
#[derive(Clone, Debug)]
pub struct Settings {
    pub selected_model: String,
    pub selected_language: String,
    pub translate_to_english: bool,
    pub model_unload_timeout: ModelUnloadTimeout,
    pub custom_words: Vec<String>,
    pub word_correction_threshold: u32,
}

/// Machine bounds on the settings: each custom word stays below
/// `u32::MAX` characters so that edit-distance cells fit comfortably in a
/// machine word, and a bounded unload timeout stays below `u32::MAX`
/// seconds so that it converts to milliseconds without overflow.
pub open spec fn settings_wf(s: Settings) -> bool {
    &&& forall|i: int|
        0 <= i < s.custom_words@.len() ==> #[trigger] s.custom_words@[i]@.len() < u32::MAX
    &&& (s.model_unload_timeout matches ModelUnloadTimeout::AfterSeconds(n) ==> n <= u32::MAX)
}

/// Caller-provided overrides for one transcription.
#[derive(Clone, Debug)]
pub struct FileTranscriptionOptions {
    pub language: Option<String>,
    pub translate: bool,
}

/// A timestamped text fragment in audio-global time. `start` and `end`
/// are milliseconds from the start of the audio, with `start <= end`.
#[derive(Clone, Debug, PartialEq, Eq)]
pub struct Segment {
    pub start: u64,
    pub end: u64,
    pub text: String,
}

/// One segment as a backend hands it out: timed in milliseconds relative
/// to the chunk it was produced from.
#[derive(Clone, Debug, PartialEq, Eq)]
pub struct EngineSegment {
    pub start: u64,
    pub end: u64,
    pub text: String,
}

/// What a backend returns for one chunk: the chunk's full text, and
/// optionally its timestamped segments.
#[derive(Clone, Debug)]
pub struct EngineOutput {
    pub text: String,
    pub segments: Option<Vec<EngineSegment>>,
}

/// Timestamp granularity requested from a backend.
#[derive(Clone, Copy, Debug, PartialEq, Eq, Structural)]
pub enum TimestampGranularity {
    Segment,
    Word,
}

/// Normalized inference parameters; each backend ignores what it cannot
/// honor.
#[derive(Clone, Debug)]
pub struct InferenceParams {
    pub language: Option<String>,
    pub translate: bool,
    pub initial_prompt: Option<String>,
    pub timestamp_granularity: TimestampGranularity,
}

/// A request for the host to run a backend load: the catalog data the
/// backend needs, resolved and validated by the lifecycle controller.
#[derive(Clone, Debug)]
pub struct LoadRequest {
    pub model_id: String,
    pub model_name: String,
    pub engine_type: EngineType,
    pub path: String,
}

/// Errors surfaced by the core.
#[derive(Clone, Debug, PartialEq, Eq)]
pub enum TranscribeError {
    ModelNotFound,
    ModelNotDownloaded,
    BackendLoadError(String),
    ModelNotLoaded,
    InferenceError(String),
    DecodeError,
    UnsupportedFormat,
    IoError,
}

/// What each error kind says of itself, for the host's string surface.
pub open spec fn spec_error_message(e: TranscribeError) -> Seq<char> {
    match e {
        TranscribeError::ModelNotFound => "Model not found"@,
        TranscribeError::ModelNotDownloaded => "Model not downloaded"@,
        TranscribeError::BackendLoadError(m) => m@,
        TranscribeError::ModelNotLoaded => "Model is not loaded for transcription."@,
        TranscribeError::InferenceError(m) => m@,
        TranscribeError::DecodeError => "Audio decoding failed"@,
        TranscribeError::UnsupportedFormat => "Unsupported audio format"@,
        TranscribeError::IoError => "I/O error"@,
    }
}

impl TranscribeError {
    /// The error as the host-facing string; fatal errors bubble out of
    /// the top-level entries in this form.
    pub fn message(&self) -> (r: String)
        ensures
            r@ == spec_error_message(*self),
    {
        match self {
            TranscribeError::ModelNotFound => "Model not found".to_owned(),
            TranscribeError::ModelNotDownloaded => "Model not downloaded".to_owned(),
            TranscribeError::BackendLoadError(m) => m.clone(),
            TranscribeError::ModelNotLoaded => "Model is not loaded for transcription.".to_owned(),
            TranscribeError::InferenceError(m) => m.clone(),
            TranscribeError::DecodeError => "Audio decoding failed".to_owned(),
            TranscribeError::UnsupportedFormat => "Unsupported audio format".to_owned(),
            TranscribeError::IoError => "I/O error".to_owned(),
        }
    }
}

/// Payload of a `model-state-changed` event.
#[derive(Clone, Debug)]
pub struct ModelStateEvent {
    pub event_type: String,
    pub model_id: Option<String>,
    pub model_name: Option<String>,
    pub error: Option<String>,
}

/// Payload of a `transcription-progress` event.
#[derive(Clone, Debug)]
pub struct TranscriptionProgress {
    pub segments: Vec<Segment>,
    pub is_partial: bool,
}

/// Payload of a `file-transcription-completed` event.
#[derive(Clone, Debug)]
pub struct FileTranscriptionCompleted {
    pub path: String,
    pub segments: Vec<Segment>,
    pub text: String,
}

/// Snapshot of the lifecycle for UI queries.
#[derive(Clone, Debug)]
pub struct ModelLoadStatus {
    pub is_loaded: bool,
    pub current_model: Option<String>,
}

/// The view of an optional string, for contracts.
pub open spec fn opt_view(o: Option<String>) -> Option<Seq<char>> {
    match o {
        Option::Some(s) => Option::Some(s@),
        Option::None => Option::None,
    }
}

/// Field-wise description of a `ModelStateEvent`, for contracts.
pub open spec fn is_event(
    e: ModelStateEvent,
    event_type: Seq<char>,
    model_id: Option<Seq<char>>,
    model_name: Option<Seq<char>>,
    error_some: bool,
) -> bool {
    &&& e.event_type@ == event_type
    &&& opt_view(e.model_id) == model_id
    &&& opt_view(e.model_name) == model_name
    &&& e.error is Some == error_some
}

} // verus!
