//! The errors of the library.
use vstd::prelude::*;

verus! {

/// What can go wrong, with the details as text.
#[derive(Debug, Clone)]
pub enum AppError {
    /// Reading or writing failed.
    Io(String),
    /// JSON could not be read or written.
    Serialization(String),
    /// The settings are wrong.
    Config(String),
    /// A model is not there.
    ModelNotFound(String),
    /// A state cannot follow another.
    InvalidStateTransition(String),
    /// TOML could not be read.
    TomlDe(String),
    /// Any other error.
    Anyhow(String),
    /// ffmpeg failed.
    FFmpeg(String),
    /// ffprobe failed.
    MediaProbe(String),
    /// A file is not there; the path follows.
    FileNotFound(String),
    /// A format is not supported.
    UnsupportedFormat(String),
    /// A model could not be loaded.
    ModelLoadError(String),
    /// Speech could not be recognised.
    TranscriptionError(String),
    /// Audio could not be read.
    AudioDecodeError(String),
    /// A model could not be fetched.
    ModelDownloadError(String),
    /// Translation failed.
    TranslationError(String),
    /// Synthesis failed.
    TtsError(String),
    /// A synthesis model could not be loaded.
    TtsModelLoadError(String),
    /// Synthesised audio could not be written.
    TtsAudioEncodeError(String),
    /// The pipeline failed.
    PipelineError(String),
    /// Telling speakers apart failed.
    DiarizationError(String),
    /// Voice cloning failed.
    VoiceCloningError(String),
    /// A batch failed.
    BatchError(String),
    /// A checkpoint could not be saved or read.
    CheckpointError(String),
    /// The online translation service does not answer.
    OnlineTranslationUnavailable(String),
    /// An HTTP request failed.
    HttpError(String),
}

/// The result of an operation that can fail.
pub type AppResult<T> = Result<T, AppError>;

impl AppError {
    /// The message: what failed, and the details.
    pub open spec fn message(&self) -> Seq<char> {
        match self {
            AppError::Io(s) => "IO error: "@ + s@,
            AppError::Serialization(s) => "Serialization error: "@ + s@,
            AppError::Config(s) => "Configuration error: "@ + s@,
            AppError::ModelNotFound(s) => "Model not found: "@ + s@,
            AppError::InvalidStateTransition(s) => "Invalid state transition: "@ + s@,
            AppError::TomlDe(s) => "TOML deserialization error: "@ + s@,
            AppError::Anyhow(s) => "Application error: "@ + s@,
            AppError::FFmpeg(s) => "FFmpeg error: "@ + s@,
            AppError::MediaProbe(s) => "Media probe error: "@ + s@,
            AppError::FileNotFound(s) => "File not found: "@ + s@,
            AppError::UnsupportedFormat(s) => "Unsupported media format: "@ + s@,
            AppError::ModelLoadError(s) => "Model load error: "@ + s@,
            AppError::TranscriptionError(s) => "Transcription error: "@ + s@,
            AppError::AudioDecodeError(s) => "Audio decode error: "@ + s@,
            AppError::ModelDownloadError(s) => "Model download error: "@ + s@,
            AppError::TranslationError(s) => "Translation error: "@ + s@,
            AppError::TtsError(s) => "TTS synthesis error: "@ + s@,
            AppError::TtsModelLoadError(s) => "TTS model load error: "@ + s@,
            AppError::TtsAudioEncodeError(s) => "TTS audio encode error: "@ + s@,
            AppError::PipelineError(s) => "Pipeline error: "@ + s@,
            AppError::DiarizationError(s) => "Diarization error: "@ + s@,
            AppError::VoiceCloningError(s) => "Voice cloning error: "@ + s@,
            AppError::BatchError(s) => "Batch processing error: "@ + s@,
            AppError::CheckpointError(s) => "Checkpoint error: "@ + s@,
            AppError::OnlineTranslationUnavailable(s) => "Online translation unavailable: "@ + s@,
            AppError::HttpError(s) => "HTTP request error: "@ + s@,
        }
    }

    /// The message: what failed, and the details.
    pub fn to_string(&self) -> (r: String)
        ensures
            r@ == self.message(),
            self matches AppError::Io(s) ==> r@ == "IO error: "@ + s@,
            self matches AppError::Serialization(s) ==> r@ == "Serialization error: "@ + s@,
            self matches AppError::Config(s) ==> r@ == "Configuration error: "@ + s@,
            self matches AppError::ModelNotFound(s) ==> r@ == "Model not found: "@ + s@,
            self matches AppError::InvalidStateTransition(s) ==> r@ == "Invalid state transition: "@ + s@,
            self matches AppError::TomlDe(s) ==> r@ == "TOML deserialization error: "@ + s@,
            self matches AppError::Anyhow(s) ==> r@ == "Application error: "@ + s@,
            self matches AppError::FFmpeg(s) ==> r@ == "FFmpeg error: "@ + s@,
            self matches AppError::MediaProbe(s) ==> r@ == "Media probe error: "@ + s@,
            self matches AppError::FileNotFound(s) ==> r@ == "File not found: "@ + s@,
            self matches AppError::UnsupportedFormat(s) ==> r@ == "Unsupported media format: "@ + s@,
            self matches AppError::ModelLoadError(s) ==> r@ == "Model load error: "@ + s@,
            self matches AppError::TranscriptionError(s) ==> r@ == "Transcription error: "@ + s@,
            self matches AppError::AudioDecodeError(s) ==> r@ == "Audio decode error: "@ + s@,
            self matches AppError::ModelDownloadError(s) ==> r@ == "Model download error: "@ + s@,
            self matches AppError::TranslationError(s) ==> r@ == "Translation error: "@ + s@,
            self matches AppError::TtsError(s) ==> r@ == "TTS synthesis error: "@ + s@,
            self matches AppError::TtsModelLoadError(s) ==> r@ == "TTS model load error: "@ + s@,
            self matches AppError::TtsAudioEncodeError(s) ==> r@ == "TTS audio encode error: "@ + s@,
            self matches AppError::PipelineError(s) ==> r@ == "Pipeline error: "@ + s@,
            self matches AppError::DiarizationError(s) ==> r@ == "Diarization error: "@ + s@,
            self matches AppError::VoiceCloningError(s) ==> r@ == "Voice cloning error: "@ + s@,
            self matches AppError::BatchError(s) ==> r@ == "Batch processing error: "@ + s@,
            self matches AppError::CheckpointError(s) ==> r@ == "Checkpoint error: "@ + s@,
            self matches AppError::OnlineTranslationUnavailable(s) ==> r@ == "Online translation unavailable: "@ + s@,
            self matches AppError::HttpError(s) ==> r@ == "HTTP request error: "@ + s@,
    {
        let (what, details) = match self {
            AppError::Io(s) => ("IO error: ", s),
            AppError::Serialization(s) => ("Serialization error: ", s),
            AppError::Config(s) => ("Configuration error: ", s),
            AppError::ModelNotFound(s) => ("Model not found: ", s),
            AppError::InvalidStateTransition(s) => ("Invalid state transition: ", s),
            AppError::TomlDe(s) => ("TOML deserialization error: ", s),
            AppError::Anyhow(s) => ("Application error: ", s),
            AppError::FFmpeg(s) => ("FFmpeg error: ", s),
            AppError::MediaProbe(s) => ("Media probe error: ", s),
            AppError::FileNotFound(s) => ("File not found: ", s),
            AppError::UnsupportedFormat(s) => ("Unsupported media format: ", s),
            AppError::ModelLoadError(s) => ("Model load error: ", s),
            AppError::TranscriptionError(s) => ("Transcription error: ", s),
            AppError::AudioDecodeError(s) => ("Audio decode error: ", s),
            AppError::ModelDownloadError(s) => ("Model download error: ", s),
            AppError::TranslationError(s) => ("Translation error: ", s),
            AppError::TtsError(s) => ("TTS synthesis error: ", s),
            AppError::TtsModelLoadError(s) => ("TTS model load error: ", s),
            AppError::TtsAudioEncodeError(s) => ("TTS audio encode error: ", s),
            AppError::PipelineError(s) => ("Pipeline error: ", s),
            AppError::DiarizationError(s) => ("Diarization error: ", s),
            AppError::VoiceCloningError(s) => ("Voice cloning error: ", s),
            AppError::BatchError(s) => ("Batch processing error: ", s),
            AppError::CheckpointError(s) => ("Checkpoint error: ", s),
            AppError::OnlineTranslationUnavailable(s) => ("Online translation unavailable: ", s),
            AppError::HttpError(s) => ("HTTP request error: ", s),
        };
        let mut out = what.to_owned();
        out.append(details.as_str());
        out
    }
}

} // verus!
