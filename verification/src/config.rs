//! The settings of the translator and their default values.
use vstd::prelude::*;

use crate::ieee::{Double, Single};

verus! {

/// How text is handed to the translator.
#[derive(Debug, Clone, Copy, PartialEq, Eq, Structural)]
pub enum TranslationMode {
    /// One segment after the other.
    Segment,
    /// All segments at once, as a subtitle file.
    Srt,
}

impl Default for TranslationMode {
    fn default() -> (r: Self)
        ensures
            r == TranslationMode::Segment,
    {
        TranslationMode::Segment
    }
}

/// How speech is fitted into its slot.
#[derive(Debug, Clone, Copy, PartialEq, Eq, Structural)]
pub enum AudioSyncMode {
    /// Cut off what does not fit.
    Trim,
    /// Play the speech faster.
    SpeedUp,
    /// Play the picture slower.
    VideoSlow,
    /// Play the speech faster up to a limit, then the picture slower.
    Hybrid,
}

impl Default for AudioSyncMode {
    fn default() -> (r: Self)
        ensures
            r == AudioSyncMode::SpeedUp,
    {
        AudioSyncMode::SpeedUp
    }
}

/// How many pieces of speech are synthesised at a time: one for each core, 4 where the number of
/// cores is not known.
pub open spec fn tts_parallel_tasks(cores: Option<usize>) -> usize {
    match cores {
        Some(n) => n,
        None => 4,
    }
}

/// How many jobs run at a time: one fewer than there are cores but at least one, and 3 where the
/// number of cores is not known.
pub open spec fn batch_max_concurrent(cores: Option<usize>) -> usize {
    match cores {
        Some(n) => if n <= 1 {
            1
        } else {
            (n - 1) as usize
        },
        None => 3,
    }
}

/// The default of [`TtsConfig::parallel_tasks`].
pub fn default_tts_parallel_tasks(cores: Option<usize>) -> (r: usize)
    ensures
        r == tts_parallel_tasks(cores),
        cores is None ==> r == 4,
        cores matches Some(n) ==> r == n,
{
    match cores {
        Some(n) => n,
        None => 4,
    }
}

/// The default of [`BatchConfig::max_concurrent`].
pub fn default_batch_max_concurrent(cores: Option<usize>) -> (r: usize)
    ensures
        r == batch_max_concurrent(cores),
        cores is None ==> r == 3,
        cores matches Some(n) ==> r >= 1 && (n <= 1 ==> r == 1) && (n > 1 ==> r + 1 == n),
{
    match cores {
        Some(n) => if n <= 1 {
            1
        } else {
            n - 1
        },
        None => 3,
    }
}

/// How speech and picture are kept together.
#[derive(Debug, Clone)]
pub struct AudioSyncConfig {
    /// The way to fit speech into its slot.
    pub mode: AudioSyncMode,
    /// The largest speed-up.
    pub max_speed_ratio: Single,
}

impl AudioSyncConfig {
    /// The default settings.
    pub open spec fn is_default(&self) -> bool {
        &&& self.mode == AudioSyncMode::SpeedUp
        &&& self.max_speed_ratio.is(0x3fa6_6666, "1.3"@, "1.2999999523162842"@)
    }
}

impl Default for AudioSyncConfig {
    fn default() -> (r: Self)
        ensures
            r.is_default(),
    {
        AudioSyncConfig {
            mode: AudioSyncMode::SpeedUp,
            max_speed_ratio: Single::new(0x3fa6_6666, "1.3", "1.2999999523162842"),
        }
    }
}

/// The stages of the pipeline.
#[derive(Debug, Clone)]
pub struct PipelineConfig {
    /// The length of a segment in seconds.
    pub segment_duration_secs: Double,
    /// The capacity of the channels between stages.
    pub channel_capacity: usize,
    /// Whether segments are cut at pauses.
    pub enable_vad_split: bool,
}

impl PipelineConfig {
    /// The default settings.
    pub open spec fn is_default(&self) -> bool {
        &&& self.segment_duration_secs.is(0x403e_0000_0000_0000, "30"@)
        &&& self.channel_capacity == 100
        &&& self.enable_vad_split
    }
}

impl Default for PipelineConfig {
    fn default() -> (r: Self)
        ensures
            r.is_default(),
    {
        PipelineConfig {
            segment_duration_secs: Double::new(0x403e_0000_0000_0000, "30"),
            channel_capacity: 100,
            enable_vad_split: true,
        }
    }
}

/// Speech recognition.
#[derive(Debug, Clone)]
pub struct AsrConfig {
    /// The model.
    pub model: String,
    /// Whether Metal is used.
    pub use_metal: bool,
    /// The language that is spoken.
    pub language: String,
}

impl AsrConfig {
    /// The default settings.
    pub open spec fn is_default(&self) -> bool {
        &&& self.model@ == "whisper-large-v3-turbo"@
        &&& self.use_metal
        &&& self.language@ == "en"@
    }
}

impl Default for AsrConfig {
    fn default() -> (r: Self)
        ensures
            r.is_default(),
    {
        AsrConfig {
            model: "whisper-large-v3-turbo".to_owned(),
            use_metal: true,
            language: "en".to_owned(),
        }
    }
}

/// Speech synthesis.
#[derive(Debug, Clone)]
pub struct TtsConfig {
    /// The engine.
    pub engine: String,
    /// The speed, 1 for normal.
    pub speed: Single,
    /// The pitch, 1 for unchanged.
    pub pitch: Single,
    /// The volume, 1 for unchanged.
    pub volume: Single,
    /// The identifier of the voice.
    pub voice_id: String,
    /// The name of the voice.
    pub voice: String,
    /// The sample rate in Hz.
    pub sample_rate: u32,
    /// The device.
    pub device: String,
    /// Where synthesised speech is kept.
    pub cache_dir: String,
    /// How many pieces are synthesised at a time.
    pub parallel_tasks: usize,
    /// The variant of the model.
    pub model_variant: String,
    /// The path of the model.
    pub model_path: Option<String>,
    /// Whether `say` is used where the engine fails.
    pub fallback_to_say: bool,
    /// Whether the voice follows the speaker's gender.
    pub auto_voice_selection: bool,
    /// The random seed.
    pub seed: Option<u64>,
    /// The sampling temperature.
    pub temperature: Double,
    /// The stability of the voice.
    pub stability: Double,
    /// The attenuation of high frequencies in dB.
    pub eq_high_shelf_db: Double,
    /// The length of a cross-fade in milliseconds.
    pub crossfade_duration_ms: u64,
}

impl TtsConfig {
    /// The default settings on a machine with `cores` cores.
    pub open spec fn is_default(&self, cores: Option<usize>) -> bool {
        &&& self.engine@ == "say"@
        &&& self.speed.is(0x3f80_0000, "1"@, "1"@)
        &&& self.pitch.is(0x3f80_0000, "1"@, "1"@)
        &&& self.volume.is(0x3f80_0000, "1"@, "1"@)
        &&& self.voice_id@ == "tingting"@
        &&& self.voice@ == "Tingting"@
        &&& self.sample_rate == 24000
        &&& self.device@ == "cpu"@
        &&& self.cache_dir@ == "~/.cache/video-translator/tts_cache"@
        &&& self.parallel_tasks == tts_parallel_tasks(cores)
        &&& self.model_variant@ == "v1.1-onnx"@
        &&& self.model_path is None
        &&& self.fallback_to_say
        &&& !self.auto_voice_selection
        &&& self.seed == Some(42u64)
        &&& self.temperature.is(0x3fd3_3333_3333_3333, "0.3"@)
        &&& self.stability.is(0x3fe9_9999_9999_999a, "0.8"@)
        &&& self.eq_high_shelf_db.is(0xc008_0000_0000_0000, "-3"@)
        &&& self.crossfade_duration_ms == 50
    }

    /// The default settings on a machine with `cores` cores.
    pub fn with_cores(cores: Option<usize>) -> (r: Self)
        ensures
            r.is_default(cores),
    {
        TtsConfig {
            engine: "say".to_owned(),
            speed: Single::new(0x3f80_0000, "1", "1"),
            pitch: Single::new(0x3f80_0000, "1", "1"),
            volume: Single::new(0x3f80_0000, "1", "1"),
            voice_id: "tingting".to_owned(),
            voice: "Tingting".to_owned(),
            sample_rate: 24000,
            device: "cpu".to_owned(),
            cache_dir: "~/.cache/video-translator/tts_cache".to_owned(),
            parallel_tasks: default_tts_parallel_tasks(cores),
            model_variant: "v1.1-onnx".to_owned(),
            model_path: None,
            fallback_to_say: true,
            auto_voice_selection: false,
            seed: Some(42),
            temperature: Double::new(0x3fd3_3333_3333_3333, "0.3"),
            stability: Double::new(0x3fe9_9999_9999_999a, "0.8"),
            eq_high_shelf_db: Double::new(0xc008_0000_0000_0000, "-3"),
            crossfade_duration_ms: 50,
        }
    }
}

/// Translation.
#[derive(Debug, Clone)]
pub struct TranslationConfig {
    /// The path of the glossary.
    pub glossary_path: Option<String>,
    /// How many segments are translated at a time.
    pub batch_size: usize,
    /// The path of the model.
    pub model_path: Option<String>,
    /// The device.
    pub device: String,
    /// The largest number of tokens.
    pub max_tokens: usize,
    /// The sampling temperature.
    pub temperature: Single,
    /// The source of the model where no path is set, as a value of TOML.
    pub model_source: String,
    /// The address of the online service.
    pub dlx_endpoint: String,
    /// How long the online service may take, in seconds.
    pub dlx_timeout_secs: u64,
    /// How often the online service is asked again.
    pub dlx_max_retries: usize,
    /// Whether the online service is asked first.
    pub prefer_online: bool,
    /// Whether the local model is used where the online service fails.
    pub fallback_on_error: bool,
    /// The time between health checks in seconds.
    pub health_check_interval_secs: u64,
    /// Whether the glossary is enforced.
    pub force_glossary: bool,
    /// Whether terms are corrected afterwards.
    pub post_correction_enabled: bool,
    /// How text is handed to the translator.
    pub translation_mode: TranslationMode,
}

impl TranslationConfig {
    /// The default settings.
    pub open spec fn is_default(&self) -> bool {
        &&& self.glossary_path is None
        &&& self.batch_size == 10
        &&& self.model_path is None
        &&& self.device@ == "cpu"@
        &&& self.max_tokens == 256
        &&& self.temperature.is(0x3e99_999a, "0.3"@, "0.30000001192092896"@)
        &&& self.model_source@
            == "{ ModelScope = { repo_id = \"Qwen/Qwen2.5-3B-Instruct-GGUF\", revision = \"master\" } }"@
        &&& self.dlx_endpoint@ == "http://localhost:1188"@
        &&& self.dlx_timeout_secs == 10
        &&& self.dlx_max_retries == 3
        &&& self.prefer_online
        &&& self.fallback_on_error
        &&& self.health_check_interval_secs == 300
        &&& self.force_glossary
        &&& self.post_correction_enabled
        &&& self.translation_mode == TranslationMode::Segment
    }
}

impl Default for TranslationConfig {
    fn default() -> (r: Self)
        ensures
            r.is_default(),
    {
        TranslationConfig {
            glossary_path: None,
            batch_size: 10,
            model_path: None,
            device: "cpu".to_owned(),
            max_tokens: 256,
            temperature: Single::new(0x3e99_999a, "0.3", "0.30000001192092896"),
            model_source:
                "{ ModelScope = { repo_id = \"Qwen/Qwen2.5-3B-Instruct-GGUF\", revision = \"master\" } }".to_owned(),
            dlx_endpoint: "http://localhost:1188".to_owned(),
            dlx_timeout_secs: 10,
            dlx_max_retries: 3,
            prefer_online: true,
            fallback_on_error: true,
            health_check_interval_secs: 300,
            force_glossary: true,
            post_correction_enabled: true,
            translation_mode: TranslationMode::Segment,
        }
    }
}

/// Telling speakers apart.
#[derive(Debug, Clone)]
pub struct DiarizationConfig {
    /// Whether speakers are told apart.
    pub enabled: bool,
    /// The engine.
    pub engine: String,
    /// Whether CoreML is used.
    pub use_coreml: bool,
}

impl DiarizationConfig {
    /// The default settings.
    pub open spec fn is_default(&self) -> bool {
        &&& !self.enabled
        &&& self.engine@ == "speakrs"@
        &&& self.use_coreml
    }
}

impl Default for DiarizationConfig {
    fn default() -> (r: Self)
        ensures
            r.is_default(),
    {
        DiarizationConfig {
            enabled: false,
            engine: "speakrs".to_owned(),
            use_coreml: true,
        }
    }
}

/// The choice of reference audio.
#[derive(Debug, Clone)]
pub struct VoiceExtractorConfig {
    /// Whether voices are enhanced.
    pub enable_enhancement: bool,
    /// Whether silence is trimmed.
    pub enable_silence_trim: bool,
    /// Whether the volume is normalised.
    pub enable_normalization: bool,
    /// The level of silence in dB.
    pub silence_threshold_db: Double,
    /// The target level in dBFS.
    pub target_rms_db: Double,
    /// The shortest reference in seconds.
    pub min_duration_secs: Double,
    /// The longest reference in seconds.
    pub max_duration_secs: Double,
    /// The best length of a reference in seconds.
    pub ideal_duration_secs: Double,
}

impl VoiceExtractorConfig {
    /// The default settings.
    pub open spec fn is_default(&self) -> bool {
        &&& self.enable_enhancement
        &&& self.enable_silence_trim
        &&& self.enable_normalization
        &&& self.silence_threshold_db.is(0xc044_0000_0000_0000, "-40"@)
        &&& self.target_rms_db.is(0xc034_0000_0000_0000, "-20"@)
        &&& self.min_duration_secs.is(0x4008_0000_0000_0000, "3"@)
        &&& self.max_duration_secs.is(0x4024_0000_0000_0000, "10"@)
        &&& self.ideal_duration_secs.is(0x4014_0000_0000_0000, "5"@)
    }
}

impl Default for VoiceExtractorConfig {
    fn default() -> (r: Self)
        ensures
            r.is_default(),
    {
        VoiceExtractorConfig {
            enable_enhancement: true,
            enable_silence_trim: true,
            enable_normalization: true,
            silence_threshold_db: Double::new(0xc044_0000_0000_0000, "-40"),
            target_rms_db: Double::new(0xc034_0000_0000_0000, "-20"),
            min_duration_secs: Double::new(0x4008_0000_0000_0000, "3"),
            max_duration_secs: Double::new(0x4024_0000_0000_0000, "10"),
            ideal_duration_secs: Double::new(0x4014_0000_0000_0000, "5"),
        }
    }
}

/// Voice cloning.
#[derive(Debug, Clone)]
pub struct CloningConfig {
    /// Whether voices are cloned.
    pub enabled: bool,
    /// The engine.
    pub engine: String,
    /// Where reference audio lies.
    pub reference_audio_dir: String,
    /// Whether reference audio is taken from the video.
    pub auto_extract_speaker: bool,
    /// The address of the service.
    pub api_url: String,
    /// How long the service may take, in seconds.
    pub timeout_secs: u64,
    /// The text of the reference audio.
    pub prompt_text: Option<String>,
    /// The language of the reference audio.
    pub prompt_lang: String,
    /// The language to speak.
    pub text_lang: String,
    /// How the service splits text.
    pub text_split_method: String,
    /// The top-k of sampling.
    pub top_k: u32,
    /// The top-p of sampling.
    pub top_p: Single,
    /// The sampling temperature.
    pub temperature: Single,
    /// The penalty on repetition.
    pub repetition_penalty: Single,
    /// The weights of the text model.
    pub gpt_model: Option<String>,
    /// The weights of the audio model.
    pub sovits_model: Option<String>,
    /// The command of the subprocess engines.
    pub clone_command: Option<String>,
    /// The model of the subprocess engines.
    pub clone_model_path: Option<String>,
    /// The arguments of the subprocess engines.
    pub clone_args: Vec<String>,
    /// How long a subprocess may take, in seconds.
    pub clone_timeout_secs: u64,
    /// The choice of reference audio.
    pub voice_extractor: VoiceExtractorConfig,
}

impl CloningConfig {
    /// The default settings.
    pub open spec fn is_default(&self) -> bool {
        &&& self.enabled
        &&& self.engine@ == "indextts"@
        &&& self.reference_audio_dir@ == "./references"@
        &&& self.auto_extract_speaker
        &&& self.api_url@ == "http://127.0.0.1:9880"@
        &&& self.timeout_secs == 60
        &&& self.prompt_text is None
        &&& self.prompt_lang@ == "en"@
        &&& self.text_lang@ == "zh"@
        &&& self.text_split_method@ == "cut5"@
        &&& self.top_k == 5
        &&& self.top_p.is(0x3f80_0000, "1"@, "1"@)
        &&& self.temperature.is(0x3f80_0000, "1"@, "1"@)
        &&& self.repetition_penalty.is(0x3fac_cccd, "1.35"@, "1.350000023841858"@)
        &&& self.gpt_model is None
        &&& self.sovits_model is None
        &&& self.clone_command is None
        &&& self.clone_model_path is None
        &&& self.clone_args@.len() == 0
        &&& self.clone_timeout_secs == 120
        &&& self.voice_extractor.is_default()
    }
}

impl Default for CloningConfig {
    fn default() -> (r: Self)
        ensures
            r.is_default(),
    {
        CloningConfig {
            enabled: true,
            engine: "indextts".to_owned(),
            reference_audio_dir: "./references".to_owned(),
            auto_extract_speaker: true,
            api_url: "http://127.0.0.1:9880".to_owned(),
            timeout_secs: 60,
            prompt_text: None,
            prompt_lang: "en".to_owned(),
            text_lang: "zh".to_owned(),
            text_split_method: "cut5".to_owned(),
            top_k: 5,
            top_p: Single::new(0x3f80_0000, "1", "1"),
            temperature: Single::new(0x3f80_0000, "1", "1"),
            repetition_penalty: Single::new(0x3fac_cccd, "1.35", "1.350000023841858"),
            gpt_model: None,
            sovits_model: None,
            clone_command: None,
            clone_model_path: None,
            clone_args: Vec::new(),
            clone_timeout_secs: 120,
            voice_extractor: VoiceExtractorConfig::default(),
        }
    }
}

/// Batches of jobs.
#[derive(Debug, Clone)]
pub struct BatchConfig {
    /// How many jobs run at a time.
    pub max_concurrent: usize,
    /// The memory use, in per cent, above which fewer jobs run.
    pub memory_threshold: Double,
    /// Whether jobs are ordered by priority.
    pub enable_priority: bool,
}

impl BatchConfig {
    /// The default settings on a machine with `cores` cores.
    pub open spec fn is_default(&self, cores: Option<usize>) -> bool {
        &&& self.max_concurrent == batch_max_concurrent(cores)
        &&& self.memory_threshold.is(0x4054_0000_0000_0000, "80"@)
        &&& self.enable_priority
    }

    /// The default settings on a machine with `cores` cores.
    pub fn with_cores(cores: Option<usize>) -> (r: Self)
        ensures
            r.is_default(cores),
    {
        BatchConfig {
            max_concurrent: default_batch_max_concurrent(cores),
            memory_threshold: Double::new(0x4054_0000_0000_0000, "80"),
            enable_priority: true,
        }
    }
}

/// Checkpoints.
#[derive(Debug, Clone)]
pub struct CheckpointConfig {
    /// Whether checkpoints are written.
    pub enabled: bool,
    /// Where they lie.
    pub dir: String,
    /// How many days they are kept.
    pub retention_days: u32,
}

impl CheckpointConfig {
    /// The default settings.
    pub open spec fn is_default(&self) -> bool {
        &&& self.enabled
        &&& self.dir@ == "~/.cache/video-translator/checkpoints"@
        &&& self.retention_days == 7
    }
}

impl Default for CheckpointConfig {
    fn default() -> (r: Self)
        ensures
            r.is_default(),
    {
        CheckpointConfig {
            enabled: true,
            dir: "~/.cache/video-translator/checkpoints".to_owned(),
            retention_days: 7,
        }
    }
}

/// Profiling.
#[derive(Debug, Clone)]
pub struct PerformanceConfig {
    /// Whether a profile is taken.
    pub enable_profiling: bool,
    /// Where the flame graph goes.
    pub flamegraph_output: String,
}

impl PerformanceConfig {
    /// The default settings.
    pub open spec fn is_default(&self) -> bool {
        &&& !self.enable_profiling
        &&& self.flamegraph_output@ == "./flamegraph.svg"@
    }
}

impl Default for PerformanceConfig {
    fn default() -> (r: Self)
        ensures
            r.is_default(),
    {
        PerformanceConfig {
            enable_profiling: false,
            flamegraph_output: "./flamegraph.svg".to_owned(),
        }
    }
}

/// The post-processing of subtitles.
#[derive(Debug, Clone)]
pub struct SubtitlePostProcessConfigField {
    /// The shortest subtitle in seconds.
    pub min_duration: Double,
    /// The longest subtitle in seconds.
    pub max_duration: Double,
    /// The gap, in seconds, up to which subtitles are merged.
    pub merge_gap_threshold: Double,
    /// Whether fragments are redistributed.
    pub enable_fragment_redistribution: bool,
}

impl SubtitlePostProcessConfigField {
    /// The default settings.
    pub open spec fn is_default(&self) -> bool {
        &&& self.min_duration.is(0x3ff0_0000_0000_0000, "1"@)
        &&& self.max_duration.is(0x4024_0000_0000_0000, "10"@)
        &&& self.merge_gap_threshold.is(0x4000_0000_0000_0000, "2"@)
        &&& self.enable_fragment_redistribution
    }
}

impl Default for SubtitlePostProcessConfigField {
    fn default() -> (r: Self)
        ensures
            r.is_default(),
    {
        SubtitlePostProcessConfigField {
            min_duration: Double::new(0x3ff0_0000_0000_0000, "1"),
            max_duration: Double::new(0x4024_0000_0000_0000, "10"),
            merge_gap_threshold: Double::new(0x4000_0000_0000_0000, "2"),
            enable_fragment_redistribution: true,
        }
    }
}

/// The alignment of sound and picture.
#[derive(Debug, Clone)]
pub struct SpeedRateConfigField {
    /// Whether it is done.
    pub enabled: bool,
    /// How it is done, as text.
    pub mode: String,
    /// The largest speed-up of the sound.
    pub max_audio_speed: Double,
    /// The largest slow-down of the picture.
    pub max_video_slow: Double,
}

impl SpeedRateConfigField {
    /// The default settings.
    pub open spec fn is_default(&self) -> bool {
        &&& !self.enabled
        &&& self.mode@ == "hybrid"@
        &&& self.max_audio_speed.is(0x3ff4_cccc_cccc_cccd, "1.3"@)
        &&& self.max_video_slow.is(0x4000_0000_0000_0000, "2"@)
    }
}

impl Default for SpeedRateConfigField {
    fn default() -> (r: Self)
        ensures
            r.is_default(),
    {
        SpeedRateConfigField {
            enabled: false,
            mode: "hybrid".to_owned(),
            max_audio_speed: Double::new(0x3ff4_cccc_cccc_cccd, "1.3"),
            max_video_slow: Double::new(0x4000_0000_0000_0000, "2"),
        }
    }
}

/// Caches.
#[derive(Debug, Clone)]
pub struct CacheConfig {
    /// Whether speech is cached.
    pub tts_cache_enabled: bool,
    /// Whether translations are cached.
    pub translation_cache_enabled: bool,
    /// Whether silence is removed from speech.
    pub tts_remove_silence: bool,
    /// How many days cached files are kept.
    pub retention_days: u32,
}

impl CacheConfig {
    /// The default settings.
    pub open spec fn is_default(&self) -> bool {
        &&& self.tts_cache_enabled
        &&& self.translation_cache_enabled
        &&& self.tts_remove_silence
        &&& self.retention_days == 7
    }
}

impl Default for CacheConfig {
    fn default() -> (r: Self)
        ensures
            r.is_default(),
    {
        CacheConfig {
            tts_cache_enabled: true,
            translation_cache_enabled: true,
            tts_remove_silence: true,
            retention_days: 7,
        }
    }
}

/// Subtitles.
#[derive(Debug, Clone)]
pub struct SubtitleConfig {
    /// The kind of subtitles, by its name.
    pub subtitle_type: String,
    /// Where subtitles go.
    pub output_dir: Option<String>,
}

impl SubtitleConfig {
    /// The default settings.
    pub open spec fn is_default(&self) -> bool {
        &&& self.subtitle_type@ == "none"@
        &&& self.output_dir is None
    }
}

impl Default for SubtitleConfig {
    fn default() -> (r: Self)
        ensures
            r.is_default(),
    {
        SubtitleConfig {
            subtitle_type: "none".to_owned(),
            output_dir: None,
        }
    }
}

/// Background music.
#[derive(Debug, Clone)]
pub struct BackgroundMusicConfig {
    /// The path of the music.
    pub path: Option<String>,
    /// The volume of the music.
    pub volume: Single,
    /// Whether the music is repeated.
    pub loop_bgm: bool,
}

impl BackgroundMusicConfig {
    /// The default settings.
    pub open spec fn is_default(&self) -> bool {
        &&& self.path is None
        &&& self.volume.is(0x3e4c_cccd, "0.2"@, "0.20000000298023224"@)
        &&& self.loop_bgm
    }
}

impl Default for BackgroundMusicConfig {
    fn default() -> (r: Self)
        ensures
            r.is_default(),
    {
        BackgroundMusicConfig {
            path: None,
            volume: Single::new(0x3e4c_cccd, "0.2", "0.20000000298023224"),
            loop_bgm: true,
        }
    }
}

/// All settings.
#[derive(Debug, Clone)]
pub struct Config {
    /// Speech recognition.
    pub asr: AsrConfig,
    /// Speech synthesis.
    pub tts: TtsConfig,
    /// Translation.
    pub translation: TranslationConfig,
    /// Where results go.
    pub output_dir: String,
    /// How many tasks run at a time.
    pub max_concurrent_tasks: usize,
    /// The stages of the pipeline.
    pub pipeline: PipelineConfig,
    /// Telling speakers apart.
    pub diarization: DiarizationConfig,
    /// Voice cloning.
    pub cloning: CloningConfig,
    /// Batches of jobs.
    pub batch: BatchConfig,
    /// Checkpoints.
    pub checkpoint: CheckpointConfig,
    /// Profiling.
    pub performance: PerformanceConfig,
    /// Speech and picture.
    pub audio_sync: AudioSyncConfig,
    /// The post-processing of subtitles.
    pub subtitle_postprocess: SubtitlePostProcessConfigField,
    /// The alignment of sound and picture.
    pub speed_rate: SpeedRateConfigField,
    /// Caches.
    pub cache: CacheConfig,
    /// Subtitles.
    pub subtitle: SubtitleConfig,
    /// Background music.
    pub background_music: BackgroundMusicConfig,
}

impl Config {
    /// The default settings on a machine with `cores` cores.
    pub open spec fn is_default(&self, cores: Option<usize>) -> bool {
        &&& self.asr.is_default()
        &&& self.tts.is_default(cores)
        &&& self.translation.is_default()
        &&& self.output_dir@ == "./output"@
        &&& self.max_concurrent_tasks == 4
        &&& self.pipeline.is_default()
        &&& self.diarization.is_default()
        &&& self.cloning.is_default()
        &&& self.batch.is_default(cores)
        &&& self.checkpoint.is_default()
        &&& self.performance.is_default()
        &&& self.audio_sync.is_default()
        &&& self.subtitle_postprocess.is_default()
        &&& self.speed_rate.is_default()
        &&& self.cache.is_default()
        &&& self.subtitle.is_default()
        &&& self.background_music.is_default()
    }

    /// The default settings on a machine with `cores` cores.
    pub fn with_cores(cores: Option<usize>) -> (r: Self)
        ensures
            r.is_default(cores),
    {
        Config {
            asr: AsrConfig::default(),
            tts: TtsConfig::with_cores(cores),
            translation: TranslationConfig::default(),
            output_dir: "./output".to_owned(),
            max_concurrent_tasks: 4,
            pipeline: PipelineConfig::default(),
            diarization: DiarizationConfig::default(),
            cloning: CloningConfig::default(),
            batch: BatchConfig::with_cores(cores),
            checkpoint: CheckpointConfig::default(),
            performance: PerformanceConfig::default(),
            audio_sync: AudioSyncConfig::default(),
            subtitle_postprocess: SubtitlePostProcessConfigField::default(),
            speed_rate: SpeedRateConfigField::default(),
            cache: CacheConfig::default(),
            subtitle: SubtitleConfig::default(),
            background_music: BackgroundMusicConfig::default(),
        }
    }
}

/// The default settings: what each of them is set to.
pub proof fn law_default_settings(c: Config, cores: Option<usize>)
    requires
        c.is_default(cores),
    ensures
        c.tts.parallel_tasks == match cores {
            Some(n) => n,
            None => 4,
        },
        cores is None ==> c.batch.max_concurrent == 3,
        cores matches Some(n) ==> c.batch.max_concurrent >= 1 && (n <= 1
            ==> c.batch.max_concurrent == 1) && (n > 1 ==> c.batch.max_concurrent + 1 == n),
        c.asr.model@ == "whisper-large-v3-turbo"@,
        c.asr.use_metal,
        c.asr.language@ == "en"@,
        c.tts.engine@ == "say"@,
        c.tts.speed.value.bits == 0x3f80_0000 && c.tts.speed.text@ == "1"@ && c.tts.speed.wide@ == "1"@,
        c.tts.pitch.value.bits == 0x3f80_0000 && c.tts.pitch.text@ == "1"@ && c.tts.pitch.wide@ == "1"@,
        c.tts.volume.value.bits == 0x3f80_0000 && c.tts.volume.text@ == "1"@ && c.tts.volume.wide@ == "1"@,
        c.tts.voice_id@ == "tingting"@,
        c.tts.voice@ == "Tingting"@,
        c.tts.sample_rate == 24000,
        c.tts.device@ == "cpu"@,
        c.tts.cache_dir@ == "~/.cache/video-translator/tts_cache"@,
        c.tts.model_variant@ == "v1.1-onnx"@,
        c.tts.model_path is None,
        c.tts.fallback_to_say,
        !c.tts.auto_voice_selection,
        c.tts.seed == Some(42u64),
        c.tts.temperature.value.bits == 0x3fd3_3333_3333_3333 && c.tts.temperature.text@ == "0.3"@,
        c.tts.stability.value.bits == 0x3fe9_9999_9999_999a && c.tts.stability.text@ == "0.8"@,
        c.tts.eq_high_shelf_db.value.bits == 0xc008_0000_0000_0000 && c.tts.eq_high_shelf_db.text@ == "-3"@,
        c.tts.crossfade_duration_ms == 50,
        c.translation.glossary_path is None,
        c.translation.batch_size == 10,
        c.translation.model_path is None,
        c.translation.device@ == "cpu"@,
        c.translation.max_tokens == 256,
        c.translation.temperature.value.bits == 0x3e99_999a && c.translation.temperature.text@ == "0.3"@ && c.translation.temperature.wide@ == "0.30000001192092896"@,
        c.translation.model_source@
            == "{ ModelScope = { repo_id = \"Qwen/Qwen2.5-3B-Instruct-GGUF\", revision = \"master\" } }"@,
        c.translation.dlx_endpoint@ == "http://localhost:1188"@,
        c.translation.dlx_timeout_secs == 10,
        c.translation.dlx_max_retries == 3,
        c.translation.prefer_online,
        c.translation.fallback_on_error,
        c.translation.health_check_interval_secs == 300,
        c.translation.force_glossary,
        c.translation.post_correction_enabled,
        c.translation.translation_mode == TranslationMode::Segment,
        c.output_dir@ == "./output"@,
        c.max_concurrent_tasks == 4,
        c.pipeline.segment_duration_secs.value.bits == 0x403e_0000_0000_0000 && c.pipeline.segment_duration_secs.text@ == "30"@,
        c.pipeline.channel_capacity == 100,
        c.pipeline.enable_vad_split,
        !c.diarization.enabled,
        c.diarization.engine@ == "speakrs"@,
        c.diarization.use_coreml,
        c.cloning.enabled,
        c.cloning.engine@ == "indextts"@,
        c.cloning.reference_audio_dir@ == "./references"@,
        c.cloning.auto_extract_speaker,
        c.cloning.api_url@ == "http://127.0.0.1:9880"@,
        c.cloning.timeout_secs == 60,
        c.cloning.prompt_text is None,
        c.cloning.prompt_lang@ == "en"@,
        c.cloning.text_lang@ == "zh"@,
        c.cloning.text_split_method@ == "cut5"@,
        c.cloning.top_k == 5,
        c.cloning.top_p.value.bits == 0x3f80_0000 && c.cloning.top_p.text@ == "1"@ && c.cloning.top_p.wide@ == "1"@,
        c.cloning.temperature.value.bits == 0x3f80_0000 && c.cloning.temperature.text@ == "1"@ && c.cloning.temperature.wide@ == "1"@,
        c.cloning.repetition_penalty.value.bits == 0x3fac_cccd && c.cloning.repetition_penalty.text@ == "1.35"@ && c.cloning.repetition_penalty.wide@ == "1.350000023841858"@,
        c.cloning.gpt_model is None,
        c.cloning.sovits_model is None,
        c.cloning.clone_command is None,
        c.cloning.clone_model_path is None,
        c.cloning.clone_args@.len() == 0,
        c.cloning.clone_timeout_secs == 120,
        c.cloning.voice_extractor.enable_enhancement,
        c.cloning.voice_extractor.enable_silence_trim,
        c.cloning.voice_extractor.enable_normalization,
        c.cloning.voice_extractor.silence_threshold_db.value.bits == 0xc044_0000_0000_0000 && c.cloning.voice_extractor.silence_threshold_db.text@ == "-40"@,
        c.cloning.voice_extractor.target_rms_db.value.bits == 0xc034_0000_0000_0000 && c.cloning.voice_extractor.target_rms_db.text@ == "-20"@,
        c.cloning.voice_extractor.min_duration_secs.value.bits == 0x4008_0000_0000_0000 && c.cloning.voice_extractor.min_duration_secs.text@ == "3"@,
        c.cloning.voice_extractor.max_duration_secs.value.bits == 0x4024_0000_0000_0000 && c.cloning.voice_extractor.max_duration_secs.text@ == "10"@,
        c.cloning.voice_extractor.ideal_duration_secs.value.bits == 0x4014_0000_0000_0000 && c.cloning.voice_extractor.ideal_duration_secs.text@ == "5"@,
        c.batch.memory_threshold.value.bits == 0x4054_0000_0000_0000 && c.batch.memory_threshold.text@ == "80"@,
        c.batch.enable_priority,
        c.checkpoint.enabled,
        c.checkpoint.dir@ == "~/.cache/video-translator/checkpoints"@,
        c.checkpoint.retention_days == 7,
        !c.performance.enable_profiling,
        c.performance.flamegraph_output@ == "./flamegraph.svg"@,
        c.audio_sync.mode == AudioSyncMode::SpeedUp,
        c.audio_sync.max_speed_ratio.value.bits == 0x3fa6_6666 && c.audio_sync.max_speed_ratio.text@ == "1.3"@ && c.audio_sync.max_speed_ratio.wide@ == "1.2999999523162842"@,
        c.subtitle_postprocess.min_duration.value.bits == 0x3ff0_0000_0000_0000 && c.subtitle_postprocess.min_duration.text@ == "1"@,
        c.subtitle_postprocess.max_duration.value.bits == 0x4024_0000_0000_0000 && c.subtitle_postprocess.max_duration.text@ == "10"@,
        c.subtitle_postprocess.merge_gap_threshold.value.bits == 0x4000_0000_0000_0000 && c.subtitle_postprocess.merge_gap_threshold.text@ == "2"@,
        c.subtitle_postprocess.enable_fragment_redistribution,
        !c.speed_rate.enabled,
        c.speed_rate.mode@ == "hybrid"@,
        c.speed_rate.max_audio_speed.value.bits == 0x3ff4_cccc_cccc_cccd && c.speed_rate.max_audio_speed.text@ == "1.3"@,
        c.speed_rate.max_video_slow.value.bits == 0x4000_0000_0000_0000 && c.speed_rate.max_video_slow.text@ == "2"@,
        c.cache.tts_cache_enabled,
        c.cache.translation_cache_enabled,
        c.cache.tts_remove_silence,
        c.cache.retention_days == 7,
        c.subtitle.subtitle_type@ == "none"@,
        c.subtitle.output_dir is None,
        c.background_music.path is None,
        c.background_music.volume.value.bits == 0x3e4c_cccd && c.background_music.volume.text@ == "0.2"@ && c.background_music.volume.wide@ == "0.20000000298023224"@,
        c.background_music.loop_bgm,
{
}

} // verus!
