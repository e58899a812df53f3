use vt_core::config::{AudioSyncMode, Config, TranslationMode};
use vt_core::config_validation::{
    detect_unknown_fields, is_known_field, validate_config, Severity, ValidationLevel,
    ValidationWarning,
};
use vt_core::ieee::{Double, Single};

fn default_config() -> Config {
    Config::with_cores(Some(8))
}

fn single(x: f32) -> Single {
    Single::new(x.to_bits(), &format!("{x}"), &format!("{}", x as f64))
}

fn double(x: f64) -> Double {
    Double::new(x.to_bits(), &format!("{x}"))
}

fn check(config: &Config, level: ValidationLevel) -> Vec<ValidationWarning> {
    validate_config(config, level, false)
}

#[test]
fn test_validate_default_config() {
    let warnings = check(&default_config(), ValidationLevel::Standard);
    let errors: Vec<_> = warnings
        .iter()
        .filter(|w| w.severity == Severity::Error)
        .collect();
    assert!(
        errors.is_empty(),
        "Default config should have no errors: {:?}",
        errors
    );
}

#[test]
fn test_validate_tts_speed_out_of_range() {
    let mut config = default_config();
    config.tts.speed = single(5.0);
    let warnings = check(&config, ValidationLevel::Standard);
    assert!(warnings
        .iter()
        .any(|w| w.field == "tts.speed" && w.severity == Severity::Error));
}

#[test]
fn test_validate_tts_volume_negative() {
    let mut config = default_config();
    config.tts.volume = single(-0.5);
    let warnings = check(&config, ValidationLevel::Standard);
    assert!(warnings
        .iter()
        .any(|w| w.field == "tts.volume" && w.severity == Severity::Error));
}

#[test]
fn test_validate_translation_no_backend() {
    let mut config = default_config();
    config.translation.prefer_online = false;
    config.translation.fallback_on_error = false;
    let warnings = check(&config, ValidationLevel::Standard);
    assert!(warnings
        .iter()
        .any(|w| w.severity == Severity::Error && w.message.contains("翻译后端")));
}

#[test]
fn test_validate_pipeline_channel_capacity_zero() {
    let mut config = default_config();
    config.pipeline.channel_capacity = 0;
    let warnings = check(&config, ValidationLevel::Standard);
    assert!(warnings
        .iter()
        .any(|w| w.field == "pipeline.channel_capacity" && w.severity == Severity::Error));
}

#[test]
fn test_validate_cloning_missing_command() {
    let mut config = default_config();
    config.cloning.engine = "subprocess-persistent".to_string();
    config.cloning.clone_command = None;
    config.cloning.clone_args = Vec::new();
    let warnings = check(&config, ValidationLevel::Standard);
    assert!(warnings
        .iter()
        .any(|w| w.field == "cloning.clone_command" && w.severity == Severity::Error));
}

#[test]
fn test_validate_voice_extractor_min_max() {
    let mut config = default_config();
    config.cloning.voice_extractor.min_duration_secs = double(10.0);
    config.cloning.voice_extractor.max_duration_secs = double(5.0);
    let warnings = check(&config, ValidationLevel::Standard);
    assert!(warnings
        .iter()
        .any(|w| w.severity == Severity::Error && w.message.contains("min_duration")));
}

#[test]
fn test_validate_cross_module_concurrency() {
    let mut config = default_config();
    config.max_concurrent_tasks = 200;
    config.pipeline.channel_capacity = 10;
    let warnings = check(&config, ValidationLevel::Standard);
    assert!(warnings
        .iter()
        .any(|w| w.field == "cross_module" && w.severity == Severity::Warning));
}

#[test]
fn test_validate_tts_parallel_tasks_zero() {
    let mut config = default_config();
    config.tts.parallel_tasks = 0;
    let warnings = check(&config, ValidationLevel::Standard);
    assert!(warnings
        .iter()
        .any(|w| w.field == "tts.parallel_tasks" && w.severity == Severity::Error));
}

#[test]
fn test_validate_strict_mode_info() {
    let mut config = default_config();
    config.tts.speed = single(0.6);
    let warnings = check(&config, ValidationLevel::Strict);
    assert!(warnings.iter().any(|w| w.severity == Severity::Info));
}

#[test]
fn test_validate_lenient_mode_no_info() {
    let mut config = default_config();
    config.tts.speed = single(0.6);
    let warnings = check(&config, ValidationLevel::Lenient);
    assert!(!warnings.iter().any(|w| w.severity == Severity::Info));
}

#[test]
fn test_detect_unknown_fields() {
    let toml = r#"
[asr]
model = "whisper-large"
unknown_field = "oops"

[tts]
speed = 1.0
typo_speed = 2.0
"#;
    let warnings = detect_unknown_fields(toml);
    assert!(warnings.iter().any(|w| w.field == "asr.unknown_field"));
    assert!(warnings.iter().any(|w| w.field == "tts.typo_speed"));
}

#[test]
fn test_detect_unknown_fields_clean() {
    let toml = r#"
[asr]
model = "whisper-large"

[tts]
speed = 1.0
"#;
    let warnings = detect_unknown_fields(toml);
    assert!(
        warnings.is_empty(),
        "Should have no unknown fields: {:?}",
        warnings
    );
}

#[test]
fn test_detect_unknown_fields_skips_comments() {
    let toml = r#"
# This is a comment
[asr]
model = "whisper-large" # inline comment
"#;
    let warnings = detect_unknown_fields(toml);
    assert!(warnings.is_empty());
}

#[test]
fn test_validation_warning_display() {
    let w = ValidationWarning {
        field: "tts.speed".to_string(),
        message: "值 5.0 超出范围".to_string(),
        severity: Severity::Error,
    };
    let s = w.to_string();
    assert!(s.contains("[ERROR]"));
    assert!(s.contains("tts.speed"));
}

#[test]
fn test_validate_audio_sync_speed_too_high() {
    let mut config = default_config();
    config.audio_sync.mode = AudioSyncMode::SpeedUp;
    config.audio_sync.max_speed_ratio = single(2.5);
    let warnings = check(&config, ValidationLevel::Standard);
    assert!(warnings
        .iter()
        .any(|w| w.field == "audio_sync" && w.severity == Severity::Warning));
}

#[test]
fn test_validate_cloning_temperature_out_of_range() {
    let mut config = default_config();
    config.cloning.temperature = single(3.0);
    let warnings = check(&config, ValidationLevel::Standard);
    assert!(warnings
        .iter()
        .any(|w| w.field == "cloning.temperature" && w.severity == Severity::Error));
}

#[test]
fn test_validate_background_music_missing_file() {
    let mut config = default_config();
    config.background_music.path = Some("/nonexistent/music.mp3".to_string());
    let warnings = check(&config, ValidationLevel::Standard);
    assert!(warnings.iter().any(|w| w.field == "background_music.path"));
    let found = validate_config(&config, ValidationLevel::Strict, true);
    assert!(!found.iter().any(|w| w.field == "background_music.path"));
}

#[test]
fn test_validate_translation_max_tokens_too_small() {
    let mut config = default_config();
    config.translation.max_tokens = 32;
    let warnings = check(&config, ValidationLevel::Standard);
    assert!(warnings
        .iter()
        .any(|w| w.field == "translation.max_tokens" && w.severity == Severity::Error));
}

#[test]
fn a_stricter_level_reports_more() {
    let mut config = default_config();
    config.tts.speed = single(0.6);
    config.tts.volume = single(-0.5);
    config.max_concurrent_tasks = 200;
    config.pipeline.channel_capacity = 10;
    let lenient = check(&config, ValidationLevel::Lenient);
    let standard = check(&config, ValidationLevel::Standard);
    let strict = check(&config, ValidationLevel::Strict);
    assert!(!lenient.is_empty());
    assert!(lenient.iter().all(|w| w.severity == Severity::Error));
    assert!(standard.iter().any(|w| w.severity == Severity::Warning));
    assert!(standard.iter().all(|w| w.severity != Severity::Info));
    assert!(strict.iter().any(|w| w.severity == Severity::Info));
    assert!(lenient.len() < standard.len() && standard.len() < strict.len());
}

#[test]
fn a_number_is_shown_as_it_is_written() {
    let mut config = default_config();
    config.audio_sync.max_speed_ratio = single(3.5);
    let warnings = check(&config, ValidationLevel::Lenient);
    let found = warnings
        .iter()
        .find(|w| w.field == "audio_sync.max_speed_ratio");
    assert_eq!(
        found.map(|w| w.message.as_str()),
        Some("加速上限 3.5 超出 [1.0, 2.0]")
    );
}

#[test]
fn the_settings_that_are_used_unless_others_are_given() {
    let config = default_config();
    assert_eq!(config.translation.device, "cpu");
    assert_eq!(config.audio_sync.mode, AudioSyncMode::SpeedUp);
    assert_eq!(f32::from_bits(config.audio_sync.max_speed_ratio.value.bits), 1.3);
    assert_eq!(config.checkpoint.retention_days, 7);
    assert_eq!(TranslationMode::default(), config.translation.translation_mode);
    assert!(is_known_field("tts.speed"));
    assert!(!is_known_field("tts.sped"));
}

#[test]
fn every_documented_setting_is_known() {
    let content = "[translation]\ndevice = \"cpu\"\nmax_tokens = 512\ntemperature = 0.3\n\n\
                   [translation.model_source]\nModelScope = { repo_id = \
                   \"Qwen/Qwen2.5-7B-Instruct-GGUF\", revision = \"master\" }\n";
    assert!(detect_unknown_fields(content).is_empty());
    assert!(is_known_field("diarization.enabled"));
    assert!(is_known_field("diarization.engine"));
    assert!(is_known_field("diarization.use_coreml"));
    assert!(is_known_field("translation.model_source.ModelScope.repo_id"));
    assert!(!is_known_field("diarization.enable"));
    assert!(!is_known_field("translation.model_source.Modelscope"));
}

#[test]
fn the_source_of_the_model_is_set() {
    let config = default_config();
    assert_eq!(
        config.translation.model_source,
        "{ ModelScope = { repo_id = \"Qwen/Qwen2.5-3B-Instruct-GGUF\", revision = \"master\" } }"
    );
    assert_eq!(config.speed_rate.mode, "hybrid");
}

#[test]
fn settings_are_held_to_their_documented_ranges() {
    let found = |change: &dyn Fn(&mut Config), field: &str| {
        let mut config = default_config();
        change(&mut config);
        let warnings = check(&config, ValidationLevel::Standard);
        let found = warnings.into_iter().find(|w| w.field == field);
        found.map(|w| (w.message, w.severity))
    };
    let pitch = |x: f32| found(&|c: &mut Config| c.tts.pitch = single(x), "tts.pitch");
    assert_eq!(pitch(0.8), None);
    assert_eq!(pitch(1.2), None);
    assert_eq!(pitch(1.5), Some(("值 1.5 超出范围 [0.8, 1.2]".to_string(), Severity::Error)));
    assert_eq!(pitch(0.75), Some(("值 0.75 超出范围 [0.8, 1.2]".to_string(), Severity::Error)));
    let rate = |x: u32| found(&|c: &mut Config| c.tts.sample_rate = x, "tts.sample_rate");
    for allowed in [16000, 24000, 48000] {
        assert_eq!(rate(allowed), None);
    }
    assert_eq!(
        rate(22050),
        Some((
            "采样率 22050 不在常见列表中: [16000, 24000, 48000]".to_string(),
            Severity::Warning
        ))
    );
    let ratio = |x: f32| {
        let set = |c: &mut Config| {
            c.audio_sync.mode = AudioSyncMode::Hybrid;
            c.audio_sync.max_speed_ratio = single(x);
        };
        found(&set, "audio_sync.max_speed_ratio")
    };
    assert_eq!(ratio(2.0), None);
    assert_eq!(
        ratio(2.5),
        Some(("加速上限 2.5 超出 [1.0, 2.0]".to_string(), Severity::Error))
    );
}
