use vt_core::asr::{
    check_wav_format, detect_speech_segments, frame_samples, label_segments, order_by_start,
    resolve_model_filename, sample_span, ModelManager, SpeechSegment, VadConfig, WhisperConfig,
};
use vt_core::audio_post_process::WavFormat;
use vt_core::ieee::{F32, F64};

fn energies(list: &[(f32, usize)]) -> Vec<F32> {
    list.iter()
        .flat_map(|(e, n)| std::iter::repeat(F32::from_bits(e.to_bits())).take(*n))
        .collect()
}

#[test]
fn speech_is_found_between_silences() {
    let config = VadConfig {
        frame_size_ms: 100,
        ..VadConfig::default()
    };
    let found = detect_speech_segments(
        &energies(&[(0.0, 10), (0.5, 20), (0.0, 10), (0.5, 2), (0.0, 10), (0.5, 8)]),
        &config,
    );
    assert_eq!(
        found,
        vec![
            SpeechSegment { start_ms: 800, end_ms: 3200 },
            SpeechSegment { start_ms: 5000, end_ms: 6200 },
        ]
    );
    assert!(detect_speech_segments(&vec![], &config).is_empty());
    let short = VadConfig {
        frame_size_ms: 100,
        min_speech_duration_ms: 100,
        speech_pad_ms: 0,
        ..VadConfig::default()
    };
    assert_eq!(
        detect_speech_segments(&energies(&[(0.5, 1), (0.0, 10)]), &short),
        vec![SpeechSegment { start_ms: 0, end_ms: 100 }]
    );
    let none = VadConfig { frame_size_ms: 0, ..VadConfig::default() };
    assert!(detect_speech_segments(&energies(&[(0.5, 5)]), &none).is_empty());
    assert_eq!(frame_samples(16000, 30), 480);
    assert_eq!(f32::from_bits(VadConfig::default().energy_threshold.bits), 0.03);
}

#[test]
fn only_mono_at_16_khz_is_read() {
    let check = |sample_rate: u32, channels: u16, bits_per_sample: u16| {
        check_wav_format(&WavFormat {
            sample_rate,
            channels,
            bits_per_sample,
        })
    };
    assert!(check(16000, 1, 16).is_ok());
    assert_eq!(
        check(44100, 2, 24).unwrap_err().to_string(),
        "Audio decode error: Expected 16kHz sample rate, got 44100Hz"
    );
    assert_eq!(
        check(16000, 2, 24).unwrap_err().to_string(),
        "Audio decode error: Expected mono audio (1 channel), got 2 channels"
    );
    assert_eq!(
        check(16000, 1, 24).unwrap_err().to_string(),
        "Audio decode error: Expected 16-bit PCM, got 24-bit"
    );
}

#[test]
fn samples_are_cut_at_the_end_of_the_recording() {
    assert_eq!(sample_span(10, 20, 100), Some((10, 20)));
    assert_eq!(sample_span(10, 200, 100), Some((10, 100)));
    assert_eq!(sample_span(100, 200, 100), None);
    assert_eq!(sample_span(20, 20, 100), None);
}

#[test]
fn models_have_files_and_addresses() {
    assert_eq!(resolve_model_filename("whisper-tiny"), "ggml-tiny.bin");
    assert_eq!(resolve_model_filename("whisper-medium"), "ggml-small.bin");
    assert_eq!(resolve_model_filename("ggml-own.bin"), "ggml-own.bin");
    assert_eq!(resolve_model_filename("other"), "ggml-large-v3-turbo-q5_0.bin");
    let manager = ModelManager::new(Some("/home/me")).unwrap();
    assert_eq!(manager.cache_dir(), "/home/me/.cache/video-translator/models");
    assert_eq!(
        ModelManager::with_cache_dir("/m").model_path("whisper-tiny"),
        "/m/ggml-tiny.bin"
    );
    assert!(ModelManager::download_url("whisper-tiny").ends_with("FilePath=ggml-tiny.bin"));
    assert_eq!(
        ModelManager::new(None).unwrap_err().to_string(),
        "Configuration error: HOME environment variable not set"
    );
}

#[test]
fn settings_are_built_up() {
    let config = WhisperConfig::default();
    assert_eq!(config.default_model(), Some("whisper-large-v3-turbo-q5"));
    let config = config
        .with_model_path("/m.bin")
        .with_language("en")
        .with_metal(false)
        .with_vad(false)
        .with_n_threads(2)
        .with_initial_prompt("hi");
    assert_eq!(config.model_path, "/m.bin");
    assert_eq!(config.language, "en");
    assert!(!config.use_metal && !config.use_vad);
    assert_eq!(config.n_threads, 2);
    assert_eq!(config.initial_prompt.as_deref(), Some("hi"));
    assert_eq!(config.default_model(), None);
}

#[test]
fn pieces_with_text_are_numbered_on() {
    let mut counter = 3;
    let pieces: Vec<String> = [" a ", "  ", "b"].iter().map(|s| s.to_string()).collect();
    let labelled = label_segments(&pieces, &mut counter);
    assert_eq!(labelled.len(), 2);
    assert_eq!(labelled[0].text, "a");
    assert_eq!((labelled[1].index, labelled[1].text.as_str()), (2, "b"));
    assert_ne!(labelled[0].id, labelled[1].id);
    assert_eq!(counter, 5);
}

#[test]
fn segments_are_ordered_by_their_start() {
    let starts: Vec<F64> = [2.0f64, -1.0, 2.0, 0.5]
        .iter()
        .map(|x| F64::from_bits(x.to_bits()))
        .collect();
    assert_eq!(order_by_start(&starts), vec![1, 3, 0, 2]);
}
