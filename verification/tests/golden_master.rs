use vt_core::golden_master::{
    greatest_magnitude, judge, sample_bytes, sha2_hash, zero_crossings, AudioFeatures,
    AudioFingerprint, AudioTolerances, FeatureChange, FingerprintCompare, GoldenMaster,
    GoldenMasterTestCase, Measured, TextFingerprint, TextTolerances,
};
use vt_core::ieee::{F32, F64};

fn double(x: f64) -> F64 {
    F64::from_bits(x.to_bits())
}

fn singles(list: &[f32]) -> Vec<F32> {
    list.iter().map(|x| F32::from_bits(x.to_bits())).collect()
}

fn features(samples: &[f32], sample_rate: u32) -> AudioFeatures {
    let n = samples.len() as f64;
    let square: f64 = samples.iter().map(|s| (*s as f64) * (*s as f64)).sum();
    let sum: f64 = samples.iter().map(|s| *s as f64).sum();
    let peak = greatest_magnitude(&singles(samples));
    let crossings = zero_crossings(&singles(samples));
    AudioFeatures {
        duration_secs: double(n / sample_rate as f64),
        rms: double((square / n).sqrt()),
        peak: double(f32::from_bits(peak.bits) as f64),
        dc_offset: double(sum / n),
        zero_crossing_rate: double(crossings as f64 / (n - 1.0)),
        spectral_flatness: double(0.0),
        energy_in_speech_band: double(0.0),
    }
}

fn fingerprint(samples: &[f32], sample_rate: u32) -> AudioFingerprint {
    AudioFingerprint::from_samples(&singles(samples), sample_rate, &features(samples, sample_rate))
}

fn measured(a: F64, b: F64, decimals: usize) -> Measured {
    let (x, y) = (f64::from_bits(a.bits), f64::from_bits(b.bits));
    let diff = (x - y).abs();
    Measured {
        before: format!("{x:.decimals$}"),
        after: format!("{y:.decimals$}"),
        diff: double(diff),
        diff_text: format!("{diff:.decimals$}"),
    }
}

fn compare(a: &AudioFingerprint, b: &AudioFingerprint) -> FingerprintCompare {
    let list = vec![
        measured(a.duration_secs, b.duration_secs, 4),
        measured(a.rms, b.rms, 6),
        measured(a.peak, b.peak, 6),
        measured(a.dc_offset, b.dc_offset, 6),
        measured(a.zero_crossing_rate, b.zero_crossing_rate, 6),
        measured(a.spectral_flatness, b.spectral_flatness, 6),
        measured(a.energy_in_speech_band, b.energy_in_speech_band, 6),
    ];
    a.compare(b, &list)
}

fn average(fp: &TextFingerprint) -> F64 {
    double(fp.word_char_count as f64 / fp.word_count as f64)
}

fn cjk_ratio(fp: &TextFingerprint) -> F64 {
    double(fp.cjk_count as f64 / fp.char_count as f64)
}

fn compare_texts(a: &TextFingerprint, b: &TextFingerprint) -> FingerprintCompare {
    a.compare(
        b,
        &measured(average(a), average(b), 2),
        &measured(cjk_ratio(a), cjk_ratio(b), 4),
    )
}

#[test]
fn test_audio_fingerprint_silence() {
    let samples = vec![0.0_f32; 2400];
    let fp = fingerprint(&samples, 24000);
    assert_eq!(fp.sample_count, 2400);
    assert!((f64::from_bits(fp.rms.bits) - 0.0).abs() < 1e-10);
    assert!((f64::from_bits(fp.peak.bits) - 0.0).abs() < 1e-10);
    assert!((f64::from_bits(fp.dc_offset.bits) - 0.0).abs() < 1e-10);
}

#[test]
fn test_audio_fingerprint_deterministic() {
    let samples = [0.1, -0.2, 0.3, -0.4, 0.5, -0.6, 0.7, -0.8];
    let fp1 = fingerprint(&samples, 8000);
    let fp2 = fingerprint(&samples, 8000);
    assert_eq!(fp1.sha256_hash, fp2.sha256_hash);
    assert_eq!(compare(&fp1, &fp2), FingerprintCompare::Match);
}

#[test]
fn test_audio_fingerprint_detect_change() {
    let fp1 = fingerprint(&vec![0.5_f32; 100], 8000);
    let fp2 = fingerprint(&vec![0.8_f32; 100], 8000);
    assert_ne!(fp1.sha256_hash, fp2.sha256_hash);
    let outcome = compare(&fp1, &fp2);
    assert!(!outcome.is_pass(), "Different amplitudes should not pass");
    match outcome {
        FingerprintCompare::Changed { changes } => {
            assert_eq!(changes.len(), 3);
            assert_eq!(
                changes[0],
                "rms: 0.500000 → 0.800000 (Δ=0.300000, tol=0.005000)"
            );
        }
        other => panic!("unexpected: {other:?}"),
    }
}

#[test]
fn test_audio_fingerprint_approximate_match() {
    let samples1: Vec<f32> = (0..100).map(|i| (i as f32) * 0.01).collect();
    let samples2: Vec<f32> = samples1.iter().map(|s| s + 1e-7).collect();
    let fp1 = fingerprint(&samples1, 8000);
    let fp2 = fingerprint(&samples2, 8000);
    let cmp = compare(&fp1, &fp2);
    assert!(cmp.is_pass(), "Tiny float diff should pass: {}", cmp.diff_message());
}

#[test]
fn test_text_fingerprint_english() {
    let fp = TextFingerprint::from_text("Hello world. This is a test.");
    assert_eq!(fp.char_count, 28);
    assert!(fp.word_count >= 5);
    assert!(fp.ascii_count as f64 / fp.char_count as f64 > 0.9);
    assert!((fp.cjk_count as f64 / fp.char_count as f64) < 0.01);
    assert_eq!(fp.word_count, 6);
    assert_eq!(fp.sentence_count, 2);
    assert_eq!(fp.line_count, 1);
    assert_eq!(fp.word_char_count, 23);
    assert_eq!(fp.punctuation_count, 2);
}

#[test]
fn test_text_fingerprint_chinese() {
    let fp = TextFingerprint::from_text("你好世界。这是一个测试。");
    let summary = fp.summary("12.00", "83.33", "0.00");
    assert!(
        fp.cjk_count as f64 / fp.char_count as f64 > 0.5,
        "Chinese text should have high CJK ratio: {summary}"
    );
    assert!((fp.ascii_count as f64 / fp.char_count as f64) < 0.1);
    assert_eq!(
        summary,
        "chars=12, words=1, lines=1, sentences=2, avg_wl=12.00, cjk=83.33%, ascii=0.00%"
    );
}

#[test]
fn test_text_fingerprint_deterministic() {
    let text = "Same text produces same fingerprint.";
    let fp1 = TextFingerprint::from_text(text);
    let fp2 = TextFingerprint::from_text(text);
    assert_eq!(fp1.sha256_hash, fp2.sha256_hash);
    assert_eq!(compare_texts(&fp1, &fp2), FingerprintCompare::Match);
}

#[test]
fn test_text_fingerprint_detect_change() {
    let fp1 = TextFingerprint::from_text("This is a short text.");
    let fp2 = TextFingerprint::from_text(
        "This is a completely different and much longer text with more words.",
    );
    let outcome = compare_texts(&fp1, &fp2);
    assert!(!outcome.is_pass(), "Different texts should not pass");
    assert!(outcome
        .diff_message()
        .contains("char_count: 21 → 68 (Δ=47, tol=3)"));
}

#[test]
fn test_fingerprint_compare_diff_message() {
    let cmp = FingerprintCompare::Match;
    assert_eq!(cmp.diff_message(), "Exact match");

    let cmp = FingerprintCompare::ApproximateMatch;
    assert!(cmp.diff_message().contains("Approximate"));

    let cmp = FingerprintCompare::Changed {
        changes: vec!["field1 changed".to_string(), "field2 changed".to_string()],
    };
    let msg = cmp.diff_message();
    assert!(msg.contains("2 differences"));
    assert!(msg.contains("field1 changed"));
}

#[test]
fn the_digest_is_that_of_sha_256() {
    assert_eq!(
        sha2_hash(b"hello world"),
        "b94d27b9934d3e08a52e52d7da7dabfac484efe37a5380ee9088f7ace2efcde9"
    );
    assert_eq!(
        TextFingerprint::from_text("hello world").sha256_hash,
        sha2_hash(b"hello world")
    );
    assert_ne!(sha2_hash(b"a"), sha2_hash(b"b"));
}

#[test]
fn samples_are_written_lowest_byte_first() {
    let bytes = sample_bytes(&singles(&[1.0, -2.5]));
    let mut expected = 1.0f32.to_le_bytes().to_vec();
    expected.extend_from_slice(&(-2.5f32).to_le_bytes());
    assert_eq!(bytes, expected);
}

#[test]
fn crossings_and_peaks_are_counted() {
    assert_eq!(zero_crossings(&singles(&[1.0, -1.0, -0.5, 0.0, -0.0])), 2);
    assert_eq!(zero_crossings(&vec![]), 0);
    let peak = greatest_magnitude(&singles(&[0.1, -0.7, f32::NAN, 0.3]));
    assert_eq!(f32::from_bits(peak.bits), 0.7);
    assert_eq!(greatest_magnitude(&vec![]).bits, 0);
}

#[test]
fn lines_and_sentences_are_counted() {
    let fp = TextFingerprint::from_text("a\nb\n");
    assert_eq!((fp.line_count, fp.word_count, fp.sentence_count), (2, 2, 1));
    let empty = TextFingerprint::from_text("");
    assert_eq!((empty.line_count, empty.sentence_count, empty.char_count), (1, 1, 0));
    let marks = TextFingerprint::from_text("。 ? 12《》");
    assert_eq!((marks.sentence_count, marks.digit_count, marks.punctuation_count), (1, 2, 4));
}

#[test]
fn a_feature_that_cannot_be_compared_counts_as_changed() {
    let odd = FeatureChange {
        within: false,
        beyond: false,
        message: "odd".into(),
    };
    assert_eq!(
        judge(false, &vec![odd.clone()]),
        FingerprintCompare::Changed { changes: vec![] }
    );
    assert_eq!(judge(true, &vec![odd]), FingerprintCompare::Match);
    assert_eq!(judge(false, &vec![]), FingerprintCompare::ApproximateMatch);
}

#[test]
fn recordings_of_other_formats_are_refused() {
    assert_eq!(AudioFingerprint::check_format(16000, 16, None), Ok(()));
    assert_eq!(AudioFingerprint::check_format(16000, 8, Some(16000)), Ok(()));
    assert_eq!(
        AudioFingerprint::check_format(16000, 16, Some(24000)),
        Err("Sample rate mismatch: expected 24000 Hz, got 16000 Hz".to_string())
    );
    assert_eq!(
        AudioFingerprint::check_format(16000, 24, None),
        Err("Unsupported bits_per_sample: 24".to_string())
    );
}

#[test]
fn baselines_are_kept_by_module_and_test() {
    let gm = GoldenMaster::default_path();
    assert_eq!(gm.baseline_path("tts", "hello"), "test_golden/tts/hello.json");
    let listed = GoldenMaster::list_baselines(&vec![
        (
            "module_a".to_string(),
            vec!["test_1.json".to_string(), "test_2.json".to_string(), "notes.txt".to_string()],
        ),
        ("module_b".to_string(), vec!["test_3.json".to_string()]),
    ]);
    assert_eq!(listed.len(), 3);
    assert_eq!(listed[2], ("module_b".to_string(), "test_3".to_string()));
}

#[test]
fn the_first_run_is_kept_and_later_ones_are_compared() {
    assert_eq!(GoldenMaster::load_or_create(None), (FingerprintCompare::Match, true));
    let changed = FingerprintCompare::Changed {
        changes: vec!["x".to_string()],
    };
    assert_eq!(
        GoldenMaster::load_or_create(Some(changed.clone())),
        (changed.clone(), false)
    );
    let case = GoldenMasterTestCase::new("tts", "hello").with_baseline_dir("golden");
    assert_eq!(case.gm.baseline_dir, "golden");
    assert_eq!(case.failure(&FingerprintCompare::ApproximateMatch), None);
    let message = case.failure(&changed).unwrap();
    assert!(message.starts_with(
        "Golden master test tts/hello FAILED:\nChanged (1 differences):\n  - x\n\nIf this change"
    ));
}

#[test]
fn the_tolerances() {
    let audio = AudioTolerances::default();
    assert_eq!(f64::from_bits(audio.duration.bits), 0.01);
    assert_eq!(f64::from_bits(audio.rms.bits), 0.005);
    assert_eq!(f64::from_bits(audio.dc_offset.bits), 0.001);
    assert_eq!(f64::from_bits(audio.energy_in_speech_band.bits), 0.02);
    let text = TextTolerances::default();
    assert_eq!(f64::from_bits(text.char_count_diff.bits), 3.0);
    assert_eq!(f64::from_bits(text.word_count_diff.bits), 2.0);
    assert_eq!(f64::from_bits(text.avg_word_length_diff.bits), 0.5);
    assert_eq!(f64::from_bits(text.cjk_ratio_diff.bits), 0.05);
}

#[test]
fn a_fingerprint_in_words() {
    let fp = fingerprint(&[0.5, -0.5], 8000);
    let shown: Vec<String> = ["0.000", "0.5", "0.5", "0", "1", "0", "0"]
        .iter()
        .map(|s| s.to_string())
        .collect();
    assert_eq!(
        fp.summary(&shown),
        "samples=2, sr=8000Hz, dur=0.000s, rms=0.5, peak=0.5, dc=0, zcr=1, sf=0, esb=0"
    );
}

#[test]
fn test_golden_master_list_baselines() {
    let gm = GoldenMaster::new("/tmp/golden");
    let saved = [("module_a", "test_1"), ("module_a", "test_2"), ("module_b", "test_3")];
    let mut modules: Vec<(String, Vec<String>)> = Vec::new();
    for (module, test) in saved {
        let path = gm.baseline_path(module, test);
        let file = path.rsplit('/').next().unwrap().to_string();
        match modules.iter_mut().find(|(m, _)| m == module) {
            Some((_, files)) => files.push(file),
            None => modules.push((module.to_string(), vec![file])),
        }
    }
    let baselines = GoldenMaster::list_baselines(&modules);
    assert_eq!(baselines.len(), 3);
    for ((module, test), (m, t)) in saved.iter().zip(&baselines) {
        assert_eq!((*module, *test), (m.as_str(), t.as_str()));
    }
}
