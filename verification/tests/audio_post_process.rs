use vt_core::audio_post_process::{
    build_filter_chain, extend_music_args, fade_len, mix_music_args, pad_silence, process_args,
    remove_mid_silence, remove_silence_args, seconds_text, validate_wav, volume_rule,
    FilterSettings, VolumeRule, WavFormat,
};
use vt_core::config::TtsConfig;
use vt_core::ieee::{Double, Single, F32};

fn single(x: f32) -> F32 {
    F32::from_bits(x.to_bits())
}

fn settings(pitch: f32, config: &TtsConfig) -> FilterSettings {
    let combined = pitch * f32::from_bits(config.pitch.value.bits);
    let volume = f32::from_bits(config.volume.value.bits);
    let eq = f64::from_bits(config.eq_high_shelf_db.value.bits);
    FilterSettings {
        combined_pitch: single(combined),
        new_rate: (24000.0 * combined) as u32,
        tempo: format!("{:.4}", 1.0 / combined),
        volume: single(volume),
        volume_text: format!("{volume:.4}"),
        eq_high_shelf_db: config.eq_high_shelf_db.value,
        eq_text: format!("{eq:.2}"),
        crossfade_duration_ms: config.crossfade_duration_ms,
    }
}

fn female() -> String {
    build_filter_chain(&settings(1.0, &TtsConfig::with_cores(Some(8))))
}

fn rms(samples: &[f32]) -> f32 {
    if samples.is_empty() {
        return 0.0;
    }
    let sum: f64 = samples.iter().map(|&x| x as f64 * x as f64).sum();
    (sum / samples.len() as f64).sqrt() as f32
}

fn without_silence(samples: &[f32], rate: u32, mid: u32, lead: u32, trail: u32, db: f32) -> Vec<f32> {
    let threshold = 10.0f32.powf(db / 20.0);
    let silent: Vec<bool> = samples
        .chunks((rate / 50) as usize)
        .map(|frame| rms(frame) < threshold)
        .collect();
    remove_mid_silence(&samples.to_vec(), &silent, rate, mid, lead, trail)
}

#[test]
fn test_filter_chain_contains_highshelf() {
    assert!(
        female().contains("highshelf"),
        "Should contain highshelf for sibilance reduction"
    );
}

#[test]
fn test_filter_chain_contains_lowshelf() {
    assert!(
        female().contains("lowshelf"),
        "Should contain lowshelf for warmth enhancement"
    );
}

#[test]
fn test_filter_chain_contains_dynaudnorm() {
    assert!(
        female().contains("dynaudnorm"),
        "Should contain dynaudnorm for AGC"
    );
}

#[test]
fn test_filter_chain_contains_fade() {
    let chain = female();
    assert!(chain.contains("afade"), "Should contain afade");
    assert!(chain.contains("areverse"), "Should contain areverse");
}

#[test]
fn test_filter_chain_male_contains_pitch_shift() {
    let chain = build_filter_chain(&settings(0.85, &TtsConfig::with_cores(Some(8))));
    assert!(
        chain.contains("asetrate"),
        "Should contain asetrate for pitch shift"
    );
    assert!(
        chain.contains("atempo"),
        "Should contain atempo for speed compensation"
    );
}

#[test]
fn test_filter_chain_female_no_pitch_shift() {
    assert!(
        !female().contains("asetrate"),
        "Should not contain asetrate for default female voice"
    );
}

#[test]
fn test_filter_chain_volume_adjustment() {
    let mut config = TtsConfig::with_cores(Some(8));
    config.volume = Single::new(1.5f32.to_bits(), "1.5", "1.5");
    let chain = build_filter_chain(&settings(1.0, &config));
    assert!(
        chain.contains("volume=1.5000"),
        "Should contain volume filter"
    );
}

#[test]
fn test_filter_chain_disable_highshelf() {
    let mut config = TtsConfig::with_cores(Some(8));
    config.eq_high_shelf_db = Double::new(0.0f64.to_bits(), "0");
    let chain = build_filter_chain(&settings(1.0, &config));
    assert!(
        !chain.contains("highshelf"),
        "Should not contain highshelf when eq_high_shelf_db is 0"
    );
}

#[test]
fn test_filter_chain_custom_crossfade() {
    let mut config = TtsConfig::with_cores(Some(8));
    config.crossfade_duration_ms = 100;
    let chain = build_filter_chain(&settings(1.0, &config));
    assert!(
        chain.contains("d=0.100"),
        "Should contain custom fade duration, got: {chain}"
    );
}

#[test]
fn test_remove_mid_silence_no_silence() {
    let wav: Vec<f32> = (0..4800).map(|i| (i as f32 * 0.01).sin() * 0.5).collect();
    let result = without_silence(&wav, 24000, 300, 100, 100, -50.0);
    let ratio = (result.len() as f32 - wav.len() as f32).abs() / wav.len() as f32;
    assert!(ratio < 0.1);
}

#[test]
fn test_remove_mid_silence_with_gap() {
    let sample_rate = 24000u32;
    let signal: Vec<f32> = (0..sample_rate as usize)
        .map(|i| (i as f32 * 0.01).sin() * 0.5)
        .collect();
    let silence: Vec<f32> = vec![0.0; sample_rate as usize];
    let mut wav = Vec::new();
    wav.extend_from_slice(&signal);
    wav.extend_from_slice(&silence);
    wav.extend_from_slice(&signal);
    let result = without_silence(&wav, sample_rate, 300, 100, 100, -50.0);
    assert!(
        result.len() < wav.len(),
        "Should be shorter after removing mid silence: {} vs {}",
        result.len(),
        wav.len()
    );
    assert!(
        result.len() > sample_rate as usize,
        "Should retain signal data"
    );
    assert_eq!(result.len(), 2 * 24000 + 5 * 480);
}

#[test]
fn test_remove_mid_silence_all_silence() {
    let wav = vec![0.0; 4800];
    let result = without_silence(&wav, 24000, 300, 100, 100, -50.0);
    assert_eq!(result.len(), wav.len());
}

#[test]
fn test_remove_mid_silence_empty() {
    assert!(without_silence(&[], 24000, 300, 100, 100, -50.0).is_empty());
}

#[test]
fn test_remove_mid_silence_preserves_short_pauses() {
    let sample_rate = 24000u32;
    let signal: Vec<f32> = (0..sample_rate as usize / 2)
        .map(|i| (i as f32 * 0.01).sin() * 0.5)
        .collect();
    let short_silence: Vec<f32> = vec![0.0; sample_rate as usize / 5];
    let mut wav = Vec::new();
    wav.extend_from_slice(&signal);
    wav.extend_from_slice(&short_silence);
    wav.extend_from_slice(&signal);
    let result = without_silence(&wav, sample_rate, 300, 100, 100, -50.0);
    assert!(
        result.len() >= wav.len() * 9 / 10,
        "Short pauses should be preserved: {} vs {}",
        result.len(),
        wav.len()
    );
    assert_eq!(result, wav);
}

#[test]
fn silence_at_either_end_is_shortened() {
    let samples: Vec<u32> = (0..10).collect();
    let silent = vec![true, true, true, true, false, false, true, true, true, true];
    let kept = remove_mid_silence(&samples, &silent, 50, 300, 40, 20);
    assert_eq!(kept, vec![2, 3, 4, 5, 6]);
    assert_eq!(remove_mid_silence(&samples, &vec![], 49, 300, 40, 20), samples);
}

#[test]
fn the_whole_chain_of_a_voice() {
    let mut config = TtsConfig::with_cores(Some(8));
    config.eq_high_shelf_db = Double::new((-3.0f64).to_bits(), "-3");
    config.crossfade_duration_ms = 50;
    assert_eq!(
        build_filter_chain(&settings(0.5, &config)),
        "asetrate=12000,atempo=2.0000,highshelf=f=6000:g=-3.00,lowshelf=f=300:g=2.00,\
         dynaudnorm=f=150:g=15:p=0.9,afade=t=in:st=0:d=0.050,areverse,afade=t=in:st=0:d=0.050,\
         areverse"
    );
}

#[test]
fn the_volume_follows_the_reference_or_the_peak() {
    let peak = single(0.8);
    assert_eq!(volume_rule(Some(single(0.05)), peak), VolumeRule::ByReference);
    assert_eq!(volume_rule(Some(single(0.3)), peak), VolumeRule::Unchanged);
    assert_eq!(volume_rule(None, peak), VolumeRule::ByPeak);
    assert_eq!(volume_rule(None, single(0.0)), VolumeRule::Unchanged);
}

#[test]
fn fades_and_padding() {
    assert_eq!(fade_len(100, 2400), 50);
    assert_eq!(fade_len(4800, 1200), 1200);
    assert_eq!(pad_silence(&vec![7, 8], 0, 2), vec![0, 0, 7, 8, 0, 0]);
    assert!(pad_silence(&Vec::<u8>::new(), 0, 2).is_empty());
    assert_eq!(seconds_text(1050), "1.050");
}

#[test]
fn what_ffmpeg_is_asked() {
    assert_eq!(
        process_args("i.wav", "chain", 24000, "o.wav").join(" "),
        "-y -i i.wav -af chain -ar 24000 -ac 1 -c:a pcm_s16le o.wav"
    );
    assert!(remove_silence_args("i.wav", "o.wav")[4].starts_with("silenceremove=start_periods=1"));
    let once = mix_music_args("v.wav", "m.mp3", "o.wav", "0.30", false).join(" ");
    assert_eq!(
        once,
        "-y -i v.wav -i m.mp3 -filter_complex \
         [1:a]volume=0.30[bg];[0:a][bg]amix=inputs=2:duration=first:dropout_transition=2[aout] \
         -map [aout] -c:a pcm_s16le o.wav"
    );
    let looped = mix_music_args("v.wav", "m.mp3", "o.wav", "0.30", true).join(" ");
    assert!(looped.contains("-i v.wav -stream_loop -1 -i m.mp3"));
    let slowed = extend_music_args("m.mp3", "o.wav", "12.000", Some("0.9000")).join(" ");
    assert!(slowed.contains("0.9000"));
    let repeated = extend_music_args("m.mp3", "o.wav", "12.000", None).join(" ");
    assert!(repeated.contains("-stream_loop -1") && repeated.contains("-t 12.000"));
}

#[test]
fn other_formats_are_refused() {
    let format = |sample_rate: u32, channels: u16, bits_per_sample: u16| WavFormat {
        sample_rate,
        channels,
        bits_per_sample,
    };
    assert!(validate_wav(&format(24000, 1, 16), 10, 24000, "\"x\"").is_ok());
    assert_eq!(
        validate_wav(&format(16000, 2, 8), 10, 24000, "\"x\"").unwrap_err().to_string(),
        "TTS audio encode error: Output WAV format mismatch: expected 24000Hz mono 16-bit, got \
         16000Hz 2ch 8bit\n文件: \"x\""
    );
    assert_eq!(
        validate_wav(&format(24000, 1, 16), 0, 24000, "\"x\"").unwrap_err().to_string(),
        "TTS audio encode error: Output WAV contains no audio samples\n文件: \"x\""
    );
}
