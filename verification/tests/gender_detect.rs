use vt_core::gender_detect::{
    detect_gender, detect_gender_from_wav, frames, gender_from_lags, peak, peak_lags, Frames,
    VoiceGender, AUTOCORR_THRESHOLD, SILENCE_THRESHOLD,
};
use vt_core::ieee::F32;

fn generate_sine(freq: f64, duration_secs: f64, sample_rate: u32) -> Vec<f32> {
    let n = (duration_secs * sample_rate as f64) as usize;
    (0..n)
        .map(|i| {
            (2.0 * std::f64::consts::PI * freq * i as f64 / sample_rate as f64).sin() as f32 * 0.5
        })
        .collect()
}

fn correlations(samples: &[f32], cut: &Frames) -> Vec<Vec<F32>> {
    (0..cut.count)
        .map(|i| {
            let frame = &samples[i * cut.size..(i + 1) * cut.size];
            let energy: f32 = frame.iter().map(|s| s * s).sum::<f32>() / frame.len() as f32;
            let mean: f32 = frame.iter().sum::<f32>() / frame.len() as f32;
            let centered: Vec<f32> = frame.iter().map(|s| s - mean).collect();
            let total: f32 = centered.iter().map(|s| s * s).sum();
            if energy < f32::from_bits(SILENCE_THRESHOLD) || total < 1e-6 {
                return Vec::new();
            }
            (cut.min_lag..cut.max_lag)
                .map(|lag| {
                    let mut sum = 0.0f32;
                    for j in 0..cut.size - lag {
                        sum += centered[j] * centered[j + lag];
                    }
                    F32::from_bits((sum / (total + 1e-10)).to_bits())
                })
                .collect()
        })
        .collect()
}

fn gender(samples: &[f32], sample_rate: u32) -> VoiceGender {
    match frames(samples.len(), sample_rate) {
        Some(cut) => detect_gender(&correlations(samples, &cut), cut.min_lag, sample_rate),
        None => VoiceGender::Female,
    }
}

#[test]
fn test_detect_gender_empty() {
    assert_eq!(gender(&[], 16000), VoiceGender::Female);
}

#[test]
fn test_detect_gender_zero_sample_rate() {
    assert_eq!(gender(&[0.5, 0.5], 0), VoiceGender::Female);
}

#[test]
fn test_detect_gender_silence() {
    let samples = vec![0.0f32; 16000];
    assert_eq!(gender(&samples, 16000), VoiceGender::Female);
}

#[test]
fn test_detect_gender_low_f0_male() {
    let samples = generate_sine(120.0, 3.0, 16000);
    assert_eq!(
        gender(&samples, 16000),
        VoiceGender::Male,
        "120Hz should be detected as Male"
    );
}

#[test]
fn test_detect_gender_high_f0_female() {
    let samples = generate_sine(220.0, 3.0, 16000);
    assert_eq!(
        gender(&samples, 16000),
        VoiceGender::Female,
        "220Hz should be detected as Female"
    );
}

#[test]
fn test_detect_gender_short_audio() {
    let samples = generate_sine(120.0, 0.01, 16000);
    assert_eq!(
        gender(&samples, 16000),
        VoiceGender::Female,
        "Very short audio should default to Female"
    );
}

#[test]
fn ten_seconds_are_cut_into_whole_frames() {
    let cut = frames(1_000_000, 16000).unwrap();
    assert_eq!(cut.size, 480);
    assert_eq!(cut.count, 333);
    assert_eq!(cut.min_lag, 40);
    assert_eq!(cut.max_lag, 240);
    assert_eq!(frames(479, 16000), None);
    assert_eq!(frames(480, 16000).unwrap().count, 1);
    assert_eq!(frames(100, 33), None);
}

#[test]
fn the_median_decides() {
    let rate = 16000;
    let low = 134;
    let high = 73;
    assert_eq!(gender_from_lags(&vec![low, low, high], rate), VoiceGender::Male);
    assert_eq!(gender_from_lags(&vec![low, high, high], rate), VoiceGender::Female);
    assert_eq!(gender_from_lags(&vec![low, low, high, high], rate), VoiceGender::Female);
    assert_eq!(gender_from_lags(&vec![low, low], rate), VoiceGender::Female);
    assert_eq!(gender_from_lags(&vec![low, low, 0, 0, 10_000], rate), VoiceGender::Female);
    let mut sorted = vec![16000.0 / 134.0, 16000.0 / 134.0, 16000.0 / 73.0, 16000.0 / 73.0];
    sorted.sort_by(f64::total_cmp);
    assert!(sorted[2] >= 165.0);
}

#[test]
fn a_recording_that_cannot_be_read_is_taken_for_female() {
    assert_eq!(detect_gender_from_wav(&None), VoiceGender::Female);
    let known = Some((vec![134, 134, 134], 16000));
    assert_eq!(detect_gender_from_wav(&known), VoiceGender::Male);
}

#[test]
fn the_first_of_the_highest_peaks_counts() {
    let values: Vec<F32> = [0.2f32, 0.9, 0.5, 0.9]
        .iter()
        .map(|x| F32::from_bits(x.to_bits()))
        .collect();
    assert_eq!(peak(&values), Some(1));
    assert_eq!(f32::from_bits(AUTOCORR_THRESHOLD), 0.3);
    assert_eq!(peak(&vec![F32::from_bits(AUTOCORR_THRESHOLD)]), None);
    assert_eq!(peak_lags(&vec![values, vec![]], 40), vec![41, 0]);
}
