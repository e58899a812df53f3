use vt_core::dpo::{
    DpoConfig, DpoTrainingData, DpoTrainingSample, NgramBanPolicy, NgramRepetitionDetector,
    RejectionSampler, RejectionStrategy, DEFAULT_BETA, DEFAULT_NGRAM_SIZE, NEGATIVE_INFINITY,
};
use vt_core::ieee::F32;

fn single(x: f32) -> F32 {
    F32::from_bits(x.to_bits())
}

fn singles(list: &[f32]) -> Vec<F32> {
    list.iter().map(|x| single(*x)).collect()
}

fn sampler(strategy: RejectionStrategy) -> RejectionSampler {
    RejectionSampler::new(DpoConfig {
        rejection_strategy: strategy,
        ..Default::default()
    })
}

#[test]
fn test_repetition_detector_no_repetition() {
    let detector = NgramRepetitionDetector::with_defaults();
    let tokens = vec![1, 2, 3, 4, 5, 6, 7, 8];
    assert!(!detector.has_repetition(&tokens));
}

#[test]
fn test_repetition_detector_with_repetition() {
    let detector = NgramRepetitionDetector::new(2, 10);
    let tokens = vec![1, 2, 3, 1, 2, 4];
    assert!(detector.has_repetition(&tokens));
}

#[test]
fn test_repetition_detector_short_sequence() {
    let detector = NgramRepetitionDetector::new(3, 10);
    let tokens = vec![1, 2];
    assert!(!detector.has_repetition(&tokens));
}

#[test]
fn test_repetition_detector_count() {
    let detector = NgramRepetitionDetector::new(2, 10);
    let tokens = vec![1, 2, 3, 1, 2, 3, 1, 2];
    let counts = detector.count_repetitions(&tokens);
    assert!(counts.iter().any(|(ng, c)| ng == &[1, 2] && *c == 3));
    assert!(counts.iter().any(|(ng, c)| ng == &[2, 3] && *c == 2));
}

fn rate(detector: &NgramRepetitionDetector, tokens: &Vec<u32>) -> f32 {
    match detector.repetition_counts(tokens) {
        Some((repeated, total)) => repeated as f32 / total as f32,
        None => 0.0,
    }
}

#[test]
fn test_repetition_rate() {
    let detector = NgramRepetitionDetector::new(2, 10);
    let tokens = vec![1, 2, 3, 1, 2, 3, 1, 2];
    let rate = rate(&detector, &tokens);
    assert!(rate > 0.0 && rate < 1.0);
    assert_eq!(detector.repetition_counts(&tokens), Some((4, 7)));
}

#[test]
fn test_repetition_rate_no_repetition() {
    let detector = NgramRepetitionDetector::with_defaults();
    let tokens = vec![1, 2, 3, 4, 5, 6, 7, 8];
    assert_eq!(rate(&detector, &tokens), 0.0);
}

#[test]
fn test_reject_repeat_segment() {
    let sampler = sampler(RejectionStrategy::RepeatSegment);
    let accepted = vec![1, 2, 3, 4, 5, 6, 7, 8, 9, 10];
    let rejected = sampler.make_reject(&accepted);
    assert_eq!(rejected.len(), accepted.len());
    assert_ne!(rejected, accepted);
    assert_eq!(rejected, vec![1, 2, 3, 4, 3, 4, 7, 8, 9, 10]);
}

#[test]
fn test_reject_random_noise() {
    let sampler = sampler(RejectionStrategy::RandomNoise);
    let accepted = vec![10, 20, 30, 40, 50, 60, 70, 80, 90, 100];
    let rejected = sampler.make_reject(&accepted);
    assert_eq!(rejected.len(), accepted.len());
    assert!(rejected.iter().zip(accepted.iter()).any(|(r, a)| r != a));
}

#[test]
fn test_reject_truncate_repeat() {
    let sampler = sampler(RejectionStrategy::TruncateRepeat);
    let accepted = vec![1, 2, 3, 4, 5, 6, 7, 8, 9, 10];
    let rejected = sampler.make_reject(&accepted);
    assert_eq!(rejected.len(), accepted.len());
    assert_eq!(&rejected[..3], &accepted[..3]);
    assert_eq!(rejected, vec![1, 2, 3, 4, 5, 6, 1, 2, 3, 4]);
}

#[test]
fn test_reject_empty_input() {
    let sampler = RejectionSampler::new(DpoConfig::default());
    let rejected = sampler.make_reject(&vec![]);
    assert!(rejected.is_empty());
}

#[test]
fn test_reject_short_input() {
    let sampler = RejectionSampler::new(DpoConfig::default());
    let accepted = vec![42];
    let rejected = sampler.make_reject(&accepted);
    assert_eq!(rejected.len(), 1);
}

#[test]
fn test_training_sample_creation() {
    let sample = DpoTrainingSample::new(
        "你好世界".to_string(),
        vec![1, 2, 3, 4, 5],
        singles(&[0.1, 0.2, 0.3, 0.4, 0.5]),
    );
    assert_eq!(sample.input_text, "你好世界");
    assert_eq!(sample.accepted_tokens, vec![1, 2, 3, 4, 5]);
    assert!(sample.rejected_tokens.is_empty());
    assert!(!sample.is_valid());
}

#[test]
fn test_training_sample_with_rejection() {
    let mut sample = DpoTrainingSample::new(
        "测试".to_string(),
        vec![1, 2, 3, 4, 5, 6, 7, 8],
        singles(&[0.1, 0.2, 0.3, 0.4, 0.5, 0.6, 0.7, 0.8]),
    );
    let sampler = RejectionSampler::new(DpoConfig::default());
    sample.generate_rejection(&sampler);
    assert!(!sample.rejected_tokens.is_empty());
    assert_eq!(sample.rejected_tokens.len(), sample.accepted_tokens.len());
    assert!(sample.is_valid());
}

#[test]
fn test_training_sample_invalid_same_accepted_rejected() {
    let sample = DpoTrainingSample {
        input_text: "test".to_string(),
        accepted_tokens: vec![1, 2, 3],
        rejected_tokens: vec![1, 2, 3],
        accepted_logits: singles(&[0.1, 0.2, 0.3]),
        rejected_logits: singles(&[0.1, 0.2, 0.3]),
        weight: single(1.0),
    };
    assert!(!sample.is_valid());
}

#[test]
fn test_training_data_add_sample() {
    let mut data = DpoTrainingData::new(DpoConfig::default());
    let sample = DpoTrainingSample::new(
        "测试".to_string(),
        vec![1, 2, 3, 4, 5, 6, 7, 8],
        singles(&[0.5, 0.4, 0.3, 0.2, 0.1, 0.5, 0.4, 0.3]),
    );
    data.add_sample(sample);
    assert_eq!(data.len(), 1);
    assert!(!data.samples[0].rejected_tokens.is_empty());
}

#[test]
fn training_data_counts_what_can_be_trained_on() {
    let mut data = DpoTrainingData::new(DpoConfig::default());
    assert!(data.is_empty());
    assert_eq!(data.valid_count(), 0);
    data.add_sample(DpoTrainingSample::new(
        "a".to_string(),
        vec![1, 2, 3, 4, 5, 6, 7, 8],
        singles(&[0.0; 8]),
    ));
    data.add_sample(DpoTrainingSample::new("b".to_string(), vec![1, 2], vec![]));
    assert!(!data.is_empty());
    assert_eq!(data.len(), 2);
    assert_eq!(data.valid_count(), 1);
}

#[test]
fn test_ngram_ban_no_ban_initially() {
    let policy = NgramBanPolicy::new(3);
    assert!(!policy.is_banned(1));
    assert!(!policy.is_banned(100));
}

#[test]
fn test_ngram_ban_after_history() {
    let mut policy = NgramBanPolicy::new(3);
    for t in [1, 2, 3, 4, 5] {
        policy.push_token(t);
    }
    assert_eq!(policy.ngram_count(), 3);
}

#[test]
fn test_ngram_ban_apply() {
    let mut policy = NgramBanPolicy::new(2);
    policy.push_token(10);
    policy.push_token(20);
    policy.push_token(30);
    let mut logits = vec![single(0.0); 100];
    policy.apply_ban(&mut logits);
    assert!(logits.iter().all(|x| x.bits == 0));
}

#[test]
fn a_banned_token_cannot_be_drawn() {
    let mut policy = NgramBanPolicy::new(2);
    for t in [1, 2, 1] {
        policy.push_token(t);
    }
    let mut logits = vec![single(0.5); 4];
    policy.apply_ban(&mut logits);
    assert_eq!(logits[2].bits, NEGATIVE_INFINITY);
    assert_eq!(f32::from_bits(NEGATIVE_INFINITY), f32::NEG_INFINITY);
    for t in [0usize, 1, 3] {
        assert_eq!(f32::from_bits(logits[t].bits), 0.5);
    }
}

#[test]
fn test_ngram_ban_reset() {
    let mut policy = NgramBanPolicy::new(3);
    for t in [1, 2, 3, 4, 5] {
        policy.push_token(t);
    }
    assert!(policy.ngram_count() > 0);
    policy.reset();
    assert_eq!(policy.ngram_count(), 0);
}

#[test]
fn test_ngram_ban_prevents_repetition() {
    let mut policy = NgramBanPolicy::new(3);
    for t in [5, 10, 15, 20, 25] {
        policy.push_token(t);
    }
    policy.reset();
    for t in [1, 2, 3, 1, 2] {
        policy.push_token(t);
    }
    assert!(policy.is_banned(3));
}

#[test]
fn what_is_banned_would_repeat_an_ngram() {
    let mut policy = NgramBanPolicy::with_defaults();
    let mut tokens = vec![7, 8, 9, 7, 8];
    for t in &tokens {
        policy.push_token(*t);
    }
    assert!(policy.is_banned(9));
    assert!(!policy.is_banned(7));
    tokens.push(9);
    assert!(NgramRepetitionDetector::with_defaults().has_repetition(&tokens));
}

#[test]
fn test_dpo_config_default() {
    let config = DpoConfig::default();
    assert_eq!(config.beta.bits, DEFAULT_BETA);
    assert_eq!(f32::from_bits(DEFAULT_BETA), 0.2);
    assert_eq!(config.ngram_size, DEFAULT_NGRAM_SIZE);
    assert!(config.reference_free);
    assert_eq!(f32::from_bits(config.dpo_weight.bits), 1.0);
    assert_eq!(config.rejection_strategy, RejectionStrategy::RepeatSegment);
}

#[test]
fn test_dpo_config_custom() {
    let config = DpoConfig {
        beta: single(0.5),
        ngram_size: 4,
        max_repeat_len: 20,
        reference_free: false,
        dpo_weight: single(0.5),
        rejection_strategy: RejectionStrategy::RandomNoise,
    };
    assert_eq!(f32::from_bits(config.beta.bits), 0.5);
    assert_eq!(config.ngram_size, 4);
    assert!(!config.reference_free);
    assert_eq!(config.rejection_strategy, RejectionStrategy::RandomNoise);
}

#[test]
fn an_ngram_that_occurs_twice_is_a_repetition() {
    let detector = NgramRepetitionDetector::new(2, 10);
    let tokens = vec![1, 1, 1];
    assert!(detector.has_repetition(&tokens));
    assert_eq!(detector.count_repetitions(&tokens), vec![(vec![1, 1], 2)]);
    assert_eq!(detector.repetition_counts(&tokens), Some((1, 2)));
    assert_eq!(detector.repetition_counts(&vec![1, 2]), Some((0, 1)));
    assert_eq!(detector.repetition_counts(&vec![1]), None);
    assert!(!detector.has_repetition(&vec![1]));
    assert!(!NgramRepetitionDetector::new(2, 2).has_repetition(&vec![1, 2, 3, 1, 2]));
}
