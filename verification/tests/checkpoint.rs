use vt_core::checkpoint::{
    expand_tilde, expand_tilde_with, Checkpoint, CheckpointManager, ProcessingStage,
};
use vt_core::clock::{now, timestamp, Timestamp};
use vt_core::config::CheckpointConfig;
use vt_core::ieee::F64;
use vt_core::segment::Segment;

const DAY_NANOS: i128 = 24 * 60 * 60 * 1_000_000_000;

fn completed_segment(id: &str) -> Segment {
    let mut segment = Segment::new(
        id.into(),
        F64::from_bits(0.0f64.to_bits()),
        F64::from_bits(5.0f64.to_bits()),
        "Hello".into(),
    );
    segment.target_text = Some("你好".into());
    segment.tts_audio_path = Some(format!("/tmp/{id}.wav"));
    segment
}

fn checkpoint(stage: ProcessingStage) -> Checkpoint {
    Checkpoint::new("job-1".into(), "/path/to/video.mp4".into(), stage)
}

#[test]
fn test_processing_stage_name() {
    assert_eq!(ProcessingStage::Asr.name(), "ASR");
    assert_eq!(ProcessingStage::Translate.name(), "Translate");
    assert_eq!(ProcessingStage::Tts.name(), "TTS");
    assert_eq!(ProcessingStage::Compose.name(), "Compose");
}

#[test]
fn test_checkpoint_manager_disabled() {
    let config = CheckpointConfig {
        enabled: false,
        dir: "/tmp/test-checkpoints-disabled".into(),
        retention_days: 7,
    };
    let manager = CheckpointManager::new(&config);
    assert!(!manager.is_enabled());
    assert_eq!(manager.save(&checkpoint(ProcessingStage::Asr)), None);
    let manager = CheckpointManager::with_dir("/tmp/kept".into());
    assert_eq!(
        manager.save(&checkpoint(ProcessingStage::Asr)).as_deref(),
        Some("/tmp/kept/job-1.json")
    );
}

#[test]
fn test_processing_stage_order() {
    assert_eq!(ProcessingStage::Asr.order(), 0);
    assert_eq!(ProcessingStage::Translate.order(), 1);
    assert_eq!(ProcessingStage::Tts.order(), 2);
    assert_eq!(ProcessingStage::Compose.order(), 3);
}

#[test]
fn test_processing_stage_default() {
    assert_eq!(ProcessingStage::default(), ProcessingStage::Asr);
}

#[test]
fn test_checkpoint_new() {
    let cp = checkpoint(ProcessingStage::Asr);
    assert_eq!(cp.job_id, "job-1");
    assert_eq!(cp.video_path, "/path/to/video.mp4");
    assert!(cp.processed_segments.is_empty());
    assert_eq!(cp.current_stage, ProcessingStage::Asr);
    assert_eq!(cp.next_segment_index, 0);
}

#[test]
fn test_checkpoint_add_segment() {
    let mut cp = checkpoint(ProcessingStage::Tts);
    cp.add_segment(completed_segment("seg-1"));
    assert_eq!(cp.completed_count(), 1);
    assert_eq!(cp.next_segment_index, 1);
}

#[test]
fn test_checkpoint_add_multiple_segments() {
    let mut cp = checkpoint(ProcessingStage::Tts);
    for i in 0..5 {
        cp.add_segment(completed_segment(&format!("seg-{i}")));
    }
    assert_eq!(cp.completed_count(), 5);
    assert_eq!(cp.next_segment_index, 5);
}

#[test]
fn test_checkpoint_update_stage() {
    let mut cp = checkpoint(ProcessingStage::Asr);
    cp.update_stage(ProcessingStage::Translate);
    assert_eq!(cp.current_stage, ProcessingStage::Translate);
}

#[test]
fn test_checkpoint_validate_audio_files_all_exist() {
    let mut cp = checkpoint(ProcessingStage::Tts);
    cp.add_segment(completed_segment("seg-1"));
    let missing = cp.validate_audio_files(&vec![true]);
    assert!(missing.is_empty(), "No missing audio files expected");
}

#[test]
fn test_checkpoint_validate_audio_files_missing() {
    let mut segment = completed_segment("seg-1");
    segment.tts_audio_path = Some("/nonexistent/audio.wav".into());
    let mut cp = checkpoint(ProcessingStage::Tts);
    cp.add_segment(segment);
    let missing = cp.validate_audio_files(&vec![false]);
    assert_eq!(missing.len(), 1, "Should find 1 missing audio file");
    assert_eq!(missing[0], 0);
}

#[test]
fn test_checkpoint_is_expired() {
    let mut cp = checkpoint(ProcessingStage::Asr);
    cp.timestamp = Timestamp {
        nanos: now().nanos - 10 * DAY_NANOS,
    };
    assert!(
        cp.is_expired(7),
        "Should be expired after 10 days with 7 day retention"
    );
    assert!(
        !cp.is_expired(14),
        "Should not be expired with 14 day retention"
    );
}

#[test]
fn test_checkpoint_is_not_expired() {
    let cp = checkpoint(ProcessingStage::Asr);
    assert!(!cp.is_expired(7), "Fresh checkpoint should not be expired");
}

#[test]
fn test_checkpoint_manager_cleanup_expired() {
    let manager = CheckpointManager::with_dir("/tmp/checkpoints".into());
    let mut old = checkpoint(ProcessingStage::Asr);
    old.timestamp = Timestamp {
        nanos: now().nanos - 10 * DAY_NANOS,
    };
    let new = checkpoint(ProcessingStage::Asr);
    let cleaned = manager.expired_at(&vec![old, new], now());
    assert_eq!(cleaned, vec![0], "Should clean up 1 expired checkpoint");
}

#[test]
fn test_checkpoint_manager_resume_with_valid_audio() {
    let mut cp = checkpoint(ProcessingStage::Tts);
    cp.add_segment(completed_segment("seg-1"));
    assert!(!cp.drop_missing(&vec![true]));
    assert_eq!(cp.processed_segments.len(), 1);
    assert_eq!(cp.next_segment_index, 1);
}

#[test]
fn test_checkpoint_manager_resume_with_missing_audio() {
    let mut segment = completed_segment("seg-1");
    segment.tts_audio_path = Some("/nonexistent/audio.wav".into());
    let mut cp = checkpoint(ProcessingStage::Tts);
    cp.add_segment(segment);
    assert!(cp.drop_missing(&vec![false]));
    assert!(
        cp.processed_segments.is_empty(),
        "Segment with missing audio should be removed"
    );
    assert_eq!(cp.next_segment_index, 0);
}

#[test]
fn test_checkpoint_manager_update() {
    let stage = ProcessingStage::Tts;
    let first = Checkpoint::record_at(
        None,
        "job-1",
        completed_segment("seg-1"),
        stage,
        timestamp(1, 0),
    );
    assert_eq!(first.job_id, "job-1");
    let loaded = Checkpoint::record_at(
        Some(first),
        "job-1",
        completed_segment("seg-2"),
        stage,
        timestamp(2, 0),
    );
    assert_eq!(loaded.completed_count(), 2);
    assert_eq!(loaded.next_segment_index, 2);
    assert_eq!(loaded.processed_segments[1].id, "seg-2");
    assert_eq!(loaded.timestamp, timestamp(2, 0));
}

#[test]
fn test_checkpoint_manager_checkpoint_path() {
    let manager = CheckpointManager::with_dir("/tmp/checkpoints".into());
    let path = manager.checkpoint_path("job-123");
    assert!(path.contains("job-123"));
    assert!(path.ends_with(".json"));
    assert_eq!(path, "/tmp/checkpoints/job-123.json");
}

#[test]
fn test_expand_tilde() {
    let expanded = expand_tilde("~/test/path");
    assert!(!expanded.starts_with('~'), "Tilde should be expanded");
    assert_eq!(expand_tilde("/absolute/path"), "/absolute/path");
    assert_eq!(expand_tilde("relative/path"), "relative/path");
}

#[test]
fn the_home_directory_takes_the_place_of_the_tilde() {
    let home = Some("/home/me".to_string());
    assert_eq!(expand_tilde_with("~/a", &home), "/home/me/a");
    assert_eq!(expand_tilde_with("~a", &home), "~a");
    assert_eq!(expand_tilde_with("~/a", &None), "~/a");
}

#[test]
fn the_settings_decide_where_and_whether_checkpoints_are_kept() {
    let config = CheckpointConfig {
        enabled: false,
        dir: "/tmp/test-checkpoints-disabled".into(),
        retention_days: 3,
    };
    let manager = CheckpointManager::new(&config);
    assert!(!manager.is_enabled());
    assert_eq!(manager.dir, "/tmp/test-checkpoints-disabled");
    assert_eq!(manager.retention_days, 3);
    assert!(CheckpointManager::with_dir("x".into()).is_enabled());
}

#[test]
fn the_name_of_a_file_leads_back_to_its_job() {
    assert_eq!(CheckpointManager::job_id_of("job-1.json").as_deref(), Some("job-1"));
    assert_eq!(CheckpointManager::job_id_of(".json"), None);
    assert_eq!(CheckpointManager::job_id_of("job-1.txt"), None);
    assert_eq!(CheckpointManager::job_id_of("a.b.json").as_deref(), Some("a.b"));
}

#[test]
fn only_segments_whose_file_is_gone_are_done_again() {
    let mut cp = checkpoint(ProcessingStage::Tts);
    for i in 0..4 {
        cp.add_segment(completed_segment(&format!("seg-{i}")));
    }
    cp.processed_segments[3].tts_audio_path = None;
    let exists = vec![true, false, true, false];
    assert_eq!(cp.validate_audio_files(&exists), vec![1]);
    assert!(cp.drop_missing(&exists));
    let ids: Vec<&str> = cp.processed_segments.iter().map(|s| s.id.as_str()).collect();
    assert_eq!(ids, vec!["seg-0", "seg-2", "seg-3"]);
    assert_eq!(cp.next_segment_index, 3);
}

#[test]
fn a_checkpoint_expires_only_after_the_last_day() {
    let mut cp = checkpoint(ProcessingStage::Asr);
    cp.timestamp = timestamp(0, 0);
    assert!(!cp.is_expired_at(1, timestamp(86_400, 0)));
    assert!(cp.is_expired_at(1, timestamp(86_400, 1)));
}
