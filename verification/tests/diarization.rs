use vt_core::diarization::{
    assign_speakers_to_segments, best_overlap, reference_args, reference_path, DiarizationResult,
    MockDiarizationEngine, SpeakerSegment,
};
use vt_core::error::AppError;
use vt_core::ieee::F64;
use vt_core::segment::Segment;

fn double(x: f64) -> F64 {
    F64::from_bits(x.to_bits())
}

fn value(x: F64) -> f64 {
    f64::from_bits(x.bits)
}

fn speaker(id: &str, start: f64, end: f64) -> SpeakerSegment {
    SpeakerSegment::new(id.into(), double(start), double(end))
}

fn segment(id: &str, start: f64, end: f64, text: &str) -> Segment {
    Segment::new(id.into(), double(start), double(end), text.into())
}

fn assign(segments: &mut Vec<Segment>, diarization: &DiarizationResult) -> usize {
    let rows: Vec<Vec<F64>> = segments
        .iter()
        .map(|seg| {
            diarization
                .segments
                .iter()
                .map(|spk| {
                    let start = value(seg.start).max(value(spk.start));
                    let end = value(seg.end).min(value(spk.end));
                    double((end - start).max(0.0))
                })
                .collect()
        })
        .collect();
    assign_speakers_to_segments(segments, diarization, &rows)
}

fn alternating(engine: &MockDiarizationEngine, duration: f64) -> DiarizationResult {
    let mut edges = vec![double(0.0)];
    let mut time = 0.0;
    while time < duration {
        time = (time + value(engine.segment_duration)).min(duration);
        edges.push(double(time));
    }
    DiarizationResult::new(engine.alternate(&edges), double(0.0))
}

#[test]
fn test_speaker_segment_new() {
    let seg = speaker("SPEAKER_00", 1.0, 5.0);
    assert_eq!(seg.speaker_id, "SPEAKER_00");
    assert!((value(seg.start) - 1.0).abs() < f64::EPSILON);
    assert!((value(seg.end) - 5.0).abs() < f64::EPSILON);
    assert!(seg.confidence.is_none());
}

#[test]
fn test_speaker_segment_with_confidence() {
    let seg = speaker("SPEAKER_00", 0.0, 5.0).with_confidence(double(0.85));
    assert_eq!(seg.confidence.map(value), Some(0.85));
}

#[test]
fn test_speaker_segment_with_confidence_clamped() {
    let seg = speaker("SPEAKER_00", 0.0, 5.0).with_confidence(double(1.5));
    assert_eq!(seg.confidence.map(value), Some(1.0));
    let seg = speaker("SPEAKER_00", 0.0, 5.0).with_confidence(double(-0.5));
    assert_eq!(seg.confidence.map(value), Some(0.0));
}

#[test]
fn test_speaker_segment_overlaps() {
    let seg1 = speaker("SPEAKER_00", 0.0, 5.0);
    let seg2 = speaker("SPEAKER_01", 3.0, 8.0);
    let seg3 = speaker("SPEAKER_01", 5.0, 10.0);
    assert!(seg1.overlaps(&seg2), "0-5 should overlap 3-8");
    assert!(!seg1.overlaps(&seg3), "0-5 should not overlap 5-10");
}

#[test]
fn test_diarization_result_new() {
    let segments = vec![
        speaker("SPEAKER_00", 0.0, 5.0),
        speaker("SPEAKER_01", 5.0, 10.0),
        speaker("SPEAKER_00", 10.0, 15.0),
    ];
    let result = DiarizationResult::new(segments, double(0.5));
    assert_eq!(result.segments.len(), 3);
    assert_eq!(result.speaker_count, 2);
    assert!((value(result.processing_time_secs) - 0.5).abs() < f64::EPSILON);
}

#[test]
fn test_diarization_result_is_valid() {
    let segments = vec![
        speaker("SPEAKER_00", 0.0, 5.0),
        speaker("SPEAKER_01", 5.0, 10.0),
    ];
    let result = DiarizationResult::new(segments, double(0.1));
    assert!(
        result.is_valid(),
        "Non-overlapping segments should be valid"
    );
}

#[test]
fn test_diarization_result_invalid_empty() {
    let result = DiarizationResult::new(Vec::new(), double(0.0));
    assert!(!result.is_valid(), "Empty result should be invalid");
}

#[test]
fn test_diarization_result_invalid_overlap() {
    let segments = vec![
        speaker("SPEAKER_00", 0.0, 5.0),
        speaker("SPEAKER_00", 3.0, 8.0),
    ];
    let result = DiarizationResult::new(segments, double(0.1));
    assert!(
        !result.is_valid(),
        "Overlapping segments for same speaker should be invalid"
    );
}

#[test]
fn test_diarization_result_segments_for_speaker() {
    let segments = vec![
        speaker("SPEAKER_00", 0.0, 5.0),
        speaker("SPEAKER_01", 5.0, 10.0),
        speaker("SPEAKER_00", 10.0, 15.0),
    ];
    let result = DiarizationResult::new(segments, double(0.1));
    assert_eq!(result.segments_for_speaker("SPEAKER_00").len(), 2);
    assert_eq!(result.segments_for_speaker("SPEAKER_01").len(), 1);
    assert_eq!(result.segments_for_speaker("SPEAKER_99").len(), 0);
}

#[test]
fn test_diarization_result_speaker_ids() {
    let segments = vec![
        speaker("SPEAKER_01", 0.0, 5.0),
        speaker("SPEAKER_00", 5.0, 10.0),
        speaker("SPEAKER_01", 10.0, 15.0),
    ];
    let result = DiarizationResult::new(segments, double(0.1));
    let ids = result.speaker_ids();
    assert_eq!(ids.len(), 2);
    assert_eq!(ids[0], "SPEAKER_00");
    assert_eq!(ids[1], "SPEAKER_01");
}

#[test]
fn test_mock_engine_diarize() {
    let engine = MockDiarizationEngine::new(2);
    let result = alternating(&engine, 10.0);
    assert_eq!(result.speaker_count, 2, "Should detect 2 speakers");
    assert!(!result.segments.is_empty(), "Should have segments");
    assert!(result.is_valid(), "Result should be valid");
}

#[test]
fn test_mock_engine_diarize_single_speaker() {
    let engine = MockDiarizationEngine::new(1);
    let result = alternating(&engine, 10.0);
    assert_eq!(result.speaker_count, 1);
    assert!(result.segments.iter().all(|s| s.speaker_id == "SPEAKER_00"));
}

#[test]
fn test_mock_engine_diarize_alternating_speakers() {
    let engine = MockDiarizationEngine::new(2).with_segment_duration(double(5.0));
    let result = alternating(&engine, 20.0);
    assert_eq!(result.segments.len(), 4);
    assert_eq!(result.segments[0].speaker_id, "SPEAKER_00");
    assert_eq!(result.segments[1].speaker_id, "SPEAKER_01");
    assert_eq!(result.segments[2].speaker_id, "SPEAKER_00");
    assert_eq!(result.segments[3].speaker_id, "SPEAKER_01");
}

#[test]
fn diarization_test_mock_engine_name() {
    let engine = MockDiarizationEngine::new(2);
    assert_eq!(engine.name(), "mock");
}

#[test]
fn test_assign_speakers_basic() {
    let mut segments = vec![
        segment("seg-0", 0.0, 5.0, "Hello"),
        segment("seg-1", 5.0, 10.0, "World"),
        segment("seg-2", 10.0, 15.0, "Test"),
    ];
    let diarization = DiarizationResult::new(
        vec![
            speaker("SPEAKER_00", 0.0, 5.0),
            speaker("SPEAKER_01", 5.0, 10.0),
            speaker("SPEAKER_00", 10.0, 15.0),
        ],
        double(0.1),
    );
    let assigned = assign(&mut segments, &diarization);
    assert_eq!(assigned, 3, "All segments should be assigned");
    assert_eq!(segments[0].speaker.as_deref(), Some("SPEAKER_00"));
    assert_eq!(segments[1].speaker.as_deref(), Some("SPEAKER_01"));
    assert_eq!(segments[2].speaker.as_deref(), Some("SPEAKER_00"));
}

#[test]
fn test_assign_speakers_partial_overlap() {
    let mut segments = vec![segment("seg-0", 2.0, 7.0, "Hello")];
    let diarization = DiarizationResult::new(
        vec![
            speaker("SPEAKER_00", 0.0, 5.0),
            speaker("SPEAKER_01", 5.0, 10.0),
        ],
        double(0.1),
    );
    let assigned = assign(&mut segments, &diarization);
    assert_eq!(assigned, 1);
    assert_eq!(segments[0].speaker.as_deref(), Some("SPEAKER_00"));
}

#[test]
fn test_assign_speakers_no_overlap() {
    let mut segments = vec![segment("seg-0", 0.0, 5.0, "Hello")];
    let diarization =
        DiarizationResult::new(vec![speaker("SPEAKER_00", 10.0, 20.0)], double(0.1));
    let assigned = assign(&mut segments, &diarization);
    assert_eq!(assigned, 0, "No segments should be assigned");
    assert!(segments[0].speaker.is_none());
}

#[test]
fn test_assign_speakers_empty_diarization() {
    let mut segments = vec![segment("seg-0", 0.0, 5.0, "Hello")];
    let diarization = DiarizationResult::new(Vec::new(), double(0.0));
    let assigned = assign(&mut segments, &diarization);
    assert_eq!(assigned, 0);
    assert!(segments[0].speaker.is_none());
}

#[test]
fn test_assign_speakers_empty_segments() {
    let mut segments: Vec<Segment> = Vec::new();
    let diarization =
        DiarizationResult::new(vec![speaker("SPEAKER_00", 0.0, 5.0)], double(0.1));
    assert_eq!(assign(&mut segments, &diarization), 0);
}

#[test]
fn test_integration_diarize_and_assign() {
    let engine = MockDiarizationEngine::new(2).with_segment_duration(double(5.0));
    let result = alternating(&engine, 20.0);
    assert!(
        result.speaker_count >= 2,
        "Should detect at least 2 speakers"
    );
    let mut segments: Vec<Segment> = (0..4)
        .map(|i| {
            segment(
                &format!("seg-{i}"),
                i as f64 * 5.0,
                (i + 1) as f64 * 5.0,
                &format!("text-{i}"),
            )
        })
        .collect();
    let assigned = assign(&mut segments, &result);
    assert!(assigned > 0, "At least some segments should be assigned");
    assert!(
        segments.iter().all(|s| s.speaker.is_some()),
        "All should have speaker"
    );
    assert_eq!(
        segments[0].speaker, segments[2].speaker,
        "Alternating pattern"
    );
    assert_eq!(
        segments[1].speaker, segments[3].speaker,
        "Alternating pattern"
    );
    assert_ne!(
        segments[0].speaker, segments[1].speaker,
        "Different speakers"
    );
}

#[test]
fn an_empty_stretch_hides_no_overlap() {
    let segments = vec![
        speaker("A", 0.0, 10.0),
        speaker("A", 0.0, 0.0),
        speaker("A", 5.0, 6.0),
    ];
    assert!(!DiarizationResult::new(segments, double(0.0)).is_valid());
    let apart = vec![speaker("A", 0.0, 10.0), speaker("B", 5.0, 6.0)];
    assert!(DiarizationResult::new(apart, double(0.0)).is_valid());
}

#[test]
fn the_longest_segment_of_a_speaker_is_the_reference() {
    let result = DiarizationResult::new(
        vec![
            speaker("A", 0.0, 3.0),
            speaker("B", 3.0, 9.0),
            speaker("A", 9.0, 13.0),
            speaker("A", 20.0, 24.0),
        ],
        double(0.0),
    );
    let durations = vec![double(3.0), double(6.0), double(4.0), double(4.0)];
    assert_eq!(result.longest_segment("A", &durations).ok(), Some(3));
    assert_eq!(result.longest_segment("B", &durations).ok(), Some(1));
    match result.longest_segment("C", &durations) {
        Err(AppError::DiarizationError(m)) => {
            assert_eq!(m, "No segments found for speaker C")
        }
        other => panic!("unexpected: {other:?}"),
    }
    assert_eq!(reference_path("/tmp/refs", "A"), "/tmp/refs/A_reference.wav");
    let args = reference_args("in.wav", "9.000", "4.000", "out.wav");
    assert_eq!(
        args.join(" "),
        "-y -i in.wav -ss 9.000 -t 4.000 -ar 16000 -ac 1 -sample_fmt s16 out.wav"
    );
}

#[test]
fn the_first_of_equal_overlaps_wins() {
    let row: Vec<F64> = [0.0, 2.0, 1.0, 2.0].iter().map(|x| double(*x)).collect();
    assert_eq!(best_overlap(&row), Some(1));
    assert_eq!(best_overlap(&vec![double(0.0), double(f64::NAN)]), None);
}

#[test]
fn an_engine_has_a_speaker_and_time() {
    let engine = MockDiarizationEngine::new(0).with_segment_duration(double(0.01));
    assert_eq!(engine.speaker_count, 1);
    assert_eq!(value(engine.segment_duration), 0.1);
    assert_eq!(value(MockDiarizationEngine::new(3).segment_duration), 5.0);
    assert_eq!(MockDiarizationEngine::new(3).speaker_at(4), "SPEAKER_01");
    assert!(engine.alternate(&vec![]).is_empty());
}

#[test]
fn speakers_who_take_turns_do_not_overlap() {
    let engine = MockDiarizationEngine::new(3);
    let edges = vec![double(0.0), double(5.0), double(5.0), double(9.5), double(12.0)];
    let segments = engine.alternate(&edges);
    for i in 0..segments.len() {
        for j in i + 1..segments.len() {
            assert!(!segments[i].overlaps(&segments[j]));
        }
    }
    assert!(DiarizationResult::new(segments, double(0.0)).is_valid());
}
