use vt_core::config::AudioSyncMode;
use vt_core::error::AppError;
use vt_core::ieee::{F32, F64};
use vt_core::media::{
    check_mono, cut_or_pad, duration_args, extend_video_args, failure_text, find_audio_stream,
    find_video_stream, fit_segment, mix_audio_segments, mix_duration, mix_result, pad_audio_args,
    parse_i32, placement, probe_args, too_loud, worth_extending, AudioMixStats, Composition,
    FfmpegAudioExtractor, FfmpegVideoComposer, Fit, MediaInfo, SegmentTiming, StreamInfo,
};

fn double(x: f64) -> F64 {
    F64::from_bits(x.to_bits())
}

fn stream(kind: &str, name: &str, rate: Option<&str>) -> StreamInfo {
    StreamInfo::from_probe(kind.into(), name.into(), rate, Some(2), None, None)
}

fn composition(burn: bool, stretch: f64) -> Composition {
    Composition {
        video: "v.mp4".into(),
        video_exists: true,
        audio: "a.wav".into(),
        audio_exists: true,
        output: "o.mp4".into(),
        burn_subtitles: burn,
        subtitles: if burn { Some("s.srt".into()) } else { None },
        subtitles_exist: burn,
        stretch: double(stretch),
        stretch_text: format!("{stretch:.6}"),
    }
}

fn timing(tts: f64, slot: f64, max_ratio: f64) -> SegmentTiming {
    let floor = slot.max(0.01);
    SegmentTiming {
        samples: (tts * 16000.0) as usize,
        slot_samples: (slot.max(0.0) * 16000.0) as usize,
        tts_duration: double(tts),
        slot_duration: double(floor),
        speed_ratio: double(tts / floor),
        slot_target: (floor * 16000.0) as usize,
        limit_target: (tts / max_ratio * 16000.0) as usize,
    }
}

#[test]
fn streams_are_found_by_their_kind() {
    let info = MediaInfo {
        duration: double(30.0),
        streams: vec![
            stream("video", "h264", None),
            stream("audio", "aac", Some("16000")),
            stream("audio", "mp3", Some("44100")),
        ],
    };
    assert_eq!(find_audio_stream(&info).unwrap().codec_name, "aac");
    assert_eq!(find_audio_stream(&info).unwrap().sample_rate, Some(16000));
    assert_eq!(find_video_stream(&info).unwrap().codec_name, "h264");
    assert_eq!(find_video_stream(&info).unwrap().sample_rate, None);
    let none = MediaInfo {
        duration: double(0.0),
        streams: vec![],
    };
    assert!(find_audio_stream(&none).is_none());
}

#[test]
fn numbers_are_read_as_the_standard_library_reads_them() {
    for s in [
        "0", "16000", "-1", "+7", "", "-", "+", "1x", " 1", "2147483647", "2147483648",
        "-2147483648", "-2147483649", "99999999999999999999", "007", "--1", "１",
    ] {
        assert_eq!(parse_i32(s), s.parse::<i32>().ok(), "{s}");
    }
}

#[test]
fn sound_is_taken_out_of_a_video_that_is_there() {
    let extractor = FfmpegAudioExtractor::new();
    assert_eq!(
        extractor.extract_audio("in.mp4", "out.wav", true).unwrap().join(" "),
        "-y -i in.mp4 -vn -ar 16000 -ac 1 -c:a pcm_s16le out.wav"
    );
    match FfmpegAudioExtractor::default().extract_audio("in.mp4", "out.wav", false) {
        Err(AppError::FileNotFound(p)) => assert_eq!(p, "in.mp4"),
        other => panic!("unexpected: {other:?}"),
    }
}

#[test]
fn an_untouched_picture_is_copied() {
    let composer = FfmpegVideoComposer::new();
    assert_eq!(
        composer.compose_video(&composition(false, 1.0)).unwrap().join(" "),
        "-y -i v.mp4 -i a.wav -c:v copy -c:a aac -map 0:v:0 -map 1:a:0 o.mp4"
    );
}

#[test]
fn a_slower_picture_with_subtitles_is_encoded_anew() {
    let composer = FfmpegVideoComposer::default();
    assert_eq!(
        composer.compose_video(&composition(true, 1.25)).unwrap().join(" "),
        "-y -i v.mp4 -i a.wav -vf setpts=PTS/1.250000,subtitles=s.srt -c:v h264_videotoolbox \
         -q:v 35 -c:a aac -map 0:v:0 -map 1:a:0 o.mp4"
    );
    let software = FfmpegVideoComposer::with_encoder("libx264".into()).with_quality(Some(23));
    assert_eq!(software.encoder(), "libx264");
    let args = software.compose_video(&composition(false, 2.0)).unwrap();
    assert_eq!(args[5..11].join(" "), "-vf setpts=PTS/2.000000 -c:v libx264 -crf 23");
    let other = FfmpegVideoComposer::with_encoder("vp9".into());
    let args = other.compose_video(&composition(true, 1.0)).unwrap();
    assert_eq!(args[5..10].join(" "), "-vf subtitles=s.srt -c:v vp9 -c:a");
    let plain = FfmpegVideoComposer::new().with_quality(None);
    let args = plain.compose_video(&composition(true, 1.0)).unwrap();
    assert!(!args.contains(&"-q:v".to_string()));
}

#[test]
fn missing_files_are_named_in_order() {
    let composer = FfmpegVideoComposer::new();
    let refusal = |c: &Composition| match composer.compose_video(c) {
        Err(e) => e.to_string(),
        Ok(_) => panic!("expected an error"),
    };
    let mut c = composition(true, 1.0);
    c.subtitles_exist = false;
    assert_eq!(refusal(&c), "File not found: s.srt");
    c.subtitles = None;
    assert_eq!(
        refusal(&c),
        "FFmpeg error: burn_subtitles is true but no subtitle_path provided"
    );
    c.audio_exists = false;
    assert_eq!(refusal(&c), "File not found: a.wav");
    c.video_exists = false;
    assert_eq!(refusal(&c), "File not found: v.mp4");
}

#[test]
fn what_the_tools_are_asked() {
    assert_eq!(
        extend_video_args("v.mp4", "1.500", "t.mp4").join(" "),
        "-y -i v.mp4 -vf tpad=stop_mode=clone:stop_duration=1.500 -c:v libx264 -crf 23 -preset \
         veryfast -an t.mp4"
    );
    assert_eq!(
        pad_audio_args("a.wav", "0.250", "t.wav").join(" "),
        "-y -i a.wav -af apad=pad_dur=0.250 -c:a pcm_s16le t.wav"
    );
    assert_eq!(
        duration_args("a.wav").join(" "),
        "-v quiet -show_entries format=duration -of default=noprint_wrappers=1:nokey=1 a.wav"
    );
    assert_eq!(
        probe_args("v.mp4").join(" "),
        "-v quiet -print_format json -show_streams -show_format v.mp4"
    );
    assert_eq!(
        failure_text("Audio extraction", Some(1), "boom"),
        "Audio extraction failed (exit code Some(1)): boom"
    );
    assert_eq!(failure_text("ffprobe", None, ""), "ffprobe failed (exit code None): ");
    assert!(!worth_extending(double(0.009)));
    assert!(worth_extending(double(0.01)));
}

#[test]
fn long_speech_is_cut_or_sped_up_in_a_fixed_slot() {
    let long = timing(3.0, 2.0, 2.0);
    let limit = double(2.0);
    assert_eq!(fit_segment(AudioSyncMode::Trim, &long, limit), Fit::Cut(32000));
    assert_eq!(fit_segment(AudioSyncMode::SpeedUp, &long, limit), Fit::Resample(32000));
    let short = timing(1.0, 2.0, 2.0);
    assert_eq!(fit_segment(AudioSyncMode::Trim, &short, limit), Fit::Pad(32000));
    assert_eq!(fit_segment(AudioSyncMode::SpeedUp, &short, limit), Fit::Pad(32000));
    let nowhere = timing(1.0, -1.0, 2.0);
    assert_eq!(fit_segment(AudioSyncMode::Trim, &nowhere, limit), Fit::Skip);
}

#[test]
fn speech_is_sped_up_to_the_limit_and_then_cut() {
    let much = timing(6.0, 2.0, 2.0);
    assert_eq!(
        fit_segment(AudioSyncMode::SpeedUp, &much, double(2.0)),
        Fit::ResampleCut(48000, 32000)
    );
}

#[test]
fn the_picture_makes_up_for_what_speed_cannot() {
    let limit = double(1.5);
    assert_eq!(
        fit_segment(AudioSyncMode::Hybrid, &timing(6.0, 2.0, 1.5), limit),
        Fit::Resample(64000)
    );
    assert_eq!(
        fit_segment(AudioSyncMode::Hybrid, &timing(2.5, 2.0, 1.5), limit),
        Fit::Resample(32000)
    );
    assert_eq!(
        fit_segment(AudioSyncMode::Hybrid, &timing(1.0, 2.0, 1.5), limit),
        Fit::Keep
    );
    assert_eq!(
        fit_segment(AudioSyncMode::VideoSlow, &timing(6.0, 2.0, 1.5), limit),
        Fit::Keep
    );
}

#[test]
fn the_statistics_tell_what_was_done() {
    let timings = vec![timing(6.0, 2.0, 1.5), timing(2.5, 2.0, 1.5), timing(1.0, 2.0, 1.5)];
    let stats = |mode: AudioSyncMode| mix_audio_segments(mode, &timings, double(1.5), 4).1;
    let of = |trimmed: usize, sped_up: usize, video_slowed: usize| AudioMixStats {
        total: 4,
        trimmed,
        sped_up,
        video_slowed,
    };
    assert_eq!(stats(AudioSyncMode::Trim), of(2, 0, 0));
    assert_eq!(stats(AudioSyncMode::SpeedUp), of(0, 2, 0));
    assert_eq!(stats(AudioSyncMode::VideoSlow), of(0, 0, 2));
    assert_eq!(stats(AudioSyncMode::Hybrid), of(0, 2, 1));
    let fits = mix_audio_segments(AudioSyncMode::Trim, &timings, double(1.5), 4).0;
    assert_eq!(fits, vec![Fit::Cut(32000), Fit::Cut(32000), Fit::Pad(32000)]);
}

#[test]
fn samples_are_cut_or_followed_by_silence() {
    assert_eq!(cut_or_pad(&vec![1, 2, 3], 2, 0), vec![1, 2]);
    assert_eq!(cut_or_pad(&vec![1, 2, 3], 5, 0), vec![1, 2, 3, 0, 0]);
}

#[test]
fn speech_is_placed_after_what_came_before() {
    let place = |a: f64, b: f64| f64::from_bits(placement(double(a), double(b)).bits);
    assert_eq!(place(1.0, 2.0), 2.0);
    assert_eq!(place(3.0, 2.0), 3.0);
    assert_eq!(place(f64::NAN, 2.0), f64::NAN.max(2.0));
}

#[test]
fn the_sound_lasts_as_long_as_the_video_at_least() {
    let ends = vec![double(4.0), double(12.0), double(7.0)];
    assert_eq!(f64::from_bits(mix_duration(&ends, double(10.0)).bits), 12.0);
    assert_eq!(f64::from_bits(mix_duration(&ends, double(20.0)).bits), 20.0);
    let stats = AudioMixStats::default();
    let silent = mix_result(AudioSyncMode::Hybrid, double(10.0), None, stats);
    assert_eq!(f64::from_bits(silent.audio_duration_secs.bits), 10.0);
    assert_eq!(f64::from_bits(silent.video_stretch_factor.bits), 1.0);
    let stretch = |mode: AudioSyncMode, secs: f64, ratio: f64| {
        let sound = Some((double(secs), double(ratio)));
        let mixed = mix_result(mode, double(10.0), sound, stats);
        assert_eq!(f64::from_bits(mixed.audio_duration_secs.bits), secs);
        f64::from_bits(mixed.video_stretch_factor.bits)
    };
    assert_eq!(stretch(AudioSyncMode::VideoSlow, 12.0, 1.2), 1.2);
    assert_eq!(stretch(AudioSyncMode::Hybrid, 12.0, 1.2), 1.2);
    assert_eq!(stretch(AudioSyncMode::Hybrid, 10.0, 0.5), 1.0);
    assert_eq!(stretch(AudioSyncMode::Trim, 12.0, 1.2), 1.0);
    assert_eq!(stretch(AudioSyncMode::SpeedUp, 12.0, 1.2), 1.0);
}

#[test]
fn loud_sound_and_many_channels_are_noticed() {
    assert!(too_loud(F32::from_bits(1.1f32.to_bits())));
    assert!(!too_loud(F32::from_bits(1.0f32.to_bits())));
    assert!(check_mono(1, "\"a.wav\"").is_ok());
    assert_eq!(
        check_mono(2, "\"a.wav\"").unwrap_err().to_string(),
        "Audio decode error: Expected mono, got 2 channels for \"a.wav\""
    );
}
