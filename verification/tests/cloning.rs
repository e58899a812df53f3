use vt_core::asr::sample_span;
use vt_core::cloning::{
    by_sentence, choose_reference, concatenation_path, fall_back, gather_sentences, judge_action,
    judge_output, judge_status, place_results, read_batch_reply, read_reply, segment_text,
    BatchItem, CloningConfig, CommandOutcome, GptSoVitsEngine, HttpOutcome, MockCloningEngine,
    OutputFile, PersistentSubprocessCloneEngine, ReferenceCandidate, SentenceOutcome, ServerStart,
    StartupStep, SubprocessCloneEngine,
};
use vt_core::config;
use vt_core::error::AppError;
use vt_core::ieee::{F32, F64};

fn strings(list: &[&str]) -> Vec<String> {
    list.iter().map(|s| s.to_string()).collect()
}

fn into(dir: &str) -> CloningConfig {
    CloningConfig {
        output_dir: dir.into(),
        ..Default::default()
    }
}

fn candidate(duration: f64, text: &str) -> ReferenceCandidate {
    ReferenceCandidate {
        duration: F64::from_bits(duration.to_bits()),
        closeness: ((duration - 5.0).abs() * 100.0) as u64,
        source_text: text.into(),
    }
}

fn message<T>(r: Result<T, AppError>) -> String {
    match r {
        Err(AppError::VoiceCloningError(m)) => m,
        Err(e) => panic!("another error: {e:?}"),
        Ok(_) => panic!("no error"),
    }
}

#[test]
fn test_cloning_config_default() {
    let config = CloningConfig::default();
    let value = |x: F32| f32::from_bits(x.bits);
    assert!((value(config.speed) - 1.0).abs() < f32::EPSILON);
    assert!((value(config.pitch_shift) - 0.0).abs() < f32::EPSILON);
    assert!((value(config.emotion) - 0.0).abs() < f32::EPSILON);
    assert_eq!(config.sample_rate, 24000);
}

#[test]
fn test_mock_engine_reference_not_found() {
    let mut engine = MockCloningEngine::new();
    let result = engine.begin("/nonexistent/reference.wav", false, &CloningConfig::default());
    assert!(result.is_err(), "Should fail for nonexistent reference");
}

#[test]
fn cloning_test_mock_engine_name() {
    let engine = MockCloningEngine::new();
    assert_eq!(engine.name(), "mock-cloning");
}

#[test]
fn test_mock_engine_generates_unique_files() {
    let mut engine = MockCloningEngine::default();
    let config = into("/tmp/out");
    let path1 = engine.begin("ref.wav", true, &config).unwrap();
    let path2 = engine.begin("ref.wav", true, &config).unwrap();
    assert_ne!(path1, path2, "Should generate unique file paths");
    assert_eq!(path1, "/tmp/out/cloned_000000.wav");
}

#[test]
fn test_cloning_integration_missing_target_text() {
    let result = segment_text("seg-1", &None);
    assert!(result.is_err(), "Should fail without target_text");
    assert_eq!(segment_text("seg-1", &Some("你好".into())).unwrap(), "你好");
}

#[test]
fn test_cloning_integration_try_synthesize_fallback() {
    let mut engine = MockCloningEngine::new();
    let result = engine.begin("/nonexistent/ref.wav", false, &CloningConfig::default());
    assert!(
        fall_back(result).is_none(),
        "Should return None on failure (graceful degradation)"
    );
    assert_eq!(fall_back(Ok("a.wav".into())).as_deref(), Some("a.wav"));
}

#[test]
fn test_extract_reference_audio_success() {
    let list = vec![
        candidate(2.0, "Hi"),
        candidate(5.0, "Hello everyone, welcome to this presentation."),
        candidate(5.0, "Today we will discuss."),
    ];
    assert_eq!(choose_reference(&list), Some(1));
    assert_eq!(sample_span(32000, 112000, 480000), Some((32000, 112000)));
}

#[test]
fn test_extract_reference_audio_picks_best_duration() {
    let list = vec![
        candidate(8.0, "Long segment"),
        candidate(5.0, "Medium segment"),
        candidate(3.0, "Short"),
    ];
    let chosen = choose_reference(&list).unwrap();
    assert_eq!(list[chosen].source_text, "Medium segment", "Should pick the 5s segment");
}

#[test]
fn test_extract_reference_audio_no_suitable_segment() {
    let list = vec![candidate(0.5, "A"), candidate(0.5, "B")];
    assert!(
        choose_reference(&list).is_none(),
        "Should return None when no suitable segment"
    );
}

#[test]
fn test_extract_reference_audio_empty_segments() {
    assert!(
        choose_reference(&vec![]).is_none(),
        "Should return None for empty segments"
    );
}

#[test]
fn test_extract_reference_audio_fallback_to_wider_range() {
    let list = vec![candidate(12.0, "Twelve seconds"), candidate(2.0, "Two seconds")];
    assert!(choose_reference(&list).is_some(), "Should fallback to wider range");
    assert_eq!(choose_reference(&list), Some(1));
}

#[test]
fn test_extract_server_args_from_synthesize() {
    let clone_args = strings(&[
        "synthesize",
        "--text",
        "{text}",
        "--voice",
        "{ref_audio}",
        "--output",
        "{output}",
        "--model",
        "models/qwen3-tts",
        "--device",
        "metal",
        "--seed",
        "42",
    ]);
    let result = PersistentSubprocessCloneEngine::extract_server_args(
        &clone_args,
        "subprocess-persistent",
    );
    assert_eq!(result[0], "server");
    assert!(!result.iter().any(|a| a == "--text" || a == "{text}"));
    assert!(!result.iter().any(|a| a == "--voice" || a == "{ref_audio}"));
    assert!(!result.iter().any(|a| a == "--output" || a == "{output}"));
    assert!(result.iter().any(|a| a == "--model"));
    assert!(result.iter().any(|a| a == "models/qwen3-tts"));
    assert!(result.iter().any(|a| a == "--device"));
    assert!(result.iter().any(|a| a == "metal"));
    assert!(result.iter().any(|a| a == "--seed"));
    assert!(result.iter().any(|a| a == "42"));
}

#[test]
fn test_extract_server_args_already_server() {
    let clone_args = strings(&[
        "server",
        "--model",
        "models/qwen3-tts",
        "--device",
        "metal",
        "--decode-device",
        "cpu",
        "--seed",
        "42",
    ]);
    let result = PersistentSubprocessCloneEngine::extract_server_args(
        &clone_args,
        "subprocess-persistent",
    );
    assert_eq!(result[0], "server");
    assert_eq!(result.len(), clone_args.len());
    assert!(result.iter().any(|a| a == "--decode-device"));
    assert!(result.iter().any(|a| a == "cpu"));
    let again =
        PersistentSubprocessCloneEngine::extract_server_args(&result, "subprocess-persistent");
    assert_eq!(again, result);
}

#[test]
fn test_extract_server_args_empty() {
    let result =
        PersistentSubprocessCloneEngine::extract_server_args(&vec![], "subprocess-persistent");
    assert_eq!(result, vec!["server".to_string()]);
}

#[test]
fn test_prewarm_speaker_id_storage() {
    let mut engine = PersistentSubprocessCloneEngine::new("/bin/echo".to_string(), vec![], 10);
    assert!(engine.current_speaker_id().is_none());
    engine.current_speaker = Some("speaker_0".to_string());
    assert_eq!(engine.current_speaker_id().as_deref(), Some("speaker_0"));
}

#[test]
fn a_reply_names_the_file_or_the_error() {
    let ok = read_reply(r#"{"status":"ok","output":"b.wav"}"#, "a.wav");
    assert_eq!(ok.unwrap(), "b.wav");
    let silent = read_reply(r#"{"status":"ok"}"#, "a.wav");
    assert_eq!(silent.unwrap(), "a.wav");
    let error = read_reply(r#"{"status":"error","error":"no voice"}"#, "a.wav");
    assert_eq!(message(error), "vt-tts server error: no voice");
    let odd = read_reply(r#"{"status":"busy"}"#, "a.wav");
    assert_eq!(message(odd), r#"Unexpected server response: {"status":"busy"}"#);
    let broken = message(read_reply("nonsense", "a.wav"));
    assert!(broken.starts_with("Failed to parse server response as JSON: "));
    assert!(broken.ends_with("\nResponse: nonsense"));
}

#[test]
fn a_batch_reply_lists_its_results() {
    let line = r#"{"status":"ok","results":[
        {"index":1,"status":"ok","output":"b.wav"},
        {"index":0,"status":"error"},
        {"status":"ok","output":"x.wav"}]}"#;
    let items = read_batch_reply(line).unwrap();
    assert_eq!(items.len(), 3);
    assert_eq!(items[0].index, Some(1));
    assert_eq!(items[0].output.as_deref(), Some("b.wav"));
    assert_eq!(items[1].status.as_deref(), Some("error"));
    assert_eq!(items[2].index, None);
    let missing = read_batch_reply(r#"{"status":"ok"}"#);
    assert_eq!(message(missing), "batch_synthesize: missing results array");
    let failed = read_batch_reply(r#"{"status":"error","error":"full"}"#);
    assert_eq!(message(failed), "batch_synthesize failed: full");
    assert!(message(read_batch_reply("[")).starts_with("Failed to parse server response"));
}

#[test]
fn results_go_to_their_places() {
    let item = |index: u64, status: &str, output: &str| BatchItem {
        index: Some(index),
        status: Some(status.into()),
        output: Some(output.into()),
    };
    let items = vec![item(2, "ok", "c.wav"), item(0, "error", "a.wav"), item(1, "ok", "b.wav")];
    let placed = place_results(&items, &vec![true, true, false], 3);
    assert_eq!(placed, vec![None, None, Some("c.wav".to_string())]);
}

#[test]
fn the_server_is_started_and_watched() {
    let mut engine =
        PersistentSubprocessCloneEngine::new("vt-tts".into(), strings(&["server"]), 10);
    let refused = engine.server_started(&ServerStart::NotStarted("gone".into()));
    assert!(message(refused).starts_with("Failed to start vt-tts server 'vt-tts': gone"));
    assert!(!engine.running);
    engine.server_started(&ServerStart::Running).unwrap();
    assert!(engine.running);
    engine.line_read("{}", &None).unwrap();
    let gone = engine.line_read("", &Some("exit status: 1".into()));
    assert!(message(gone).contains("exited unexpectedly (status: exit status: 1)"));
    assert!(!engine.running);
    engine.server_started(&ServerStart::Running).unwrap();
    assert_eq!(
        message(engine.line_read("", &None)),
        "Server returned empty response (no stdout output)"
    );
    assert_eq!(
        message(engine.server_started(&ServerStart::NoStdin)),
        "Failed to capture server stdin"
    );
    assert_eq!(
        message(engine.server_started(&ServerStart::NoStdout)),
        "Failed to capture server stdout"
    );
    assert_eq!(
        message(engine.server_started(&ServerStart::NoStderr)),
        "Failed to capture server stderr"
    );
    assert!(message(engine.server_started(&ServerStart::Exited("1".into())))
        .starts_with("vt-tts server exited immediately with status: 1"));
    assert_eq!(
        message(engine.server_started(&ServerStart::Unknown("x".into()))),
        "Failed to check server status: x"
    );
}

#[test]
fn a_warmed_up_speaker_is_remembered() {
    let mut engine = PersistentSubprocessCloneEngine::new("vt-tts".into(), vec![], 10);
    assert!(engine.begin_prewarm("s", "ref.wav", false, None).is_err());
    let request = engine.begin_prewarm("s", "ref.wav", true, Some("hi")).unwrap();
    assert_eq!(request.action, "prewarm_speaker");
    assert_eq!(request.ref_text, "hi");
    let failed = engine.finish_prewarm(r#"{"status":"error"}"#, "s", "ref.wav");
    assert_eq!(message(failed), "prewarm_speaker failed: unknown");
    assert!(engine.current_speaker_id().is_none());
    engine.finish_prewarm(r#"{"status":"ok"}"#, "s", "ref.wav").unwrap();
    assert_eq!(engine.current_speaker_id().as_deref(), Some("s"));
    assert_eq!(engine.name(), "subprocess-persistent");
}

#[test]
fn requests_to_the_server_are_numbered() {
    let mut engine = PersistentSubprocessCloneEngine::new("vt-tts".into(), vec![], 10);
    engine.set_prompt_text("prompt");
    let config = into("/tmp/out");
    let request = engine.begin("ref.wav", true, "你好", &config).unwrap();
    assert_eq!(request.output, "/tmp/out/persistent_cloned_000000.wav");
    assert_eq!(request.ref_text.as_deref(), Some("prompt"));
    assert!(engine.begin("ref.wav", false, "x", &config).is_err());
    let batch = engine.begin_batch("ref.wav", &strings(&["a", "b"]), &config).unwrap();
    assert_eq!(batch.action, "batch_synthesize");
    assert_eq!(batch.items[1].0, "b");
    assert_eq!(batch.items[1].1, "/tmp/out/batch_cloned_000002.wav");
}

#[test]
fn a_command_line_is_filled_in() {
    let mut engine = SubprocessCloneEngine::new(
        "tts".into(),
        Some("model.bin".into()),
        strings(&["--text", "{text}", "--out={output}", "{model}", "{prompt_text}"]),
        60,
    );
    engine.set_prompt_text("hi");
    let (path, args) = engine.begin("ref.wav", true, "你好", &into("/tmp")).unwrap();
    assert_eq!(path, "/tmp/subprocess_cloned_000000.wav");
    assert_eq!(
        args,
        strings(&["--text", "你好", "--out=/tmp/subprocess_cloned_000000.wav", "model.bin", "hi"])
    );
    assert_eq!(engine.name(), "subprocess");
    assert_eq!(
        SubprocessCloneEngine::preset_args("qwen3-tts"),
        strings(&["{model}", "{ref_audio}", "{text}", "chinese", "{output}"])
    );
    let ended = |success: bool| CommandOutcome::Ended {
        success,
        code: Some(2),
        stdout: "o".into(),
        stderr: "e".into(),
    };
    assert!(engine.judge(&ended(true), &OutputFile::Size(44), "\"x\"").is_ok());
    assert_eq!(
        message(engine.judge(&ended(true), &OutputFile::Size(43), "\"x\"")),
        "Output file too small (43 bytes), may not be a valid WAV"
    );
    assert_eq!(
        message(engine.judge(&ended(false), &OutputFile::Missing, "\"x\"")),
        "Clone command failed (exit code: 2):\nstdout: o\nstderr: e"
    );
    assert!(message(engine.judge(&ended(true), &OutputFile::Missing, "\"x\""))
        .starts_with("Clone command succeeded but output file not found: \"x\""));
    assert_eq!(
        message(engine.judge(&ended(true), &OutputFile::Unreadable("no".into()), "\"x\"")),
        "Failed to read output metadata: no"
    );
    assert!(message(engine.judge(
        &CommandOutcome::NotStarted("gone".into()),
        &OutputFile::Missing,
        "\"x\""
    ))
    .starts_with("Failed to execute clone command 'tts': gone"));
}

#[test]
fn engines_need_a_command() {
    let mut settings = config::CloningConfig::default();
    settings.clone_command = None;
    assert!(message(SubprocessCloneEngine::from_config(&settings)).contains("clone_command"));
    assert!(
        message(PersistentSubprocessCloneEngine::from_config(&settings)).contains("clone_command")
    );
    settings.clone_command = Some("tts".into());
    assert_eq!(SubprocessCloneEngine::from_config(&settings).unwrap().command, "tts");
    assert_eq!(
        PersistentSubprocessCloneEngine::from_config(&settings).unwrap().command,
        "tts"
    );
}

#[test]
fn a_service_is_asked_before_it_is_used() {
    let mut settings = config::CloningConfig::default();
    settings.api_url = "http://host".into();
    settings.sovits_model = Some("w.pth".into());
    let mut engine = GptSoVitsEngine::new(settings);
    let steps = engine.startup_steps();
    assert_eq!(steps.len(), 2);
    assert!(matches!(&steps[0], StartupStep::HealthCheck { url } if url == "http://host/tts"));
    let down = HttpOutcome::Transport("refused".into());
    let status = HttpOutcome::Status {
        code: 400,
        body: "bad".into(),
        shown: "status code 400".into(),
    };
    assert!(engine.judge_step(&steps[0], &status).is_ok());
    assert!(message(engine.judge_step(&steps[0], &down)).contains("(http://host): refused"));
    assert_eq!(
        message(engine.judge_step(&steps[1], &status)),
        "Failed to switch SoVITS weights to 'w.pth': status code 400"
    );
    engine.set_prompt_text("hello");
    let request = engine.build_tts_request("/ref.wav", "你好", &CloningConfig::default());
    assert_eq!(request.prompt_text, "hello");
    assert_eq!(request.media_type, "wav");
    assert_eq!(engine.tts_url(), "http://host/tts");
    assert_eq!(engine.name(), "gpt-sovits");
    assert_eq!(
        engine.begin("r", true, &into("/o")).unwrap(),
        "/o/gpt_sovits_cloned_000000.wav"
    );
    assert_eq!(
        message(GptSoVitsEngine::judge_reply(&status)),
        "GPT-SoVITS API 返回错误 (HTTP 400): bad"
    );
    assert!(GptSoVitsEngine::judge_reply(&HttpOutcome::Success).is_ok());
    assert!(message(GptSoVitsEngine::judge_reply(&down)).contains("refused"));
}

#[test]
fn only_wav_data_passes() {
    let mut data = vec![0u8; 44];
    assert!(message(GptSoVitsEngine::check_wav(&data)).contains("不是有效的 WAV"));
    data[..4].copy_from_slice(b"RIFF");
    data[8..12].copy_from_slice(b"WAVE");
    assert!(GptSoVitsEngine::check_wav(&data).is_ok());
    data.pop();
    assert!(message(GptSoVitsEngine::check_wav(&data)).contains("过短 (43 bytes)"));
}

#[test]
fn sentences_that_fail_are_left_out() {
    let failed = || Err(AppError::VoiceCloningError("x".into()));
    assert!(by_sentence(true, 2));
    assert!(!by_sentence(true, 1));
    assert!(!by_sentence(false, 2));
    match gather_sentences(&vec![failed(), Ok("b".into())]) {
        Ok(SentenceOutcome::Single(p)) => assert_eq!(p, "b"),
        other => panic!("unexpected: {other:?}"),
    }
    match gather_sentences(&vec![Ok("a".into()), failed(), Ok("c".into())]) {
        Ok(SentenceOutcome::Concatenate(p)) => assert_eq!(p, strings(&["a", "c"])),
        other => panic!("unexpected: {other:?}"),
    }
    assert_eq!(
        message(gather_sentences(&vec![failed()])),
        "All sentence synthesis failed"
    );
    assert_eq!(concatenation_path("/tmp", 17), "/tmp/sentence_concat_17.wav");
}

#[test]
fn verdicts_on_replies() {
    assert!(judge_action(&Some("ok".into()), &None, "no: ").is_ok());
    assert_eq!(
        message(judge_action(&None, &Some("why".into()), "no: ")),
        "no: why"
    );
    assert_eq!(
        message(judge_status(&Some("error".into()), &None, &None, "{}", "a")),
        "vt-tts server error: unknown error"
    );
    assert!(judge_output(&OutputFile::Size(100), "\"x\"").is_ok());
    assert_eq!(
        message(judge_output(&OutputFile::Missing, "\"x\"")),
        "Server reported success but output file not found: \"x\""
    );
    assert!(message(judge_output(&OutputFile::Size(1), "\"x\"")).contains("(1 bytes)"));
    assert_eq!(
        message(judge_output(&OutputFile::Unreadable("no".into()), "\"x\"")),
        "Failed to read output metadata: no"
    );
}

#[test]
fn no_texts_ask_for_nothing() {
    let mut engine = PersistentSubprocessCloneEngine::new("tts".into(), vec![], 60);
    let config = into("/tmp/out");
    assert!(engine.begin_batch("ref.wav", &vec![], &config).is_none());
    assert_eq!(engine.counter, 0);
    assert!(place_results(&vec![], &vec![], 0).is_empty());
}

#[test]
fn what_is_put_in_is_left_as_it_is() {
    let engine = SubprocessCloneEngine::new("tts".into(), None, vec![], 1);
    let template = strings(&["{text}", "--out={output}"]);
    assert_eq!(
        engine.replace_placeholders(&template, "say {output}", "r.wav", "o.wav"),
        strings(&["say {output}", "--out=o.wav"])
    );
    let template = strings(&["{{text}{ref_audio}}", "{model}{prompt_text}|"]);
    assert_eq!(
        engine.replace_placeholders(&template, "{text}", "{model}", "o.wav"),
        strings(&["{{text}{model}}", "|"])
    );
}

#[test]
fn requests_are_written_as_the_server_reads_them() {
    let mut engine = PersistentSubprocessCloneEngine::new("tts".into(), vec![], 60);
    let config = into("/tmp");
    let said = "say \"hi\"\\\n\t\r\u{8}\u{c}\u{1}\u{1f}\u{7f}你好";
    let request = engine.begin("ref.wav", true, said, &config).unwrap();
    let mut map = serde_json::Map::new();
    let string = |s: &str| serde_json::Value::String(s.to_string());
    map.insert("text".to_string(), string(said));
    map.insert("voice".to_string(), string("ref.wav"));
    map.insert("output".to_string(), string("/tmp/persistent_cloned_000000.wav"));
    map.insert("ref_text".to_string(), serde_json::Value::Null);
    assert_eq!(request.line(), serde_json::Value::Object(map.clone()).to_string());
    engine.set_prompt_text("prompt");
    engine.finish_prewarm("{\"status\":\"ok\"}", "speaker_0", "ref.wav").unwrap();
    let request = engine.begin("ref.wav", true, said, &config).unwrap();
    map.insert("output".to_string(), string("/tmp/persistent_cloned_000001.wav"));
    map.insert("ref_text".to_string(), string("prompt"));
    map.insert("speaker_id".to_string(), string("speaker_0"));
    assert_eq!(request.line(), serde_json::Value::Object(map).to_string());

    let prewarm = engine.begin_prewarm("speaker_1", "a.wav", true, Some("text")).unwrap();
    assert_eq!(
        prewarm.line(),
        "{\"action\":\"prewarm_speaker\",\"ref_text\":\"text\",\"speaker_id\":\"speaker_1\",\
         \"voice\":\"a.wav\"}"
    );
    let batch = engine.begin_batch("ref.wav", &strings(&["a", "b\""]), &config).unwrap();
    assert_eq!(
        batch.line(),
        "{\"action\":\"batch_synthesize\",\"items\":[\
         {\"output\":\"/tmp/batch_cloned_000002.wav\",\"text\":\"a\"},\
         {\"output\":\"/tmp/batch_cloned_000003.wav\",\"text\":\"b\\\"\"}],\
         \"ref_text\":\"prompt\",\"speaker_id\":\"speaker_0\",\"voice\":\"ref.wav\"}"
    );
}

#[test]
fn a_place_holds_a_result_exactly_where_one_can_be_used() {
    let item = |index: u64, status: &str, output: &str| BatchItem {
        index: Some(index),
        status: Some(status.into()),
        output: Some(output.into()),
    };
    let items = vec![item(2, "ok", "a"), item(0, "error", "b"), item(1, "ok", "c")];
    let placed = place_results(&items, &vec![true, true, false], 3);
    assert_eq!(placed, vec![None, None, Some("a".to_string())]);
}
