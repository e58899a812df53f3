//! Voice cloning: requests to the cloning engines, and what is made of their replies.
//!
//! Talking to an engine (a service, a command, a server process) is left to the caller. The engines
//! here say what to send and where the result goes, and judge what came back.
use vstd::prelude::*;

use crate::config;
use crate::error::AppError;
use crate::ieee::{F32, F64};
use crate::json;
use crate::text;
use crate::text::{
    append2, cat3, cat4, cat5, contains, copied, count_text, decimal_text, is_blank, join, padded_text,
    path_join, same_text, signed_text, substitute,
};

verus! {

/// The settings of one synthesis.
#[derive(Debug, Clone)]
pub struct CloningConfig {
    /// The speed, 1 for normal.
    pub speed: F32,
    /// The shift of the pitch in semitones.
    pub pitch_shift: F32,
    /// The strength of emotion, 0 for none.
    pub emotion: F32,
    /// The sample rate of the result.
    pub sample_rate: u32,
    /// The directory of the result.
    pub output_dir: String,
}

impl Default for CloningConfig {
    fn default() -> (r: Self)
        ensures
            r.speed.bits == 0x3f80_0000,
            r.pitch_shift.bits == 0,
            r.emotion.bits == 0,
            r.sample_rate == 24000,
            r.output_dir@ == "./output/cloned"@,
    {
        CloningConfig {
            speed: F32::from_bits(0x3f80_0000),
            pitch_shift: F32::from_bits(0),
            emotion: F32::from_bits(0),
            sample_rate: 24000,
            output_dir: "./output/cloned".to_owned(),
        }
    }
}

/// The result is a cloning error with this message.
pub open spec fn cloning_error<T>(r: Result<T, AppError>, message: Seq<char>) -> bool {
    r matches Err(AppError::VoiceCloningError(m)) && m@ == message
}

/// A cloning error is an error of that kind with exactly that message.
pub proof fn law_cloning_error<T>(r: Result<T, AppError>, message: Seq<char>)
    requires
        cloning_error(r, message),
    ensures
        r is Err,
        r->Err_0 is VoiceCloningError,
        r->Err_0->VoiceCloningError_0@ == message,
{
}

/// The file that an engine writes as its `index`-th result.
pub open spec fn output_file(dir: Seq<char>, prefix: Seq<char>, index: usize) -> Seq<char> {
    text::path_joined(dir, prefix + text::padded(index as nat, 6) + ".wav"@)
}

/// An engine never writes two results to one file, as long as its numbers do not start again.
pub proof fn law_output_files_distinct(dir: Seq<char>, prefix: Seq<char>, a: usize, b: usize)
    requires
        a != b,
        prefix.len() > 0,
        prefix[0] != '/',
    ensures
        output_file(dir, prefix, a) != output_file(dir, prefix, b),
{
    let name_a = prefix + text::padded(a as nat, 6) + ".wav"@;
    let name_b = prefix + text::padded(b as nat, 6) + ".wav"@;
    if output_file(dir, prefix, a) == output_file(dir, prefix, b) {
        let at = output_file(dir, prefix, a).len() - name_a.len();
        assert(output_file(dir, prefix, a).skip(at) =~= name_a);
        assert(output_file(dir, prefix, b).skip(at) =~= name_b);
        let len = text::padded(a as nat, 6).len() as int;
        assert(name_a.subrange(prefix.len() as int, prefix.len() + len) =~= text::padded(
            a as nat,
            6,
        ));
        assert(name_b.subrange(prefix.len() as int, prefix.len() + len) =~= text::padded(
            b as nat,
            6,
        ));
        text::law_padded_value(a as nat, 6);
        text::law_padded_value(b as nat, 6);
    }
}

/// The file stands in its directory, and its name is the prefix with the number in six digits.
pub proof fn law_output_file_name(dir: Seq<char>, prefix: Seq<char>, index: usize)
    requires
        dir.len() > 0,
        dir.last() != '/',
        prefix.len() > 0,
        prefix[0] != '/',
    ensures
        output_file(dir, prefix, index) == dir + seq!['/'] + (prefix + text::padded(
            index as nat,
            6,
        ) + ".wav"@),
{
}

fn output_path(dir: &str, prefix: &str, index: usize) -> (r: String)
    ensures
        r@ == output_file(dir@, prefix@, index),
{
    let number = padded_text(index as u64, 6);
    path_join(dir, cat3(prefix, number.as_str(), ".wav").as_str())
}

/// The number after `n`, which starts again at 0 after the last.
pub open spec fn following(n: usize) -> usize {
    if n == usize::MAX {
        0
    } else {
        (n + 1) as usize
    }
}

/// The number after the last one is 0, and each other one is one less than the one after it.
pub proof fn law_following(n: usize)
    ensures
        n < usize::MAX ==> following(n) == n + 1,
        n == usize::MAX ==> following(n) == 0,
{
}

fn successor(n: usize) -> (r: usize)
    ensures
        r == following(n),
{
    if n == usize::MAX {
        0
    } else {
        n + 1
    }
}

/// Fewer than this many bytes hold no WAV file.
pub const WAV_HEADER_LEN: u64 = 44;

/// An engine for trying things out, whose voice is a sine wave.
#[derive(Debug)]
pub struct MockCloningEngine {
    /// The number of the next file.
    pub counter: usize,
}

impl MockCloningEngine {
    /// An engine that has written no files.
    pub fn new() -> (r: Self)
        ensures
            r.counter == 0,
    {
        MockCloningEngine { counter: 0 }
    }

    /// The name of the engine.
    pub fn name(&self) -> (r: &'static str)
        ensures
            r@ == "mock-cloning"@,
    {
        "mock-cloning"
    }

    /// Starts a synthesis: the path of its result, or an error where the reference is not there.
    pub fn begin(
        &mut self,
        reference_audio: &str,
        reference_exists: bool,
        config: &CloningConfig,
    ) -> (r: Result<String, AppError>)
        ensures
            match r {
                Ok(path) => {
                    &&& reference_exists
                    &&& path@ == output_file(config.output_dir@, "cloned_"@, old(self).counter)
                    &&& final(self).counter == following(old(self).counter)
                },
                Err(e) => {
                    &&& !reference_exists
                    &&& e matches AppError::FileNotFound(p) && p@ == reference_audio@
                    &&& final(self).counter == old(self).counter
                },
            },
    {
        if !reference_exists {
            return Err(AppError::FileNotFound(reference_audio.to_owned()));
        }
        let index = self.counter;
        self.counter = successor(index);
        Ok(output_path(config.output_dir.as_str(), "cloned_", index))
    }
}

impl Default for MockCloningEngine {
    fn default() -> (r: Self)
        ensures
            r.counter == 0,
    {
        MockCloningEngine::new()
    }
}

/// What came back for an HTTP request.
#[derive(Debug, Clone)]
pub enum HttpOutcome {
    /// A reply that says that all is well.
    Success,
    /// A reply with an error status.
    Status {
        /// The status.
        code: u16,
        /// The body of the reply.
        body: String,
        /// The error as the client reports it.
        shown: String,
    },
    /// No reply; what went wrong.
    Transport(String),
}

/// A step of connecting to the GPT-SoVITS service.
#[derive(Debug, Clone)]
pub enum StartupStep {
    /// Ask whether the service is there.
    HealthCheck {
        /// The address.
        url: String,
    },
    /// Load the weights of the text model.
    GptWeights {
        /// The address.
        url: String,
        /// The path of the weights.
        weights: String,
    },
    /// Load the weights of the audio model.
    SovitsWeights {
        /// The address.
        url: String,
        /// The path of the weights.
        weights: String,
    },
}

/// A step as a value: which one, its address, and the weights.
pub open spec fn step_view(s: StartupStep) -> (int, Seq<char>, Seq<char>) {
    match s {
        StartupStep::HealthCheck { url } => (0, url@, Seq::empty()),
        StartupStep::GptWeights { url, weights } => (1, url@, weights@),
        StartupStep::SovitsWeights { url, weights } => (2, url@, weights@),
    }
}

/// The steps of connecting to the service that `c` names.
pub open spec fn startup_views(c: config::CloningConfig) -> Seq<(int, Seq<char>, Seq<char>)> {
    seq![(0int, c.api_url@ + "/tts"@, Seq::<char>::empty())] + match c.gpt_model {
        Some(w) => seq![(1int, c.api_url@ + "/set_gpt_weights"@, w@)],
        None => Seq::empty(),
    } + match c.sovits_model {
        Some(w) => seq![(2int, c.api_url@ + "/set_sovits_weights"@, w@)],
        None => Seq::empty(),
    }
}

/// The error that `outcome` stands for, as the client reports it.
pub open spec fn http_message(outcome: HttpOutcome) -> Seq<char> {
    match outcome {
        HttpOutcome::Success => ""@,
        HttpOutcome::Status { shown, .. } => shown@,
        HttpOutcome::Transport(e) => e@,
    }
}

fn http_text(outcome: &HttpOutcome) -> (r: &str)
    ensures
        r@ == http_message(*outcome),
{
    match outcome {
        HttpOutcome::Success => "",
        HttpOutcome::Status { shown, .. } => shown.as_str(),
        HttpOutcome::Transport(e) => e.as_str(),
    }
}

/// A request to the GPT-SoVITS service.
#[derive(Debug, Clone)]
pub struct TtsRequest {
    /// What to say.
    pub text: String,
    /// In which language.
    pub text_lang: String,
    /// The reference audio.
    pub ref_audio_path: String,
    /// What is said in it.
    pub prompt_text: String,
    /// In which language.
    pub prompt_lang: String,
    /// How to split the text.
    pub text_split_method: String,
    /// How many pieces to speak at a time.
    pub batch_size: u32,
    /// The format of the reply.
    pub media_type: String,
    /// Whether the reply comes in pieces.
    pub streaming_mode: bool,
    /// The speed.
    pub speed_factor: F32,
    /// The top-k of sampling.
    pub top_k: u32,
    /// The top-p of sampling.
    pub top_p: F32,
    /// The sampling temperature.
    pub temperature: F32,
    /// The penalty on repetition.
    pub repetition_penalty: F32,
    /// Whether pieces are spoken in parallel.
    pub parallel_infer: bool,
}

/// The GPT-SoVITS service.
#[derive(Debug)]
pub struct GptSoVitsEngine {
    /// The settings.
    pub config: config::CloningConfig,
    /// The number of the next file.
    pub counter: usize,
}

impl GptSoVitsEngine {
    /// The service that `config` names, before any of the [`startup_steps`](Self::startup_steps).
    pub fn new(config: config::CloningConfig) -> (r: Self)
        ensures
            r.config == config,
            r.counter == 0,
    {
        GptSoVitsEngine { config, counter: 0 }
    }

    /// What to ask of the service before it is used: whether it is there, and to load the weights
    /// that are set. Each step has to pass [`judge_step`](Self::judge_step) before the next.
    pub fn startup_steps(&self) -> (r: Vec<StartupStep>)
        ensures
            r@.map_values(|s: StartupStep| step_view(s)) == startup_views(self.config),
            r@.len() == 1 + (if self.config.gpt_model is Some {
                1int
            } else {
                0
            }) + (if self.config.sovits_model is Some {
                1int
            } else {
                0
            }),
            r@[0] is HealthCheck && r@[0]->HealthCheck_url@ == self.config.api_url@ + "/tts"@,
            self.config.gpt_model matches Some(w) ==> {
                &&& r@[1] is GptWeights
                &&& r@[1]->GptWeights_url@ == self.config.api_url@ + "/set_gpt_weights"@
                &&& r@[1]->GptWeights_weights@ == w@
            },
            self.config.sovits_model matches Some(w) ==> {
                let last = r@[r@.len() - 1];
                &&& last is SovitsWeights
                &&& last->SovitsWeights_url@ == self.config.api_url@ + "/set_sovits_weights"@
                &&& last->SovitsWeights_weights@ == w@
            },
    {
        let api_url = self.config.api_url.as_str();
        let mut steps: Vec<StartupStep> = Vec::new();
        steps.push(StartupStep::HealthCheck { url: append2(api_url, "/tts") });
        match &self.config.gpt_model {
            Some(weights) => {
                steps.push(
                    StartupStep::GptWeights {
                        url: append2(api_url, "/set_gpt_weights"),
                        weights: weights.clone(),
                    },
                );
            },
            None => {},
        }
        match &self.config.sovits_model {
            Some(weights) => {
                steps.push(
                    StartupStep::SovitsWeights {
                        url: append2(api_url, "/set_sovits_weights"),
                        weights: weights.clone(),
                    },
                );
            },
            None => {},
        }
        assert(steps@.map_values(|s: StartupStep| step_view(s)) =~= startup_views(self.config));
        steps
    }

    /// Judges what came back for a step. The service is there where it replies at all, be it with an
    /// error status; weights are loaded where the reply says that all is well.
    pub fn judge_step(&self, step: &StartupStep, outcome: &HttpOutcome) -> (r: Result<(), AppError>)
        ensures
            match *step {
                StartupStep::HealthCheck { url } => match *outcome {
                    HttpOutcome::Transport(e) => cloning_error(
                        r,
                        "GPT-SoVITS API 不可达 ("@ + self.config.api_url@ + "): "@ + e@
                            + "\n请确保已启动 API 服务: python api_v2.py -a 127.0.0.1 -p 9880"@,
                    ),
                    _ => r is Ok,
                },
                StartupStep::GptWeights { url, weights } => if *outcome is Success {
                    r is Ok
                } else {
                    cloning_error(
                        r,
                        "Failed to switch GPT weights to '"@ + weights@ + "': "@ + http_message(
                            *outcome,
                        ),
                    )
                },
                StartupStep::SovitsWeights { url, weights } => if *outcome is Success {
                    r is Ok
                } else {
                    cloning_error(
                        r,
                        "Failed to switch SoVITS weights to '"@ + weights@ + "': "@ + http_message(
                            *outcome,
                        ),
                    )
                },
            },
    {
        match step {
            StartupStep::HealthCheck { url } => match outcome {
                HttpOutcome::Transport(e) => Err(
                    AppError::VoiceCloningError(
                        cat5(
                            "GPT-SoVITS API 不可达 (",
                            self.config.api_url.as_str(),
                            "): ",
                            e.as_str(),
                            "\n请确保已启动 API 服务: python api_v2.py -a 127.0.0.1 -p 9880",
                        ),
                    ),
                ),
                _ => Ok(()),
            },
            StartupStep::GptWeights { url, weights } => match outcome {
                HttpOutcome::Success => Ok(()),
                _ => Err(
                    AppError::VoiceCloningError(
                        cat4(
                            "Failed to switch GPT weights to '",
                            weights.as_str(),
                            "': ",
                            http_text(outcome),
                        ),
                    ),
                ),
            },
            StartupStep::SovitsWeights { url, weights } => match outcome {
                HttpOutcome::Success => Ok(()),
                _ => Err(
                    AppError::VoiceCloningError(
                        cat4(
                            "Failed to switch SoVITS weights to '",
                            weights.as_str(),
                            "': ",
                            http_text(outcome),
                        ),
                    ),
                ),
            },
        }
    }

    /// Sets the text of the reference audio.
    pub fn set_prompt_text(&mut self, prompt_text: &str)
        ensures
            final(self).config.prompt_text matches Some(t) && t@ == prompt_text@,
            final(self).config == (config::CloningConfig {
                prompt_text: final(self).config.prompt_text,
                ..old(self).config
            }),
            final(self).counter == old(self).counter,
    {
        self.config.prompt_text = Some(prompt_text.to_owned());
    }

    /// The name of the engine.
    pub fn name(&self) -> (r: &'static str)
        ensures
            r@ == "gpt-sovits"@,
    {
        "gpt-sovits"
    }

    /// Starts a synthesis: the path of its result, or an error where the reference is not there.
    pub fn begin(
        &mut self,
        reference_audio: &str,
        reference_exists: bool,
        config: &CloningConfig,
    ) -> (r: Result<String, AppError>)
        ensures
            final(self).config == old(self).config,
            match r {
                Ok(path) => {
                    &&& reference_exists
                    &&& path@ == output_file(
                        config.output_dir@,
                        "gpt_sovits_cloned_"@,
                        old(self).counter,
                    )
                    &&& final(self).counter == following(old(self).counter)
                },
                Err(e) => {
                    &&& !reference_exists
                    &&& e matches AppError::FileNotFound(p) && p@ == reference_audio@
                    &&& final(self).counter == old(self).counter
                },
            },
    {
        if !reference_exists {
            return Err(AppError::FileNotFound(reference_audio.to_owned()));
        }
        let index = self.counter;
        self.counter = successor(index);
        Ok(output_path(config.output_dir.as_str(), "gpt_sovits_cloned_", index))
    }

    /// The address of a synthesis.
    pub fn tts_url(&self) -> (r: String)
        ensures
            r@ == self.config.api_url@ + "/tts"@,
    {
        append2(self.config.api_url.as_str(), "/tts")
    }

    /// The request for a synthesis. `ref_audio_path` is the path of the reference audio as the
    /// service sees it.
    pub fn build_tts_request(
        &self,
        ref_audio_path: &str,
        text: &str,
        synth_config: &CloningConfig,
    ) -> (r: TtsRequest)
        ensures
            r.text@ == text@,
            r.text_lang@ == self.config.text_lang@,
            r.ref_audio_path@ == ref_audio_path@,
            r.prompt_text@ == match self.config.prompt_text {
                Some(t) => t@,
                None => ""@,
            },
            r.prompt_lang@ == self.config.prompt_lang@,
            r.text_split_method@ == self.config.text_split_method@,
            r.batch_size == 1,
            r.media_type@ == "wav"@,
            !r.streaming_mode,
            r.speed_factor == synth_config.speed,
            r.top_k == self.config.top_k,
            r.top_p == self.config.top_p.value,
            r.temperature == self.config.temperature.value,
            r.repetition_penalty == self.config.repetition_penalty.value,
            r.parallel_infer,
    {
        let prompt_text = match &self.config.prompt_text {
            Some(t) => t.clone(),
            None => "".to_owned(),
        };
        TtsRequest {
            text: text.to_owned(),
            text_lang: self.config.text_lang.clone(),
            ref_audio_path: ref_audio_path.to_owned(),
            prompt_text,
            prompt_lang: self.config.prompt_lang.clone(),
            text_split_method: self.config.text_split_method.clone(),
            batch_size: 1,
            media_type: "wav".to_owned(),
            streaming_mode: false,
            speed_factor: synth_config.speed,
            top_k: self.config.top_k,
            top_p: self.config.top_p.value,
            temperature: self.config.temperature.value,
            repetition_penalty: self.config.repetition_penalty.value,
            parallel_infer: true,
        }
    }

    /// The error of a synthesis for which no good reply came; nothing where one came.
    pub fn judge_reply(outcome: &HttpOutcome) -> (r: Result<(), AppError>)
        ensures
            match *outcome {
                HttpOutcome::Success => r is Ok,
                HttpOutcome::Status { code, body, .. } => cloning_error(
                    r,
                    "GPT-SoVITS API 返回错误 (HTTP "@ + text::decimal(code as nat) + "): "@ + body@,
                ),
                HttpOutcome::Transport(e) => cloning_error(
                    r,
                    "GPT-SoVITS API 请求失败: "@ + e@
                        + "\n请确认 API 服务已启动: python api_v2.py -p 9880"@,
                ),
            },
    {
        match outcome {
            HttpOutcome::Success => Ok(()),
            HttpOutcome::Status { code, body, .. } => Err(
                AppError::VoiceCloningError(
                    cat4(
                        "GPT-SoVITS API 返回错误 (HTTP ",
                        decimal_text(*code as u64).as_str(),
                        "): ",
                        body.as_str(),
                    ),
                ),
            ),
            HttpOutcome::Transport(e) => Err(
                AppError::VoiceCloningError(
                    cat3(
                        "GPT-SoVITS API 请求失败: ",
                        e.as_str(),
                        "\n请确认 API 服务已启动: python api_v2.py -p 9880",
                    ),
                ),
            ),
        }
    }

    /// Checks that `data` starts as a WAV file does.
    pub fn check_wav(data: &Vec<u8>) -> (r: Result<(), AppError>)
        ensures
            if data@.len() < WAV_HEADER_LEN {
                cloning_error(
                    r,
                    "GPT-SoVITS 返回的音频数据过短 ("@ + text::decimal(data@.len())
                        + " bytes)，可能不是有效的 WAV"@,
                )
            } else if !wav_header(data@) {
                cloning_error(r, "GPT-SoVITS 返回的数据不是有效的 WAV 格式"@)
            } else {
                r is Ok
            },
            r is Ok <==> data@.len() >= 44 && data@[0] == 0x52 && data@[1] == 0x49 && data@[2]
                == 0x46 && data@[3] == 0x46 && data@[8] == 0x57 && data@[9] == 0x41 && data@[10]
                == 0x56 && data@[11] == 0x45,
    {
        if data.len() < 44 {
            return Err(
                AppError::VoiceCloningError(
                    cat3(
                        "GPT-SoVITS 返回的音频数据过短 (",
                        count_text(data.len()).as_str(),
                        " bytes)，可能不是有效的 WAV",
                    ),
                ),
            );
        }
        let riff = data[0] == 0x52 && data[1] == 0x49 && data[2] == 0x46 && data[3] == 0x46;
        let wave = data[8] == 0x57 && data[9] == 0x41 && data[10] == 0x56 && data[11] == 0x45;
        assert(riff == (data@.subrange(0, 4) == seq![0x52u8, 0x49u8, 0x46u8, 0x46u8])) by {
            let head = data@.subrange(0, 4);
            assert(head[0] == data@[0] && head[1] == data@[1] && head[2] == data@[2] && head[3]
                == data@[3]);
            if riff {
                assert(head =~= seq![0x52u8, 0x49u8, 0x46u8, 0x46u8]);
            }
        }
        assert(wave == (data@.subrange(8, 12) == seq![0x57u8, 0x41u8, 0x56u8, 0x45u8])) by {
            let head = data@.subrange(8, 12);
            assert(head[0] == data@[8] && head[1] == data@[9] && head[2] == data@[10] && head[3]
                == data@[11]);
            if wave {
                assert(head =~= seq![0x57u8, 0x41u8, 0x56u8, 0x45u8]);
            }
        }
        if !riff || !wave {
            return Err(
                AppError::VoiceCloningError("GPT-SoVITS 返回的数据不是有效的 WAV 格式".to_owned()),
            );
        }
        Ok(())
    }
}

/// `data` starts with `RIFF`, and has `WAVE` at position 8.
pub open spec fn wav_header(data: Seq<u8>) -> bool {
    &&& data.len() >= 12
    &&& data.subrange(0, 4) == seq![0x52u8, 0x49u8, 0x46u8, 0x46u8]
    &&& data.subrange(8, 12) == seq![0x57u8, 0x41u8, 0x56u8, 0x45u8]
}

/// The argument templates of an engine that has no others: those of IndexTTS, of Qwen3-TTS, and of
/// any other command.
pub open spec fn preset(engine: Seq<char>) -> Seq<Seq<char>> {
    if engine == "indextts"@ {
        seq![
            "synthesize"@,
            "--text"@,
            "{text}"@,
            "--voice"@,
            "{ref_audio}"@,
            "--output"@,
            "{output}"@,
        ]
    } else if engine == "qwen3-tts"@ {
        seq!["{model}"@, "{ref_audio}"@, "{text}"@, "chinese"@, "{output}"@]
    } else {
        seq!["--text"@, "{text}"@, "--voice"@, "{ref_audio}"@, "--output"@, "{output}"@]
    }
}

/// An optional text, empty where there is none.
pub open spec fn text_or_empty(s: Option<String>) -> Seq<char> {
    match s {
        Some(t) => t@,
        None => ""@,
    }
}

fn str_or_empty(s: &Option<String>) -> (r: &str)
    ensures
        r@ == text_or_empty(*s),
{
    match s {
        Some(t) => t.as_str(),
        None => "",
    }
}

/// The placeholders of a template, and what stands for each.
pub open spec fn placeholders(
    text: Seq<char>,
    ref_audio: Seq<char>,
    output: Seq<char>,
    model: Seq<char>,
    prompt_text: Seq<char>,
) -> Seq<(Seq<char>, Seq<char>)> {
    seq![
        ("{text}"@, text),
        ("{ref_audio}"@, ref_audio),
        ("{output}"@, output),
        ("{model}"@, model),
        ("{prompt_text}"@, prompt_text),
    ]
}

/// `arg` with its placeholders filled in. What is put in is left as it is, even where it looks like a
/// placeholder.
pub open spec fn filled(
    arg: Seq<char>,
    text: Seq<char>,
    ref_audio: Seq<char>,
    output: Seq<char>,
    model: Seq<char>,
    prompt_text: Seq<char>,
) -> Seq<char> {
    text::substituted(arg, placeholders(text, ref_audio, output, model, prompt_text))
}

/// Every value reaches the command unaltered: a template that is one placeholder becomes the value of
/// that placeholder, whatever the values hold.
pub proof fn law_values_are_unaltered(
    text: Seq<char>,
    ref_audio: Seq<char>,
    output: Seq<char>,
    model: Seq<char>,
    prompt_text: Seq<char>,
)
    ensures
        filled("{text}"@, text, ref_audio, output, model, prompt_text) == text,
        filled("{ref_audio}"@, text, ref_audio, output, model, prompt_text) == ref_audio,
        filled("{output}"@, text, ref_audio, output, model, prompt_text) == output,
        filled("{model}"@, text, ref_audio, output, model, prompt_text) == model,
        filled("{prompt_text}"@, text, ref_audio, output, model, prompt_text) == prompt_text,
{
    reveal_strlit("{text}");
    reveal_strlit("{ref_audio}");
    reveal_strlit("{output}");
    reveal_strlit("{model}");
    reveal_strlit("{prompt_text}");
    let table = placeholders(text, ref_audio, output, model, prompt_text);
    assert forall|i: int, k: int| 0 <= i < k < table.len() implies !text::starts_with(
        (#[trigger] table[k]).0,
        (#[trigger] table[i]).0,
    ) by {
        let a = table[k].0;
        let b = table[i].0;
        assert(a[1] != b[1]);
        if text::starts_with(a, b) {
            assert(a.subrange(0, b.len() as int)[1] == b[1]);
        }
    }
    assert forall|k: int| 0 <= k < table.len() implies text::substituted(
        (#[trigger] table[k]).0,
        table,
    ) == table[k].1 by {
        text::law_substituted_alone(table, k);
    }
    assert(table[0].0 == "{text}"@ && table[1].0 == "{ref_audio}"@ && table[2].0 == "{output}"@
        && table[3].0 == "{model}"@ && table[4].0 == "{prompt_text}"@);
}

/// A preset command says what it is given: after `--text` comes the text, after `--voice` the reference
/// audio, and after `--output` the path of the result, whatever these hold. Each of the three is given.
pub proof fn law_presets_name_values(
    engine: Seq<char>,
    text: Seq<char>,
    ref_audio: Seq<char>,
    output: Seq<char>,
    model: Seq<char>,
    prompt_text: Seq<char>,
    i: int,
)
    requires
        engine != "qwen3-tts"@,
        0 <= i < preset(engine).len(),
    ensures
        ({
            let args = Seq::new(
                preset(engine).len(),
                |k: int|
                    filled(preset(engine)[k], text, ref_audio, output, model, prompt_text),
            );
            &&& preset(engine)[i] == "--text"@ ==> i + 1 < args.len() && args[i + 1] == text
            &&& preset(engine)[i] == "--voice"@ ==> i + 1 < args.len() && args[i + 1] == ref_audio
            &&& preset(engine)[i] == "--output"@ ==> i + 1 < args.len() && args[i + 1] == output
        }),
        preset(engine).contains("--text"@),
        preset(engine).contains("--voice"@),
        preset(engine).contains("--output"@),
        engine == "indextts"@ ==> preset(engine)[0] == "synthesize"@,
{
    law_values_are_unaltered(text, ref_audio, output, model, prompt_text);
    reveal_strlit("synthesize");
    reveal_strlit("--text");
    reveal_strlit("--voice");
    reveal_strlit("--output");
    reveal_strlit("{text}");
    reveal_strlit("{ref_audio}");
    reveal_strlit("{output}");
    let t = preset(engine);
    assert("--text"@[2] == 't' && "--voice"@[2] == 'v' && "--output"@[2] == 'o');
    assert("synthesize"@[0] == 's' && "{text}"@[0] == '{' && "{ref_audio}"@[0] == '{'
        && "{output}"@[0] == '{');
    assert("--text"@[0] == '-' && "--voice"@[0] == '-' && "--output"@[0] == '-');
    let at: int = if engine == "indextts"@ {
        1
    } else {
        0
    };
    assert(t[at] == "--text"@ && t[at + 2] == "--voice"@ && t[at + 4] == "--output"@);
}

/// The preset command of Qwen3-TTS gives the model, the reference audio, the text, the language and the
/// path of the result, in this order and whatever these hold.
pub proof fn law_qwen_preset(
    text: Seq<char>,
    ref_audio: Seq<char>,
    output: Seq<char>,
    model: Seq<char>,
    prompt_text: Seq<char>,
)
    ensures
        Seq::new(
            preset("qwen3-tts"@).len(),
            |k: int|
                filled(preset("qwen3-tts"@)[k], text, ref_audio, output, model, prompt_text),
        ) == seq![model, ref_audio, text, "chinese"@, output],
{
    law_values_are_unaltered(text, ref_audio, output, model, prompt_text);
    reveal_strlit("indextts");
    reveal_strlit("qwen3-tts");
    reveal_strlit("chinese");
    reveal_strlit("{text}");
    reveal_strlit("{ref_audio}");
    reveal_strlit("{output}");
    reveal_strlit("{model}");
    reveal_strlit("{prompt_text}");
    assert("indextts"@.len() == 8 && "qwen3-tts"@.len() == 9);
    let table = placeholders(text, ref_audio, output, model, prompt_text);
    assert forall|k: int| 0 <= k < table.len() implies !text::holds_text(
        "chinese"@,
        (#[trigger] table[k]).0,
    ) by {
        let key = table[k].0;
        if text::holds_text("chinese"@, key) {
            let i = choose|i: int| text::occurs_at("chinese"@, key, i);
            assert("chinese"@.subrange(i, i + key.len())[0] == '{');
            assert("chinese"@[i] == '{');
        }
    }
    text::law_substituted_absent("chinese"@, table);
    assert(Seq::new(
        preset("qwen3-tts"@).len(),
        |k: int| filled(preset("qwen3-tts"@)[k], text, ref_audio, output, model, prompt_text),
    ) =~= seq![model, ref_audio, text, "chinese"@, output]);
}

/// How a template is filled in: a placeholder at its start becomes the value of that placeholder, and what
/// follows is filled in for itself; a character that starts no placeholder stays.
pub proof fn law_placeholders_inside(
    rest: Seq<char>,
    c: char,
    text: Seq<char>,
    ref_audio: Seq<char>,
    output: Seq<char>,
    model: Seq<char>,
    prompt_text: Seq<char>,
)
    ensures
        ({
            let after = filled(rest, text, ref_audio, output, model, prompt_text);
            &&& filled("{text}"@ + rest, text, ref_audio, output, model, prompt_text) == text + after
            &&& filled("{ref_audio}"@ + rest, text, ref_audio, output, model, prompt_text)
                == ref_audio + after
            &&& filled("{output}"@ + rest, text, ref_audio, output, model, prompt_text) == output
                + after
            &&& filled("{model}"@ + rest, text, ref_audio, output, model, prompt_text) == model
                + after
            &&& filled("{prompt_text}"@ + rest, text, ref_audio, output, model, prompt_text)
                == prompt_text + after
            &&& c != '{' ==> filled(
                seq![c] + rest,
                text,
                ref_audio,
                output,
                model,
                prompt_text,
            ) == seq![c] + after
        }),
{
    let table = placeholders(text, ref_audio, output, model, prompt_text);
    reveal_strlit("{text}");
    reveal_strlit("{ref_audio}");
    reveal_strlit("{output}");
    reveal_strlit("{model}");
    reveal_strlit("{prompt_text}");
    assert forall|k: int, i: int| 0 <= i < k < 5 implies !text::occurs_at(
        (#[trigger] table[k]).0 + rest,
        (#[trigger] table[i]).0,
        0,
    ) by {
        let whole = table[k].0 + rest;
        if text::occurs_at(whole, table[i].0, 0) {
            let part = whole.subrange(0, table[i].0.len() as int);
            assert(part[1] == whole[1] && whole[1] == table[k].0[1]);
            assert(part[1] == table[i].0[1]);
        }
    }
    text::law_substituted(rest, table, 0, c);
    text::law_substituted(rest, table, 1, c);
    text::law_substituted(rest, table, 2, c);
    text::law_substituted(rest, table, 3, c);
    text::law_substituted(rest, table, 4, c);
    if c != '{' {
        assert forall|i: int| 0 <= i < table.len() implies !text::occurs_at(
            seq![c] + rest,
            (#[trigger] table[i]).0,
            0,
        ) by {
            if text::occurs_at(seq![c] + rest, table[i].0, 0) {
                let part = (seq![c] + rest).subrange(0, table[i].0.len() as int);
                assert(part[0] == c && table[i].0[0] == '{');
            }
        }
    }
}

/// The file that a command should have written.
#[derive(Debug, Clone)]
pub enum OutputFile {
    /// It is not there.
    Missing,
    /// Its size could not be read; what went wrong.
    Unreadable(String),
    /// It has this many bytes.
    Size(u64),
}

/// What became of a command.
#[derive(Debug, Clone)]
pub enum CommandOutcome {
    /// It could not be started; what went wrong.
    NotStarted(String),
    /// It ended.
    Ended {
        /// Whether it reported success.
        success: bool,
        /// Its exit code, where it has one.
        code: Option<i32>,
        /// What it wrote to its standard output.
        stdout: String,
        /// What it wrote to its standard error.
        stderr: String,
    },
}

/// The error for an output file that is too small.
pub open spec fn too_small(size: u64) -> Seq<char> {
    "Output file too small ("@ + text::decimal(size as nat) + " bytes), may not be a valid WAV"@
}

fn too_small_text(size: u64) -> (r: String)
    ensures
        r@ == too_small(size),
{
    cat3(
        "Output file too small (",
        decimal_text(size).as_str(),
        " bytes), may not be a valid WAV",
    )
}

/// An engine that runs a command for each synthesis.
#[derive(Debug)]
pub struct SubprocessCloneEngine {
    /// The command.
    pub command: String,
    /// The path of the model.
    pub model_path: Option<String>,
    /// The templates of the arguments.
    pub args_template: Vec<String>,
    /// How long the command may take, in seconds.
    pub timeout_secs: u64,
    /// The number of the next file.
    pub counter: usize,
    /// The text of the reference audio.
    pub prompt_text: Option<String>,
}

impl SubprocessCloneEngine {
    /// An engine that has written no files and knows no reference text.
    pub fn new(
        command: String,
        model_path: Option<String>,
        args_template: Vec<String>,
        timeout_secs: u64,
    ) -> (r: Self)
        ensures
            r.command == command,
            r.model_path == model_path,
            r.args_template == args_template,
            r.timeout_secs == timeout_secs,
            r.counter == 0,
            r.prompt_text is None,
    {
        SubprocessCloneEngine {
            command,
            model_path,
            args_template,
            timeout_secs,
            counter: 0,
            prompt_text: None,
        }
    }

    /// The engine that `config` names: with its arguments, or with the preset ones where it has none.
    pub fn from_config(config: &config::CloningConfig) -> (r: Result<Self, AppError>)
        ensures
            match config.clone_command {
                None => cloning_error(
                    r,
                    "SubprocessCloneEngine: clone_command 未配置\n请在 config.toml [cloning] 段设置 clone_command 为 CLI 工具路径"@,
                ),
                Some(command) => {
                    &&& r is Ok
                    &&& r->Ok_0.command@ == command@
                    &&& text_of(r->Ok_0.model_path) == text_of(config.clone_model_path)
                    &&& text::texts(r->Ok_0.args_template@) == if config.clone_args@.len() > 0 {
                        text::texts(config.clone_args@)
                    } else {
                        preset(config.engine@)
                    }
                    &&& r->Ok_0.timeout_secs == config.clone_timeout_secs
                    &&& r->Ok_0.counter == 0
                    &&& r->Ok_0.prompt_text is None
                },
            },
    {
        match &config.clone_command {
            None => Err(
                AppError::VoiceCloningError(
                    "SubprocessCloneEngine: clone_command 未配置\n请在 config.toml [cloning] 段设置 clone_command 为 CLI 工具路径".to_owned(),
                ),
            ),
            Some(command) => {
                let args = if !config.clone_args.is_empty() {
                    copied(&config.clone_args)
                } else {
                    SubprocessCloneEngine::preset_args(config.engine.as_str())
                };
                Ok(
                    SubprocessCloneEngine::new(
                        command.clone(),
                        config.clone_model_path.clone(),
                        args,
                        config.clone_timeout_secs,
                    ),
                )
            },
        }
    }

    /// The preset argument templates of an engine.
    pub fn preset_args(engine_name: &str) -> (r: Vec<String>)
        ensures
            text::texts(r@) == preset(engine_name@),
            engine_name@ == "indextts"@ ==> text::texts(r@) == seq![
                "synthesize"@,
                "--text"@,
                "{text}"@,
                "--voice"@,
                "{ref_audio}"@,
                "--output"@,
                "{output}"@,
            ],
            engine_name@ == "qwen3-tts"@ ==> text::texts(r@) == seq![
                "{model}"@,
                "{ref_audio}"@,
                "{text}"@,
                "chinese"@,
                "{output}"@,
            ],
            engine_name@ != "indextts"@ && engine_name@ != "qwen3-tts"@ ==> text::texts(r@) == seq![
                "--text"@,
                "{text}"@,
                "--voice"@,
                "{ref_audio}"@,
                "--output"@,
                "{output}"@,
            ],
    {
        let mut args: Vec<String> = Vec::new();
        if same_text(engine_name, "indextts") {
            args.push("synthesize".to_owned());
            args.push("--text".to_owned());
            args.push("{text}".to_owned());
            args.push("--voice".to_owned());
            args.push("{ref_audio}".to_owned());
            args.push("--output".to_owned());
            args.push("{output}".to_owned());
        } else if same_text(engine_name, "qwen3-tts") {
            args.push("{model}".to_owned());
            args.push("{ref_audio}".to_owned());
            args.push("{text}".to_owned());
            args.push("chinese".to_owned());
            args.push("{output}".to_owned());
        } else {
            args.push("--text".to_owned());
            args.push("{text}".to_owned());
            args.push("--voice".to_owned());
            args.push("{ref_audio}".to_owned());
            args.push("--output".to_owned());
            args.push("{output}".to_owned());
        }
        proof {
            reveal_strlit("indextts");
            reveal_strlit("qwen3-tts");
            assert("indextts"@.len() == 8 && "qwen3-tts"@.len() == 9);
        }
        assert(text::texts(args@) =~= preset(engine_name@));
        args
    }

    /// The arguments of a synthesis: the templates with their placeholders filled in.
    pub fn replace_placeholders(
        &self,
        template: &Vec<String>,
        text: &str,
        ref_audio: &str,
        output: &str,
    ) -> (r: Vec<String>)
        ensures
            r@.len() == template@.len(),
            forall|i: int|
                0 <= i < r@.len() ==> #[trigger] r@[i]@ == filled(
                    template@[i]@,
                    text@,
                    ref_audio@,
                    output@,
                    text_or_empty(self.model_path),
                    text_or_empty(self.prompt_text),
                ),
    {
        let mut table: Vec<(&str, &str)> = Vec::new();
        table.push(("{text}", text));
        table.push(("{ref_audio}", ref_audio));
        table.push(("{output}", output));
        table.push(("{model}", str_or_empty(&self.model_path)));
        table.push(("{prompt_text}", str_or_empty(&self.prompt_text)));
        assert(text::table_view(table@) =~= placeholders(
            text@,
            ref_audio@,
            output@,
            text_or_empty(self.model_path),
            text_or_empty(self.prompt_text),
        ));
        let mut out: Vec<String> = Vec::new();
        let mut i: usize = 0;
        while i < template.len()
            invariant
                i <= template@.len(),
                out@.len() == i,
                text::table_view(table@) == placeholders(
                    text@,
                    ref_audio@,
                    output@,
                    text_or_empty(self.model_path),
                    text_or_empty(self.prompt_text),
                ),
                forall|j: int|
                    0 <= j < i ==> #[trigger] out@[j]@ == filled(
                        template@[j]@,
                        text@,
                        ref_audio@,
                        output@,
                        text_or_empty(self.model_path),
                        text_or_empty(self.prompt_text),
                    ),
            decreases template@.len() - i,
        {
            out.push(substitute(template[i].as_str(), &table));
            i += 1;
        }
        out
    }

    /// Starts a synthesis: the path of its result and the arguments of the command, or an error where
    /// the reference is not there.
    pub fn begin(
        &mut self,
        reference_audio: &str,
        reference_exists: bool,
        text: &str,
        config: &CloningConfig,
    ) -> (r: Result<(String, Vec<String>), AppError>)
        ensures
            *final(self) == (SubprocessCloneEngine {
                counter: if reference_exists {
                    following(old(self).counter)
                } else {
                    old(self).counter
                },
                ..*old(self)
            }),
            match r {
                Ok((path, args)) => {
                    &&& reference_exists
                    &&& path@ == output_file(
                        config.output_dir@,
                        "subprocess_cloned_"@,
                        old(self).counter,
                    )
                    &&& args@.len() == old(self).args_template@.len()
                    &&& forall|i: int|
                        0 <= i < args@.len() ==> #[trigger] args@[i]@ == filled(
                            old(self).args_template@[i]@,
                            text@,
                            reference_audio@,
                            path@,
                            text_or_empty(old(self).model_path),
                            text_or_empty(old(self).prompt_text),
                        )
                },
                Err(e) => {
                    &&& !reference_exists
                    &&& e matches AppError::FileNotFound(p) && p@ == reference_audio@
                },
            },
    {
        if !reference_exists {
            return Err(AppError::FileNotFound(reference_audio.to_owned()));
        }
        let index = self.counter;
        let path = output_path(config.output_dir.as_str(), "subprocess_cloned_", index);
        let args = self.replace_placeholders(
            &self.args_template,
            text,
            reference_audio,
            path.as_str(),
        );
        self.counter = successor(index);
        Ok((path, args))
    }

    /// Judges a command: it has to start, to report success, and to have written a file that can be
    /// a WAV file. `output_shown` is the quoted path of the file.
    pub fn judge(
        &self,
        outcome: &CommandOutcome,
        output: &OutputFile,
        output_shown: &str,
    ) -> (r: Result<(), AppError>)
        ensures
            match *outcome {
                CommandOutcome::NotStarted(e) => cloning_error(
                    r,
                    "Failed to execute clone command '"@ + self.command@ + "': "@ + e@
                        + "\n请确认 CLI 工具已安装且路径正确"@,
                ),
                CommandOutcome::Ended { success, code, stdout, stderr } => if !success {
                    cloning_error(
                        r,
                        "Clone command failed (exit code: "@ + text::signed_decimal(
                            exit_code(code),
                        ) + "):\nstdout: "@ + stdout@ + "\nstderr: "@ + stderr@,
                    )
                } else {
                    match *output {
                        OutputFile::Missing => cloning_error(
                            r,
                            "Clone command succeeded but output file not found: "@ + output_shown@
                                + "\nstderr: "@ + stderr@
                                + "\n提示: 检查 clone_args 中的 {output} 占位符是否正确配置"@,
                        ),
                        OutputFile::Unreadable(e) => cloning_error(
                            r,
                            "Failed to read output metadata: "@ + e@,
                        ),
                        OutputFile::Size(n) => if n < WAV_HEADER_LEN {
                            cloning_error(r, too_small(n))
                        } else {
                            r is Ok
                        },
                    }
                },
            },
            r is Ok <==> *outcome is Ended && outcome->success && *output is Size && output->Size_0
                >= 44,
    {
        match outcome {
            CommandOutcome::NotStarted(e) => Err(
                AppError::VoiceCloningError(
                    cat5(
                        "Failed to execute clone command '",
                        self.command.as_str(),
                        "': ",
                        e.as_str(),
                        "\n请确认 CLI 工具已安装且路径正确",
                    ),
                ),
            ),
            CommandOutcome::Ended { success, code, stdout, stderr } => {
                if !*success {
                    let number: i32 = match code {
                        Some(c) => *c,
                        None => -1,
                    };
                    let mut message = cat5(
                        "Clone command failed (exit code: ",
                        signed_text(number).as_str(),
                        "):\nstdout: ",
                        stdout.as_str(),
                        "\nstderr: ",
                    );
                    message.append(stderr.as_str());
                    return Err(AppError::VoiceCloningError(message));
                }
                match output {
                    OutputFile::Missing => Err(
                        AppError::VoiceCloningError(
                            cat5(
                                "Clone command succeeded but output file not found: ",
                                output_shown,
                                "\nstderr: ",
                                stderr.as_str(),
                                "\n提示: 检查 clone_args 中的 {output} 占位符是否正确配置",
                            ),
                        ),
                    ),
                    OutputFile::Unreadable(e) => Err(
                        AppError::VoiceCloningError(
                            append2("Failed to read output metadata: ", e.as_str()),
                        ),
                    ),
                    OutputFile::Size(n) => if *n < WAV_HEADER_LEN {
                        Err(AppError::VoiceCloningError(too_small_text(*n)))
                    } else {
                        Ok(())
                    },
                }
            },
        }
    }

    /// The name of the engine.
    pub fn name(&self) -> (r: &'static str)
        ensures
            r@ == "subprocess"@,
    {
        "subprocess"
    }

    /// Sets the text of the reference audio.
    pub fn set_prompt_text(&mut self, prompt_text: &str)
        ensures
            final(self).prompt_text matches Some(t) && t@ == prompt_text@,
            *final(self) == (SubprocessCloneEngine {
                prompt_text: final(self).prompt_text,
                ..*old(self)
            }),
    {
        self.prompt_text = Some(prompt_text.to_owned());
    }
}

/// The exit code, -1 where there is none.
pub open spec fn exit_code(code: Option<i32>) -> int {
    match code {
        Some(c) => c as int,
        None => -1,
    }
}

/// The text of an optional string.
pub open spec fn text_of(s: Option<String>) -> Option<Seq<char>> {
    json::text_of(s)
}

/// The argument is a flag that belongs to a single request, with the value after it.
pub open spec fn per_request(arg: Seq<char>) -> bool {
    arg == "--text"@ || arg == "-t"@ || arg == "--voice"@ || arg == "-v"@ || arg == "--output"@
        || arg == "-o"@
}

/// The argument holds a placeholder that belongs to a single request.
pub open spec fn has_placeholder(arg: Seq<char>) -> bool {
    text::holds_text(arg, "{text}"@) || text::holds_text(arg, "{ref_audio}"@) || text::holds_text(
        arg,
        "{output}"@,
    )
}

/// The arguments from index `from` on that belong to the server: those of single requests are left
/// out, `skip` says that the one at `from` is the value of such a flag, and a leading `synthesize`
/// becomes `server`.
pub open spec fn startup_args(args: Seq<Seq<char>>, from: int, skip: bool) -> Seq<Seq<char>>
    decreases args.len() - from,
{
    if from < 0 || from >= args.len() {
        Seq::empty()
    } else if skip {
        startup_args(args, from + 1, false)
    } else if per_request(args[from]) {
        startup_args(args, from + 1, true)
    } else if has_placeholder(args[from]) {
        startup_args(args, from + 1, false)
    } else if from == 0 && args[0] == "synthesize"@ {
        seq!["server"@] + startup_args(args, 1, false)
    } else {
        seq![args[from]] + startup_args(args, from + 1, false)
    }
}

/// The arguments that start the server: those of the Python engine as they are, those of the others
/// without what belongs to single requests and with `server` in front.
pub open spec fn server_args(args: Seq<Seq<char>>, engine: Seq<char>) -> Seq<Seq<char>> {
    if engine == "python-qwen-tts"@ {
        args
    } else {
        let kept = startup_args(args, 0, false);
        if kept.len() > 0 && kept[0] == "server"@ {
            kept
        } else {
            seq!["server"@] + kept
        }
    }
}

proof fn lemma_startup_args_clean(args: Seq<Seq<char>>, from: int, skip: bool)
    ensures
        forall|i: int|
            0 <= i < startup_args(args, from, skip).len() ==> !per_request(
                #[trigger] startup_args(args, from, skip)[i],
            ) && !has_placeholder(startup_args(args, from, skip)[i]),
    decreases args.len() - from,
{
    lemma_server_is_clean();
    if 0 <= from < args.len() {
        let all = startup_args(args, from, skip);
        let rest = startup_args(args, from + 1, false);
        lemma_startup_args_clean(args, from + 1, false);
        lemma_startup_args_clean(args, from + 1, true);
        let after_flag = startup_args(args, from + 1, true);
        assert forall|i: int| 0 <= i < all.len() implies !per_request(#[trigger] all[i])
            && !has_placeholder(all[i]) by {
            if skip {
                assert(all[i] == rest[i]);
            } else if per_request(args[from]) {
                assert(all[i] == after_flag[i]);
            } else if has_placeholder(args[from]) {
                assert(all[i] == rest[i]);
            } else if i > 0 {
                assert(all[i] == rest[i - 1]);
            }
        }
    }
}

proof fn lemma_server_is_clean()
    ensures
        !per_request("server"@),
        !has_placeholder("server"@),
        "server"@ != "synthesize"@,
{
    reveal_strlit("server");
    reveal_strlit("synthesize");
    reveal_strlit("--text");
    reveal_strlit("-t");
    reveal_strlit("--voice");
    reveal_strlit("-v");
    reveal_strlit("--output");
    reveal_strlit("-o");
    reveal_strlit("{text}");
    reveal_strlit("{ref_audio}");
    reveal_strlit("{output}");
    assert("server"@.len() == 6 && "-t"@.len() == 2 && "-v"@.len() == 2 && "-o"@.len() == 2);
    assert("--text"@.len() == 6 && "--text"@[0] == '-' && "server"@[0] == 's');
    assert("--voice"@.len() == 7 && "--output"@.len() == 8);
    assert forall|i: int| !text::occurs_at("server"@, "{text}"@, i) by {
        if text::occurs_at("server"@, "{text}"@, i) {
            assert("server"@.subrange(i, i + 6)[0] == "{text}"@[0]);
        }
    }
    assert("{ref_audio}"@.len() == 11 && "{output}"@.len() == 8);
}

proof fn lemma_startup_args_fixed(args: Seq<Seq<char>>, from: int)
    requires
        0 <= from <= args.len(),
        args.len() > 0 ==> args[0] != "synthesize"@,
        forall|i: int|
            0 <= i < args.len() ==> !per_request(#[trigger] args[i]) && !has_placeholder(args[i]),
    ensures
        startup_args(args, from, false) == args.skip(from),
    decreases args.len() - from,
{
    if from < args.len() {
        lemma_startup_args_fixed(args, from + 1);
        assert(seq![args[from]] + args.skip(from + 1) =~= args.skip(from));
    }
}

/// What starts the server is clear of what belongs to single requests: it begins with `server`, it
/// has none of the flags and none of the placeholders, and working it out again changes nothing.
pub proof fn law_server_args_settled(args: Seq<Seq<char>>, engine: Seq<char>)
    requires
        engine != "python-qwen-tts"@,
    ensures
        ({
            let r = server_args(args, engine);
            &&& r.len() > 0
            &&& r[0] == "server"@
            &&& forall|i: int|
                0 <= i < r.len() ==> !per_request(#[trigger] r[i]) && !has_placeholder(r[i])
            &&& server_args(r, engine) == r
        }),
{
    let kept = startup_args(args, 0, false);
    let r = server_args(args, engine);
    lemma_startup_args_clean(args, 0, false);
    lemma_server_is_clean();
    assert forall|i: int| 0 <= i < r.len() implies !per_request(#[trigger] r[i])
        && !has_placeholder(r[i]) by {
        if kept.len() > 0 && kept[0] == "server"@ {
            assert(r[i] == kept[i]);
        } else if i > 0 {
            assert(r[i] == kept[i - 1]);
        }
    }
    lemma_startup_args_fixed(r, 0);
    assert(r.skip(0) =~= r);
}

/// What is left of the arguments of a single synthesis: a flag for the text, the voice or the output goes
/// with the value after it, an argument with a placeholder goes, a leading `synthesize` becomes
/// `server`, and the others stay.
pub proof fn law_startup_args(args: Seq<Seq<char>>, from: int)
    requires
        0 <= from < args.len(),
    ensures
        ({
            let arg = args[from];
            let flag = arg == "--text"@ || arg == "-t"@ || arg == "--voice"@ || arg == "-v"@ || arg
                == "--output"@ || arg == "-o"@;
            let filled = text::holds_text(arg, "{text}"@) || text::holds_text(arg, "{ref_audio}"@)
                || text::holds_text(arg, "{output}"@);
            let kept = startup_args(args, from, false);
            &&& startup_args(args, args.len() as int, false) == Seq::<Seq<char>>::empty()
            &&& flag && from + 1 < args.len() ==> kept == startup_args(args, from + 2, false)
            &&& flag && from + 1 == args.len() ==> kept == Seq::<Seq<char>>::empty()
            &&& !flag && filled ==> kept == startup_args(args, from + 1, false)
            &&& !flag && !filled && from == 0 && arg == "synthesize"@ ==> kept == seq!["server"@]
                + startup_args(args, 1, false)
            &&& !flag && !filled && !(from == 0 && arg == "synthesize"@) ==> kept == seq![arg]
                + startup_args(args, from + 1, false)
        }),
{
    reveal_with_fuel(startup_args, 3);
}

/// What starts the server is what is left of the arguments, with `server` in front unless it stands there;
/// for the Python engine it is the arguments as they are.
pub proof fn law_server_args_begin(args: Seq<Seq<char>>, engine: Seq<char>)
    ensures
        engine == "python-qwen-tts"@ ==> server_args(args, engine) == args,
        engine != "python-qwen-tts"@ ==> {
            let kept = startup_args(args, 0, false);
            &&& server_args(args, engine) == kept || server_args(args, engine) == seq!["server"@]
                + kept
            &&& kept.len() > 0 && kept[0] == "server"@ ==> server_args(args, engine) == kept
            &&& kept.len() == 0 || kept[0] != "server"@ ==> server_args(args, engine) == seq![
                "server"@,
            ] + kept
        },
{
}

/// A request for one synthesis to the server.
#[derive(Debug, Clone)]
pub struct ServerRequest {
    /// What to say.
    pub text: String,
    /// The reference audio.
    pub voice: String,
    /// The path of the result.
    pub output: String,
    /// What is said in the reference audio.
    pub ref_text: Option<String>,
    /// The speaker whose voice the server has prepared.
    pub speaker_id: Option<String>,
}

/// A request to the server to prepare a voice.
#[derive(Debug, Clone)]
pub struct PrewarmRequest {
    /// The name of the action.
    pub action: String,
    /// The speaker.
    pub speaker_id: String,
    /// The reference audio.
    pub voice: String,
    /// What is said in it.
    pub ref_text: String,
}

/// A request for several syntheses to the server.
#[derive(Debug, Clone)]
pub struct BatchRequest {
    /// The name of the action.
    pub action: String,
    /// What to say, and the path of the result.
    pub items: Vec<(String, String)>,
    /// The reference audio.
    pub voice: String,
    /// What is said in it.
    pub ref_text: String,
    /// The speaker whose voice the server has prepared.
    pub speaker_id: Option<String>,
}

/// The member of a JSON object for a speaker, with the comma before it; nothing where there is none.
pub open spec fn speaker_member(speaker_id: Option<Seq<char>>) -> Seq<char> {
    match speaker_id {
        Some(id) => ",\"speaker_id\":"@ + json::quoted(id),
        None => ""@,
    }
}

/// An optional text in JSON.
pub open spec fn quoted_or_null(s: Option<Seq<char>>) -> Seq<char> {
    match s {
        Some(t) => json::quoted(t),
        None => "null"@,
    }
}

fn append_speaker(out: &mut String, speaker_id: &Option<String>)
    ensures
        final(out)@ == old(out)@ + speaker_member(text_of(*speaker_id)),
{
    match speaker_id {
        Some(id) => {
            out.append(",\"speaker_id\":");
            out.append(json::quote(id.as_str()).as_str());
            assert(out@ =~= old(out)@ + speaker_member(Some(id@)));
        },
        None => {
            out.append("");
        },
    }
}

impl ServerRequest {
    /// The request in JSON, as the server reads it.
    pub open spec fn written(self) -> Seq<char> {
        "{\"output\":"@ + json::quoted(self.output@) + ",\"ref_text\":"@ + quoted_or_null(
            text_of(self.ref_text),
        ) + speaker_member(text_of(self.speaker_id)) + ",\"text\":"@ + json::quoted(self.text@)
            + ",\"voice\":"@ + json::quoted(self.voice@) + "}"@
    }

    /// The request in JSON, as the server reads it.
    pub fn line(&self) -> (r: String)
        ensures
            r@ == self.written(),
            r@ == "{\"output\":"@ + json::quoted(self.output@) + ",\"ref_text\":"@ + (
            match self.ref_text {
                Some(t) => json::quoted(t@),
                None => "null"@,
            }) + (match self.speaker_id {
                Some(id) => ",\"speaker_id\":"@ + json::quoted(id@),
                None => ""@,
            }) + ",\"text\":"@ + json::quoted(self.text@) + ",\"voice\":"@ + json::quoted(self.voice@)
                + "}"@,
    {
        let mut out = append2("{\"output\":", json::quote(self.output.as_str()).as_str());
        out.append(",\"ref_text\":");
        match &self.ref_text {
            Some(t) => {
                out.append(json::quote(t.as_str()).as_str());
            },
            None => {
                out.append("null");
            },
        }
        append_speaker(&mut out, &self.speaker_id);
        out.append(",\"text\":");
        out.append(json::quote(self.text.as_str()).as_str());
        out.append(",\"voice\":");
        out.append(json::quote(self.voice.as_str()).as_str());
        out.append("}");
        out
    }
}

impl PrewarmRequest {
    /// The request in JSON, as the server reads it.
    pub open spec fn written(self) -> Seq<char> {
        "{\"action\":"@ + json::quoted(self.action@) + ",\"ref_text\":"@ + json::quoted(
            self.ref_text@,
        ) + ",\"speaker_id\":"@ + json::quoted(self.speaker_id@) + ",\"voice\":"@ + json::quoted(
            self.voice@,
        ) + "}"@
    }

    /// The request in JSON, as the server reads it.
    pub fn line(&self) -> (r: String)
        ensures
            r@ == self.written(),
            r@ == "{\"action\":"@ + json::quoted(self.action@) + ",\"ref_text\":"@ + json::quoted(
                self.ref_text@,
            ) + ",\"speaker_id\":"@ + json::quoted(self.speaker_id@) + ",\"voice\":"@
                + json::quoted(self.voice@) + "}"@,
    {
        let mut out = append2("{\"action\":", json::quote(self.action.as_str()).as_str());
        out.append(",\"ref_text\":");
        out.append(json::quote(self.ref_text.as_str()).as_str());
        out.append(",\"speaker_id\":");
        out.append(json::quote(self.speaker_id.as_str()).as_str());
        out.append(",\"voice\":");
        out.append(json::quote(self.voice.as_str()).as_str());
        out.append("}");
        out
    }
}

/// One synthesis of a batch in JSON.
pub open spec fn item_written(item: (String, String)) -> Seq<char> {
    "{\"output\":"@ + json::quoted(item.1@) + ",\"text\":"@ + json::quoted(item.0@) + "}"@
}

/// What the server is told of one synthesis of a batch, and what stands for a text that is not there.
pub proof fn law_item_written(item: (String, String), s: Option<String>)
    ensures
        item_written(item) == "{\"output\":"@ + json::quoted(item.1@) + ",\"text\":"@
            + json::quoted(item.0@) + "}"@,
        s is None ==> text_or_empty(s) == ""@ && text_of(s) is None,
        s matches Some(t) ==> text_or_empty(s) == t@ && text_of(s) == Some(t@),
{
}

impl BatchRequest {
    /// The request in JSON, as the server reads it.
    pub open spec fn written(self) -> Seq<char> {
        "{\"action\":"@ + json::quoted(self.action@) + ",\"items\":["@ + text::joined(
            Seq::new(self.items@.len(), |i: int| item_written(self.items@[i])),
            ","@,
        ) + "],\"ref_text\":"@ + json::quoted(self.ref_text@) + speaker_member(
            text_of(self.speaker_id),
        ) + ",\"voice\":"@ + json::quoted(self.voice@) + "}"@
    }

    /// The request in JSON, as the server reads it.
    pub fn line(&self) -> (r: String)
        ensures
            r@ == self.written(),
            r@ == "{\"action\":"@ + json::quoted(self.action@) + ",\"items\":["@ + text::joined(
                Seq::new(self.items@.len(), |i: int| item_written(self.items@[i])),
                ","@,
            ) + "],\"ref_text\":"@ + json::quoted(self.ref_text@) + (match self.speaker_id {
                Some(id) => ",\"speaker_id\":"@ + json::quoted(id@),
                None => ""@,
            }) + ",\"voice\":"@ + json::quoted(self.voice@) + "}"@,
    {
        let mut parts: Vec<String> = Vec::new();
        let mut i: usize = 0;
        while i < self.items.len()
            invariant
                i <= self.items@.len(),
                parts@.len() == i,
                forall|k: int|
                    0 <= k < i ==> (#[trigger] parts@[k])@ == item_written(self.items@[k]),
            decreases self.items@.len() - i,
        {
            parts.push(
                cat5(
                    "{\"output\":",
                    json::quote(self.items[i].1.as_str()).as_str(),
                    ",\"text\":",
                    json::quote(self.items[i].0.as_str()).as_str(),
                    "}",
                ),
            );
            i += 1;
        }
        assert(text::texts(parts@) =~= Seq::new(
            self.items@.len(),
            |i: int| item_written(self.items@[i]),
        ));
        let mut out = append2("{\"action\":", json::quote(self.action.as_str()).as_str());
        out.append(",\"items\":[");
        out.append(join(&parts, ",").as_str());
        out.append("],\"ref_text\":");
        out.append(json::quote(self.ref_text.as_str()).as_str());
        append_speaker(&mut out, &self.speaker_id);
        out.append(",\"voice\":");
        out.append(json::quote(self.voice.as_str()).as_str());
        out.append("}");
        out
    }
}

/// What became of starting the server.
#[derive(Debug, Clone)]
pub enum ServerStart {
    /// It could not be started; what went wrong.
    NotStarted(String),
    /// Its standard input is not there.
    NoStdin,
    /// Its standard output is not there.
    NoStdout,
    /// Its standard error is not there.
    NoStderr,
    /// It ended at once, with this status.
    Exited(String),
    /// Whether it runs could not be found out; what went wrong.
    Unknown(String),
    /// It runs.
    Running,
}

/// One result of a batch, as the server reports it.
#[derive(Debug, Clone)]
pub struct BatchItem {
    /// Which of the texts it is.
    pub index: Option<u64>,
    /// Whether it worked.
    pub status: Option<String>,
    /// The path of the result.
    pub output: Option<String>,
}

/// One result of a batch as a value.
#[verifier::ext_equal]
pub struct BatchItemView {
    /// Which of the texts it is.
    pub index: Option<u64>,
    /// Whether it worked.
    pub status: Option<Seq<char>>,
    /// The path of the result.
    pub output: Option<Seq<char>>,
}

impl View for BatchItem {
    type V = BatchItemView;

    open spec fn view(&self) -> BatchItemView {
        BatchItemView {
            index: self.index,
            status: text_of(self.status),
            output: text_of(self.output),
        }
    }
}

/// The text of which an item is the result; the first where it does not say.
pub open spec fn item_index(item: BatchItemView) -> int {
    match item.index {
        Some(i) => i as int,
        None => 0,
    }
}

/// The item names a result, and the file is there.
pub open spec fn usable(item: BatchItemView, exists: bool) -> bool {
    item.status == Some("ok"@) && (item.output matches Some(o) && o.len() > 0) && exists
}

/// The results of the first `k` items, by the texts that they belong to; of two results for one text
/// the later counts.
pub open spec fn placed(
    items: Seq<BatchItemView>,
    exists: Seq<bool>,
    n: nat,
    k: int,
) -> Seq<Option<Seq<char>>>
    decreases k,
{
    if k <= 0 {
        Seq::new(n, |i: int| None)
    } else if usable(items[k - 1], exists[k - 1]) {
        placed(items, exists, n, k - 1).update(item_index(items[k - 1]), items[k - 1].output)
    } else {
        placed(items, exists, n, k - 1)
    }
}

/// There is a place for each text, and a place holds a path exactly where some result for its text can
/// be used; the path is that of such a result.
pub proof fn law_results_in_place(
    items: Seq<BatchItemView>,
    exists: Seq<bool>,
    n: nat,
    k: int,
    place: int,
)
    requires
        0 <= k <= items.len() == exists.len(),
        forall|i: int|
            0 <= i < items.len() && usable(#[trigger] items[i], exists[i]) ==> item_index(items[i])
                < n,
        0 <= place < n,
    ensures
        placed(items, exists, n, k).len() == n,
        match placed(items, exists, n, k)[place] {
            Some(path) => exists|i: int|
                0 <= i < k && usable(#[trigger] items[i], exists[i]) && item_index(items[i])
                    == place && items[i].output == Some(path),
            None => forall|i: int|
                0 <= i < k && usable(#[trigger] items[i], exists[i]) ==> item_index(items[i])
                    != place,
        },
    decreases k,
{
    if k > 0 {
        law_results_in_place(items, exists, n, k - 1, place);
        let before = placed(items, exists, n, k - 1);
        if usable(items[k - 1], exists[k - 1]) && item_index(items[k - 1]) == place {
            assert(before.update(place, items[k - 1].output)[place] == items[k - 1].output);
        } else if before[place] is Some {
            let path = before[place]->0;
            let i = choose|i: int|
                0 <= i < k - 1 && usable(#[trigger] items[i], exists[i]) && item_index(items[i])
                    == place && items[i].output == Some(path);
            assert(0 <= i < k && usable(items[i], exists[i]));
        }
    }
}

/// Which results can be used: those whose status is `ok`, that name a file, and whose file is there. A
/// result that does not say belongs to the first text.
pub proof fn law_usable(item: BatchItemView, exists: bool)
    ensures
        usable(item, exists) <==> exists && item.status == Some("ok"@) && item.output is Some
            && item.output->0.len() > 0,
        item.index is None ==> item_index(item) == 0,
        item.index matches Some(i) ==> item_index(item) == i,
{
}

/// Of several results for one text that can be used, the last one counts.
pub proof fn law_last_result_counts(
    items: Seq<BatchItemView>,
    exists: Seq<bool>,
    n: nat,
    k: int,
    j: int,
)
    requires
        0 <= j < k <= items.len() == exists.len(),
        forall|i: int|
            0 <= i < items.len() && usable(#[trigger] items[i], exists[i]) ==> item_index(items[i])
                < n,
        usable(items[j], exists[j]),
        forall|i: int|
            j < i < k && usable(#[trigger] items[i], exists[i]) ==> item_index(items[i])
                != item_index(items[j]),
    ensures
        placed(items, exists, n, k)[item_index(items[j])] == items[j].output,
    decreases k,
{
    law_results_in_place(items, exists, n, k - 1, item_index(items[j]));
    if j < k - 1 {
        law_last_result_counts(items, exists, n, k - 1, j);
    }
}

/// The items of a list as values.
pub open spec fn item_views(items: Seq<BatchItem>) -> Seq<BatchItemView> {
    Seq::new(items.len(), |i: int| items[i]@)
}

/// The optional texts of a list.
pub open spec fn optional_texts(list: Seq<Option<String>>) -> Seq<Option<Seq<char>>> {
    Seq::new(list.len(), |i: int| text_of(list[i]))
}

/// Puts the results of a batch in the order of its `n` texts, with nothing where there is none.
/// `exists` says of each item whether its file is there.
pub fn place_results(items: &Vec<BatchItem>, exists: &Vec<bool>, n: usize) -> (r: Vec<
    Option<String>,
>)
    requires
        exists@.len() == items@.len(),
        forall|i: int|
            0 <= i < items@.len() && usable(#[trigger] items@[i]@, exists@[i]) ==> item_index(
                items@[i]@,
            ) < n,
    ensures
        optional_texts(r@) == placed(item_views(items@), exists@, n as nat, items@.len() as int),
{
    let mut paths: Vec<Option<String>> = Vec::new();
    let mut i: usize = 0;
    while i < n
        invariant
            i <= n,
            paths@.len() == i,
            forall|j: int| 0 <= j < i ==> paths@[j] is None,
        decreases n - i,
    {
        paths.push(None);
        i += 1;
    }
    assert(optional_texts(paths@) =~= placed(item_views(items@), exists@, n as nat, 0));
    let mut k: usize = 0;
    while k < items.len()
        invariant
            k <= items@.len(),
            exists@.len() == items@.len(),
            paths@.len() == n,
            forall|i: int|
                0 <= i < items@.len() && usable(#[trigger] items@[i]@, exists@[i]) ==> item_index(
                    items@[i]@,
                ) < n,
            optional_texts(paths@) == placed(item_views(items@), exists@, n as nat, k as int),
        decreases items@.len() - k,
    {
        let item = &items[k];
        assert(item_views(items@)[k as int] == item@);
        let ok = match &item.status {
            Some(s) => same_text(s.as_str(), "ok"),
            None => false,
        };
        let output = str_or_empty(&item.output);
        proof {
            reveal_strlit("");
        }
        if ok && !output.is_empty() && exists[k] {
            assert(usable(items@[k as int]@, exists@[k as int]));
            let index: usize = match item.index {
                Some(x) => x as usize,
                None => 0,
            };
            let ghost before = optional_texts(paths@);
            paths.set(index, Some(output.to_owned()));
            assert(optional_texts(paths@) =~= before.update(index as int, item@.output));
        }
        k += 1;
    }
    paths
}

/// The first error of a reply that should report success: `failed`, followed by the error that the
/// reply names, or `unknown`.
pub open spec fn failure(failed: Seq<char>, error: Option<Seq<char>>) -> Seq<char> {
    failed + match error {
        Some(e) => e,
        None => "unknown"@,
    }
}

fn failure_text(failed: &str, error: &Option<String>) -> (r: String)
    ensures
        r@ == failure(failed@, text_of(*error)),
{
    match error {
        Some(e) => append2(failed, e.as_str()),
        None => append2(failed, "unknown"),
    }
}

/// The members of a reply to a synthesis say that it worked, and where the result is.
pub open spec fn reply_verdict(
    r: Result<String, AppError>,
    status: Option<Seq<char>>,
    output: Option<Seq<char>>,
    error: Option<Seq<char>>,
    shown: Seq<char>,
    output_path: Seq<char>,
) -> bool {
    if status == Some("ok"@) {
        r matches Ok(path) && path@ == match output {
            Some(o) => o,
            None => output_path,
        }
    } else if status == Some("error"@) {
        cloning_error(
            r,
            "vt-tts server error: "@ + match error {
                Some(e) => e,
                None => "unknown error"@,
            },
        )
    } else {
        cloning_error(r, "Unexpected server response: "@ + shown)
    }
}

/// Judges the members of a reply to a synthesis: its status, the path of the result, the error, and
/// the reply as it is displayed. The result is the path of the file, `output_path` where the reply
/// names none.
pub fn judge_status(
    status: &Option<String>,
    output: &Option<String>,
    error: &Option<String>,
    shown: &str,
    output_path: &str,
) -> (r: Result<String, AppError>)
    ensures
        reply_verdict(
            r,
            text_of(*status),
            text_of(*output),
            text_of(*error),
            shown@,
            output_path@,
        ),
        r is Ok <==> *status is Some && status->0@ == "ok"@,
        r matches Ok(path) ==> (*output is Some ==> path@ == output->0@) && (*output is None ==> path@
            == output_path@),
        *status is Some && status->0@ == "error"@ ==> {
            &&& r is Err && r->Err_0 is VoiceCloningError
            &&& *error is Some ==> r->Err_0->VoiceCloningError_0@ == "vt-tts server error: "@
                + error->0@
            &&& *error is None ==> r->Err_0->VoiceCloningError_0@ == "vt-tts server error: "@
                + "unknown error"@
        },
        !(*status is Some && (status->0@ == "ok"@ || status->0@ == "error"@)) ==> {
            &&& r is Err && r->Err_0 is VoiceCloningError
            &&& r->Err_0->VoiceCloningError_0@ == "Unexpected server response: "@ + shown@
        },
{
    proof {
        reveal_strlit("ok");
        reveal_strlit("error");
        assert("ok"@.len() == 2 && "error"@.len() == 5);
    }
    let known = match status {
        Some(s) => s.as_str(),
        None => {
            return Err(
                AppError::VoiceCloningError(append2("Unexpected server response: ", shown)),
            );
        },
    };
    if same_text(known, "ok") {
        match output {
            Some(o) => Ok(o.clone()),
            None => Ok(output_path.to_owned()),
        }
    } else if same_text(known, "error") {
        match error {
            Some(e) => Err(
                AppError::VoiceCloningError(append2("vt-tts server error: ", e.as_str())),
            ),
            None => Err(
                AppError::VoiceCloningError(append2("vt-tts server error: ", "unknown error")),
            ),
        }
    } else {
        Err(AppError::VoiceCloningError(append2("Unexpected server response: ", shown)))
    }
}

/// A reply to anything but a synthesis is good where its status is `ok`.
pub fn judge_action(status: &Option<String>, error: &Option<String>, failed: &str) -> (r: Result<
    (),
    AppError,
>)
    ensures
        if text_of(*status) == Some("ok"@) {
            r is Ok
        } else {
            cloning_error(r, failure(failed@, text_of(*error)))
        },
        r is Ok <==> *status is Some && status->0@ == "ok"@,
        r is Err ==> {
            &&& r->Err_0 is VoiceCloningError
            &&& *error is Some ==> r->Err_0->VoiceCloningError_0@ == failed@ + error->0@
            &&& *error is None ==> r->Err_0->VoiceCloningError_0@ == failed@ + "unknown"@
        },
{
    let good = match status {
        Some(s) => same_text(s.as_str(), "ok"),
        None => false,
    };
    if good {
        Ok(())
    } else {
        Err(AppError::VoiceCloningError(failure_text(failed, error)))
    }
}

/// The error of a line that is not JSON.
pub open spec fn parse_failure(line: Seq<char>, e: Seq<char>) -> Seq<char> {
    "Failed to parse server response as JSON: "@ + e + "\nResponse: "@ + line
}

fn check_json(line: &str) -> (r: Result<(), AppError>)
    ensures
        match json::document_error(line@) {
            Some(e) => cloning_error(r, parse_failure(line@, e)),
            None => r is Ok,
        },
{
    match json::error_in(line) {
        Some(e) => Err(
            AppError::VoiceCloningError(
                cat4(
                    "Failed to parse server response as JSON: ",
                    e.as_str(),
                    "\nResponse: ",
                    line,
                ),
            ),
        ),
        None => Ok(()),
    }
}

/// Reads the server's reply to a synthesis: the path of the result, or what is wrong.
pub fn read_reply(line: &str, output_path: &str) -> (r: Result<String, AppError>)
    ensures
        match json::document_error(line@) {
            Some(e) => cloning_error(r, parse_failure(line@, e)),
            None => reply_verdict(
                r,
                json::string_at(line@, "/status"@),
                json::string_at(line@, "/output"@),
                json::string_at(line@, "/error"@),
                json::displayed(line@),
                output_path@,
            ),
        },
{
    match check_json(line) {
        Err(e) => Err(e),
        Ok(_) => judge_status(
            &json::string_in(line, "/status"),
            &json::string_in(line, "/output"),
            &json::string_in(line, "/error"),
            json::display(line).as_str(),
            output_path,
        ),
    }
}

/// Judges the file of a synthesis that the server reports as done. `output_shown` is its quoted
/// path.
pub fn judge_output(output: &OutputFile, output_shown: &str) -> (r: Result<(), AppError>)
    ensures
        match *output {
            OutputFile::Missing => cloning_error(
                r,
                "Server reported success but output file not found: "@ + output_shown@,
            ),
            OutputFile::Unreadable(e) => cloning_error(
                r,
                "Failed to read output metadata: "@ + e@,
            ),
            OutputFile::Size(n) => if n < WAV_HEADER_LEN {
                cloning_error(r, too_small(n))
            } else {
                r is Ok
            },
        },
        r is Ok <==> *output is Size && output->Size_0 >= 44,
{
    match output {
        OutputFile::Missing => Err(
            AppError::VoiceCloningError(
                append2("Server reported success but output file not found: ", output_shown),
            ),
        ),
        OutputFile::Unreadable(e) => Err(
            AppError::VoiceCloningError(append2("Failed to read output metadata: ", e.as_str())),
        ),
        OutputFile::Size(n) => if *n < WAV_HEADER_LEN {
            Err(AppError::VoiceCloningError(too_small_text(*n)))
        } else {
            Ok(())
        },
    }
}

/// Where the member `name` of the `i`-th result of a batch stands.
pub open spec fn result_pointer(i: nat, name: Seq<char>) -> Seq<char> {
    "/results/"@ + text::decimal(i) + name
}

/// The results of a batch in the server's reply `line`.
pub open spec fn reported_items(line: Seq<char>, n: nat) -> Seq<BatchItemView> {
    Seq::new(
        n,
        |i: int|
            BatchItemView {
                index: json::number_at(line, result_pointer(i as nat, "/index"@)),
                status: json::string_at(line, result_pointer(i as nat, "/status"@)),
                output: json::string_at(line, result_pointer(i as nat, "/output"@)),
            },
    )
}

/// Reads the server's reply to a batch.
pub fn read_batch_reply(line: &str) -> (r: Result<Vec<BatchItem>, AppError>)
    ensures
        match json::document_error(line@) {
            Some(e) => cloning_error(r, parse_failure(line@, e)),
            None => if json::string_at(line@, "/status"@) != Some("ok"@) {
                cloning_error(
                    r,
                    failure("batch_synthesize failed: "@, json::string_at(line@, "/error"@)),
                )
            } else {
                match json::array_len_at(line@, "/results"@) {
                    None => cloning_error(r, "batch_synthesize: missing results array"@),
                    Some(n) => r matches Ok(items) && item_views(items@) == reported_items(
                        line@,
                        n as nat,
                    ),
                }
            },
        },
        r matches Ok(items) ==> {
            &&& json::document_error(line@) is None
            &&& json::array_len_at(line@, "/results"@) == Some(items@.len() as usize)
            &&& forall|i: int|
                #![trigger items@[i]]
                0 <= i < items@.len() ==> {
                    let place = "/results/"@ + text::decimal(i as nat);
                    &&& items@[i].index == json::number_at(line@, place + "/index"@)
                    &&& json::text_of(items@[i].status) == json::string_at(
                        line@,
                        place + "/status"@,
                    )
                    &&& json::text_of(items@[i].output) == json::string_at(
                        line@,
                        place + "/output"@,
                    )
                }
        },
{
    match check_json(line) {
        Err(e) => {
            return Err(e);
        },
        Ok(_) => {},
    }
    let status = json::string_in(line, "/status");
    let error = json::string_in(line, "/error");
    match judge_action(&status, &error, "batch_synthesize failed: ") {
        Err(e) => {
            return Err(e);
        },
        Ok(_) => {},
    }
    let n: usize = match json::array_len_in(line, "/results") {
        Some(n) => n,
        None => {
            return Err(
                AppError::VoiceCloningError("batch_synthesize: missing results array".to_owned()),
            );
        },
    };
    let mut items: Vec<BatchItem> = Vec::new();
    let mut i: usize = 0;
    while i < n
        invariant
            i <= n,
            items@.len() == i,
            forall|j: int|
                0 <= j < i ==> #[trigger] items@[j]@ == reported_items(line@, n as nat)[j],
        decreases n - i,
    {
        let number = count_text(i);
        let item = BatchItem {
            index: json::number_in(line, cat3("/results/", number.as_str(), "/index").as_str()),
            status: json::string_in(line, cat3("/results/", number.as_str(), "/status").as_str()),
            output: json::string_in(line, cat3("/results/", number.as_str(), "/output").as_str()),
        };
        items.push(item);
        i += 1;
    }
    assert(item_views(items@) =~= reported_items(line@, n as nat));
    assert forall|j: int|
        #![trigger items@[j]]
        0 <= j < items@.len() implies {
        let place = "/results/"@ + text::decimal(j as nat);
        &&& items@[j].index == json::number_at(line@, place + "/index"@)
        &&& json::text_of(items@[j].status) == json::string_at(line@, place + "/status"@)
        &&& json::text_of(items@[j].output) == json::string_at(line@, place + "/output"@)
    } by {
        assert(items@[j]@ == reported_items(line@, n as nat)[j]);
    }
    Ok(items)
}

/// The number after `n`, `k` times.
pub open spec fn advanced(n: usize, k: nat) -> usize
    decreases k,
{
    if k == 0 {
        n
    } else {
        following(advanced(n, (k - 1) as nat))
    }
}

/// Counting goes on by one for each text, as long as the numbers do not start again.
pub proof fn law_advanced(n: usize, k: nat)
    requires
        n + k <= usize::MAX,
    ensures
        advanced(n, k) == n + k,
    decreases k,
{
    if k > 0 {
        law_advanced(n, (k - 1) as nat);
    }
}

/// An engine that keeps a server process for all its syntheses.
#[derive(Debug)]
pub struct PersistentSubprocessCloneEngine {
    /// The command.
    pub command: String,
    /// The arguments that start the server.
    pub server_args: Vec<String>,
    /// How long a synthesis may take, in seconds.
    pub timeout_secs: u64,
    /// The number of the next file.
    pub counter: usize,
    /// The text of the reference audio.
    pub prompt_text: Option<String>,
    /// Whether the server runs.
    pub running: bool,
    /// The speaker whose voice the server has prepared.
    pub current_speaker: Option<String>,
    /// The reference audio of that speaker.
    pub current_ref_audio: Option<String>,
}

impl PersistentSubprocessCloneEngine {
    /// An engine whose server has not been started.
    pub fn new(command: String, server_args: Vec<String>, timeout_secs: u64) -> (r: Self)
        ensures
            r.command == command,
            r.server_args == server_args,
            r.timeout_secs == timeout_secs,
            r.counter == 0,
            r.prompt_text is None,
            !r.running,
            r.current_speaker is None,
            r.current_ref_audio is None,
    {
        PersistentSubprocessCloneEngine {
            command,
            server_args,
            timeout_secs,
            counter: 0,
            prompt_text: None,
            running: false,
            current_speaker: None,
            current_ref_audio: None,
        }
    }

    /// The engine that `config` names.
    pub fn from_config(config: &config::CloningConfig) -> (r: Result<Self, AppError>)
        ensures
            match config.clone_command {
                None => cloning_error(
                    r,
                    "PersistentSubprocessCloneEngine: clone_command 未配置\n请在 config.toml [cloning] 段设置 clone_command 为 vt-tts 路径"@,
                ),
                Some(command) => {
                    &&& r is Ok
                    &&& r->Ok_0.command@ == command@
                    &&& text::texts(r->Ok_0.server_args@) == server_args(
                        text::texts(config.clone_args@),
                        config.engine@,
                    )
                    &&& r->Ok_0.timeout_secs == config.clone_timeout_secs
                    &&& r->Ok_0.counter == 0
                    &&& r->Ok_0.prompt_text is None
                    &&& !r->Ok_0.running
                    &&& r->Ok_0.current_speaker is None
                    &&& r->Ok_0.current_ref_audio is None
                },
            },
    {
        match &config.clone_command {
            None => Err(
                AppError::VoiceCloningError(
                    "PersistentSubprocessCloneEngine: clone_command 未配置\n请在 config.toml [cloning] 段设置 clone_command 为 vt-tts 路径".to_owned(),
                ),
            ),
            Some(command) => {
                let args = PersistentSubprocessCloneEngine::extract_server_args(
                    &config.clone_args,
                    config.engine.as_str(),
                );
                Ok(
                    PersistentSubprocessCloneEngine::new(
                        command.clone(),
                        args,
                        config.clone_timeout_secs,
                    ),
                )
            },
        }
    }

    /// The arguments that start the server, worked out from those of a single synthesis.
    pub fn extract_server_args(clone_args: &Vec<String>, engine: &str) -> (r: Vec<String>)
        ensures
            text::texts(r@) == server_args(text::texts(clone_args@), engine@),
    {
        if same_text(engine, "python-qwen-tts") {
            return copied(clone_args);
        }
        let ghost all = text::texts(clone_args@);
        let mut kept: Vec<String> = Vec::new();
        let mut skip_next = false;
        let mut i: usize = 0;
        assert(text::texts(kept@) + startup_args(all, 0, false) =~= startup_args(all, 0, false));
        while i < clone_args.len()
            invariant
                i <= clone_args@.len(),
                all == text::texts(clone_args@),
                text::texts(kept@) + startup_args(all, i as int, skip_next) == startup_args(
                    all,
                    0,
                    false,
                ),
            decreases clone_args@.len() - i,
        {
            let arg = clone_args[i].as_str();
            assert(arg@ == all[i as int]);
            let ghost before = text::texts(kept@);
            let ghost old_skip = skip_next;
            if skip_next {
                skip_next = false;
            } else if same_text(arg, "--text") || same_text(arg, "-t") || same_text(arg, "--voice")
                || same_text(arg, "-v") || same_text(arg, "--output") || same_text(arg, "-o") {
                skip_next = true;
            } else if contains(arg, "{text}") || contains(arg, "{ref_audio}") || contains(
                arg,
                "{output}",
            ) {
            } else if i == 0 && same_text(arg, "synthesize") {
                kept.push("server".to_owned());
                assert(text::texts(kept@) =~= before + seq!["server"@]);
            } else {
                kept.push(arg.to_owned());
                assert(text::texts(kept@) =~= before + seq![arg@]);
            }
            i += 1;
            assert(text::texts(kept@) + startup_args(all, i as int, skip_next) =~= before
                + startup_args(all, i - 1, old_skip));
        }
        assert(text::texts(kept@) =~= startup_args(all, 0, false));
        let leads = !kept.is_empty() && same_text(kept[0].as_str(), "server");
        if leads {
            return kept;
        }
        let ghost before = text::texts(kept@);
        kept.insert(0, "server".to_owned());
        assert(text::texts(kept@) =~= seq!["server"@] + before);
        kept
    }

    /// The speaker whose voice the server has prepared.
    pub fn current_speaker_id(&self) -> (r: Option<String>)
        ensures
            text_of(r) == text_of(self.current_speaker),
    {
        self.current_speaker.clone()
    }

    /// Records what became of starting the server.
    pub fn server_started(&mut self, outcome: &ServerStart) -> (r: Result<(), AppError>)
        ensures
            *final(self) == (PersistentSubprocessCloneEngine {
                running: old(self).running || *outcome is Running,
                ..*old(self)
            }),
            match *outcome {
                ServerStart::NotStarted(e) => cloning_error(
                    r,
                    "Failed to start vt-tts server '"@ + old(self).command@ + "': "@ + e@
                        + "\n请确认 CLI 工具已安装且路径正确"@,
                ),
                ServerStart::NoStdin => cloning_error(r, "Failed to capture server stdin"@),
                ServerStart::NoStdout => cloning_error(r, "Failed to capture server stdout"@),
                ServerStart::NoStderr => cloning_error(r, "Failed to capture server stderr"@),
                ServerStart::Exited(status) => cloning_error(
                    r,
                    "vt-tts server exited immediately with status: "@ + status@
                        + "\n请检查模型路径和参数是否正确"@,
                ),
                ServerStart::Unknown(e) => cloning_error(
                    r,
                    "Failed to check server status: "@ + e@,
                ),
                ServerStart::Running => r is Ok,
            },
    {
        let message = match outcome {
            ServerStart::Running => {
                self.running = true;
                return Ok(());
            },
            ServerStart::NotStarted(e) => cat5(
                "Failed to start vt-tts server '",
                self.command.as_str(),
                "': ",
                e.as_str(),
                "\n请确认 CLI 工具已安装且路径正确",
            ),
            ServerStart::NoStdin => "Failed to capture server stdin".to_owned(),
            ServerStart::NoStdout => "Failed to capture server stdout".to_owned(),
            ServerStart::NoStderr => "Failed to capture server stderr".to_owned(),
            ServerStart::Exited(status) => cat3(
                "vt-tts server exited immediately with status: ",
                status.as_str(),
                "\n请检查模型路径和参数是否正确",
            ),
            ServerStart::Unknown(e) => append2("Failed to check server status: ", e.as_str()),
        };
        Err(AppError::VoiceCloningError(message))
    }

    /// Judges the line that was read from the server. An empty line is no reply; where the server has
    /// ended, with the status `exited`, it is started again for the next request.
    pub fn line_read(&mut self, line: &str, exited: &Option<String>) -> (r: Result<(), AppError>)
        ensures
            *final(self) == (PersistentSubprocessCloneEngine {
                running: old(self).running && (line@.len() > 0 || *exited is None),
                ..*old(self)
            }),
            if line@.len() > 0 {
                r is Ok
            } else {
                match *exited {
                    Some(status) => cloning_error(
                        r,
                        "vt-tts server exited unexpectedly (status: "@ + status@
                            + "). Server will be restarted on next request."@,
                    ),
                    None => cloning_error(
                        r,
                        "Server returned empty response (no stdout output)"@,
                    ),
                }
            },
    {
        if !line.is_empty() {
            return Ok(());
        }
        match exited {
            Some(status) => {
                self.running = false;
                Err(
                    AppError::VoiceCloningError(
                        cat3(
                            "vt-tts server exited unexpectedly (status: ",
                            status.as_str(),
                            "). Server will be restarted on next request.",
                        ),
                    ),
                )
            },
            None => Err(
                AppError::VoiceCloningError(
                    "Server returned empty response (no stdout output)".to_owned(),
                ),
            ),
        }
    }

    /// Starts a synthesis: the request, or an error where the reference is not there.
    pub fn begin(
        &mut self,
        reference_audio: &str,
        reference_exists: bool,
        text: &str,
        config: &CloningConfig,
    ) -> (r: Result<ServerRequest, AppError>)
        ensures
            *final(self) == (PersistentSubprocessCloneEngine {
                counter: if reference_exists {
                    following(old(self).counter)
                } else {
                    old(self).counter
                },
                ..*old(self)
            }),
            match r {
                Ok(request) => {
                    &&& reference_exists
                    &&& request.text@ == text@
                    &&& request.voice@ == reference_audio@
                    &&& request.output@ == output_file(
                        config.output_dir@,
                        "persistent_cloned_"@,
                        old(self).counter,
                    )
                    &&& text_of(request.ref_text) == text_of(old(self).prompt_text)
                    &&& text_of(request.speaker_id) == text_of(old(self).current_speaker)
                },
                Err(e) => {
                    &&& !reference_exists
                    &&& e matches AppError::FileNotFound(p) && p@ == reference_audio@
                },
            },
    {
        if !reference_exists {
            return Err(AppError::FileNotFound(reference_audio.to_owned()));
        }
        let index = self.counter;
        self.counter = successor(index);
        Ok(
            ServerRequest {
                text: text.to_owned(),
                voice: reference_audio.to_owned(),
                output: output_path(config.output_dir.as_str(), "persistent_cloned_", index),
                ref_text: self.prompt_text.clone(),
                speaker_id: self.current_speaker.clone(),
            },
        )
    }

    /// Starts to prepare a voice: the request, or an error where the reference is not there.
    pub fn begin_prewarm(
        &self,
        speaker_id: &str,
        reference_audio: &str,
        reference_exists: bool,
        ref_text: Option<&str>,
    ) -> (r: Result<PrewarmRequest, AppError>)
        ensures
            match r {
                Ok(request) => {
                    &&& reference_exists
                    &&& request.action@ == "prewarm_speaker"@
                    &&& request.speaker_id@ == speaker_id@
                    &&& request.voice@ == reference_audio@
                    &&& request.ref_text@ == match ref_text {
                        Some(t) => t@,
                        None => ""@,
                    }
                },
                Err(e) => {
                    &&& !reference_exists
                    &&& e matches AppError::FileNotFound(p) && p@ == reference_audio@
                },
            },
    {
        if !reference_exists {
            return Err(AppError::FileNotFound(reference_audio.to_owned()));
        }
        let spoken = match ref_text {
            Some(t) => t,
            None => "",
        };
        Ok(
            PrewarmRequest {
                action: "prewarm_speaker".to_owned(),
                speaker_id: speaker_id.to_owned(),
                voice: reference_audio.to_owned(),
                ref_text: spoken.to_owned(),
            },
        )
    }

    /// Reads the server's reply to a prepared voice, and remembers the speaker where it worked.
    pub fn finish_prewarm(
        &mut self,
        line: &str,
        speaker_id: &str,
        reference_audio: &str,
    ) -> (r: Result<(), AppError>)
        ensures
            match json::document_error(line@) {
                Some(e) => cloning_error(r, parse_failure(line@, e)),
                None => if json::string_at(line@, "/status"@) == Some("ok"@) {
                    r is Ok
                } else {
                    cloning_error(
                        r,
                        failure("prewarm_speaker failed: "@, json::string_at(line@, "/error"@)),
                    )
                },
            },
            r is Err ==> *final(self) == *old(self),
            r is Ok ==> text_of(final(self).current_speaker) == Some(speaker_id@) && text_of(
                final(self).current_ref_audio,
            ) == Some(reference_audio@) && *final(self) == (PersistentSubprocessCloneEngine {
                current_speaker: final(self).current_speaker,
                current_ref_audio: final(self).current_ref_audio,
                ..*old(self)
            }),
    {
        match check_json(line) {
            Err(e) => {
                return Err(e);
            },
            Ok(_) => {},
        }
        let status = json::string_in(line, "/status");
        let error = json::string_in(line, "/error");
        match judge_action(&status, &error, "prewarm_speaker failed: ") {
            Err(e) => Err(e),
            Ok(_) => {
                self.current_speaker = Some(speaker_id.to_owned());
                self.current_ref_audio = Some(reference_audio.to_owned());
                Ok(())
            },
        }
    }

    /// Starts several syntheses: the request, with a file of its own for each text. Without texts
    /// there is nothing to ask for.
    pub fn begin_batch(
        &mut self,
        reference_audio: &str,
        texts: &Vec<String>,
        config: &CloningConfig,
    ) -> (r: Option<BatchRequest>)
        ensures
            *final(self) == (PersistentSubprocessCloneEngine {
                counter: advanced(old(self).counter, texts@.len()),
                ..*old(self)
            }),
            r is None <==> texts@.len() == 0,
            r is None ==> *final(self) == *old(self),
            match r {
                Some(request) => {
                    &&& request.action@ == "batch_synthesize"@
                    &&& request.items@.len() == texts@.len()
                    &&& forall|i: int|
                        0 <= i < texts@.len() ==> (#[trigger] request.items@[i]).0@ == texts@[i]@
                            && request.items@[i].1@ == output_file(
                            config.output_dir@,
                            "batch_cloned_"@,
                            advanced(old(self).counter, i as nat),
                        )
                    &&& request.voice@ == reference_audio@
                    &&& request.ref_text@ == text_or_empty(old(self).prompt_text)
                    &&& text_of(request.speaker_id) == text_of(old(self).current_speaker)
                },
                None => true,
            },
    {
        if texts.is_empty() {
            return None;
        }
        let mut items: Vec<(String, String)> = Vec::new();
        let mut i: usize = 0;
        while i < texts.len()
            invariant
                i <= texts@.len(),
                *self == (PersistentSubprocessCloneEngine {
                    counter: advanced(old(self).counter, i as nat),
                    ..*old(self)
                }),
                items@.len() == i,
                forall|j: int|
                    0 <= j < i ==> (#[trigger] items@[j]).0@ == texts@[j]@ && items@[j].1@
                        == output_file(
                        config.output_dir@,
                        "batch_cloned_"@,
                        advanced(old(self).counter, j as nat),
                    ),
            decreases texts@.len() - i,
        {
            let index = self.counter;
            let path = output_path(config.output_dir.as_str(), "batch_cloned_", index);
            self.counter = successor(index);
            items.push((texts[i].clone(), path));
            i += 1;
        }
        Some(
            BatchRequest {
                action: "batch_synthesize".to_owned(),
                items,
                voice: reference_audio.to_owned(),
                ref_text: str_or_empty(&self.prompt_text).to_owned(),
                speaker_id: self.current_speaker.clone(),
            },
        )
    }

    /// The name of the engine.
    pub fn name(&self) -> (r: &'static str)
        ensures
            r@ == "subprocess-persistent"@,
    {
        "subprocess-persistent"
    }

    /// Sets the text of the reference audio.
    pub fn set_prompt_text(&mut self, prompt_text: &str)
        ensures
            final(self).prompt_text matches Some(t) && t@ == prompt_text@,
            *final(self) == (PersistentSubprocessCloneEngine {
                prompt_text: final(self).prompt_text,
                ..*old(self)
            }),
    {
        self.prompt_text = Some(prompt_text.to_owned());
    }
}

/// A segment of speech that could serve as reference audio.
#[derive(Debug, Clone)]
pub struct ReferenceCandidate {
    /// Its length in seconds.
    pub duration: F64,
    /// How far its length is from the best one, in hundredths of a second.
    pub closeness: u64,
    /// What is said in it.
    pub source_text: String,
}

/// The shortest reference, 3 seconds, by its bit pattern.
pub const REF_MIN_DURATION_SECS: u64 = 0x4008_0000_0000_0000;

/// The longest reference, 10 seconds, by its bit pattern.
pub const REF_MAX_DURATION_SECS: u64 = 0x4024_0000_0000_0000;

/// The shortest reference where there is no better one, 2 seconds, by its bit pattern.
pub const REF_MIN_FALLBACK_SECS: u64 = 0x4000_0000_0000_0000;

/// The longest reference where there is no better one, 15 seconds, by its bit pattern.
pub const REF_MAX_FALLBACK_SECS: u64 = 0x402e_0000_0000_0000;

/// The candidate is not shorter than `min`, not longer than `max`, and has text.
pub open spec fn suitable(c: ReferenceCandidate, min: u64, max: u64) -> bool {
    &&& F64 { bits: min }.at_most(c.duration)
    &&& c.duration.at_most(F64 { bits: max })
    &&& text::trimmed(c.source_text@).len() > 0
}

/// No candidate is suitable.
pub open spec fn none_suitable(list: Seq<ReferenceCandidate>, min: u64, max: u64) -> bool {
    forall|i: int| 0 <= i < list.len() ==> !suitable(#[trigger] list[i], min, max)
}

/// Of the suitable candidates, `i` is the first of those closest to the best length.
pub open spec fn closest(list: Seq<ReferenceCandidate>, min: u64, max: u64, i: int) -> bool {
    &&& 0 <= i < list.len()
    &&& suitable(list[i], min, max)
    &&& forall|j: int|
        0 <= j < list.len() && suitable(#[trigger] list[j], min, max) ==> list[i].closeness
            <= list[j].closeness && (j < i ==> list[i].closeness < list[j].closeness)
}

/// What suits: a candidate with text whose length lies between the bounds.
pub proof fn law_suitable(c: ReferenceCandidate, min: u64, max: u64)
    ensures
        suitable(c, min, max) <==> (F64 { bits: min }).at_most(c.duration) && c.duration.at_most(
            (F64 { bits: max }),
        ) && text::trimmed(c.source_text@).len() > 0,
{
}

fn is_suitable(c: &ReferenceCandidate, min: u64, max: u64) -> (r: bool)
    ensures
        r == suitable(*c, min, max),
{
    F64::from_bits(min).le(c.duration) && c.duration.le(F64::from_bits(max)) && !is_blank(
        c.source_text.as_str(),
    )
}

fn find_closest(list: &Vec<ReferenceCandidate>, min: u64, max: u64) -> (r: Option<usize>)
    ensures
        match r {
            Some(i) => closest(list@, min, max, i as int),
            None => none_suitable(list@, min, max),
        },
{
    let mut best: Option<usize> = None;
    let mut i: usize = 0;
    while i < list.len()
        invariant
            i <= list@.len(),
            match best {
                Some(b) => closest(list@.take(i as int), min, max, b as int),
                None => none_suitable(list@.take(i as int), min, max),
            },
        decreases list@.len() - i,
    {
        let ghost before = list@.take(i as int);
        let ghost after = list@.take(i + 1);
        assert(forall|j: int| 0 <= j < i ==> #[trigger] after[j] == before[j]);
        assert(after[i as int] == list@[i as int]);
        if is_suitable(&list[i], min, max) {
            match best {
                Some(b) => {
                    assert(after[b as int] == before[b as int]);
                    if list[i].closeness < list[b].closeness {
                        best = Some(i);
                    }
                },
                None => {
                    best = Some(i);
                },
            }
        } else {
            proof {
                if let Some(b) = best {
                    assert(after[b as int] == before[b as int]);
                }
            }
        }
        i += 1;
    }
    assert(list@.take(list@.len() as int) == list@);
    best
}

/// Chooses the reference audio: of the segments of 3 to 10 seconds that have text, or else of those
/// of 2 to 15 seconds, the first of those closest to the best length.
pub fn choose_reference(list: &Vec<ReferenceCandidate>) -> (r: Option<usize>)
    ensures
        match r {
            Some(i) => {
                ||| closest(
                    list@,
                    REF_MIN_DURATION_SECS,
                    REF_MAX_DURATION_SECS,
                    i as int,
                )
                ||| none_suitable(list@, REF_MIN_DURATION_SECS, REF_MAX_DURATION_SECS) && closest(
                    list@,
                    REF_MIN_FALLBACK_SECS,
                    REF_MAX_FALLBACK_SECS,
                    i as int,
                )
            },
            None => none_suitable(list@, REF_MIN_FALLBACK_SECS, REF_MAX_FALLBACK_SECS),
        },
        r is Some <==> exists|k: int|
            0 <= k < list@.len() && suitable(
                #[trigger] list@[k],
                0x4000_0000_0000_0000,
                0x402e_0000_0000_0000,
            ),
        forall|k: int|
            0 <= k < list@.len() && suitable(
                #[trigger] list@[k],
                0x4008_0000_0000_0000,
                0x4024_0000_0000_0000,
            ) ==> r is Some && suitable(
                list@[r->0 as int],
                0x4008_0000_0000_0000,
                0x4024_0000_0000_0000,
            ) && list@[r->0 as int].closeness <= list@[k].closeness && (k < r->0
                ==> list@[r->0 as int].closeness < list@[k].closeness),
        r is Some ==> suitable(
            list@[r->0 as int],
            0x4000_0000_0000_0000,
            0x402e_0000_0000_0000,
        ),
        r is Some && !suitable(
            list@[r->0 as int],
            0x4008_0000_0000_0000,
            0x4024_0000_0000_0000,
        ) ==> forall|k: int|
            0 <= k < list@.len() && suitable(
                #[trigger] list@[k],
                0x4000_0000_0000_0000,
                0x402e_0000_0000_0000,
            ) ==> list@[r->0 as int].closeness <= list@[k].closeness && (k < r->0
                ==> list@[r->0 as int].closeness < list@[k].closeness),
{
    match find_closest(list, REF_MIN_DURATION_SECS, REF_MAX_DURATION_SECS) {
        Some(i) => Some(i),
        None => find_closest(list, REF_MIN_FALLBACK_SECS, REF_MAX_FALLBACK_SECS),
    }
}

/// A candidate that suits the narrow range suits the wide one.
pub proof fn law_fallback_is_wider(c: ReferenceCandidate)
    requires
        suitable(c, REF_MIN_DURATION_SECS, REF_MAX_DURATION_SECS),
    ensures
        suitable(c, REF_MIN_FALLBACK_SECS, REF_MAX_FALLBACK_SECS),
{
}

/// The text to speak for a segment, or an error where it has not been translated.
pub fn segment_text<'a>(id: &str, target_text: &'a Option<String>) -> (r: Result<
    &'a String,
    AppError,
>)
    ensures
        match *target_text {
            Some(t) => r matches Ok(s) && s@ == t@,
            None => r matches Err(AppError::Config(m)) && m@ == "Segment "@ + id@
                + " has no target_text"@,
        },
{
    match target_text {
        Some(t) => Ok(t),
        None => Err(AppError::Config(cat3("Segment ", id, " has no target_text"))),
    }
}

/// The file of a synthesis, nothing where it failed: the caller then falls back to another engine.
pub fn fall_back(result: Result<String, AppError>) -> (r: Option<String>)
    ensures
        r == match result {
            Ok(path) => Some(path),
            Err(_) => None,
        },
{
    match result {
        Ok(path) => Some(path),
        Err(_) => None,
    }
}

/// Whether a text is spoken sentence by sentence: where it is long enough and has several.
pub fn by_sentence(long_enough: bool, sentences: usize) -> (r: bool)
    ensures
        r == (long_enough && sentences > 1),
{
    long_enough && sentences > 1
}

/// What to do with the sentences of a text that were spoken.
#[derive(Debug, Clone)]
pub enum SentenceOutcome {
    /// The only file is the result.
    Single(String),
    /// The files have to be put together.
    Concatenate(Vec<String>),
}

/// The files of the sentences that worked, in order.
pub open spec fn spoken(results: Seq<Result<String, AppError>>) -> Seq<Seq<char>>
    decreases results.len(),
{
    if results.len() == 0 {
        Seq::empty()
    } else {
        match results.last() {
            Ok(path) => spoken(results.drop_last()).push(path@),
            Err(_) => spoken(results.drop_last()),
        }
    }
}

/// What was spoken are the files of the sentences that worked, in order.
pub proof fn law_spoken(results: Seq<Result<String, AppError>>)
    ensures
        spoken(results) == results.filter(|r: Result<String, AppError>| r is Ok).map_values(
            |r: Result<String, AppError>| r->Ok_0@,
        ),
    decreases results.len(),
{
    reveal(Seq::filter);
    let kept = results.filter(|r: Result<String, AppError>| r is Ok);
    if results.len() > 0 {
        law_spoken(results.drop_last());
        let before = results.drop_last().filter(|r: Result<String, AppError>| r is Ok);
        assert(before.push(results.last()).map_values(|r: Result<String, AppError>| r->Ok_0@)
            =~= before.map_values(|r: Result<String, AppError>| r->Ok_0@).push(
            results.last()->Ok_0@,
        ));
    } else {
        assert(kept.map_values(|r: Result<String, AppError>| r->Ok_0@) =~= Seq::empty());
    }
}

/// Gathers what became of the sentences of a text. Sentences that failed are left out.
pub fn gather_sentences(results: &Vec<Result<String, AppError>>) -> (r: Result<
    SentenceOutcome,
    AppError,
>)
    ensures
        match r {
            Ok(SentenceOutcome::Single(path)) => spoken(results@) == seq![path@],
            Ok(SentenceOutcome::Concatenate(paths)) => paths@.len() > 1 && text::texts(paths@)
                == spoken(results@),
            Err(e) => spoken(results@).len() == 0 && cloning_error(
                r,
                "All sentence synthesis failed"@,
            ),
        },
{
    let mut paths: Vec<String> = Vec::new();
    assert(text::texts(paths@) =~= Seq::empty());
    let mut i: usize = 0;
    while i < results.len()
        invariant
            i <= results@.len(),
            text::texts(paths@) == spoken(results@.take(i as int)),
        decreases results@.len() - i,
    {
        let ghost before = text::texts(paths@);
        assert(results@.take(i + 1).drop_last() == results@.take(i as int));
        match &results[i] {
            Ok(path) => {
                paths.push(path.clone());
                assert(text::texts(paths@) =~= before.push(path@));
            },
            Err(_) => {},
        }
        i += 1;
    }
    assert(results@.take(results@.len() as int) == results@);
    if paths.is_empty() {
        return Err(AppError::VoiceCloningError("All sentence synthesis failed".to_owned()));
    }
    if paths.len() == 1 {
        assert(text::texts(paths@) =~= seq![paths@[0]@]);
        return Ok(SentenceOutcome::Single(paths[0].clone()));
    }
    Ok(SentenceOutcome::Concatenate(paths))
}

/// The file into which sentences are put together, named after the time.
pub fn concatenation_path(output_dir: &str, millis: u64) -> (r: String)
    ensures
        r@ == text::path_joined(
            output_dir@,
            "sentence_concat_"@ + text::decimal(millis as nat) + ".wav"@,
        ),
{
    path_join(
        output_dir,
        cat3("sentence_concat_", decimal_text(millis).as_str(), ".wav").as_str(),
    )
}

} // verus!
