//! Checks of the settings: values out of range, settings that exclude each other, unknown fields.
use vstd::prelude::*;

use crate::config::{
    AsrConfig, AudioSyncConfig, AudioSyncMode, BackgroundMusicConfig, BatchConfig, CacheConfig,
    CheckpointConfig, CloningConfig, Config, PerformanceConfig, PipelineConfig,
    SpeedRateConfigField, SubtitleConfig, SubtitlePostProcessConfigField, TranslationConfig,
    TranslationMode, TtsConfig, VoiceExtractorConfig,
};
use crate::ieee::{F32, F64};
use crate::text;
use crate::text::{
    append2, cat3, cat5, decimal_text, is_blank, same_text, split_lines, string_of, trim,
};

verus! {

/// How much is reported.
#[derive(Debug, Clone, Copy, PartialEq, Eq, Structural)]
pub enum ValidationLevel {
    /// Errors only.
    Lenient,
    /// Errors and warnings.
    Standard,
    /// Everything, advice included.
    Strict,
}

impl Default for ValidationLevel {
    fn default() -> (r: Self)
        ensures
            r == ValidationLevel::Standard,
    {
        ValidationLevel::Standard
    }
}

/// How grave a finding is.
#[derive(Debug, Clone, Copy, PartialEq, Eq, Structural)]
pub enum Severity {
    /// Advice.
    Info,
    /// Speed or quality may suffer.
    Warning,
    /// Something will not work.
    Error,
}

/// A finding.
#[derive(Debug, Clone)]
pub struct ValidationWarning {
    /// The path of the field, such as `tts.speed`.
    pub field: String,
    /// What is wrong.
    pub message: String,
    /// How grave it is.
    pub severity: Severity,
}

/// A finding as a value.
#[verifier::ext_equal]
pub struct WarningView {
    /// The path of the field.
    pub field: Seq<char>,
    /// What is wrong.
    pub message: Seq<char>,
    /// How grave it is.
    pub severity: Severity,
}

impl View for ValidationWarning {
    type V = WarningView;

    open spec fn view(&self) -> WarningView {
        WarningView { field: self.field@, message: self.message@, severity: self.severity }
    }
}

/// The findings of a list as values.
pub open spec fn warning_views(list: Seq<ValidationWarning>) -> Seq<WarningView> {
    Seq::new(list.len(), |i: int| list[i]@)
}

/// The name of a severity in front of a finding.
pub open spec fn severity_name(severity: Severity) -> Seq<char> {
    match severity {
        Severity::Info => "INFO"@,
        Severity::Warning => "WARN"@,
        Severity::Error => "ERROR"@,
    }
}

impl ValidationWarning {
    /// The finding on one line: severity, field and message.
    pub fn to_string(&self) -> (r: String)
        ensures
            r@ == "["@ + severity_name(self.severity) + "] "@ + self.field@ + ": "@
                + self.message@,
            self.severity is Info ==> r@ == "["@ + "INFO"@ + "] "@ + self.field@ + ": "@
                + self.message@,
            self.severity is Warning ==> r@ == "["@ + "WARN"@ + "] "@ + self.field@ + ": "@
                + self.message@,
            self.severity is Error ==> r@ == "["@ + "ERROR"@ + "] "@ + self.field@ + ": "@
                + self.message@,
    {
        let level = match self.severity {
            Severity::Info => "INFO",
            Severity::Warning => "WARN",
            Severity::Error => "ERROR",
        };
        let mut out = cat5("[", level, "] ", self.field.as_str(), ": ");
        out.append(self.message.as_str());
        out
    }
}

/// The finding where `cond` holds, nothing where it does not.
pub open spec fn when(
    cond: bool,
    field: Seq<char>,
    message: Seq<char>,
    severity: Severity,
) -> Seq<WarningView> {
    if cond {
        seq![WarningView { field, message, severity }]
    } else {
        Seq::empty()
    }
}

fn add_if(
    out: &mut Vec<ValidationWarning>,
    cond: bool,
    field: &str,
    message: String,
    severity: Severity,
)
    ensures
        warning_views(final(out)@) == warning_views(old(out)@) + when(
            cond,
            field@,
            message@,
            severity,
        ),
{
    if cond {
        out.push(ValidationWarning { field: field.to_owned(), message, severity });
    }
    assert(warning_views(out@) =~= warning_views(old(out)@) + when(
        cond,
        field@,
        message@,
        severity,
    ));
}

fn set_but_empty(s: &Option<String>) -> (r: bool)
    ensures
        r == (s matches Some(t) && t@.len() == 0),
{
    match s {
        Some(t) => t.as_str().is_empty(),
        None => false,
    }
}

/// The text of an optional setting, empty where it is not set.
pub open spec fn given(s: Option<String>) -> Seq<char> {
    match s {
        Some(t) => t@,
        None => ""@,
    }
}

fn given_text(s: &Option<String>) -> (r: &str)
    ensures
        r@ == given(*s),
{
    match s {
        Some(t) => t.as_str(),
        None => "",
    }
}

/// The findings on speech recognition.
pub open spec fn asr_findings(c: AsrConfig) -> Seq<WarningView> {
    Seq::<WarningView>::empty()
        + when(
        text::trimmed(c.model@).len() == 0,
        "asr.model"@,
        "模型名称为空"@,
        Severity::Error,
    )
        + when(
        !(c.language@ == "en"@ || c.language@ == "zh"@ || c.language@ == "ja"@ || c.language@ == "ko"@ || c.language@ == "fr"@ || c.language@ == "de"@ || c.language@ == "es"@ || c.language@ == "ru"@ || c.language@ == "auto"@),
        "asr.language"@,
        "语言代码 '"@ + c.language@ + "' 不在常见列表中: [\"en\", \"zh\", \"ja\", \"ko\", \"fr\", \"de\", \"es\", \"ru\", \"auto\"]"@,
        Severity::Warning,
    )
}

fn validate_asr(c: &AsrConfig) -> (r: Vec<ValidationWarning>)
    ensures
        warning_views(r@) == asr_findings(*c),
{
    let mut out: Vec<ValidationWarning> = Vec::new();
    assert(warning_views(out@) =~= Seq::empty());
    add_if(
        &mut out,
        is_blank(c.model.as_str()),
        "asr.model",
        "模型名称为空".to_owned(),
        Severity::Error,
    );
    add_if(
        &mut out,
        !(same_text(c.language.as_str(), "en") || same_text(c.language.as_str(), "zh") || same_text(c.language.as_str(), "ja") || same_text(c.language.as_str(), "ko") || same_text(c.language.as_str(), "fr") || same_text(c.language.as_str(), "de") || same_text(c.language.as_str(), "es") || same_text(c.language.as_str(), "ru") || same_text(c.language.as_str(), "auto")),
        "asr.language",
        cat3("语言代码 '", c.language.as_str(), "' 不在常见列表中: [\"en\", \"zh\", \"ja\", \"ko\", \"fr\", \"de\", \"es\", \"ru\", \"auto\"]"),
        Severity::Warning,
    );
    out
}

/// The findings on speech synthesis.
pub open spec fn tts_findings(c: TtsConfig) -> Seq<WarningView> {
    Seq::<WarningView>::empty()
        + when(
        c.speed.outside(0x3f00_0000, 0x4000_0000),
        "tts.speed"@,
        "值 "@ + c.speed.wide@ + " 超出范围 [0.5, 2]"@,
        Severity::Error,
    )
        + when(
        !c.speed.outside(0x3f00_0000, 0x4000_0000) && c.speed.outside(0x3f4c_cccd, 0x3fc0_0000),
        "tts.speed"@,
        "语速 "@ + c.speed.text@ + " 偏离推荐范围 [0.8, 1.5]，可能影响听感"@,
        Severity::Info,
    )
        + when(
        c.pitch.outside(0x3f4c_cccd, 0x3f99_999a),
        "tts.pitch"@,
        "值 "@ + c.pitch.wide@ + " 超出范围 [0.8, 1.2]"@,
        Severity::Error,
    )
        + when(
        c.volume.outside(0, 0x4000_0000),
        "tts.volume"@,
        "值 "@ + c.volume.wide@ + " 超出范围 [0, 2]"@,
        Severity::Error,
    )
        + when(
        c.sample_rate != 16000 && c.sample_rate != 24000 && c.sample_rate != 48000,
        "tts.sample_rate"@,
        "采样率 "@ + text::decimal(c.sample_rate as nat) + " 不在常见列表中: [16000, 24000, 48000]"@,
        Severity::Warning,
    )
        + when(
        c.temperature.outside(0, 0x3ff0_0000_0000_0000),
        "tts.temperature"@,
        "值 "@ + c.temperature.text@ + " 超出范围 [0, 1]"@,
        Severity::Error,
    )
        + when(
        c.stability.outside(0, 0x3ff0_0000_0000_0000),
        "tts.stability"@,
        "值 "@ + c.stability.text@ + " 超出范围 [0, 1]"@,
        Severity::Error,
    )
        + when(
        c.eq_high_shelf_db.outside(0xc028_0000_0000_0000, 0),
        "tts.eq_high_shelf_db"@,
        "EQ 衰减 "@ + c.eq_high_shelf_db.text@ + " dB 超出推荐范围 [-12, 0]"@,
        Severity::Warning,
    )
        + when(
        c.parallel_tasks == 0,
        "tts.parallel_tasks"@,
        "并行任务数为 0，将无法合成"@,
        Severity::Error,
    )
        + when(
        c.parallel_tasks > 16,
        "tts.parallel_tasks"@,
        "并行任务数 "@ + text::decimal(c.parallel_tasks as nat) + " 过高，可能导致内存不足（推荐 ≤ 16）"@,
        Severity::Warning,
    )
        + when(
        c.crossfade_duration_ms > 500,
        "tts.crossfade_duration_ms"@,
        "交叉淡入淡出 "@ + text::decimal(c.crossfade_duration_ms as nat) + "ms 过长，可能导致拼接不自然（推荐 ≤ 100ms）"@,
        Severity::Warning,
    )
}

fn validate_tts(c: &TtsConfig) -> (r: Vec<ValidationWarning>)
    ensures
        warning_views(r@) == tts_findings(*c),
{
    let mut out: Vec<ValidationWarning> = Vec::new();
    assert(warning_views(out@) =~= Seq::empty());
    add_if(
        &mut out,
        c.speed.is_outside(0x3f00_0000, 0x4000_0000),
        "tts.speed",
        cat3("值 ", c.speed.wide.as_str(), " 超出范围 [0.5, 2]"),
        Severity::Error,
    );
    add_if(
        &mut out,
        !c.speed.is_outside(0x3f00_0000, 0x4000_0000) && c.speed.is_outside(0x3f4c_cccd, 0x3fc0_0000),
        "tts.speed",
        cat3("语速 ", c.speed.text.as_str(), " 偏离推荐范围 [0.8, 1.5]，可能影响听感"),
        Severity::Info,
    );
    add_if(
        &mut out,
        c.pitch.is_outside(0x3f4c_cccd, 0x3f99_999a),
        "tts.pitch",
        cat3("值 ", c.pitch.wide.as_str(), " 超出范围 [0.8, 1.2]"),
        Severity::Error,
    );
    add_if(
        &mut out,
        c.volume.is_outside(0, 0x4000_0000),
        "tts.volume",
        cat3("值 ", c.volume.wide.as_str(), " 超出范围 [0, 2]"),
        Severity::Error,
    );
    add_if(
        &mut out,
        c.sample_rate != 16000 && c.sample_rate != 24000 && c.sample_rate != 48000,
        "tts.sample_rate",
        cat3("采样率 ", decimal_text(c.sample_rate as u64).as_str(), " 不在常见列表中: [16000, 24000, 48000]"),
        Severity::Warning,
    );
    add_if(
        &mut out,
        c.temperature.is_outside(0, 0x3ff0_0000_0000_0000),
        "tts.temperature",
        cat3("值 ", c.temperature.text.as_str(), " 超出范围 [0, 1]"),
        Severity::Error,
    );
    add_if(
        &mut out,
        c.stability.is_outside(0, 0x3ff0_0000_0000_0000),
        "tts.stability",
        cat3("值 ", c.stability.text.as_str(), " 超出范围 [0, 1]"),
        Severity::Error,
    );
    add_if(
        &mut out,
        c.eq_high_shelf_db.is_outside(0xc028_0000_0000_0000, 0),
        "tts.eq_high_shelf_db",
        cat3("EQ 衰减 ", c.eq_high_shelf_db.text.as_str(), " dB 超出推荐范围 [-12, 0]"),
        Severity::Warning,
    );
    add_if(
        &mut out,
        c.parallel_tasks == 0,
        "tts.parallel_tasks",
        "并行任务数为 0，将无法合成".to_owned(),
        Severity::Error,
    );
    add_if(
        &mut out,
        c.parallel_tasks > 16,
        "tts.parallel_tasks",
        cat3("并行任务数 ", decimal_text(c.parallel_tasks as u64).as_str(), " 过高，可能导致内存不足（推荐 ≤ 16）"),
        Severity::Warning,
    );
    add_if(
        &mut out,
        c.crossfade_duration_ms > 500,
        "tts.crossfade_duration_ms",
        cat3("交叉淡入淡出 ", decimal_text(c.crossfade_duration_ms as u64).as_str(), "ms 过长，可能导致拼接不自然（推荐 ≤ 100ms）"),
        Severity::Warning,
    );
    out
}

/// The findings on translation.
pub open spec fn translation_findings(c: TranslationConfig) -> Seq<WarningView> {
    Seq::<WarningView>::empty()
        + when(
        c.batch_size == 0,
        "translation.batch_size"@,
        "批量大小为 0"@,
        Severity::Error,
    )
        + when(
        c.batch_size > 50,
        "translation.batch_size"@,
        "批量大小 "@ + text::decimal(c.batch_size as nat) + " 过大，可能导致 LLM 超时（推荐 ≤ 20）"@,
        Severity::Warning,
    )
        + when(
        c.max_tokens < 64,
        "translation.max_tokens"@,
        "max_tokens="@ + text::decimal(c.max_tokens as nat) + " 过小，翻译可能被截断"@,
        Severity::Error,
    )
        + when(
        c.max_tokens > 4096,
        "translation.max_tokens"@,
        "max_tokens="@ + text::decimal(c.max_tokens as nat) + " 过大，可能导致内存问题（推荐 ≤ 2048）"@,
        Severity::Warning,
    )
        + when(
        c.temperature.outside(0, 0x4000_0000),
        "translation.temperature"@,
        "值 "@ + c.temperature.wide@ + " 超出范围 [0, 2]"@,
        Severity::Error,
    )
        + when(
        !c.temperature.outside(0, 0x4000_0000) && c.temperature.outside(0xff80_0000, 0x3f33_3333),
        "translation.temperature"@,
        "温度 "@ + c.temperature.text@ + " 偏高，翻译可能不够稳定（推荐 ≤ 0.5）"@,
        Severity::Info,
    )
        + when(
        c.dlx_timeout_secs < 3,
        "translation.dlx_timeout_secs"@,
        "超时 "@ + text::decimal(c.dlx_timeout_secs as nat) + "s 过短，可能导致请求失败"@,
        Severity::Warning,
    )
        + when(
        !c.prefer_online && !c.fallback_on_error,
        "translation"@,
        "prefer_online=false 且 fallback_on_error=false：没有可用的翻译后端！"@,
        Severity::Error,
    )
        + when(
        c.translation_mode == TranslationMode::Srt && c.batch_size > 30,
        "translation"@,
        "SRT 模式下 batch_size 过大，可能导致 LLM 上下文溢出"@,
        Severity::Warning,
    )
}

fn validate_translation(c: &TranslationConfig) -> (r: Vec<ValidationWarning>)
    ensures
        warning_views(r@) == translation_findings(*c),
{
    let mut out: Vec<ValidationWarning> = Vec::new();
    assert(warning_views(out@) =~= Seq::empty());
    add_if(
        &mut out,
        c.batch_size == 0,
        "translation.batch_size",
        "批量大小为 0".to_owned(),
        Severity::Error,
    );
    add_if(
        &mut out,
        c.batch_size > 50,
        "translation.batch_size",
        cat3("批量大小 ", decimal_text(c.batch_size as u64).as_str(), " 过大，可能导致 LLM 超时（推荐 ≤ 20）"),
        Severity::Warning,
    );
    add_if(
        &mut out,
        c.max_tokens < 64,
        "translation.max_tokens",
        cat3("max_tokens=", decimal_text(c.max_tokens as u64).as_str(), " 过小，翻译可能被截断"),
        Severity::Error,
    );
    add_if(
        &mut out,
        c.max_tokens > 4096,
        "translation.max_tokens",
        cat3("max_tokens=", decimal_text(c.max_tokens as u64).as_str(), " 过大，可能导致内存问题（推荐 ≤ 2048）"),
        Severity::Warning,
    );
    add_if(
        &mut out,
        c.temperature.is_outside(0, 0x4000_0000),
        "translation.temperature",
        cat3("值 ", c.temperature.wide.as_str(), " 超出范围 [0, 2]"),
        Severity::Error,
    );
    add_if(
        &mut out,
        !c.temperature.is_outside(0, 0x4000_0000) && c.temperature.is_outside(0xff80_0000, 0x3f33_3333),
        "translation.temperature",
        cat3("温度 ", c.temperature.text.as_str(), " 偏高，翻译可能不够稳定（推荐 ≤ 0.5）"),
        Severity::Info,
    );
    add_if(
        &mut out,
        c.dlx_timeout_secs < 3,
        "translation.dlx_timeout_secs",
        cat3("超时 ", decimal_text(c.dlx_timeout_secs as u64).as_str(), "s 过短，可能导致请求失败"),
        Severity::Warning,
    );
    add_if(
        &mut out,
        !c.prefer_online && !c.fallback_on_error,
        "translation",
        "prefer_online=false 且 fallback_on_error=false：没有可用的翻译后端！".to_owned(),
        Severity::Error,
    );
    add_if(
        &mut out,
        c.translation_mode == TranslationMode::Srt && c.batch_size > 30,
        "translation",
        "SRT 模式下 batch_size 过大，可能导致 LLM 上下文溢出".to_owned(),
        Severity::Warning,
    );
    out
}

/// The findings on the pipeline.
pub open spec fn pipeline_findings(c: PipelineConfig) -> Seq<WarningView> {
    Seq::<WarningView>::empty()
        + when(
        c.segment_duration_secs.outside(0x4014_0000_0000_0000, 0x7ff0_0000_0000_0000),
        "pipeline.segment_duration_secs"@,
        "分割时长 "@ + c.segment_duration_secs.text@ + "s 过短，碎片化严重"@,
        Severity::Warning,
    )
        + when(
        c.segment_duration_secs.outside(0xfff0_0000_0000_0000, 0x405e_0000_0000_0000),
        "pipeline.segment_duration_secs"@,
        "分割时长 "@ + c.segment_duration_secs.text@ + "s 过长，ASR 内存压力大"@,
        Severity::Warning,
    )
        + when(
        c.channel_capacity == 0,
        "pipeline.channel_capacity"@,
        "通道容量为 0，流水线将死锁"@,
        Severity::Error,
    )
        + when(
        0 < c.channel_capacity && c.channel_capacity < 10,
        "pipeline.channel_capacity"@,
        "通道容量 "@ + text::decimal(c.channel_capacity as nat) + " 过小，背压频繁"@,
        Severity::Warning,
    )
}

fn validate_pipeline(c: &PipelineConfig) -> (r: Vec<ValidationWarning>)
    ensures
        warning_views(r@) == pipeline_findings(*c),
{
    let mut out: Vec<ValidationWarning> = Vec::new();
    assert(warning_views(out@) =~= Seq::empty());
    add_if(
        &mut out,
        c.segment_duration_secs.is_outside(0x4014_0000_0000_0000, 0x7ff0_0000_0000_0000),
        "pipeline.segment_duration_secs",
        cat3("分割时长 ", c.segment_duration_secs.text.as_str(), "s 过短，碎片化严重"),
        Severity::Warning,
    );
    add_if(
        &mut out,
        c.segment_duration_secs.is_outside(0xfff0_0000_0000_0000, 0x405e_0000_0000_0000),
        "pipeline.segment_duration_secs",
        cat3("分割时长 ", c.segment_duration_secs.text.as_str(), "s 过长，ASR 内存压力大"),
        Severity::Warning,
    );
    add_if(
        &mut out,
        c.channel_capacity == 0,
        "pipeline.channel_capacity",
        "通道容量为 0，流水线将死锁".to_owned(),
        Severity::Error,
    );
    add_if(
        &mut out,
        0 < c.channel_capacity && c.channel_capacity < 10,
        "pipeline.channel_capacity",
        cat3("通道容量 ", decimal_text(c.channel_capacity as u64).as_str(), " 过小，背压频繁"),
        Severity::Warning,
    );
    out
}

/// The findings on voice cloning.
pub open spec fn cloning_findings(c: CloningConfig) -> Seq<WarningView> {
    Seq::<WarningView>::empty()
        + when(
        c.enabled && !(c.engine@ == "gpt-sovits"@ || c.engine@ == "indextts"@ || c.engine@ == "subprocess"@ || c.engine@ == "subprocess-persistent"@ || c.engine@ == "python-qwen-tts"@ || c.engine@ == "neutts"@ || c.engine@ == "vibevoice"@),
        "cloning.engine"@,
        "引擎 '"@ + c.engine@ + "' 不在已知列表中: [\"gpt-sovits\", \"indextts\", \"subprocess\", \"subprocess-persistent\", \"python-qwen-tts\", \"neutts\", \"vibevoice\"]"@,
        Severity::Warning,
    )
        + when(
        c.enabled && (c.engine@ == "subprocess"@ || c.engine@ == "subprocess-persistent"@ || c.engine@ == "python-qwen-tts"@) && c.clone_command is None,
        "cloning.clone_command"@,
        "子进程引擎未设置 clone_command"@,
        Severity::Error,
    )
        + when(
        c.enabled && (c.engine@ == "subprocess"@ || c.engine@ == "subprocess-persistent"@ || c.engine@ == "python-qwen-tts"@) && c.clone_args@.len() == 0,
        "cloning.clone_args"@,
        "子进程引擎未设置 clone_args"@,
        Severity::Error,
    )
        + when(
        c.enabled && c.clone_timeout_secs < 30,
        "cloning.clone_timeout_secs"@,
        "克隆超时 "@ + text::decimal(c.clone_timeout_secs as nat) + "s 过短"@,
        Severity::Warning,
    )
        + when(
        c.enabled && c.engine@ == "gpt-sovits"@ && c.api_url@.len() == 0,
        "cloning.api_url"@,
        "GPT-SoVITS API URL 为空"@,
        Severity::Error,
    )
        + when(
        c.enabled && c.engine@ == "gpt-sovits"@ && (c.prompt_text matches Some(t) && t@.len() == 0),
        "cloning.prompt_text"@,
        "prompt_text 设为空字符串"@,
        Severity::Warning,
    )
        + when(
        c.enabled && c.temperature.outside(0, 0x4000_0000),
        "cloning.temperature"@,
        "温度 "@ + c.temperature.text@ + " 超出 [0, 2]"@,
        Severity::Error,
    )
        + when(
        c.enabled && c.top_p.outside(0, 0x3f80_0000),
        "cloning.top_p"@,
        "top_p "@ + c.top_p.text@ + " 超出 [0, 1]"@,
        Severity::Error,
    )
        + when(
        c.enabled && c.repetition_penalty.outside(0x3f80_0000, 0x4000_0000),
        "cloning.repetition_penalty"@,
        "repetition_penalty "@ + c.repetition_penalty.text@ + " 超出推荐 [1.0, 2.0]"@,
        Severity::Warning,
    )
}

fn validate_cloning(c: &CloningConfig) -> (r: Vec<ValidationWarning>)
    ensures
        warning_views(r@) == cloning_findings(*c),
{
    let mut out: Vec<ValidationWarning> = Vec::new();
    assert(warning_views(out@) =~= Seq::empty());
    add_if(
        &mut out,
        c.enabled && !(same_text(c.engine.as_str(), "gpt-sovits") || same_text(c.engine.as_str(), "indextts") || same_text(c.engine.as_str(), "subprocess") || same_text(c.engine.as_str(), "subprocess-persistent") || same_text(c.engine.as_str(), "python-qwen-tts") || same_text(c.engine.as_str(), "neutts") || same_text(c.engine.as_str(), "vibevoice")),
        "cloning.engine",
        cat3("引擎 '", c.engine.as_str(), "' 不在已知列表中: [\"gpt-sovits\", \"indextts\", \"subprocess\", \"subprocess-persistent\", \"python-qwen-tts\", \"neutts\", \"vibevoice\"]"),
        Severity::Warning,
    );
    add_if(
        &mut out,
        c.enabled && (same_text(c.engine.as_str(), "subprocess") || same_text(c.engine.as_str(), "subprocess-persistent") || same_text(c.engine.as_str(), "python-qwen-tts")) && c.clone_command.is_none(),
        "cloning.clone_command",
        "子进程引擎未设置 clone_command".to_owned(),
        Severity::Error,
    );
    add_if(
        &mut out,
        c.enabled && (same_text(c.engine.as_str(), "subprocess") || same_text(c.engine.as_str(), "subprocess-persistent") || same_text(c.engine.as_str(), "python-qwen-tts")) && c.clone_args.is_empty(),
        "cloning.clone_args",
        "子进程引擎未设置 clone_args".to_owned(),
        Severity::Error,
    );
    add_if(
        &mut out,
        c.enabled && c.clone_timeout_secs < 30,
        "cloning.clone_timeout_secs",
        cat3("克隆超时 ", decimal_text(c.clone_timeout_secs as u64).as_str(), "s 过短"),
        Severity::Warning,
    );
    add_if(
        &mut out,
        c.enabled && same_text(c.engine.as_str(), "gpt-sovits") && c.api_url.as_str().is_empty(),
        "cloning.api_url",
        "GPT-SoVITS API URL 为空".to_owned(),
        Severity::Error,
    );
    add_if(
        &mut out,
        c.enabled && same_text(c.engine.as_str(), "gpt-sovits") && set_but_empty(&c.prompt_text),
        "cloning.prompt_text",
        "prompt_text 设为空字符串".to_owned(),
        Severity::Warning,
    );
    add_if(
        &mut out,
        c.enabled && c.temperature.is_outside(0, 0x4000_0000),
        "cloning.temperature",
        cat3("温度 ", c.temperature.text.as_str(), " 超出 [0, 2]"),
        Severity::Error,
    );
    add_if(
        &mut out,
        c.enabled && c.top_p.is_outside(0, 0x3f80_0000),
        "cloning.top_p",
        cat3("top_p ", c.top_p.text.as_str(), " 超出 [0, 1]"),
        Severity::Error,
    );
    add_if(
        &mut out,
        c.enabled && c.repetition_penalty.is_outside(0x3f80_0000, 0x4000_0000),
        "cloning.repetition_penalty",
        cat3("repetition_penalty ", c.repetition_penalty.text.as_str(), " 超出推荐 [1.0, 2.0]"),
        Severity::Warning,
    );
    out
}

/// The findings on batches.
pub open spec fn batch_findings(c: BatchConfig) -> Seq<WarningView> {
    Seq::<WarningView>::empty()
        + when(
        c.max_concurrent == 0,
        "batch.max_concurrent"@,
        "最大并发为 0"@,
        Severity::Error,
    )
        + when(
        c.memory_threshold.outside(0x4049_0000_0000_0000, 0x4057_c000_0000_0000),
        "batch.memory_threshold"@,
        "内存阈值 "@ + c.memory_threshold.text@ + " 超出推荐 [50, 95]"@,
        Severity::Warning,
    )
}

fn validate_batch(c: &BatchConfig) -> (r: Vec<ValidationWarning>)
    ensures
        warning_views(r@) == batch_findings(*c),
{
    let mut out: Vec<ValidationWarning> = Vec::new();
    assert(warning_views(out@) =~= Seq::empty());
    add_if(
        &mut out,
        c.max_concurrent == 0,
        "batch.max_concurrent",
        "最大并发为 0".to_owned(),
        Severity::Error,
    );
    add_if(
        &mut out,
        c.memory_threshold.is_outside(0x4049_0000_0000_0000, 0x4057_c000_0000_0000),
        "batch.memory_threshold",
        cat3("内存阈值 ", c.memory_threshold.text.as_str(), " 超出推荐 [50, 95]"),
        Severity::Warning,
    );
    out
}

/// The findings on speech and picture.
pub open spec fn audio_sync_findings(c: AudioSyncConfig) -> Seq<WarningView> {
    Seq::<WarningView>::empty()
        + when(
        c.max_speed_ratio.outside(0x3f80_0000, 0x4000_0000),
        "audio_sync.max_speed_ratio"@,
        "加速上限 "@ + c.max_speed_ratio.text@ + " 超出 [1.0, 2.0]"@,
        Severity::Error,
    )
        + when(
        c.mode == AudioSyncMode::SpeedUp && c.max_speed_ratio.outside(0xff80_0000, 0x4000_0000),
        "audio_sync"@,
        "SpeedUp 模式下加速 > 2.0 会严重失真"@,
        Severity::Warning,
    )
}

fn validate_audio_sync(c: &AudioSyncConfig) -> (r: Vec<ValidationWarning>)
    ensures
        warning_views(r@) == audio_sync_findings(*c),
{
    let mut out: Vec<ValidationWarning> = Vec::new();
    assert(warning_views(out@) =~= Seq::empty());
    add_if(
        &mut out,
        c.max_speed_ratio.is_outside(0x3f80_0000, 0x4000_0000),
        "audio_sync.max_speed_ratio",
        cat3("加速上限 ", c.max_speed_ratio.text.as_str(), " 超出 [1.0, 2.0]"),
        Severity::Error,
    );
    add_if(
        &mut out,
        c.mode == AudioSyncMode::SpeedUp && c.max_speed_ratio.is_outside(0xff80_0000, 0x4000_0000),
        "audio_sync",
        "SpeedUp 模式下加速 > 2.0 会严重失真".to_owned(),
        Severity::Warning,
    );
    out
}

/// The findings on the alignment of sound and picture.
pub open spec fn speed_rate_findings(c: SpeedRateConfigField) -> Seq<WarningView> {
    Seq::<WarningView>::empty()
        + when(
        c.enabled && c.max_audio_speed.outside(0x3ff0_0000_0000_0000, 0x4000_0000_0000_0000),
        "speed_rate.max_audio_speed"@,
        "最大音频加速 "@ + c.max_audio_speed.text@ + " 超出 [1.0, 2.0]"@,
        Severity::Error,
    )
        + when(
        c.enabled && c.max_video_slow.outside(0x3ff0_0000_0000_0000, 0x4008_0000_0000_0000),
        "speed_rate.max_video_slow"@,
        "最大视频慢放 "@ + c.max_video_slow.text@ + " 超出 [1.0, 3.0]"@,
        Severity::Error,
    )
}

fn validate_speed_rate(c: &SpeedRateConfigField) -> (r: Vec<ValidationWarning>)
    ensures
        warning_views(r@) == speed_rate_findings(*c),
{
    let mut out: Vec<ValidationWarning> = Vec::new();
    assert(warning_views(out@) =~= Seq::empty());
    add_if(
        &mut out,
        c.enabled && c.max_audio_speed.is_outside(0x3ff0_0000_0000_0000, 0x4000_0000_0000_0000),
        "speed_rate.max_audio_speed",
        cat3("最大音频加速 ", c.max_audio_speed.text.as_str(), " 超出 [1.0, 2.0]"),
        Severity::Error,
    );
    add_if(
        &mut out,
        c.enabled && c.max_video_slow.is_outside(0x3ff0_0000_0000_0000, 0x4008_0000_0000_0000),
        "speed_rate.max_video_slow",
        cat3("最大视频慢放 ", c.max_video_slow.text.as_str(), " 超出 [1.0, 3.0]"),
        Severity::Error,
    );
    out
}

/// The findings on caches.
pub open spec fn cache_findings(c: CacheConfig) -> Seq<WarningView> {
    Seq::<WarningView>::empty()
        + when(
        c.retention_days == 0,
        "cache.retention_days"@,
        "保留天数为 0，缓存不会被清理"@,
        Severity::Info,
    )
        + when(
        c.retention_days > 365,
        "cache.retention_days"@,
        "保留天数 "@ + text::decimal(c.retention_days as nat) + " 过长，磁盘可能不足"@,
        Severity::Warning,
    )
}

fn validate_cache(c: &CacheConfig) -> (r: Vec<ValidationWarning>)
    ensures
        warning_views(r@) == cache_findings(*c),
{
    let mut out: Vec<ValidationWarning> = Vec::new();
    assert(warning_views(out@) =~= Seq::empty());
    add_if(
        &mut out,
        c.retention_days == 0,
        "cache.retention_days",
        "保留天数为 0，缓存不会被清理".to_owned(),
        Severity::Info,
    );
    add_if(
        &mut out,
        c.retention_days > 365,
        "cache.retention_days",
        cat3("保留天数 ", decimal_text(c.retention_days as u64).as_str(), " 过长，磁盘可能不足"),
        Severity::Warning,
    );
    out
}

/// The findings on the choice of reference audio.
pub open spec fn voice_extractor_findings(c: VoiceExtractorConfig) -> Seq<WarningView> {
    Seq::<WarningView>::empty()
        + when(
        c.max_duration_secs.value.at_most(c.min_duration_secs.value),
        "cloning.voice_extractor"@,
        "min_duration("@ + c.min_duration_secs.text@ + ") >= max_duration("@ + c.max_duration_secs.text@ + ")"@,
        Severity::Error,
    )
        + when(
        c.silence_threshold_db.outside(0xfff0_0000_0000_0000, 0xc034_0000_0000_0000),
        "cloning.voice_extractor.silence_threshold_db"@,
        "静音阈值 "@ + c.silence_threshold_db.text@ + " dB 过高，可能误判语音为静音"@,
        Severity::Warning,
    )
        + when(
        c.target_rms_db.outside(0xc03e_0000_0000_0000, 0xc024_0000_0000_0000),
        "cloning.voice_extractor.target_rms_db"@,
        "目标 RMS "@ + c.target_rms_db.text@ + " dBFS 超出推荐 [-30, -10]"@,
        Severity::Warning,
    )
}

fn validate_voice_extractor(c: &VoiceExtractorConfig) -> (r: Vec<ValidationWarning>)
    ensures
        warning_views(r@) == voice_extractor_findings(*c),
{
    let mut out: Vec<ValidationWarning> = Vec::new();
    assert(warning_views(out@) =~= Seq::empty());
    add_if(
        &mut out,
        c.max_duration_secs.value.le(c.min_duration_secs.value),
        "cloning.voice_extractor",
        cat5("min_duration(", c.min_duration_secs.text.as_str(), ") >= max_duration(", c.max_duration_secs.text.as_str(), ")"),
        Severity::Error,
    );
    add_if(
        &mut out,
        c.silence_threshold_db.is_outside(0xfff0_0000_0000_0000, 0xc034_0000_0000_0000),
        "cloning.voice_extractor.silence_threshold_db",
        cat3("静音阈值 ", c.silence_threshold_db.text.as_str(), " dB 过高，可能误判语音为静音"),
        Severity::Warning,
    );
    add_if(
        &mut out,
        c.target_rms_db.is_outside(0xc03e_0000_0000_0000, 0xc024_0000_0000_0000),
        "cloning.voice_extractor.target_rms_db",
        cat3("目标 RMS ", c.target_rms_db.text.as_str(), " dBFS 超出推荐 [-30, -10]"),
        Severity::Warning,
    );
    out
}

/// The findings on the post-processing of subtitles.
pub open spec fn subtitle_postprocess_findings(c: SubtitlePostProcessConfigField) -> Seq<WarningView> {
    Seq::<WarningView>::empty()
        + when(
        c.max_duration.value.at_most(c.min_duration.value),
        "subtitle_postprocess"@,
        "min_duration("@ + c.min_duration.text@ + ") >= max_duration("@ + c.max_duration.text@ + ")"@,
        Severity::Error,
    )
        + when(
        c.merge_gap_threshold.outside(0xfff0_0000_0000_0000, 0x4014_0000_0000_0000),
        "subtitle_postprocess.merge_gap_threshold"@,
        "合并间隙 "@ + c.merge_gap_threshold.text@ + "s 过大"@,
        Severity::Warning,
    )
}

fn validate_subtitle_postprocess(c: &SubtitlePostProcessConfigField) -> (r: Vec<ValidationWarning>)
    ensures
        warning_views(r@) == subtitle_postprocess_findings(*c),
{
    let mut out: Vec<ValidationWarning> = Vec::new();
    assert(warning_views(out@) =~= Seq::empty());
    add_if(
        &mut out,
        c.max_duration.value.le(c.min_duration.value),
        "subtitle_postprocess",
        cat5("min_duration(", c.min_duration.text.as_str(), ") >= max_duration(", c.max_duration.text.as_str(), ")"),
        Severity::Error,
    );
    add_if(
        &mut out,
        c.merge_gap_threshold.is_outside(0xfff0_0000_0000_0000, 0x4014_0000_0000_0000),
        "subtitle_postprocess.merge_gap_threshold",
        cat3("合并间隙 ", c.merge_gap_threshold.text.as_str(), "s 过大"),
        Severity::Warning,
    );
    out
}

/// The findings on subtitles.
pub open spec fn subtitle_findings(c: SubtitleConfig) -> Seq<WarningView> {
    Seq::<WarningView>::empty()
}

fn validate_subtitle(c: &SubtitleConfig) -> (r: Vec<ValidationWarning>)
    ensures
        warning_views(r@) == subtitle_findings(*c),
{
    let out: Vec<ValidationWarning> = Vec::new();
    assert(warning_views(out@) =~= Seq::empty());
    out
}

/// The findings on background music.
pub open spec fn background_music_findings(c: BackgroundMusicConfig, path_exists: bool) -> Seq<WarningView> {
    Seq::<WarningView>::empty()
        + when(
        c.path is Some && !path_exists,
        "background_music.path"@,
        "背景音乐文件不存在: "@ + given(c.path),
        Severity::Warning,
    )
        + when(
        c.volume.outside(0, 0x3f80_0000),
        "background_music.volume"@,
        "音量 "@ + c.volume.text@ + " 超出 [0, 1]"@,
        Severity::Error,
    )
}

fn validate_background_music(c: &BackgroundMusicConfig, path_exists: bool) -> (r: Vec<ValidationWarning>)
    ensures
        warning_views(r@) == background_music_findings(*c, path_exists),
{
    let mut out: Vec<ValidationWarning> = Vec::new();
    assert(warning_views(out@) =~= Seq::empty());
    add_if(
        &mut out,
        c.path.is_some() && !path_exists,
        "background_music.path",
        append2("背景音乐文件不存在: ", given_text(&c.path)),
        Severity::Warning,
    );
    add_if(
        &mut out,
        c.volume.is_outside(0, 0x3f80_0000),
        "background_music.volume",
        cat3("音量 ", c.volume.text.as_str(), " 超出 [0, 1]"),
        Severity::Error,
    );
    out
}

/// The findings on checkpoints.
pub open spec fn checkpoint_findings(c: CheckpointConfig) -> Seq<WarningView> {
    Seq::<WarningView>::empty()
        + when(
        c.enabled && c.retention_days == 0,
        "checkpoint.retention_days"@,
        "保留天数为 0，检查点不会被清理"@,
        Severity::Info,
    )
}

fn validate_checkpoint(c: &CheckpointConfig) -> (r: Vec<ValidationWarning>)
    ensures
        warning_views(r@) == checkpoint_findings(*c),
{
    let mut out: Vec<ValidationWarning> = Vec::new();
    assert(warning_views(out@) =~= Seq::empty());
    add_if(
        &mut out,
        c.enabled && c.retention_days == 0,
        "checkpoint.retention_days",
        "保留天数为 0，检查点不会被清理".to_owned(),
        Severity::Info,
    );
    out
}

/// The findings on profiling.
pub open spec fn performance_findings(c: PerformanceConfig) -> Seq<WarningView> {
    Seq::<WarningView>::empty()
}

fn validate_performance(c: &PerformanceConfig) -> (r: Vec<ValidationWarning>)
    ensures
        warning_views(r@) == performance_findings(*c),
{
    let out: Vec<ValidationWarning> = Vec::new();
    assert(warning_views(out@) =~= Seq::empty());
    out
}

/// The findings on settings that concern each other.
pub open spec fn cross_module_findings(c: Config) -> Seq<WarningView> {
    Seq::<WarningView>::empty()
        + when(
        c.cloning.enabled && c.tts.engine@ == "say"@,
        "cross_module"@,
        "cloning.enabled=true 但 tts.engine='say'：克隆将被使用，TTS 引擎配置可能多余"@,
        Severity::Info,
    )
        + when(
        c.max_concurrent_tasks > c.pipeline.channel_capacity,
        "cross_module"@,
        "max_concurrent_tasks("@ + text::decimal(c.max_concurrent_tasks as nat) + ") > channel_capacity("@ + text::decimal(c.pipeline.channel_capacity as nat) + ")：可能导致背压"@,
        Severity::Warning,
    )
        + when(
        c.speed_rate.enabled && c.audio_sync.mode != AudioSyncMode::SpeedUp,
        "cross_module"@,
        "speed_rate 和 audio_sync 同时启用：两者都会修改音频时长，可能冲突"@,
        Severity::Warning,
    )
        + when(
        c.cloning.enabled && c.cloning.clone_timeout_secs > 0 && c.tts.parallel_tasks * 200 > 4000,
        "cross_module"@,
        "TTS 并行 "@ + text::decimal(c.tts.parallel_tasks as nat) + " × 克隆 ~200MB ≈ "@ + text::decimal((c.tts.parallel_tasks * 200) as nat) + "MB 内存"@,
        Severity::Warning,
    )
}

fn validate_cross_module(c: &Config) -> (r: Vec<ValidationWarning>)
    requires
        c.cloning.enabled && c.cloning.clone_timeout_secs > 0 ==> c.tts.parallel_tasks * 200 <= usize::MAX,
    ensures
        warning_views(r@) == cross_module_findings(*c),
{
    let mut out: Vec<ValidationWarning> = Vec::new();
    assert(warning_views(out@) =~= Seq::empty());
    add_if(
        &mut out,
        c.cloning.enabled && same_text(c.tts.engine.as_str(), "say"),
        "cross_module",
        "cloning.enabled=true 但 tts.engine='say'：克隆将被使用，TTS 引擎配置可能多余".to_owned(),
        Severity::Info,
    );
    add_if(
        &mut out,
        c.max_concurrent_tasks > c.pipeline.channel_capacity,
        "cross_module",
        cat5("max_concurrent_tasks(", decimal_text(c.max_concurrent_tasks as u64).as_str(), ") > channel_capacity(", decimal_text(c.pipeline.channel_capacity as u64).as_str(), ")：可能导致背压"),
        Severity::Warning,
    );
    add_if(
        &mut out,
        c.speed_rate.enabled && c.audio_sync.mode != AudioSyncMode::SpeedUp,
        "cross_module",
        "speed_rate 和 audio_sync 同时启用：两者都会修改音频时长，可能冲突".to_owned(),
        Severity::Warning,
    );
    let heavy = c.cloning.enabled && c.cloning.clone_timeout_secs > 0 && c.tts.parallel_tasks > 20;
    let message = if heavy {
        cat5("TTS 并行 ", decimal_text(c.tts.parallel_tasks as u64).as_str(), " × 克隆 ~200MB ≈ ", decimal_text((c.tts.parallel_tasks as u64) * 200).as_str(), "MB 内存")
    } else {
        String::new()
    };
    add_if(&mut out, heavy, "cross_module", message, Severity::Warning);
    out
}

/// All findings on the settings, module by module.
pub open spec fn findings(c: Config, music_exists: bool) -> Seq<WarningView> {
    asr_findings(c.asr) + tts_findings(c.tts) + translation_findings(c.translation)
        + pipeline_findings(c.pipeline) + cloning_findings(c.cloning) + batch_findings(c.batch)
        + audio_sync_findings(c.audio_sync) + speed_rate_findings(c.speed_rate) + cache_findings(
        c.cache,
    ) + voice_extractor_findings(c.cloning.voice_extractor) + subtitle_postprocess_findings(
        c.subtitle_postprocess,
    ) + subtitle_findings(c.subtitle) + background_music_findings(c.background_music, music_exists)
        + checkpoint_findings(c.checkpoint) + performance_findings(c.performance)
        + cross_module_findings(c)
}

proof fn lemma_found_in_parts()
    ensures
        forall|a: Seq<WarningView>, b: Seq<WarningView>, w: WarningView| #[trigger]
            (a + b).contains(w) <==> a.contains(w) || b.contains(w),
        forall|
            cond: bool,
            field: Seq<char>,
            message: Seq<char>,
            severity: Severity,
            w: WarningView,
        | #[trigger]
            when(cond, field, message, severity).contains(w) <==> cond && w == (WarningView {
                field,
                message,
                severity,
            }),
        forall|w: WarningView| !(#[trigger] Seq::<WarningView>::empty().contains(w)),
{
    assert forall|a: Seq<WarningView>, b: Seq<WarningView>, w: WarningView| #[trigger]
        (a + b).contains(w) <==> a.contains(w) || b.contains(w) by {
        if a.contains(w) {
            let i = choose|i: int| 0 <= i < a.len() && a[i] == w;
            assert((a + b)[i] == w);
        }
        if b.contains(w) {
            let i = choose|i: int| 0 <= i < b.len() && b[i] == w;
            assert((a + b)[a.len() + i] == w);
        }
    }
    assert forall|
        cond: bool,
        field: Seq<char>,
        message: Seq<char>,
        severity: Severity,
        w: WarningView,
    | #[trigger]
        when(cond, field, message, severity).contains(w) <==> cond && w == (WarningView {
            field,
            message,
            severity,
        }) by {
        if cond {
            assert(when(cond, field, message, severity)[0] == (WarningView {
                field,
                message,
                severity,
            }));
        }
    }
}

/// What is found on speech recognition: these findings and no others.
pub proof fn law_asr_findings(c: AsrConfig, w: WarningView)
    ensures
        asr_findings(c).contains(w) <==> {
            ||| (text::trimmed(c.model@).len() == 0) && w == (WarningView {
                field: "asr.model"@,
                message: "模型名称为空"@,
                severity: Severity::Error,
            })
            ||| (!(c.language@ == "en"@ || c.language@ == "zh"@ || c.language@ == "ja"@ || c.language@ == "ko"@ || c.language@ == "fr"@ || c.language@ == "de"@ || c.language@ == "es"@ || c.language@ == "ru"@ || c.language@ == "auto"@)) && w == (WarningView {
                field: "asr.language"@,
                message: "语言代码 '"@ + c.language@ + "' 不在常见列表中: [\"en\", \"zh\", \"ja\", \"ko\", \"fr\", \"de\", \"es\", \"ru\", \"auto\"]"@,
                severity: Severity::Warning,
            })
        },
{
    lemma_found_in_parts();
}

/// What is found on speech synthesis: these findings and no others.
pub proof fn law_tts_findings(c: TtsConfig, w: WarningView)
    ensures
        tts_findings(c).contains(w) <==> {
            ||| (c.speed.value.less(F32 { bits: 0x3f00_0000 }) || (F32 { bits: 0x4000_0000 }).less(c.speed.value)) && w == (WarningView {
                field: "tts.speed"@,
                message: "值 "@ + c.speed.wide@ + " 超出范围 [0.5, 2]"@,
                severity: Severity::Error,
            })
            ||| (!(c.speed.value.less(F32 { bits: 0x3f00_0000 }) || (F32 { bits: 0x4000_0000 }).less(c.speed.value)) && (c.speed.value.less(F32 { bits: 0x3f4c_cccd }) || (F32 { bits: 0x3fc0_0000 }).less(c.speed.value))) && w == (WarningView {
                field: "tts.speed"@,
                message: "语速 "@ + c.speed.text@ + " 偏离推荐范围 [0.8, 1.5]，可能影响听感"@,
                severity: Severity::Info,
            })
            ||| (c.pitch.value.less(F32 { bits: 0x3f4c_cccd }) || (F32 { bits: 0x3f99_999a }).less(c.pitch.value)) && w == (WarningView {
                field: "tts.pitch"@,
                message: "值 "@ + c.pitch.wide@ + " 超出范围 [0.8, 1.2]"@,
                severity: Severity::Error,
            })
            ||| (c.volume.value.less(F32 { bits: 0 }) || (F32 { bits: 0x4000_0000 }).less(c.volume.value)) && w == (WarningView {
                field: "tts.volume"@,
                message: "值 "@ + c.volume.wide@ + " 超出范围 [0, 2]"@,
                severity: Severity::Error,
            })
            ||| (c.sample_rate != 16000 && c.sample_rate != 24000 && c.sample_rate != 48000) && w == (WarningView {
                field: "tts.sample_rate"@,
                message: "采样率 "@ + text::decimal(c.sample_rate as nat) + " 不在常见列表中: [16000, 24000, 48000]"@,
                severity: Severity::Warning,
            })
            ||| (c.temperature.value.less(F64 { bits: 0 }) || (F64 { bits: 0x3ff0_0000_0000_0000 }).less(c.temperature.value)) && w == (WarningView {
                field: "tts.temperature"@,
                message: "值 "@ + c.temperature.text@ + " 超出范围 [0, 1]"@,
                severity: Severity::Error,
            })
            ||| (c.stability.value.less(F64 { bits: 0 }) || (F64 { bits: 0x3ff0_0000_0000_0000 }).less(c.stability.value)) && w == (WarningView {
                field: "tts.stability"@,
                message: "值 "@ + c.stability.text@ + " 超出范围 [0, 1]"@,
                severity: Severity::Error,
            })
            ||| (c.eq_high_shelf_db.value.less(F64 { bits: 0xc028_0000_0000_0000 }) || (F64 { bits: 0 }).less(c.eq_high_shelf_db.value)) && w == (WarningView {
                field: "tts.eq_high_shelf_db"@,
                message: "EQ 衰减 "@ + c.eq_high_shelf_db.text@ + " dB 超出推荐范围 [-12, 0]"@,
                severity: Severity::Warning,
            })
            ||| (c.parallel_tasks == 0) && w == (WarningView {
                field: "tts.parallel_tasks"@,
                message: "并行任务数为 0，将无法合成"@,
                severity: Severity::Error,
            })
            ||| (c.parallel_tasks > 16) && w == (WarningView {
                field: "tts.parallel_tasks"@,
                message: "并行任务数 "@ + text::decimal(c.parallel_tasks as nat) + " 过高，可能导致内存不足（推荐 ≤ 16）"@,
                severity: Severity::Warning,
            })
            ||| (c.crossfade_duration_ms > 500) && w == (WarningView {
                field: "tts.crossfade_duration_ms"@,
                message: "交叉淡入淡出 "@ + text::decimal(c.crossfade_duration_ms as nat) + "ms 过长，可能导致拼接不自然（推荐 ≤ 100ms）"@,
                severity: Severity::Warning,
            })
        },
{
    lemma_found_in_parts();
}

/// What is found on translation: these findings and no others.
pub proof fn law_translation_findings(c: TranslationConfig, w: WarningView)
    ensures
        translation_findings(c).contains(w) <==> {
            ||| (c.batch_size == 0) && w == (WarningView {
                field: "translation.batch_size"@,
                message: "批量大小为 0"@,
                severity: Severity::Error,
            })
            ||| (c.batch_size > 50) && w == (WarningView {
                field: "translation.batch_size"@,
                message: "批量大小 "@ + text::decimal(c.batch_size as nat) + " 过大，可能导致 LLM 超时（推荐 ≤ 20）"@,
                severity: Severity::Warning,
            })
            ||| (c.max_tokens < 64) && w == (WarningView {
                field: "translation.max_tokens"@,
                message: "max_tokens="@ + text::decimal(c.max_tokens as nat) + " 过小，翻译可能被截断"@,
                severity: Severity::Error,
            })
            ||| (c.max_tokens > 4096) && w == (WarningView {
                field: "translation.max_tokens"@,
                message: "max_tokens="@ + text::decimal(c.max_tokens as nat) + " 过大，可能导致内存问题（推荐 ≤ 2048）"@,
                severity: Severity::Warning,
            })
            ||| (c.temperature.value.less(F32 { bits: 0 }) || (F32 { bits: 0x4000_0000 }).less(c.temperature.value)) && w == (WarningView {
                field: "translation.temperature"@,
                message: "值 "@ + c.temperature.wide@ + " 超出范围 [0, 2]"@,
                severity: Severity::Error,
            })
            ||| (!(c.temperature.value.less(F32 { bits: 0 }) || (F32 { bits: 0x4000_0000 }).less(c.temperature.value)) && ((F32 { bits: 0x3f33_3333 }).less(c.temperature.value))) && w == (WarningView {
                field: "translation.temperature"@,
                message: "温度 "@ + c.temperature.text@ + " 偏高，翻译可能不够稳定（推荐 ≤ 0.5）"@,
                severity: Severity::Info,
            })
            ||| (c.dlx_timeout_secs < 3) && w == (WarningView {
                field: "translation.dlx_timeout_secs"@,
                message: "超时 "@ + text::decimal(c.dlx_timeout_secs as nat) + "s 过短，可能导致请求失败"@,
                severity: Severity::Warning,
            })
            ||| (!c.prefer_online && !c.fallback_on_error) && w == (WarningView {
                field: "translation"@,
                message: "prefer_online=false 且 fallback_on_error=false：没有可用的翻译后端！"@,
                severity: Severity::Error,
            })
            ||| (c.translation_mode == TranslationMode::Srt && c.batch_size > 30) && w == (WarningView {
                field: "translation"@,
                message: "SRT 模式下 batch_size 过大，可能导致 LLM 上下文溢出"@,
                severity: Severity::Warning,
            })
        },
{
    lemma_found_in_parts();
}

/// What is found on the pipeline: these findings and no others.
pub proof fn law_pipeline_findings(c: PipelineConfig, w: WarningView)
    ensures
        pipeline_findings(c).contains(w) <==> {
            ||| (c.segment_duration_secs.value.less(F64 { bits: 0x4014_0000_0000_0000 })) && w == (WarningView {
                field: "pipeline.segment_duration_secs"@,
                message: "分割时长 "@ + c.segment_duration_secs.text@ + "s 过短，碎片化严重"@,
                severity: Severity::Warning,
            })
            ||| ((F64 { bits: 0x405e_0000_0000_0000 }).less(c.segment_duration_secs.value)) && w == (WarningView {
                field: "pipeline.segment_duration_secs"@,
                message: "分割时长 "@ + c.segment_duration_secs.text@ + "s 过长，ASR 内存压力大"@,
                severity: Severity::Warning,
            })
            ||| (c.channel_capacity == 0) && w == (WarningView {
                field: "pipeline.channel_capacity"@,
                message: "通道容量为 0，流水线将死锁"@,
                severity: Severity::Error,
            })
            ||| (0 < c.channel_capacity && c.channel_capacity < 10) && w == (WarningView {
                field: "pipeline.channel_capacity"@,
                message: "通道容量 "@ + text::decimal(c.channel_capacity as nat) + " 过小，背压频繁"@,
                severity: Severity::Warning,
            })
        },
{
    lemma_found_in_parts();
}

/// What is found on voice cloning: these findings and no others.
pub proof fn law_cloning_findings(c: CloningConfig, w: WarningView)
    ensures
        cloning_findings(c).contains(w) <==> {
            ||| (c.enabled && !(c.engine@ == "gpt-sovits"@ || c.engine@ == "indextts"@ || c.engine@ == "subprocess"@ || c.engine@ == "subprocess-persistent"@ || c.engine@ == "python-qwen-tts"@ || c.engine@ == "neutts"@ || c.engine@ == "vibevoice"@)) && w == (WarningView {
                field: "cloning.engine"@,
                message: "引擎 '"@ + c.engine@ + "' 不在已知列表中: [\"gpt-sovits\", \"indextts\", \"subprocess\", \"subprocess-persistent\", \"python-qwen-tts\", \"neutts\", \"vibevoice\"]"@,
                severity: Severity::Warning,
            })
            ||| (c.enabled && (c.engine@ == "subprocess"@ || c.engine@ == "subprocess-persistent"@ || c.engine@ == "python-qwen-tts"@) && c.clone_command is None) && w == (WarningView {
                field: "cloning.clone_command"@,
                message: "子进程引擎未设置 clone_command"@,
                severity: Severity::Error,
            })
            ||| (c.enabled && (c.engine@ == "subprocess"@ || c.engine@ == "subprocess-persistent"@ || c.engine@ == "python-qwen-tts"@) && c.clone_args@.len() == 0) && w == (WarningView {
                field: "cloning.clone_args"@,
                message: "子进程引擎未设置 clone_args"@,
                severity: Severity::Error,
            })
            ||| (c.enabled && c.clone_timeout_secs < 30) && w == (WarningView {
                field: "cloning.clone_timeout_secs"@,
                message: "克隆超时 "@ + text::decimal(c.clone_timeout_secs as nat) + "s 过短"@,
                severity: Severity::Warning,
            })
            ||| (c.enabled && c.engine@ == "gpt-sovits"@ && c.api_url@.len() == 0) && w == (WarningView {
                field: "cloning.api_url"@,
                message: "GPT-SoVITS API URL 为空"@,
                severity: Severity::Error,
            })
            ||| (c.enabled && c.engine@ == "gpt-sovits"@ && (c.prompt_text matches Some(t) && t@.len() == 0)) && w == (WarningView {
                field: "cloning.prompt_text"@,
                message: "prompt_text 设为空字符串"@,
                severity: Severity::Warning,
            })
            ||| (c.enabled && (c.temperature.value.less(F32 { bits: 0 }) || (F32 { bits: 0x4000_0000 }).less(c.temperature.value))) && w == (WarningView {
                field: "cloning.temperature"@,
                message: "温度 "@ + c.temperature.text@ + " 超出 [0, 2]"@,
                severity: Severity::Error,
            })
            ||| (c.enabled && (c.top_p.value.less(F32 { bits: 0 }) || (F32 { bits: 0x3f80_0000 }).less(c.top_p.value))) && w == (WarningView {
                field: "cloning.top_p"@,
                message: "top_p "@ + c.top_p.text@ + " 超出 [0, 1]"@,
                severity: Severity::Error,
            })
            ||| (c.enabled && (c.repetition_penalty.value.less(F32 { bits: 0x3f80_0000 }) || (F32 { bits: 0x4000_0000 }).less(c.repetition_penalty.value))) && w == (WarningView {
                field: "cloning.repetition_penalty"@,
                message: "repetition_penalty "@ + c.repetition_penalty.text@ + " 超出推荐 [1.0, 2.0]"@,
                severity: Severity::Warning,
            })
        },
{
    lemma_found_in_parts();
}

/// What is found on batches: these findings and no others.
pub proof fn law_batch_findings(c: BatchConfig, w: WarningView)
    ensures
        batch_findings(c).contains(w) <==> {
            ||| (c.max_concurrent == 0) && w == (WarningView {
                field: "batch.max_concurrent"@,
                message: "最大并发为 0"@,
                severity: Severity::Error,
            })
            ||| (c.memory_threshold.value.less(F64 { bits: 0x4049_0000_0000_0000 }) || (F64 { bits: 0x4057_c000_0000_0000 }).less(c.memory_threshold.value)) && w == (WarningView {
                field: "batch.memory_threshold"@,
                message: "内存阈值 "@ + c.memory_threshold.text@ + " 超出推荐 [50, 95]"@,
                severity: Severity::Warning,
            })
        },
{
    lemma_found_in_parts();
}

/// What is found on speech and picture: these findings and no others.
pub proof fn law_audio_sync_findings(c: AudioSyncConfig, w: WarningView)
    ensures
        audio_sync_findings(c).contains(w) <==> {
            ||| (c.max_speed_ratio.value.less(F32 { bits: 0x3f80_0000 }) || (F32 { bits: 0x4000_0000 }).less(c.max_speed_ratio.value)) && w == (WarningView {
                field: "audio_sync.max_speed_ratio"@,
                message: "加速上限 "@ + c.max_speed_ratio.text@ + " 超出 [1.0, 2.0]"@,
                severity: Severity::Error,
            })
            ||| (c.mode == AudioSyncMode::SpeedUp && ((F32 { bits: 0x4000_0000 }).less(c.max_speed_ratio.value))) && w == (WarningView {
                field: "audio_sync"@,
                message: "SpeedUp 模式下加速 > 2.0 会严重失真"@,
                severity: Severity::Warning,
            })
        },
{
    lemma_found_in_parts();
}

/// What is found on the alignment of sound and picture: these findings and no others.
pub proof fn law_speed_rate_findings(c: SpeedRateConfigField, w: WarningView)
    ensures
        speed_rate_findings(c).contains(w) <==> {
            ||| (c.enabled && (c.max_audio_speed.value.less(F64 { bits: 0x3ff0_0000_0000_0000 }) || (F64 { bits: 0x4000_0000_0000_0000 }).less(c.max_audio_speed.value))) && w == (WarningView {
                field: "speed_rate.max_audio_speed"@,
                message: "最大音频加速 "@ + c.max_audio_speed.text@ + " 超出 [1.0, 2.0]"@,
                severity: Severity::Error,
            })
            ||| (c.enabled && (c.max_video_slow.value.less(F64 { bits: 0x3ff0_0000_0000_0000 }) || (F64 { bits: 0x4008_0000_0000_0000 }).less(c.max_video_slow.value))) && w == (WarningView {
                field: "speed_rate.max_video_slow"@,
                message: "最大视频慢放 "@ + c.max_video_slow.text@ + " 超出 [1.0, 3.0]"@,
                severity: Severity::Error,
            })
        },
{
    lemma_found_in_parts();
}

/// What is found on caches: these findings and no others.
pub proof fn law_cache_findings(c: CacheConfig, w: WarningView)
    ensures
        cache_findings(c).contains(w) <==> {
            ||| (c.retention_days == 0) && w == (WarningView {
                field: "cache.retention_days"@,
                message: "保留天数为 0，缓存不会被清理"@,
                severity: Severity::Info,
            })
            ||| (c.retention_days > 365) && w == (WarningView {
                field: "cache.retention_days"@,
                message: "保留天数 "@ + text::decimal(c.retention_days as nat) + " 过长，磁盘可能不足"@,
                severity: Severity::Warning,
            })
        },
{
    lemma_found_in_parts();
}

/// What is found on the choice of reference audio: these findings and no others.
pub proof fn law_voice_extractor_findings(c: VoiceExtractorConfig, w: WarningView)
    ensures
        voice_extractor_findings(c).contains(w) <==> {
            ||| (c.max_duration_secs.value.at_most(c.min_duration_secs.value)) && w == (WarningView {
                field: "cloning.voice_extractor"@,
                message: "min_duration("@ + c.min_duration_secs.text@ + ") >= max_duration("@ + c.max_duration_secs.text@ + ")"@,
                severity: Severity::Error,
            })
            ||| ((F64 { bits: 0xc034_0000_0000_0000 }).less(c.silence_threshold_db.value)) && w == (WarningView {
                field: "cloning.voice_extractor.silence_threshold_db"@,
                message: "静音阈值 "@ + c.silence_threshold_db.text@ + " dB 过高，可能误判语音为静音"@,
                severity: Severity::Warning,
            })
            ||| (c.target_rms_db.value.less(F64 { bits: 0xc03e_0000_0000_0000 }) || (F64 { bits: 0xc024_0000_0000_0000 }).less(c.target_rms_db.value)) && w == (WarningView {
                field: "cloning.voice_extractor.target_rms_db"@,
                message: "目标 RMS "@ + c.target_rms_db.text@ + " dBFS 超出推荐 [-30, -10]"@,
                severity: Severity::Warning,
            })
        },
{
    lemma_found_in_parts();
}

/// What is found on the post-processing of subtitles: these findings and no others.
pub proof fn law_subtitle_postprocess_findings(c: SubtitlePostProcessConfigField, w: WarningView)
    ensures
        subtitle_postprocess_findings(c).contains(w) <==> {
            ||| (c.max_duration.value.at_most(c.min_duration.value)) && w == (WarningView {
                field: "subtitle_postprocess"@,
                message: "min_duration("@ + c.min_duration.text@ + ") >= max_duration("@ + c.max_duration.text@ + ")"@,
                severity: Severity::Error,
            })
            ||| ((F64 { bits: 0x4014_0000_0000_0000 }).less(c.merge_gap_threshold.value)) && w == (WarningView {
                field: "subtitle_postprocess.merge_gap_threshold"@,
                message: "合并间隙 "@ + c.merge_gap_threshold.text@ + "s 过大"@,
                severity: Severity::Warning,
            })
        },
{
    lemma_found_in_parts();
}

/// What is found on subtitles: these findings and no others.
pub proof fn law_subtitle_findings(c: SubtitleConfig)
    ensures
        subtitle_findings(c).len() == 0,
{
}

/// What is found on background music: these findings and no others.
pub proof fn law_background_music_findings(c: BackgroundMusicConfig, path_exists: bool, w: WarningView)
    ensures
        background_music_findings(c, path_exists).contains(w) <==> {
            ||| (c.path is Some && !path_exists) && w == (WarningView {
                field: "background_music.path"@,
                message: "背景音乐文件不存在: "@ + given(c.path),
                severity: Severity::Warning,
            })
            ||| (c.volume.value.less(F32 { bits: 0 }) || (F32 { bits: 0x3f80_0000 }).less(c.volume.value)) && w == (WarningView {
                field: "background_music.volume"@,
                message: "音量 "@ + c.volume.text@ + " 超出 [0, 1]"@,
                severity: Severity::Error,
            })
        },
{
    lemma_found_in_parts();
}

/// What is found on checkpoints: these findings and no others.
pub proof fn law_checkpoint_findings(c: CheckpointConfig, w: WarningView)
    ensures
        checkpoint_findings(c).contains(w) <==> {
            ||| (c.enabled && c.retention_days == 0) && w == (WarningView {
                field: "checkpoint.retention_days"@,
                message: "保留天数为 0，检查点不会被清理"@,
                severity: Severity::Info,
            })
        },
{
    lemma_found_in_parts();
}

/// What is found on profiling: these findings and no others.
pub proof fn law_performance_findings(c: PerformanceConfig)
    ensures
        performance_findings(c).len() == 0,
{
}

/// What is found on settings that concern each other: these findings and no others.
pub proof fn law_cross_module_findings(c: Config, w: WarningView)
    ensures
        cross_module_findings(c).contains(w) <==> {
            ||| (c.cloning.enabled && c.tts.engine@ == "say"@) && w == (WarningView {
                field: "cross_module"@,
                message: "cloning.enabled=true 但 tts.engine='say'：克隆将被使用，TTS 引擎配置可能多余"@,
                severity: Severity::Info,
            })
            ||| (c.max_concurrent_tasks > c.pipeline.channel_capacity) && w == (WarningView {
                field: "cross_module"@,
                message: "max_concurrent_tasks("@ + text::decimal(c.max_concurrent_tasks as nat) + ") > channel_capacity("@ + text::decimal(c.pipeline.channel_capacity as nat) + ")：可能导致背压"@,
                severity: Severity::Warning,
            })
            ||| (c.speed_rate.enabled && c.audio_sync.mode != AudioSyncMode::SpeedUp) && w == (WarningView {
                field: "cross_module"@,
                message: "speed_rate 和 audio_sync 同时启用：两者都会修改音频时长，可能冲突"@,
                severity: Severity::Warning,
            })
            ||| (c.cloning.enabled && c.cloning.clone_timeout_secs > 0 && c.tts.parallel_tasks * 200 > 4000) && w == (WarningView {
                field: "cross_module"@,
                message: "TTS 并行 "@ + text::decimal(c.tts.parallel_tasks as nat) + " × 克隆 ~200MB ≈ "@ + text::decimal((c.tts.parallel_tasks * 200) as nat) + "MB 内存"@,
                severity: Severity::Warning,
            })
        },
{
    lemma_found_in_parts();
}

/// Each finding comes from one of the parts of the settings, and all that a part gives is found.
pub proof fn law_findings_of_all_parts(c: Config, music_exists: bool, w: WarningView)
    ensures
        findings(c, music_exists).contains(w) <==> {
            ||| asr_findings(c.asr).contains(w)
            ||| tts_findings(c.tts).contains(w)
            ||| translation_findings(c.translation).contains(w)
            ||| pipeline_findings(c.pipeline).contains(w)
            ||| cloning_findings(c.cloning).contains(w)
            ||| batch_findings(c.batch).contains(w)
            ||| audio_sync_findings(c.audio_sync).contains(w)
            ||| speed_rate_findings(c.speed_rate).contains(w)
            ||| cache_findings(c.cache).contains(w)
            ||| voice_extractor_findings(c.cloning.voice_extractor).contains(w)
            ||| subtitle_postprocess_findings(c.subtitle_postprocess).contains(w)
            ||| subtitle_findings(c.subtitle).contains(w)
            ||| background_music_findings(c.background_music, music_exists).contains(w)
            ||| checkpoint_findings(c.checkpoint).contains(w)
            ||| performance_findings(c.performance).contains(w)
            ||| cross_module_findings(c).contains(w)
        },
{
    lemma_found_in_parts();
}

/// A finding of this severity is reported at `level`.
pub open spec fn reported(level: ValidationLevel, severity: Severity) -> bool {
    match level {
        ValidationLevel::Lenient => severity == Severity::Error,
        ValidationLevel::Standard => severity != Severity::Info,
        ValidationLevel::Strict => true,
    }
}

/// Those of `list` that are reported at `level`, in order.
pub open spec fn at_level(list: Seq<WarningView>, level: ValidationLevel) -> Seq<WarningView> {
    list.filter(|w: WarningView| reported(level, w.severity))
}

fn is_reported(level: ValidationLevel, severity: Severity) -> (r: bool)
    ensures
        r == reported(level, severity),
{
    match level {
        ValidationLevel::Lenient => severity == Severity::Error,
        ValidationLevel::Standard => severity != Severity::Info,
        ValidationLevel::Strict => true,
    }
}

fn extend(out: &mut Vec<ValidationWarning>, more: Vec<ValidationWarning>)
    ensures
        warning_views(final(out)@) == warning_views(old(out)@) + warning_views(more@),
{
    let mut more = more;
    let ghost added = more@;
    out.append(&mut more);
    assert(warning_views(out@) =~= warning_views(old(out)@) + warning_views(added));
}

fn select(list: Vec<ValidationWarning>, level: ValidationLevel) -> (r: Vec<ValidationWarning>)
    ensures
        warning_views(r@) == at_level(warning_views(list@), level),
{
    let ghost all = warning_views(list@);
    let ghost keep = |w: WarningView| reported(level, w.severity);
    let mut out: Vec<ValidationWarning> = Vec::new();
    assert(all.take(0).filter(keep) =~= Seq::empty()) by {
        reveal(Seq::filter);
    }
    assert(warning_views(out@) =~= Seq::empty());
    for w in it: list
        invariant
            it.seq() == list@,
            all == warning_views(list@),
            keep == (|w: WarningView| reported(level, w.severity)),
            warning_views(out@) == all.take(it.index() as int).filter(keep),
    {
        let ghost before = warning_views(out@);
        proof {
            reveal(Seq::filter);
            assert(all.take(it.index() + 1).drop_last() == all.take(it.index() as int));
            assert(all.take(it.index() + 1).last() == w@);
        }
        if is_reported(level, w.severity) {
            out.push(w);
            assert(warning_views(out@) =~= before.push(w@));
        }
    }
    assert(all.take(all.len() as int) == all);
    out
}

/// Checks the settings. `music_exists` says whether the file of the background music is there.
pub fn validate_config(config: &Config, level: ValidationLevel, music_exists: bool) -> (r: Vec<
    ValidationWarning,
>)
    requires
        config.cloning.enabled && config.cloning.clone_timeout_secs > 0
            ==> config.tts.parallel_tasks * 200 <= usize::MAX,
    ensures
        warning_views(r@) == at_level(findings(*config, music_exists), level),
{
    let mut all = validate_asr(&config.asr);
    extend(&mut all, validate_tts(&config.tts));
    extend(&mut all, validate_translation(&config.translation));
    extend(&mut all, validate_pipeline(&config.pipeline));
    extend(&mut all, validate_cloning(&config.cloning));
    extend(&mut all, validate_batch(&config.batch));
    extend(&mut all, validate_audio_sync(&config.audio_sync));
    extend(&mut all, validate_speed_rate(&config.speed_rate));
    extend(&mut all, validate_cache(&config.cache));
    extend(&mut all, validate_voice_extractor(&config.cloning.voice_extractor));
    extend(&mut all, validate_subtitle_postprocess(&config.subtitle_postprocess));
    extend(&mut all, validate_subtitle(&config.subtitle));
    extend(&mut all, validate_background_music(&config.background_music, music_exists));
    extend(&mut all, validate_checkpoint(&config.checkpoint));
    extend(&mut all, validate_performance(&config.performance));
    extend(&mut all, validate_cross_module(config));
    select(all, level)
}

/// Which findings are reported: the lenient level reports errors, the standard one errors and warnings,
/// and the strict one all.
pub proof fn law_levels(list: Seq<WarningView>)
    ensures
        at_level(list, ValidationLevel::Lenient) == list.filter(
            |w: WarningView| w.severity is Error,
        ),
        at_level(list, ValidationLevel::Standard) == list.filter(
            |w: WarningView| w.severity is Error || w.severity is Warning,
        ),
        at_level(list, ValidationLevel::Strict) == list,
    decreases list.len(),
{
    reveal(Seq::filter);
    if list.len() > 0 {
        law_levels(list.drop_last());
        assert(list.drop_last().push(list.last()) =~= list);
    }
}

/// The findings as values stand in the places of the findings.
pub proof fn law_warning_views(list: Seq<ValidationWarning>, i: int)
    ensures
        warning_views(list).len() == list.len(),
        0 <= i < list.len() ==> {
            let w = warning_views(list)[i];
            w.field == list[i].field@ && w.message == list[i].message@ && w.severity
                == list[i].severity
        },
{
}

/// What a level reports, the stricter levels report too: the lenient findings are the standard ones
/// that the lenient level reports, and the standard ones are those of the strict ones.
pub proof fn law_levels_nested(list: Seq<WarningView>)
    ensures
        at_level(list, ValidationLevel::Strict) == list,
        at_level(at_level(list, ValidationLevel::Standard), ValidationLevel::Lenient) == at_level(
            list,
            ValidationLevel::Lenient,
        ),
    decreases list.len(),
{
    reveal(Seq::filter);
    if list.len() > 0 {
        law_levels_nested(list.drop_last());
        assert(list =~= list.drop_last().push(list.last()));
        let standard = |w: WarningView| reported(ValidationLevel::Standard, w.severity);
        let rest = list.drop_last().filter(standard);
        assert(rest.push(list.last()).drop_last() =~= rest);
    }
}

/// The path names a setting.
pub open spec fn known_field(path: Seq<char>) -> bool {
    ||| path == "asr.model"@
    ||| path == "asr.use_metal"@
    ||| path == "asr.language"@
    ||| path == "tts.engine"@
    ||| path == "tts.speed"@
    ||| path == "tts.pitch"@
    ||| path == "tts.volume"@
    ||| path == "tts.voice_id"@
    ||| path == "tts.voice"@
    ||| path == "tts.sample_rate"@
    ||| path == "tts.device"@
    ||| path == "tts.cache_dir"@
    ||| path == "tts.parallel_tasks"@
    ||| path == "tts.model_variant"@
    ||| path == "tts.model_path"@
    ||| path == "tts.fallback_to_say"@
    ||| path == "tts.auto_voice_selection"@
    ||| path == "tts.seed"@
    ||| path == "tts.temperature"@
    ||| path == "tts.stability"@
    ||| path == "tts.eq_high_shelf_db"@
    ||| path == "tts.crossfade_duration_ms"@
    ||| path == "translation.glossary_path"@
    ||| path == "translation.batch_size"@
    ||| path == "translation.model_path"@
    ||| path == "translation.device"@
    ||| path == "translation.max_tokens"@
    ||| path == "translation.temperature"@
    ||| path == "translation.model_source"@
    ||| path == "translation.model_source.ModelScope"@
    ||| path == "translation.model_source.ModelScope.repo_id"@
    ||| path == "translation.model_source.ModelScope.revision"@
    ||| path == "translation.dlx_endpoint"@
    ||| path == "translation.dlx_timeout_secs"@
    ||| path == "translation.dlx_max_retries"@
    ||| path == "translation.prefer_online"@
    ||| path == "translation.fallback_on_error"@
    ||| path == "translation.health_check_interval_secs"@
    ||| path == "translation.force_glossary"@
    ||| path == "translation.post_correction_enabled"@
    ||| path == "translation.translation_mode"@
    ||| path == "pipeline.segment_duration_secs"@
    ||| path == "pipeline.channel_capacity"@
    ||| path == "pipeline.enable_vad_split"@
    ||| path == "diarization.enabled"@
    ||| path == "diarization.engine"@
    ||| path == "diarization.use_coreml"@
    ||| path == "cloning.enabled"@
    ||| path == "cloning.engine"@
    ||| path == "cloning.reference_audio_dir"@
    ||| path == "cloning.auto_extract_speaker"@
    ||| path == "cloning.api_url"@
    ||| path == "cloning.timeout_secs"@
    ||| path == "cloning.prompt_text"@
    ||| path == "cloning.prompt_lang"@
    ||| path == "cloning.text_lang"@
    ||| path == "cloning.text_split_method"@
    ||| path == "cloning.top_k"@
    ||| path == "cloning.top_p"@
    ||| path == "cloning.temperature"@
    ||| path == "cloning.repetition_penalty"@
    ||| path == "cloning.gpt_model"@
    ||| path == "cloning.sovits_model"@
    ||| path == "cloning.clone_command"@
    ||| path == "cloning.clone_model_path"@
    ||| path == "cloning.clone_args"@
    ||| path == "cloning.clone_timeout_secs"@
    ||| path == "cloning.voice_extractor.enable_enhancement"@
    ||| path == "cloning.voice_extractor.enable_silence_trim"@
    ||| path == "cloning.voice_extractor.enable_normalization"@
    ||| path == "cloning.voice_extractor.silence_threshold_db"@
    ||| path == "cloning.voice_extractor.target_rms_db"@
    ||| path == "cloning.voice_extractor.min_duration_secs"@
    ||| path == "cloning.voice_extractor.max_duration_secs"@
    ||| path == "cloning.voice_extractor.ideal_duration_secs"@
    ||| path == "batch.max_concurrent"@
    ||| path == "batch.memory_threshold"@
    ||| path == "batch.enable_priority"@
    ||| path == "checkpoint.enabled"@
    ||| path == "checkpoint.dir"@
    ||| path == "checkpoint.retention_days"@
    ||| path == "performance.enable_profiling"@
    ||| path == "performance.flamegraph_output"@
    ||| path == "audio_sync.mode"@
    ||| path == "audio_sync.max_speed_ratio"@
    ||| path == "subtitle_postprocess.min_duration"@
    ||| path == "subtitle_postprocess.max_duration"@
    ||| path == "subtitle_postprocess.merge_gap_threshold"@
    ||| path == "subtitle_postprocess.enable_fragment_redistribution"@
    ||| path == "speed_rate.enabled"@
    ||| path == "speed_rate.mode"@
    ||| path == "speed_rate.max_audio_speed"@
    ||| path == "speed_rate.max_video_slow"@
    ||| path == "cache.tts_cache_enabled"@
    ||| path == "cache.translation_cache_enabled"@
    ||| path == "cache.tts_remove_silence"@
    ||| path == "cache.retention_days"@
    ||| path == "subtitle.subtitle_type"@
    ||| path == "subtitle.output_dir"@
    ||| path == "background_music.path"@
    ||| path == "background_music.volume"@
    ||| path == "background_music.loop_bgm"@
    ||| path == "output_dir"@
    ||| path == "max_concurrent_tasks"@
}

/// Whether `path` names a setting.
pub fn is_known_field(path: &str) -> (r: bool)
    ensures
        r == known_field(path@),
        r <==> {
            ||| path@ == "asr.model"@
            ||| path@ == "asr.use_metal"@
            ||| path@ == "asr.language"@
            ||| path@ == "tts.engine"@
            ||| path@ == "tts.speed"@
            ||| path@ == "tts.pitch"@
            ||| path@ == "tts.volume"@
            ||| path@ == "tts.voice_id"@
            ||| path@ == "tts.voice"@
            ||| path@ == "tts.sample_rate"@
            ||| path@ == "tts.device"@
            ||| path@ == "tts.cache_dir"@
            ||| path@ == "tts.parallel_tasks"@
            ||| path@ == "tts.model_variant"@
            ||| path@ == "tts.model_path"@
            ||| path@ == "tts.fallback_to_say"@
            ||| path@ == "tts.auto_voice_selection"@
            ||| path@ == "tts.seed"@
            ||| path@ == "tts.temperature"@
            ||| path@ == "tts.stability"@
            ||| path@ == "tts.eq_high_shelf_db"@
            ||| path@ == "tts.crossfade_duration_ms"@
            ||| path@ == "translation.glossary_path"@
            ||| path@ == "translation.batch_size"@
            ||| path@ == "translation.model_path"@
            ||| path@ == "translation.device"@
            ||| path@ == "translation.max_tokens"@
            ||| path@ == "translation.temperature"@
            ||| path@ == "translation.model_source"@
            ||| path@ == "translation.model_source.ModelScope"@
            ||| path@ == "translation.model_source.ModelScope.repo_id"@
            ||| path@ == "translation.model_source.ModelScope.revision"@
            ||| path@ == "translation.dlx_endpoint"@
            ||| path@ == "translation.dlx_timeout_secs"@
            ||| path@ == "translation.dlx_max_retries"@
            ||| path@ == "translation.prefer_online"@
            ||| path@ == "translation.fallback_on_error"@
            ||| path@ == "translation.health_check_interval_secs"@
            ||| path@ == "translation.force_glossary"@
            ||| path@ == "translation.post_correction_enabled"@
            ||| path@ == "translation.translation_mode"@
            ||| path@ == "pipeline.segment_duration_secs"@
            ||| path@ == "pipeline.channel_capacity"@
            ||| path@ == "pipeline.enable_vad_split"@
            ||| path@ == "diarization.enabled"@
            ||| path@ == "diarization.engine"@
            ||| path@ == "diarization.use_coreml"@
            ||| path@ == "cloning.enabled"@
            ||| path@ == "cloning.engine"@
            ||| path@ == "cloning.reference_audio_dir"@
            ||| path@ == "cloning.auto_extract_speaker"@
            ||| path@ == "cloning.api_url"@
            ||| path@ == "cloning.timeout_secs"@
            ||| path@ == "cloning.prompt_text"@
            ||| path@ == "cloning.prompt_lang"@
            ||| path@ == "cloning.text_lang"@
            ||| path@ == "cloning.text_split_method"@
            ||| path@ == "cloning.top_k"@
            ||| path@ == "cloning.top_p"@
            ||| path@ == "cloning.temperature"@
            ||| path@ == "cloning.repetition_penalty"@
            ||| path@ == "cloning.gpt_model"@
            ||| path@ == "cloning.sovits_model"@
            ||| path@ == "cloning.clone_command"@
            ||| path@ == "cloning.clone_model_path"@
            ||| path@ == "cloning.clone_args"@
            ||| path@ == "cloning.clone_timeout_secs"@
            ||| path@ == "cloning.voice_extractor.enable_enhancement"@
            ||| path@ == "cloning.voice_extractor.enable_silence_trim"@
            ||| path@ == "cloning.voice_extractor.enable_normalization"@
            ||| path@ == "cloning.voice_extractor.silence_threshold_db"@
            ||| path@ == "cloning.voice_extractor.target_rms_db"@
            ||| path@ == "cloning.voice_extractor.min_duration_secs"@
            ||| path@ == "cloning.voice_extractor.max_duration_secs"@
            ||| path@ == "cloning.voice_extractor.ideal_duration_secs"@
            ||| path@ == "batch.max_concurrent"@
            ||| path@ == "batch.memory_threshold"@
            ||| path@ == "batch.enable_priority"@
            ||| path@ == "checkpoint.enabled"@
            ||| path@ == "checkpoint.dir"@
            ||| path@ == "checkpoint.retention_days"@
            ||| path@ == "performance.enable_profiling"@
            ||| path@ == "performance.flamegraph_output"@
            ||| path@ == "audio_sync.mode"@
            ||| path@ == "audio_sync.max_speed_ratio"@
            ||| path@ == "subtitle_postprocess.min_duration"@
            ||| path@ == "subtitle_postprocess.max_duration"@
            ||| path@ == "subtitle_postprocess.merge_gap_threshold"@
            ||| path@ == "subtitle_postprocess.enable_fragment_redistribution"@
            ||| path@ == "speed_rate.enabled"@
            ||| path@ == "speed_rate.mode"@
            ||| path@ == "speed_rate.max_audio_speed"@
            ||| path@ == "speed_rate.max_video_slow"@
            ||| path@ == "cache.tts_cache_enabled"@
            ||| path@ == "cache.translation_cache_enabled"@
            ||| path@ == "cache.tts_remove_silence"@
            ||| path@ == "cache.retention_days"@
            ||| path@ == "subtitle.subtitle_type"@
            ||| path@ == "subtitle.output_dir"@
            ||| path@ == "background_music.path"@
            ||| path@ == "background_music.volume"@
            ||| path@ == "background_music.loop_bgm"@
            ||| path@ == "output_dir"@
            ||| path@ == "max_concurrent_tasks"@
        },
{
    same_text(path, "asr.model")
        || same_text(path, "asr.use_metal")
        || same_text(path, "asr.language")
        || same_text(path, "tts.engine")
        || same_text(path, "tts.speed")
        || same_text(path, "tts.pitch")
        || same_text(path, "tts.volume")
        || same_text(path, "tts.voice_id")
        || same_text(path, "tts.voice")
        || same_text(path, "tts.sample_rate")
        || same_text(path, "tts.device")
        || same_text(path, "tts.cache_dir")
        || same_text(path, "tts.parallel_tasks")
        || same_text(path, "tts.model_variant")
        || same_text(path, "tts.model_path")
        || same_text(path, "tts.fallback_to_say")
        || same_text(path, "tts.auto_voice_selection")
        || same_text(path, "tts.seed")
        || same_text(path, "tts.temperature")
        || same_text(path, "tts.stability")
        || same_text(path, "tts.eq_high_shelf_db")
        || same_text(path, "tts.crossfade_duration_ms")
        || same_text(path, "translation.glossary_path")
        || same_text(path, "translation.batch_size")
        || same_text(path, "translation.model_path")
        || same_text(path, "translation.device")
        || same_text(path, "translation.max_tokens")
        || same_text(path, "translation.temperature")
        || same_text(path, "translation.model_source")
        || same_text(path, "translation.model_source.ModelScope")
        || same_text(path, "translation.model_source.ModelScope.repo_id")
        || same_text(path, "translation.model_source.ModelScope.revision")
        || same_text(path, "translation.dlx_endpoint")
        || same_text(path, "translation.dlx_timeout_secs")
        || same_text(path, "translation.dlx_max_retries")
        || same_text(path, "translation.prefer_online")
        || same_text(path, "translation.fallback_on_error")
        || same_text(path, "translation.health_check_interval_secs")
        || same_text(path, "translation.force_glossary")
        || same_text(path, "translation.post_correction_enabled")
        || same_text(path, "translation.translation_mode")
        || same_text(path, "pipeline.segment_duration_secs")
        || same_text(path, "pipeline.channel_capacity")
        || same_text(path, "pipeline.enable_vad_split")
        || same_text(path, "diarization.enabled")
        || same_text(path, "diarization.engine")
        || same_text(path, "diarization.use_coreml")
        || same_text(path, "cloning.enabled")
        || same_text(path, "cloning.engine")
        || same_text(path, "cloning.reference_audio_dir")
        || same_text(path, "cloning.auto_extract_speaker")
        || same_text(path, "cloning.api_url")
        || same_text(path, "cloning.timeout_secs")
        || same_text(path, "cloning.prompt_text")
        || same_text(path, "cloning.prompt_lang")
        || same_text(path, "cloning.text_lang")
        || same_text(path, "cloning.text_split_method")
        || same_text(path, "cloning.top_k")
        || same_text(path, "cloning.top_p")
        || same_text(path, "cloning.temperature")
        || same_text(path, "cloning.repetition_penalty")
        || same_text(path, "cloning.gpt_model")
        || same_text(path, "cloning.sovits_model")
        || same_text(path, "cloning.clone_command")
        || same_text(path, "cloning.clone_model_path")
        || same_text(path, "cloning.clone_args")
        || same_text(path, "cloning.clone_timeout_secs")
        || same_text(path, "cloning.voice_extractor.enable_enhancement")
        || same_text(path, "cloning.voice_extractor.enable_silence_trim")
        || same_text(path, "cloning.voice_extractor.enable_normalization")
        || same_text(path, "cloning.voice_extractor.silence_threshold_db")
        || same_text(path, "cloning.voice_extractor.target_rms_db")
        || same_text(path, "cloning.voice_extractor.min_duration_secs")
        || same_text(path, "cloning.voice_extractor.max_duration_secs")
        || same_text(path, "cloning.voice_extractor.ideal_duration_secs")
        || same_text(path, "batch.max_concurrent")
        || same_text(path, "batch.memory_threshold")
        || same_text(path, "batch.enable_priority")
        || same_text(path, "checkpoint.enabled")
        || same_text(path, "checkpoint.dir")
        || same_text(path, "checkpoint.retention_days")
        || same_text(path, "performance.enable_profiling")
        || same_text(path, "performance.flamegraph_output")
        || same_text(path, "audio_sync.mode")
        || same_text(path, "audio_sync.max_speed_ratio")
        || same_text(path, "subtitle_postprocess.min_duration")
        || same_text(path, "subtitle_postprocess.max_duration")
        || same_text(path, "subtitle_postprocess.merge_gap_threshold")
        || same_text(path, "subtitle_postprocess.enable_fragment_redistribution")
        || same_text(path, "speed_rate.enabled")
        || same_text(path, "speed_rate.mode")
        || same_text(path, "speed_rate.max_audio_speed")
        || same_text(path, "speed_rate.max_video_slow")
        || same_text(path, "cache.tts_cache_enabled")
        || same_text(path, "cache.translation_cache_enabled")
        || same_text(path, "cache.tts_remove_silence")
        || same_text(path, "cache.retention_days")
        || same_text(path, "subtitle.subtitle_type")
        || same_text(path, "subtitle.output_dir")
        || same_text(path, "background_music.path")
        || same_text(path, "background_music.volume")
        || same_text(path, "background_music.loop_bgm")
        || same_text(path, "output_dir")
        || same_text(path, "max_concurrent_tasks")
}

/// No finding of the list is an error.
pub open spec fn no_errors(list: Seq<WarningView>) -> bool {
    forall|i: int| 0 <= i < list.len() ==> (#[trigger] list[i]).severity != Severity::Error
}

proof fn lemma_no_errors(list: Seq<WarningView>)
    requires
        no_errors(list),
    ensures
        at_level(list, ValidationLevel::Lenient) == Seq::<WarningView>::empty(),
    decreases list.len(),
{
    reveal(Seq::filter);
    if list.len() > 0 {
        assert(list.last() == list[list.len() - 1]);
        assert forall|i: int| 0 <= i < list.drop_last().len() implies (
        #[trigger] list.drop_last()[i]).severity != Severity::Error by {
            assert(list.drop_last()[i] == list[i]);
        }
        lemma_no_errors(list.drop_last());
    }
}

/// The default settings have no errors, on a machine with any number of cores.
pub proof fn law_default_has_no_errors(c: Config, cores: usize, music_exists: bool)
    requires
        cores > 0,
        c.is_default(Some(cores)),
    ensures
        at_level(findings(c, music_exists), ValidationLevel::Lenient)
            == Seq::<WarningView>::empty(),
{
    assert(no_errors(asr_findings(c.asr))) by {
        reveal_strlit("whisper-large-v3-turbo");
        let model = c.asr.model@;
        assert(text::trimmed_start(model) == model);
        assert(text::trimmed_end(model) == model);
    }
    assert(no_errors(cloning_findings(c.cloning))) by {
        reveal_strlit("indextts");
        reveal_strlit("subprocess");
        reveal_strlit("subprocess-persistent");
        reveal_strlit("python-qwen-tts");
        reveal_strlit("gpt-sovits");
        let engine = c.cloning.engine@;
        assert(engine.len() == 8);
        assert("subprocess"@.len() == 10 && "subprocess-persistent"@.len() == 21
            && "python-qwen-tts"@.len() == 15 && "gpt-sovits"@.len() == 10);
    }
    assert(no_errors(tts_findings(c.tts)));
    assert(no_errors(translation_findings(c.translation)));
    assert(no_errors(pipeline_findings(c.pipeline)));
    assert(no_errors(batch_findings(c.batch)));
    assert(no_errors(audio_sync_findings(c.audio_sync)));
    assert(no_errors(speed_rate_findings(c.speed_rate)));
    assert(no_errors(cache_findings(c.cache)));
    assert(no_errors(voice_extractor_findings(c.cloning.voice_extractor)));
    assert(no_errors(subtitle_postprocess_findings(c.subtitle_postprocess)));
    assert(no_errors(background_music_findings(c.background_music, music_exists)));
    assert(no_errors(checkpoint_findings(c.checkpoint)));
    assert(no_errors(cross_module_findings(c)));
    assert(no_errors(findings(c, music_exists)));
    lemma_no_errors(findings(c, music_exists));
}

/// The path of `key` inside `section`.
pub open spec fn full_path(section: Seq<char>, key: Seq<char>) -> Seq<char> {
    if section.len() == 0 {
        key
    } else {
        section + "."@ + key
    }
}

/// The line is blank or a comment.
pub open spec fn skipped(line: Seq<char>) -> bool {
    line.len() == 0 || line[0] == '#'
}

/// The line opens a section.
pub open spec fn is_header(line: Seq<char>) -> bool {
    line.len() >= 2 && line[0] == '[' && line.last() == ']'
}

/// The part of `line` before its first equals sign, where there is one.
pub open spec fn key_of(line: Seq<char>) -> Option<Seq<char>>
    decreases line.len(),
{
    if line.len() == 0 {
        None
    } else if line[0] == '=' {
        Some(Seq::empty())
    } else {
        match key_of(line.drop_first()) {
            Some(rest) => Some(seq![line[0]] + rest),
            None => None,
        }
    }
}

/// The section in force after `lines`: the name in the last header, empty where there is none.
pub open spec fn section_after(lines: Seq<Seq<char>>) -> Seq<char>
    decreases lines.len(),
{
    if lines.len() == 0 {
        Seq::empty()
    } else {
        let line = text::trimmed(lines.last());
        if !skipped(line) && is_header(line) {
            line.subrange(1, line.len() - 1)
        } else {
            section_after(lines.drop_last())
        }
    }
}

/// The field that `line` sets inside `section`.
pub open spec fn field_set(section: Seq<char>, line: Seq<char>) -> Option<Seq<char>> {
    let t = text::trimmed(line);
    if skipped(t) || is_header(t) {
        None
    } else {
        match key_of(t) {
            Some(key) => Some(full_path(section, text::trimmed(key))),
            None => None,
        }
    }
}

/// The finding on an unknown field.
pub open spec fn unknown(path: Seq<char>) -> WarningView {
    WarningView {
        field: path,
        message: "未知字段，可能是拼写错误或已废弃的配置项"@,
        severity: Severity::Warning,
    }
}

/// The findings on the unknown fields that `lines` set, in order.
pub open spec fn unknown_fields(lines: Seq<Seq<char>>) -> Seq<WarningView>
    decreases lines.len(),
{
    if lines.len() == 0 {
        Seq::empty()
    } else {
        let before = unknown_fields(lines.drop_last());
        match field_set(section_after(lines.drop_last()), lines.last()) {
            Some(path) => if known_field(path) {
                before
            } else {
                before.push(unknown(path))
            },
            None => before,
        }
    }
}

/// The position of the first equals sign of `line`, or its length.
fn find_equals(line: &Vec<char>) -> (r: usize)
    ensures
        r <= line@.len(),
        r < line@.len() ==> key_of(line@) == Some(line@.take(r as int)),
        r == line@.len() ==> key_of(line@) is None,
{
    let mut i: usize = 0;
    while i < line.len() && line[i] != '='
        invariant
            i <= line@.len(),
            forall|j: int| 0 <= j < i ==> line@[j] != '=',
        decreases line@.len() - i,
    {
        i += 1;
    }
    proof {
        lemma_key_of(line@, i as int);
    }
    i
}

proof fn lemma_key_of(line: Seq<char>, i: int)
    requires
        0 <= i <= line.len(),
        forall|j: int| 0 <= j < i ==> line[j] != '=',
        i < line.len() ==> line[i] == '=',
    ensures
        i < line.len() ==> key_of(line) == Some(line.take(i)),
        i == line.len() ==> key_of(line) is None,
    decreases line.len(),
{
    if line.len() > 0 {
        if i == 0 {
            assert(line.take(0) =~= Seq::empty());
        } else {
            assert forall|j: int| 0 <= j < i - 1 implies line.drop_first()[j] != '=' by {
                assert(line.drop_first()[j] == line[j + 1]);
            }
            lemma_key_of(line.drop_first(), i - 1);
            if i < line.len() {
                assert(line.take(i) =~= seq![line[0]] + line.drop_first().take(i - 1));
            }
        }
    }
}

/// A line in square brackets opens the section that they name.
pub proof fn law_header_opens_section(lines: Seq<Seq<char>>, line: Seq<char>, name: Seq<char>)
    requires
        text::trimmed(line) == seq!['['] + name + seq![']'],
    ensures
        section_after(lines.push(line)) == name,
        unknown_fields(lines.push(line)) == unknown_fields(lines),
{
    let t = text::trimmed(line);
    assert(lines.push(line).drop_last() =~= lines);
    assert(t[0] == '[' && t.last() == ']');
    assert(t.subrange(1, t.len() - 1) =~= name);
}

/// A line with an equals sign that is neither a comment nor a header sets the field named in front of
/// the first one, in the section in force; an unknown field is found with a warning, and a known one
/// is not.
pub proof fn law_unknown_field_is_found(
    lines: Seq<Seq<char>>,
    line: Seq<char>,
    key: Seq<char>,
    value: Seq<char>,
)
    requires
        text::trimmed(line) == key + seq!['='] + value,
        !key.contains('='),
        text::trimmed(line)[0] != '#',
        !(text::trimmed(line)[0] == '[' && text::trimmed(line).last() == ']'),
    ensures
        ({
            let section = section_after(lines);
            let path = if section.len() == 0 {
                text::trimmed(key)
            } else {
                section + seq!['.'] + text::trimmed(key)
            };
            &&& known_field(path) ==> unknown_fields(lines.push(line)) == unknown_fields(lines)
            &&& !known_field(path) ==> unknown_fields(lines.push(line)) == unknown_fields(lines).push(
                WarningView {
                    field: path,
                    message: "未知字段，可能是拼写错误或已废弃的配置项"@,
                    severity: Severity::Warning,
                },
            )
        }),
        section_after(lines.push(line)) == section_after(lines),
{
    let t = text::trimmed(line);
    assert(lines.push(line).drop_last() =~= lines);
    assert(t[key.len() as int] == '=');
    assert forall|j: int| 0 <= j < key.len() implies t[j] != '=' by {
        assert(t[j] == key[j]);
        assert(key.contains(key[j]));
    }
    lemma_key_of(t, key.len() as int);
    assert(t.take(key.len() as int) =~= key);
    reveal_strlit(".");
    assert("."@ =~= seq!['.']);
}

/// A blank line, a comment, and a line that is no header and has no equals sign say nothing.
pub proof fn law_other_lines_say_nothing(lines: Seq<Seq<char>>, line: Seq<char>)
    requires
        text::trimmed(line).len() == 0 || text::trimmed(line)[0] == '#' || (!text::trimmed(
            line,
        ).contains('=') && !(text::trimmed(line)[0] == '[' && text::trimmed(line).last() == ']')),
    ensures
        unknown_fields(Seq::empty()) == Seq::<WarningView>::empty(),
        section_after(Seq::empty()) == Seq::<char>::empty(),
        unknown_fields(lines.push(line)) == unknown_fields(lines),
        section_after(lines.push(line)) == section_after(lines),
{
    let t = text::trimmed(line);
    assert(lines.push(line).drop_last() =~= lines);
    if !t.contains('=') {
        lemma_key_of(t, t.len() as int);
    }
}

/// Finds the fields that `toml_content` sets and that no setting is named after.
pub fn detect_unknown_fields(toml_content: &str) -> (r: Vec<ValidationWarning>)
    ensures
        warning_views(r@) == unknown_fields(text::lines(toml_content@)),
{
    let list = split_lines(toml_content);
    let ghost all = text::contents(list@);
    let mut out: Vec<ValidationWarning> = Vec::new();
    let mut section = String::new();
    assert(warning_views(out@) =~= Seq::empty());
    let mut i: usize = 0;
    while i < list.len()
        invariant
            i <= list@.len(),
            all == text::contents(list@),
            section@ == section_after(all.take(i as int)),
            warning_views(out@) == unknown_fields(all.take(i as int)),
        decreases list@.len() - i,
    {
        proof {
            assert(all.take(i + 1).drop_last() == all.take(i as int));
            assert(all.take(i + 1).last() == list@[i as int]@);
        }
        let line = trim(&list[i]);
        i += 1;
        if line.is_empty() || line[0] == '#' {
            continue;
        }
        if line.len() >= 2 && line[0] == '[' && line[line.len() - 1] == ']' {
            section = string_of(&line, 1, line.len() - 1);
            continue;
        }
        let end = find_equals(&line);
        if end < line.len() {
            let mut key: Vec<char> = Vec::new();
            let mut k: usize = 0;
            while k < end
                invariant
                    k <= end <= line@.len(),
                    key@ == line@.take(k as int),
                decreases end - k,
            {
                key.push(line[k]);
                k += 1;
            }
            let name = trim(&key);
            let name = string_of(&name, 0, name.len());
            let path = if section.as_str().is_empty() {
                name
            } else {
                cat3(section.as_str(), ".", name.as_str())
            };
            assert(path@ =~= full_path(section@, text::trimmed(key@)));
            if !is_known_field(path.as_str()) {
                let ghost before = warning_views(out@);
                out.push(
                    ValidationWarning {
                        field: path,
                        message: "未知字段，可能是拼写错误或已废弃的配置项".to_owned(),
                        severity: Severity::Warning,
                    },
                );
                assert(warning_views(out@) =~= before.push(unknown(path@)));
            }
        }
    }
    assert(all.take(all.len() as int) == all);
    out
}

} // verus!
