//! Distilling a decoder of many steps into one of a single step: what it would take and what it would
//! bring.
use vstd::prelude::*;

use crate::ieee::{Double, F64};
use crate::text;
use crate::text::{cat3, cat5, decimal_text};

verus! {

/// The bit pattern of 1.0.
pub const ONE: u64 = 0x3ff0_0000_0000_0000;

/// The bit pattern of 0.6.
pub const GOOD_RTF: u64 = 0x3fe3_3333_3333_3333;

/// The bit pattern of 50.0.
pub const SCARCE_HOURS: u64 = 0x4049_0000_0000_0000;

/// The bit pattern of 100.0.
pub const FEW_HOURS: u64 = 0x4059_0000_0000_0000;

/// The bit pattern of 500.0.
pub const MANY_HOURS: u64 = 0x407f_4000_0000_0000;

/// The bit pattern of 0.0001.
pub const LEARNING_RATE: u64 = 0x3f1a_36e2_eb1c_432d;

/// The bit pattern of 0.999.
pub const EMA_DECAY: u64 = 0x3fef_f7ce_d916_872b;

/// How the times are drawn.
#[derive(Debug, Clone, Copy, PartialEq, Eq, Structural)]
pub enum TimeSampling {
    /// Evenly.
    Uniform,
    /// More often near the ends.
    Polynomial,
    /// By a logit-normal distribution.
    LogitNormal,
}

/// What is made small.
#[derive(Debug, Clone, Copy, PartialEq, Eq, Structural)]
pub enum DistillationLoss {
    /// The mean squared error.
    Mse,
    /// The mean absolute error.
    L1,
    /// The perceived difference.
    Perceptual,
    /// The mean squared error and the perceived difference.
    Combined,
}

/// The settings of the distillation.
#[derive(Debug, Clone, Copy)]
pub struct MeanFlowConfig {
    /// The steps of the teacher.
    pub teacher_steps: usize,
    /// The steps of the student.
    pub student_steps: usize,
    /// How the times are drawn.
    pub time_sampling: TimeSampling,
    /// What is made small.
    pub distillation_loss: DistillationLoss,
    /// The examples of a batch.
    pub batch_size: usize,
    /// The learning rate.
    pub learning_rate: F64,
    /// The iterations.
    pub num_iterations: usize,
    /// The decay of the moving average.
    pub ema_decay: F64,
}

impl Default for MeanFlowConfig {
    fn default() -> (r: Self)
        ensures
            r.teacher_steps == 32,
            r.student_steps == 1,
            r.time_sampling == TimeSampling::Uniform,
            r.distillation_loss == DistillationLoss::Mse,
            r.batch_size == 16,
            r.learning_rate.bits == LEARNING_RATE,
            r.num_iterations == 100_000,
            r.ema_decay.bits == EMA_DECAY,
            r.learning_rate.bits == 0x3f1a_36e2_eb1c_432d,
            r.ema_decay.bits == 0x3fef_f7ce_d916_872b,
    {
        MeanFlowConfig {
            teacher_steps: 32,
            student_steps: 1,
            time_sampling: TimeSampling::Uniform,
            distillation_loss: DistillationLoss::Mse,
            batch_size: 16,
            learning_rate: F64::from_bits(LEARNING_RATE),
            num_iterations: 100_000,
            ema_decay: F64::from_bits(EMA_DECAY),
        }
    }
}

/// What the distillation would bring.
#[derive(Debug, Clone, Copy)]
pub struct PerformanceEstimate {
    /// The milliseconds of the teacher.
    pub teacher_inference_ms: F64,
    /// The milliseconds of the student.
    pub student_inference_ms: F64,
    /// How many times as fast the student is.
    pub speedup: F64,
    /// The real-time factor with the teacher.
    pub teacher_rtf: F64,
    /// The real-time factor with the student.
    pub student_rtf: F64,
    /// How good the sound is, from 1 to 10.
    pub quality_score: F64,
}

/// How good the sound is after a teacher of that many steps: 7, 8, 8.5, 9 or 9.5.
pub open spec fn quality_of(teacher_steps: usize) -> F64 {
    F64 {
        bits: if teacher_steps <= 8 {
            0x401c_0000_0000_0000u64
        } else if teacher_steps <= 16 {
            0x4020_0000_0000_0000
        } else if teacher_steps <= 32 {
            0x4021_0000_0000_0000
        } else if teacher_steps <= 64 {
            0x4022_0000_0000_0000
        } else {
            0x4023_0000_0000_0000
        },
    }
}

/// How good the sound is after a teacher of that many steps.
pub fn quality_score(teacher_steps: usize) -> (r: F64)
    ensures
        r == quality_of(teacher_steps),
        teacher_steps <= 8 ==> r.bits == 0x401c_0000_0000_0000,
        8 < teacher_steps <= 16 ==> r.bits == 0x4020_0000_0000_0000,
        16 < teacher_steps <= 32 ==> r.bits == 0x4021_0000_0000_0000,
        32 < teacher_steps <= 64 ==> r.bits == 0x4022_0000_0000_0000,
        64 < teacher_steps ==> r.bits == 0x4023_0000_0000_0000,
{
    F64::from_bits(
        if teacher_steps <= 8 {
            0x401c_0000_0000_0000
        } else if teacher_steps <= 16 {
            0x4020_0000_0000_0000
        } else if teacher_steps <= 32 {
            0x4021_0000_0000_0000
        } else if teacher_steps <= 64 {
            0x4022_0000_0000_0000
        } else {
            0x4023_0000_0000_0000
        },
    )
}

/// The sound gets no worse with more steps.
pub proof fn law_quality_grows(a: usize, b: usize)
    requires
        a <= b,
    ensures
        quality_of(a).at_most(quality_of(b)),
{
}

impl PerformanceEstimate {
    /// The estimate with these times and ratios, for a teacher of that many steps.
    pub fn new(
        teacher_inference_ms: F64,
        student_inference_ms: F64,
        speedup: F64,
        teacher_rtf: F64,
        student_rtf: F64,
        teacher_steps: usize,
    ) -> (r: Self)
        ensures
            r == (PerformanceEstimate {
                teacher_inference_ms,
                student_inference_ms,
                speedup,
                teacher_rtf,
                student_rtf,
                quality_score: quality_of(teacher_steps),
            }),
    {
        PerformanceEstimate {
            teacher_inference_ms,
            student_inference_ms,
            speedup,
            teacher_rtf,
            student_rtf,
            quality_score: quality_score(teacher_steps),
        }
    }
}

/// A phase of the distillation.
#[derive(Debug, Clone, Copy, PartialEq, Eq, Structural)]
pub enum DistillationPhase {
    /// The teacher learns.
    TeacherTraining,
    /// The teacher makes examples.
    DataGeneration,
    /// The student learns.
    StudentTraining,
    /// The student is put to use.
    InferenceIntegration,
}

impl DistillationPhase {
    /// The name of the phase.
    pub open spec fn label(self) -> Seq<char> {
        match self {
            DistillationPhase::TeacherTraining => "TeacherTraining"@,
            DistillationPhase::DataGeneration => "DataGeneration"@,
            DistillationPhase::StudentTraining => "StudentTraining"@,
            DistillationPhase::InferenceIntegration => "InferenceIntegration"@,
        }
    }

    /// The name of the phase.
    pub fn name(self) -> (r: &'static str)
        ensures
            r@ == self.label(),
            self is TeacherTraining ==> r@ == "TeacherTraining"@,
            self is DataGeneration ==> r@ == "DataGeneration"@,
            self is StudentTraining ==> r@ == "StudentTraining"@,
            self is InferenceIntegration ==> r@ == "InferenceIntegration"@,
    {
        match self {
            DistillationPhase::TeacherTraining => "TeacherTraining",
            DistillationPhase::DataGeneration => "DataGeneration",
            DistillationPhase::StudentTraining => "StudentTraining",
            DistillationPhase::InferenceIntegration => "InferenceIntegration",
        }
    }

    /// The place of the phase.
    pub open spec fn place(self) -> int {
        match self {
            DistillationPhase::TeacherTraining => 0,
            DistillationPhase::DataGeneration => 1,
            DistillationPhase::StudentTraining => 2,
            DistillationPhase::InferenceIntegration => 3,
        }
    }
}

/// A step of the distillation.
#[derive(Debug, Clone)]
pub struct DistillationStep {
    /// The phase.
    pub phase: DistillationPhase,
    /// The name.
    pub name: String,
    /// What is to be done.
    pub description: String,
    /// The days that it takes.
    pub estimated_days: u32,
    /// The steps that must come before.
    pub dependencies: Vec<String>,
}

/// The step has these contents.
pub open spec fn is_step(
    step: DistillationStep,
    phase: DistillationPhase,
    name: Seq<char>,
    description: Seq<char>,
    days: u32,
    dependencies: Seq<Seq<char>>,
) -> bool {
    &&& step.phase == phase
    &&& step.name@ == name
    &&& step.description@ == description
    &&& step.estimated_days == days
    &&& text::texts(step.dependencies@) == dependencies
}

/// The steps of the distillation.
pub open spec fn is_roadmap(steps: Seq<DistillationStep>) -> bool {
    &&& steps.len() == 7
    &&& is_step(
        steps[0],
        DistillationPhase::TeacherTraining,
        "CFM Decoder 实现"@,
        "实现 CFM + BigVGAN decoder 架构（参考 P8 的 cfm_decoder.rs）"@,
        14,
        Seq::<Seq<char>>::empty(),
    )
    &&& is_step(
        steps[1],
        DistillationPhase::TeacherTraining,
        "教师模型训练"@,
        "训练 32-step CFM decoder 作为教师模型，使用 LibriTTS + AISHELL-3 数据集"@,
        28,
        seq!["CFM Decoder 实现"@],
    )
    &&& is_step(
        steps[2],
        DistillationPhase::DataGeneration,
        "蒸馏数据生成"@,
        "使用教师模型对训练集进行 32-step 采样，生成 (code, audio) 对"@,
        7,
        seq!["教师模型训练"@],
    )
    &&& is_step(
        steps[3],
        DistillationPhase::StudentTraining,
        "MeanFlow 学生模型训练"@,
        "训练单步 MeanFlow 学生模型，目标匹配教师模型的多步采样结果"@,
        14,
        seq!["蒸馏数据生成"@],
    )
    &&& is_step(
        steps[4],
        DistillationPhase::StudentTraining,
        "质量微调"@,
        "使用感知损失微调学生模型，提升音质"@,
        7,
        seq!["MeanFlow 学生模型训练"@],
    )
    &&& is_step(
        steps[5],
        DistillationPhase::InferenceIntegration,
        "推理集成"@,
        "将 MeanFlow decoder 集成到 Python TTS 服务端，替换当前 ConvNet decoder"@,
        5,
        seq!["质量微调"@],
    )
    &&& is_step(
        steps[6],
        DistillationPhase::InferenceIntegration,
        "性能验证"@,
        "端到端测试，验证 RTF 和音质"@,
        2,
        seq!["推理集成"@],
    )
}

/// The steps of the distillation: what each is, how long it takes and what it needs.
pub proof fn law_roadmap_steps(steps: Seq<DistillationStep>)
    requires
        is_roadmap(steps),
    ensures
        steps.len() == 7,
        steps[0].phase == DistillationPhase::TeacherTraining,
        steps[0].name@ == "CFM Decoder 实现"@ && steps[0].estimated_days == 14,
        steps[0].description@
            == "实现 CFM + BigVGAN decoder 架构（参考 P8 的 cfm_decoder.rs）"@,
        text::texts(steps[0].dependencies@) == Seq::<Seq<char>>::empty(),
        steps[1].phase == DistillationPhase::TeacherTraining,
        steps[1].name@ == "教师模型训练"@ && steps[1].estimated_days == 28,
        steps[1].description@
            == "训练 32-step CFM decoder 作为教师模型，使用 LibriTTS + AISHELL-3 数据集"@,
        text::texts(steps[1].dependencies@) == seq!["CFM Decoder 实现"@],
        steps[2].phase == DistillationPhase::DataGeneration,
        steps[2].name@ == "蒸馏数据生成"@ && steps[2].estimated_days == 7,
        steps[2].description@
            == "使用教师模型对训练集进行 32-step 采样，生成 (code, audio) 对"@,
        text::texts(steps[2].dependencies@) == seq!["教师模型训练"@],
        steps[3].phase == DistillationPhase::StudentTraining,
        steps[3].name@ == "MeanFlow 学生模型训练"@ && steps[3].estimated_days == 14,
        steps[3].description@
            == "训练单步 MeanFlow 学生模型，目标匹配教师模型的多步采样结果"@,
        text::texts(steps[3].dependencies@) == seq!["蒸馏数据生成"@],
        steps[4].phase == DistillationPhase::StudentTraining,
        steps[4].name@ == "质量微调"@ && steps[4].estimated_days == 7,
        steps[4].description@
            == "使用感知损失微调学生模型，提升音质"@,
        text::texts(steps[4].dependencies@) == seq!["MeanFlow 学生模型训练"@],
        steps[5].phase == DistillationPhase::InferenceIntegration,
        steps[5].name@ == "推理集成"@ && steps[5].estimated_days == 5,
        steps[5].description@
            == "将 MeanFlow decoder 集成到 Python TTS 服务端，替换当前 ConvNet decoder"@,
        text::texts(steps[5].dependencies@) == seq!["质量微调"@],
        steps[6].phase == DistillationPhase::InferenceIntegration,
        steps[6].name@ == "性能验证"@ && steps[6].estimated_days == 2,
        steps[6].description@
            == "端到端测试，验证 RTF 和音质"@,
        text::texts(steps[6].dependencies@) == seq!["推理集成"@],
{
}

/// The steps of the distillation.
pub fn get_distillation_roadmap() -> (r: Vec<DistillationStep>)
    ensures
        is_roadmap(r@),
{
    let mut steps: Vec<DistillationStep> = Vec::new();
    let mut needed: Vec<String> = Vec::new();
    assert(text::texts(needed@) =~= Seq::<Seq<char>>::empty());
    steps.push(
        DistillationStep {
            phase: DistillationPhase::TeacherTraining,
            name: "CFM Decoder 实现".to_owned(),
            description: "实现 CFM + BigVGAN decoder 架构（参考 P8 的 cfm_decoder.rs）".to_owned(),
            estimated_days: 14,
            dependencies: needed,
        },
    );
    needed = Vec::new();
    needed.push("CFM Decoder 实现".to_owned());
    assert(text::texts(needed@) =~= seq!["CFM Decoder 实现"@]);
    steps.push(
        DistillationStep {
            phase: DistillationPhase::TeacherTraining,
            name: "教师模型训练".to_owned(),
            description: "训练 32-step CFM decoder 作为教师模型，使用 LibriTTS + AISHELL-3 数据集".to_owned(),
            estimated_days: 28,
            dependencies: needed,
        },
    );
    needed = Vec::new();
    needed.push("教师模型训练".to_owned());
    assert(text::texts(needed@) =~= seq!["教师模型训练"@]);
    steps.push(
        DistillationStep {
            phase: DistillationPhase::DataGeneration,
            name: "蒸馏数据生成".to_owned(),
            description: "使用教师模型对训练集进行 32-step 采样，生成 (code, audio) 对".to_owned(),
            estimated_days: 7,
            dependencies: needed,
        },
    );
    needed = Vec::new();
    needed.push("蒸馏数据生成".to_owned());
    assert(text::texts(needed@) =~= seq!["蒸馏数据生成"@]);
    steps.push(
        DistillationStep {
            phase: DistillationPhase::StudentTraining,
            name: "MeanFlow 学生模型训练".to_owned(),
            description: "训练单步 MeanFlow 学生模型，目标匹配教师模型的多步采样结果".to_owned(),
            estimated_days: 14,
            dependencies: needed,
        },
    );
    needed = Vec::new();
    needed.push("MeanFlow 学生模型训练".to_owned());
    assert(text::texts(needed@) =~= seq!["MeanFlow 学生模型训练"@]);
    steps.push(
        DistillationStep {
            phase: DistillationPhase::StudentTraining,
            name: "质量微调".to_owned(),
            description: "使用感知损失微调学生模型，提升音质".to_owned(),
            estimated_days: 7,
            dependencies: needed,
        },
    );
    needed = Vec::new();
    needed.push("质量微调".to_owned());
    assert(text::texts(needed@) =~= seq!["质量微调"@]);
    steps.push(
        DistillationStep {
            phase: DistillationPhase::InferenceIntegration,
            name: "推理集成".to_owned(),
            description: "将 MeanFlow decoder 集成到 Python TTS 服务端，替换当前 ConvNet decoder".to_owned(),
            estimated_days: 5,
            dependencies: needed,
        },
    );
    needed = Vec::new();
    needed.push("推理集成".to_owned());
    assert(text::texts(needed@) =~= seq!["推理集成"@]);
    steps.push(
        DistillationStep {
            phase: DistillationPhase::InferenceIntegration,
            name: "性能验证".to_owned(),
            description: "端到端测试，验证 RTF 和音质".to_owned(),
            estimated_days: 2,
            dependencies: needed,
        },
    );
    steps
}

/// The first step needs nothing, and each later one needs exactly the step before it; the phases follow
/// one another.
pub proof fn law_roadmap_is_a_chain(steps: Seq<DistillationStep>, i: int)
    requires
        is_roadmap(steps),
        0 < i < steps.len(),
    ensures
        text::texts(steps[0].dependencies@).len() == 0,
        text::texts(steps[i].dependencies@) == seq![steps[i - 1].name@],
        steps[i - 1].phase.place() <= steps[i].phase.place(),
{
    if i == 1 {
        assert(text::texts(steps[1].dependencies@) =~= seq![steps[0].name@]);
    } else if i == 2 {
        assert(text::texts(steps[2].dependencies@) =~= seq![steps[1].name@]);
    } else if i == 3 {
        assert(text::texts(steps[3].dependencies@) =~= seq![steps[2].name@]);
    } else if i == 4 {
        assert(text::texts(steps[4].dependencies@) =~= seq![steps[3].name@]);
    } else if i == 5 {
        assert(text::texts(steps[5].dependencies@) =~= seq![steps[4].name@]);
    } else {
        assert(text::texts(steps[6].dependencies@) =~= seq![steps[5].name@]);
    }
}

/// The days of the first `n` steps.
pub open spec fn days_of(steps: Seq<DistillationStep>, n: int) -> nat
    decreases n,
{
    if n <= 0 {
        0
    } else {
        days_of(steps, n - 1) + steps[n - 1].estimated_days as nat
    }
}

/// The steps take 77 days.
pub proof fn law_roadmap_days(steps: Seq<DistillationStep>)
    requires
        is_roadmap(steps),
    ensures
        days_of(steps, 7) == 77,
        forall|n: int| 0 <= n <= 7 ==> #[trigger] days_of(steps, n) <= 77,
{
    assert(days_of(steps, 0) == 0);
    assert(days_of(steps, 1) == 14);
    assert(days_of(steps, 2) == 42);
    assert(days_of(steps, 3) == 49);
    assert(days_of(steps, 4) == 63);
    assert(days_of(steps, 5) == 70);
    assert(days_of(steps, 6) == 75);
}

/// The days of all steps.
pub fn estimate_total_distillation_days() -> (r: u32)
    ensures
        r == 77,
{
    let steps = get_distillation_roadmap();
    proof {
        law_roadmap_days(steps@);
    }
    let mut out: u32 = 0;
    let mut i: usize = 0;
    while i < steps.len()
        invariant
            i <= steps@.len() == 7,
            out == days_of(steps@, i as int),
            forall|n: int| 0 <= n <= 7 ==> #[trigger] days_of(steps@, n) <= 77,
            days_of(steps@, 7) == 77,
        decreases steps@.len() - i,
    {
        assert(days_of(steps@, i + 1) <= 77);
        out += steps[i].estimated_days;
        i += 1;
    }
    out
}

/// How likely it is to go wrong.
#[derive(Debug, Clone, Copy, PartialEq, Eq, Structural)]
pub enum RiskLevel {
    /// Hardly.
    Low,
    /// Perhaps.
    Medium,
    /// Likely.
    High,
}

impl RiskLevel {
    /// The name of the level.
    pub open spec fn label(self) -> Seq<char> {
        match self {
            RiskLevel::Low => "Low"@,
            RiskLevel::Medium => "Medium"@,
            RiskLevel::High => "High"@,
        }
    }

    /// The name of the level.
    pub fn name(self) -> (r: &'static str)
        ensures
            r@ == self.label(),
            self is Low ==> r@ == "Low"@,
            self is Medium ==> r@ == "Medium"@,
            self is High ==> r@ == "High"@,
    {
        match self {
            RiskLevel::Low => "Low",
            RiskLevel::Medium => "Medium",
            RiskLevel::High => "High",
        }
    }
}

/// How urgent it is.
#[derive(Debug, Clone, Copy, PartialEq, Eq, Structural)]
pub enum RecommendationPriority {
    /// Not to be done.
    NotRecommended,
    /// Not urgent.
    Low,
    /// Somewhat urgent.
    Medium,
    /// Urgent.
    High,
}

impl RecommendationPriority {
    /// The name of the priority.
    pub open spec fn label(self) -> Seq<char> {
        match self {
            RecommendationPriority::NotRecommended => "NotRecommended"@,
            RecommendationPriority::Low => "Low"@,
            RecommendationPriority::Medium => "Medium"@,
            RecommendationPriority::High => "High"@,
        }
    }

    /// The name of the priority.
    pub fn name(self) -> (r: &'static str)
        ensures
            r@ == self.label(),
            self is NotRecommended ==> r@ == "NotRecommended"@,
            self is Low ==> r@ == "Low"@,
            self is Medium ==> r@ == "Medium"@,
            self is High ==> r@ == "High"@,
    {
        match self {
            RecommendationPriority::NotRecommended => "NotRecommended",
            RecommendationPriority::Low => "Low",
            RecommendationPriority::Medium => "Medium",
            RecommendationPriority::High => "High",
        }
    }

    /// What follows from the priority.
    pub open spec fn conclusion(self) -> Seq<char> {
        match self {
            RecommendationPriority::High => "推荐实施 MeanFlow 蒸馏，预期 RTF 显著降低。\n"@,
            RecommendationPriority::Medium => "可考虑实施，但需权衡资源投入与收益。\n"@,
            RecommendationPriority::Low => "暂缓实施，优先优化其他组件。\n"@,
            RecommendationPriority::NotRecommended => "当前条件不建议实施（缺少 GPU 或数据不足）。\n"@,
        }
    }

    /// What follows from the priority.
    pub fn conclude(self) -> (r: &'static str)
        ensures
            r@ == self.conclusion(),
            self is High ==> r@ == "推荐实施 MeanFlow 蒸馏，预期 RTF 显著降低。\n"@,
            self is Medium ==> r@ == "可考虑实施，但需权衡资源投入与收益。\n"@,
            self is Low ==> r@ == "暂缓实施，优先优化其他组件。\n"@,
            self is NotRecommended ==> r@ == "当前条件不建议实施（缺少 GPU 或数据不足）。\n"@,
    {
        match self {
            RecommendationPriority::High => "推荐实施 MeanFlow 蒸馏，预期 RTF 显著降低。\n",
            RecommendationPriority::Medium => "可考虑实施，但需权衡资源投入与收益。\n",
            RecommendationPriority::Low => "暂缓实施，优先优化其他组件。\n",
            RecommendationPriority::NotRecommended => "当前条件不建议实施（缺少 GPU 或数据不足）。\n",
        }
    }
}

/// Whether the distillation is worth while. The scores go from 1 to 10.
#[derive(Debug, Clone)]
pub struct FeasibilityAssessment {
    /// How feasible it is.
    pub technical_feasibility: u8,
    /// How much it needs.
    pub resource_requirement: u8,
    /// How much it brings.
    pub expected_benefit: u8,
    /// How likely it is to go wrong.
    pub risk_level: RiskLevel,
    /// How urgent it is.
    pub priority: RecommendationPriority,
    /// The reasons.
    pub notes: Vec<String>,
}

/// The decoder is slower than real time.
pub open spec fn lagging(current_rtf: F64) -> bool {
    (F64 { bits: ONE }).less(current_rtf)
}

/// How much the distillation brings.
pub open spec fn benefit_of(current_rtf: F64, target_rtf: F64) -> u8 {
    if lagging(current_rtf) && target_rtf.less(F64 { bits: GOOD_RTF }) {
        8
    } else if lagging(current_rtf) {
        6
    } else {
        3
    }
}

/// How likely the distillation is to go wrong.
pub open spec fn risk_of(
    current_rtf: F64,
    target_rtf: F64,
    has_gpu: bool,
    hours: F64,
) -> RiskLevel {
    if !has_gpu || hours.less(F64 { bits: SCARCE_HOURS }) {
        RiskLevel::High
    } else if benefit_of(current_rtf, target_rtf) >= 7 {
        RiskLevel::Low
    } else {
        RiskLevel::Medium
    }
}

/// How urgent the distillation is, given how much it brings, how much it needs and how likely it is to
/// go wrong.
pub open spec fn priority_of(benefit: u8, resource: u8, risk: RiskLevel) -> RecommendationPriority {
    match risk {
        RiskLevel::Low => if benefit >= 7 && resource <= 6 {
            RecommendationPriority::High
        } else if benefit >= 5 {
            RecommendationPriority::Medium
        } else {
            RecommendationPriority::Low
        },
        RiskLevel::Medium => RecommendationPriority::Low,
        RiskLevel::High => RecommendationPriority::NotRecommended,
    }
}

/// What is said of the hours of training data.
pub open spec fn hours_note(hours: Double) -> Seq<char> {
    if hours.value.less(F64 { bits: FEW_HOURS }) {
        "训练数据 "@ + hours.text@ + " 小时偏少，推荐 ≥ 100 小时"@
    } else if hours.value.less(F64 { bits: MANY_HOURS }) {
        "训练数据 "@ + hours.text@ + " 小时基本满足需求"@
    } else {
        "训练数据 "@ + hours.text@ + " 小时充足"@
    }
}

/// The reasons.
pub open spec fn notes_of(
    current_rtf: F64,
    target_rtf: Double,
    has_gpu: bool,
    hours: Double,
) -> Seq<Seq<char>> {
    seq![
        if lagging(current_rtf) {
            "当前 RTF > 1.0，MeanFlow 蒸馏有明显收益空间"@
        } else {
            "当前 RTF < 1.0，MeanFlow 收益有限"@
        },
        if has_gpu {
            "有 GPU 训练资源，满足蒸馏需求"@
        } else {
            "缺少 GPU 训练资源，蒸馏训练不现实"@
        },
        if benefit_of(current_rtf, target_rtf.value) == 8 {
            "目标 RTF "@ + target_rtf.text@ + " 可达，预期收益高"@
        } else if lagging(current_rtf) {
            "有一定收益但目标 RTF 较高"@
        } else {
            "当前已接近实时，收益有限"@
        },
        hours_note(hours),
    ]
}

/// Whether the distillation is worth while.
pub fn assess_feasibility(
    current_rtf: F64,
    target_rtf: &Double,
    has_gpu: bool,
    training_data_hours: &Double,
) -> (r: FeasibilityAssessment)
    ensures
        r.technical_feasibility == (if lagging(current_rtf) {
            8u8
        } else {
            5
        }),
        r.resource_requirement == (if has_gpu {
            5u8
        } else {
            9
        }),
        r.expected_benefit == benefit_of(current_rtf, target_rtf.value),
        r.risk_level == risk_of(
            current_rtf,
            target_rtf.value,
            has_gpu,
            training_data_hours.value,
        ),
        r.priority == priority_of(r.expected_benefit, r.resource_requirement, r.risk_level),
        text::texts(r.notes@) == notes_of(
            current_rtf,
            *target_rtf,
            has_gpu,
            *training_data_hours,
        ),
        ({
            let slow = (F64 { bits: 0x3ff0_0000_0000_0000 }).less(current_rtf);
            let good = target_rtf.value.less(F64 { bits: 0x3fe3_3333_3333_3333 });
            let hours = training_data_hours.value;
            let scarce = hours.less(F64 { bits: 0x4049_0000_0000_0000 });
            &&& slow ==> r.technical_feasibility == 8
            &&& !slow ==> r.technical_feasibility == 5 && r.expected_benefit == 3
            &&& slow && good ==> r.expected_benefit == 8
            &&& slow && !good ==> r.expected_benefit == 6
            &&& r.risk_level is High <==> !has_gpu || scarce
            &&& r.risk_level is Low <==> has_gpu && !scarce && slow && good
            &&& r.priority is NotRecommended <==> !has_gpu || scarce
            &&& r.priority is High <==> has_gpu && !scarce && slow && good
            &&& r.priority is Low <==> has_gpu && !scarce && !(slow && good)
            &&& r.notes@.len() == 4
            &&& slow ==> r.notes@[0]@ == "当前 RTF > 1.0，MeanFlow 蒸馏有明显收益空间"@
            &&& !slow ==> r.notes@[0]@ == "当前 RTF < 1.0，MeanFlow 收益有限"@
            &&& has_gpu ==> r.notes@[1]@ == "有 GPU 训练资源，满足蒸馏需求"@
            &&& !has_gpu ==> r.notes@[1]@ == "缺少 GPU 训练资源，蒸馏训练不现实"@
            &&& slow && good ==> r.notes@[2]@ == "目标 RTF "@ + target_rtf.text@
                + " 可达，预期收益高"@
            &&& slow && !good ==> r.notes@[2]@ == "有一定收益但目标 RTF 较高"@
            &&& !slow ==> r.notes@[2]@ == "当前已接近实时，收益有限"@
            &&& hours.less(F64 { bits: 0x4059_0000_0000_0000 }) ==> r.notes@[3]@ == "训练数据 "@
                + training_data_hours.text@ + " 小时偏少，推荐 ≥ 100 小时"@
            &&& !hours.less(F64 { bits: 0x4059_0000_0000_0000 }) && hours.less(
                F64 { bits: 0x407f_4000_0000_0000 },
            ) ==> r.notes@[3]@ == "训练数据 "@ + training_data_hours.text@ + " 小时基本满足需求"@
            &&& !hours.less(F64 { bits: 0x4059_0000_0000_0000 }) && !hours.less(
                F64 { bits: 0x407f_4000_0000_0000 },
            ) ==> r.notes@[3]@ == "训练数据 "@ + training_data_hours.text@ + " 小时充足"@
        }),
{
    let slow = F64::from_bits(ONE).lt(current_rtf);
    let mut notes: Vec<String> = Vec::new();
    let technical: u8 = if slow {
        notes.push("当前 RTF > 1.0，MeanFlow 蒸馏有明显收益空间".to_owned());
        8
    } else {
        notes.push("当前 RTF < 1.0，MeanFlow 收益有限".to_owned());
        5
    };
    let resource: u8 = if has_gpu {
        notes.push("有 GPU 训练资源，满足蒸馏需求".to_owned());
        5
    } else {
        notes.push("缺少 GPU 训练资源，蒸馏训练不现实".to_owned());
        9
    };
    let benefit: u8 = if slow && target_rtf.value.lt(F64::from_bits(GOOD_RTF)) {
        notes.push(cat3("目标 RTF ", target_rtf.text.as_str(), " 可达，预期收益高"));
        8
    } else if slow {
        notes.push("有一定收益但目标 RTF 较高".to_owned());
        6
    } else {
        notes.push("当前已接近实时，收益有限".to_owned());
        3
    };
    let hours = training_data_hours.value;
    let shown = training_data_hours.text.as_str();
    if hours.lt(F64::from_bits(FEW_HOURS)) {
        notes.push(cat3("训练数据 ", shown, " 小时偏少，推荐 ≥ 100 小时"));
    } else if hours.lt(F64::from_bits(MANY_HOURS)) {
        notes.push(cat3("训练数据 ", shown, " 小时基本满足需求"));
    } else {
        notes.push(cat3("训练数据 ", shown, " 小时充足"));
    }
    assert(text::texts(notes@) =~= notes_of(
        current_rtf,
        *target_rtf,
        has_gpu,
        *training_data_hours,
    ));
    let risk_level = if !has_gpu || hours.lt(F64::from_bits(SCARCE_HOURS)) {
        RiskLevel::High
    } else if technical >= 7 && benefit >= 7 {
        RiskLevel::Low
    } else {
        RiskLevel::Medium
    };
    let priority = match risk_level {
        RiskLevel::Low => if benefit >= 7 && resource <= 6 {
            RecommendationPriority::High
        } else if benefit >= 5 {
            RecommendationPriority::Medium
        } else {
            RecommendationPriority::Low
        },
        RiskLevel::Medium => RecommendationPriority::Low,
        RiskLevel::High => RecommendationPriority::NotRecommended,
    };
    FeasibilityAssessment {
        technical_feasibility: technical,
        resource_requirement: resource,
        expected_benefit: benefit,
        risk_level,
        priority,
        notes,
    }
}

/// Without hardware to train on the distillation is never recommended. With it, and with enough data,
/// it is urgent exactly where the decoder is too slow and the goal is fast enough.
pub proof fn law_when_recommended(current_rtf: F64, target_rtf: F64, has_gpu: bool, hours: F64)
    ensures
        ({
            let benefit = benefit_of(current_rtf, target_rtf);
            let resource = if has_gpu {
                5u8
            } else {
                9
            };
            let risk = risk_of(current_rtf, target_rtf, has_gpu, hours);
            let priority = priority_of(benefit, resource, risk);
            let scarce = hours.less(F64 { bits: SCARCE_HOURS });
            &&& (priority == RecommendationPriority::NotRecommended) == (!has_gpu || scarce)
            &&& (priority == RecommendationPriority::High) == (has_gpu && !scarce && lagging(
                current_rtf,
            ) && target_rtf.less(F64 { bits: GOOD_RTF }))
        }),
{
}

/// The numbers of a report as they are written.
#[derive(Debug, Clone)]
pub struct ReportNumbers {
    /// The real-time factor, with two decimals.
    pub current_rtf: String,
    /// The milliseconds of making tokens, without decimals.
    pub ar_generation_ms: String,
    /// The milliseconds of the decoder, without decimals.
    pub current_decoder_ms: String,
    /// The seconds of the sound, with one decimal.
    pub audio_duration_secs: String,
    /// The milliseconds of the teacher, without decimals.
    pub teacher_inference_ms: String,
    /// The milliseconds of the student, without decimals.
    pub student_inference_ms: String,
    /// How many times as fast the student is, with one decimal.
    pub speedup: String,
    /// The real-time factor with the teacher, with two decimals.
    pub teacher_rtf: String,
    /// The real-time factor with the student, with two decimals.
    pub student_rtf: String,
    /// How good the sound is, with one decimal.
    pub quality_score: String,
}

/// The report up to the reasons.
pub open spec fn report_head(numbers: ReportNumbers, assessment: FeasibilityAssessment) -> Seq<char> {
    "═══════════════════════════════════════════════\n       MeanFlow 蒸馏可行性分析报告\n═══════════════════════════════════════════════\n\n── 当前性能 ──\n  当前 RTF: "@
        + numbers.current_rtf@
        + "x\n  AR 生成: "@
        + numbers.ar_generation_ms@
        + "ms\n  Decoder: "@
        + numbers.current_decoder_ms@
        + "ms\n  音频时长: "@
        + numbers.audio_duration_secs@
        + "s\n\n── MeanFlow 预期性能 ──\n  教师模型 decoder: "@
        + numbers.teacher_inference_ms@
        + "ms (32 步)\n  学生模型 decoder: "@
        + numbers.student_inference_ms@
        + "ms (1 步)\n  Decoder 加速比: "@
        + numbers.speedup@
        + "x\n  教师 RTF: "@
        + numbers.teacher_rtf@
        + "x\n  学生 RTF: "@
        + numbers.student_rtf@
        + "x\n  质量评分: "@
        + numbers.quality_score@
        + "/10\n\n── 可行性评估 ──\n  技术可行性: "@
        + text::decimal(assessment.technical_feasibility as nat)
        + ".0/10\n  资源需求: "@
        + text::decimal(assessment.resource_requirement as nat)
        + ".0/10\n  预期收益: "@
        + text::decimal(assessment.expected_benefit as nat)
        + ".0/10\n  风险等级: "@
        + assessment.risk_level.label()
        + "\n  推荐优先级: "@
        + assessment.priority.label()
        + "\n\n── 评估说明 ──\n"@
}

/// The first `n` reasons, each on a line.
pub open spec fn notes_text(notes: Seq<Seq<char>>, n: int) -> Seq<char>
    decreases n,
{
    if n <= 0 {
        Seq::empty()
    } else {
        notes_text(notes, n - 1) + ("  • "@ + notes[n - 1] + "\n"@)
    }
}

/// Names in quotes, between brackets.
pub open spec fn quoted(names: Seq<Seq<char>>) -> Seq<char> {
    "["@ + text::joined(
        Seq::new(names.len(), |i: int| "\""@ + names[i] + "\""@),
        ", "@,
    ) + "]"@
}

/// The first `n` steps.
pub open spec fn roadmap_text(steps: Seq<DistillationStep>, n: int) -> Seq<char>
    decreases n,
{
    if n <= 0 {
        Seq::empty()
    } else {
        let step = steps[n - 1];
        roadmap_text(steps, n - 1) + ("  ["@ + step.phase.label() + "] "@ + step.name@ + " ("@
            + text::decimal(step.estimated_days as nat) + "天)\n    "@ + step.description@
            + "\n    依赖: "@ + quoted(text::texts(step.dependencies@)) + "\n\n"@)
    }
}

/// The notes and the steps are written one after the other, the names of what a step needs in quotes and
/// separated by commas.
pub proof fn law_report_goes_on(
    notes: Seq<Seq<char>>,
    steps: Seq<DistillationStep>,
    n: int,
    k: int,
    name: Seq<char>,
)
    requires
        0 <= n < notes.len(),
        0 <= k < steps.len(),
    ensures
        notes_text(notes, 0) == Seq::<char>::empty(),
        notes_text(notes, n + 1) == notes_text(notes, n) + ("  • "@ + notes[n] + "\n"@),
        roadmap_text(steps, 0) == Seq::<char>::empty(),
        roadmap_text(steps, k + 1) == roadmap_text(steps, k) + ("  ["@ + steps[k].phase.label()
            + "] "@ + steps[k].name@ + " ("@ + text::decimal(steps[k].estimated_days as nat)
            + "天)\n    "@ + steps[k].description@ + "\n    依赖: "@ + quoted(
            text::texts(steps[k].dependencies@),
        ) + "\n\n"@),
        quoted(Seq::empty()) =~= "["@ + "]"@,
        quoted(seq![name]) == "["@ + ("\""@ + name + "\""@) + "]"@,
        days_of(steps, 0) == 0,
        days_of(steps, k + 1) == days_of(steps, k) + steps[k].estimated_days,
{
    let none = Seq::new(0, |i: int| "\""@ + Seq::<Seq<char>>::empty()[i] + "\""@);
    assert(none =~= Seq::empty());
    let one = Seq::new(1, |i: int| "\""@ + seq![name][i] + "\""@);
    assert(one =~= seq!["\""@ + name + "\""@]);
}

/// The conclusion of the report.
pub open spec fn report_tail(priority: RecommendationPriority) -> Seq<char> {
    "═══════════════════════════════════════════════\n  结论: "@ + priority.conclusion()
        + "═══════════════════════════════════════════════\n"@
}

/// `report` says what the distillation would bring and whether it is worth while.
pub open spec fn is_report(
    report: Seq<char>,
    numbers: ReportNumbers,
    assessment: FeasibilityAssessment,
) -> bool {
    exists|steps: Seq<DistillationStep>| #[trigger]
        is_roadmap(steps) && report == report_head(numbers, assessment) + notes_text(
            text::texts(assessment.notes@),
            assessment.notes@.len() as int,
        ) + "\n  总计时间: 77 天 (11.0 周)\n\n── 蒸馏路线图 ──\n"@ + roadmap_text(steps, 7)
            + report_tail(assessment.priority)
}

fn write_head(numbers: &ReportNumbers, assessment: &FeasibilityAssessment) -> (r: String)
    ensures
        r@ == report_head(*numbers, *assessment),
{
    let mut out = "═══════════════════════════════════════════════\n       MeanFlow 蒸馏可行性分析报告\n═══════════════════════════════════════════════\n\n── 当前性能 ──\n  当前 RTF: ".to_owned();
    out.append(numbers.current_rtf.as_str());
    out.append("x\n  AR 生成: ");
    out.append(numbers.ar_generation_ms.as_str());
    out.append("ms\n  Decoder: ");
    out.append(numbers.current_decoder_ms.as_str());
    out.append("ms\n  音频时长: ");
    out.append(numbers.audio_duration_secs.as_str());
    out.append("s\n\n── MeanFlow 预期性能 ──\n  教师模型 decoder: ");
    out.append(numbers.teacher_inference_ms.as_str());
    out.append("ms (32 步)\n  学生模型 decoder: ");
    out.append(numbers.student_inference_ms.as_str());
    out.append("ms (1 步)\n  Decoder 加速比: ");
    out.append(numbers.speedup.as_str());
    out.append("x\n  教师 RTF: ");
    out.append(numbers.teacher_rtf.as_str());
    out.append("x\n  学生 RTF: ");
    out.append(numbers.student_rtf.as_str());
    out.append("x\n  质量评分: ");
    out.append(numbers.quality_score.as_str());
    out.append("/10\n\n── 可行性评估 ──\n  技术可行性: ");
    out.append(decimal_text(assessment.technical_feasibility as u64).as_str());
    out.append(".0/10\n  资源需求: ");
    out.append(decimal_text(assessment.resource_requirement as u64).as_str());
    out.append(".0/10\n  预期收益: ");
    out.append(decimal_text(assessment.expected_benefit as u64).as_str());
    out.append(".0/10\n  风险等级: ");
    out.append(assessment.risk_level.name());
    out.append("\n  推荐优先级: ");
    out.append(assessment.priority.name());
    out.append("\n\n── 评估说明 ──\n");
    out
}

fn write_notes(notes: &Vec<String>) -> (r: String)
    ensures
        r@ == notes_text(text::texts(notes@), notes@.len() as int),
{
    let mut out = String::new();
    let mut i: usize = 0;
    assert(out@ =~= notes_text(text::texts(notes@), 0));
    while i < notes.len()
        invariant
            i <= notes@.len(),
            out@ == notes_text(text::texts(notes@), i as int),
        decreases notes@.len() - i,
    {
        out.append(cat3("  • ", notes[i].as_str(), "\n").as_str());
        assert(text::texts(notes@)[i as int] == notes@[i as int]@);
        i += 1;
    }
    out
}

fn write_quoted(names: &Vec<String>) -> (r: String)
    ensures
        r@ == quoted(text::texts(names@)),
{
    let mut parts: Vec<String> = Vec::new();
    let mut i: usize = 0;
    while i < names.len()
        invariant
            i <= names@.len(),
            parts@.len() == i,
            forall|k: int| 0 <= k < i ==> (#[trigger] parts@[k])@ == "\""@ + names@[k]@ + "\""@,
        decreases names@.len() - i,
    {
        parts.push(cat3("\"", names[i].as_str(), "\""));
        i += 1;
    }
    proof {
        let plain = text::texts(names@);
        assert(text::texts(parts@) =~= Seq::new(
            plain.len(),
            |i: int| "\""@ + plain[i] + "\""@,
        ));
    }
    cat3("[", text::join(&parts, ", ").as_str(), "]")
}

fn write_roadmap(steps: &Vec<DistillationStep>) -> (r: String)
    ensures
        r@ == roadmap_text(steps@, steps@.len() as int),
{
    let mut out = String::new();
    let mut i: usize = 0;
    assert(out@ =~= roadmap_text(steps@, 0));
    while i < steps.len()
        invariant
            i <= steps@.len(),
            out@ == roadmap_text(steps@, i as int),
        decreases steps@.len() - i,
    {
        let step = &steps[i];
        let mut line = cat5("  [", step.phase.name(), "] ", step.name.as_str(), " (");
        line.append(decimal_text(step.estimated_days as u64).as_str());
        line.append("天)\n    ");
        line.append(step.description.as_str());
        line.append("\n    依赖: ");
        line.append(write_quoted(&step.dependencies).as_str());
        line.append("\n\n");
        out.append(line.as_str());
        i += 1;
    }
    out
}

/// What the distillation would bring and whether it is worth while.
pub fn generate_report(numbers: &ReportNumbers, assessment: &FeasibilityAssessment) -> (r: String)
    ensures
        is_report(r@, *numbers, *assessment),
{
    let steps = get_distillation_roadmap();
    let mut out = write_head(numbers, assessment);
    out.append(write_notes(&assessment.notes).as_str());
    out.append("\n  总计时间: 77 天 (11.0 周)\n\n── 蒸馏路线图 ──\n");
    out.append(write_roadmap(&steps).as_str());
    let tail = cat3(
        "═══════════════════════════════════════════════\n  结论: ",
        assessment.priority.conclude(),
        "═══════════════════════════════════════════════\n",
    );
    out.append(tail.as_str());
    assert(is_roadmap(steps@));
    out
}

} // verus!
