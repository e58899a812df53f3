use vt_core::ieee::{Double, F64};
use vt_core::meanflow_design::{
    assess_feasibility, estimate_total_distillation_days, generate_report,
    get_distillation_roadmap, quality_score, DistillationLoss, DistillationPhase,
    FeasibilityAssessment, MeanFlowConfig, PerformanceEstimate, RecommendationPriority,
    ReportNumbers, RiskLevel, TimeSampling,
};

fn double(x: f64) -> Double {
    Double::new(x.to_bits(), &format!("{x}"))
}

fn assess(current: f64, target: f64, gpu: bool, hours: f64) -> FeasibilityAssessment {
    assess_feasibility(
        F64::from_bits(current.to_bits()),
        &double(target),
        gpu,
        &double(hours),
    )
}

fn report(assessment: &FeasibilityAssessment) -> String {
    generate_report(
        &ReportNumbers {
            current_rtf: "1.10".into(),
            ar_generation_ms: "2500".into(),
            current_decoder_ms: "4000".into(),
            audio_duration_secs: "5.5".into(),
            teacher_inference_ms: "4000".into(),
            student_inference_ms: "188".into(),
            speedup: "21.3".into(),
            teacher_rtf: "1.18".into(),
            student_rtf: "0.49".into(),
            quality_score: "8.5".into(),
        },
        assessment,
    )
}

#[test]
fn test_meanflow_config_default() {
    let config = MeanFlowConfig::default();
    assert_eq!(config.teacher_steps, 32);
    assert_eq!(config.student_steps, 1);
    assert_eq!(config.time_sampling, TimeSampling::Uniform);
    assert_eq!(config.distillation_loss, DistillationLoss::Mse);
    assert_eq!(f64::from_bits(config.learning_rate.bits), 1e-4);
    assert_eq!(f64::from_bits(config.ema_decay.bits), 0.999);
}

#[test]
fn test_distillation_roadmap() {
    let roadmap = get_distillation_roadmap();
    assert!(!roadmap.is_empty());
    assert!(roadmap.len() >= 5);
    assert_eq!(roadmap[0].phase, DistillationPhase::TeacherTraining);
    assert_eq!(
        roadmap.last().unwrap().phase,
        DistillationPhase::InferenceIntegration
    );
}

#[test]
fn test_estimate_total_days() {
    let total = estimate_total_distillation_days() as f64;
    assert!(total > 50.0);
    assert!(total < 200.0);
    assert_eq!(total, 77.0);
}

#[test]
fn test_assess_feasibility_high_benefit() {
    let assessment = assess(1.5, 0.5, true, 500.0);
    assert!(assessment.technical_feasibility as f64 >= 7.0);
    assert!(assessment.expected_benefit as f64 >= 7.0);
    assert_eq!(assessment.risk_level, RiskLevel::Low);
    assert_eq!(assessment.priority, RecommendationPriority::High);
}

#[test]
fn test_assess_feasibility_no_gpu() {
    let assessment = assess(1.5, 0.5, false, 500.0);
    assert_eq!(assessment.risk_level, RiskLevel::High);
    assert_eq!(assessment.priority, RecommendationPriority::NotRecommended);
}

#[test]
fn test_assess_feasibility_low_rtf() {
    let assessment = assess(0.8, 0.5, true, 200.0);
    assert!((assessment.expected_benefit as f64) < 7.0);
}

#[test]
fn test_assess_feasibility_low_data() {
    let assessment = assess(1.5, 0.5, true, 30.0);
    assert!(assessment.notes.iter().any(|n| n.contains("偏少")));
    assert_eq!(assessment.risk_level, RiskLevel::High);
}

#[test]
fn test_generate_report() {
    let report = report(&assess(1.1, 0.5, true, 200.0));
    assert!(report.contains("MeanFlow 蒸馏可行性分析报告"));
    assert!(report.contains("当前 RTF"));
    assert!(report.contains("预期性能"));
    assert!(report.contains("可行性评估"));
    assert!(report.contains("蒸馏路线图"));
    assert!(report.contains("结论"));
    assert!(report.contains("  技术可行性: 8.0/10\n  资源需求: 5.0/10\n  预期收益: 8.0/10\n"));
    assert!(report.contains(
        "  [TeacherTraining] 教师模型训练 (28天)\n    训练 32-step CFM decoder 作为教师模型，使用 \
         LibriTTS + AISHELL-3 数据集\n    依赖: [\"CFM Decoder 实现\"]\n\n"
    ));
    assert!(report.contains("    依赖: []\n"));
    assert!(report.contains("  • 训练数据 200 小时基本满足需求\n\n  总计时间: 77 天 (11.0 周)\n\n"));
}

#[test]
fn test_generate_report_no_gpu() {
    let report = report(&assess(1.1, 0.5, false, 50.0));
    assert!(report.contains("不建议"));
}

#[test]
fn test_quality_score_increases_with_steps() {
    let score = |steps: usize| f64::from_bits(quality_score(steps).bits);
    assert!(score(8) <= score(32));
    assert!(score(32) <= score(64));
    let exact: Vec<f64> = [8, 9, 17, 33, 65].iter().map(|s| score(*s)).collect();
    assert_eq!(exact, vec![7.0, 8.0, 8.5, 9.0, 9.5]);
}

#[test]
fn an_estimate_rates_the_sound_by_the_steps() {
    let ms = F64::from_bits(1.0f64.to_bits());
    let estimate = PerformanceEstimate::new(ms, ms, ms, ms, ms, 32);
    assert_eq!(f64::from_bits(estimate.quality_score.bits), 8.5);
}

#[test]
fn each_step_needs_the_one_before() {
    let roadmap = get_distillation_roadmap();
    assert!(roadmap[0].dependencies.is_empty());
    for pair in roadmap.windows(2) {
        assert_eq!(pair[1].dependencies, vec![pair[0].name.clone()]);
    }
}

#[test]
fn a_middling_case_is_put_off() {
    let assessment = assess(1.5, 0.9, true, 600.0);
    assert_eq!(assessment.expected_benefit, 6);
    assert_eq!(assessment.risk_level, RiskLevel::Medium);
    assert_eq!(assessment.priority, RecommendationPriority::Low);
    assert_eq!(assessment.notes[3], "训练数据 600 小时充足");
    assert_eq!(assess(1.5, 0.5, true, 500.0).notes[2], "目标 RTF 0.5 可达，预期收益高");
}
