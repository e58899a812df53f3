use vt_core::cfm_decoder::{
    estimate_dit_params, ArchitectureComparison, BigVganConfig, CfmConfig, CfmStep,
    ChunkedCfmInference, ComparisonReport, DecoderArchitecture, DecoderType, DitModelConfig,
    MigrationCost, MigrationPath, QualityGain, TimeSampling, CURRENT_CONVNET_UPSAMPLE,
    DEFAULT_BIGVGAN_CHANNELS, DEFAULT_CFM_STEPS, DEFAULT_DIT_DIM, DEFAULT_DIT_LAYERS,
};
use vt_core::ieee::F32;

fn single(x: f32) -> F32 {
    F32::from_bits(x.to_bits())
}

#[test]
fn test_cfm_config_default() {
    let config = CfmConfig::default();
    assert_eq!(config.n_timesteps, DEFAULT_CFM_STEPS);
    assert_eq!(config.dit_layers, DEFAULT_DIT_LAYERS);
    assert_eq!(config.dit_dim, DEFAULT_DIT_DIM);
    assert!(config.use_euler);
    assert!(matches!(config.time_sampling, TimeSampling::Uniform));
}

#[test]
fn test_bigvgan_config_default() {
    let config = BigVganConfig::default();
    assert_eq!(config.channels, DEFAULT_BIGVGAN_CHANNELS);
    assert_eq!(config.upsample_blocks, 4);
    assert!(config.use_anti_alias);
}

#[test]
fn test_bigvgan_actual_upsample() {
    let config = BigVganConfig::default();
    assert_eq!(config.actual_upsample(), 256);
}

#[test]
fn test_convnet_v2_architecture() {
    let arch = DecoderArchitecture::convnet_v2();
    assert_eq!(arch.decoder_type, DecoderType::ConvNetV2);
    assert_eq!(arch.upsample_ratio, CURRENT_CONVNET_UPSAMPLE);
    assert!(arch.cfm_config.is_none());
    assert!(arch.bigvgan_config.is_none());
}

#[test]
fn test_cfm_bigvgan_v3_architecture() {
    let arch = DecoderArchitecture::cfm_bigvgan_v3();
    assert_eq!(arch.decoder_type, DecoderType::CfmBigVganV3);
    assert!(arch.cfm_config.is_some());
    assert!(arch.bigvgan_config.is_some());
    assert_eq!(arch.upsample_ratio, 256);
}

#[test]
fn test_hybrid_architecture() {
    let arch = DecoderArchitecture::hybrid();
    assert_eq!(arch.decoder_type, DecoderType::Hybrid);
    assert!(arch.cfm_config.is_some());
    assert_eq!(arch.cfm_config.as_ref().unwrap().n_timesteps, 8);
}

#[test]
fn test_chunk_plan_short() {
    let cfm = ChunkedCfmInference::default();
    let plan = cfm.chunk_plan(50);
    assert_eq!(plan.len(), 1);
    assert_eq!(plan[0], (0, 50));
}

#[test]
fn test_chunk_plan_long() {
    let cfm = ChunkedCfmInference::new(100, 20);
    let plan = cfm.chunk_plan(250);
    assert_eq!(plan.len(), 3);
    assert_eq!(plan[0], (0, 100));
    assert_eq!(plan[1], (100, 200));
    assert_eq!(plan[2], (200, 250));
}

#[test]
fn test_chunk_plan_exact_multiple() {
    let cfm = ChunkedCfmInference::new(100, 20);
    let plan = cfm.chunk_plan(200);
    assert_eq!(plan.len(), 2);
}

#[test]
fn test_num_chunks() {
    let cfm = ChunkedCfmInference::new(100, 20);
    assert_eq!(cfm.num_chunks(50), 1);
    assert_eq!(cfm.num_chunks(100), 1);
    assert_eq!(cfm.num_chunks(101), 2);
    assert_eq!(cfm.num_chunks(300), 3);
}

#[test]
fn test_reference_range() {
    let cfm = ChunkedCfmInference::new(100, 20);
    let (start, end) = cfm.reference_range(0, 100);
    assert_eq!(start, 80);
    assert_eq!(end, 100);
}

#[test]
fn test_reference_range_first_chunk() {
    let cfm = ChunkedCfmInference::new(100, 20);
    let (start, end) = cfm.reference_range(0, 0);
    assert_eq!(start, 0);
    assert_eq!(end, 0);
}

#[test]
fn test_dit_config_default() {
    let config = DitModelConfig::default();
    assert_eq!(config.num_layers, DEFAULT_DIT_LAYERS);
    assert_eq!(config.input_dim, 80);
    assert_eq!(config.patch_size, 1);
}

#[test]
fn test_estimate_dit_params() {
    let config = DitModelConfig::default();
    let params = estimate_dit_params(&config);
    assert!(
        params > 100_000_000,
        "DiT should have >100M params, got {params}"
    );
    assert!(
        params < 500_000_000,
        "DiT should have <500M params, got {params}"
    );
    assert_eq!(params, 229380096);
}

#[test]
fn test_migration_path() {
    let path = MigrationPath::v2_to_v3();
    assert_eq!(path.steps.len(), 6);
    assert!(path.total_days() as f32 > 15.0);
    assert_eq!(path.total_days(), 20);
}

#[test]
fn test_migration_path_display() {
    let path = MigrationPath::v2_to_v3();
    let s = path.to_string();
    assert!(s.contains("v2 → v3"));
    assert!(s.contains("DiT"));
    assert!(s.contains("BigVGAN"));
    assert!(s.starts_with("v2 → v3 迁移路径 (总计 20 天):\n\n  1. DiT 模型加载 (5 天)\n    实现 DiT"));
    assert!(s.ends_with("    依赖: 5. 管道集成\n"));
}

#[test]
fn test_migration_step_dependencies() {
    let path = MigrationPath::v2_to_v3();
    let step2 = &path.steps[1];
    assert!(step2.dependencies.contains(&"1. DiT 模型加载".to_string()));
}

#[test]
fn every_step_depends_on_earlier_ones() {
    let path = MigrationPath::v2_to_v3();
    for (i, step) in path.steps.iter().enumerate() {
        for needed in &step.dependencies {
            assert!(path.steps[..i].iter().any(|s| &s.name == needed));
        }
    }
}

#[test]
fn the_chunks_cover_every_frame_once() {
    let cfm = ChunkedCfmInference::new(3, 100);
    assert_eq!((cfm.chunk_len, cfm.ref_overlap), (10, 1));
    let plan = cfm.chunk_plan(35);
    assert_eq!(plan, vec![(0, 10), (10, 20), (20, 30), (30, 35)]);
    assert_eq!(cfm.chunk_frames(35), vec![11, 11, 11, 6]);
    assert_eq!(cfm.chunk_plan(0), vec![(0, 0)]);
}

#[test]
fn a_report_expects_much_at_a_high_price() {
    let comparison = ArchitectureComparison::new();
    assert_eq!(comparison.v2.decoder_type, DecoderType::ConvNetV2);
    assert_eq!(comparison.v3.decoder_type, DecoderType::CfmBigVganV3);
    let report = ComparisonReport::new(
        single(1.3),
        single(1.65),
        single(1.1),
        single(1.4),
        single(1.27),
    );
    assert_eq!(report.quality_gain, QualityGain::Significant);
    assert_eq!(report.migration_cost, MigrationCost::High);
    let step = CfmStep::new(single(0.5), single(0.03125), 3);
    assert_eq!(step.velocity_dim, 3);
}
