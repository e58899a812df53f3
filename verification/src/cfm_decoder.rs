//! The decoder: how semantic tokens become sound, and the way from the one design to the next.
use vstd::prelude::*;

use crate::ieee::F32;
use crate::text;
use crate::text::{cat3, cat5, decimal_text, join};

verus! {

/// The steps of denoising.
pub const DEFAULT_CFM_STEPS: usize = 32;

/// The layers of the diffusion transformer.
pub const DEFAULT_DIT_LAYERS: usize = 22;

/// The hidden dimension of the diffusion transformer.
pub const DEFAULT_DIT_DIM: usize = 768;

/// The factor by which BigVGAN upsamples.
pub const DEFAULT_BIGVGAN_UPSAMPLE: usize = 8;

/// The channels of BigVGAN.
pub const DEFAULT_BIGVGAN_CHANNELS: usize = 512;

/// The mel frames of a chunk.
pub const DEFAULT_CHUNK_LEN_FRAMES: usize = 100;

/// The mel frames of the reference of a chunk.
pub const DEFAULT_REF_OVERLAP_FRAMES: usize = 20;

/// The factor by which the convolutional decoder upsamples.
pub const CURRENT_CONVNET_UPSAMPLE: usize = 1920;

/// How the time steps are spread.
#[derive(Debug, Clone, Copy)]
pub enum TimeSampling {
    /// Evenly.
    Uniform,
    /// By a power.
    Polynomial(F32),
}

/// The settings of conditional flow matching.
#[derive(Debug, Clone, Copy)]
pub struct CfmConfig {
    /// The steps of denoising.
    pub n_timesteps: usize,
    /// The layers of the transformer.
    pub dit_layers: usize,
    /// The hidden dimension of the transformer.
    pub dit_dim: usize,
    /// How the time steps are spread.
    pub time_sampling: TimeSampling,
    /// Euler steps, else Heun steps.
    pub use_euler: bool,
}

impl CfmConfig {
    /// The settings with that many steps and otherwise those that are used unless others are given.
    pub open spec fn with_steps(n_timesteps: usize) -> CfmConfig {
        CfmConfig {
            n_timesteps,
            dit_layers: DEFAULT_DIT_LAYERS,
            dit_dim: DEFAULT_DIT_DIM,
            time_sampling: TimeSampling::Uniform,
            use_euler: true,
        }
    }
}

impl Default for CfmConfig {
    fn default() -> (r: Self)
        ensures
            r == CfmConfig::with_steps(DEFAULT_CFM_STEPS),
            r.n_timesteps == 32 && r.dit_layers == 22 && r.dit_dim == 768,
            r.time_sampling is Uniform && r.use_euler,
    {
        CfmConfig {
            n_timesteps: DEFAULT_CFM_STEPS,
            dit_layers: DEFAULT_DIT_LAYERS,
            dit_dim: DEFAULT_DIT_DIM,
            time_sampling: TimeSampling::Uniform,
            use_euler: true,
        }
    }
}

/// A step of denoising.
#[derive(Debug, Clone, Copy)]
pub struct CfmStep {
    /// The time.
    pub timestep: F32,
    /// The length of the step.
    pub dt: F32,
    /// The dimension of the velocity.
    pub velocity_dim: usize,
}

impl CfmStep {
    /// A step.
    pub fn new(timestep: F32, dt: F32, velocity_dim: usize) -> (r: Self)
        ensures
            r == (CfmStep { timestep, dt, velocity_dim }),
    {
        CfmStep { timestep, dt, velocity_dim }
    }
}

/// The settings of the BigVGAN vocoder.
#[derive(Debug, Clone)]
pub struct BigVganConfig {
    /// The factor from mel frames to samples.
    pub upsample_total: usize,
    /// The channels.
    pub channels: usize,
    /// The blocks that upsample.
    pub upsample_blocks: usize,
    /// The factor of each block.
    pub upsample_factors: Vec<usize>,
    /// The channels of the activation.
    pub snake_channels: usize,
    /// Whether aliasing is filtered out.
    pub use_anti_alias: bool,
}

/// The product of the first `n` factors.
pub open spec fn product(factors: Seq<usize>, n: int) -> nat
    decreases n,
{
    if n <= 0 {
        1
    } else {
        product(factors, n - 1) * factors[n - 1] as nat
    }
}

impl BigVganConfig {
    /// The settings are those that are used unless others are given.
    pub open spec fn is_default(self) -> bool {
        &&& self.upsample_total == DEFAULT_BIGVGAN_UPSAMPLE
        &&& self.channels == DEFAULT_BIGVGAN_CHANNELS
        &&& self.upsample_blocks == 4
        &&& self.upsample_factors@ == seq![8usize, 8, 2, 2]
        &&& self.snake_channels == 80
        &&& self.use_anti_alias
    }

    /// The product of the factors of the blocks.
    pub fn actual_upsample(&self) -> (r: usize)
        requires
            forall|n: int|
                0 <= n <= self.upsample_factors@.len() ==> #[trigger] product(
                    self.upsample_factors@,
                    n,
                ) <= usize::MAX,
        ensures
            r == product(self.upsample_factors@, self.upsample_factors@.len() as int),
    {
        let mut out: usize = 1;
        let mut i: usize = 0;
        while i < self.upsample_factors.len()
            invariant
                i <= self.upsample_factors@.len(),
                forall|n: int|
                    0 <= n <= self.upsample_factors@.len() ==> #[trigger] product(
                        self.upsample_factors@,
                        n,
                    ) <= usize::MAX,
                out == product(self.upsample_factors@, i as int),
            decreases self.upsample_factors@.len() - i,
        {
            assert(product(self.upsample_factors@, i + 1) == out as nat
                * self.upsample_factors@[i as int] as nat);
            out = out * self.upsample_factors[i];
            i += 1;
        }
        out
    }
}

impl Default for BigVganConfig {
    fn default() -> (r: Self)
        ensures
            r.is_default(),
            r.upsample_total == 8 && r.channels == 512 && r.upsample_blocks == 4,
            r.upsample_factors@ == seq![8usize, 8, 2, 2] && r.snake_channels == 80,
            r.use_anti_alias,
    {
        let mut factors: Vec<usize> = Vec::new();
        factors.push(8);
        factors.push(8);
        factors.push(2);
        factors.push(2);
        assert(factors@ =~= seq![8usize, 8, 2, 2]);
        BigVganConfig {
            upsample_total: DEFAULT_BIGVGAN_UPSAMPLE,
            channels: DEFAULT_BIGVGAN_CHANNELS,
            upsample_blocks: 4,
            upsample_factors: factors,
            snake_channels: 80,
            use_anti_alias: true,
        }
    }
}

/// The blocks of the vocoder upsample by 256 in all unless others are given.
pub proof fn law_default_upsample(config: BigVganConfig)
    requires
        config.is_default(),
    ensures
        product(config.upsample_factors@, config.upsample_factors@.len() as int) == 256,
        forall|n: int|
            0 <= n <= config.upsample_factors@.len() ==> #[trigger] product(
                config.upsample_factors@,
                n,
            ) <= 256,
{
    let f = config.upsample_factors@;
    assert(f[0] == 8 && f[1] == 8 && f[2] == 2 && f[3] == 2);
    assert(product(f, 0) == 1);
    assert(product(f, 1) == 1 * 8);
    assert(product(f, 2) == 8 * 8);
    assert(product(f, 3) == 64 * 2);
    assert(product(f, 4) == 128 * 2);
}

/// The factors are multiplied one after the other, from 1.
pub proof fn law_product(factors: Seq<usize>, n: int)
    requires
        0 <= n < factors.len(),
    ensures
        product(factors, 0) == 1,
        product(factors, n + 1) == product(factors, n) * factors[n],
{
}

/// A kind of decoder.
#[derive(Debug, Clone, Copy, PartialEq, Eq, Structural)]
pub enum DecoderType {
    /// Convolutions.
    ConvNetV2,
    /// Conditional flow matching with BigVGAN.
    CfmBigVganV3,
    /// Convolutions where speed counts, flow matching where quality does.
    Hybrid,
}

/// A decoder.
#[derive(Debug, Clone)]
pub struct DecoderArchitecture {
    /// The kind.
    pub decoder_type: DecoderType,
    /// The settings of flow matching, where it is used.
    pub cfm_config: Option<CfmConfig>,
    /// The settings of BigVGAN, where it is used.
    pub bigvgan_config: Option<BigVganConfig>,
    /// The factor by which the decoder upsamples.
    pub upsample_ratio: usize,
    /// The rate of the tokens in Hz.
    pub input_sample_rate: u32,
    /// The rate of the sound in Hz.
    pub output_sample_rate: u32,
}

impl DecoderArchitecture {
    /// The convolutional decoder.
    pub open spec fn is_v2(self) -> bool {
        &&& self.decoder_type == DecoderType::ConvNetV2
        &&& self.cfm_config is None
        &&& self.bigvgan_config is None
        &&& self.upsample_ratio == CURRENT_CONVNET_UPSAMPLE
        &&& self.input_sample_rate == 12
        &&& self.output_sample_rate == 24000
    }

    /// The decoder with flow matching.
    pub open spec fn is_v3(self) -> bool {
        &&& self.decoder_type == DecoderType::CfmBigVganV3
        &&& self.cfm_config == Some(CfmConfig::with_steps(DEFAULT_CFM_STEPS))
        &&& self.bigvgan_config is Some
        &&& self.bigvgan_config->0.is_default()
        &&& self.upsample_ratio == 256
        &&& self.input_sample_rate == 12
        &&& self.output_sample_rate == 24000
    }

    /// The convolutional decoder.
    pub fn convnet_v2() -> (r: Self)
        ensures
            r.is_v2(),
            r.decoder_type is ConvNetV2 && r.cfm_config is None && r.bigvgan_config is None,
            r.upsample_ratio == 1920 && r.input_sample_rate == 12 && r.output_sample_rate == 24000,
    {
        DecoderArchitecture {
            decoder_type: DecoderType::ConvNetV2,
            cfm_config: None,
            bigvgan_config: None,
            upsample_ratio: CURRENT_CONVNET_UPSAMPLE,
            input_sample_rate: 12,
            output_sample_rate: 24000,
        }
    }

    /// The decoder with flow matching.
    pub fn cfm_bigvgan_v3() -> (r: Self)
        ensures
            r.is_v3(),
            r.decoder_type is CfmBigVganV3,
            r.upsample_ratio == 256 && r.input_sample_rate == 12 && r.output_sample_rate == 24000,
            r.cfm_config is Some && r.cfm_config->0.n_timesteps == 32 && r.cfm_config->0.dit_layers
                == 22 && r.cfm_config->0.dit_dim == 768 && r.cfm_config->0.use_euler,
            r.bigvgan_config is Some && r.bigvgan_config->0.upsample_factors@ == seq![
                8usize,
                8,
                2,
                2,
            ] && r.bigvgan_config->0.channels == 512,
    {
        let bigvgan = BigVganConfig::default();
        proof {
            law_default_upsample(bigvgan);
        }
        DecoderArchitecture {
            decoder_type: DecoderType::CfmBigVganV3,
            upsample_ratio: bigvgan.actual_upsample(),
            input_sample_rate: 12,
            output_sample_rate: 24000,
            cfm_config: Some(CfmConfig::default()),
            bigvgan_config: Some(bigvgan),
        }
    }

    /// The decoder with either.
    pub fn hybrid() -> (r: Self)
        ensures
            r.decoder_type == DecoderType::Hybrid,
            r.cfm_config == Some(CfmConfig::with_steps(8)),
            r.bigvgan_config is Some,
            r.bigvgan_config->0.is_default(),
            r.upsample_ratio == DEFAULT_BIGVGAN_UPSAMPLE,
            r.upsample_ratio == 8,
            r.cfm_config is Some && r.cfm_config->0.n_timesteps == 8 && r.cfm_config->0.dit_layers
                == 22 && r.cfm_config->0.dit_dim == 768 && r.cfm_config->0.use_euler,
            r.bigvgan_config is Some && r.bigvgan_config->0.upsample_factors@ == seq![
                8usize,
                8,
                2,
                2,
            ] && r.bigvgan_config->0.channels == 512,
            r.input_sample_rate == 12,
            r.output_sample_rate == 24000,
    {
        let mut cfm = CfmConfig::default();
        cfm.n_timesteps = 8;
        DecoderArchitecture {
            decoder_type: DecoderType::Hybrid,
            cfm_config: Some(cfm),
            bigvgan_config: Some(BigVganConfig::default()),
            upsample_ratio: DEFAULT_BIGVGAN_UPSAMPLE,
            input_sample_rate: 12,
            output_sample_rate: 24000,
        }
    }
}

/// The two designs side by side.
#[derive(Debug, Clone)]
pub struct ArchitectureComparison {
    /// The convolutional decoder.
    pub v2: DecoderArchitecture,
    /// The decoder with flow matching.
    pub v3: DecoderArchitecture,
}

impl Default for ArchitectureComparison {
    fn default() -> (r: Self)
        ensures
            r.v2.is_v2(),
            r.v3.is_v3(),
    {
        ArchitectureComparison {
            v2: DecoderArchitecture::convnet_v2(),
            v3: DecoderArchitecture::cfm_bigvgan_v3(),
        }
    }
}

impl ArchitectureComparison {
    /// The two designs side by side.
    pub fn new() -> (r: Self)
        ensures
            r.v2.is_v2(),
            r.v3.is_v3(),
    {
        ArchitectureComparison::default()
    }
}

/// How much better the sound gets.
#[derive(Debug, Clone, Copy, PartialEq, Eq, Structural)]
pub enum QualityGain {
    /// A little.
    Marginal,
    /// Somewhat.
    Moderate,
    /// Much.
    Significant,
}

/// What a change of design costs.
#[derive(Debug, Clone, Copy, PartialEq, Eq, Structural)]
pub enum MigrationCost {
    /// Changes of code.
    Low,
    /// New weights.
    Medium,
    /// New training.
    High,
}

/// How the two designs compare.
#[derive(Debug, Clone, Copy)]
pub struct ComparisonReport {
    /// The seconds that the convolutional decoder takes.
    pub v2_inference_secs: F32,
    /// The seconds that the decoder with flow matching takes.
    pub v3_inference_secs: F32,
    /// The real-time factor of the convolutional decoder.
    pub v2_rtf: F32,
    /// The real-time factor of the decoder with flow matching.
    pub v3_rtf: F32,
    /// How many times as long the decoder with flow matching takes.
    pub speedup_factor: F32,
    /// How much better the sound gets.
    pub quality_gain: QualityGain,
    /// What the change costs.
    pub migration_cost: MigrationCost,
}

impl ComparisonReport {
    /// The report with these times, real-time factors and their ratio.
    pub fn new(
        v2_inference_secs: F32,
        v3_inference_secs: F32,
        v2_rtf: F32,
        v3_rtf: F32,
        speedup_factor: F32,
    ) -> (r: Self)
        ensures
            r == (ComparisonReport {
                v2_inference_secs,
                v3_inference_secs,
                v2_rtf,
                v3_rtf,
                speedup_factor,
                quality_gain: QualityGain::Significant,
                migration_cost: MigrationCost::High,
            }),
    {
        ComparisonReport {
            v2_inference_secs,
            v3_inference_secs,
            v2_rtf,
            v3_rtf,
            speedup_factor,
            quality_gain: QualityGain::Significant,
            migration_cost: MigrationCost::High,
        }
    }
}

/// Flow matching on chunks of a long utterance.
#[derive(Debug, Clone, Copy)]
pub struct ChunkedCfmInference {
    /// The settings of flow matching.
    pub cfm_config: CfmConfig,
    /// The mel frames of a chunk.
    pub chunk_len: usize,
    /// The mel frames of the reference of a chunk.
    pub ref_overlap: usize,
}

impl Default for ChunkedCfmInference {
    fn default() -> (r: Self)
        ensures
            r == (ChunkedCfmInference {
                cfm_config: CfmConfig::with_steps(DEFAULT_CFM_STEPS),
                chunk_len: DEFAULT_CHUNK_LEN_FRAMES,
                ref_overlap: DEFAULT_REF_OVERLAP_FRAMES,
            }),
            r.chunk_len == 100 && r.ref_overlap == 20 && r.cfm_config.n_timesteps == 32,
    {
        ChunkedCfmInference {
            cfm_config: CfmConfig::default(),
            chunk_len: DEFAULT_CHUNK_LEN_FRAMES,
            ref_overlap: DEFAULT_REF_OVERLAP_FRAMES,
        }
    }
}

/// How many chunks of `chunk_len` frames `total` frames make, at least one.
pub open spec fn chunks(chunk_len: int, total: int) -> int {
    if total <= chunk_len {
        1
    } else {
        (total + chunk_len - 1) / chunk_len
    }
}

/// The frames of the chunk at `i`.
pub open spec fn chunk_at(chunk_len: int, total: int, i: int) -> (int, int) {
    (
        i * chunk_len,
        if (i + 1) * chunk_len < total {
            (i + 1) * chunk_len
        } else {
            total
        },
    )
}

/// `plan` holds the chunks in order.
pub open spec fn is_plan(plan: Seq<(usize, usize)>, chunk_len: int, total: int) -> bool {
    &&& plan.len() == chunks(chunk_len, total)
    &&& forall|i: int|
        #![trigger plan[i]]
        0 <= i < plan.len() ==> plan[i].0 == chunk_at(chunk_len, total, i).0 && plan[i].1
            == chunk_at(chunk_len, total, i).1
}

/// The chunks of a plan cover all frames once: the first starts at the first frame, each starts where
/// the one before ends, the last ends with the last frame, and none is longer than a chunk may be.
/// None is empty unless there is no frame at all.
pub proof fn law_plan_covers(plan: Seq<(usize, usize)>, chunk_len: int, total: int)
    requires
        is_plan(plan, chunk_len, total),
        total >= 0,
        chunk_len > 0 || chunk_len == 0 && total == 0,
    ensures
        plan.len() > 0,
        plan[0].0 == 0,
        plan.last().1 == total,
        forall|i: int, j: int|
            #![trigger plan[i], plan[j]]
            0 <= i && j == i + 1 && j < plan.len() ==> plan[i].1 == plan[j].0,
        forall|i: int|
            0 <= i < plan.len() ==> {
                let chunk = #[trigger] plan[i];
                &&& chunk.1 - chunk.0 <= chunk_len
                &&& total > 0 ==> chunk.0 < chunk.1
            },
{
    let n = chunks(chunk_len, total);
    lemma_chunks(chunk_len, total);
    assert(plan.last() == plan[n - 1]);
    assert(0 * chunk_len == 0);
    assert forall|i: int| 0 <= i < plan.len() implies {
        let chunk = #[trigger] plan[i];
        &&& chunk.1 - chunk.0 <= chunk_len
        &&& total > 0 ==> chunk.0 < chunk.1
    } by {
        assert((i + 1) * chunk_len == i * chunk_len + chunk_len) by (nonlinear_arith);
        if i < n - 1 {
            assert((i + 1) * chunk_len <= (n - 1) * chunk_len) by (nonlinear_arith)
                requires
                    i < n - 1,
                    chunk_len >= 0,
            ;
        }
        assert(i * chunk_len <= (n - 1) * chunk_len) by (nonlinear_arith)
            requires
                i <= n - 1,
                chunk_len >= 0,
        ;
    }
    assert forall|i: int, j: int|
        #![trigger plan[i], plan[j]]
        0 <= i && j == i + 1 && j < plan.len() implies plan[i].1 == plan[j].0 by {
        assert((i + 1) * chunk_len <= (n - 1) * chunk_len) by (nonlinear_arith)
            requires
                i + 1 <= n - 1,
                chunk_len >= 0,
        ;
    }
}

/// The last chunk starts before the last frame and reaches it.
proof fn lemma_chunks(chunk_len: int, total: int)
    requires
        total >= 0,
        chunk_len > 0 || chunk_len == 0 && total == 0,
    ensures
        chunks(chunk_len, total) >= 1,
        total > 0 ==> (chunks(chunk_len, total) - 1) * chunk_len < total,
        chunks(chunk_len, total) * chunk_len >= total,
{
    if total > chunk_len {
        let n = (total + chunk_len - 1) / chunk_len;
        assert((n - 1) * chunk_len < total && n * chunk_len >= total && n >= 1) by (nonlinear_arith)
            requires
                total > chunk_len > 0,
                n == (total + chunk_len - 1) / chunk_len,
        ;
    } else {
        assert((1 - 1) * chunk_len == 0);
        assert(1 * chunk_len == chunk_len);
    }
}

/// All chunks but the last are full: the chunk at `i` starts after `i` full ones.
pub proof fn law_chunks_are_full(plan: Seq<(usize, usize)>, chunk_len: int, total: int, i: int)
    requires
        is_plan(plan, chunk_len, total),
        total >= 0,
        chunk_len > 0 || chunk_len == 0 && total == 0,
        0 <= i < plan.len(),
    ensures
        plan[i].0 == i * chunk_len,
        i < plan.len() - 1 ==> plan[i].1 - plan[i].0 == chunk_len,
        i == plan.len() - 1 ==> plan[i].1 == total,
{
    law_plan_covers(plan, chunk_len, total);
    lemma_chunks(chunk_len, total);
    assert((i + 1) * chunk_len == i * chunk_len + chunk_len) by (nonlinear_arith);
    if i < plan.len() - 1 {
        assert(plan[i].1 == plan[i + 1].0);
    }
}

impl ChunkedCfmInference {
    /// Chunks of at least 10 frames, and references of at most half of `chunk_len` frames.
    pub fn new(chunk_len: usize, ref_overlap: usize) -> (r: Self)
        ensures
            r.cfm_config == CfmConfig::with_steps(DEFAULT_CFM_STEPS),
            r.chunk_len == (if chunk_len < 10 {
                10
            } else {
                chunk_len
            }),
            r.ref_overlap == (if ref_overlap < chunk_len / 2 {
                ref_overlap
            } else {
                chunk_len / 2
            }),
    {
        ChunkedCfmInference {
            cfm_config: CfmConfig::default(),
            chunk_len: if chunk_len < 10 {
                10
            } else {
                chunk_len
            },
            ref_overlap: if ref_overlap < chunk_len / 2 {
                ref_overlap
            } else {
                chunk_len / 2
            },
        }
    }

    /// The chunks of `total_mel_frames` frames, each with its first frame and the one after its last.
    pub fn chunk_plan(&self, total_mel_frames: usize) -> (r: Vec<(usize, usize)>)
        requires
            self.chunk_len > 0 || total_mel_frames == 0,
        ensures
            is_plan(r@, self.chunk_len as int, total_mel_frames as int),
    {
        let mut out: Vec<(usize, usize)> = Vec::new();
        let len: usize = self.chunk_len;
        let total: usize = total_mel_frames;
        if total <= len {
            out.push((0, total));
            assert(0 * len == 0 && (0 + 1) * len == len);
            return out;
        }
        let ghost n = chunks(len as int, total as int);
        let mut start: usize = 0;
        proof {
            lemma_chunks(len as int, total as int);
            assert(0 * len == 0);
        }
        while start < total
            invariant
                0 < len < total,
                n == chunks(len as int, total as int),
                (n - 1) * len < total <= n * len,
                out@.len() <= n,
                start <= total,
                out@.len() < n ==> start == out@.len() * len,
                out@.len() == n ==> start == total,
                forall|i: int|
                    #![trigger out@[i]]
                    0 <= i < out@.len() ==> out@[i].0 == chunk_at(len as int, total as int, i).0
                        && out@[i].1 == chunk_at(len as int, total as int, i).1,
            decreases total - start,
        {
            let ghost k = out@.len() as int;
            assert((k + 1) * len == k * len + len) by (nonlinear_arith);
            let end: usize = if total - start < len {
                total
            } else {
                start + len
            };
            proof {
                if k + 1 < n {
                    assert((k + 1) * len <= (n - 1) * len) by (nonlinear_arith)
                        requires
                            k + 1 <= n - 1,
                            len > 0,
                    ;
                }
            }
            out.push((start, end));
            start = end;
        }
        assert(out@.len() == n) by {
            let k = out@.len() as int;
            if k < n {
                assert(k * len <= (n - 1) * len) by (nonlinear_arith)
                    requires
                        k <= n - 1,
                        len > 0,
                ;
            }
        }
        out
    }

    /// How many chunks there are.
    pub fn num_chunks(&self, total_mel_frames: usize) -> (r: usize)
        requires
            self.chunk_len > 0 || total_mel_frames == 0,
        ensures
            r == chunks(self.chunk_len as int, total_mel_frames as int),
            r >= 1,
            total_mel_frames <= r * self.chunk_len,
            total_mel_frames > 0 ==> (r - 1) * self.chunk_len < total_mel_frames,
    {
        proof {
            lemma_chunks(self.chunk_len as int, total_mel_frames as int);
        }
        self.chunk_plan(total_mel_frames).len()
    }

    /// The frames on which each chunk is worked out: its own and those of its reference.
    pub fn chunk_frames(&self, total_mel_frames: usize) -> (r: Vec<usize>)
        requires
            self.chunk_len > 0 || total_mel_frames == 0,
            self.chunk_len + self.ref_overlap <= usize::MAX || total_mel_frames + self.ref_overlap
                <= usize::MAX,
        ensures
            r@.len() == chunks(self.chunk_len as int, total_mel_frames as int),
            forall|i: int|
                0 <= i < r@.len() ==> {
                    let chunk = chunk_at(self.chunk_len as int, total_mel_frames as int, i);
                    #[trigger] r@[i] == chunk.1 - chunk.0 + self.ref_overlap
                },
            forall|i: int|
                0 <= i < r@.len() ==> (if (i + 1) * self.chunk_len < total_mel_frames {
                    #[trigger] r@[i] == self.chunk_len + self.ref_overlap
                } else {
                    r@[i] == total_mel_frames - i * self.chunk_len + self.ref_overlap
                }),
    {
        let plan = self.chunk_plan(total_mel_frames);
        proof {
            law_plan_covers(plan@, self.chunk_len as int, total_mel_frames as int);
        }
        let mut out: Vec<usize> = Vec::new();
        let mut i: usize = 0;
        while i < plan.len()
            invariant
                i <= plan@.len(),
                out@.len() == i,
                self.chunk_len + self.ref_overlap <= usize::MAX || total_mel_frames
                    + self.ref_overlap <= usize::MAX,
                is_plan(plan@, self.chunk_len as int, total_mel_frames as int),
                forall|k: int|
                    0 <= k < plan@.len() ==> {
                        let chunk = #[trigger] plan@[k];
                        &&& chunk.0 <= chunk.1 <= total_mel_frames
                        &&& chunk.1 - chunk.0 <= self.chunk_len
                    },
                forall|k: int|
                    0 <= k < out@.len() ==> {
                        let chunk = chunk_at(self.chunk_len as int, total_mel_frames as int, k);
                        #[trigger] out@[k] == chunk.1 - chunk.0 + self.ref_overlap
                    },
            decreases plan@.len() - i,
        {
            assert(plan@[i as int].0 <= plan@[i as int].1);
            out.push(plan[i].1 - plan[i].0 + self.ref_overlap);
            i += 1;
        }
        assert forall|k: int| 0 <= k < out@.len() implies (if (k + 1) * self.chunk_len
            < total_mel_frames {
            #[trigger] out@[k] == self.chunk_len + self.ref_overlap
        } else {
            out@[k] == total_mel_frames - k * self.chunk_len + self.ref_overlap
        }) by {
            let len = self.chunk_len as int;
            assert((k + 1) * len == k * len + len) by (nonlinear_arith);
        }
        out
    }

    /// The frames of the reference of the chunk that follows the frame `prev_chunk_end`.
    pub fn reference_range(&self, chunk_idx: usize, prev_chunk_end: usize) -> (r: (usize, usize))
        ensures
            r.0 == (if prev_chunk_end < self.ref_overlap {
                0
            } else {
                prev_chunk_end - self.ref_overlap
            }),
            r.1 == prev_chunk_end,
    {
        let _ = chunk_idx;
        (
            if prev_chunk_end < self.ref_overlap {
                0
            } else {
                prev_chunk_end - self.ref_overlap
            },
            prev_chunk_end,
        )
    }
}

/// The settings of a layer of the diffusion transformer.
#[derive(Debug, Clone, Copy, PartialEq, Eq, Structural)]
pub struct DitLayerConfig {
    /// The hidden dimension.
    pub hidden_dim: usize,
    /// The attention heads.
    pub num_heads: usize,
    /// The dimension inside the perceptron.
    pub mlp_dim: usize,
    /// Whether layers are normalised adaptively.
    pub use_adaln: bool,
    /// The dimension of the time embedding.
    pub time_embed_dim: usize,
}

impl Default for DitLayerConfig {
    fn default() -> (r: Self)
        ensures
            r == (DitLayerConfig {
                hidden_dim: DEFAULT_DIT_DIM,
                num_heads: 12,
                mlp_dim: 3072,
                use_adaln: true,
                time_embed_dim: 256,
            }),
    {
        DitLayerConfig {
            hidden_dim: DEFAULT_DIT_DIM,
            num_heads: 12,
            mlp_dim: DEFAULT_DIT_DIM * 4,
            use_adaln: true,
            time_embed_dim: 256,
        }
    }
}

/// The settings of the diffusion transformer.
#[derive(Debug, Clone, Copy, PartialEq, Eq, Structural)]
pub struct DitModelConfig {
    /// The layers.
    pub num_layers: usize,
    /// The settings of a layer.
    pub layer_config: DitLayerConfig,
    /// The mel bins.
    pub input_dim: usize,
    /// The dimension of the condition.
    pub condition_dim: usize,
    /// The frames of a patch.
    pub patch_size: usize,
}

impl Default for DitModelConfig {
    fn default() -> (r: Self)
        ensures
            r.num_layers == DEFAULT_DIT_LAYERS,
            r.layer_config == (DitLayerConfig {
                hidden_dim: DEFAULT_DIT_DIM,
                num_heads: 12,
                mlp_dim: 3072,
                use_adaln: true,
                time_embed_dim: 256,
            }),
            r.input_dim == 80,
            r.condition_dim == 768,
            r.patch_size == 1,
    {
        DitModelConfig {
            num_layers: DEFAULT_DIT_LAYERS,
            layer_config: DitLayerConfig::default(),
            input_dim: 80,
            condition_dim: 768,
            patch_size: 1,
        }
    }
}

/// The parameters of a layer: the projections of the attention, the perceptron, the adaptive norms
/// and the time embedding.
pub open spec fn layer_params(layer: DitLayerConfig) -> int {
    let hidden = layer.hidden_dim as int;
    let mlp = layer.mlp_dim as int;
    hidden * hidden * 4 + hidden * hidden + hidden * mlp * 2 + mlp * hidden + hidden * 2 * 4
        + layer.time_embed_dim as int * hidden * 2
}

/// The parameters of a layer, taken together by its width.
pub proof fn law_layer_params(layer: DitLayerConfig)
    ensures
        layer_params(layer) == layer.hidden_dim * (5 * layer.hidden_dim + 3 * layer.mlp_dim + 2
            * layer.time_embed_dim + 8),
{
    let h = layer.hidden_dim as int;
    let m = layer.mlp_dim as int;
    let t = layer.time_embed_dim as int;
    assert(h * h * 4 + h * h + h * m * 2 + m * h + h * 2 * 4 + t * h * 2 == h * (5 * h + 3 * m + 2
        * t + 8)) by (nonlinear_arith);
}

/// The parameters of the transformer.
pub fn estimate_dit_params(config: &DitModelConfig) -> (r: usize)
    requires
        layer_params(config.layer_config) <= usize::MAX,
        layer_params(config.layer_config) * config.num_layers <= usize::MAX,
    ensures
        r == layer_params(config.layer_config) * config.num_layers,
{
    let hidden: usize = config.layer_config.hidden_dim;
    let mlp: usize = config.layer_config.mlp_dim;
    let time: usize = config.layer_config.time_embed_dim;
    proof {
        let (h, m, t) = (hidden as int, mlp as int, time as int);
        assert(h * h >= 0) by (nonlinear_arith);
        assert(h * m >= 0 && m * h >= 0 && t * h >= 0) by (nonlinear_arith)
            requires
                h >= 0,
                m >= 0,
                t >= 0,
        ;
    }
    let per_layer: usize = hidden * hidden * 4 + hidden * hidden + hidden * mlp * 2 + mlp * hidden
        + hidden * 2 * 4 + time * hidden * 2;
    per_layer * config.num_layers
}

/// A step on the way from the one design to the next.
#[derive(Debug, Clone)]
pub struct MigrationStep {
    /// The name.
    pub name: String,
    /// What is to be done.
    pub description: String,
    /// The days that it takes.
    pub estimated_days: u32,
    /// The steps that must come before.
    pub dependencies: Vec<String>,
}

/// The way from the one design to the next.
#[derive(Debug, Clone)]
pub struct MigrationPath {
    /// The steps.
    pub steps: Vec<MigrationStep>,
}

/// The step has these contents.
pub open spec fn is_step(
    step: MigrationStep,
    name: Seq<char>,
    description: Seq<char>,
    days: u32,
    dependencies: Seq<Seq<char>>,
) -> bool {
    &&& step.name@ == name
    &&& step.description@ == description
    &&& step.estimated_days == days
    &&& text::texts(step.dependencies@) == dependencies
}

/// The steps from the convolutional decoder to the one with flow matching.
pub open spec fn is_v2_to_v3(steps: Seq<MigrationStep>) -> bool {
    &&& steps.len() == 6
    &&& is_step(
        steps[0],
        "1. DiT 模型加载"@,
        "实现 DiT (Diffusion Transformer) 模型的权重加载和前向传播。需要: safetensors 权重文件, AdaLN 实现, 时间步嵌入。"@,
        5,
        Seq::<Seq<char>>::empty(),
    )
    &&& is_step(
        steps[1],
        "2. CFM 推理循环"@,
        "实现 CFM 迭代去噪循环 (32 步 Euler 步进)。需要: 初始噪声生成, 条件引导 (语义 token embedding), 时间步调度。"@,
        3,
        seq!["1. DiT 模型加载"@],
    )
    &&& is_step(
        steps[2],
        "3. BigVGAN 声码器"@,
        "实现 BigVGAN 声码器 (mel → waveform)。需要: SnakeBeta 激活函数 (已在 decoder 中实现),anti-aliasing 滤波, 多尺度上采样。"@,
        5,
        Seq::<Seq<char>>::empty(),
    )
    &&& is_step(
        steps[3],
        "4. 分块推理 + SOLA 拼接"@,
        "实现分块 CFM 推理和 SOLA 拼接 (sola.rs 已实现)。需要: mel 分块, 参考条件更新, SOLA 拼接集成。"@,
        2,
        seq!["2. CFM 推理循环"@],
    )
    &&& is_step(
        steps[4],
        "5. 管道集成"@,
        "将 CFM + BigVGAN 解码器集成到 video-translator 管道。需要: 解码器接口抽象, 配置切换 (v2/v3), 性能基准测试。"@,
        3,
        seq!["2. CFM 推理循环"@, "3. BigVGAN 声码器"@, "4. 分块推理 + SOLA 拼接"@],
    )
    &&& is_step(
        steps[5],
        "6. 质量评估"@,
        "对比 v2 vs v3 的音频质量 (MOS, PESQ, 说话人相似度)。需要: 测试数据集, 评估脚本, A/B 对比测试。"@,
        2,
        seq!["5. 管道集成"@],
    )
}

/// One of the first `n` steps has this name.
pub open spec fn named_before(steps: Seq<MigrationStep>, n: int, name: Seq<char>) -> bool {
    exists|j: int| 0 <= j < n && (#[trigger] steps[j]).name@ == name
}

/// Every step depends only on steps that come before it.
pub proof fn law_dependencies_come_first(steps: Seq<MigrationStep>, i: int, k: int)
    requires
        is_v2_to_v3(steps),
        0 <= i < steps.len(),
        0 <= k < steps[i].dependencies@.len(),
    ensures
        named_before(steps, i, steps[i].dependencies@[k]@),
{
    let needed = text::texts(steps[i].dependencies@);
    assert(needed.len() == steps[i].dependencies@.len());
    assert(needed[k] == steps[i].dependencies@[k]@);
    if i == 0 {
        assert(text::texts(steps[0].dependencies@).len() == 0);
    } else if i == 1 {
        assert(text::texts(steps[1].dependencies@).len() == 1);
        assert(steps[0].name@ == needed[k]);
    } else if i == 2 {
        assert(text::texts(steps[2].dependencies@).len() == 0);
    } else if i == 3 {
        assert(text::texts(steps[3].dependencies@).len() == 1);
        assert(steps[1].name@ == needed[k]);
    } else if i == 4 {
        assert(text::texts(steps[4].dependencies@).len() == 3);
        assert(steps[1].name@ == needed[0]);
        assert(steps[2].name@ == needed[1]);
        assert(steps[3].name@ == needed[2]);
    } else {
        assert(text::texts(steps[5].dependencies@).len() == 1);
        assert(steps[4].name@ == needed[k]);
    }
}

/// The days of the first `n` steps.
pub open spec fn days_of(steps: Seq<MigrationStep>, n: int) -> nat
    decreases n,
{
    if n <= 0 {
        0
    } else {
        days_of(steps, n - 1) + steps[n - 1].estimated_days as nat
    }
}

/// The way takes 20 days.
pub proof fn law_twenty_days(steps: Seq<MigrationStep>)
    requires
        is_v2_to_v3(steps),
    ensures
        days_of(steps, 6) == 20,
{
    assert(days_of(steps, 0) == 0);
    assert(days_of(steps, 1) == 5);
    assert(days_of(steps, 2) == 8);
    assert(days_of(steps, 3) == 13);
    assert(days_of(steps, 4) == 15);
    assert(days_of(steps, 5) == 18);
}

proof fn lemma_days_grow(steps: Seq<MigrationStep>, a: int, b: int)
    requires
        0 <= a <= b,
    ensures
        days_of(steps, a) <= days_of(steps, b),
    decreases b - a,
{
    if a < b {
        lemma_days_grow(steps, a, b - 1);
    }
}

/// What is written of a step.
pub open spec fn step_text(step: MigrationStep) -> Seq<char> {
    let head = "\n  "@ + step.name@ + " ("@ + text::decimal(step.estimated_days as nat) + " 天)\n    "@
        + step.description@ + "\n"@;
    if step.dependencies@.len() == 0 {
        head
    } else {
        head + "    依赖: "@ + text::joined(text::texts(step.dependencies@), ", "@) + "\n"@
    }
}

/// What is written of the first `n` steps.
pub open spec fn steps_text(steps: Seq<MigrationStep>, n: int) -> Seq<char>
    decreases n,
{
    if n <= 0 {
        Seq::empty()
    } else {
        steps_text(steps, n - 1) + step_text(steps[n - 1])
    }
}

/// The steps from the one design to the next: what each is, how long it takes and what it needs.
pub proof fn law_steps_to_next_design(steps: Seq<MigrationStep>)
    requires
        is_v2_to_v3(steps),
    ensures
        steps.len() == 6,
        steps[0].name@ == "1. DiT 模型加载"@ && steps[0].estimated_days == 5,
        steps[0].description@
            == "实现 DiT (Diffusion Transformer) 模型的权重加载和前向传播。需要: safetensors 权重文件, AdaLN 实现, 时间步嵌入。"@,
        text::texts(steps[0].dependencies@) == Seq::<Seq<char>>::empty(),
        steps[1].name@ == "2. CFM 推理循环"@ && steps[1].estimated_days == 3,
        steps[1].description@
            == "实现 CFM 迭代去噪循环 (32 步 Euler 步进)。需要: 初始噪声生成, 条件引导 (语义 token embedding), 时间步调度。"@,
        text::texts(steps[1].dependencies@) == seq!["1. DiT 模型加载"@],
        steps[2].name@ == "3. BigVGAN 声码器"@ && steps[2].estimated_days == 5,
        steps[2].description@
            == "实现 BigVGAN 声码器 (mel → waveform)。需要: SnakeBeta 激活函数 (已在 decoder 中实现),anti-aliasing 滤波, 多尺度上采样。"@,
        text::texts(steps[2].dependencies@) == Seq::<Seq<char>>::empty(),
        steps[3].name@ == "4. 分块推理 + SOLA 拼接"@ && steps[3].estimated_days == 2,
        steps[3].description@
            == "实现分块 CFM 推理和 SOLA 拼接 (sola.rs 已实现)。需要: mel 分块, 参考条件更新, SOLA 拼接集成。"@,
        text::texts(steps[3].dependencies@) == seq!["2. CFM 推理循环"@],
        steps[4].name@ == "5. 管道集成"@ && steps[4].estimated_days == 3,
        steps[4].description@
            == "将 CFM + BigVGAN 解码器集成到 video-translator 管道。需要: 解码器接口抽象, 配置切换 (v2/v3), 性能基准测试。"@,
        text::texts(steps[4].dependencies@) == seq!["2. CFM 推理循环"@, "3. BigVGAN 声码器"@, "4. 分块推理 + SOLA 拼接"@],
        steps[5].name@ == "6. 质量评估"@ && steps[5].estimated_days == 2,
        steps[5].description@
            == "对比 v2 vs v3 的音频质量 (MOS, PESQ, 说话人相似度)。需要: 测试数据集, 评估脚本, A/B 对比测试。"@,
        text::texts(steps[5].dependencies@) == seq!["5. 管道集成"@],
{
}

/// The days add up step by step, and so does the text: each step with its days and its description, and
/// with what it needs where it needs anything.
pub proof fn law_steps_add_up(steps: Seq<MigrationStep>, n: int)
    requires
        0 <= n < steps.len(),
    ensures
        days_of(steps, 0) == 0,
        days_of(steps, n + 1) == days_of(steps, n) + steps[n].estimated_days,
        steps_text(steps, 0) == Seq::<char>::empty(),
        ({
            let step = steps[n];
            let head = "\n  "@ + step.name@ + " ("@ + text::decimal(step.estimated_days as nat)
                + " 天)\n    "@ + step.description@ + "\n"@;
            &&& step.dependencies@.len() == 0 ==> steps_text(steps, n + 1) == steps_text(steps, n)
                + head
            &&& step.dependencies@.len() > 0 ==> steps_text(steps, n + 1) == steps_text(steps, n)
                + (head + "    依赖: "@ + text::joined(text::texts(step.dependencies@), ", "@)
                + "\n"@)
        }),
{
}

impl MigrationPath {
    /// The way from the convolutional decoder to the one with flow matching.
    pub fn v2_to_v3() -> (r: Self)
        ensures
            is_v2_to_v3(r.steps@),
    {
        let mut steps: Vec<MigrationStep> = Vec::new();
        let mut needed: Vec<String> = Vec::new();
        assert(text::texts(needed@) =~= Seq::<Seq<char>>::empty());
        steps.push(
            MigrationStep {
                name: "1. DiT 模型加载".to_owned(),
                description: "实现 DiT (Diffusion Transformer) 模型的权重加载和前向传播。需要: safetensors 权重文件, AdaLN 实现, 时间步嵌入。".to_owned(),
                estimated_days: 5,
                dependencies: needed,
            },
        );
        needed = Vec::new();
        needed.push("1. DiT 模型加载".to_owned());
        assert(text::texts(needed@) =~= seq!["1. DiT 模型加载"@]);
        steps.push(
            MigrationStep {
                name: "2. CFM 推理循环".to_owned(),
                description: "实现 CFM 迭代去噪循环 (32 步 Euler 步进)。需要: 初始噪声生成, 条件引导 (语义 token embedding), 时间步调度。".to_owned(),
                estimated_days: 3,
                dependencies: needed,
            },
        );
        needed = Vec::new();
        assert(text::texts(needed@) =~= Seq::<Seq<char>>::empty());
        steps.push(
            MigrationStep {
                name: "3. BigVGAN 声码器".to_owned(),
                description: "实现 BigVGAN 声码器 (mel → waveform)。需要: SnakeBeta 激活函数 (已在 decoder 中实现),anti-aliasing 滤波, 多尺度上采样。".to_owned(),
                estimated_days: 5,
                dependencies: needed,
            },
        );
        needed = Vec::new();
        needed.push("2. CFM 推理循环".to_owned());
        assert(text::texts(needed@) =~= seq!["2. CFM 推理循环"@]);
        steps.push(
            MigrationStep {
                name: "4. 分块推理 + SOLA 拼接".to_owned(),
                description: "实现分块 CFM 推理和 SOLA 拼接 (sola.rs 已实现)。需要: mel 分块, 参考条件更新, SOLA 拼接集成。".to_owned(),
                estimated_days: 2,
                dependencies: needed,
            },
        );
        needed = Vec::new();
        needed.push("2. CFM 推理循环".to_owned());
        needed.push("3. BigVGAN 声码器".to_owned());
        needed.push("4. 分块推理 + SOLA 拼接".to_owned());
        assert(text::texts(needed@) =~= seq!["2. CFM 推理循环"@, "3. BigVGAN 声码器"@, "4. 分块推理 + SOLA 拼接"@]);
        steps.push(
            MigrationStep {
                name: "5. 管道集成".to_owned(),
                description: "将 CFM + BigVGAN 解码器集成到 video-translator 管道。需要: 解码器接口抽象, 配置切换 (v2/v3), 性能基准测试。".to_owned(),
                estimated_days: 3,
                dependencies: needed,
            },
        );
        needed = Vec::new();
        needed.push("5. 管道集成".to_owned());
        assert(text::texts(needed@) =~= seq!["5. 管道集成"@]);
        steps.push(
            MigrationStep {
                name: "6. 质量评估".to_owned(),
                description: "对比 v2 vs v3 的音频质量 (MOS, PESQ, 说话人相似度)。需要: 测试数据集, 评估脚本, A/B 对比测试。".to_owned(),
                estimated_days: 2,
                dependencies: needed,
            },
        );
        MigrationPath { steps }
    }

    /// The days of all steps.
    pub fn total_days(&self) -> (r: u64)
        requires
            days_of(self.steps@, self.steps@.len() as int) <= u64::MAX,
        ensures
            r == days_of(self.steps@, self.steps@.len() as int),
    {
        let mut out: u64 = 0;
        let mut i: usize = 0;
        while i < self.steps.len()
            invariant
                i <= self.steps@.len(),
                out == days_of(self.steps@, i as int),
                days_of(self.steps@, self.steps@.len() as int) <= u64::MAX,
            decreases self.steps@.len() - i,
        {
            proof {
                lemma_days_grow(self.steps@, i + 1, self.steps@.len() as int);
            }
            out += self.steps[i].estimated_days as u64;
            i += 1;
        }
        out
    }

    /// The way in words.
    pub fn to_string(&self) -> (r: String)
        requires
            days_of(self.steps@, self.steps@.len() as int) <= u64::MAX,
        ensures
            r@ == "v2 → v3 迁移路径 (总计 "@ + text::decimal(
                days_of(self.steps@, self.steps@.len() as int),
            ) + " 天):\n"@ + steps_text(self.steps@, self.steps@.len() as int),
    {
        let mut out = cat3(
            "v2 → v3 迁移路径 (总计 ",
            decimal_text(self.total_days()).as_str(),
            " 天):\n",
        );
        let ghost start = out@;
        let mut i: usize = 0;
        assert(start =~= start + steps_text(self.steps@, 0));
        while i < self.steps.len()
            invariant
                i <= self.steps@.len(),
                out@ == start + steps_text(self.steps@, i as int),
            decreases self.steps@.len() - i,
        {
            let step = &self.steps[i];
            let ghost before = out@;
            let mut line = cat5(
                "\n  ",
                step.name.as_str(),
                " (",
                decimal_text(step.estimated_days as u64).as_str(),
                " 天)\n    ",
            );
            line.append(step.description.as_str());
            line.append("\n");
            if !step.dependencies.is_empty() {
                line.append("    依赖: ");
                line.append(join(&step.dependencies, ", ").as_str());
                line.append("\n");
            }
            assert(line@ == step_text(*step));
            out.append(line.as_str());
            assert(out@ =~= start + steps_text(self.steps@, i + 1));
            i += 1;
        }
        out
    }
}

} // verus!
