//! The compute pipelines: which kernel is built from which shader, with which
//! layout, under which name.
use vstd::prelude::*;

use crate::decoder::{law_softmax_widths_built, softmax_built, width_known, Switches, TextConfig, GQA_SINGLE_CAP, SLAB_BS, SLAB_T};
use crate::decoder_ops::Kernel;
use crate::decoder_prefill::softmax_kernel;
use crate::encoder_ops::Pipe;
use crate::geometry::{block_for_reduction, ladder};
use crate::text::{dec, lit, push_dec};

verus! {

/// A shader and what it is generated for. `eps_bits` is the bit pattern of a
/// single-precision number.
#[derive(Clone, Copy, Debug, PartialEq, Eq, Structural)]
pub enum Shader {
    Gemv { rows: usize, cols: usize, acc: bool, subgroup: bool, rpw: usize },
    GemvNorm { rows: usize, cols: usize, acc: bool, subgroup: bool, norm: usize, bs: usize, eps_bits: u32 },
    RmsNorm { d: usize, bs: usize },
    QkvExtract { nqh: usize, nkvh: usize, hd: usize },
    GqaSingle { nqh: usize, nkvh: usize, hd: usize, bs: usize, cap: usize },
    GqaSplit { nqh: usize, nkvh: usize, hd: usize, chunk: usize },
    GqaSplitPair {
        hd: usize,
        chunk: usize,
        rep: usize,
        row0: bool,
        coop: bool,
        pf: bool,
        coal: bool,
        depth: usize,
    },
    GqaMerge { hd: usize },
    SiluMulSplit { inter: usize },
    Argmax,
    Embed,
    PrefillGemm { transb: bool, acc: bool, bias: bool },
    PrefillGemmCausal { av: bool },
    SoftmaxCausal { phys: u32, tree: u32, subgroup: bool },
    RepeatKv { rep: usize },
    SlabStats { bs: usize, t: usize },
    SlabWeights { bs: usize },
    SlabMerge { nqh: usize, hd: usize },
    AudioIm2col,
    AudioBiasGelu,
    AudioExtractQkv,
    AudioWinPack,
    AudioWindowSoftmax,
    AudioLayernorm,
    AudioPermutePe,
    AudioAddPe,
    AudioAttnFlat,
}

/// What a binding of a layout is.
#[derive(Clone, Copy, Debug, PartialEq, Eq, Structural)]
pub enum BindKind {
    ReadOnly,
    ReadWrite,
    Uniform,
    /// A uniform that is bound at a dynamic offset.
    UniformAt,
}

/// One entry of a layout.
#[derive(Clone, Copy, Debug, PartialEq, Eq, Structural)]
pub struct LayoutEntry {
    pub binding: u32,
    pub kind: BindKind,
}

/// A pipeline layout. The implicit one is derived from the shader.
#[derive(Clone, Copy, Debug, PartialEq, Eq, Structural)]
pub enum Layout {
    Implicit,
    Gqa,
    GqaSplit,
    PrefillGemm,
    Softmax,
    RepeatKv,
    SlabStats,
    SlabWeights,
    SlabMerge,
    EncGemm,
    EncGemmBias,
}

/// A pipeline to build.
#[derive(Clone, Copy, Debug, PartialEq, Eq, Structural)]
pub struct PipelineSpec {
    pub kernel: Kernel,
    pub shader: Shader,
    pub layout: Layout,
}

/// A pipeline of the audio tower to build.
#[derive(Clone, Copy, Debug, PartialEq, Eq, Structural)]
pub struct EncPipelineSpec {
    pub pipe: Pipe,
    pub shader: Shader,
    pub layout: Layout,
}

/// Whether the device's subgroups are what the warp-shuffle kernels assume:
/// always 32 lanes.
pub fn subgroup_ok(supported: bool, min_size: u32, max_size: u32) -> (r: bool)
    ensures
        r == (supported && min_size == 32 && max_size == 32),
{
    supported && min_size == 32 && max_size == 32
}

impl Layout {
    /// The entries of the layout.
    pub open spec fn entries_spec(self) -> Seq<LayoutEntry> {
        match self {
            Layout::Implicit => seq![],
            Layout::Gqa => seq![
                LayoutEntry { binding: 0, kind: BindKind::ReadOnly },
                LayoutEntry { binding: 1, kind: BindKind::ReadOnly },
                LayoutEntry { binding: 2, kind: BindKind::ReadOnly },
                LayoutEntry { binding: 3, kind: BindKind::ReadWrite },
                LayoutEntry { binding: 4, kind: BindKind::Uniform },
            ],
            Layout::GqaSplit => seq![
                LayoutEntry { binding: 0, kind: BindKind::ReadOnly },
                LayoutEntry { binding: 1, kind: BindKind::ReadOnly },
                LayoutEntry { binding: 2, kind: BindKind::ReadOnly },
                LayoutEntry { binding: 3, kind: BindKind::ReadWrite },
                LayoutEntry { binding: 4, kind: BindKind::ReadWrite },
                LayoutEntry { binding: 5, kind: BindKind::ReadWrite },
                LayoutEntry { binding: 6, kind: BindKind::Uniform },
            ],
            Layout::PrefillGemm => seq![
                LayoutEntry { binding: 0, kind: BindKind::ReadOnly },
                LayoutEntry { binding: 1, kind: BindKind::ReadOnly },
                LayoutEntry { binding: 2, kind: BindKind::ReadWrite },
                LayoutEntry { binding: 3, kind: BindKind::UniformAt },
            ],
            Layout::Softmax => seq![
                LayoutEntry { binding: 0, kind: BindKind::ReadOnly },
                LayoutEntry { binding: 1, kind: BindKind::ReadWrite },
                LayoutEntry { binding: 2, kind: BindKind::UniformAt },
            ],
            Layout::RepeatKv => seq![
                LayoutEntry { binding: 0, kind: BindKind::ReadOnly },
                LayoutEntry { binding: 1, kind: BindKind::ReadWrite },
                LayoutEntry { binding: 2, kind: BindKind::Uniform },
            ],
            Layout::SlabStats => seq![
                LayoutEntry { binding: 0, kind: BindKind::ReadOnly },
                LayoutEntry { binding: 1, kind: BindKind::ReadWrite },
                LayoutEntry { binding: 2, kind: BindKind::UniformAt },
            ],
            Layout::SlabWeights => seq![
                LayoutEntry { binding: 0, kind: BindKind::ReadOnly },
                LayoutEntry { binding: 1, kind: BindKind::ReadWrite },
                LayoutEntry { binding: 2, kind: BindKind::Uniform },
            ],
            Layout::SlabMerge => seq![
                LayoutEntry { binding: 0, kind: BindKind::ReadOnly },
                LayoutEntry { binding: 1, kind: BindKind::ReadOnly },
                LayoutEntry { binding: 2, kind: BindKind::ReadWrite },
                LayoutEntry { binding: 3, kind: BindKind::Uniform },
            ],
            Layout::EncGemm => seq![
                LayoutEntry { binding: 0, kind: BindKind::ReadOnly },
                LayoutEntry { binding: 1, kind: BindKind::ReadOnly },
                LayoutEntry { binding: 2, kind: BindKind::ReadWrite },
                LayoutEntry { binding: 3, kind: BindKind::UniformAt },
            ],
            Layout::EncGemmBias => seq![
                LayoutEntry { binding: 0, kind: BindKind::ReadOnly },
                LayoutEntry { binding: 1, kind: BindKind::ReadOnly },
                LayoutEntry { binding: 2, kind: BindKind::ReadWrite },
                LayoutEntry { binding: 3, kind: BindKind::UniformAt },
                LayoutEntry { binding: 4, kind: BindKind::ReadOnly },
            ],
        }
    }

    /// The entries of the layout, in binding order; none for the implicit one.
    pub fn entries(&self) -> (r: Vec<LayoutEntry>)
        ensures
            r@ == self.entries_spec(),
    {
        match *self {
            Layout::Implicit => Vec::new(),
            Layout::Gqa => vec![
                LayoutEntry { binding: 0, kind: BindKind::ReadOnly },
                LayoutEntry { binding: 1, kind: BindKind::ReadOnly },
                LayoutEntry { binding: 2, kind: BindKind::ReadOnly },
                LayoutEntry { binding: 3, kind: BindKind::ReadWrite },
                LayoutEntry { binding: 4, kind: BindKind::Uniform },
            ],
            Layout::GqaSplit => vec![
                LayoutEntry { binding: 0, kind: BindKind::ReadOnly },
                LayoutEntry { binding: 1, kind: BindKind::ReadOnly },
                LayoutEntry { binding: 2, kind: BindKind::ReadOnly },
                LayoutEntry { binding: 3, kind: BindKind::ReadWrite },
                LayoutEntry { binding: 4, kind: BindKind::ReadWrite },
                LayoutEntry { binding: 5, kind: BindKind::ReadWrite },
                LayoutEntry { binding: 6, kind: BindKind::Uniform },
            ],
            Layout::PrefillGemm => vec![
                LayoutEntry { binding: 0, kind: BindKind::ReadOnly },
                LayoutEntry { binding: 1, kind: BindKind::ReadOnly },
                LayoutEntry { binding: 2, kind: BindKind::ReadWrite },
                LayoutEntry { binding: 3, kind: BindKind::UniformAt },
            ],
            Layout::Softmax => vec![
                LayoutEntry { binding: 0, kind: BindKind::ReadOnly },
                LayoutEntry { binding: 1, kind: BindKind::ReadWrite },
                LayoutEntry { binding: 2, kind: BindKind::UniformAt },
            ],
            Layout::RepeatKv => vec![
                LayoutEntry { binding: 0, kind: BindKind::ReadOnly },
                LayoutEntry { binding: 1, kind: BindKind::ReadWrite },
                LayoutEntry { binding: 2, kind: BindKind::Uniform },
            ],
            Layout::SlabStats => vec![
                LayoutEntry { binding: 0, kind: BindKind::ReadOnly },
                LayoutEntry { binding: 1, kind: BindKind::ReadWrite },
                LayoutEntry { binding: 2, kind: BindKind::UniformAt },
            ],
            Layout::SlabWeights => vec![
                LayoutEntry { binding: 0, kind: BindKind::ReadOnly },
                LayoutEntry { binding: 1, kind: BindKind::ReadWrite },
                LayoutEntry { binding: 2, kind: BindKind::Uniform },
            ],
            Layout::SlabMerge => vec![
                LayoutEntry { binding: 0, kind: BindKind::ReadOnly },
                LayoutEntry { binding: 1, kind: BindKind::ReadOnly },
                LayoutEntry { binding: 2, kind: BindKind::ReadWrite },
                LayoutEntry { binding: 3, kind: BindKind::Uniform },
            ],
            Layout::EncGemm => vec![
                LayoutEntry { binding: 0, kind: BindKind::ReadOnly },
                LayoutEntry { binding: 1, kind: BindKind::ReadOnly },
                LayoutEntry { binding: 2, kind: BindKind::ReadWrite },
                LayoutEntry { binding: 3, kind: BindKind::UniformAt },
            ],
            Layout::EncGemmBias => vec![
                LayoutEntry { binding: 0, kind: BindKind::ReadOnly },
                LayoutEntry { binding: 1, kind: BindKind::ReadOnly },
                LayoutEntry { binding: 2, kind: BindKind::ReadWrite },
                LayoutEntry { binding: 3, kind: BindKind::UniformAt },
                LayoutEntry { binding: 4, kind: BindKind::ReadOnly },
            ],
        }
    }

    /// The layout's name.
    pub open spec fn name_spec(self) -> Seq<char> {
        match self {
            Layout::Implicit => ""@,
            Layout::Gqa => "gqa_single"@,
            Layout::GqaSplit => "gqa_split"@,
            Layout::PrefillGemm => "prefill_gemm"@,
            Layout::Softmax => "softmax"@,
            Layout::RepeatKv => "repeat_kv"@,
            Layout::SlabStats => "slab_stats"@,
            Layout::SlabWeights => "slab_weights"@,
            Layout::SlabMerge => "slab_merge"@,
            Layout::EncGemm => "enc_gemm"@,
            Layout::EncGemmBias => "enc_gemm_bias"@,
        }
    }

    /// The layout's name; empty for the implicit one.
    pub fn name(&self) -> (r: &'static str)
        ensures
            r@ == self.name_spec(),
    {
        match *self {
            Layout::Implicit => "",
            Layout::Gqa => "gqa_single",
            Layout::GqaSplit => "gqa_split",
            Layout::PrefillGemm => "prefill_gemm",
            Layout::Softmax => "softmax",
            Layout::RepeatKv => "repeat_kv",
            Layout::SlabStats => "slab_stats",
            Layout::SlabWeights => "slab_weights",
            Layout::SlabMerge => "slab_merge",
            Layout::EncGemm => "enc_gemm",
            Layout::EncGemmBias => "enc_gemm_bias",
        }
    }
}

impl Shader {
    /// The shader's entry point.
    pub open spec fn entry_spec(self) -> Seq<char> {
        match self {
            Shader::Gemv { .. } => "gemv"@,
            Shader::GemvNorm { .. } => "gemv"@,
            Shader::RmsNorm { .. } => "rms_norm"@,
            Shader::QkvExtract { .. } => "qkv_extract"@,
            Shader::GqaSingle { .. } => "gqa"@,
            Shader::GqaSplit { .. } => "gqa_split_p1"@,
            Shader::GqaSplitPair { .. } => "gqa_split_p1_pair"@,
            Shader::GqaMerge { .. } => "gqa_merge"@,
            Shader::SiluMulSplit { .. } => "silu_mul_split"@,
            Shader::Argmax => "argmax"@,
            Shader::Embed => "embed"@,
            Shader::PrefillGemm { .. } => "gemm"@,
            Shader::PrefillGemmCausal { .. } => "gemm"@,
            Shader::SoftmaxCausal { .. } => "softmax"@,
            Shader::RepeatKv { .. } => "repeat_kv"@,
            Shader::SlabStats { .. } => "slab_stats"@,
            Shader::SlabWeights { .. } => "slab_weights"@,
            Shader::SlabMerge { .. } => "slab_merge"@,
            Shader::AudioIm2col => "im2col"@,
            Shader::AudioBiasGelu => "bias_gelu"@,
            Shader::AudioExtractQkv => "extract"@,
            Shader::AudioWinPack => "win_pack"@,
            Shader::AudioWindowSoftmax => "softmax"@,
            Shader::AudioLayernorm => "layernorm"@,
            Shader::AudioPermutePe => "permute_pe"@,
            Shader::AudioAddPe => "add_pe"@,
            Shader::AudioAttnFlat => "attn_flat"@,
        }
    }

    /// The shader's entry point.
    pub fn entry(&self) -> (r: &'static str)
        ensures
            r@ == self.entry_spec(),
    {
        match *self {
            Shader::Gemv { .. } => "gemv",
            Shader::GemvNorm { .. } => "gemv",
            Shader::RmsNorm { .. } => "rms_norm",
            Shader::QkvExtract { .. } => "qkv_extract",
            Shader::GqaSingle { .. } => "gqa",
            Shader::GqaSplit { .. } => "gqa_split_p1",
            Shader::GqaSplitPair { .. } => "gqa_split_p1_pair",
            Shader::GqaMerge { .. } => "gqa_merge",
            Shader::SiluMulSplit { .. } => "silu_mul_split",
            Shader::Argmax => "argmax",
            Shader::Embed => "embed",
            Shader::PrefillGemm { .. } => "gemm",
            Shader::PrefillGemmCausal { .. } => "gemm",
            Shader::SoftmaxCausal { .. } => "softmax",
            Shader::RepeatKv { .. } => "repeat_kv",
            Shader::SlabStats { .. } => "slab_stats",
            Shader::SlabWeights { .. } => "slab_weights",
            Shader::SlabMerge { .. } => "slab_merge",
            Shader::AudioIm2col => "im2col",
            Shader::AudioBiasGelu => "bias_gelu",
            Shader::AudioExtractQkv => "extract",
            Shader::AudioWinPack => "win_pack",
            Shader::AudioWindowSoftmax => "softmax",
            Shader::AudioLayernorm => "layernorm",
            Shader::AudioPermutePe => "permute_pe",
            Shader::AudioAddPe => "add_pe",
            Shader::AudioAttnFlat => "attn_flat",
        }
    }
}

/// The split-attention shader: the paired one where exactly two query heads
/// share a kv head, else the one that reads the cache once per query head.
pub open spec fn pair_shader(cfg: TextConfig, chunk: usize, coop: bool, pf: bool, depth: usize) -> Shader {
    if cfg.num_attention_heads == 2 * cfg.num_key_value_heads {
        Shader::GqaSplitPair { hd: cfg.head_dim, chunk, rep: 2, row0: false, coop, pf, coal: false, depth }
    } else {
        Shader::GqaSplit { nqh: cfg.num_attention_heads, nkvh: cfg.num_key_value_heads, hd: cfg.head_dim, chunk }
    }
}

/// The split-attention shader: the paired one where exactly two query heads
/// share a kv head, else the one that reads the cache once per query head.
pub fn pair_split_src(cfg: &TextConfig, chunk: usize, coop: bool, pf: bool, depth: usize) -> (r: Shader)
    requires
        cfg.num_key_value_heads > 0,
    ensures
        r == pair_shader(*cfg, chunk, coop, pf, depth),
{
    if cfg.num_attention_heads % 2 == 0 && cfg.num_attention_heads / 2 == cfg.num_key_value_heads {
        Shader::GqaSplitPair { hd: cfg.head_dim, chunk, rep: 2, row0: false, coop, pf, coal: false, depth }
    } else {
        Shader::GqaSplit { nqh: cfg.num_attention_heads, nkvh: cfg.num_key_value_heads, hd: cfg.head_dim, chunk }
    }
}

/// The shader of a decoder kernel.
pub open spec fn shader_of(cfg: TextConfig, sw: Switches, subgroup: bool, k: Kernel) -> Shader {
    match k {
        Kernel::GemvQkv => Shader::Gemv { rows: cfg.qkv_width() as usize, cols: cfg.hidden_size, acc: false, subgroup, rpw: sw.gemv_rpw },
        Kernel::GemvO => Shader::Gemv { rows: cfg.hidden_size, cols: cfg.q_width() as usize, acc: true, subgroup, rpw: sw.gemv_rpw },
        Kernel::GemvGu => Shader::Gemv { rows: (2 * cfg.intermediate_size) as usize, cols: cfg.hidden_size, acc: false, subgroup, rpw: sw.gemv_rpw },
        Kernel::GemvDp => Shader::Gemv { rows: cfg.hidden_size, cols: cfg.intermediate_size, acc: true, subgroup, rpw: sw.gemv_rpw },
        Kernel::GemvLm => Shader::Gemv { rows: cfg.vocab_size, cols: cfg.hidden_size, acc: false, subgroup, rpw: sw.gemv_rpw },
        Kernel::GemvQkvNorm => Shader::GemvNorm { rows: cfg.qkv_width() as usize, cols: cfg.hidden_size, acc: false, subgroup, norm: cfg.hidden_size, bs: ladder(cfg.hidden_size as u32 as int) as usize, eps_bits: cfg.rms_norm_eps_bits },
        Kernel::GemvGuNorm => Shader::GemvNorm { rows: (2 * cfg.intermediate_size) as usize, cols: cfg.hidden_size, acc: false, subgroup, norm: cfg.hidden_size, bs: ladder(cfg.hidden_size as u32 as int) as usize, eps_bits: cfg.rms_norm_eps_bits },
        Kernel::GemvLmNorm => Shader::GemvNorm { rows: cfg.vocab_size, cols: cfg.hidden_size, acc: false, subgroup, norm: cfg.hidden_size, bs: ladder(cfg.hidden_size as u32 as int) as usize, eps_bits: cfg.rms_norm_eps_bits },
        Kernel::RmsNorm => Shader::RmsNorm { d: cfg.hidden_size, bs: ladder(cfg.hidden_size as u32 as int) as usize },
        Kernel::Extract => Shader::QkvExtract { nqh: cfg.num_attention_heads, nkvh: cfg.num_key_value_heads, hd: cfg.head_dim },
        Kernel::Gqa256 => Shader::GqaSingle { nqh: cfg.num_attention_heads, nkvh: cfg.num_key_value_heads, hd: cfg.head_dim, bs: 256, cap: GQA_SINGLE_CAP },
        Kernel::Gqa512 => Shader::GqaSingle { nqh: cfg.num_attention_heads, nkvh: cfg.num_key_value_heads, hd: cfg.head_dim, bs: 512, cap: GQA_SINGLE_CAP },
        Kernel::GqaSplit128 => Shader::GqaSplit { nqh: cfg.num_attention_heads, nkvh: cfg.num_key_value_heads, hd: cfg.head_dim, chunk: 128 },
        Kernel::GqaSplitPair256 => pair_shader(cfg, 256, subgroup && sw.gqa_coop, sw.gqa_pf, sw.gqa_depth),
        Kernel::GqaSplitPair512 => pair_shader(cfg, 512, subgroup && sw.gqa_coop, sw.gqa_pf, sw.gqa_depth),
        Kernel::GqaSplitPair256Row0 => Shader::GqaSplitPair { hd: cfg.head_dim, chunk: 256, rep: 2, row0: true, coop: false, pf: false, coal: false, depth: 1 },
        Kernel::GqaSplitPair256Coal => Shader::GqaSplitPair { hd: cfg.head_dim, chunk: 256, rep: 2, row0: false, coop: false, pf: false, coal: true, depth: 1 },
        Kernel::GqaSplit256 => Shader::GqaSplit { nqh: cfg.num_attention_heads, nkvh: cfg.num_key_value_heads, hd: cfg.head_dim, chunk: 256 },
        Kernel::GqaSplit512 => Shader::GqaSplit { nqh: cfg.num_attention_heads, nkvh: cfg.num_key_value_heads, hd: cfg.head_dim, chunk: 512 },
        Kernel::GqaMerge => Shader::GqaMerge { hd: cfg.head_dim },
        Kernel::Silu => Shader::SiluMulSplit { inter: cfg.intermediate_size },
        Kernel::Argmax => Shader::Argmax,
        Kernel::Embed => Shader::Embed,
        Kernel::Gemm => Shader::PrefillGemm { transb: false, acc: false, bias: false },
        Kernel::GemmAcc => Shader::PrefillGemm { transb: false, acc: true, bias: false },
        Kernel::GemmAv => Shader::PrefillGemm { transb: true, acc: false, bias: false },
        Kernel::GemmCausal => Shader::PrefillGemmCausal { av: false },
        Kernel::GemmAvCausal => Shader::PrefillGemmCausal { av: true },
        Kernel::Softmax(w) => Shader::SoftmaxCausal { phys: w, tree: w, subgroup: subgroup && sw.sg_reduce },
        Kernel::SoftmaxWide(p, t) => Shader::SoftmaxCausal { phys: p, tree: t, subgroup: subgroup && sw.sg_reduce },
        Kernel::RepeatKv => Shader::RepeatKv { rep: cfg.num_attention_heads / cfg.num_key_value_heads },
        Kernel::SlabStats => Shader::SlabStats { bs: SLAB_BS, t: SLAB_T },
        Kernel::SlabWeights => Shader::SlabWeights { bs: 256 },
        Kernel::SlabMerge => Shader::SlabMerge { nqh: cfg.num_attention_heads, hd: cfg.head_dim },
    }
}

/// The layout of a decoder kernel.
pub open spec fn layout_of(k: Kernel) -> Layout {
    match k {
        Kernel::GemvQkv => Layout::Implicit,
        Kernel::GemvO => Layout::Implicit,
        Kernel::GemvGu => Layout::Implicit,
        Kernel::GemvDp => Layout::Implicit,
        Kernel::GemvLm => Layout::Implicit,
        Kernel::GemvQkvNorm => Layout::Implicit,
        Kernel::GemvGuNorm => Layout::Implicit,
        Kernel::GemvLmNorm => Layout::Implicit,
        Kernel::RmsNorm => Layout::Implicit,
        Kernel::Extract => Layout::Implicit,
        Kernel::Gqa256 => Layout::Gqa,
        Kernel::Gqa512 => Layout::Gqa,
        Kernel::GqaSplit128 => Layout::GqaSplit,
        Kernel::GqaSplitPair256 => Layout::GqaSplit,
        Kernel::GqaSplitPair512 => Layout::GqaSplit,
        Kernel::GqaSplitPair256Row0 => Layout::GqaSplit,
        Kernel::GqaSplitPair256Coal => Layout::GqaSplit,
        Kernel::GqaSplit256 => Layout::GqaSplit,
        Kernel::GqaSplit512 => Layout::GqaSplit,
        Kernel::GqaMerge => Layout::Implicit,
        Kernel::Silu => Layout::Implicit,
        Kernel::Argmax => Layout::Implicit,
        Kernel::Embed => Layout::Implicit,
        Kernel::Gemm => Layout::PrefillGemm,
        Kernel::GemmAcc => Layout::PrefillGemm,
        Kernel::GemmAv => Layout::PrefillGemm,
        Kernel::GemmCausal => Layout::PrefillGemm,
        Kernel::GemmAvCausal => Layout::PrefillGemm,
        Kernel::Softmax(..) => Layout::Softmax,
        Kernel::SoftmaxWide(..) => Layout::Softmax,
        Kernel::RepeatKv => Layout::RepeatKv,
        Kernel::SlabStats => Layout::SlabStats,
        Kernel::SlabWeights => Layout::SlabWeights,
        Kernel::SlabMerge => Layout::SlabMerge,
    }
}

/// The name of a decoder kernel.
pub open spec fn kernel_name(k: Kernel) -> Seq<char> {
    match k {
        Kernel::GemvQkv => "gemv_qkv"@,
        Kernel::GemvO => "gemv_o"@,
        Kernel::GemvGu => "gemv_gu"@,
        Kernel::GemvDp => "gemv_dp"@,
        Kernel::GemvLm => "gemv_lm"@,
        Kernel::GemvQkvNorm => "gemv_qkv_norm"@,
        Kernel::GemvGuNorm => "gemv_gu_norm"@,
        Kernel::GemvLmNorm => "gemv_lm_norm"@,
        Kernel::RmsNorm => "rms_norm"@,
        Kernel::Extract => "qkv_extract"@,
        Kernel::Gqa256 => "gqa256"@,
        Kernel::Gqa512 => "gqa512"@,
        Kernel::GqaSplit128 => "gqa_split128"@,
        Kernel::GqaSplitPair256 => "gqa_split_pair256"@,
        Kernel::GqaSplitPair512 => "gqa_split_pair512"@,
        Kernel::GqaSplitPair256Row0 => "gqa_split_pair256_row0"@,
        Kernel::GqaSplitPair256Coal => "gqa_split_pair256_coal"@,
        Kernel::GqaSplit256 => "gqa_split256"@,
        Kernel::GqaSplit512 => "gqa_split512"@,
        Kernel::GqaMerge => "gqa_merge"@,
        Kernel::Silu => "silu30"@,
        Kernel::Argmax => "argmax"@,
        Kernel::Embed => "embed"@,
        Kernel::Gemm => "gemm"@,
        Kernel::GemmAcc => "gemm_acc"@,
        Kernel::GemmAv => "gemm_av"@,
        Kernel::GemmCausal => "gemm_causal"@,
        Kernel::GemmAvCausal => "gemm_av_causal"@,
        Kernel::Softmax(w) => "softmax"@ + dec(w as nat),
        Kernel::SoftmaxWide(p, t) => "softmax"@ + dec(p as nat) + "x"@ + dec(t as nat),
        Kernel::RepeatKv => "repeat_kv"@,
        Kernel::SlabStats => "slab_stats"@,
        Kernel::SlabWeights => "slab_weights"@,
        Kernel::SlabMerge => "slab_merge"@,
    }
}

/// The name of a decoder kernel.
pub fn kernel_label(k: Kernel) -> (r: String)
    ensures
        r@ == kernel_name(k),
{
    match k {
        Kernel::Softmax(w) => {
            let mut s = lit("softmax");
            push_dec(&mut s, w as usize);
            s
        },
        Kernel::SoftmaxWide(p, t) => {
            let mut s = lit("softmax");
            push_dec(&mut s, p as usize);
            s.push('x');
            proof {
                reveal_strlit("x");
                assert("x"@ =~= seq!['x']);
            }
            push_dec(&mut s, t as usize);
            assert(s@ =~= kernel_name(k));
            s
        },
        Kernel::GemvQkv => lit("gemv_qkv"),
        Kernel::GemvO => lit("gemv_o"),
        Kernel::GemvGu => lit("gemv_gu"),
        Kernel::GemvDp => lit("gemv_dp"),
        Kernel::GemvLm => lit("gemv_lm"),
        Kernel::GemvQkvNorm => lit("gemv_qkv_norm"),
        Kernel::GemvGuNorm => lit("gemv_gu_norm"),
        Kernel::GemvLmNorm => lit("gemv_lm_norm"),
        Kernel::RmsNorm => lit("rms_norm"),
        Kernel::Extract => lit("qkv_extract"),
        Kernel::Gqa256 => lit("gqa256"),
        Kernel::Gqa512 => lit("gqa512"),
        Kernel::GqaSplit128 => lit("gqa_split128"),
        Kernel::GqaSplitPair256 => lit("gqa_split_pair256"),
        Kernel::GqaSplitPair512 => lit("gqa_split_pair512"),
        Kernel::GqaSplitPair256Row0 => lit("gqa_split_pair256_row0"),
        Kernel::GqaSplitPair256Coal => lit("gqa_split_pair256_coal"),
        Kernel::GqaSplit256 => lit("gqa_split256"),
        Kernel::GqaSplit512 => lit("gqa_split512"),
        Kernel::GqaMerge => lit("gqa_merge"),
        Kernel::Silu => lit("silu30"),
        Kernel::Argmax => lit("argmax"),
        Kernel::Embed => lit("embed"),
        Kernel::Gemm => lit("gemm"),
        Kernel::GemmAcc => lit("gemm_acc"),
        Kernel::GemmAv => lit("gemm_av"),
        Kernel::GemmCausal => lit("gemm_causal"),
        Kernel::GemmAvCausal => lit("gemm_av_causal"),
        Kernel::RepeatKv => lit("repeat_kv"),
        Kernel::SlabStats => lit("slab_stats"),
        Kernel::SlabWeights => lit("slab_weights"),
        Kernel::SlabMerge => lit("slab_merge"),
    }
}

/// The pipeline of a decoder kernel.
pub open spec fn pipeline_of(cfg: TextConfig, sw: Switches, subgroup: bool, k: Kernel) -> PipelineSpec {
    PipelineSpec { kernel: k, shader: shader_of(cfg, sw, subgroup, k), layout: layout_of(k) }
}

/// The pipeline of a decoder kernel.
pub fn pipeline(cfg: &TextConfig, sw: &Switches, subgroup: bool, k: Kernel) -> (r: PipelineSpec)
    requires
        cfg.widths_fit(),
        cfg.num_key_value_heads > 0,
    ensures
        r == pipeline_of(*cfg, *sw, subgroup, k),
{
    let shader = match k {
        Kernel::GemvQkv => Shader::Gemv { rows: cfg.fused_qkv_cols(), cols: cfg.hidden_size, acc: false, subgroup, rpw: sw.gemv_rpw },
        Kernel::GemvO => Shader::Gemv { rows: cfg.hidden_size, cols: cfg.q_dim(), acc: true, subgroup, rpw: sw.gemv_rpw },
        Kernel::GemvGu => Shader::Gemv { rows: 2 * cfg.intermediate_size, cols: cfg.hidden_size, acc: false, subgroup, rpw: sw.gemv_rpw },
        Kernel::GemvDp => Shader::Gemv { rows: cfg.hidden_size, cols: cfg.intermediate_size, acc: true, subgroup, rpw: sw.gemv_rpw },
        Kernel::GemvLm => Shader::Gemv { rows: cfg.vocab_size, cols: cfg.hidden_size, acc: false, subgroup, rpw: sw.gemv_rpw },
        Kernel::GemvQkvNorm => Shader::GemvNorm { rows: cfg.fused_qkv_cols(), cols: cfg.hidden_size, acc: false, subgroup, norm: cfg.hidden_size, bs: block_for_reduction(cfg.hidden_size) as usize, eps_bits: cfg.rms_norm_eps_bits },
        Kernel::GemvGuNorm => Shader::GemvNorm { rows: 2 * cfg.intermediate_size, cols: cfg.hidden_size, acc: false, subgroup, norm: cfg.hidden_size, bs: block_for_reduction(cfg.hidden_size) as usize, eps_bits: cfg.rms_norm_eps_bits },
        Kernel::GemvLmNorm => Shader::GemvNorm { rows: cfg.vocab_size, cols: cfg.hidden_size, acc: false, subgroup, norm: cfg.hidden_size, bs: block_for_reduction(cfg.hidden_size) as usize, eps_bits: cfg.rms_norm_eps_bits },
        Kernel::RmsNorm => Shader::RmsNorm { d: cfg.hidden_size, bs: block_for_reduction(cfg.hidden_size) as usize },
        Kernel::Extract => Shader::QkvExtract { nqh: cfg.num_attention_heads, nkvh: cfg.num_key_value_heads, hd: cfg.head_dim },
        Kernel::Gqa256 => Shader::GqaSingle { nqh: cfg.num_attention_heads, nkvh: cfg.num_key_value_heads, hd: cfg.head_dim, bs: 256, cap: GQA_SINGLE_CAP },
        Kernel::Gqa512 => Shader::GqaSingle { nqh: cfg.num_attention_heads, nkvh: cfg.num_key_value_heads, hd: cfg.head_dim, bs: 512, cap: GQA_SINGLE_CAP },
        Kernel::GqaSplit128 => Shader::GqaSplit { nqh: cfg.num_attention_heads, nkvh: cfg.num_key_value_heads, hd: cfg.head_dim, chunk: 128 },
        Kernel::GqaSplitPair256 => pair_split_src(cfg, 256, subgroup && sw.gqa_coop, sw.gqa_pf, sw.gqa_depth),
        Kernel::GqaSplitPair512 => pair_split_src(cfg, 512, subgroup && sw.gqa_coop, sw.gqa_pf, sw.gqa_depth),
        Kernel::GqaSplitPair256Row0 => Shader::GqaSplitPair { hd: cfg.head_dim, chunk: 256, rep: 2, row0: true, coop: false, pf: false, coal: false, depth: 1 },
        Kernel::GqaSplitPair256Coal => Shader::GqaSplitPair { hd: cfg.head_dim, chunk: 256, rep: 2, row0: false, coop: false, pf: false, coal: true, depth: 1 },
        Kernel::GqaSplit256 => Shader::GqaSplit { nqh: cfg.num_attention_heads, nkvh: cfg.num_key_value_heads, hd: cfg.head_dim, chunk: 256 },
        Kernel::GqaSplit512 => Shader::GqaSplit { nqh: cfg.num_attention_heads, nkvh: cfg.num_key_value_heads, hd: cfg.head_dim, chunk: 512 },
        Kernel::GqaMerge => Shader::GqaMerge { hd: cfg.head_dim },
        Kernel::Silu => Shader::SiluMulSplit { inter: cfg.intermediate_size },
        Kernel::Argmax => Shader::Argmax,
        Kernel::Embed => Shader::Embed,
        Kernel::Gemm => Shader::PrefillGemm { transb: false, acc: false, bias: false },
        Kernel::GemmAcc => Shader::PrefillGemm { transb: false, acc: true, bias: false },
        Kernel::GemmAv => Shader::PrefillGemm { transb: true, acc: false, bias: false },
        Kernel::GemmCausal => Shader::PrefillGemmCausal { av: false },
        Kernel::GemmAvCausal => Shader::PrefillGemmCausal { av: true },
        Kernel::Softmax(w) => Shader::SoftmaxCausal { phys: w, tree: w, subgroup: subgroup && sw.sg_reduce },
        Kernel::SoftmaxWide(p, t) => Shader::SoftmaxCausal { phys: p, tree: t, subgroup: subgroup && sw.sg_reduce },
        Kernel::RepeatKv => Shader::RepeatKv { rep: cfg.num_attention_heads / cfg.num_key_value_heads },
        Kernel::SlabStats => Shader::SlabStats { bs: SLAB_BS, t: SLAB_T },
        Kernel::SlabWeights => Shader::SlabWeights { bs: 256 },
        Kernel::SlabMerge => Shader::SlabMerge { nqh: cfg.num_attention_heads, hd: cfg.head_dim },
    };
    let layout = match k {
        Kernel::GemvQkv => Layout::Implicit,
        Kernel::GemvO => Layout::Implicit,
        Kernel::GemvGu => Layout::Implicit,
        Kernel::GemvDp => Layout::Implicit,
        Kernel::GemvLm => Layout::Implicit,
        Kernel::GemvQkvNorm => Layout::Implicit,
        Kernel::GemvGuNorm => Layout::Implicit,
        Kernel::GemvLmNorm => Layout::Implicit,
        Kernel::RmsNorm => Layout::Implicit,
        Kernel::Extract => Layout::Implicit,
        Kernel::Gqa256 => Layout::Gqa,
        Kernel::Gqa512 => Layout::Gqa,
        Kernel::GqaSplit128 => Layout::GqaSplit,
        Kernel::GqaSplitPair256 => Layout::GqaSplit,
        Kernel::GqaSplitPair512 => Layout::GqaSplit,
        Kernel::GqaSplitPair256Row0 => Layout::GqaSplit,
        Kernel::GqaSplitPair256Coal => Layout::GqaSplit,
        Kernel::GqaSplit256 => Layout::GqaSplit,
        Kernel::GqaSplit512 => Layout::GqaSplit,
        Kernel::GqaMerge => Layout::Implicit,
        Kernel::Silu => Layout::Implicit,
        Kernel::Argmax => Layout::Implicit,
        Kernel::Embed => Layout::Implicit,
        Kernel::Gemm => Layout::PrefillGemm,
        Kernel::GemmAcc => Layout::PrefillGemm,
        Kernel::GemmAv => Layout::PrefillGemm,
        Kernel::GemmCausal => Layout::PrefillGemm,
        Kernel::GemmAvCausal => Layout::PrefillGemm,
        Kernel::Softmax(..) => Layout::Softmax,
        Kernel::SoftmaxWide(..) => Layout::Softmax,
        Kernel::RepeatKv => Layout::RepeatKv,
        Kernel::SlabStats => Layout::SlabStats,
        Kernel::SlabWeights => Layout::SlabWeights,
        Kernel::SlabMerge => Layout::SlabMerge,
    };
    PipelineSpec { kernel: k, shader, layout }
}

/// The kernels that are built, in order.
pub open spec fn built_kernels() -> Seq<Kernel> {
    seq![
        Kernel::GemvQkv,
        Kernel::GemvO,
        Kernel::GemvGu,
        Kernel::GemvDp,
        Kernel::GemvLm,
        Kernel::GemvQkvNorm,
        Kernel::GemvGuNorm,
        Kernel::GemvLmNorm,
        Kernel::RmsNorm,
        Kernel::Extract,
        Kernel::Gqa256,
        Kernel::Gqa512,
        Kernel::GqaSplit128,
        Kernel::GqaSplitPair256,
        Kernel::GqaSplitPair512,
        Kernel::GqaSplitPair256Row0,
        Kernel::GqaSplitPair256Coal,
        Kernel::GqaSplit256,
        Kernel::GqaSplit512,
        Kernel::GqaMerge,
        Kernel::Silu,
        Kernel::Argmax,
        Kernel::Embed,
        Kernel::Gemm,
        Kernel::GemmAcc,
        Kernel::GemmAv,
        Kernel::GemmCausal,
        Kernel::GemmAvCausal,
        Kernel::Softmax(32),
        Kernel::Softmax(64),
        Kernel::Softmax(128),
        Kernel::Softmax(256),
        Kernel::Softmax(512),
        Kernel::Softmax(1024),
        Kernel::SoftmaxWide(64, 256),
        Kernel::SoftmaxWide(64, 512),
        Kernel::SoftmaxWide(64, 1024),
        Kernel::SoftmaxWide(128, 256),
        Kernel::SoftmaxWide(128, 512),
        Kernel::SoftmaxWide(128, 1024),
        Kernel::SoftmaxWide(256, 512),
        Kernel::SoftmaxWide(256, 1024),
        Kernel::RepeatKv,
        Kernel::SlabStats,
        Kernel::SlabWeights,
        Kernel::SlabMerge,
    ]
}

/// Every pipeline of the decoder, in the order they are built.
pub fn pipelines(cfg: &TextConfig, sw: &Switches, subgroup: bool) -> (r: Vec<PipelineSpec>)
    requires
        cfg.widths_fit(),
        cfg.num_key_value_heads > 0,
    ensures
        r@ == built_kernels().map_values(|k: Kernel| pipeline_of(*cfg, *sw, subgroup, k)),
{
    let kernels: Vec<Kernel> = vec![
        Kernel::GemvQkv,
        Kernel::GemvO,
        Kernel::GemvGu,
        Kernel::GemvDp,
        Kernel::GemvLm,
        Kernel::GemvQkvNorm,
        Kernel::GemvGuNorm,
        Kernel::GemvLmNorm,
        Kernel::RmsNorm,
        Kernel::Extract,
        Kernel::Gqa256,
        Kernel::Gqa512,
        Kernel::GqaSplit128,
        Kernel::GqaSplitPair256,
        Kernel::GqaSplitPair512,
        Kernel::GqaSplitPair256Row0,
        Kernel::GqaSplitPair256Coal,
        Kernel::GqaSplit256,
        Kernel::GqaSplit512,
        Kernel::GqaMerge,
        Kernel::Silu,
        Kernel::Argmax,
        Kernel::Embed,
        Kernel::Gemm,
        Kernel::GemmAcc,
        Kernel::GemmAv,
        Kernel::GemmCausal,
        Kernel::GemmAvCausal,
        Kernel::Softmax(32),
        Kernel::Softmax(64),
        Kernel::Softmax(128),
        Kernel::Softmax(256),
        Kernel::Softmax(512),
        Kernel::Softmax(1024),
        Kernel::SoftmaxWide(64, 256),
        Kernel::SoftmaxWide(64, 512),
        Kernel::SoftmaxWide(64, 1024),
        Kernel::SoftmaxWide(128, 256),
        Kernel::SoftmaxWide(128, 512),
        Kernel::SoftmaxWide(128, 1024),
        Kernel::SoftmaxWide(256, 512),
        Kernel::SoftmaxWide(256, 1024),
        Kernel::RepeatKv,
        Kernel::SlabStats,
        Kernel::SlabWeights,
        Kernel::SlabMerge,
    ];
    assert(kernels@ == built_kernels());
    let mut r: Vec<PipelineSpec> = Vec::new();
    for i in 0..kernels.len()
        invariant
            cfg.widths_fit(),
            cfg.num_key_value_heads > 0,
            kernels@ == built_kernels(),
            r@ == built_kernels().take(i as int).map_values(|k: Kernel| pipeline_of(*cfg, *sw, subgroup, k)),
    {
        r.push(pipeline(cfg, sw, subgroup, kernels[i]));
        assert(r@ =~= built_kernels().take(i + 1).map_values(|k: Kernel| pipeline_of(*cfg, *sw, subgroup, k)));
    }
    assert(built_kernels().take(kernels@.len() as int) =~= built_kernels());
    r
}

/// The pipelines of the audio tower, in the order they are built.
pub open spec fn built_pipes() -> Seq<EncPipelineSpec> {
    seq![
        EncPipelineSpec { pipe: Pipe::Im2col, shader: Shader::AudioIm2col, layout: Layout::Implicit },
        EncPipelineSpec { pipe: Pipe::Gelu, shader: Shader::AudioBiasGelu, layout: Layout::Implicit },
        EncPipelineSpec { pipe: Pipe::Gemm, shader: Shader::PrefillGemm { transb: false, acc: false, bias: false }, layout: Layout::EncGemm },
        EncPipelineSpec { pipe: Pipe::GemmT, shader: Shader::PrefillGemm { transb: true, acc: false, bias: false }, layout: Layout::EncGemm },
        EncPipelineSpec { pipe: Pipe::Extract, shader: Shader::AudioExtractQkv, layout: Layout::Implicit },
        EncPipelineSpec { pipe: Pipe::WinPack, shader: Shader::AudioWinPack, layout: Layout::Implicit },
        EncPipelineSpec { pipe: Pipe::GemmBeta, shader: Shader::PrefillGemm { transb: false, acc: true, bias: false }, layout: Layout::EncGemm },
        EncPipelineSpec { pipe: Pipe::GemmBias, shader: Shader::PrefillGemm { transb: false, acc: false, bias: true }, layout: Layout::EncGemmBias },
        EncPipelineSpec { pipe: Pipe::GemmBetaBias, shader: Shader::PrefillGemm { transb: false, acc: true, bias: true }, layout: Layout::EncGemmBias },
        EncPipelineSpec { pipe: Pipe::Softmax, shader: Shader::AudioWindowSoftmax, layout: Layout::Implicit },
        EncPipelineSpec { pipe: Pipe::LayerNorm, shader: Shader::AudioLayernorm, layout: Layout::Implicit },
        EncPipelineSpec { pipe: Pipe::Permute, shader: Shader::AudioPermutePe, layout: Layout::Implicit },
        EncPipelineSpec { pipe: Pipe::AddPe, shader: Shader::AudioAddPe, layout: Layout::Implicit },
        EncPipelineSpec { pipe: Pipe::AttnFlat, shader: Shader::AudioAttnFlat, layout: Layout::Implicit },
    ]
}

/// Every pipeline of the audio tower, in the order they are built.
pub fn encoder_pipelines() -> (r: Vec<EncPipelineSpec>)
    ensures
        r@ == built_pipes(),
{
    vec![
        EncPipelineSpec { pipe: Pipe::Im2col, shader: Shader::AudioIm2col, layout: Layout::Implicit },
        EncPipelineSpec { pipe: Pipe::Gelu, shader: Shader::AudioBiasGelu, layout: Layout::Implicit },
        EncPipelineSpec { pipe: Pipe::Gemm, shader: Shader::PrefillGemm { transb: false, acc: false, bias: false }, layout: Layout::EncGemm },
        EncPipelineSpec { pipe: Pipe::GemmT, shader: Shader::PrefillGemm { transb: true, acc: false, bias: false }, layout: Layout::EncGemm },
        EncPipelineSpec { pipe: Pipe::Extract, shader: Shader::AudioExtractQkv, layout: Layout::Implicit },
        EncPipelineSpec { pipe: Pipe::WinPack, shader: Shader::AudioWinPack, layout: Layout::Implicit },
        EncPipelineSpec { pipe: Pipe::GemmBeta, shader: Shader::PrefillGemm { transb: false, acc: true, bias: false }, layout: Layout::EncGemm },
        EncPipelineSpec { pipe: Pipe::GemmBias, shader: Shader::PrefillGemm { transb: false, acc: false, bias: true }, layout: Layout::EncGemmBias },
        EncPipelineSpec { pipe: Pipe::GemmBetaBias, shader: Shader::PrefillGemm { transb: false, acc: true, bias: true }, layout: Layout::EncGemmBias },
        EncPipelineSpec { pipe: Pipe::Softmax, shader: Shader::AudioWindowSoftmax, layout: Layout::Implicit },
        EncPipelineSpec { pipe: Pipe::LayerNorm, shader: Shader::AudioLayernorm, layout: Layout::Implicit },
        EncPipelineSpec { pipe: Pipe::Permute, shader: Shader::AudioPermutePe, layout: Layout::Implicit },
        EncPipelineSpec { pipe: Pipe::AddPe, shader: Shader::AudioAddPe, layout: Layout::Implicit },
        EncPipelineSpec { pipe: Pipe::AttnFlat, shader: Shader::AudioAttnFlat, layout: Layout::Implicit },
    ]
}

/// The name of a kernel of the audio tower.
pub fn pipe_label(p: Pipe) -> (r: &'static str)
    ensures
        r@ == match p {
            Pipe::Im2col => "enc_im2col"@,
            Pipe::Gelu => "enc_gelu"@,
            Pipe::Gemm => "enc_gemm"@,
            Pipe::GemmT => "enc_gemm_t"@,
            Pipe::Extract => "enc_extract"@,
            Pipe::WinPack => "enc_win_pack"@,
            Pipe::GemmBeta => "enc_gemm_beta"@,
            Pipe::GemmBias => "enc_gemm_bias"@,
            Pipe::GemmBetaBias => "enc_gemm_beta_bias"@,
            Pipe::Softmax => "enc_softmax"@,
            Pipe::LayerNorm => "enc_layernorm"@,
            Pipe::Permute => "enc_permute"@,
            Pipe::AddPe => "enc_add_pe"@,
            Pipe::AttnFlat => "enc_attn_flat"@,
        },
{
    match p {
        Pipe::Im2col => "enc_im2col",
        Pipe::Gelu => "enc_gelu",
        Pipe::Gemm => "enc_gemm",
        Pipe::GemmT => "enc_gemm_t",
        Pipe::Extract => "enc_extract",
        Pipe::WinPack => "enc_win_pack",
        Pipe::GemmBeta => "enc_gemm_beta",
        Pipe::GemmBias => "enc_gemm_bias",
        Pipe::GemmBetaBias => "enc_gemm_beta_bias",
        Pipe::Softmax => "enc_softmax",
        Pipe::LayerNorm => "enc_layernorm",
        Pipe::Permute => "enc_permute",
        Pipe::AddPe => "enc_add_pe",
        Pipe::AttnFlat => "enc_attn_flat",
    }
}

/// A kernel that some plan may name: any but the softmax kernels, and those of
/// the widths that are built.
pub open spec fn kernel_built(k: Kernel) -> bool {
    match k {
        Kernel::Softmax(w) => softmax_built(w as int, w as int),
        Kernel::SoftmaxWide(p, t) => p != t && softmax_built(p as int, t as int),
        _ => true,
    }
}

/// Every kernel that a plan may name has a pipeline.
pub proof fn law_kernels_built(k: Kernel)
    requires
        kernel_built(k),
    ensures
        built_kernels().contains(k),
{
    let b = built_kernels();
    let i = match k {
        Kernel::GemvQkv => 0int,
        Kernel::GemvO => 1int,
        Kernel::GemvGu => 2int,
        Kernel::GemvDp => 3int,
        Kernel::GemvLm => 4int,
        Kernel::GemvQkvNorm => 5int,
        Kernel::GemvGuNorm => 6int,
        Kernel::GemvLmNorm => 7int,
        Kernel::RmsNorm => 8int,
        Kernel::Extract => 9int,
        Kernel::Gqa256 => 10int,
        Kernel::Gqa512 => 11int,
        Kernel::GqaSplit128 => 12int,
        Kernel::GqaSplitPair256 => 13int,
        Kernel::GqaSplitPair512 => 14int,
        Kernel::GqaSplitPair256Row0 => 15int,
        Kernel::GqaSplitPair256Coal => 16int,
        Kernel::GqaSplit256 => 17int,
        Kernel::GqaSplit512 => 18int,
        Kernel::GqaMerge => 19int,
        Kernel::Silu => 20int,
        Kernel::Argmax => 21int,
        Kernel::Embed => 22int,
        Kernel::Gemm => 23int,
        Kernel::GemmAcc => 24int,
        Kernel::GemmAv => 25int,
        Kernel::GemmCausal => 26int,
        Kernel::GemmAvCausal => 27int,
        Kernel::RepeatKv => 42int,
        Kernel::SlabStats => 43int,
        Kernel::SlabWeights => 44int,
        Kernel::SlabMerge => 45int,
        Kernel::Softmax(w) => if w == 32 {
            28int
        } else if w == 64 {
            29int
        } else if w == 128 {
            30int
        } else if w == 256 {
            31int
        } else if w == 512 {
            32int
        } else {
            33int
        },
        Kernel::SoftmaxWide(p, t) => if p == 64 {
            if t == 256 {
                34int
            } else if t == 512 {
                35int
            } else {
                36int
            }
        } else if p == 128 {
            if t == 256 {
                37int
            } else if t == 512 {
                38int
            } else {
                39int
            }
        } else if t == 512 {
            40int
        } else {
            41int
        },
    };
    assert(b[i] == k);
}

/// The softmax kernel that a prefill picks has a pipeline, whatever the context.
pub proof fn law_softmax_kernel_built(cur: usize, forced: u32)
    requires
        width_known(forced),
    ensures
        built_kernels().contains(softmax_kernel(cur, forced)),
{
    law_softmax_widths_built(cur, forced);
    law_kernels_built(softmax_kernel(cur, forced));
}

/// The shader and the entry point of the split-attention kernel agree.
pub proof fn law_pair_entry(cfg: TextConfig, chunk: usize, coop: bool, pf: bool, depth: usize)
    ensures
        pair_shader(cfg, chunk, coop, pf, depth).entry_spec() == if cfg.num_attention_heads == 2
            * cfg.num_key_value_heads {
            "gqa_split_p1_pair"@
        } else {
            "gqa_split_p1"@
        },
{
}

/// Every switch reaches the kernels it is for, and no other. The rows per
/// workgroup go to the plain vector-matrix kernels; the cooperative, the
/// prefetching and the deep form of attention to the paired kernels, the first
/// only where warps are known; shuffled reductions to the softmax kernels.
pub proof fn law_switches_reach_kernels(cfg: TextConfig, a: Switches, b: Switches, subgroup: bool, k: Kernel)
    ensures
        ({
            let x = shader_of(cfg, a, subgroup, k);
            let y = shader_of(cfg, b, subgroup, k);
            &&& x is Gemv ==> x->Gemv_rpw == a.gemv_rpw && x->Gemv_subgroup == subgroup
            &&& x is GemvNorm ==> x == y && x->GemvNorm_subgroup == subgroup && x->norm == cfg.hidden_size
                && x->GemvNorm_eps_bits == cfg.rms_norm_eps_bits
            &&& (k == Kernel::GqaSplitPair256 || k == Kernel::GqaSplitPair512) && x is GqaSplitPair ==> x->coop == (
            subgroup && a.gqa_coop) && x->pf == a.gqa_pf && x->depth == a.gqa_depth && !x->row0 && !x->coal
            &&& x is SoftmaxCausal ==> x->SoftmaxCausal_subgroup == (subgroup && a.sg_reduce)
            &&& k matches Kernel::Softmax(w) ==> x is SoftmaxCausal && x->phys == w && x->tree == w
            &&& k matches Kernel::SoftmaxWide(p, t) ==> x is SoftmaxCausal && x->phys == p && x->tree == t
            &&& !(x is Gemv || x is GqaSplitPair || x is SoftmaxCausal) ==> x == y
            &&& a.gemv_rpw == b.gemv_rpw && x is Gemv ==> x == y
            &&& a.gqa_coop == b.gqa_coop && a.gqa_pf == b.gqa_pf && a.gqa_depth == b.gqa_depth && x is GqaSplitPair
                ==> x == y
            &&& a.sg_reduce == b.sg_reduce && x is SoftmaxCausal ==> x == y
        }),
{
}

/// A split-attention kernel is built for the chunk that it is named by, over the
/// model's heads; the paired ones take the two query heads of a kv head.
pub proof fn law_split_kernels_by_chunk(cfg: TextConfig, sw: Switches, subgroup: bool)
    ensures
        ({
            let s = |k: Kernel| shader_of(cfg, sw, subgroup, k);
            &&& split_over(cfg, s(Kernel::GqaSplit128), 128)
            &&& split_over(cfg, s(Kernel::GqaSplit256), 256)
            &&& split_over(cfg, s(Kernel::GqaSplit512), 512)
            &&& split_over(cfg, s(Kernel::GqaSplitPair256), 256)
            &&& split_over(cfg, s(Kernel::GqaSplitPair512), 512)
            &&& cfg.num_attention_heads == 2 * cfg.num_key_value_heads ==> s(Kernel::GqaSplitPair256) is GqaSplitPair
                && s(Kernel::GqaSplitPair512) is GqaSplitPair
        }),
{
}

/// A shader computes split attention of the model over chunks of `chunk` keys.
pub open spec fn split_over(cfg: TextConfig, s: Shader, chunk: usize) -> bool {
    match s {
        Shader::GqaSplit { nqh, nkvh, hd, chunk: c } => nqh == cfg.num_attention_heads && nkvh
            == cfg.num_key_value_heads && hd == cfg.head_dim && c == chunk,
        Shader::GqaSplitPair { hd, chunk: c, rep, .. } => rep * cfg.num_key_value_heads == cfg.num_attention_heads && hd
            == cfg.head_dim && c == chunk,
        _ => false,
    }
}

} // verus!
