//! The prefill as a plan: run `s` positions through every layer with causal
//! attention, write their KV slots, and project the last position.
//!
//! Attention is flat, over one score row per query, or in slabs of [`SLAB_T`]
//! keys that are merged. Each GEMM reads its dimensions from a slot of one
//! uniform buffer.
use vstd::prelude::*;

use crate::decoder::{
    slab_path, softmax_blocks, softmax_widths, takes_slabs, width_known, Switches, TextConfig, WgpuTextDecoder,
    MAX_GEMMS, MAX_SLAB, SLAB_BS, SLAB_T,
};
use crate::decoder_ops::{Buf, GDims, Group, Kernel, Op, Uniform};
use crate::decoder_step::{again, again_ops, kept, run, run_ops, silu_write};
use crate::geometry::{align_up, ceil_div, div_up, grid_x, grid_xy, grid_y, lemma_align_bounds};
use crate::text::str_eq;

verus! {

/// The sizes that a prefill is laid out on.
#[derive(Clone, Copy, Debug, PartialEq, Eq, Structural)]
pub struct PrefillDims {
    /// Positions to run.
    pub s: usize,
    /// KV slots already filled.
    pub kv_start: usize,
    /// Keys that the last position attends over.
    pub cur: usize,
    /// `s` in whole GEMM tiles.
    pub mp: usize,
    /// `cur` in whole GEMM tiles.
    pub np: usize,
    /// `cur` in whole GEMM steps.
    pub cur16: usize,
    /// Key slabs, 0 on the flat path.
    pub n_slab: usize,
    /// Key rows per head of the repeated cache.
    pub nkv_rows: usize,
}

/// The sizes for `s` positions behind `kv_start`.
pub open spec fn dims_for(s: usize, kv_start: usize, slabs: bool) -> PrefillDims {
    let cur = kv_start + s;
    let np = align_up(cur, 128);
    let n_slab = if slabs {
        ceil_div(cur, 1024)
    } else {
        0
    };
    PrefillDims {
        s,
        kv_start,
        cur: cur as usize,
        mp: align_up(s as int, 128) as usize,
        np: np as usize,
        cur16: align_up(cur, 16) as usize,
        n_slab: n_slab as usize,
        nkv_rows: if slabs {
            (n_slab * 1024) as usize
        } else {
            np as usize
        },
    }
}

impl PrefillDims {
    pub open spec fn slabbed(self) -> bool {
        self.n_slab > 0
    }

    /// Columns of one score row.
    pub open spec fn score_cols(self) -> int {
        if self.slabbed() {
            1024
        } else {
            self.np as int
        }
    }

    /// Columns of one probability row.
    pub open spec fn prob_cols(self) -> int {
        if self.slabbed() {
            1024
        } else {
            self.cur16 as int
        }
    }
}

/// Why a prefill is refused.
#[derive(Clone, Copy, Debug, PartialEq, Eq, Structural)]
pub enum PrefillError {
    /// Fewer hidden states than positions.
    HiddenSize,
    /// More key slabs than uniform slots.
    TooManySlabs { n_slab: usize },
    /// The partial results of the slabs pass the binding limit.
    SlabScratch { bytes: u64, limit: u64 },
    /// The attention scratch passes the binding limit.
    AttnScratch { bytes: u64, limit: u64 },
}

/// A buffer to create.
#[derive(Clone, Copy, Debug, PartialEq, Eq, Structural)]
pub struct Alloc {
    pub buf: Buf,
    pub bytes: u64,
    pub uniform: bool,
}

/// A storage buffer of `bytes`.
pub open spec fn stored(buf: Buf, bytes: int) -> Alloc {
    Alloc { buf, bytes: bytes as u64, uniform: false }
}

/// A uniform buffer of `bytes`.
pub open spec fn uniform(buf: Buf, bytes: int) -> Alloc {
    Alloc { buf, bytes: bytes as u64, uniform: true }
}

pub(crate) fn storage(buf: Buf, bytes: usize) -> (r: Alloc)
    ensures
        r == stored(buf, bytes as int),
{
    Alloc { buf, bytes: bytes as u64, uniform: false }
}

pub(crate) fn uniform_buf(buf: Buf, bytes: usize) -> (r: Alloc)
    ensures
        r == uniform(buf, bytes as int),
{
    Alloc { buf, bytes: bytes as u64, uniform: true }
}

/// A prefill that passed its checks.
pub struct PrefillPlan {
    pub dims: PrefillDims,
    /// Buffers to create, in order. The hidden states go into the first.
    pub allocs: Vec<Alloc>,
    pub ops: Vec<Op>,
}

/// Bytes of `rows * cols` halves in whole words.
pub open spec fn half_bytes(rows: int, cols: int) -> int {
    rows * cols / 2 * 4
}

fn words(rows: usize, cols: usize) -> (r: usize)
    requires
        rows * cols * 2 <= usize::MAX,
    ensures
        r == half_bytes(rows as int, cols as int),
{
    rows * cols / 2 * 4
}

/// The buffers of a prefill.
pub open spec fn prefill_allocs(cfg: TextConfig, d: PrefillDims) -> Seq<Alloc> {
    let hs = cfg.hidden_size as int;
    let nqh = cfg.num_attention_heads as int;
    let hd = cfg.head_dim as int;
    let inter = cfg.intermediate_size as int;
    let mp = d.mp as int;
    seq![
        stored(Buf::PH, half_bytes(mp, hs)),
        stored(Buf::PNormed, half_bytes(mp, hs)),
        stored(Buf::PNorm2, half_bytes(mp, hs)),
        stored(Buf::PQkv, half_bytes(mp, cfg.qkv_width())),
        stored(Buf::PQOut, half_bytes(nqh * mp, hd)),
        stored(Buf::PScores, half_bytes(nqh * mp, d.score_cols())),
        stored(Buf::PKRep, half_bytes(nqh * d.nkv_rows, hd)),
        stored(Buf::PVRep, half_bytes(nqh * d.nkv_rows, hd)),
        stored(Buf::PAttn, half_bytes(nqh * mp, d.prob_cols())),
    ] + (if d.slabbed() {
        seq![
            stored(Buf::PSlabPart, half_bytes(d.n_slab * mp, nqh * hd)),
            stored(Buf::PSlabStats, d.n_slab * nqh * mp * 2 * 4),
            stored(Buf::PSlabW, d.n_slab * nqh * mp * 4),
        ]
    } else {
        Seq::empty()
    }) + seq![
        stored(Buf::PAttnFlat, half_bytes(mp, nqh * hd)),
        stored(Buf::PGu, half_bytes(mp, 2 * inter)),
        stored(Buf::PActivated, half_bytes(mp, inter)),
        uniform(Buf::PGd, 65536),
        uniform(Buf::PSl, 8704),
        uniform(Buf::PRk, 32),
    ]
}

/// The element counts of a prefill fit a size, at two bytes each.
pub open spec fn prefill_fits(cfg: TextConfig, d: PrefillDims) -> bool {
    let hs = cfg.hidden_size as int;
    let nqh = cfg.num_attention_heads as int;
    let hd = cfg.head_dim as int;
    let inter = cfg.intermediate_size as int;
    let mp = d.mp as int;
    &&& d.s >= 1
    &&& cfg.widths_fit()
    &&& d.s * hs * 2 <= usize::MAX
    &&& d.s * inter <= usize::MAX
    &&& nqh * d.s <= usize::MAX
    &&& mp * hs * 2 <= usize::MAX
    &&& mp * cfg.qkv_width() * 2 <= usize::MAX
    &&& mp * hd * 2 <= usize::MAX
    &&& mp * d.np * 2 <= usize::MAX
    &&& mp * d.cur16 * 2 <= usize::MAX
    &&& mp * 1024 * 2 <= usize::MAX
    &&& mp * (2 * inter) * 2 <= usize::MAX
    &&& mp * inter * 2 <= usize::MAX
    &&& nqh * hd * 2 <= usize::MAX
    &&& mp * (nqh * hd) * 2 <= usize::MAX
    &&& nqh * mp <= usize::MAX
    &&& nqh * mp * hd * 2 <= usize::MAX
    &&& nqh * mp * d.score_cols() * 2 <= usize::MAX
    &&& nqh * mp * d.cur16 * 2 <= usize::MAX
    &&& nqh * mp * d.prob_cols() * 2 <= usize::MAX
    &&& nqh * d.nkv_rows <= usize::MAX
    &&& nqh * d.nkv_rows * hd * 2 <= usize::MAX
    &&& d.np * hd * 2 <= usize::MAX
    &&& d.nkv_rows * hd * 2 <= usize::MAX
    &&& nqh * d.cur <= usize::MAX
    &&& nqh * d.cur * hd <= usize::MAX
    &&& d.n_slab * mp <= usize::MAX
    &&& d.n_slab * mp * (nqh * hd) * 2 <= usize::MAX
    &&& d.n_slab * mp * nqh <= usize::MAX
    &&& d.n_slab * mp * nqh * hd * 2 <= usize::MAX
    &&& d.n_slab * nqh <= usize::MAX
    &&& d.n_slab * nqh * mp * 8 <= usize::MAX
}

/// The dimensions of a GEMM of one matrix: the result row stride is `ldc` and
/// the first operand is dense.
pub open spec fn dense_dims(m: int, n: int, k: int, ldc: int, bsa: int, bsb: int, bsc: int) -> GDims {
    GDims {
        m: m as u32,
        n: n as u32,
        k: k as u32,
        ldc: ldc as u32,
        bsa: bsa as u32,
        bsb: bsb as u32,
        bsc: bsc as u32,
        beta: 0,
        row0: 0,
        lda: k as u32,
    }
}

fn dense(m: usize, n: usize, k: usize, ldc: usize, bsa: usize, bsb: usize, bsc: usize) -> (r: GDims)
    ensures
        r == dense_dims(m as int, n as int, k as int, ldc as int, bsa as int, bsb as int, bsc as int),
{
    GDims {
        m: m as u32,
        n: n as u32,
        k: k as u32,
        ldc: ldc as u32,
        bsa: bsa as u32,
        bsb: bsb as u32,
        bsc: bsc as u32,
        beta: 0,
        row0: 0,
        lda: k as u32,
    }
}

/// One GEMM: its dimensions go to `slot`, which the dispatch is bound at.
pub open spec fn gemm_ops(
    kernel: Kernel,
    a: Buf,
    w: Buf,
    c: Buf,
    c_off: int,
    slot: int,
    g: GDims,
    x: u32,
    y: u32,
    z: u32,
) -> Seq<Op> {
    seq![
        Op::Write { buf: Buf::PGd, offset: (slot * 256) as u64, data: Uniform::Gemm(g) },
        Op::Pipeline(kernel),
        Op::BindAt { group: Group::PGemm { a, w, c, c_off: c_off as u64 }, at: (slot * 256) as u32 },
        Op::Dispatch { x, y, z },
    ]
}

fn gemm(
    cond: bool,
    kernel: Kernel,
    a: Buf,
    w: Buf,
    c: Buf,
    c_off: usize,
    slot: usize,
    g: GDims,
    x: u32,
    y: u32,
    z: u32,
) -> (r: Vec<Op>)
    requires
        slot < MAX_GEMMS,
    ensures
        r@ == kept(cond, gemm_ops(kernel, a, w, c, c_off as int, slot as int, g, x, y, z)),
{
    if cond {
        vec![
            Op::Write { buf: Buf::PGd, offset: (slot * 256) as u64, data: Uniform::Gemm(g) },
            Op::Pipeline(kernel),
            Op::BindAt { group: Group::PGemm { a, w, c, c_off: c_off as u64 }, at: (slot * 256) as u32 },
            Op::Dispatch { x, y, z },
        ]
    } else {
        Vec::new()
    }
}

/// A dispatch bound at a dynamic offset.
pub open spec fn run_at_ops(kernel: Kernel, group: Group, at: u32, x: u32, y: u32) -> Seq<Op> {
    seq![Op::Pipeline(kernel), Op::BindAt { group, at }, Op::Dispatch { x, y, z: 1 }]
}

fn run_at(kernel: Kernel, group: Group, at: u32, x: u32, y: u32) -> (r: Vec<Op>)
    ensures
        r@ == run_at_ops(kernel, group, at, x, y),
{
    vec![Op::Pipeline(kernel), Op::BindAt { group, at }, Op::Dispatch { x, y, z: 1 }]
}

/// Keys of slab `t` that the context reaches, in whole GEMM steps.
pub open spec fn slab_len(d: PrefillDims, t: int) -> int {
    if d.cur16 - t * 1024 < 1024 {
        d.cur16 - t * 1024
    } else {
        1024
    }
}

/// Grid of the softmax over every query row.
pub open spec fn row_grid(cfg: TextConfig, d: PrefillDims) -> (u32, u32) {
    let n = cfg.num_attention_heads * d.s;
    (grid_x(n) as u32, grid_y(n) as u32)
}

/// Grid of the slab weights.
pub open spec fn weight_grid(cfg: TextConfig, d: PrefillDims) -> (u32, u32) {
    let n = ceil_div(cfg.num_attention_heads * d.mp, 256);
    (grid_x(n) as u32, grid_y(n) as u32)
}

/// Workgroups of the slab merge, per head.
pub open spec fn merge_grid(cfg: TextConfig, d: PrefillDims) -> u32 {
    ceil_div(d.mp * cfg.head_dim / 2, 256) as u32
}

/// Grid that repeats the cache for every query head.
pub open spec fn repeat_grid(cfg: TextConfig, d: PrefillDims) -> (u32, u32) {
    let n = ceil_div(cfg.num_attention_heads * d.cur * cfg.head_dim / 2, 256);
    (grid_x(n) as u32, grid_y(n) as u32)
}

/// Grid of the activation over all positions.
pub open spec fn act_grid(cfg: TextConfig, d: PrefillDims) -> (u32, u32) {
    let n = ceil_div(d.s * cfg.intermediate_size / 2, 256);
    (grid_x(n) as u32, grid_y(n) as u32)
}

/// The softmax settings of slab `t`.
pub open spec fn slab_softmax(cfg: TextConfig, d: PrefillDims, scale_bits: u32, t: int) -> Uniform {
    Uniform::Softmax {
        n_w: 512,
        n_x: 512,
        valid: slab_len(d, t) as u32,
        m: d.s as u32,
        mp: d.mp as u32,
        scale_bits,
        gx: row_grid(cfg, d).0,
        row0: (t * 1024) as u32,
    }
}

/// The statistics settings of slab `t`.
pub open spec fn slab_statistics(cfg: TextConfig, d: PrefillDims, scale_bits: u32, t: int) -> Uniform {
    Uniform::SlabStats {
        n_x: 512,
        valid: slab_len(d, t) as u32,
        m: d.s as u32,
        mp: d.mp as u32,
        scale_bits,
        row0: (t * 1024) as u32,
        gx: row_grid(cfg, d).0,
        rows: (cfg.num_attention_heads * d.mp) as u32,
    }
}

/// The settings of the first `n` slabs.
pub open spec fn slab_settings(cfg: TextConfig, d: PrefillDims, scale_bits: u32, n: nat) -> Seq<Op>
    decreases n,
{
    if n == 0 {
        Seq::empty()
    } else {
        let t = n - 1;
        slab_settings(cfg, d, scale_bits, (n - 1) as nat) + seq![
            Op::Write { buf: Buf::PSl, offset: (t * 256) as u64, data: slab_softmax(cfg, d, scale_bits, t) },
            Op::Write {
                buf: Buf::PSl,
                offset: ((16 + t) * 256) as u64,
                data: slab_statistics(cfg, d, scale_bits, t),
            },
        ]
    }
}

/// The attention settings of the whole prefill.
pub open spec fn attention_settings(cfg: TextConfig, d: PrefillDims, scale_bits: u32) -> Seq<Op> {
    if d.slabbed() {
        slab_settings(cfg, d, scale_bits, d.n_slab as nat) + seq![
            Op::Write {
                buf: Buf::PSl,
                offset: 8192,
                data: Uniform::SlabWeights {
                    rows: (cfg.num_attention_heads * d.mp) as u32,
                    n_slab: d.n_slab as u32,
                    gx: weight_grid(cfg, d).0,
                },
            },
            Op::Write {
                buf: Buf::PSl,
                offset: 8448,
                data: Uniform::SlabMerge { rows: d.mp as u32, n_slab: d.n_slab as u32, gx: merge_grid(cfg, d) },
            },
        ]
    } else {
        seq![
            Op::Write {
                buf: Buf::PSl,
                offset: 0,
                data: Uniform::Softmax {
                    n_w: (d.cur16 / 2) as u32,
                    n_x: (d.np / 2) as u32,
                    valid: d.cur as u32,
                    m: d.s as u32,
                    mp: d.mp as u32,
                    scale_bits,
                    gx: row_grid(cfg, d).0,
                    row0: 0,
                },
            },
        ]
    }
}

/// Byte offset of the first row behind the context in head `h`'s block.
pub open spec fn tail_offset(cfg: TextConfig, d: PrefillDims, h: int) -> int {
    (h * d.nkv_rows + d.cur) * cfg.head_dim * 2
}

/// Bytes behind the context in one head's block.
pub open spec fn tail_bytes(cfg: TextConfig, d: PrefillDims) -> int {
    (d.nkv_rows - d.cur) * cfg.head_dim * 2
}

/// Zeroes the rows behind the context in the first `n` heads' blocks.
pub open spec fn tail_zeros(cfg: TextConfig, d: PrefillDims, n: nat) -> Seq<Op>
    decreases n,
{
    if n == 0 {
        Seq::empty()
    } else {
        let h = n - 1;
        tail_zeros(cfg, d, (n - 1) as nat) + seq![
            Op::WriteZeros {
                buf: Buf::PKRep,
                offset: tail_offset(cfg, d, h) as u64,
                len: tail_bytes(cfg, d) as usize,
            },
            Op::WriteZeros {
                buf: Buf::PVRep,
                offset: tail_offset(cfg, d, h) as u64,
                len: tail_bytes(cfg, d) as usize,
            },
        ]
    }
}

/// Everything written before the first layer.
pub open spec fn setup_ops(dec: WgpuTextDecoder, d: PrefillDims, scale_bits: u32) -> Seq<Op> {
    let cfg = dec.cfg;
    seq![
        silu_write(cfg, d.s as int),
        Op::Write {
            buf: Buf::UQkvx,
            offset: 0,
            data: Uniform::Qkvx {
                max_seq: dec.cap as u32,
                start: d.kv_start as u32,
                pos_offset: d.kv_start as u32,
                s: d.mp as u32,
                eps_bits: cfg.rms_norm_eps_bits,
            },
        },
    ] + attention_settings(cfg, d, scale_bits) + (if d.nkv_rows > d.cur {
        tail_zeros(cfg, d, cfg.num_attention_heads as nat)
    } else {
        Seq::empty()
    }) + seq![
        Op::Write {
            buf: Buf::PRk,
            offset: 0,
            data: Uniform::RepeatKv {
                nkvh: cfg.num_key_value_heads as u32,
                max_seq: dec.cap as u32,
                cur: d.cur as u32,
                hd: cfg.head_dim as u32,
                npw: (d.nkv_rows * cfg.head_dim / 2) as u32,
                gx: repeat_grid(cfg, d).0,
            },
        },
    ]
}

/// The score GEMM of slab `t`.
pub open spec fn slab_score_dims(cfg: TextConfig, d: PrefillDims, t: int) -> GDims {
    GDims {
        m: d.s as u32,
        n: 1024,
        k: cfg.head_dim as u32,
        ldc: 1024,
        bsa: (d.mp * cfg.head_dim / 2) as u32,
        bsb: (d.nkv_rows * cfg.head_dim / 2) as u32,
        bsc: (d.mp * 1024) as u32,
        beta: 0,
        row0: (t * 1024) as u32,
        lda: cfg.head_dim as u32,
    }
}

/// The value GEMM of slab `t`.
pub open spec fn slab_value_dims(cfg: TextConfig, d: PrefillDims, t: int) -> GDims {
    GDims {
        m: d.s as u32,
        n: cfg.head_dim as u32,
        k: slab_len(d, t) as u32,
        ldc: (cfg.num_attention_heads * cfg.head_dim) as u32,
        bsa: (d.mp * 1024 / 2) as u32,
        bsb: (d.nkv_rows * cfg.head_dim / 2) as u32,
        bsc: cfg.head_dim as u32,
        beta: 0,
        row0: (t * 1024) as u32,
        lda: 1024,
    }
}

/// Byte offset of slab `t`'s partial result.
pub open spec fn slab_part_offset(cfg: TextConfig, d: PrefillDims, t: int) -> int {
    t * d.mp * cfg.num_attention_heads * cfg.head_dim * 2
}

/// Attention over slab `t`: scores, statistics, softmax, values.
pub open spec fn slab_ops(cfg: TextConfig, d: PrefillDims, dup: Seq<char>, t: int) -> Seq<Op> {
    let nqh = cfg.num_attention_heads as u32;
    let my = (d.mp / 128) as u32;
    let (gx, gy) = row_grid(cfg, d);
    let scores = gemm_ops(
        Kernel::GemmCausal,
        Buf::PQOut,
        Buf::PKRep,
        Buf::PScores,
        0,
        t,
        slab_score_dims(cfg, d, t),
        8,
        my,
        nqh,
    );
    let values = gemm_ops(
        Kernel::GemmAvCausal,
        Buf::PAttn,
        Buf::PVRep,
        Buf::PSlabPart,
        slab_part_offset(cfg, d, t),
        d.n_slab + t,
        slab_value_dims(cfg, d, t),
        1,
        my,
        nqh,
    );
    scores + kept(dup == "p_scores"@, scores) + run_at_ops(
        Kernel::SlabStats,
        Group::PSlabStats,
        ((16 + t) * 256) as u32,
        gx,
        gy,
    ) + run_at_ops(Kernel::Softmax(256), Group::PSoftmax, (t * 256) as u32, gx, gy) + kept(
        dup == "p_softmax"@,
        again_ops(gx, gy, 1),
    ) + values + kept(dup == "p_av"@, values)
}

/// Attention over the first `n` slabs.
pub open spec fn slabs_ops(cfg: TextConfig, d: PrefillDims, dup: Seq<char>, n: nat) -> Seq<Op>
    decreases n,
{
    if n == 0 {
        Seq::empty()
    } else {
        slabs_ops(cfg, d, dup, (n - 1) as nat) + slab_ops(cfg, d, dup, n - 1)
    }
}

/// The flat softmax kernel.
pub open spec fn softmax_kernel(cur: usize, forced: u32) -> Kernel {
    let (phys, tree) = softmax_widths(cur, forced);
    if phys == tree {
        Kernel::Softmax(tree as u32)
    } else {
        Kernel::SoftmaxWide(phys as u32, tree as u32)
    }
}

/// 1 where the condition holds.
pub open spec fn one_if(cond: bool) -> int {
    if cond {
        1
    } else {
        0
    }
}

/// GEMM slots that one layer's flat attention takes.
pub open spec fn flat_slots(dup: Seq<char>) -> int {
    2 + one_if(dup == "p_scores"@) + one_if(dup == "p_av"@)
}

/// Flat attention, its GEMMs from `slot` on.
pub open spec fn flat_ops(cfg: TextConfig, d: PrefillDims, dup: Seq<char>, forced: u32, slot: int) -> Seq<Op> {
    let nqh = cfg.num_attention_heads as u32;
    let hd = cfg.head_dim as int;
    let my = (d.mp / 128) as u32;
    let (gx, gy) = row_grid(cfg, d);
    let sdims = dense_dims(
        d.s as int,
        d.cur as int,
        hd,
        d.np as int,
        d.mp * hd / 2,
        d.np * hd / 2,
        d.mp * d.np,
    );
    let vdims = dense_dims(
        d.s as int,
        hd,
        d.cur16 as int,
        cfg.num_attention_heads * hd,
        d.mp * d.cur16 / 2,
        d.np * hd / 2,
        hd,
    );
    let vslot = slot + 1 + one_if(dup == "p_scores"@);
    gemm_ops(
        Kernel::GemmCausal,
        Buf::PQOut,
        Buf::PKRep,
        Buf::PScores,
        0,
        slot,
        sdims,
        (d.np / 128) as u32,
        my,
        nqh,
    ) + kept(
        dup == "p_scores"@,
        gemm_ops(
            Kernel::Gemm,
            Buf::PQOut,
            Buf::PKRep,
            Buf::PScores,
            0,
            slot + 1,
            sdims,
            (d.np / 128) as u32,
            my,
            nqh,
        ),
    ) + run_at_ops(softmax_kernel(d.cur, forced), Group::PSoftmax, 0, gx, gy) + kept(
        dup == "p_softmax"@,
        again_ops(gx, gy, 1),
    ) + gemm_ops(
        Kernel::GemmAvCausal,
        Buf::PAttn,
        Buf::PVRep,
        Buf::PAttnFlat,
        0,
        vslot,
        vdims,
        1,
        my,
        nqh,
    ) + kept(
        dup == "p_av"@,
        gemm_ops(Kernel::GemmAv, Buf::PAttn, Buf::PVRep, Buf::PAttnFlat, 0, vslot + 1, vdims, 1, my, nqh),
    )
}

/// Attention of one layer.
pub open spec fn attention_ops(cfg: TextConfig, d: PrefillDims, sw: Switches, slot: int) -> Seq<Op> {
    if d.slabbed() {
        slabs_ops(cfg, d, sw.dup@, d.n_slab as nat) + run_ops(
            Kernel::SlabWeights,
            Group::PSlabWeights,
            weight_grid(cfg, d).0,
            weight_grid(cfg, d).1,
            1,
        ) + run_ops(
            Kernel::SlabMerge,
            Group::PSlabMerge,
            merge_grid(cfg, d),
            cfg.num_attention_heads as u32,
            1,
        )
    } else {
        flat_ops(cfg, d, sw.dup@, sw.sm_bs, slot)
    }
}

/// GEMM slots that attention takes from the ring.
pub open spec fn attention_slots(d: PrefillDims, dup: Seq<char>) -> int {
    if d.slabbed() {
        0
    } else {
        flat_slots(dup)
    }
}

/// GEMM slots that one layer takes from the ring.
pub open spec fn layer_slots(d: PrefillDims, dup: Seq<char>) -> int {
    4 + attention_slots(d, dup)
}

/// Layer `l`, its GEMMs from `slot` on.
pub open spec fn prefill_layer_ops(cfg: TextConfig, d: PrefillDims, sw: Switches, l: usize, slot: int) -> Seq<Op> {
    let dup = sw.dup@;
    let s = d.s as u32;
    let hs = cfg.hidden_size as int;
    let inter = cfg.intermediate_size as int;
    let qkv = cfg.qkv_width();
    let heads = (cfg.num_attention_heads + cfg.num_key_value_heads) as u32;
    let my = (d.mp / 128) as u32;
    let (rx, ry) = repeat_grid(cfg, d);
    let (ax, ay) = act_grid(cfg, d);
    let after = slot + 1 + attention_slots(d, dup);
    run_ops(Kernel::RmsNorm, Group::PRms1(l), s, 1, 1) + gemm_ops(
        Kernel::Gemm,
        Buf::PNormed,
        Buf::QkvW(l),
        Buf::PQkv,
        0,
        slot,
        dense_dims(d.s as int, qkv, hs, qkv, 0, 0, 0),
        (qkv / 128) as u32,
        my,
        1,
    ) + run_ops(Kernel::Extract, Group::PExtract(l), s, heads, 1) + kept(
        dup == "p_extract"@,
        again_ops(s, heads, 1),
    ) + run_ops(Kernel::RepeatKv, Group::PRepeatK(l), rx, ry, 1) + kept(dup == "p_repeat"@, again_ops(rx, ry, 1))
        + run_ops(Kernel::RepeatKv, Group::PRepeatV(l), rx, ry, 1) + kept(
        dup == "p_repeat"@,
        again_ops(rx, ry, 1),
    ) + attention_ops(cfg, d, sw, slot + 1) + gemm_ops(
        Kernel::GemmAcc,
        Buf::PAttnFlat,
        Buf::OW(l),
        Buf::PH,
        0,
        after,
        dense_dims(d.s as int, hs, cfg.num_attention_heads * cfg.head_dim, hs, 0, 0, 0),
        (hs / 128) as u32,
        my,
        1,
    ) + run_ops(Kernel::RmsNorm, Group::PRms2(l), s, 1, 1) + kept(dup == "p_rms"@, again_ops(s, 1, 1)) + gemm_ops(
        Kernel::Gemm,
        Buf::PNorm2,
        Buf::GuW(l),
        Buf::PGu,
        0,
        after + 1,
        dense_dims(d.s as int, 2 * inter, hs, 2 * inter, 0, 0, 0),
        (2 * inter / 128) as u32,
        my,
        1,
    ) + run_ops(Kernel::Silu, Group::PSilu, ax, ay, 1) + kept(dup == "p_silu"@, again_ops(ax, ay, 1)) + gemm_ops(
        Kernel::GemmAcc,
        Buf::PActivated,
        Buf::DpW(l),
        Buf::PH,
        0,
        after + 2,
        dense_dims(d.s as int, hs, inter, hs, 0, 0, 0),
        (hs / 128) as u32,
        my,
        1,
    )
}

/// Layers between two submissions.
pub open spec fn submit_every(s: int) -> int {
    if s >= 4096 {
        2
    } else {
        4
    }
}

/// Whether the work so far is submitted behind layer `l`.
pub open spec fn submits_after(s: int, l: int) -> bool {
    s >= 512 && (l + 1) % submit_every(s) == 0
}

/// The first GEMM slot of layer `l`: behind the slab slots, counting on from the
/// last submission.
pub open spec fn layer_slot(d: PrefillDims, dup: Seq<char>, l: int) -> int {
    let since = if d.s >= 512 {
        l % submit_every(d.s as int)
    } else {
        l
    };
    32 + since * layer_slots(d, dup)
}

/// The first `n` layers, with their submissions.
pub open spec fn prefill_layers_ops(cfg: TextConfig, d: PrefillDims, sw: Switches, n: nat) -> Seq<Op>
    decreases n,
{
    if n == 0 {
        Seq::empty()
    } else {
        let l = n - 1;
        prefill_layers_ops(cfg, d, sw, (n - 1) as nat) + prefill_layer_ops(
            cfg,
            d,
            sw,
            l as usize,
            layer_slot(d, sw.dup@, l),
        ) + (if submits_after(d.s as int, l) {
            seq![Op::SubmitWait { layer: l as usize }]
        } else {
            Seq::empty()
        })
    }
}

/// The projection of the last position.
pub open spec fn last_ops(cfg: TextConfig, d: PrefillDims) -> Seq<Op> {
    run_ops(
        Kernel::RmsNorm,
        Group::PFinalRms {
            offset: ((d.s - 1) * cfg.hidden_size * 2) as u64,
            size: (cfg.hidden_size * 2) as u64,
        },
        1,
        1,
        1,
    ) + run_ops(Kernel::GemvLm, Group::GemvLm, (cfg.vocab_size / 8) as u32, 1, 1) + run_ops(
        Kernel::Argmax,
        Group::Argmax,
        1,
        1,
        1,
    ) + seq![Op::CopyToken, Op::Submit]
}

/// The whole prefill.
pub open spec fn prefill_ops(dec: WgpuTextDecoder, d: PrefillDims, sw: Switches, scale_bits: u32) -> Seq<Op> {
    setup_ops(dec, d, scale_bits) + prefill_layers_ops(dec.cfg, d, sw, dec.cfg.num_hidden_layers as nat) + last_ops(
        dec.cfg,
        d,
    )
}

/// The GEMM slots of every layer lie in the ring.
pub open spec fn slots_fit(cfg: TextConfig, d: PrefillDims, dup: Seq<char>) -> bool {
    d.s < 512 ==> 32 + cfg.num_hidden_layers * layer_slots(d, dup) <= 256
}

/// The check that a prefill fails, if any.
pub open spec fn prefill_error(cfg: TextConfig, d: PrefillDims, hidden_len: int, limit: u64) -> Option<PrefillError> {
    let nqh = cfg.num_attention_heads as int;
    let part = d.n_slab * d.mp * nqh * cfg.head_dim * 2;
    let scratch = nqh * d.mp * d.cur16 * 2;
    if hidden_len < d.s * cfg.hidden_size * 2 {
        Some(PrefillError::HiddenSize)
    } else if d.slabbed() && d.n_slab > MAX_SLAB {
        Some(PrefillError::TooManySlabs { n_slab: d.n_slab })
    } else if d.slabbed() && part > limit {
        Some(PrefillError::SlabScratch { bytes: part as u64, limit })
    } else if !d.slabbed() && scratch > limit {
        Some(PrefillError::AttnScratch { bytes: scratch as u64, limit })
    } else {
        None
    }
}

/// Where the layers start counting their slots, they stay inside the ring.
pub proof fn law_slots_in_ring(cfg: TextConfig, d: PrefillDims, dup: Seq<char>, l: int)
    requires
        slots_fit(cfg, d, dup),
        0 <= l < cfg.num_hidden_layers,
    ensures
        32 <= layer_slot(d, dup, l),
        layer_slot(d, dup, l) + layer_slots(d, dup) <= MAX_GEMMS,
{
    let per = layer_slots(d, dup);
    let since = if d.s >= 512 {
        l % submit_every(d.s as int)
    } else {
        l
    };
    assert(4 <= per <= 8);
    if d.s >= 512 {
        assert(0 <= since <= 3);
        assert(since * per <= 3 * per) by (nonlinear_arith)
            requires
                since <= 3,
                per >= 0,
        ;
        assert(since * per >= 0) by (nonlinear_arith)
            requires
                since >= 0,
                per >= 0,
        ;
    } else {
        assert((l + 1) * per <= cfg.num_hidden_layers * per) by (nonlinear_arith)
            requires
                l + 1 <= cfg.num_hidden_layers,
                per >= 0,
        ;
        assert((l + 1) * per == l * per + per) by (nonlinear_arith);
        assert(l * per >= 0) by (nonlinear_arith)
            requires
                l >= 0,
                per >= 0,
        ;
    }
}

/// Sizes a prefill of `s` positions behind `kv_start`.
pub fn prefill_dims(s: usize, kv_start: usize, slabs: bool) -> (d: PrefillDims)
    requires
        s >= 1,
        align_up(kv_start + s, 1024) <= usize::MAX,
    ensures
        d == dims_for(s, kv_start, slabs),
        d.slabbed() == slabs,
        d.cur == kv_start + s,
        d.mp == align_up(s as int, 128),
        dims_related(d),
{
    proof {
        lemma_align_bounds(kv_start + s, 1024);
        lemma_align_bounds(kv_start + s, 128);
        lemma_align_bounds(kv_start + s, 16);
        lemma_align_bounds(s as int, 128);
        assert(align_up(s as int, 128) <= align_up(kv_start + s, 1024)) by {
            crate::geometry::law_align_least(s as int, 128, align_up(kv_start + s, 1024));
        }
        crate::geometry::law_align_least(kv_start + s, 128, align_up(kv_start + s, 1024));
        crate::geometry::law_align_least(kv_start + s, 16, align_up(kv_start + s, 128));
    }
    let cur: usize = kv_start + s;
    let np: usize = div_up(cur, 128) * 128;
    let n_slab: usize = if slabs {
        div_up(cur, SLAB_T)
    } else {
        0
    };
    PrefillDims {
        s,
        kv_start,
        cur,
        mp: div_up(s, 128) * 128,
        np,
        cur16: div_up(cur, 16) * 16,
        n_slab,
        nkv_rows: if slabs {
            n_slab * SLAB_T
        } else {
            np
        },
    }
}

/// The relations between the sizes that the layout rests on.
pub open spec fn dims_related(d: PrefillDims) -> bool {
    &&& d.cur <= d.nkv_rows
    &&& d.cur <= d.cur16 <= d.np
    &&& d.n_slab * 1024 < d.cur + 1024
}

fn allocs(cfg: &TextConfig, d: &PrefillDims) -> (r: Vec<Alloc>)
    requires
        prefill_fits(*cfg, *d),
    ensures
        r@ == prefill_allocs(*cfg, *d),
{
    let hs: usize = cfg.hidden_size;
    let nqh: usize = cfg.num_attention_heads;
    let hd: usize = cfg.head_dim;
    let inter: usize = cfg.intermediate_size;
    let mp: usize = d.mp;
    let slabbed: bool = d.n_slab > 0;
    let score_cols: usize = if slabbed {
        SLAB_T
    } else {
        d.np
    };
    let prob_cols: usize = if slabbed {
        SLAB_T
    } else {
        d.cur16
    };
    let mut r = vec![
        storage(Buf::PH, words(mp, hs)),
        storage(Buf::PNormed, words(mp, hs)),
        storage(Buf::PNorm2, words(mp, hs)),
        storage(Buf::PQkv, words(mp, cfg.fused_qkv_cols())),
        storage(Buf::PQOut, words(nqh * mp, hd)),
        storage(Buf::PScores, words(nqh * mp, score_cols)),
        storage(Buf::PKRep, words(nqh * d.nkv_rows, hd)),
        storage(Buf::PVRep, words(nqh * d.nkv_rows, hd)),
        storage(Buf::PAttn, words(nqh * mp, prob_cols)),
    ];
    let mut t = if slabbed {
        vec![
            storage(Buf::PSlabPart, words(d.n_slab * mp, nqh * hd)),
            storage(Buf::PSlabStats, d.n_slab * nqh * mp * 2 * 4),
            storage(Buf::PSlabW, d.n_slab * nqh * mp * 4),
        ]
    } else {
        Vec::new()
    };
    r.append(&mut t);
    let mut t = vec![
        storage(Buf::PAttnFlat, words(mp, nqh * hd)),
        storage(Buf::PGu, words(mp, 2 * inter)),
        storage(Buf::PActivated, words(mp, inter)),
        uniform_buf(Buf::PGd, MAX_GEMMS * 256),
        uniform_buf(Buf::PSl, (2 * MAX_SLAB + 2) * 256),
        uniform_buf(Buf::PRk, 32),
    ];
    r.append(&mut t);
    r
}

fn slab_keys(d: &PrefillDims, t: usize) -> (r: usize)
    requires
        dims_related(*d),
        t < d.n_slab,
    ensures
        r == slab_len(*d, t as int),
{
    let left: usize = d.cur16 - t * SLAB_T;
    if left < SLAB_T {
        left
    } else {
        SLAB_T
    }
}

fn row_dispatch(cfg: &TextConfig, d: &PrefillDims) -> (r: (u32, u32))
    requires
        prefill_fits(*cfg, *d),
    ensures
        r == row_grid(*cfg, *d),
{
    grid_xy(cfg.num_attention_heads * d.s)
}

fn weight_dispatch(cfg: &TextConfig, d: &PrefillDims) -> (r: (u32, u32))
    requires
        prefill_fits(*cfg, *d),
    ensures
        r == weight_grid(*cfg, *d),
{
    grid_xy(div_up(cfg.num_attention_heads * d.mp, 256))
}

fn merge_dispatch(cfg: &TextConfig, d: &PrefillDims) -> (r: u32)
    requires
        prefill_fits(*cfg, *d),
    ensures
        r == merge_grid(*cfg, *d),
{
    div_up(d.mp * cfg.head_dim / 2, 256) as u32
}

fn repeat_dispatch(cfg: &TextConfig, d: &PrefillDims) -> (r: (u32, u32))
    requires
        prefill_fits(*cfg, *d),
    ensures
        r == repeat_grid(*cfg, *d),
{
    grid_xy(div_up(cfg.num_attention_heads * d.cur * cfg.head_dim / 2, 256))
}

fn attention_setup(cfg: &TextConfig, d: &PrefillDims, scale_bits: u32) -> (r: Vec<Op>)
    requires
        prefill_fits(*cfg, *d),
        dims_related(*d),
        d.n_slab <= MAX_SLAB,
    ensures
        r@ == attention_settings(*cfg, *d, scale_bits),
{
    let (gx, _gy) = row_dispatch(cfg, d);
    if d.n_slab == 0 {
        return vec![
            Op::Write {
                buf: Buf::PSl,
                offset: 0,
                data: Uniform::Softmax {
                    n_w: (d.cur16 / 2) as u32,
                    n_x: (d.np / 2) as u32,
                    valid: d.cur as u32,
                    m: d.s as u32,
                    mp: d.mp as u32,
                    scale_bits,
                    gx,
                    row0: 0,
                },
            },
        ];
    }
    let rows: u32 = (cfg.num_attention_heads * d.mp) as u32;
    let mut r: Vec<Op> = Vec::new();
    for t in 0..d.n_slab
        invariant
            prefill_fits(*cfg, *d),
            dims_related(*d),
            d.n_slab <= MAX_SLAB,
            gx == row_grid(*cfg, *d).0,
            rows == (cfg.num_attention_heads * d.mp) as u32,
            r@ == slab_settings(*cfg, *d, scale_bits, t as nat),
    {
        let valid: u32 = slab_keys(d, t) as u32;
        let row0: u32 = (t * SLAB_T) as u32;
        let mut u = vec![
            Op::Write {
                buf: Buf::PSl,
                offset: (t * 256) as u64,
                data: Uniform::Softmax {
                    n_w: 512,
                    n_x: 512,
                    valid,
                    m: d.s as u32,
                    mp: d.mp as u32,
                    scale_bits,
                    gx,
                    row0,
                },
            },
            Op::Write {
                buf: Buf::PSl,
                offset: ((MAX_SLAB + t) * 256) as u64,
                data: Uniform::SlabStats {
                    n_x: 512,
                    valid,
                    m: d.s as u32,
                    mp: d.mp as u32,
                    scale_bits,
                    row0,
                    gx,
                    rows,
                },
            },
        ];
        r.append(&mut u);
    }
    let (wx, _wy) = weight_dispatch(cfg, d);
    let mx: u32 = merge_dispatch(cfg, d);
    let mut u = vec![
        Op::Write {
            buf: Buf::PSl,
            offset: 8192,
            data: Uniform::SlabWeights { rows, n_slab: d.n_slab as u32, gx: wx },
        },
        Op::Write {
            buf: Buf::PSl,
            offset: 8448,
            data: Uniform::SlabMerge { rows: d.mp as u32, n_slab: d.n_slab as u32, gx: mx },
        },
    ];
    r.append(&mut u);
    r
}

/// The zeroed tail of head `h` ends where the head's block ends, so together
/// with the context's rows the whole repeated cache is written, and nothing
/// behind it is.
pub proof fn law_tail_ends_block(cfg: TextConfig, d: PrefillDims, h: int)
    requires
        d.cur <= d.nkv_rows,
        0 <= h < cfg.num_attention_heads,
    ensures
        tail_offset(cfg, d, h) + tail_bytes(cfg, d) == (h + 1) * d.nkv_rows * cfg.head_dim * 2,
        tail_offset(cfg, d, h) == h * d.nkv_rows * cfg.head_dim * 2 + d.cur * cfg.head_dim * 2,
        0 <= tail_bytes(cfg, d),
        0 <= tail_offset(cfg, d, h),
        tail_offset(cfg, d, h) + tail_bytes(cfg, d) <= cfg.num_attention_heads * d.nkv_rows * cfg.head_dim * 2,
{
    let n = d.nkv_rows as int;
    let c = d.cur as int;
    let w = cfg.head_dim as int;
    let q = cfg.num_attention_heads as int;
    assert((h * n + c) * w * 2 == h * n * w * 2 + c * w * 2) by (nonlinear_arith);
    assert((n - c) * w * 2 == n * w * 2 - c * w * 2) by (nonlinear_arith);
    assert((h + 1) * n * w * 2 == h * n * w * 2 + n * w * 2) by (nonlinear_arith);
    assert((n - c) * w >= 0) by (nonlinear_arith)
        requires
            n >= c,
            w >= 0,
    ;
    assert((h * n + c) * w >= 0) by (nonlinear_arith)
        requires
            h >= 0,
            n >= 0,
            c >= 0,
            w >= 0,
    ;
    assert((h + 1) * n * w <= q * n * w) by (nonlinear_arith)
        requires
            h + 1 <= q,
            n >= 0,
            w >= 0,
    ;
}

fn tails(cfg: &TextConfig, d: &PrefillDims) -> (r: Vec<Op>)
    requires
        prefill_fits(*cfg, *d),
        dims_related(*d),
    ensures
        r@ == tail_zeros(*cfg, *d, cfg.num_attention_heads as nat),
{
    let mut r: Vec<Op> = Vec::new();
    for h in 0..cfg.num_attention_heads
        invariant
            prefill_fits(*cfg, *d),
            dims_related(*d),
            r@ == tail_zeros(*cfg, *d, h as nat),
    {
        proof {
            law_tail_ends_block(*cfg, *d, h as int);
            assert(h * d.nkv_rows <= cfg.num_attention_heads * d.nkv_rows - d.nkv_rows) by (nonlinear_arith)
                requires
                    h + 1 <= cfg.num_attention_heads,
            ;
            assert(0 <= h * d.nkv_rows) by (nonlinear_arith);
        }
        let len: usize = (d.nkv_rows - d.cur) * cfg.head_dim * 2;
        let offset: u64 = ((h * d.nkv_rows + d.cur) * cfg.head_dim * 2) as u64;
        let mut u = vec![
            Op::WriteZeros { buf: Buf::PKRep, offset, len },
            Op::WriteZeros { buf: Buf::PVRep, offset, len },
        ];
        r.append(&mut u);
    }
    r
}

fn setup(dec: &WgpuTextDecoder, d: &PrefillDims, scale_bits: u32) -> (r: Vec<Op>)
    requires
        prefill_fits(dec.cfg, *d),
        dims_related(*d),
        d.n_slab <= MAX_SLAB,
    ensures
        r@ == setup_ops(*dec, *d, scale_bits),
{
    let cfg = &dec.cfg;
    let mut r = vec![
        dec.write_silu_rows(d.s).0,
        Op::Write {
            buf: Buf::UQkvx,
            offset: 0,
            data: Uniform::Qkvx {
                max_seq: dec.cap as u32,
                start: d.kv_start as u32,
                pos_offset: d.kv_start as u32,
                s: d.mp as u32,
                eps_bits: cfg.rms_norm_eps_bits,
            },
        },
    ];
    let mut t = attention_setup(cfg, d, scale_bits);
    r.append(&mut t);
    let mut t = if d.nkv_rows > d.cur {
        tails(cfg, d)
    } else {
        Vec::new()
    };
    r.append(&mut t);
    let (gx, _gy) = repeat_dispatch(cfg, d);
    let mut t = vec![
        Op::Write {
            buf: Buf::PRk,
            offset: 0,
            data: Uniform::RepeatKv {
                nkvh: cfg.num_key_value_heads as u32,
                max_seq: dec.cap as u32,
                cur: d.cur as u32,
                hd: cfg.head_dim as u32,
                npw: (d.nkv_rows * cfg.head_dim / 2) as u32,
                gx,
            },
        },
    ];
    r.append(&mut t);
    r
}

/// The partial results of the slabs follow each other without gap or overlap,
/// and fill their buffer.
pub proof fn law_slab_parts_adjacent(cfg: TextConfig, d: PrefillDims, t: int)
    requires
        0 <= t < d.n_slab,
    ensures
        slab_part_offset(cfg, d, t + 1) == slab_part_offset(cfg, d, t) + d.mp * cfg.num_attention_heads
            * cfg.head_dim * 2,
        0 <= slab_part_offset(cfg, d, t) <= slab_part_offset(cfg, d, t + 1) <= slab_part_offset(
            cfg,
            d,
            d.n_slab as int,
        ),
{
    let m = d.mp as int;
    let q = cfg.num_attention_heads as int;
    let w = cfg.head_dim as int;
    let n = d.n_slab as int;
    assert((t + 1) * m * q * w * 2 == t * m * q * w * 2 + m * q * w * 2) by (nonlinear_arith);
    assert(m * q * w >= 0) by (nonlinear_arith)
        requires
            m >= 0,
            q >= 0,
            w >= 0,
    ;
    assert(t * m * q * w >= 0) by (nonlinear_arith)
        requires
            t >= 0,
            m >= 0,
            q >= 0,
            w >= 0,
    ;
    assert((t + 1) * m * q * w <= n * m * q * w) by (nonlinear_arith)
        requires
            t + 1 <= n,
            m >= 0,
            q >= 0,
            w >= 0,
    ;
}

fn one_slab(cfg: &TextConfig, d: &PrefillDims, dup: &str, t: usize) -> (r: Vec<Op>)
    requires
        prefill_fits(*cfg, *d),
        dims_related(*d),
        t < d.n_slab <= MAX_SLAB,
    ensures
        r@ == slab_ops(*cfg, *d, dup@, t as int),
{
    let nqh: u32 = cfg.num_attention_heads as u32;
    let my: u32 = (d.mp / 128) as u32;
    let (gx, gy) = row_dispatch(cfg, d);
    let row0: u32 = (t * SLAB_T) as u32;
    let sdims = GDims {
        m: d.s as u32,
        n: 1024,
        k: cfg.head_dim as u32,
        ldc: 1024,
        bsa: (d.mp * cfg.head_dim / 2) as u32,
        bsb: (d.nkv_rows * cfg.head_dim / 2) as u32,
        bsc: (d.mp * SLAB_T) as u32,
        beta: 0,
        row0,
        lda: cfg.head_dim as u32,
    };
    let vdims = GDims {
        m: d.s as u32,
        n: cfg.head_dim as u32,
        k: slab_keys(d, t) as u32,
        ldc: (cfg.num_attention_heads * cfg.head_dim) as u32,
        bsa: (d.mp * SLAB_T / 2) as u32,
        bsb: (d.nkv_rows * cfg.head_dim / 2) as u32,
        bsc: cfg.head_dim as u32,
        beta: 0,
        row0,
        lda: 1024,
    };
    proof {
        law_slab_parts_adjacent(*cfg, *d, t as int);
        let (m, q, n) = (d.mp as int, cfg.num_attention_heads as int, d.n_slab as int);
        assert(0 <= t * m <= n * m) by (nonlinear_arith)
            requires
                0 <= t <= n,
                m >= 0,
        ;
        assert(0 <= t * m * q <= n * m * q) by (nonlinear_arith)
            requires
                0 <= t * m <= n * m,
                q >= 0,
        ;
    }
    let off: usize = t * d.mp * cfg.num_attention_heads * cfg.head_dim * 2;
    let vslot: usize = d.n_slab + t;
    let mut r = gemm(true, Kernel::GemmCausal, Buf::PQOut, Buf::PKRep, Buf::PScores, 0, t, sdims, 8, my, nqh);
    let mut u = gemm(
        str_eq(dup, "p_scores"),
        Kernel::GemmCausal,
        Buf::PQOut,
        Buf::PKRep,
        Buf::PScores,
        0,
        t,
        sdims,
        8,
        my,
        nqh,
    );
    r.append(&mut u);
    let mut u = run_at(Kernel::SlabStats, Group::PSlabStats, ((MAX_SLAB + t) * 256) as u32, gx, gy);
    r.append(&mut u);
    let mut u = run_at(Kernel::Softmax(SLAB_BS as u32), Group::PSoftmax, (t * 256) as u32, gx, gy);
    r.append(&mut u);
    let mut u = again(str_eq(dup, "p_softmax"), gx, gy, 1);
    r.append(&mut u);
    let mut u = gemm(true, Kernel::GemmAvCausal, Buf::PAttn, Buf::PVRep, Buf::PSlabPart, off, vslot, vdims, 1, my, nqh);
    r.append(&mut u);
    let mut u = gemm(
        str_eq(dup, "p_av"),
        Kernel::GemmAvCausal,
        Buf::PAttn,
        Buf::PVRep,
        Buf::PSlabPart,
        off,
        vslot,
        vdims,
        1,
        my,
        nqh,
    );
    r.append(&mut u);
    r
}

fn flat(cfg: &TextConfig, d: &PrefillDims, dup: &str, forced: u32, slot: usize) -> (r: Vec<Op>)
    requires
        prefill_fits(*cfg, *d),
        d.n_slab == 0,
        width_known(forced),
        slot + flat_slots(dup@) <= MAX_GEMMS,
    ensures
        r@ == flat_ops(*cfg, *d, dup@, forced, slot as int),
{
    let nqh: u32 = cfg.num_attention_heads as u32;
    let hd: usize = cfg.head_dim;
    let my: u32 = (d.mp / 128) as u32;
    let nx: u32 = (d.np / 128) as u32;
    let (gx, gy) = row_dispatch(cfg, d);
    let sdims = dense(d.s, d.cur, hd, d.np, d.mp * hd / 2, d.np * hd / 2, d.mp * d.np);
    let vdims = dense(d.s, hd, d.cur16, cfg.num_attention_heads * hd, d.mp * d.cur16 / 2, d.np * hd / 2, hd);
    let dup_scores: bool = str_eq(dup, "p_scores");
    let dup_av: bool = str_eq(dup, "p_av");
    let vslot: usize = if dup_scores {
        slot + 2
    } else {
        slot + 1
    };
    let (phys, tree) = softmax_blocks(d.cur, forced);
    let kernel = if phys == tree {
        Kernel::Softmax(tree)
    } else {
        Kernel::SoftmaxWide(phys, tree)
    };
    let mut r = gemm(true, Kernel::GemmCausal, Buf::PQOut, Buf::PKRep, Buf::PScores, 0, slot, sdims, nx, my, nqh);
    let mut u = if dup_scores {
        gemm(true, Kernel::Gemm, Buf::PQOut, Buf::PKRep, Buf::PScores, 0, slot + 1, sdims, nx, my, nqh)
    } else {
        Vec::new()
    };
    r.append(&mut u);
    let mut u = run_at(kernel, Group::PSoftmax, 0, gx, gy);
    r.append(&mut u);
    let mut u = again(str_eq(dup, "p_softmax"), gx, gy, 1);
    r.append(&mut u);
    let mut u = gemm(true, Kernel::GemmAvCausal, Buf::PAttn, Buf::PVRep, Buf::PAttnFlat, 0, vslot, vdims, 1, my, nqh);
    r.append(&mut u);
    let mut u = if dup_av {
        gemm(true, Kernel::GemmAv, Buf::PAttn, Buf::PVRep, Buf::PAttnFlat, 0, vslot + 1, vdims, 1, my, nqh)
    } else {
        Vec::new()
    };
    r.append(&mut u);
    r
}

fn attention(cfg: &TextConfig, d: &PrefillDims, sw: &Switches, slot: usize) -> (r: Vec<Op>)
    requires
        prefill_fits(*cfg, *d),
        dims_related(*d),
        d.n_slab <= MAX_SLAB,
        !d.slabbed() ==> width_known(sw.sm_bs),
        slot + attention_slots(*d, sw.dup@) <= MAX_GEMMS,
    ensures
        r@ == attention_ops(*cfg, *d, *sw, slot as int),
{
    if d.n_slab == 0 {
        return flat(cfg, d, sw.dup.as_str(), sw.sm_bs, slot);
    }
    let dup = sw.dup.as_str();
    let mut r: Vec<Op> = Vec::new();
    for t in 0..d.n_slab
        invariant
            prefill_fits(*cfg, *d),
            dims_related(*d),
            d.n_slab <= MAX_SLAB,
            dup@ == sw.dup@,
            r@ == slabs_ops(*cfg, *d, sw.dup@, t as nat),
    {
        let mut u = one_slab(cfg, d, dup, t);
        r.append(&mut u);
    }
    let (wx, wy) = weight_dispatch(cfg, d);
    let mut u = run(Kernel::SlabWeights, Group::PSlabWeights, wx, wy, 1);
    r.append(&mut u);
    let mx: u32 = merge_dispatch(cfg, d);
    let mut u = run(Kernel::SlabMerge, Group::PSlabMerge, mx, cfg.num_attention_heads as u32, 1);
    r.append(&mut u);
    r
}

fn ring_slots(d: &PrefillDims, dup: &str) -> (r: usize)
    ensures
        r == attention_slots(*d, dup@),
{
    if d.n_slab > 0 {
        0
    } else {
        let a: usize = if str_eq(dup, "p_scores") {
            1
        } else {
            0
        };
        let b: usize = if str_eq(dup, "p_av") {
            1
        } else {
            0
        };
        2 + a + b
    }
}

/// Whether the GEMM uniform slots last for every layer.
fn slots_last(cfg: &TextConfig, d: &PrefillDims, dup: &str) -> (r: bool)
    ensures
        r == slots_fit(*cfg, *d, dup@),
{
    let n: usize = 4 + ring_slots(d, dup);
    let layers: usize = cfg.num_hidden_layers;
    if d.s >= 512 {
        true
    } else if layers > 224 {
        proof {
            assert(layers * n >= layers) by (nonlinear_arith)
                requires
                    n >= 4,
            ;
        }
        false
    } else {
        proof {
            assert(layers * n <= 224 * n) by (nonlinear_arith)
                requires
                    layers <= 224,
            ;
        }
        32 + layers * n <= 256
    }
}

/// Whether a width may be forced on the flat softmax.
fn knows_width(forced: u32) -> (r: bool)
    ensures
        r == width_known(forced),
{
    forced == 0 || forced == 64 || forced == 128 || forced == 256
}

fn prefill_layer(cfg: &TextConfig, d: &PrefillDims, sw: &Switches, l: usize, slot: usize) -> (r: Vec<Op>)
    requires
        prefill_fits(*cfg, *d),
        dims_related(*d),
        d.n_slab <= MAX_SLAB,
        !d.slabbed() ==> width_known(sw.sm_bs),
        slot + layer_slots(*d, sw.dup@) <= MAX_GEMMS,
    ensures
        r@ == prefill_layer_ops(*cfg, *d, *sw, l, slot as int),
{
    let dup = sw.dup.as_str();
    let s: u32 = d.s as u32;
    let hs: usize = cfg.hidden_size;
    let inter: usize = cfg.intermediate_size;
    let qkv: usize = cfg.fused_qkv_cols();
    let heads: u32 = (cfg.num_attention_heads + cfg.num_key_value_heads) as u32;
    let my: u32 = (d.mp / 128) as u32;
    let hx: u32 = (hs / 128) as u32;
    let (rx, ry) = repeat_dispatch(cfg, d);
    let (ax, ay) = grid_xy(div_up(d.s * inter / 2, 256));
    let after: usize = slot + 1 + ring_slots(d, dup);
    let again_repeat: bool = str_eq(dup, "p_repeat");

    let mut r = run(Kernel::RmsNorm, Group::PRms1(l), s, 1, 1);
    let g = dense(d.s, qkv, hs, qkv, 0, 0, 0);
    let mut u = gemm(
        true,
        Kernel::Gemm,
        Buf::PNormed,
        Buf::QkvW(l),
        Buf::PQkv,
        0,
        slot,
        g,
        (qkv / 128) as u32,
        my,
        1,
    );
    r.append(&mut u);
    let mut u = run(Kernel::Extract, Group::PExtract(l), s, heads, 1);
    r.append(&mut u);
    let mut u = again(str_eq(dup, "p_extract"), s, heads, 1);
    r.append(&mut u);
    let mut u = run(Kernel::RepeatKv, Group::PRepeatK(l), rx, ry, 1);
    r.append(&mut u);
    let mut u = again(again_repeat, rx, ry, 1);
    r.append(&mut u);
    let mut u = run(Kernel::RepeatKv, Group::PRepeatV(l), rx, ry, 1);
    r.append(&mut u);
    let mut u = again(again_repeat, rx, ry, 1);
    r.append(&mut u);
    let mut u = attention(cfg, d, sw, slot + 1);
    r.append(&mut u);
    let g = dense(d.s, hs, cfg.num_attention_heads * cfg.head_dim, hs, 0, 0, 0);
    let mut u = gemm(true, Kernel::GemmAcc, Buf::PAttnFlat, Buf::OW(l), Buf::PH, 0, after, g, hx, my, 1);
    r.append(&mut u);
    let mut u = run(Kernel::RmsNorm, Group::PRms2(l), s, 1, 1);
    r.append(&mut u);
    let mut u = again(str_eq(dup, "p_rms"), s, 1, 1);
    r.append(&mut u);
    let g = dense(d.s, 2 * inter, hs, 2 * inter, 0, 0, 0);
    let mut u = gemm(
        true,
        Kernel::Gemm,
        Buf::PNorm2,
        Buf::GuW(l),
        Buf::PGu,
        0,
        after + 1,
        g,
        (2 * inter / 128) as u32,
        my,
        1,
    );
    r.append(&mut u);
    let mut u = run(Kernel::Silu, Group::PSilu, ax, ay, 1);
    r.append(&mut u);
    let mut u = again(str_eq(dup, "p_silu"), ax, ay, 1);
    r.append(&mut u);
    let g = dense(d.s, hs, inter, hs, 0, 0, 0);
    let mut u = gemm(true, Kernel::GemmAcc, Buf::PActivated, Buf::DpW(l), Buf::PH, 0, after + 2, g, hx, my, 1);
    r.append(&mut u);
    r
}

pub proof fn lemma_next_slot(d: PrefillDims, dup: Seq<char>, l: int)
    requires
        l >= 0,
    ensures
        layer_slot(d, dup, 0) == 32,
        layer_slot(d, dup, l + 1) == if submits_after(d.s as int, l) {
            32
        } else {
            layer_slot(d, dup, l) + layer_slots(d, dup)
        },
{
    let per = layer_slots(d, dup);
    assert(0 * per == 0) by (nonlinear_arith);
    if d.s >= 512 {
        let e = submit_every(d.s as int);
        let r = l % e;
        if submits_after(d.s as int, l) {
            assert((l + 1) % e == 0);
        } else {
            assert((l + 1) % e == r + 1);
            assert((r + 1) * per == r * per + per) by (nonlinear_arith);
        }
    } else {
        assert((l + 1) * per == l * per + per) by (nonlinear_arith);
    }
}

fn prefill_layers(cfg: &TextConfig, d: &PrefillDims, sw: &Switches) -> (r: Vec<Op>)
    requires
        prefill_fits(*cfg, *d),
        dims_related(*d),
        d.n_slab <= MAX_SLAB,
        !d.slabbed() ==> width_known(sw.sm_bs),
        slots_fit(*cfg, *d, sw.dup@),
    ensures
        r@ == prefill_layers_ops(*cfg, *d, *sw, cfg.num_hidden_layers as nat),
{
    let per: usize = 4 + ring_slots(d, sw.dup.as_str());
    let every: usize = if d.s >= 4096 {
        2
    } else {
        4
    };
    let mut slot: usize = 2 * MAX_SLAB;
    let mut r: Vec<Op> = Vec::new();
    proof {
        lemma_next_slot(*d, sw.dup@, 0);
    }
    for l in 0..cfg.num_hidden_layers
        invariant
            prefill_fits(*cfg, *d),
            dims_related(*d),
            d.n_slab <= MAX_SLAB,
            !d.slabbed() ==> width_known(sw.sm_bs),
            slots_fit(*cfg, *d, sw.dup@),
            per == layer_slots(*d, sw.dup@),
            every == submit_every(d.s as int),
            slot == layer_slot(*d, sw.dup@, l as int),
            r@ == prefill_layers_ops(*cfg, *d, *sw, l as nat),
    {
        proof {
            law_slots_in_ring(*cfg, *d, sw.dup@, l as int);
            lemma_next_slot(*d, sw.dup@, l as int);
        }
        let mut u = prefill_layer(cfg, d, sw, l, slot);
        r.append(&mut u);
        slot = slot + per;
        let mut u = if d.s >= 512 && (l + 1) % every == 0 {
            slot = 2 * MAX_SLAB;
            vec![Op::SubmitWait { layer: l }]
        } else {
            Vec::new()
        };
        r.append(&mut u);
    }
    r
}

impl WgpuTextDecoder {
    /// Whether the kernels and the uniform slots that were built serve a prefill
    /// under these switches.
    pub fn serves_prefill(&self, sw: &Switches, s: usize, kv_start: usize) -> (r: bool)
        requires
            s >= 1,
            align_up(kv_start + s, 1024) <= usize::MAX,
        ensures
            r == (slots_fit(self.cfg, dims_for(s, kv_start, takes_slabs(sw.slab, s as int)), sw.dup@) && (takes_slabs(
                sw.slab,
                s as int,
            ) || width_known(sw.sm_bs))),
    {
        let slabs = slab_path(sw.slab, s);
        let d = prefill_dims(s, kv_start, slabs);
        slots_last(&self.cfg, &d, &sw.dup) && (slabs || knows_width(sw.sm_bs))
    }

    /// Plans a prefill of `s` positions behind `kv_start`: checks it against the
    /// binding limit of the device, sizes its buffers and lists its commands.
    pub fn prefill(
        &self,
        sw: &Switches,
        scale_bits: u32,
        hidden_len: usize,
        s: usize,
        kv_start: usize,
        bind_limit: u64,
    ) -> (r: Result<PrefillPlan, PrefillError>)
        requires
            s >= 1,
            align_up(kv_start + s, 1024) <= usize::MAX,
            prefill_fits(self.cfg, dims_for(s, kv_start, takes_slabs(sw.slab, s as int))),
            slots_fit(self.cfg, dims_for(s, kv_start, takes_slabs(sw.slab, s as int)), sw.dup@),
            !takes_slabs(sw.slab, s as int) ==> width_known(sw.sm_bs),
        ensures
            ({
                let d = dims_for(s, kv_start, takes_slabs(sw.slab, s as int));
                match prefill_error(self.cfg, d, hidden_len as int, bind_limit) {
                    Some(e) => r is Err && r->Err_0 == e,
                    None => {
                        &&& r is Ok
                        &&& r->Ok_0.dims == d
                        &&& r->Ok_0.allocs@ == prefill_allocs(self.cfg, d)
                        &&& r->Ok_0.ops@ == prefill_ops(*self, d, *sw, scale_bits)
                    },
                }
            }),
    {
        let cfg = &self.cfg;
        let d = prefill_dims(s, kv_start, slab_path(sw.slab, s));
        let nqh: usize = cfg.num_attention_heads;
        if hidden_len < s * cfg.hidden_size * 2 {
            return Err(PrefillError::HiddenSize);
        }
        if d.n_slab > 0 {
            if d.n_slab > MAX_SLAB {
                return Err(PrefillError::TooManySlabs { n_slab: d.n_slab });
            }
            let part: u64 = (d.n_slab * d.mp * nqh * cfg.head_dim * 2) as u64;
            if part > bind_limit {
                return Err(PrefillError::SlabScratch { bytes: part, limit: bind_limit });
            }
        } else {
            let scratch: u64 = (nqh * d.mp * d.cur16 * 2) as u64;
            if scratch > bind_limit {
                return Err(PrefillError::AttnScratch { bytes: scratch, limit: bind_limit });
            }
        }
        let allocs = allocs(cfg, &d);
        let mut ops = setup(self, &d, scale_bits);
        let mut t = prefill_layers(cfg, &d, sw);
        ops.append(&mut t);
        proof {
            assert((s - 1) * cfg.hidden_size <= s * cfg.hidden_size) by (nonlinear_arith);
            assert(cfg.hidden_size <= s * cfg.hidden_size) by (nonlinear_arith)
                requires
                    s >= 1,
            ;
            assert(0 <= (s - 1) * cfg.hidden_size) by (nonlinear_arith)
                requires
                    s >= 1,
            ;
        }
        let offset: u64 = ((s - 1) * cfg.hidden_size * 2) as u64;
        let size: u64 = (cfg.hidden_size * 2) as u64;
        let mut last = run(Kernel::RmsNorm, Group::PFinalRms { offset, size }, 1, 1, 1);
        let mut t = run(Kernel::GemvLm, Group::GemvLm, (cfg.vocab_size / 8) as u32, 1, 1);
        last.append(&mut t);
        let mut t = run(Kernel::Argmax, Group::Argmax, 1, 1, 1);
        last.append(&mut t);
        let mut t = vec![Op::CopyToken, Op::Submit];
        last.append(&mut t);
        ops.append(&mut last);
        Ok(PrefillPlan { dims: d, allocs, ops })
    }

    /// Takes the outcome of reading the first token back: on success the next
    /// step continues behind the prefilled positions.
    pub fn prefilled<E>(&mut self, dims: &PrefillDims, token: Result<i32, E>) -> (r: Result<i32, E>)
        ensures
            r == token,
            *final(self) == (WgpuTextDecoder {
                pos: if token is Ok {
                    dims.cur
                } else {
                    old(self).pos
                },
                ..*old(self)
            }),
    {
        match token {
            Ok(t) => {
                self.pos = dims.cur;
                Ok(t)
            },
            Err(e) => Err(e),
        }
    }
}

} // verus!
