//! The commands of one pass of the audio tower.
use vstd::prelude::*;

use crate::encoder::{EncoderError, GpuAudioEncoder, MAX_GEMMS, MAX_TOKENS};
use crate::encoder_ops::{EncBuf, EncGroup, EncOp, EncUniform, Pipe, Shot, Stage};
use crate::encoder_plan::{
    attention_ops, bias_gelu_tensor, conv_out_ops, dispatch_gemm, encode_ops, finish_ops, gemm, gemm_beta, im2col_ops,
    layer_end, layer_ops, layers_ops, level_ops, level_reads, mid_ops, norm_ops, permute_ops, project_ops, read_elems,
    round_end, round_ops, rounds_ops, scale_of, scale_writes, split_ops, Clip, EncAlloc, EncodePlan, GemmShape,
    LAYER_GEMMS, LN_EPS_BITS,
};
use crate::encoder_plan::lemma_frames;
use crate::encoder_reads::{law_only_embeds_read, reads_back};
use crate::geometry::{align, align_up, ceil_div, div_up, lemma_align_bounds, CONV_TILE, GEMM_BM, GEMM_BN, TAPS};

verus! {

/// The geometry is that of a clip whose sizes fit.
pub open spec fn clip_ok(e: GpuAudioEncoder, c: Clip) -> bool {
    &&& 1 <= c.s <= MAX_TOKENS
    &&& c.s_pad == align_up(c.s as int, 128)
    &&& c.cf == e.conv_out.k
    &&& c.wlen == e.wlen()
    &&& c.wpad == align_up(e.wlen(), 128)
    &&& c.hd_pad == align_up(e.hd as int, 128)
    &&& c.qkv_cols == align_up(3 * e.d_model, 128)
    &&& c.inter_pad == align_up(e.inter as int, 128)
    &&& c.gu_pad == align_up(2 * e.inter, 128)
    &&& c.n_win == ceil_div(c.s as int, e.wlen())
    &&& c.blocks == e.nh * c.n_win
    &&& c.n_chunks * e.tpc <= usize::MAX
    &&& e.rows_fit(c.s as int)
}

fn layernorm(ops: &mut Vec<EncOp>, e: &GpuAudioEncoder, src: EncBuf, w: EncBuf, b: EncBuf, dst: EncBuf, rows: usize)
    requires
        rows <= MAX_TOKENS,
    ensures
        final(ops)@ == old(ops)@ + norm_ops(*e, src, w, b, dst, rows),
{
    proof {
        lemma_align_bounds(rows as int, 128);
    }
    ops.push(
        EncOp::Write {
            buf: EncBuf::ULn,
            offset: 0,
            data: EncUniform::Norm { d: e.d_model as u32, eps_bits: LN_EPS_BITS },
        },
    );
    ops.push(
        EncOp::Run {
            pipe: Pipe::LayerNorm,
            group: EncGroup::Norm { src, w, b, dst },
            x: align(rows, GEMM_BM) as u32,
            y: 1,
            z: 1,
        },
    );
}

fn im2col(ops: &mut Vec<EncOp>, e: &GpuAudioEncoder, level: usize, input: EncBuf, cin0: usize, n: usize)
    requires
        level < e.conv@.len(),
    ensures
        final(ops)@ == old(ops)@ + im2col_ops(*e, level, input, cin0 as int, n as int),
{
    let l = &e.conv[level];
    ops.push(
        EncOp::Write {
            buf: EncBuf::UIm(level),
            offset: 0,
            data: EncUniform::Im2col {
                taps: TAPS as u32,
                k: l.k as u32,
                k_pad: l.k_pad as u32,
                plane: l.plane as u32,
                plane_pad: l.plane_pad as u32,
                n_chunks: n as u32,
                n_all: l.n_all as u32,
                in_chunk: l.in_chunk as u32,
                in_ic: l.in_ic as u32,
                chunk0: cin0 as u32,
                bpc: (l.plane_pad / 32) as u32,
            },
        },
    );
    ops.push(
        EncOp::Run {
            pipe: Pipe::Im2col,
            group: EncGroup::Im2col { level, input },
            x: (l.n_all / 32) as u32,
            y: (l.k_pad / 16) as u32,
            z: 1,
        },
    );
}

fn conv_level(ops: &mut Vec<EncOp>, e: &GpuAudioEncoder, level: usize, ch0: usize, n: usize)
    requires
        e.wf(),
        level < 3,
    ensures
        final(ops)@ == old(ops)@ + level_ops(*e, level, ch0 as int, n as int),
{
    let ghost start = ops@;
    let l = &e.conv[level];
    let (input, cin0): (EncBuf, usize) = if level == 0 {
        (EncBuf::Mel, ch0)
    } else {
        (EncBuf::Act(level - 1), 0)
    };
    im2col(ops, e, level, input, cin0, n);
    proof {
        assert(e.conv@[level as int].n_all % 128 == 0);
        lemma_product_fits(l.m_pad as int, l.n_all as int);
        lemma_align_bounds(l.m_pad as int, 128);
    }
    let g = GemmShape { m: l.m_pad, n: l.n_all, k: l.k_pad, ldc: l.n_all, bsa: 0, bsb: 0, bsc: 0, batch: 1 };
    dispatch_gemm(
        ops,
        Pipe::GemmT,
        EncBuf::ConvW(level),
        EncBuf::Col(level),
        EncBuf::Raw(level),
        None,
        level,
        g,
        (l.n_all / GEMM_BN) as u32,
        (l.m_pad / GEMM_BM) as u32,
    );
    bias_gelu_tensor(
        ops,
        EncBuf::Raw(level),
        EncBuf::ConvB(level),
        EncBuf::Act(level),
        level,
        l.m_pad * l.n_all,
        l.n_all / 2,
        true,
    );
    assert(ops@ =~= start + level_ops(*e, level, ch0 as int, n as int));
}

/// A product of a multiple of 128 is even.
proof fn lemma_product_fits(m: int, n: int)
    requires
        m >= 0,
        n >= 0,
        n % 128 == 0,
    ensures
        0 <= m * n,
        (m * n) % 2 == 0,
{
    let q = n / 128;
    assert(m * n == 2 * (m * q * 64)) by (nonlinear_arith)
        requires
            n == q * 128,
    ;
    assert(0 <= m * n) by (nonlinear_arith)
        requires
            m >= 0,
            n >= 0,
    ;
}

fn permute(ops: &mut Vec<EncOp>, e: &GpuAudioEncoder, c: &Clip, ch0: usize)
    requires
        e.wf(),
        clip_ok(*e, *c),
        ch0 <= c.n_chunks,
    ensures
        final(ops)@ == old(ops)@ + permute_ops(*e, *c, ch0 as int),
{
    let l = &e.conv[2];
    proof {
        lemma_align_bounds(c.s as int, 128);
        crate::geometry::law_token_len(e.cs as int);
        assert(ch0 * e.tpc <= c.n_chunks * e.tpc) by (nonlinear_arith)
            requires
                ch0 <= c.n_chunks,
        ;
    }
    ops.push(
        EncOp::Write {
            buf: EncBuf::UPm,
            offset: 0,
            data: EncUniform::Permute {
                c: l.c_out as u32,
                f: (l.plane / e.tpc) as u32,
                t3: e.tpc as u32,
                s_pad: c.cf as u32,
                n_all: l.n_all as u32,
                plane_pad: l.plane_pad as u32,
                tok0: (ch0 * e.tpc) as u32,
                n_tokens: c.s as u32,
            },
        },
    );
    ops.push(
        EncOp::Run {
            pipe: Pipe::Permute,
            group: EncGroup::Permute,
            x: align(c.s, GEMM_BM) as u32,
            y: (c.cf / 2 / 256) as u32,
            z: 1,
        },
    );
}

fn read_level(ops: &mut Vec<EncOp>, e: &GpuAudioEncoder, level: usize)
    requires
        e.wf(),
        level < 3,
    ensures
        final(ops)@ == old(ops)@ + level_reads(*e, level),
{
    let l = &e.conv[level];
    proof {
        assert(e.conv@[level as int].n_all % 128 == 0);
        lemma_product_fits(l.m_pad as int, l.n_all as int);
        lemma_product_fits(l.k_pad as int, l.n_all as int);
    }
    let col: u64 = (l.k_pad * l.n_all * 2) as u64;
    let out: u64 = (l.m_pad * l.n_all * 2) as u64;
    ops.push(EncOp::Read { buf: EncBuf::Col(level), bytes: col, shot: Shot::Col(level) });
    ops.push(EncOp::Read { buf: EncBuf::Raw(level), bytes: out, shot: Shot::Raw(level) });
    ops.push(EncOp::Read { buf: EncBuf::Act(level), bytes: out, shot: Shot::Act(level) });
}

fn capture_round(ops: &mut Vec<EncOp>, e: &GpuAudioEncoder, ch0: usize)
    requires
        e.wf(),
    ensures
        final(ops)@ == old(ops)@ + round_end(*e, ch0 as int, true),
{
    let ghost start = ops@;
    ops.push(EncOp::Submit(Stage::Capture));
    read_level(ops, e, 0);
    read_level(ops, e, 1);
    read_level(ops, e, 2);
    if ch0 == 0 {
        ops.push(EncOp::Read { buf: EncBuf::Mel, bytes: 128, shot: Shot::MelHead });
        ops.push(EncOp::Read { buf: EncBuf::Taps(0), bytes: 288, shot: Shot::Taps(0) });
        ops.push(EncOp::Read { buf: EncBuf::Taps(1), bytes: 288, shot: Shot::Taps(1) });
        ops.push(EncOp::Read { buf: EncBuf::Taps(2), bytes: 288, shot: Shot::Taps(2) });
    }
    assert(ops@ =~= start + round_end(*e, ch0 as int, true));
}

fn conv_round(ops: &mut Vec<EncOp>, e: &GpuAudioEncoder, c: &Clip, ch0: usize, n: usize, capture: bool)
    requires
        e.wf(),
        clip_ok(*e, *c),
        ch0 <= c.n_chunks,
    ensures
        final(ops)@ == old(ops)@ + round_ops(*e, *c, ch0 as int, n as int, capture),
{
    let ghost start = ops@;
    conv_level(ops, e, 0, ch0, n);
    conv_level(ops, e, 1, ch0, n);
    conv_level(ops, e, 2, ch0, n);
    permute(ops, e, c, ch0);
    if capture {
        capture_round(ops, e, ch0);
    } else {
        ops.push(EncOp::Submit(Stage::Round(ch0)));
        assert(ops@ =~= start + level_ops(*e, 0, ch0 as int, n as int) + level_ops(*e, 1, ch0 as int, n as int)
            + level_ops(*e, 2, ch0 as int, n as int) + permute_ops(*e, *c, ch0 as int) + round_end(
            *e,
            ch0 as int,
            false,
        ));
    }
    assert(ops@ =~= start + round_ops(*e, *c, ch0 as int, n as int, capture));
}

fn conv_rounds(ops: &mut Vec<EncOp>, e: &GpuAudioEncoder, c: &Clip, capture: bool)
    requires
        e.wf(),
        clip_ok(*e, *c),
    ensures
        final(ops)@ == old(ops)@ + rounds_ops(*e, *c, ceil_div(c.n_chunks as int, 8) as nat, capture),
{
    let ghost start = ops@;
    let rounds: usize = div_up(c.n_chunks, CONV_TILE);
    proof {
        lemma_align_bounds(c.n_chunks as int, 8);
    }
    for i in 0..rounds
        invariant
            e.wf(),
            clip_ok(*e, *c),
            rounds == ceil_div(c.n_chunks as int, 8),
            ops@ == start + rounds_ops(*e, *c, i as nat, capture),
    {
        let ghost before = ops@;
        assert(i * 8 < c.n_chunks);
        let ch0: usize = i * CONV_TILE;
        let left: usize = c.n_chunks - ch0;
        let n: usize = if left < CONV_TILE {
            left
        } else {
            CONV_TILE
        };
        conv_round(ops, e, c, ch0, n, capture);
        assert(ops@ =~= start + rounds_ops(*e, *c, (i + 1) as nat, capture));
    }
}

fn conv_out(ops: &mut Vec<EncOp>, e: &GpuAudioEncoder, c: &Clip, capture: bool)
    requires
        e.wf(),
        clip_ok(*e, *c),
    ensures
        final(ops)@ == old(ops)@ + conv_out_ops(*e, *c, capture),
{
    let ghost start = ops@;
    gemm(
        ops,
        EncBuf::Packed,
        EncBuf::ConvOutW,
        EncBuf::HRaw,
        None,
        0,
        c.s,
        e.conv_out.n_pad,
        c.cf,
        e.conv_out.n_pad,
    );
    proof {
        lemma_align_bounds(c.s as int, 128);
        lemma_align_bounds(c.s_pad as int, 128);
        lemma_nonneg(c.s_pad as int, e.d_model as int);
    }
    ops.push(
        EncOp::Write {
            buf: EncBuf::UPe,
            offset: 0,
            data: EncUniform::Position { d: e.d_model as u32, tpc: e.tpc as u32, s_pad: e.d_model as u32 },
        },
    );
    ops.push(
        EncOp::Run {
            pipe: Pipe::AddPe,
            group: EncGroup::AddPe,
            x: align(c.s_pad, GEMM_BM) as u32,
            y: div_up(e.d_model / 2, 256) as u32,
            z: 1,
        },
    );
    ops.push(EncOp::Submit(Stage::ConvOut));
    if capture {
        ops.push(EncOp::Read { buf: EncBuf::H, bytes: (c.s_pad * e.d_model * 2) as u64, shot: Shot::Hidden });
    }
    assert(ops@ =~= start + conv_out_ops(*e, *c, capture));
}

proof fn lemma_nonneg(a: int, b: int)
    requires
        a >= 0,
        b >= 0,
    ensures
        a * b >= 0,
{
    assert(a * b >= 0) by (nonlinear_arith)
        requires
            a >= 0,
            b >= 0,
    ;
}

fn split(ops: &mut Vec<EncOp>, e: &GpuAudioEncoder, c: &Clip)
    requires
        e.wf(),
        clip_ok(*e, *c),
    ensures
        final(ops)@ == old(ops)@ + split_ops(*e, *c),
{
    proof {
        lemma_align_bounds(3 * e.d_model, 128);
    }
    ops.push(
        EncOp::Write {
            buf: EncBuf::UEx,
            offset: 0,
            data: EncUniform::Extract {
                n_tokens: c.s as u32,
                nh: e.nh as u32,
                hd: e.hd as u32,
                tpc: e.tpc as u32,
                row_stride: (3 * e.d_model) as u32,
                attn_cols: e.attn_cols as u32,
                pe_stride: 0,
                dm: e.d_model as u32,
            },
        },
    );
    ops.push(
        EncOp::Run {
            pipe: Pipe::Extract,
            group: EncGroup::Extract,
            x: c.s_pad as u32,
            y: e.nh as u32,
            z: (e.hd / 2) as u32,
        },
    );
    ops.push(
        EncOp::Write {
            buf: EncBuf::UWp,
            offset: 0,
            data: EncUniform::Window {
                wlen: c.wlen as u32,
                wpad: c.wpad as u32,
                hd: e.hd as u32,
                n_win: c.n_win as u32,
                s: c.s as u32,
                acols: e.attn_cols as u32,
                pad_n: c.hd_pad as u32,
            },
        },
    );
    ops.push(
        EncOp::Run {
            pipe: Pipe::WinPack,
            group: EncGroup::WinPack,
            x: (c.wpad / 32) as u32,
            y: (c.hd_pad / 2 / 16) as u32,
            z: c.blocks as u32,
        },
    );
}

fn attention(ops: &mut Vec<EncOp>, e: &GpuAudioEncoder, c: &Clip, slot: usize)
    requires
        e.wf(),
        clip_ok(*e, *c),
        slot + 1 < 256,
    ensures
        final(ops)@ == old(ops)@ + attention_ops(*e, *c, slot as int),
{
    let ghost start = ops@;
    proof {
        lemma_align_bounds(e.wlen(), 128);
        lemma_align_bounds(c.wpad as int, 128);
        lemma_nonneg(c.wpad as int, e.hd as int);
        lemma_nonneg(e.hd as int, c.wpad as int);
        lemma_nonneg(c.wpad as int, c.hd_pad as int);
        lemma_nonneg(c.s_pad as int, e.attn_cols as int);
        assert(c.wpad * c.wpad <= 2176 * 2176) by (nonlinear_arith)
            requires
                0 <= c.wpad <= 2176,
        ;
        lemma_nonneg(c.wpad as int, c.wpad as int);
    }
    let sg = GemmShape {
        m: c.wpad,
        n: c.wpad,
        k: e.hd,
        ldc: c.wpad,
        bsa: c.wpad * e.hd / 2,
        bsb: e.hd * c.wpad / 2,
        bsc: c.wpad * c.wpad,
        batch: c.blocks,
    };
    dispatch_gemm(ops, Pipe::GemmT, EncBuf::Qp, EncBuf::Kt, EncBuf::Scores, None, slot, sg, 1, 1);
    ops.push(
        EncOp::Write {
            buf: EncBuf::USm,
            offset: 0,
            data: EncUniform::Softmax {
                s: c.s as u32,
                wlen: c.wlen as u32,
                wpad: c.wpad as u32,
                n_win: c.n_win as u32,
                scale_bits: c.scale_bits,
            },
        },
    );
    ops.push(
        EncOp::Run {
            pipe: Pipe::Softmax,
            group: EncGroup::Softmax,
            x: (c.wpad / 128) as u32,
            y: c.blocks as u32,
            z: 1,
        },
    );
    let vg = GemmShape {
        m: c.wpad,
        n: c.hd_pad,
        k: c.wpad,
        ldc: c.hd_pad,
        bsa: c.wpad * c.wpad / 2,
        bsb: c.wpad * c.hd_pad / 2,
        bsc: c.wpad * c.hd_pad,
        batch: c.blocks,
    };
    dispatch_gemm(ops, Pipe::GemmT, EncBuf::Attn, EncBuf::Vp, EncBuf::AttnOut, None, slot + 1, vg, 1, 1);
    ops.push(
        EncOp::Write {
            buf: EncBuf::UCp,
            offset: 0,
            data: EncUniform::Compress {
                cols: (e.nh * e.hd) as u32,
                wlen: c.wlen as u32,
                wpad: c.wpad as u32,
                hd: e.hd as u32,
                n_win: c.n_win as u32,
                rows: c.s as u32,
            },
        },
    );
    ops.push(
        EncOp::Run {
            pipe: Pipe::AttnFlat,
            group: EncGroup::AttnFlat,
            x: div_up(c.s_pad * e.attn_cols / 2, 256) as u32,
            y: 1,
            z: 1,
        },
    );
    assert(ops@ =~= start + attention_ops(*e, *c, slot as int));
}

/// `s_pad` is a multiple of 128, so a product with it is even.
proof fn lemma_rows_even(s_pad: int, n: int)
    requires
        s_pad >= 0,
        n >= 0,
        s_pad % 128 == 0,
    ensures
        0 <= s_pad * n,
        (s_pad * n) % 2 == 0,
{
    lemma_product_fits(n, s_pad);
    assert(n * s_pad == s_pad * n) by (nonlinear_arith);
}

fn layer(ops: &mut Vec<EncOp>, e: &GpuAudioEncoder, c: &Clip, li: usize, capture: bool)
    requires
        e.wf(),
        clip_ok(*e, *c),
        li < e.layers@.len(),
        li * 6 + 5 < 256,
    ensures
        final(ops)@ == old(ops)@ + layer_ops(*e, *c, li, capture),
{
    let l = e.layers[li];
    let slot: usize = li * LAYER_GEMMS;
    let mut p: Vec<EncOp> = Vec::new();
    proof {
        lemma_align_bounds(c.s as int, 128);
        lemma_rows_even(c.s_pad as int, l.fc1.n_pad as int);
        lemma_nonneg(c.s_pad as int, e.d_model as int);
    }
    layernorm(&mut p, e, EncBuf::H, EncBuf::SlnW(li), EncBuf::SlnB(li), EncBuf::Normed, c.s);
    assert(p@ =~= norm_ops(*e, EncBuf::H, EncBuf::SlnW(li), EncBuf::SlnB(li), EncBuf::Normed, c.s));
    gemm(
        &mut p,
        EncBuf::Normed,
        EncBuf::QkvW(li),
        EncBuf::Qkv,
        Some(EncBuf::QkvB(li)),
        slot,
        c.s,
        l.qkv.n_pad,
        l.qkv.k,
        l.qkv.n_pad,
    );
    split(&mut p, e, c);
    attention(&mut p, e, c, slot + 1);
    gemm_beta(
        &mut p,
        EncBuf::AttnFlat,
        EncBuf::OW(li),
        EncBuf::H,
        Some(EncBuf::OB(li)),
        slot + 3,
        c.s,
        l.o.n_pad,
        l.o.k,
        e.d_model,
    );
    let ghost half = p@;
    if capture && li == 0 {
        p.push(EncOp::Submit(Stage::Mid));
        p.push(EncOp::Read { buf: EncBuf::H, bytes: (c.s_pad * e.d_model * 2) as u64, shot: Shot::Mid });
    }
    assert(p@ =~= half + mid_ops(*e, *c, capture && li == 0));
    layernorm(&mut p, e, EncBuf::H, EncBuf::FlnW(li), EncBuf::FlnB(li), EncBuf::Norm2, c.s);
    gemm(
        &mut p,
        EncBuf::Norm2,
        EncBuf::Fc1W(li),
        EncBuf::Gu,
        None,
        slot + 4,
        c.s,
        l.fc1.n_pad,
        l.fc1.k,
        l.fc1.n_pad,
    );
    bias_gelu_tensor(
        &mut p,
        EncBuf::Gu,
        EncBuf::Fc1B(li),
        EncBuf::Gact,
        3,
        c.s_pad * l.fc1.n_pad,
        l.fc1.n_pad / 2,
        false,
    );
    gemm_beta(
        &mut p,
        EncBuf::Gact,
        EncBuf::Fc2W(li),
        EncBuf::H,
        Some(EncBuf::Fc2B(li)),
        slot + 5,
        c.s,
        l.fc2.n_pad,
        l.fc2.k,
        e.d_model,
    );
    assert(p@ == layer_ops(*e, *c, li, capture));
    ops.append(&mut p);
}

/// Products of a clip's sizes that a read covers.
proof fn lemma_read_sizes(e: GpuAudioEncoder, c: Clip)
    requires
        e.wf(),
        clip_ok(e, c),
    ensures
        0 <= c.s_pad * e.attn_cols * 2 <= usize::MAX,
        0 <= c.s_pad * e.d_model * 2 <= usize::MAX,
        0 <= c.s_pad * c.cf * 2 <= usize::MAX,
        0 <= c.s_pad * e.out_dim * 2 <= usize::MAX,
        0 <= c.blocks * c.wpad <= usize::MAX,
        0 <= c.blocks * e.hd <= usize::MAX,
        0 <= c.blocks * c.wpad * c.wpad * 2 <= usize::MAX,
        0 <= c.blocks * c.wpad * c.hd_pad * 2 <= usize::MAX,
        0 <= c.blocks * c.wpad * e.hd * 2 <= usize::MAX,
        0 <= c.blocks * e.hd * c.wpad * 2 <= usize::MAX,
        0 <= c.s * e.d_model * 2 <= usize::MAX,
        0 <= c.s * c.qkv_cols * 2 <= usize::MAX,
        0 <= c.s * e.attn_cols * 2 <= usize::MAX,
        0 <= c.s * e.out_dim * 2 <= usize::MAX,
{
    lemma_align_bounds(c.s as int, 128);
    lemma_align_bounds(e.wlen(), 128);
    lemma_nonneg(c.s_pad as int, e.attn_cols as int);
    lemma_nonneg(c.s_pad as int, e.d_model as int);
    lemma_nonneg(c.s_pad as int, c.cf as int);
    lemma_nonneg(c.s_pad as int, e.out_dim as int);
    lemma_nonneg(c.blocks as int, c.wpad as int);
    lemma_nonneg(c.blocks as int, e.hd as int);
    lemma_nonneg(c.blocks * c.wpad, c.wpad as int);
    lemma_nonneg(c.blocks * c.wpad, c.hd_pad as int);
    lemma_nonneg(c.blocks * c.wpad, e.hd as int);
    lemma_nonneg(c.blocks * e.hd, c.wpad as int);
    lemma_nonneg(c.s as int, e.d_model as int);
    lemma_nonneg(c.s as int, c.qkv_cols as int);
    lemma_nonneg(c.s as int, e.attn_cols as int);
    lemma_nonneg(c.s as int, e.out_dim as int);
    assert(c.blocks * c.wpad <= c.blocks * c.wpad * c.wpad) by (nonlinear_arith)
        requires
            c.blocks * c.wpad >= 0,
            c.wpad >= 1,
    ;
    assert(c.blocks * e.hd <= c.blocks * e.hd * c.wpad) by (nonlinear_arith)
        requires
            c.blocks * e.hd >= 0,
            c.wpad >= 1,
    ;
    assert(c.s * e.d_model <= c.s_pad * e.d_model && c.s * c.qkv_cols <= c.s_pad * c.qkv_cols && c.s * e.attn_cols
        <= c.s_pad * e.attn_cols && c.s * e.out_dim <= c.s_pad * e.out_dim) by (nonlinear_arith)
        requires
            c.s <= c.s_pad,
    ;
}

fn read(buf: EncBuf, elems: usize, shot: Shot) -> (r: EncOp)
    requires
        elems * 2 <= usize::MAX,
    ensures
        r == read_elems(buf, elems as int, shot),
{
    EncOp::Read { buf, bytes: (elems * 2) as u64, shot }
}

fn end_layer(ops: &mut Vec<EncOp>, e: &GpuAudioEncoder, c: &Clip, li: usize, capture: bool)
    requires
        e.wf(),
        clip_ok(*e, *c),
        li < e.layers@.len(),
    ensures
        final(ops)@ == old(ops)@ + layer_end(*e, *c, li as int, capture),
{
    let ghost start = ops@;
    let _n: usize = e.layers.len();
    proof {
        lemma_read_sizes(*e, *c);
    }
    if capture {
        ops.push(EncOp::Submit(Stage::Layer(li)));
        ops.push(read(EncBuf::H, c.s_pad * e.d_model, Shot::Layer(li)));
        if li == 0 {
            let ac: usize = c.s_pad * e.attn_cols;
            let sq: usize = c.blocks * c.wpad * c.wpad;
            let vv: usize = c.blocks * c.wpad * c.hd_pad;
            ops.push(read(EncBuf::Q, ac, Shot::Q));
            ops.push(read(EncBuf::K, ac, Shot::K));
            ops.push(read(EncBuf::V, ac, Shot::V));
            ops.push(read(EncBuf::Scores, sq, Shot::Scores));
            ops.push(read(EncBuf::Attn, sq, Shot::Probs));
            ops.push(read(EncBuf::AttnOut, vv, Shot::AttnOut));
            ops.push(read(EncBuf::Qp, c.blocks * c.wpad * e.hd, Shot::Qp));
            ops.push(read(EncBuf::Kt, c.blocks * e.hd * c.wpad, Shot::Kt));
            ops.push(read(EncBuf::Vp, vv, Shot::Vp));
            ops.push(read(EncBuf::Normed, c.s * e.d_model, Shot::Normed));
            ops.push(read(EncBuf::Qkv, c.s * c.qkv_cols, Shot::Qkv));
            ops.push(read(EncBuf::AttnFlat, c.s * e.attn_cols, Shot::AttnFlat));
        }
    } else if (li + 1) % 6 == 0 && li + 1 < e.layers.len() {
        ops.push(EncOp::Submit(Stage::Layer(li)));
    }
    assert(ops@ =~= start + layer_end(*e, *c, li as int, capture));
}

fn layers(ops: &mut Vec<EncOp>, e: &GpuAudioEncoder, c: &Clip, capture: bool)
    requires
        e.wf(),
        clip_ok(*e, *c),
        e.layers@.len() * 6 + 2 <= 256,
    ensures
        final(ops)@ == old(ops)@ + layers_ops(*e, *c, e.layers@.len() as nat, capture),
{
    let ghost start = ops@;
    for i in 0..e.layers.len()
        invariant
            e.wf(),
            clip_ok(*e, *c),
            e.layers@.len() * 6 + 2 <= 256,
            ops@ == start + layers_ops(*e, *c, i as nat, capture),
    {
        layer(ops, e, c, i, capture);
        end_layer(ops, e, c, i, capture);
        proof {
            lemma_layers_step(*e, *c, i as nat, capture, start, ops@);
        }
    }
}

proof fn lemma_layers_step(e: GpuAudioEncoder, c: Clip, i: nat, capture: bool, start: Seq<EncOp>, ops: Seq<EncOp>)
    requires
        i < usize::MAX,
        ops == start + layers_ops(e, c, i, capture) + layer_ops(e, c, i as usize, capture) + layer_end(
            e,
            c,
            i as int,
            capture,
        ),
    ensures
        ops == start + layers_ops(e, c, i + 1, capture),
{
    lemma_joined(
        start,
        layers_ops(e, c, i, capture),
        layer_ops(e, c, i as usize, capture),
        layer_end(e, c, i as int, capture),
    );
}

proof fn lemma_joined(s: Seq<EncOp>, a: Seq<EncOp>, b: Seq<EncOp>, d: Seq<EncOp>)
    ensures
        s + a + b + d == s + (a + b + d),
{
    assert(s + a + b + d =~= s + (a + b + d));
}

fn project(ops: &mut Vec<EncOp>, e: &GpuAudioEncoder, c: &Clip)
    requires
        e.wf(),
        clip_ok(*e, *c),
        e.layers@.len() * 6 + 2 <= 256,
    ensures
        final(ops)@ == old(ops)@ + project_ops(*e, *c),
{
    let slot: usize = e.layers.len() * LAYER_GEMMS;
    let mut p: Vec<EncOp> = Vec::new();
    proof {
        lemma_align_bounds(c.s as int, 128);
        lemma_rows_even(c.s_pad as int, e.proj1.n_pad as int);
    }
    layernorm(&mut p, e, EncBuf::H, EncBuf::LnPostW, EncBuf::LnPostB, EncBuf::Normed, c.s);
    assert(p@ =~= norm_ops(*e, EncBuf::H, EncBuf::LnPostW, EncBuf::LnPostB, EncBuf::Normed, c.s));
    gemm(
        &mut p,
        EncBuf::Normed,
        EncBuf::Proj1W,
        EncBuf::Gu,
        None,
        slot,
        c.s,
        e.proj1.n_pad,
        e.proj1.k,
        e.proj1.n_pad,
    );
    bias_gelu_tensor(
        &mut p,
        EncBuf::Gu,
        EncBuf::Proj1B,
        EncBuf::Gact,
        4,
        c.s_pad * e.proj1.n_pad,
        e.proj1.n_pad / 2,
        false,
    );
    gemm(
        &mut p,
        EncBuf::Gact,
        EncBuf::Proj2W,
        EncBuf::Out,
        Some(EncBuf::Proj2B),
        slot + 1,
        c.s,
        e.proj2.n_pad,
        e.proj2.k,
        e.proj2.n_pad,
    );
    assert(p@ == project_ops(*e, *c));
    ops.append(&mut p);
}

fn finish(ops: &mut Vec<EncOp>, e: &GpuAudioEncoder, c: &Clip, capture: bool)
    requires
        e.wf(),
        clip_ok(*e, *c),
    ensures
        final(ops)@ == old(ops)@ + finish_ops(*e, *c, capture),
{
    let ghost start = ops@;
    proof {
        lemma_read_sizes(*e, *c);
    }
    ops.push(EncOp::Submit(Stage::Last));
    if capture {
        ops.push(read(EncBuf::Packed, c.s_pad * c.cf, Shot::Packed));
    }
    ops.push(read(EncBuf::Out, c.s * e.out_dim, Shot::Embeds));
    assert(ops@ =~= start + finish_ops(*e, *c, capture));
}

/// A clip-sized buffer of `elems` half-width elements, in whole words.
pub open spec fn word_alloc(buf: EncBuf, elems: int) -> EncAlloc {
    EncAlloc { buf, bytes: (elems / 2 * 4) as u64 }
}

/// A clip-sized buffer of `elems` half-width elements.
pub open spec fn half_alloc(buf: EncBuf, elems: int) -> EncAlloc {
    EncAlloc { buf, bytes: (elems * 2) as u64 }
}

/// The buffers of one clip.
pub open spec fn clip_allocs(e: GpuAudioEncoder, c: Clip) -> Seq<EncAlloc> {
    seq![
        half_alloc(EncBuf::Mel, c.n_chunks * e.mel_chunk),
        word_alloc(EncBuf::Packed, c.s_pad * c.cf),
        word_alloc(EncBuf::HRaw, c.s_pad * e.d_model),
        word_alloc(EncBuf::H, c.s_pad * e.d_model),
        word_alloc(EncBuf::Normed, c.s_pad * e.d_model),
        word_alloc(EncBuf::Norm2, c.s_pad * e.d_model),
        word_alloc(EncBuf::Qkv, c.s_pad * c.qkv_cols),
        word_alloc(EncBuf::Q, c.s_pad * e.attn_cols),
        word_alloc(EncBuf::K, c.s_pad * e.attn_cols),
        word_alloc(EncBuf::V, c.s_pad * e.attn_cols),
        word_alloc(EncBuf::AttnFlat, c.s_pad * e.attn_cols),
        half_alloc(EncBuf::Qp, c.blocks * c.wpad * e.hd),
        half_alloc(EncBuf::Kt, c.blocks * e.hd * c.wpad),
        half_alloc(EncBuf::Vp, c.blocks * c.wpad * c.hd_pad),
        half_alloc(EncBuf::Scores, c.blocks * c.wpad * c.wpad),
        half_alloc(EncBuf::Attn, c.blocks * c.wpad * c.wpad),
        half_alloc(EncBuf::AttnOut, c.blocks * c.wpad * c.hd_pad),
        word_alloc(EncBuf::Gu, c.s_pad * c.gu_pad),
        word_alloc(EncBuf::Gact, c.s_pad * c.inter_pad),
        word_alloc(EncBuf::Out, c.s_pad * e.out_dim),
    ]
}

fn words(buf: EncBuf, elems: usize) -> (r: EncAlloc)
    requires
        elems * 2 <= usize::MAX,
    ensures
        r == word_alloc(buf, elems as int),
{
    EncAlloc { buf, bytes: (elems / 2 * 4) as u64 }
}

fn halves(buf: EncBuf, elems: usize) -> (r: EncAlloc)
    requires
        elems * 2 <= usize::MAX,
    ensures
        r == half_alloc(buf, elems as int),
{
    EncAlloc { buf, bytes: (elems * 2) as u64 }
}

fn allocs(e: &GpuAudioEncoder, c: &Clip) -> (r: Vec<EncAlloc>)
    requires
        e.wf(),
        clip_ok(*e, *c),
        c.n_chunks * e.mel_chunk * 2 <= usize::MAX,
    ensures
        r@ == clip_allocs(*e, *c),
{
    proof {
        lemma_read_sizes(*e, *c);
        lemma_nonneg(c.n_chunks as int, e.mel_chunk as int);
        lemma_nonneg(c.s_pad as int, c.qkv_cols as int);
        lemma_nonneg(c.s_pad as int, c.gu_pad as int);
        lemma_nonneg(c.s_pad as int, c.inter_pad as int);
    }
    let row: usize = c.s_pad * e.d_model;
    let ac: usize = c.s_pad * e.attn_cols;
    let sq: usize = c.blocks * c.wpad * c.wpad;
    let vv: usize = c.blocks * c.wpad * c.hd_pad;
    vec![
        halves(EncBuf::Mel, c.n_chunks * e.mel_chunk),
        words(EncBuf::Packed, c.s_pad * c.cf),
        words(EncBuf::HRaw, row),
        words(EncBuf::H, row),
        words(EncBuf::Normed, row),
        words(EncBuf::Norm2, row),
        words(EncBuf::Qkv, c.s_pad * c.qkv_cols),
        words(EncBuf::Q, ac),
        words(EncBuf::K, ac),
        words(EncBuf::V, ac),
        words(EncBuf::AttnFlat, ac),
        halves(EncBuf::Qp, c.blocks * c.wpad * e.hd),
        halves(EncBuf::Kt, c.blocks * e.hd * c.wpad),
        halves(EncBuf::Vp, vv),
        halves(EncBuf::Scores, sq),
        halves(EncBuf::Attn, sq),
        halves(EncBuf::AttnOut, vv),
        words(EncBuf::Gu, c.s_pad * c.gu_pad),
        words(EncBuf::Gact, c.s_pad * c.inter_pad),
        words(EncBuf::Out, c.s_pad * e.out_dim),
    ]
}

/// The buffers that a tower keeps: a conv round's tensors and the uniforms.
pub open spec fn tower_allocs(e: GpuAudioEncoder) -> Seq<EncAlloc> {
    seq![
        half_alloc(EncBuf::Col(0), e.conv@[0].k_pad * e.conv@[0].n_all),
        half_alloc(EncBuf::Col(1), e.conv@[1].k_pad * e.conv@[1].n_all),
        half_alloc(EncBuf::Col(2), e.conv@[2].k_pad * e.conv@[2].n_all),
        half_alloc(EncBuf::Raw(0), e.conv@[0].m_pad * e.conv@[0].n_all),
        half_alloc(EncBuf::Raw(1), e.conv@[1].m_pad * e.conv@[1].n_all),
        half_alloc(EncBuf::Raw(2), e.conv@[2].m_pad * e.conv@[2].n_all),
        half_alloc(EncBuf::Act(0), e.conv@[0].m_pad * e.conv@[0].n_all),
        half_alloc(EncBuf::Act(1), e.conv@[1].m_pad * e.conv@[1].n_all),
        half_alloc(EncBuf::Act(2), e.conv@[2].m_pad * e.conv@[2].n_all),
        EncAlloc { buf: EncBuf::UGd, bytes: 65536 },
        EncAlloc { buf: EncBuf::UIm(0), bytes: 48 },
        EncAlloc { buf: EncBuf::UIm(1), bytes: 48 },
        EncAlloc { buf: EncBuf::UIm(2), bytes: 48 },
        EncAlloc { buf: EncBuf::USc(0), bytes: 32 },
        EncAlloc { buf: EncBuf::USc(1), bytes: 32 },
        EncAlloc { buf: EncBuf::USc(2), bytes: 32 },
        EncAlloc { buf: EncBuf::USc(3), bytes: 32 },
        EncAlloc { buf: EncBuf::USc(4), bytes: 32 },
        EncAlloc { buf: EncBuf::UEx, bytes: 32 },
        EncAlloc { buf: EncBuf::USm, bytes: 32 },
        EncAlloc { buf: EncBuf::ULn, bytes: 32 },
        EncAlloc { buf: EncBuf::UPm, bytes: 32 },
        EncAlloc { buf: EncBuf::UPe, bytes: 32 },
        EncAlloc { buf: EncBuf::UWp, bytes: 32 },
        EncAlloc { buf: EncBuf::UCp, bytes: 32 },
    ]
}

/// The check that a pass fails.
pub open spec fn encode_error(e: GpuAudioEncoder, n_mels: usize, n_frames: int) -> Option<EncoderError> {
    match e.clip_error(n_mels, n_frames) {
        Some(x) => Some(x),
        None => if e.layers@.len() * 6 + 2 > MAX_GEMMS {
            Some(EncoderError::TooManyGemms { slots: (e.layers@.len() * 6 + 2) as usize })
        } else {
            None
        },
    }
}

impl GpuAudioEncoder {
    /// The read of a clip's embeddings: one row of `out_dim` elements per token.
    pub open spec fn embeds_read(self, n_frames: int) -> EncOp {
        EncOp::Read {
            buf: EncBuf::Out,
            bytes: (self.tokens(n_frames) * self.out_dim * 2) as u64,
            shot: Shot::Embeds,
        }
    }

    /// The buffers that the tower keeps from one clip to the next.
    pub fn kept_allocs(&self) -> (r: Vec<EncAlloc>)
        requires
            self.wf(),
        ensures
            r@ == tower_allocs(*self),
    {
        let (a, b, c) = (&self.conv[0], &self.conv[1], &self.conv[2]);
        proof {
            lemma_product_fits(a.k_pad as int, a.n_all as int);
            lemma_product_fits(b.k_pad as int, b.n_all as int);
            lemma_product_fits(c.k_pad as int, c.n_all as int);
            lemma_product_fits(a.m_pad as int, a.n_all as int);
            lemma_product_fits(b.m_pad as int, b.n_all as int);
            lemma_product_fits(c.m_pad as int, c.n_all as int);
        }
        vec![
            halves(EncBuf::Col(0), a.k_pad * a.n_all),
            halves(EncBuf::Col(1), b.k_pad * b.n_all),
            halves(EncBuf::Col(2), c.k_pad * c.n_all),
            halves(EncBuf::Raw(0), a.m_pad * a.n_all),
            halves(EncBuf::Raw(1), b.m_pad * b.n_all),
            halves(EncBuf::Raw(2), c.m_pad * c.n_all),
            halves(EncBuf::Act(0), a.m_pad * a.n_all),
            halves(EncBuf::Act(1), b.m_pad * b.n_all),
            halves(EncBuf::Act(2), c.m_pad * c.n_all),
            EncAlloc { buf: EncBuf::UGd, bytes: (MAX_GEMMS * 256) as u64 },
            EncAlloc { buf: EncBuf::UIm(0), bytes: 48 },
            EncAlloc { buf: EncBuf::UIm(1), bytes: 48 },
            EncAlloc { buf: EncBuf::UIm(2), bytes: 48 },
            EncAlloc { buf: EncBuf::USc(0), bytes: 32 },
            EncAlloc { buf: EncBuf::USc(1), bytes: 32 },
            EncAlloc { buf: EncBuf::USc(2), bytes: 32 },
            EncAlloc { buf: EncBuf::USc(3), bytes: 32 },
            EncAlloc { buf: EncBuf::USc(4), bytes: 32 },
            EncAlloc { buf: EncBuf::UEx, bytes: 32 },
            EncAlloc { buf: EncBuf::USm, bytes: 32 },
            EncAlloc { buf: EncBuf::ULn, bytes: 32 },
            EncAlloc { buf: EncBuf::UPm, bytes: 32 },
            EncAlloc { buf: EncBuf::UPe, bytes: 32 },
            EncAlloc { buf: EncBuf::UWp, bytes: 32 },
            EncAlloc { buf: EncBuf::UCp, bytes: 32 },
        ]
    }

    /// Plans one pass over a clip of `n_frames` mel frames. A captured pass is
    /// submitted piece by piece and reads every stage back. `scale_bits` is the
    /// bit pattern of the softmax scale, the inverse square root of a head's
    /// width.
    pub fn encode_capture(&self, n_mels: usize, n_frames: usize, scale_bits: u32, capture: bool) -> (r: Result<
        EncodePlan,
        EncoderError,
    >)
        requires
            self.wf(),
            self.clip_fits(n_frames as int),
            self.layers@.len() * 6 + 2 <= usize::MAX,
        ensures
            match encode_error(*self, n_mels, n_frames as int) {
                Some(x) => r is Err && r->Err_0 == x,
                None => {
                    let c = self.clip_of(n_frames as int, scale_bits);
                    &&& r is Ok
                    &&& r->Ok_0.clip == c
                    &&& r->Ok_0.allocs@ == clip_allocs(*self, c)
                    &&& r->Ok_0.ops@ == encode_ops(*self, c, capture)
                    &&& r->Ok_0.ops@.last() == self.embeds_read(n_frames as int)
                },
            },
    {
        let c = match self.clip(n_mels, n_frames, scale_bits) {
            Ok(c) => c,
            Err(x) => {
                return Err(x);
            },
        };
        let slots: usize = self.layers.len() * LAYER_GEMMS + 2;
        if slots > MAX_GEMMS {
            return Err(EncoderError::TooManyGemms { slots });
        }
        proof {
            lemma_clip_ok(*self, n_frames as int, scale_bits);
            let p = align_up(c.s as int, 128);
            lemma_align_bounds(c.s as int, 128);
            let i = 0int;
            assert(p * self.layers@[i].fc1.n_pad <= usize::MAX);
            lemma_nonneg(p, self.layers@[0].fc1.n_pad as int);
            lemma_nonneg(p, self.proj1.n_pad as int);
        }
        let mut ops: Vec<EncOp> = Vec::new();
        let f: usize = self.layers[0].fc1.n_pad;
        ops.push(EncOp::Write { buf: EncBuf::USc(3), offset: 0, data: scale_of(c.s_pad * f, f / 2, false) });
        let q: usize = self.proj1.n_pad;
        ops.push(EncOp::Write { buf: EncBuf::USc(4), offset: 0, data: scale_of(c.s_pad * q, q / 2, false) });
        assert(ops@ =~= scale_writes(*self, c));
        conv_rounds(&mut ops, self, &c, capture);
        conv_out(&mut ops, self, &c, capture);
        layers(&mut ops, self, &c, capture);
        project(&mut ops, self, &c);
        finish(&mut ops, self, &c, capture);
        Ok(EncodePlan { clip: c, allocs: allocs(self, &c), ops })
    }

    /// Plans one pass without captures: the embeddings, one row per token, are all
    /// that is read back.
    pub fn encode(&self, n_mels: usize, n_frames: usize, scale_bits: u32) -> (r: Result<EncodePlan, EncoderError>)
        requires
            self.wf(),
            self.clip_fits(n_frames as int),
            self.layers@.len() * 6 + 2 <= usize::MAX,
        ensures
            match encode_error(*self, n_mels, n_frames as int) {
                Some(x) => r is Err && r->Err_0 == x,
                None => {
                    let c = self.clip_of(n_frames as int, scale_bits);
                    &&& r is Ok
                    &&& r->Ok_0.clip == c
                    &&& r->Ok_0.allocs@ == clip_allocs(*self, c)
                    &&& r->Ok_0.ops@ == encode_ops(*self, c, false)
                    &&& r->Ok_0.ops@.last() == self.embeds_read(n_frames as int)
                    &&& !reads_back(r->Ok_0.ops@.drop_last())
                },
            },
    {
        proof {
            law_only_embeds_read(*self, self.clip_of(n_frames as int, scale_bits));
        }
        self.encode_capture(n_mels, n_frames, scale_bits, false)
    }
}

/// A clip that passes its checks has sizes that fit.
pub proof fn lemma_clip_ok(e: GpuAudioEncoder, n_frames: int, scale_bits: u32)
    requires
        e.wf(),
        e.clip_fits(n_frames),
        0 <= n_frames <= usize::MAX,
        1 <= e.tokens(n_frames) <= MAX_TOKENS,
    ensures
        clip_ok(e, e.clip_of(n_frames, scale_bits)),
        e.clip_of(n_frames, scale_bits).n_chunks == e.chunks(n_frames),
{
    let s = e.tokens(n_frames);
    lemma_frames(n_frames, e.cs as int, e.tpc as int);
    crate::geometry::law_token_len(e.cs as int);
    lemma_align_bounds(s, 128);
    lemma_align_bounds(2 * e.inter, 128);
    lemma_align_bounds(e.inter as int, 128);
    lemma_align_bounds(3 * e.d_model, 128);
    lemma_align_bounds(e.hd as int, 128);
    lemma_align_bounds(e.wlen(), 128);
    lemma_align_bounds(s, e.wlen());
    lemma_nonneg(e.nh as int, ceil_div(s, e.wlen()));
    let q = n_frames / (e.cs as int);
    let n = e.chunks(n_frames);
    if n_frames % (e.cs as int) > 0 {
        crate::geometry::law_token_len(n_frames % (e.cs as int));
    }
    assert(n * e.tpc <= q * e.tpc + e.tpc) by (nonlinear_arith)
        requires
            n <= q + 1,
            e.tpc >= 0,
    ;
}

} // verus!
