//! What an audio tower plan computes. Its commands are run over symbolic values,
//! as those of the decoder are: a buffer holds a term, and a pass gives its output
//! a term by its kernel, the roles of its bindings and the uniforms it reads. A
//! pass whose parameters, operands or grid do not fit together leaves its output
//! lost.
use vstd::prelude::*;

use crate::encoder::GpuAudioEncoder;
use crate::encoder_ops::{EncBinding, EncBuf, EncGroup, EncOp, EncUniform, Pipe, Shot};
use crate::encoder_plan::Clip;
use crate::pipelines::{built_pipes, Shader};

verus! {

/// What a buffer of the tower holds.
pub enum EncVal {
    /// What this buffer held at the start.
    Held(EncBuf),
    /// The windows of `chunks` chunks from `chunk0` on, by a tap table.
    Patches { x: Box<EncVal>, taps: Box<EncVal>, chunk0: int, chunks: int },
    /// A matrix times a matrix whose rows are the depth.
    Product { a: Box<EncVal>, b: Box<EncVal> },
    /// GELU of a value plus a bias, one per channel or one per column.
    Gelu { x: Box<EncVal>, bias: Box<EncVal>, by_channel: bool, cols: int },
    /// Token rows of `cols` columns after those of a round went to the rows from
    /// `at` on.
    Tokens { was: Box<EncVal>, x: Box<EncVal>, at: int, cols: int },
    /// Rows times the rows of a weight, plus a bias per column if there is one.
    Times { x: Box<EncVal>, w: Box<EncVal>, bias: Option<Box<EncVal>>, cols: int },
    Plus { x: Box<EncVal>, y: Box<EncVal>, cols: int },
    /// Rows plus the position of each token in its chunk.
    Placed { x: Box<EncVal>, pe: Box<EncVal>, cols: int },
    Norm { x: Box<EncVal>, w: Box<EncVal>, b: Box<EncVal>, eps_bits: u32, cols: int },
    /// Queries (0), keys (1) or values (2) of a projection.
    Heads { x: Box<EncVal>, which: int, cols: int },
    /// Heads cut into windows of `wlen` tokens; the keys are turned.
    Windows { x: Box<EncVal>, turned: bool, wlen: int },
    /// The softmax of scores within each window.
    Probs { x: Box<EncVal>, scale_bits: u32, wlen: int },
    /// Window blocks put back into token rows.
    Rows { x: Box<EncVal>, wlen: int, cols: int },
    Lost,
}

/// Device memory of a tower, and the embeddings that were read back.
pub struct Tower {
    pub mem: Map<EncBuf, EncVal>,
    pub set: Map<(EncBuf, u64), EncUniform>,
    pub embeds: Option<(EncVal, int)>,
}

/// What a buffer holds.
pub open spec fn has(m: Map<EncBuf, EncVal>, b: EncBuf) -> EncVal {
    if m.contains_key(b) {
        m[b]
    } else {
        EncVal::Held(b)
    }
}

/// The columns of a value that is rows.
pub open spec fn cols_of(v: EncVal) -> int {
    match v {
        EncVal::Gelu { cols, .. } => cols,
        EncVal::Tokens { cols, .. } => cols,
        EncVal::Times { cols, .. } => cols,
        EncVal::Plus { cols, .. } => cols,
        EncVal::Placed { cols, .. } => cols,
        EncVal::Norm { cols, .. } => cols,
        EncVal::Heads { cols, .. } => cols,
        EncVal::Rows { cols, .. } => cols,
        _ => -1,
    }
}

/// Where a pipe stands among those that are built.
pub open spec fn pipe_place(p: Pipe) -> int {
    match p {
        Pipe::Im2col => 0,
        Pipe::Gelu => 1,
        Pipe::Gemm => 2,
        Pipe::GemmT => 3,
        Pipe::Extract => 4,
        Pipe::WinPack => 5,
        Pipe::GemmBeta => 6,
        Pipe::GemmBias => 7,
        Pipe::GemmBetaBias => 8,
        Pipe::Softmax => 9,
        Pipe::LayerNorm => 10,
        Pipe::Permute => 11,
        Pipe::AddPe => 12,
        Pipe::AttnFlat => 13,
    }
}

/// The shader that a pipe is built from.
pub open spec fn shader_for(p: Pipe) -> Option<Shader> {
    let b = built_pipes()[pipe_place(p)];
    if b.pipe == p {
        Some(b.shader)
    } else {
        None
    }
}

/// The entries of a group are whole buffers at these indices.
pub open spec fn placed(b: Seq<EncBinding>, at: Seq<int>) -> bool {
    &&& b.len() == at.len()
    &&& forall|i: int| 0 <= i < at.len() ==> (#[trigger] b[i]).index == at[i] && b[i].size == 0
}

/// Rows and columns of a weight, as the tower has it.
pub open spec fn weight_shape(e: GpuAudioEncoder, w: EncBuf) -> (int, int) {
    match w {
        EncBuf::ConvOutW => (e.conv_out.n_pad as int, e.conv_out.k as int),
        EncBuf::QkvW(l) => (e.layers@[l as int].qkv.n_pad as int, e.layers@[l as int].qkv.k as int),
        EncBuf::OW(l) => (e.layers@[l as int].o.n_pad as int, e.layers@[l as int].o.k as int),
        EncBuf::Fc1W(l) => (e.layers@[l as int].fc1.n_pad as int, e.layers@[l as int].fc1.k as int),
        EncBuf::Fc2W(l) => (e.layers@[l as int].fc2.n_pad as int, e.layers@[l as int].fc2.k as int),
        EncBuf::Proj1W => (e.proj1.n_pad as int, e.proj1.k as int),
        EncBuf::Proj2W => (e.proj2.n_pad as int, e.proj2.k as int),
        _ => (-1, -1),
    }
}

/// The gather of a conv level.
pub open spec fn gathered(e: GpuAudioEncoder, s: Tower, level: int, b: Seq<EncBinding>, x: int, y: int) -> EncVal {
    let l = e.conv@[level];
    let u = s.set[(b[3].buf, 0)];
    if placed(b, seq![0, 1, 2, 3]) && s.set.contains_key((b[3].buf, 0)) && u is Im2col && 0 <= level < 3 && u->taps == 9
        && u->Im2col_k == l.k && u->k_pad == l.k_pad && u->plane == l.plane && u->Im2col_plane_pad == l.plane_pad
        && u->Im2col_n_all == l.n_all && u->n_chunks * l.plane_pad <= l.n_all && u->bpc * 32 == l.plane_pad && (level
        == 0 ==> u->in_chunk == e.mel_chunk) && (level > 0 ==> u->in_chunk == e.conv@[level - 1].plane_pad && u->in_ic
        == e.conv@[level - 1].n_all) && x * 32 >= l.n_all && y * 16 >= l.k_pad {
        EncVal::Patches {
            x: Box::new(has(s.mem, b[0].buf)),
            taps: Box::new(has(s.mem, b[1].buf)),
            chunk0: u->chunk0 as int,
            chunks: u->n_chunks as int,
        }
    } else {
        EncVal::Lost
    }
}

/// A bias and GELU.
pub open spec fn activated(e: GpuAudioEncoder, s: Tower, b: Seq<EncBinding>, x: int, y: int) -> EncVal {
    let u = s.set[(b[3].buf, 0)];
    let v = has(s.mem, b[0].buf);
    if placed(b, seq![0, 1, 2, 3]) && s.set.contains_key((b[3].buf, 0)) && u is Scale && u->Scale_n as int % 2 == 0 && (y
        == 1 || x == u->Scale_gx) && x * y * 512 >= u->Scale_n && (u->mode == 1 || u->mode == 0 && cols_of(v)
        == u->words * 2) {
        EncVal::Gelu {
            x: Box::new(v),
            bias: Box::new(has(s.mem, b[1].buf)),
            by_channel: u->mode == 1,
            cols: u->words * 2,
        }
    } else {
        EncVal::Lost
    }
}

/// A GEMM.
pub open spec fn multiplied(
    e: GpuAudioEncoder,
    c: Clip,
    s: Tower,
    b: Seq<EncBinding>,
    at: u32,
    transb: bool,
    acc: bool,
    bias: bool,
    x: int,
    y: int,
    z: int,
) -> EncVal {
    let key = (EncBuf::UGd, at as u64);
    let u = s.set[key];
    let a = has(s.mem, b[0].buf);
    let w = has(s.mem, b[1].buf);
    let ok = b.len() == (if bias {
        5int
    } else {
        4
    }) && b[0].index == 0 && b[1].index == 1 && b[2].index == 2 && b[3].index == 3 && b[3].buf == EncBuf::UGd && (bias
        ==> b[4].index == 4) && s.set.contains_key(key) && u is Gemm && u->beta == 0 && x * 128 >= u->Gemm_n && y * 128
        >= u->m;
    if !ok {
        EncVal::Lost
    } else if transb {
        if !acc && !bias && (conv_product(e, b, u, z) || score_product(e, c, b, u, z) || value_product(e, c, b, u, z)) {
            EncVal::Product { a: Box::new(a), b: Box::new(w) }
        } else {
            EncVal::Lost
        }
    } else {
        let (n, k) = weight_shape(e, b[1].buf);
        let p = EncVal::Times {
            x: Box::new(a),
            w: Box::new(w),
            bias: if bias {
                Some(Box::new(has(s.mem, b[4].buf)))
            } else {
                None
            },
            cols: u->ldc as int,
        };
        if z == 1 && u->Gemm_n == n && u->Gemm_k == k && cols_of(a) == k && u->ldc == n && u->m >= c.s && u->m <= c.s_pad {
            if acc {
                if cols_of(has(s.mem, b[2].buf)) == n {
                    EncVal::Plus { x: Box::new(has(s.mem, b[2].buf)), y: Box::new(p), cols: n }
                } else {
                    EncVal::Lost
                }
            } else {
                p
            }
        } else {
            EncVal::Lost
        }
    }
}

/// A conv kernel times its patches: channels by positions.
pub open spec fn conv_product(e: GpuAudioEncoder, b: Seq<EncBinding>, u: EncUniform, z: int) -> bool {
    &&& b[0].buf matches EncBuf::ConvW(i)
    &&& i < 3
    &&& b[1].buf == EncBuf::Col(i)
    &&& b[2].buf == EncBuf::Raw(i)
    &&& u->m == e.conv@[i as int].m_pad
    &&& u->Gemm_n == e.conv@[i as int].n_all
    &&& u->Gemm_k == e.conv@[i as int].k_pad
    &&& u->ldc == e.conv@[i as int].n_all
    &&& z == 1
}

/// Queries times keys, window by window and head by head.
pub open spec fn score_product(e: GpuAudioEncoder, c: Clip, b: Seq<EncBinding>, u: EncUniform, z: int) -> bool {
    &&& b[0].buf == EncBuf::Qp && b[1].buf == EncBuf::Kt && b[2].buf == EncBuf::Scores
    &&& u->m == c.wpad && u->Gemm_n == c.wpad && u->Gemm_k == e.hd && u->ldc == c.wpad
    &&& u->bsa * 2 == c.wpad * e.hd && u->bsb * 2 == e.hd * c.wpad && u->bsc == c.wpad * c.wpad
    &&& z == e.nh * c.n_win
}

/// Probabilities times values, window by window and head by head.
pub open spec fn value_product(e: GpuAudioEncoder, c: Clip, b: Seq<EncBinding>, u: EncUniform, z: int) -> bool {
    &&& b[0].buf == EncBuf::Attn && b[1].buf == EncBuf::Vp && b[2].buf == EncBuf::AttnOut
    &&& u->m == c.wpad && u->Gemm_n == c.hd_pad && u->Gemm_k == c.wpad && u->ldc == c.hd_pad
    &&& u->bsa * 2 == c.wpad * c.wpad && u->bsb * 2 == c.wpad * c.hd_pad && u->bsc == c.wpad * c.hd_pad
    &&& z == e.nh * c.n_win
}

/// The settings of a layer norm.
pub open spec fn normed(e: GpuAudioEncoder, c: Clip, s: Tower, b: Seq<EncBinding>, x: int) -> EncVal {
    let u = s.set[(b[3].buf, 0)];
    let v = has(s.mem, b[0].buf);
    if placed(b, seq![0, 1, 2, 3, 4]) && s.set.contains_key((b[3].buf, 0)) && u is Norm && u->Norm_d == cols_of(v) && x
        >= c.s {
        EncVal::Norm {
            x: Box::new(v),
            w: Box::new(has(s.mem, b[1].buf)),
            b: Box::new(has(s.mem, b[2].buf)),
            eps_bits: u->eps_bits,
            cols: u->Norm_d as int,
        }
    } else {
        EncVal::Lost
    }
}

/// Conv planes to token rows.
pub open spec fn permuted(e: GpuAudioEncoder, c: Clip, s: Tower, b: Seq<EncBinding>, x: int, y: int) -> EncVal {
    let u = s.set[(b[2].buf, 0)];
    let l = e.conv@[2];
    if placed(b, seq![0, 1, 2]) && s.set.contains_key((b[2].buf, 0)) && u is Permute && u->c == l.c_out && u->t3 == e.tpc
        && u->f * e.tpc == l.plane && u->Permute_n_all == l.n_all && u->Permute_plane_pad == l.plane_pad
        && u->Permute_n_tokens == c.s && u->c * u->f <= u->Permute_s_pad && x >= c.s && y * 512 >= u->Permute_s_pad {
        EncVal::Tokens {
            was: Box::new(has(s.mem, b[1].buf)),
            x: Box::new(has(s.mem, b[0].buf)),
            at: u->tok0 as int,
            cols: u->Permute_s_pad as int,
        }
    } else {
        EncVal::Lost
    }
}

/// Positions added to the token rows.
pub open spec fn positioned(e: GpuAudioEncoder, c: Clip, s: Tower, b: Seq<EncBinding>, x: int, y: int) -> EncVal {
    let u = s.set[(b[3].buf, 0)];
    let v = has(s.mem, b[0].buf);
    if placed(b, seq![0, 1, 2, 3]) && s.set.contains_key((b[3].buf, 0)) && u is Position && u->Position_d == e.d_model
        && u->Position_tpc == e.tpc && u->Position_s_pad == cols_of(v) && x >= c.s && y * 512 >= e.d_model {
        EncVal::Placed { x: Box::new(v), pe: Box::new(has(s.mem, b[1].buf)), cols: u->Position_d as int }
    } else {
        EncVal::Lost
    }
}

/// Queries, keys or values of a projection.
pub open spec fn headed(e: GpuAudioEncoder, c: Clip, s: Tower, b: Seq<EncBinding>, which: int, x: int, y: int, z: int) -> EncVal {
    let u = s.set[(b[4].buf, 0)];
    let v = has(s.mem, b[0].buf);
    if placed(b, seq![0, 1, 2, 3, 5]) && s.set.contains_key((b[4].buf, 0)) && u is Extract && u->Extract_n_tokens == c.s
        && u->nh == e.nh && u->Extract_hd == e.hd && u->row_stride == cols_of(v) && u->dm == e.nh * e.hd && 3 * u->dm
        == u->row_stride && u->pe_stride == 0 && x >= c.s && y == e.nh && z * 2 == e.hd {
        EncVal::Heads { x: Box::new(v), which, cols: u->attn_cols as int }
    } else {
        EncVal::Lost
    }
}

/// Heads cut into windows.
pub open spec fn windowed(e: GpuAudioEncoder, c: Clip, s: Tower, b: Seq<EncBinding>, which: int, x: int, y: int, z: int) -> EncVal {
    let u = s.set[(b[6].buf, 0)];
    let v = has(s.mem, b[which].buf);
    if placed(b, seq![0, 1, 2, 3, 4, 5, 6]) && s.set.contains_key((b[6].buf, 0)) && u is Window && u->Window_s == c.s
        && u->Window_hd == e.hd && u->Window_n_win == c.n_win && u->Window_wpad == c.wpad && u->pad_n == c.hd_pad
        && u->acols == cols_of(v) && u->Window_wlen <= u->Window_wpad && u->Window_n_win * u->Window_wlen >= c.s && x * 32
        >= c.wpad && y * 32 >= c.hd_pad && z == e.nh * c.n_win {
        EncVal::Windows { x: Box::new(v), turned: which == 1, wlen: u->Window_wlen as int }
    } else {
        EncVal::Lost
    }
}

/// The softmax within each window.
pub open spec fn softened(e: GpuAudioEncoder, c: Clip, s: Tower, b: Seq<EncBinding>, x: int, y: int) -> EncVal {
    let u = s.set[(b[2].buf, 0)];
    if placed(b, seq![0, 1, 2]) && s.set.contains_key((b[2].buf, 0)) && u is Softmax && u->Softmax_s == c.s
        && u->Softmax_wpad == c.wpad && u->Softmax_n_win == c.n_win && x * 128 >= c.wpad && y == e.nh * c.n_win {
        EncVal::Probs {
            x: Box::new(has(s.mem, b[0].buf)),
            scale_bits: u->scale_bits,
            wlen: u->Softmax_wlen as int,
        }
    } else {
        EncVal::Lost
    }
}

/// Window blocks put back into token rows.
pub open spec fn flattened(e: GpuAudioEncoder, c: Clip, s: Tower, b: Seq<EncBinding>, x: int) -> EncVal {
    let u = s.set[(b[2].buf, 0)];
    if placed(b, seq![0, 1, 2]) && s.set.contains_key((b[2].buf, 0)) && u is Compress && u->Compress_cols == e.nh * e.hd
        && u->Compress_hd == e.hd && u->Compress_wpad == c.wpad && u->Compress_n_win == c.n_win && u->Compress_rows == c.s
        && x * 512 >= c.s_pad * e.attn_cols {
        EncVal::Rows {
            x: Box::new(has(s.mem, b[0].buf)),
            wlen: u->Compress_wlen as int,
            cols: u->Compress_cols as int,
        }
    } else {
        EncVal::Lost
    }
}

/// Memory after a pass.
pub open spec fn passed(
    e: GpuAudioEncoder,
    c: Clip,
    s: Tower,
    p: Pipe,
    g: EncGroup,
    at: u32,
    x: int,
    y: int,
    z: int,
) -> Map<EncBuf, EncVal> {
    let m = s.mem;
    let b = g.bindings_spec();
    match (shader_for(p), g) {
        (Some(Shader::AudioIm2col), EncGroup::Im2col { level, .. }) => m.insert(
            b[2].buf,
            gathered(e, s, level as int, b, x, y),
        ),
        (Some(Shader::AudioBiasGelu), EncGroup::Gelu { .. }) => m.insert(b[2].buf, activated(e, s, b, x, y)),
        (Some(Shader::PrefillGemm { transb, acc, bias }), EncGroup::Gemm { .. }) => m.insert(
            b[2].buf,
            if bias {
                EncVal::Lost
            } else {
                multiplied(e, c, s, b, at, transb, acc, bias, x, y, z)
            },
        ),
        (Some(Shader::PrefillGemm { transb, acc, bias }), EncGroup::GemmBias { .. }) => m.insert(
            b[2].buf,
            if bias {
                multiplied(e, c, s, b, at, transb, acc, bias, x, y, z)
            } else {
                EncVal::Lost
            },
        ),
        (Some(Shader::AudioExtractQkv), EncGroup::Extract) => m.insert(
            b[1].buf,
            headed(e, c, s, b, 0, x, y, z),
        ).insert(b[2].buf, headed(e, c, s, b, 1, x, y, z)).insert(b[3].buf, headed(e, c, s, b, 2, x, y, z)),
        (Some(Shader::AudioWinPack), EncGroup::WinPack) => m.insert(
            b[3].buf,
            windowed(e, c, s, b, 0, x, y, z),
        ).insert(b[4].buf, windowed(e, c, s, b, 1, x, y, z)).insert(b[5].buf, windowed(e, c, s, b, 2, x, y, z)),
        (Some(Shader::AudioWindowSoftmax), EncGroup::Softmax) => m.insert(b[1].buf, softened(e, c, s, b, x, y)),
        (Some(Shader::AudioLayernorm), EncGroup::Norm { .. }) => m.insert(b[4].buf, normed(e, c, s, b, x)),
        (Some(Shader::AudioPermutePe), EncGroup::Permute) => m.insert(b[1].buf, permuted(e, c, s, b, x, y)),
        (Some(Shader::AudioAddPe), EncGroup::AddPe) => m.insert(b[2].buf, positioned(e, c, s, b, x, y)),
        (Some(Shader::AudioAttnFlat), EncGroup::AttnFlat) => m.insert(b[1].buf, flattened(e, c, s, b, x)),
        _ => Map::empty(),
    }
}

/// The tower after one command.
pub open spec fn does(e: GpuAudioEncoder, c: Clip, s: Tower, op: EncOp) -> Tower {
    match op {
        EncOp::Write { buf, offset, data } => Tower { set: s.set.insert((buf, offset), data), ..s },
        EncOp::Run { pipe, group, x, y, z } => Tower {
            mem: passed(e, c, s, pipe, group, 0, x as int, y as int, z as int),
            ..s
        },
        EncOp::RunAt { pipe, group, at, x, y, z } => Tower {
            mem: passed(e, c, s, pipe, group, at, x as int, y as int, z as int),
            ..s
        },
        EncOp::Submit(_) => s,
        EncOp::Read { buf, bytes, shot } => if shot == Shot::Embeds {
            Tower { embeds: Some((has(s.mem, buf), bytes as int)), ..s }
        } else {
            s
        },
    }
}

/// The tower after a list of commands.
#[verifier::opaque]
pub open spec fn goes(e: GpuAudioEncoder, c: Clip, s: Tower, ops: Seq<EncOp>) -> Tower
    decreases ops.len(),
{
    if ops.len() == 0 {
        s
    } else {
        does(e, c, goes(e, c, s, ops.drop_last()), ops.last())
    }
}

/// Running two lists one after the other runs their sum.
pub proof fn lemma_goes_sum(e: GpuAudioEncoder, c: Clip, s: Tower, a: Seq<EncOp>, b: Seq<EncOp>)
    ensures
        goes(e, c, s, a + b) == goes(e, c, goes(e, c, s, a), b),
    decreases b.len(),
{
    reveal(goes);
    if b.len() == 0 {
        assert(a + b =~= a);
    } else {
        assert((a + b).drop_last() =~= a + b.drop_last());
        assert((a + b).last() == b.last());
        lemma_goes_sum(e, c, s, a, b.drop_last());
    }
}

/// Running one command.
pub proof fn lemma_goes_one(e: GpuAudioEncoder, c: Clip, s: Tower, op: EncOp)
    ensures
        goes(e, c, s, seq![op]) == does(e, c, s, op),
{
    assert(seq![op].drop_last() =~= Seq::<EncOp>::empty());
    assert(seq![op].last() == op);
    reveal_with_fuel(goes, 2);
}

/// Running nothing.
pub proof fn lemma_goes_none(e: GpuAudioEncoder, c: Clip, s: Tower)
    ensures
        goes(e, c, s, Seq::empty()) == s,
{
    reveal(goes);
}

} // verus!
