//! One pass of the audio tower: geometry, buffers and commands.
use vstd::prelude::*;

use crate::encoder::{EncoderError, GpuAudioEncoder, MAX_TOKENS};
use crate::encoder_ops::{EncBuf, EncGroup, EncOp, EncUniform, Pipe, Shot, Stage};
use crate::geometry::{
    align, align_up, ceil_div, div_up, feo, grid_x, grid_xy, grid_y, law_token_len, lemma_align_bounds, token_len,
    GEMM_BM, GEMM_BN,
};

verus! {

/// The bit pattern of the layer norms' epsilon, `1e-5`.
pub const LN_EPS_BITS: u32 = 0x3727_C5AC;

/// The geometry of one clip.
#[derive(Clone, Copy, Debug, PartialEq, Eq, Structural)]
pub struct Clip {
    pub n_chunks: usize,
    /// Tokens of the clip.
    pub s: usize,
    pub s_pad: usize,
    /// Row width of the packed conv output.
    pub cf: usize,
    pub qkv_cols: usize,
    pub inter_pad: usize,
    pub gu_pad: usize,
    /// Tokens of an attention window, and the tile it is padded to.
    pub wlen: usize,
    pub wpad: usize,
    pub n_win: usize,
    pub hd_pad: usize,
    /// Attention blocks: one per head and window.
    pub blocks: usize,
    /// Bit pattern of the softmax scale.
    pub scale_bits: u32,
}

/// A buffer to allocate for a clip.
#[derive(Clone, Copy, Debug, PartialEq, Eq, Structural)]
pub struct EncAlloc {
    pub buf: EncBuf,
    pub bytes: u64,
}

/// A pass: its geometry, the buffers it needs and its commands.
pub struct EncodePlan {
    pub clip: Clip,
    pub allocs: Vec<EncAlloc>,
    pub ops: Vec<EncOp>,
}

impl GpuAudioEncoder {
    /// Chunks of a clip of `n_frames`.
    pub open spec fn chunks(self, n_frames: int) -> int {
        n_frames / (self.cs as int) + if n_frames % (self.cs as int) > 0 {
            1int
        } else {
            0int
        }
    }

    /// Tokens of a clip of `n_frames`.
    pub open spec fn tokens(self, n_frames: int) -> int {
        n_frames / (self.cs as int) * self.tpc + if n_frames % (self.cs as int) > 0 {
            token_len(n_frames % (self.cs as int))
        } else {
            0int
        }
    }

    /// Tokens of one attention window.
    pub open spec fn wlen(self) -> int {
        self.tpc * (self.window_infer as int / self.cs as int)
    }

    /// The geometry of a clip of `n_frames`.
    pub open spec fn clip_of(self, n_frames: int, scale_bits: u32) -> Clip {
        let s = self.tokens(n_frames);
        let n_win = ceil_div(s, self.wlen());
        Clip {
            n_chunks: self.chunks(n_frames) as usize,
            s: s as usize,
            s_pad: align_up(s, 128) as usize,
            cf: self.conv_out.k,
            qkv_cols: align_up(3 * self.d_model, 128) as usize,
            inter_pad: align_up(self.inter as int, 128) as usize,
            gu_pad: align_up(2 * self.inter, 128) as usize,
            wlen: self.wlen() as usize,
            wpad: align_up(self.wlen(), 128) as usize,
            n_win: n_win as usize,
            hd_pad: align_up(self.hd as int, 128) as usize,
            blocks: (self.nh * n_win) as usize,
            scale_bits,
        }
    }

    /// The tower's own sizes fit.
    pub open spec fn wf(self) -> bool {
        &&& self.cs >= 1
        &&& self.tpc == token_len(self.cs as int)
        &&& 1 <= self.wlen() <= 2048
        &&& self.conv@.len() == 3
        &&& self.layers@.len() >= 1
        &&& forall|i: int|
            0 <= i < 3 ==> (#[trigger] self.conv@[i]).n_all % 128 == 0 && self.conv@[i].m_pad % 128 == 0
                && self.conv@[i].m_pad * self.conv@[i].n_all * 2 <= usize::MAX && self.conv@[i].k_pad * self.conv@[i].n_all * 2 <= usize::MAX
        &&& align_up(3 * self.d_model, 128) <= usize::MAX
        &&& align_up(2 * self.inter, 128) <= usize::MAX
        &&& align_up(self.hd as int, 128) <= usize::MAX
        &&& self.nh * self.hd <= usize::MAX
    }

    /// The sizes of a clip of `s` tokens fit.
    pub open spec fn rows_fit(self, s: int) -> bool {
        let p = align_up(s, 128);
        let wpad = align_up(self.wlen(), 128);
        let hd_pad = align_up(self.hd as int, 128);
        let z = self.nh * ceil_div(s, self.wlen());
        &&& p * self.conv_out.k * 2 <= usize::MAX
        &&& p * self.d_model * 2 <= usize::MAX
        &&& p * align_up(3 * self.d_model, 128) * 2 <= usize::MAX
        &&& p * self.attn_cols * 2 <= usize::MAX
        &&& p * align_up(2 * self.inter, 128) * 2 <= usize::MAX
        &&& p * align_up(self.inter as int, 128) * 2 <= usize::MAX
        &&& p * self.out_dim * 2 <= usize::MAX
        &&& p * self.proj1.n_pad <= usize::MAX
        &&& forall|i: int| 0 <= i < self.layers@.len() ==> p * (#[trigger] self.layers@[i]).fc1.n_pad <= usize::MAX
        &&& z * wpad * self.hd * 2 <= usize::MAX
        &&& z * wpad * hd_pad * 2 <= usize::MAX
        &&& z * wpad * wpad * 2 <= usize::MAX
        &&& wpad * self.hd <= usize::MAX
        &&& self.hd * wpad <= usize::MAX
        &&& wpad * hd_pad <= usize::MAX
        &&& z <= usize::MAX
        &&& z * self.hd * wpad * 2 <= usize::MAX
    }

    /// The sizes of a clip of `n_frames` fit.
    pub open spec fn clip_fits(self, n_frames: int) -> bool {
        &&& self.chunks(n_frames) * self.mel_chunk * 2 <= usize::MAX
        &&& 0 < self.tokens(n_frames) <= MAX_TOKENS ==> self.rows_fit(self.tokens(n_frames))
    }

    /// The check that a clip fails.
    pub open spec fn clip_error(self, n_mels: usize, n_frames: int) -> Option<EncoderError> {
        if n_mels != self.n_mels {
            Some(EncoderError::MelBins { got: n_mels, want: self.n_mels })
        } else if n_frames == 0 {
            Some(EncoderError::EmptyMel)
        } else if self.tokens(n_frames) > MAX_TOKENS {
            Some(EncoderError::TooManyTokens { tokens: self.tokens(n_frames) as usize })
        } else {
            None
        }
    }

    /// The geometry of a clip, or the check that it fails.
    pub fn clip(&self, n_mels: usize, n_frames: usize, scale_bits: u32) -> (r: Result<Clip, EncoderError>)
        requires
            self.wf(),
            self.clip_fits(n_frames as int),
        ensures
            match self.clip_error(n_mels, n_frames as int) {
                Some(e) => r is Err && r->Err_0 == e,
                None => r is Ok && r->Ok_0 == self.clip_of(n_frames as int, scale_bits),
            },
            r is Ok ==> 1 <= r->Ok_0.s <= MAX_TOKENS && r->Ok_0.s == self.tokens(n_frames as int) && r->Ok_0.n_chunks
                == self.chunks(n_frames as int),
    {
        if n_mels != self.n_mels {
            return Err(EncoderError::MelBins { got: n_mels, want: self.n_mels });
        }
        let cs: usize = self.cs;
        let nfull: usize = n_frames / cs;
        let tail: usize = n_frames % cs;
        proof {
            lemma_frames(n_frames as int, cs as int, self.tpc as int);
            law_token_len(cs as int);
            if tail > 0 {
                law_token_len(tail as int);
            }
        }
        let n_chunks: usize = if tail > 0 {
            nfull + 1
        } else {
            nfull
        };
        if n_chunks == 0 {
            return Err(EncoderError::EmptyMel);
        }
        let full: usize = nfull * self.tpc;
        let s: usize = if tail > 0 {
            full + feo(tail)
        } else {
            full
        };
        assert(s == self.tokens(n_frames as int));
        if s > MAX_TOKENS {
            return Err(EncoderError::TooManyTokens { tokens: s });
        }
        proof {
            lemma_align_bounds(s as int, 128);
            lemma_align_bounds(2 * self.inter, 128);
            lemma_align_bounds(self.inter as int, 128);
            lemma_align_bounds(self.wlen(), 128);
            lemma_align_bounds(s as int, self.wlen());
            assert(self.tpc * (self.window_infer / cs) == self.wlen());
        }
        let wlen: usize = self.tpc * (self.window_infer / cs);
        let n_win: usize = div_up(s, wlen);
        Ok(
            Clip {
                n_chunks,
                s,
                s_pad: align(s, GEMM_BM),
                cf: self.conv_out.k,
                qkv_cols: align(3 * self.d_model, GEMM_BM),
                inter_pad: align(self.inter, GEMM_BM),
                gu_pad: align(2 * self.inter, GEMM_BM),
                wlen,
                wpad: align(wlen, GEMM_BM),
                n_win,
                hd_pad: align(self.hd, GEMM_BN),
                blocks: self.nh * n_win,
                scale_bits,
            },
        )
    }
}

/// Bounds on the full chunks and the tail of a clip.
pub proof fn lemma_frames(n: int, cs: int, tpc: int)
    requires
        n >= 0,
        cs >= 1,
        tpc == token_len(cs),
    ensures
        n == n / cs * cs + n % cs,
        0 <= n % cs < cs,
        0 <= n / cs <= n,
        0 <= n / cs * tpc <= n / cs * cs,
        n > 0 ==> n / cs >= 1 || n % cs > 0,
        n / cs >= 1 ==> n / cs * tpc >= 1,
        n == 0 ==> n / cs == 0 && n % cs == 0,
        n % cs > 0 ==> n / cs + 1 <= n,
{
    law_token_len(cs);
    let q = n / cs;
    let r = n % cs;
    assert(n == q * cs + r && 0 <= r < cs && 0 <= q <= n) by (nonlinear_arith)
        requires
            q == n / cs,
            r == n % cs,
            n >= 0,
            cs >= 1,
    ;
    assert(0 <= q * tpc <= q * cs) by (nonlinear_arith)
        requires
            0 <= q,
            0 <= tpc <= cs,
    ;
    assert(q >= 1 ==> q * tpc >= 1) by (nonlinear_arith)
        requires
            tpc >= 1,
    ;
    assert(q * cs >= q) by (nonlinear_arith)
        requires
            q >= 0,
            cs >= 1,
    ;
    assert(q == 0 ==> q * cs == 0) by (nonlinear_arith);
    assert(n == 0 ==> q == 0) by (nonlinear_arith)
        requires
            q == n / cs,
            cs >= 1,
    ;
}

/// Frames of chunk `i` of a clip.
pub open spec fn chunk_frames(n_frames: int, cs: int, i: int) -> int {
    if i < n_frames / cs {
        cs
    } else {
        n_frames % cs
    }
}

/// Element `j` of the packed mel: chunk by chunk, bin by bin, rows padded with
/// `zero` to `w0`.
pub open spec fn mel_entry<T>(mel: Seq<T>, n_mels: int, n_frames: int, cs: int, w0: int, zero: T, j: int) -> T {
    let row = j / w0;
    let col = j % w0;
    let i = row / n_mels;
    let m = row % n_mels;
    if col < chunk_frames(n_frames, cs, i) {
        mel[m * n_frames + i * cs + col]
    } else {
        zero
    }
}

/// The packed mel of `n_chunks` chunks.
pub open spec fn packed_mel<T>(
    mel: Seq<T>,
    n_mels: int,
    n_frames: int,
    cs: int,
    w0: int,
    n_chunks: int,
    zero: T,
) -> Seq<T> {
    Seq::new((n_chunks * n_mels * w0) as nat, |j: int| mel_entry(mel, n_mels, n_frames, cs, w0, zero, j))
}

/// Cuts a mel spectrogram, bin by bin, into chunks of `cs` frames whose rows are
/// padded to `w0`; the last chunk is as short as the clip leaves it.
pub fn pack_mel<T: Copy>(mel: &[T], n_mels: usize, n_frames: usize, cs: usize, w0: usize, n_chunks: usize, zero: T) -> (r:
    Vec<T>)
    requires
        1 <= cs <= w0,
        n_mels >= 1,
        n_chunks == n_frames as int / cs as int + (if n_frames as int % cs as int > 0 {
            1int
        } else {
            0int
        }),
        n_mels * n_frames <= mel@.len(),
        n_chunks * n_mels * w0 <= usize::MAX,
    ensures
        r@ == packed_mel(
            mel@,
            n_mels as int,
            n_frames as int,
            cs as int,
            w0 as int,
            n_chunks as int,
            zero,
        ),
{
    let _len: usize = mel.len();
    let nfull: usize = n_frames / cs;
    let tail: usize = n_frames % cs;
    let mut out: Vec<T> = Vec::new();
    proof {
        assert(nfull * cs + tail == n_frames && tail < cs) by (nonlinear_arith)
            requires
                nfull == n_frames / cs,
                tail == n_frames % cs,
                cs >= 1,
        ;
        assert(0int * n_mels * w0 == 0) by (nonlinear_arith);
    }
    for i in 0..n_chunks
        invariant
            1 <= cs <= w0,
            n_mels >= 1,
            nfull == n_frames as int / cs as int,
            tail == n_frames as int % cs as int,
            nfull * cs + tail == n_frames,
            tail < cs,
            n_chunks == nfull + (if tail > 0 {
                1int
            } else {
                0int
            }),
            n_mels * n_frames <= mel@.len() <= usize::MAX,
            n_chunks * n_mels * w0 <= usize::MAX,
            out@.len() == i * n_mels * w0,
            forall|j: int|
                0 <= j < out@.len() ==> #[trigger] out@[j] == mel_entry(
                    mel@,
                    n_mels as int,
                    n_frames as int,
                    cs as int,
                    w0 as int,
                    zero,
                    j,
                ),
    {
        let len: usize = if i < nfull {
            cs
        } else {
            tail
        };
        proof {
            assert((i * n_mels + 0) * w0 == i * n_mels * w0) by (nonlinear_arith);
        }
        for m in 0..n_mels
            invariant
                1 <= cs <= w0,
                n_mels >= 1,
                i < n_chunks,
                nfull == n_frames as int / cs as int,
                tail == n_frames as int % cs as int,
                nfull * cs + tail == n_frames,
                tail < cs,
                n_chunks == nfull + (if tail > 0 {
                    1int
                } else {
                    0int
                }),
                len == chunk_frames(n_frames as int, cs as int, i as int),
                n_mels * n_frames <= mel@.len() <= usize::MAX,
                n_chunks * n_mels * w0 <= usize::MAX,
                out@.len() == (i * n_mels + m) * w0,
                forall|j: int|
                    0 <= j < out@.len() ==> #[trigger] out@[j] == mel_entry(
                        mel@,
                        n_mels as int,
                        n_frames as int,
                        cs as int,
                        w0 as int,
                        zero,
                        j,
                    ),
        {
            proof {
                lemma_mel_row(n_mels as int, n_frames as int, cs as int, i as int, m as int, len as int);
            }
            let base: usize = m * n_frames + i * cs;
            for c in 0..w0
                invariant
                    1 <= cs <= w0,
                    n_mels >= 1,
                    m < n_mels,
                    i < n_chunks,
                    base == m * n_frames + i * cs,
                    base + len <= n_mels * n_frames,
                    len == chunk_frames(n_frames as int, cs as int, i as int),
                    n_mels * n_frames <= mel@.len() <= usize::MAX,
                    out@.len() == (i * n_mels + m) * w0 + c,
                    forall|j: int|
                        0 <= j < out@.len() ==> #[trigger] out@[j] == mel_entry(
                            mel@,
                            n_mels as int,
                            n_frames as int,
                            cs as int,
                            w0 as int,
                            zero,
                            j,
                        ),
            {
                proof {
                    lemma_mel_index(i as int, n_mels as int, m as int, w0 as int, c as int);
                }
                let v: T = if c < len {
                    mel[base + c]
                } else {
                    zero
                };
                out.push(v);
            }
            proof {
                assert((i * n_mels + m) * w0 + w0 == (i * n_mels + (m + 1)) * w0) by (nonlinear_arith);
            }
        }
        proof {
            assert((i * n_mels + n_mels) * w0 == (i + 1) * n_mels * w0) by (nonlinear_arith);
        }
    }
    out
}

proof fn lemma_mel_index(i: int, n_mels: int, m: int, w0: int, c: int)
    requires
        0 <= i,
        0 <= m < n_mels,
        0 <= c < w0,
    ensures
        ((i * n_mels + m) * w0 + c) / w0 == i * n_mels + m,
        ((i * n_mels + m) * w0 + c) % w0 == c,
        (i * n_mels + m) / n_mels == i,
        (i * n_mels + m) % n_mels == m,
{
    vstd::arithmetic::div_mod::lemma_fundamental_div_mod_converse((i * n_mels + m) * w0 + c, w0, i * n_mels + m, c);
    vstd::arithmetic::div_mod::lemma_fundamental_div_mod_converse(i * n_mels + m, n_mels, i, m);
}

proof fn lemma_mel_row(n_mels: int, n_frames: int, cs: int, i: int, m: int, len: int)
    requires
        0 <= m < n_mels,
        0 <= i,
        1 <= cs,
        0 <= n_frames,
        i < n_frames / cs || (i == n_frames / cs && n_frames % cs > 0),
        len == chunk_frames(n_frames, cs, i),
    ensures
        0 <= m * n_frames,
        0 <= i * cs,
        m * n_frames + i * cs + len <= n_mels * n_frames,
        i * cs + len <= n_frames,
{
    let q = n_frames / cs;
    let t = n_frames % cs;
    assert(n_frames == q * cs + t) by (nonlinear_arith)
        requires
            q == n_frames / cs,
            t == n_frames % cs,
            cs >= 1,
    ;
    assert(i * cs + len <= n_frames) by (nonlinear_arith)
        requires
            n_frames == q * cs + t,
            i < q && len == cs || i == q && len == t,
            cs >= 1,
            t >= 0,
    ;
    assert(m * n_frames + n_frames <= n_mels * n_frames && 0 <= m * n_frames) by (nonlinear_arith)
        requires
            0 <= m < n_mels,
            n_frames >= 0,
    ;
    assert(0 <= i * cs) by (nonlinear_arith)
        requires
            0 <= i,
            1 <= cs,
    ;
}

/// The settings of one bias-and-GELU pass over `n` elements, `words` words per
/// channel or per row.
pub open spec fn scale(n: int, words: int, by_channel: bool) -> EncUniform {
    EncUniform::Scale {
        n: n as u32,
        words: words as u32,
        mode: if by_channel {
            1
        } else {
            0
        },
        gx: grid_x(ceil_div(n, 512)) as u32,
    }
}

/// A bias-and-GELU pass: 512 elements per workgroup.
pub open spec fn gelu_ops(
    src: EncBuf,
    bias: EncBuf,
    dst: EncBuf,
    site: usize,
    n: int,
    words: int,
    by_channel: bool,
) -> Seq<EncOp> {
    seq![
        EncOp::Write { buf: EncBuf::USc(site), offset: 0, data: scale(n, words, by_channel) },
        EncOp::Run {
            pipe: Pipe::Gelu,
            group: EncGroup::Gelu { src, bias, dst, site },
            x: grid_x(ceil_div(n, 512)) as u32,
            y: grid_y(ceil_div(n, 512)) as u32,
            z: 1,
        },
    ]
}

pub(crate) fn scale_of(n: usize, words: usize, by_channel: bool) -> (r: EncUniform)
    ensures
        r == scale(n as int, words as int, by_channel),
{
    let (gx, _gy) = grid_xy(div_up(n, 512));
    EncUniform::Scale {
        n: n as u32,
        words: words as u32,
        mode: if by_channel {
            1
        } else {
            0
        },
        gx,
    }
}

pub(crate) fn bias_gelu_tensor(
    ops: &mut Vec<EncOp>,
    src: EncBuf,
    bias: EncBuf,
    dst: EncBuf,
    site: usize,
    n: usize,
    words: usize,
    by_channel: bool,
)
    requires
        n % 2 == 0,
    ensures
        final(ops)@ == old(ops)@ + gelu_ops(src, bias, dst, site, n as int, words as int, by_channel),
{
    let (gx, gy) = grid_xy(div_up(n, 512));
    ops.push(EncOp::Write { buf: EncBuf::USc(site), offset: 0, data: scale_of(n, words, by_channel) });
    ops.push(
        EncOp::Run { pipe: Pipe::Gelu, group: EncGroup::Gelu { src, bias, dst, site }, x: gx, y: gy, z: 1 },
    );
}

/// The dimensions of one GEMM: rows, columns, depth, the result's row stride, and
/// the batch strides.
#[derive(Clone, Copy, Debug, PartialEq, Eq, Structural)]
pub struct GemmShape {
    pub m: usize,
    pub n: usize,
    pub k: usize,
    pub ldc: usize,
    pub bsa: usize,
    pub bsb: usize,
    pub bsc: usize,
    pub batch: usize,
}

/// A GEMM over one batch.
pub open spec fn flat(m: usize, n: usize, k: usize, ldc: usize) -> GemmShape {
    GemmShape { m, n, k, ldc, bsa: 0, bsb: 0, bsc: 0, batch: 1 }
}

/// What the GEMM ring's slot carries.
pub open spec fn gemm_uniform(g: GemmShape) -> EncUniform {
    EncUniform::Gemm {
        m: align_up(g.m as int, 128) as u32,
        n: g.n as u32,
        k: g.k as u32,
        ldc: g.ldc as u32,
        bsa: g.bsa as u32,
        bsb: g.bsb as u32,
        bsc: g.bsc as u32,
        beta: 0,
    }
}

/// The operands of a GEMM.
pub open spec fn gemm_group(a: EncBuf, w: EncBuf, c: EncBuf, bias: Option<EncBuf>) -> EncGroup {
    match bias {
        Some(b) => EncGroup::GemmBias { a, w, c, bias: b },
        None => EncGroup::Gemm { a, w, c },
    }
}

/// One GEMM, its dimensions in slot `slot` of the ring.
pub open spec fn gemm_ops(
    pipe: Pipe,
    a: EncBuf,
    w: EncBuf,
    c: EncBuf,
    bias: Option<EncBuf>,
    slot: int,
    g: GemmShape,
    gx: u32,
    gy: u32,
) -> Seq<EncOp> {
    seq![
        EncOp::Write { buf: EncBuf::UGd, offset: (slot * 256) as u64, data: gemm_uniform(g) },
        EncOp::RunAt {
            pipe,
            group: gemm_group(a, w, c, bias),
            at: (slot * 256) as u32,
            x: gx,
            y: gy,
            z: if g.batch >= 1 {
                g.batch as u32
            } else {
                1
            },
        },
    ]
}

pub(crate) fn dispatch_gemm(
    ops: &mut Vec<EncOp>,
    pipe: Pipe,
    a: EncBuf,
    w: EncBuf,
    c: EncBuf,
    bias: Option<EncBuf>,
    slot: usize,
    g: GemmShape,
    gx: u32,
    gy: u32,
)
    requires
        slot < 256,
        align_up(g.m as int, 128) <= usize::MAX,
    ensures
        final(ops)@ == old(ops)@ + gemm_ops(pipe, a, w, c, bias, slot as int, g, gx, gy),
{
    let data = EncUniform::Gemm {
        m: align(g.m, GEMM_BM) as u32,
        n: g.n as u32,
        k: g.k as u32,
        ldc: g.ldc as u32,
        bsa: g.bsa as u32,
        bsb: g.bsb as u32,
        bsc: g.bsc as u32,
        beta: 0,
    };
    ops.push(EncOp::Write { buf: EncBuf::UGd, offset: (slot * 256) as u64, data });
    let group = match bias {
        Some(b) => EncGroup::GemmBias { a, w, c, bias: b },
        None => EncGroup::Gemm { a, w, c },
    };
    let z: u32 = if g.batch >= 1 {
        g.batch as u32
    } else {
        1
    };
    ops.push(EncOp::RunAt { pipe, group, at: (slot * 256) as u32, x: gx, y: gy, z });
}

/// `c = a * w`, or `c = a * w + bias`, over `m` rows.
pub open spec fn linear_ops(
    a: EncBuf,
    w: EncBuf,
    c: EncBuf,
    bias: Option<EncBuf>,
    slot: int,
    m: usize,
    n: usize,
    k: usize,
    ldc: usize,
) -> Seq<EncOp> {
    gemm_ops(
        if bias is Some {
            Pipe::GemmBias
        } else {
            Pipe::Gemm
        },
        a,
        w,
        c,
        bias,
        slot,
        flat(m, n, k, ldc),
        (n / 128) as u32,
        (align_up(m as int, 128) / 128) as u32,
    )
}

/// `c += a * w`, or `c += a * w + bias`, over `m` rows.
pub open spec fn residual_ops(
    a: EncBuf,
    w: EncBuf,
    c: EncBuf,
    bias: Option<EncBuf>,
    slot: int,
    m: usize,
    n: usize,
    k: usize,
    ldc: usize,
) -> Seq<EncOp> {
    gemm_ops(
        if bias is Some {
            Pipe::GemmBetaBias
        } else {
            Pipe::GemmBeta
        },
        a,
        w,
        c,
        bias,
        slot,
        flat(m, n, k, ldc),
        (n / 128) as u32,
        (align_up(m as int, 128) / 128) as u32,
    )
}

pub(crate) fn gemm(
    ops: &mut Vec<EncOp>,
    a: EncBuf,
    w: EncBuf,
    c: EncBuf,
    bias: Option<EncBuf>,
    slot: usize,
    m: usize,
    n: usize,
    k: usize,
    ldc: usize,
)
    requires
        slot < 256,
        m <= MAX_TOKENS,
    ensures
        final(ops)@ == old(ops)@ + linear_ops(a, w, c, bias, slot as int, m, n, k, ldc),
{
    proof {
        lemma_align_bounds(m as int, 128);
    }
    let pipe = if bias.is_some() {
        Pipe::GemmBias
    } else {
        Pipe::Gemm
    };
    let g = GemmShape { m, n, k, ldc, bsa: 0, bsb: 0, bsc: 0, batch: 1 };
    dispatch_gemm(
        ops,
        pipe,
        a,
        w,
        c,
        bias,
        slot,
        g,
        (n / GEMM_BN) as u32,
        (align(m, GEMM_BM) / GEMM_BM) as u32,
    );
}

pub(crate) fn gemm_beta(
    ops: &mut Vec<EncOp>,
    a: EncBuf,
    w: EncBuf,
    c: EncBuf,
    bias: Option<EncBuf>,
    slot: usize,
    m: usize,
    n: usize,
    k: usize,
    ldc: usize,
)
    requires
        slot < 256,
        m <= MAX_TOKENS,
    ensures
        final(ops)@ == old(ops)@ + residual_ops(a, w, c, bias, slot as int, m, n, k, ldc),
{
    proof {
        lemma_align_bounds(m as int, 128);
    }
    let pipe = if bias.is_some() {
        Pipe::GemmBetaBias
    } else {
        Pipe::GemmBeta
    };
    let g = GemmShape { m, n, k, ldc, bsa: 0, bsb: 0, bsc: 0, batch: 1 };
    dispatch_gemm(
        ops,
        pipe,
        a,
        w,
        c,
        bias,
        slot,
        g,
        (n / GEMM_BN) as u32,
        (align(m, GEMM_BM) / GEMM_BM) as u32,
    );
}

/// A layer norm over `rows` rows, padded to whole tiles.
pub open spec fn norm_ops(e: GpuAudioEncoder, src: EncBuf, w: EncBuf, b: EncBuf, dst: EncBuf, rows: usize) -> Seq<EncOp> {
    seq![
        EncOp::Write {
            buf: EncBuf::ULn,
            offset: 0,
            data: EncUniform::Norm { d: e.d_model as u32, eps_bits: LN_EPS_BITS },
        },
        EncOp::Run {
            pipe: Pipe::LayerNorm,
            group: EncGroup::Norm { src, w, b, dst },
            x: align_up(rows as int, 128) as u32,
            y: 1,
            z: 1,
        },
    ]
}

/// The gather of one conv level.
pub open spec fn im2col_uniform(e: GpuAudioEncoder, level: int, cin0: int, n: int) -> EncUniform {
    let l = e.conv@[level];
    EncUniform::Im2col {
        taps: 9,
        k: l.k as u32,
        k_pad: l.k_pad as u32,
        plane: l.plane as u32,
        plane_pad: l.plane_pad as u32,
        n_chunks: n as u32,
        n_all: l.n_all as u32,
        in_chunk: l.in_chunk as u32,
        in_ic: l.in_ic as u32,
        chunk0: cin0 as u32,
        bpc: (l.plane_pad / 32) as u32,
    }
}

/// The gather of one conv level: 32 positions and 16 depths per workgroup.
pub open spec fn im2col_ops(e: GpuAudioEncoder, level: usize, input: EncBuf, cin0: int, n: int) -> Seq<EncOp> {
    let l = e.conv@[level as int];
    seq![
        EncOp::Write { buf: EncBuf::UIm(level), offset: 0, data: im2col_uniform(e, level as int, cin0, n) },
        EncOp::Run {
            pipe: Pipe::Im2col,
            group: EncGroup::Im2col { level, input },
            x: (l.n_all / 32) as u32,
            y: (l.k_pad / 16) as u32,
            z: 1,
        },
    ]
}

/// The input of a conv level: the mel, then the level before.
pub open spec fn level_input(level: usize) -> EncBuf {
    if level == 0 {
        EncBuf::Mel
    } else {
        EncBuf::Act((level - 1) as usize)
    }
}

/// The first chunk of a round, as the gather of a level counts it: the mel holds
/// every chunk of the clip, the activations those of the round.
pub open spec fn level_chunk0(level: usize, ch0: int) -> int {
    if level == 0 {
        ch0
    } else {
        0
    }
}

/// One conv level of a round of `n` chunks: gather, GEMM, bias and GELU. The
/// kernel is the first operand, so that the result is channel-major.
pub open spec fn level_ops(e: GpuAudioEncoder, level: usize, ch0: int, n: int) -> Seq<EncOp> {
    let l = e.conv@[level as int];
    im2col_ops(e, level, level_input(level), level_chunk0(level, ch0), n) + gemm_ops(
        Pipe::GemmT,
        EncBuf::ConvW(level),
        EncBuf::Col(level),
        EncBuf::Raw(level),
        None,
        level as int,
        flat(l.m_pad, l.n_all, l.k_pad, l.n_all),
        (l.n_all / 128) as u32,
        (l.m_pad / 128) as u32,
    ) + gelu_ops(
        EncBuf::Raw(level),
        EncBuf::ConvB(level),
        EncBuf::Act(level),
        level,
        l.m_pad * l.n_all,
        l.n_all as int / 2,
        true,
    )
}

/// The settings of the gather from conv planes to token rows.
pub open spec fn permute_uniform(e: GpuAudioEncoder, c: Clip, ch0: int) -> EncUniform {
    let l = e.conv@[2];
    EncUniform::Permute {
        c: l.c_out as u32,
        f: (l.plane / e.tpc) as u32,
        t3: e.tpc as u32,
        s_pad: c.cf as u32,
        n_all: l.n_all as u32,
        plane_pad: l.plane_pad as u32,
        tok0: (ch0 * e.tpc) as u32,
        n_tokens: c.s as u32,
    }
}

/// The gather from conv planes to token rows.
pub open spec fn permute_ops(e: GpuAudioEncoder, c: Clip, ch0: int) -> Seq<EncOp> {
    seq![
        EncOp::Write { buf: EncBuf::UPm, offset: 0, data: permute_uniform(e, c, ch0) },
        EncOp::Run {
            pipe: Pipe::Permute,
            group: EncGroup::Permute,
            x: align_up(c.s as int, 128) as u32,
            y: (c.cf / 2 / 256) as u32,
            z: 1,
        },
    ]
}

/// The reads of a conv round's tensors at one level.
pub open spec fn level_reads(e: GpuAudioEncoder, level: usize) -> Seq<EncOp> {
    let l = e.conv@[level as int];
    seq![
        EncOp::Read { buf: EncBuf::Col(level), bytes: (l.k_pad * l.n_all * 2) as u64, shot: Shot::Col(level) },
        EncOp::Read { buf: EncBuf::Raw(level), bytes: (l.m_pad * l.n_all * 2) as u64, shot: Shot::Raw(level) },
        EncOp::Read { buf: EncBuf::Act(level), bytes: (l.m_pad * l.n_all * 2) as u64, shot: Shot::Act(level) },
    ]
}

/// What the first captured round reads besides: 64 mel elements and the taps of
/// the first 8 positions of each level.
pub open spec fn head_reads() -> Seq<EncOp> {
    seq![
        EncOp::Read { buf: EncBuf::Mel, bytes: 128, shot: Shot::MelHead },
        EncOp::Read { buf: EncBuf::Taps(0), bytes: 288, shot: Shot::Taps(0) },
        EncOp::Read { buf: EncBuf::Taps(1), bytes: 288, shot: Shot::Taps(1) },
        EncOp::Read { buf: EncBuf::Taps(2), bytes: 288, shot: Shot::Taps(2) },
    ]
}

/// How a conv round ends: submitted, and read back where it is captured.
pub open spec fn round_end(e: GpuAudioEncoder, ch0: int, capture: bool) -> Seq<EncOp> {
    if capture {
        seq![EncOp::Submit(Stage::Capture)] + level_reads(e, 0) + level_reads(e, 1) + level_reads(e, 2) + if ch0 == 0 {
            head_reads()
        } else {
            Seq::empty()
        }
    } else {
        seq![EncOp::Submit(Stage::Round(ch0 as usize))]
    }
}

/// One conv round over `n` chunks from `ch0` on.
pub open spec fn round_ops(e: GpuAudioEncoder, c: Clip, ch0: int, n: int, capture: bool) -> Seq<EncOp> {
    level_ops(e, 0, ch0, n) + level_ops(e, 1, ch0, n) + level_ops(e, 2, ch0, n) + permute_ops(e, c, ch0) + round_end(
        e,
        ch0,
        capture,
    )
}

/// Chunks of the round that begins at `ch0`.
pub open spec fn round_len(c: Clip, ch0: int) -> int {
    if c.n_chunks - ch0 < 8 {
        c.n_chunks - ch0
    } else {
        8
    }
}

/// The first `n` conv rounds.
pub open spec fn rounds_ops(e: GpuAudioEncoder, c: Clip, n: nat, capture: bool) -> Seq<EncOp>
    decreases n,
{
    if n == 0 {
        Seq::empty()
    } else {
        rounds_ops(e, c, (n - 1) as nat, capture) + round_ops(e, c, (n - 1) * 8, round_len(c, (n - 1) * 8), capture)
    }
}

/// The positions' settings.
pub open spec fn position_uniform(e: GpuAudioEncoder) -> EncUniform {
    EncUniform::Position { d: e.d_model as u32, tpc: e.tpc as u32, s_pad: e.d_model as u32 }
}

/// The projection of the conv output, and the positions added to it.
pub open spec fn conv_out_ops(e: GpuAudioEncoder, c: Clip, capture: bool) -> Seq<EncOp> {
    linear_ops(
        EncBuf::Packed,
        EncBuf::ConvOutW,
        EncBuf::HRaw,
        None,
        0,
        c.s,
        e.conv_out.n_pad,
        c.cf,
        e.conv_out.n_pad,
    ) + seq![
        EncOp::Write { buf: EncBuf::UPe, offset: 0, data: position_uniform(e) },
        EncOp::Run {
            pipe: Pipe::AddPe,
            group: EncGroup::AddPe,
            x: align_up(c.s_pad as int, 128) as u32,
            y: ceil_div(e.d_model as int / 2, 256) as u32,
            z: 1,
        },
        EncOp::Submit(Stage::ConvOut),
    ] + if capture {
        seq![
            EncOp::Read {
                buf: EncBuf::H,
                bytes: (c.s_pad * e.d_model * 2) as u64,
                shot: Shot::Hidden,
            },
        ]
    } else {
        Seq::empty()
    }
}

/// The settings of the split into queries, keys and values.
pub open spec fn extract_uniform(e: GpuAudioEncoder, c: Clip) -> EncUniform {
    EncUniform::Extract {
        n_tokens: c.s as u32,
        nh: e.nh as u32,
        hd: e.hd as u32,
        tpc: e.tpc as u32,
        row_stride: (3 * e.d_model) as u32,
        attn_cols: e.attn_cols as u32,
        pe_stride: 0,
        dm: e.d_model as u32,
    }
}

/// The settings of the packing into attention windows.
pub open spec fn window_uniform(e: GpuAudioEncoder, c: Clip) -> EncUniform {
    EncUniform::Window {
        wlen: c.wlen as u32,
        wpad: c.wpad as u32,
        hd: e.hd as u32,
        n_win: c.n_win as u32,
        s: c.s as u32,
        acols: e.attn_cols as u32,
        pad_n: c.hd_pad as u32,
    }
}

/// The settings of the windowed softmax.
pub open spec fn softmax_uniform(c: Clip) -> EncUniform {
    EncUniform::Softmax {
        s: c.s as u32,
        wlen: c.wlen as u32,
        wpad: c.wpad as u32,
        n_win: c.n_win as u32,
        scale_bits: c.scale_bits,
    }
}

/// The settings of the unpacking of the attention windows.
pub open spec fn compress_uniform(e: GpuAudioEncoder, c: Clip) -> EncUniform {
    EncUniform::Compress {
        cols: (e.nh * e.hd) as u32,
        wlen: c.wlen as u32,
        wpad: c.wpad as u32,
        hd: e.hd as u32,
        n_win: c.n_win as u32,
        rows: c.s as u32,
    }
}

/// The split into queries, keys and values, and the packing into windows.
pub open spec fn split_ops(e: GpuAudioEncoder, c: Clip) -> Seq<EncOp> {
    seq![
        EncOp::Write { buf: EncBuf::UEx, offset: 0, data: extract_uniform(e, c) },
        EncOp::Run {
            pipe: Pipe::Extract,
            group: EncGroup::Extract,
            x: c.s_pad as u32,
            y: e.nh as u32,
            z: (e.hd / 2) as u32,
        },
        EncOp::Write { buf: EncBuf::UWp, offset: 0, data: window_uniform(e, c) },
        EncOp::Run {
            pipe: Pipe::WinPack,
            group: EncGroup::WinPack,
            x: (c.wpad / 32) as u32,
            y: (c.hd_pad / 2 / 16) as u32,
            z: c.blocks as u32,
        },
    ]
}

/// The scores of every attention block.
pub open spec fn score_shape(e: GpuAudioEncoder, c: Clip) -> GemmShape {
    GemmShape {
        m: c.wpad,
        n: c.wpad,
        k: e.hd,
        ldc: c.wpad,
        bsa: (c.wpad * e.hd / 2) as usize,
        bsb: (e.hd * c.wpad / 2) as usize,
        bsc: (c.wpad * c.wpad) as usize,
        batch: c.blocks,
    }
}

/// The weighted values of every attention block.
pub open spec fn value_shape(c: Clip) -> GemmShape {
    GemmShape {
        m: c.wpad,
        n: c.hd_pad,
        k: c.wpad,
        ldc: c.hd_pad,
        bsa: (c.wpad * c.wpad / 2) as usize,
        bsb: (c.wpad * c.hd_pad / 2) as usize,
        bsc: (c.wpad * c.hd_pad) as usize,
        batch: c.blocks,
    }
}

/// The attention of one layer, from window blocks to token rows.
pub open spec fn attention_ops(e: GpuAudioEncoder, c: Clip, slot: int) -> Seq<EncOp> {
    gemm_ops(
        Pipe::GemmT,
        EncBuf::Qp,
        EncBuf::Kt,
        EncBuf::Scores,
        None,
        slot,
        score_shape(e, c),
        1,
        1,
    ) + seq![
        EncOp::Write { buf: EncBuf::USm, offset: 0, data: softmax_uniform(c) },
        EncOp::Run {
            pipe: Pipe::Softmax,
            group: EncGroup::Softmax,
            x: (c.wpad / 128) as u32,
            y: c.blocks as u32,
            z: 1,
        },
    ] + gemm_ops(
        Pipe::GemmT,
        EncBuf::Attn,
        EncBuf::Vp,
        EncBuf::AttnOut,
        None,
        slot + 1,
        value_shape(c),
        1,
        1,
    ) + seq![
        EncOp::Write { buf: EncBuf::UCp, offset: 0, data: compress_uniform(e, c) },
        EncOp::Run {
            pipe: Pipe::AttnFlat,
            group: EncGroup::AttnFlat,
            x: ceil_div(c.s_pad * e.attn_cols / 2, 256) as u32,
            y: 1,
            z: 1,
        },
    ]
}

/// The wait and the read between the halves of a captured first layer.
pub open spec fn mid_ops(e: GpuAudioEncoder, c: Clip, on: bool) -> Seq<EncOp> {
    if on {
        seq![
            EncOp::Submit(Stage::Mid),
            EncOp::Read { buf: EncBuf::H, bytes: (c.s_pad * e.d_model * 2) as u64, shot: Shot::Mid },
        ]
    } else {
        Seq::empty()
    }
}

/// GEMM slots of one layer.
pub const LAYER_GEMMS: usize = 6;

/// One transformer layer, its GEMMs in the slots from `6 * li` on.
pub open spec fn layer_ops(e: GpuAudioEncoder, c: Clip, li: usize, capture: bool) -> Seq<EncOp> {
    let l = e.layers@[li as int];
    let slot = li * 6;
    norm_ops(e, EncBuf::H, EncBuf::SlnW(li), EncBuf::SlnB(li), EncBuf::Normed, c.s) + linear_ops(
        EncBuf::Normed,
        EncBuf::QkvW(li),
        EncBuf::Qkv,
        Some(EncBuf::QkvB(li)),
        slot,
        c.s,
        l.qkv.n_pad,
        l.qkv.k,
        l.qkv.n_pad,
    ) + split_ops(e, c) + attention_ops(e, c, slot + 1) + residual_ops(
        EncBuf::AttnFlat,
        EncBuf::OW(li),
        EncBuf::H,
        Some(EncBuf::OB(li)),
        slot + 3,
        c.s,
        l.o.n_pad,
        l.o.k,
        e.d_model,
    ) + mid_ops(e, c, capture && li == 0) + norm_ops(
        e,
        EncBuf::H,
        EncBuf::FlnW(li),
        EncBuf::FlnB(li),
        EncBuf::Norm2,
        c.s,
    ) + linear_ops(
        EncBuf::Norm2,
        EncBuf::Fc1W(li),
        EncBuf::Gu,
        None,
        slot + 4,
        c.s,
        l.fc1.n_pad,
        l.fc1.k,
        l.fc1.n_pad,
    ) + gelu_ops(
        EncBuf::Gu,
        EncBuf::Fc1B(li),
        EncBuf::Gact,
        3,
        c.s_pad * l.fc1.n_pad,
        l.fc1.n_pad as int / 2,
        false,
    ) + residual_ops(
        EncBuf::Gact,
        EncBuf::Fc2W(li),
        EncBuf::H,
        Some(EncBuf::Fc2B(li)),
        slot + 5,
        c.s,
        l.fc2.n_pad,
        l.fc2.k,
        e.d_model,
    )
}

/// A read of `elems` half-width elements.
pub open spec fn read_elems(buf: EncBuf, elems: int, shot: Shot) -> EncOp {
    EncOp::Read { buf, bytes: (elems * 2) as u64, shot }
}

/// The reads of the first layer's attention.
pub open spec fn attention_reads(e: GpuAudioEncoder, c: Clip) -> Seq<EncOp> {
    seq![
        read_elems(EncBuf::Q, c.s_pad * e.attn_cols, Shot::Q),
        read_elems(EncBuf::K, c.s_pad * e.attn_cols, Shot::K),
        read_elems(EncBuf::V, c.s_pad * e.attn_cols, Shot::V),
        read_elems(EncBuf::Scores, c.blocks * c.wpad * c.wpad, Shot::Scores),
        read_elems(EncBuf::Attn, c.blocks * c.wpad * c.wpad, Shot::Probs),
        read_elems(EncBuf::AttnOut, c.blocks * c.wpad * c.hd_pad, Shot::AttnOut),
        read_elems(EncBuf::Qp, c.blocks * c.wpad * e.hd, Shot::Qp),
        read_elems(EncBuf::Kt, c.blocks * e.hd * c.wpad, Shot::Kt),
        read_elems(EncBuf::Vp, c.blocks * c.wpad * c.hd_pad, Shot::Vp),
        read_elems(EncBuf::Normed, c.s * e.d_model, Shot::Normed),
        read_elems(EncBuf::Qkv, c.s * c.qkv_cols, Shot::Qkv),
        read_elems(EncBuf::AttnFlat, c.s * e.attn_cols, Shot::AttnFlat),
    ]
}

/// What follows a layer: a captured one is submitted and read, and otherwise
/// every sixth is submitted, unless it is the last.
pub open spec fn layer_end(e: GpuAudioEncoder, c: Clip, li: int, capture: bool) -> Seq<EncOp> {
    if capture {
        seq![
            EncOp::Submit(Stage::Layer(li as usize)),
            read_elems(EncBuf::H, c.s_pad * e.d_model, Shot::Layer(li as usize)),
        ] + if li == 0 {
            attention_reads(e, c)
        } else {
            Seq::empty()
        }
    } else if (li + 1) % 6 == 0 && li + 1 < e.layers@.len() {
        seq![EncOp::Submit(Stage::Layer(li as usize))]
    } else {
        Seq::empty()
    }
}

/// The first `n` layers.
pub open spec fn layers_ops(e: GpuAudioEncoder, c: Clip, n: nat, capture: bool) -> Seq<EncOp>
    decreases n,
{
    if n == 0 {
        Seq::empty()
    } else {
        layers_ops(e, c, (n - 1) as nat, capture) + layer_ops(e, c, (n - 1) as usize, capture) + layer_end(
            e,
            c,
            n - 1,
            capture,
        )
    }
}

/// The final norm and the projector.
pub open spec fn project_ops(e: GpuAudioEncoder, c: Clip) -> Seq<EncOp> {
    let slot = e.layers@.len() as int * 6;
    norm_ops(e, EncBuf::H, EncBuf::LnPostW, EncBuf::LnPostB, EncBuf::Normed, c.s) + linear_ops(
        EncBuf::Normed,
        EncBuf::Proj1W,
        EncBuf::Gu,
        None,
        slot,
        c.s,
        e.proj1.n_pad,
        e.proj1.k,
        e.proj1.n_pad,
    ) + gelu_ops(
        EncBuf::Gu,
        EncBuf::Proj1B,
        EncBuf::Gact,
        4,
        c.s_pad * e.proj1.n_pad,
        e.proj1.n_pad as int / 2,
        false,
    ) + linear_ops(
        EncBuf::Gact,
        EncBuf::Proj2W,
        EncBuf::Out,
        Some(EncBuf::Proj2B),
        slot + 1,
        c.s,
        e.proj2.n_pad,
        e.proj2.k,
        e.proj2.n_pad,
    )
}

/// How the pass ends: with the embeddings of the clip's tokens read back, the
/// padding rows left behind.
pub open spec fn finish_ops(e: GpuAudioEncoder, c: Clip, capture: bool) -> Seq<EncOp> {
    seq![EncOp::Submit(Stage::Last)] + (if capture {
        seq![read_elems(EncBuf::Packed, c.s_pad * c.cf, Shot::Packed)]
    } else {
        Seq::empty()
    }) + seq![read_elems(EncBuf::Out, c.s * e.out_dim, Shot::Embeds)]
}

/// The settings of the clip-sized bias-and-GELU passes.
pub open spec fn scale_writes(e: GpuAudioEncoder, c: Clip) -> Seq<EncOp> {
    seq![
        EncOp::Write {
            buf: EncBuf::USc(3),
            offset: 0,
            data: scale(c.s_pad * e.layers@[0].fc1.n_pad, e.layers@[0].fc1.n_pad as int / 2, false),
        },
        EncOp::Write {
            buf: EncBuf::USc(4),
            offset: 0,
            data: scale(c.s_pad * e.proj1.n_pad, e.proj1.n_pad as int / 2, false),
        },
    ]
}

/// The whole pass.
pub open spec fn encode_ops(e: GpuAudioEncoder, c: Clip, capture: bool) -> Seq<EncOp> {
    scale_writes(e, c) + rounds_ops(e, c, ceil_div(c.n_chunks as int, 8) as nat, capture) + conv_out_ops(e, c, capture)
        + layers_ops(e, c, e.layers@.len() as nat, capture) + project_ops(e, c) + finish_ops(e, c, capture)
}

/// The packed mel holds every frame of the clip: frame `f` of bin `m` is frame
/// `f % cs` of that bin in chunk `f / cs`.
pub proof fn law_mel_keeps_frames<T>(
    mel: Seq<T>,
    n_mels: int,
    n_frames: int,
    cs: int,
    w0: int,
    n_chunks: int,
    zero: T,
    m: int,
    f: int,
)
    requires
        1 <= cs <= w0,
        0 <= m < n_mels,
        0 <= f < n_frames,
        n_chunks * cs >= n_frames,
    ensures
        ({
            let at = ((f / cs) * n_mels + m) * w0 + f % cs;
            let p = packed_mel(mel, n_mels, n_frames, cs, w0, n_chunks, zero);
            0 <= at < p.len() && p[at] == mel[m * n_frames + f]
        }),
{
    let i = f / cs;
    let r = f % cs;
    assert(f == i * cs + r && 0 <= r < cs && 0 <= i) by (nonlinear_arith)
        requires
            i == f / cs,
            r == f % cs,
            f >= 0,
            cs >= 1,
    ;
    lemma_mel_index(i, n_mels, m, w0, r);
    let q = n_frames / cs;
    let t = n_frames % cs;
    assert(n_frames == q * cs + t && 0 <= t < cs) by (nonlinear_arith)
        requires
            q == n_frames / cs,
            t == n_frames % cs,
            cs >= 1,
    ;
    assert(i <= q && (i == q ==> r < t)) by (nonlinear_arith)
        requires
            f == i * cs + r,
            n_frames == q * cs + t,
            f < n_frames,
            0 <= r < cs,
            0 <= t < cs,
    ;
    assert(i < n_chunks) by (nonlinear_arith)
        requires
            f == i * cs + r,
            f < n_frames,
            n_frames <= n_chunks * cs,
            0 <= r,
            cs >= 1,
    ;
    let at = (i * n_mels + m) * w0 + r;
    assert(0 <= at < n_chunks * n_mels * w0) by (nonlinear_arith)
        requires
            at == (i * n_mels + m) * w0 + r,
            0 <= i < n_chunks,
            0 <= m < n_mels,
            0 <= r < w0,
    {
        assert(i * n_mels + m + 1 <= n_chunks * n_mels) by (nonlinear_arith)
            requires
                0 <= i < n_chunks,
                0 <= m < n_mels,
        ;
        let k = i * n_mels + m;
        assert(k >= 0) by (nonlinear_arith)
            requires
                k == i * n_mels + m,
                i >= 0,
                m >= 0,
                n_mels >= 0,
        ;
        assert((k + 1) * w0 <= n_chunks * n_mels * w0) by (nonlinear_arith)
            requires
                k + 1 <= n_chunks * n_mels,
                w0 >= 1,
        ;
        assert((k + 1) * w0 == k * w0 + w0) by (nonlinear_arith);
        assert(k * w0 >= 0) by (nonlinear_arith)
            requires
                k >= 0,
                w0 >= 1,
        ;
    }
}

/// What lies behind the frames of a chunk is zero, so that the last chunk ends
/// where the clip ends.
pub proof fn law_mel_padded<T>(
    mel: Seq<T>,
    n_mels: int,
    n_frames: int,
    cs: int,
    w0: int,
    n_chunks: int,
    zero: T,
    i: int,
    m: int,
    col: int,
)
    requires
        1 <= cs <= w0,
        0 <= m < n_mels,
        0 <= i <= n_frames / cs,
        0 <= col < w0,
        col >= cs || i * cs + col >= n_frames,
        n_frames >= 0,
        0 <= (i * n_mels + m) * w0 + col < n_chunks * n_mels * w0,
    ensures
        packed_mel(mel, n_mels, n_frames, cs, w0, n_chunks, zero)[(i * n_mels + m) * w0 + col] == zero,
{
    lemma_mel_index(i, n_mels, m, w0, col);
    let q = n_frames / cs;
    let t = n_frames % cs;
    assert(n_frames == q * cs + t && 0 <= t < cs) by (nonlinear_arith)
        requires
            q == n_frames / cs,
            t == n_frames % cs,
            cs >= 1,
    ;
    if i < q {
        assert(i * cs + cs <= q * cs) by (nonlinear_arith)
            requires
                i < q,
                cs >= 1,
        ;
    }
}

/// The geometry of a clip: its windows hold every token, the last of them at least
/// one; its rows are padded to the next whole tile; every head has a block for
/// every window; and its tokens are those of all chunks, the last chunk being as
/// short as the clip leaves it.
pub proof fn law_clip_geometry(e: GpuAudioEncoder, n_frames: int, scale_bits: u32)
    requires
        e.wf(),
        0 < n_frames <= usize::MAX,
        e.tokens(n_frames) <= MAX_TOKENS,
        e.nh * ceil_div(e.tokens(n_frames), e.wlen()) <= usize::MAX,
    ensures
        ({
            let c = e.clip_of(n_frames, scale_bits);
            &&& c.s == e.tokens(n_frames) && 1 <= c.s
            &&& (c.n_win - 1) * c.wlen < c.s <= c.n_win * c.wlen
            &&& c.wlen == e.wlen() && c.wlen <= c.wpad < c.wlen + 128 && c.wpad as int % 128 == 0
            &&& c.s <= c.s_pad < c.s + 128 && c.s_pad as int % 128 == 0 && c.s_pad == align_up(c.s as int, 128)
            &&& c.blocks == e.nh * c.n_win
            &&& (c.n_chunks - 1) * e.tpc < c.s <= c.n_chunks * e.tpc
            &&& (c.n_chunks - 1) * e.cs < n_frames <= c.n_chunks * e.cs
            &&& c.scale_bits == scale_bits
            &&& c.cf == e.conv_out.k
        }),
{
    let cs = e.cs as int;
    let tpc = e.tpc as int;
    lemma_frames(n_frames, cs, tpc);
    law_token_len(cs);
    let q = n_frames / cs;
    let t = n_frames % cs;
    if t > 0 {
        law_token_len(t);
        lemma_tokens_grow(t, cs);
    }
    let s = e.tokens(n_frames);
    lemma_align_bounds(s, 128);
    lemma_align_bounds(e.wlen(), 128);
    lemma_align_bounds(s, e.wlen());
    let n = ceil_div(s, e.wlen());
    let w = e.wlen();
    assert((n - 1) * w == n * w - w) by (nonlinear_arith);
    assert((q + 1) * tpc == q * tpc + tpc && (q - 1) * tpc == q * tpc - tpc) by (nonlinear_arith);
    assert((q + 1) * cs == q * cs + cs && (q - 1) * cs == q * cs - cs) by (nonlinear_arith);
}

proof fn lemma_tokens_grow(a: int, b: int)
    requires
        1 <= a <= b,
    ensures
        token_len(a) <= token_len(b),
{
}

} // verus!
