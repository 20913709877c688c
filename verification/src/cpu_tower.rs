//! The host audio tower: geometry, checks and data movement. Elements are moved,
//! never computed on, so their type does not matter.
use vstd::prelude::*;

use crate::config::AudioEncoderConfig;
use crate::encoder::GpuAudioEncoder;
use crate::encoder_plan::{lemma_frames, pack_mel, packed_mel};
use crate::geometry::{
    conv_len, conv_out_len, feo, feo_positions, law_token_len, tap_table, tap_value, token_len, TAP_OOB,
};

verus! {

/// The shape of a weight matrix.
#[derive(Clone, Copy, Debug, PartialEq, Eq, Structural)]
pub struct MatrixShape {
    pub rows: usize,
    pub cols: usize,
}

/// The shapes of the host tower's conv stem.
#[derive(Clone, Copy, Debug, PartialEq, Eq, Structural)]
pub struct CpuAudioEncoder {
    pub c1: MatrixShape,
    pub c2: MatrixShape,
    pub c3: MatrixShape,
    pub conv_out: MatrixShape,
    pub layers: usize,
    pub config: AudioEncoderConfig,
}

/// Which check of the host tower fails.
#[derive(Clone, Copy, Debug, PartialEq, Eq, Structural)]
pub enum TowerError {
    /// The projection's depth is not channels times positions.
    ConvOutDepth { k: usize, c: usize, f: usize },
    Level { level: usize },
    PackedTooShort,
    Layer { layer: usize },
}

/// Element `j` of the gathered operand of a convolution: column by column, a
/// column holding the nine taps of every channel at one position.
pub open spec fn gathered<T>(x: Seq<T>, c_in: int, h: int, w: int, zero: T, j: int) -> T {
    let h_out = conv_len(h);
    let w_out = conv_len(w);
    let k = c_in * 9;
    let col = j / k;
    let at = j % k;
    let ib = col / (h_out * w_out);
    let rem = col % (h_out * w_out);
    let ih = rem / w_out * 2 + at % 9 / 3 - 1;
    let iw = rem % w_out * 2 + at % 3 - 1;
    if 0 <= ih < h && 0 <= iw < w {
        x[((ib * c_in + at / 9) * h + ih) * w + iw]
    } else {
        zero
    }
}

/// The tap at offset `(kh, kw)` of a position.
pub open spec fn tap<T>(x: Seq<T>, c_in: int, h: int, w: int, zero: T, ib: int, ho: int, wo: int, ic: int, kh: int, kw: int) -> T {
    let ih = ho * 2 + kh - 1;
    let iw = wo * 2 + kw - 1;
    if 0 <= ih < h && 0 <= iw < w {
        x[((ib * c_in + ic) * h + ih) * w + iw]
    } else {
        zero
    }
}

proof fn lemma_div_mod(q: int, d: int, r: int)
    requires
        0 <= r < d,
    ensures
        (q * d + r) / d == q,
        (q * d + r) % d == r,
{
    vstd::arithmetic::div_mod::lemma_fundamental_div_mod_converse(q * d + r, d, q, r);
}

/// The position of a tap in the operand says which tap it is.
proof fn lemma_gathered<T>(
    x: Seq<T>,
    c_in: int,
    h: int,
    w: int,
    zero: T,
    ib: int,
    ho: int,
    wo: int,
    ic: int,
    kh: int,
    kw: int,
)
    requires
        h >= 1,
        w >= 1,
        0 <= ib,
        0 <= ho < conv_len(h),
        0 <= wo < conv_len(w),
        0 <= ic < c_in,
        0 <= kh < 3,
        0 <= kw < 3,
    ensures
        gathered(
            x,
            c_in,
            h,
            w,
            zero,
            ((ib * (conv_len(h) * conv_len(w)) + (ho * conv_len(w) + wo)) * (c_in * 9)) + (ic * 9 + kh * 3 + kw),
        ) == tap(x, c_in, h, w, zero, ib, ho, wo, ic, kh, kw),
{
    let h_out = conv_len(h);
    let w_out = conv_len(w);
    let p = h_out * w_out;
    let col = ib * p + (ho * w_out + wo);
    let at = ic * 9 + kh * 3 + kw;
    assert(0 <= ho * w_out + wo < p) by (nonlinear_arith)
        requires
            0 <= ho < h_out,
            0 <= wo < w_out,
            p == h_out * w_out,
    ;
    lemma_div_mod(col, c_in * 9, at);
    lemma_div_mod(ib, p, ho * w_out + wo);
    lemma_div_mod(ho, w_out, wo);
    lemma_div_mod(ic, 9, kh * 3 + kw);
}

/// The gathered operand and the tap table agree: tap `t` of channel `ic` at
/// position `p` of image `ib` is what the table's offset points at in that
/// channel's plane, and nought where the table says that it lies outside.
pub proof fn law_taps_agree<T>(
    x: Seq<T>,
    c_in: int,
    h: int,
    w: int,
    zero: T,
    ib: int,
    p: int,
    ic: int,
    t: int,
)
    requires
        h >= 1,
        w >= 1,
        h * w <= TAP_OOB,
        0 <= ib,
        0 <= p < conv_len(h) * conv_len(w),
        0 <= ic < c_in,
        0 <= t < 9,
    ensures
        ({
            let plane = conv_len(h) * conv_len(w);
            let off = tap_table(h, w, w)[p * 9 + t];
            gathered(x, c_in, h, w, zero, (ib * plane + p) * 9 * c_in + ic * 9 + t) == if off == TAP_OOB {
                zero
            } else {
                x[(ib * c_in + ic) * h * w + off]
            }
        }),
{
    let h_out = conv_len(h);
    let w_out = conv_len(w);
    let plane = h_out * w_out;
    let ho = p / w_out;
    let wo = p % w_out;
    let kh = t / 3;
    let kw = t % 3;
    assert(p == ho * w_out + wo && 0 <= wo < w_out) by {
        vstd::arithmetic::div_mod::lemma_fundamental_div_mod(p, w_out);
        assert(w_out * ho == ho * w_out) by (nonlinear_arith);
    }
    assert(0 <= ho < h_out) by (nonlinear_arith)
        requires
            0 <= p < h_out * w_out,
            ho == p / w_out,
            w_out > 0,
    ;
    lemma_gathered(x, c_in, h, w, zero, ib, ho, wo, ic, kh, kw);
    assert((ib * plane + p) * 9 * c_in == (ib * plane + p) * (c_in * 9)) by (nonlinear_arith);
    assert(p * 9 + t < plane * 9);
    assert(tap_table(h, w, w)[p * 9 + t] == tap_value(h, w, w, ho, wo, kh, kw));
    let ih = ho * 2 + kh - 1;
    let iw = wo * 2 + kw - 1;
    if 0 <= ih < h && 0 <= iw < w {
        assert(0 <= ih * w + iw < h * w) by (nonlinear_arith)
            requires
                0 <= ih < h,
                0 <= iw < w,
        ;
        let n = ib * c_in + ic;
        assert((n * h + ih) * w + iw == n * h * w + (ih * w + iw)) by (nonlinear_arith);
    }
}

/// Gathers the operand of a convolution of width 3, stride 2, padding 1 over `b`
/// images of `c_in` channels. Returns it with the output plane.
pub fn im2col_3x3_s2p1<T: Copy>(x: &[T], b: usize, c_in: usize, h: usize, w: usize, zero: T) -> (r: (
    Vec<T>,
    usize,
    usize,
))
    requires
        1 <= h < usize::MAX / 4,
        1 <= w < usize::MAX / 4,
        c_in >= 1,
        x@.len() == b * c_in * h * w,
        b * (conv_len(h as int) * conv_len(w as int)) * (c_in * 9) <= usize::MAX,
    ensures
        r.1 == conv_len(h as int),
        r.2 == conv_len(w as int),
        r.0@ == Seq::new(
            (b * (conv_len(h as int) * conv_len(w as int)) * (c_in * 9)) as nat,
            |j: int| gathered(x@, c_in as int, h as int, w as int, zero, j),
        ),
{
    let _n: usize = x.len();
    let h_out: usize = conv_out_len(h);
    let w_out: usize = conv_out_len(w);
    let ghost p = h_out as int * w_out as int;
    let ghost k = c_in as int * 9;
    let mut out: Vec<T> = Vec::new();
    proof {
        assert(0 * p * k == 0) by (nonlinear_arith);
    }
    for ib in 0..b
        invariant
            1 <= h < usize::MAX / 4,
            1 <= w < usize::MAX / 4,
            c_in >= 1,
            h_out == conv_len(h as int),
            w_out == conv_len(w as int),
            p == h_out as int * w_out as int,
            k == c_in as int * 9,
            x@.len() == b * c_in * h * w,
            x@.len() <= usize::MAX,
            out@.len() == ib * p * k,
            forall|j: int|
                0 <= j < out@.len() ==> #[trigger] out@[j] == gathered(x@, c_in as int, h as int, w as int, zero, j),
    {
        proof {
            assert((ib * p + 0 * w_out) * k == ib * p * k) by (nonlinear_arith);
        }
        for ho in 0..h_out
            invariant
                ib < b,
                1 <= h < usize::MAX / 4,
                1 <= w < usize::MAX / 4,
                c_in >= 1,
                h_out == conv_len(h as int),
                w_out == conv_len(w as int),
                p == h_out as int * w_out as int,
                k == c_in as int * 9,
                x@.len() == b * c_in * h * w,
                x@.len() <= usize::MAX,
                out@.len() == (ib * p + ho * w_out) * k,
                forall|j: int|
                    0 <= j < out@.len() ==> #[trigger] out@[j] == gathered(
                        x@,
                        c_in as int,
                        h as int,
                        w as int,
                        zero,
                        j,
                    ),
        {
            for wo in 0..w_out
                invariant
                    ib < b,
                    ho < h_out,
                    1 <= h < usize::MAX / 4,
                    1 <= w < usize::MAX / 4,
                    c_in >= 1,
                    h_out == conv_len(h as int),
                    w_out == conv_len(w as int),
                    p == h_out as int * w_out as int,
                    k == c_in as int * 9,
                    x@.len() == b * c_in * h * w,
                    x@.len() <= usize::MAX,
                    out@.len() == (ib * p + (ho * w_out + wo)) * k,
                    forall|j: int|
                        0 <= j < out@.len() ==> #[trigger] out@[j] == gathered(
                            x@,
                            c_in as int,
                            h as int,
                            w as int,
                            zero,
                            j,
                        ),
            {
                push_column(&mut out, x, b, c_in, h, w, zero, ib, ho, wo);
                proof {
                    assert((ib * p + (ho * w_out + wo)) * k + k == (ib * p + (ho * w_out + (wo + 1))) * k)
                        by (nonlinear_arith);
                }
            }
            proof {
                assert(ho * w_out + w_out == (ho + 1) * w_out) by (nonlinear_arith);
            }
        }
        proof {
            assert(ib * p + h_out * w_out == (ib + 1) * p) by (nonlinear_arith)
                requires
                    p == h_out * w_out,
            ;
        }
    }
    (out, h_out, w_out)
}

/// Appends the column of one position.
fn push_column<T: Copy>(
    out: &mut Vec<T>,
    x: &[T],
    b: usize,
    c_in: usize,
    h: usize,
    w: usize,
    zero: T,
    ib: usize,
    ho: usize,
    wo: usize,
)
    requires
        ib < b,
        1 <= h < usize::MAX / 4,
        1 <= w < usize::MAX / 4,
        c_in >= 1,
        ho < conv_len(h as int),
        wo < conv_len(w as int),
        x@.len() == b * c_in * h * w,
        x@.len() <= usize::MAX,
        old(out)@.len() == (ib * (conv_len(h as int) * conv_len(w as int)) + (ho * conv_len(w as int) + wo)) * (c_in
            * 9),
        forall|j: int|
            0 <= j < old(out)@.len() ==> #[trigger] old(out)@[j] == gathered(
                x@,
                c_in as int,
                h as int,
                w as int,
                zero,
                j,
            ),
    ensures
        final(out)@.len() == old(out)@.len() + c_in * 9,
        forall|j: int|
            0 <= j < final(out)@.len() ==> #[trigger] final(out)@[j] == gathered(
                x@,
                c_in as int,
                h as int,
                w as int,
                zero,
                j,
            ),
{
    let ghost base = out@.len() as int;
    for ic in 0..c_in
        invariant
            ib < b,
            1 <= h < usize::MAX / 4,
            1 <= w < usize::MAX / 4,
            c_in >= 1,
            ho < conv_len(h as int),
            wo < conv_len(w as int),
            x@.len() == b * c_in * h * w,
            x@.len() <= usize::MAX,
            base == (ib * (conv_len(h as int) * conv_len(w as int)) + (ho * conv_len(w as int) + wo)) * (c_in * 9),
            out@.len() == base + ic * 9,
            forall|j: int|
                0 <= j < out@.len() ==> #[trigger] out@[j] == gathered(x@, c_in as int, h as int, w as int, zero, j),
    {
        for kh in 0..3usize
            invariant
                ib < b,
                ic < c_in,
                1 <= h < usize::MAX / 4,
                1 <= w < usize::MAX / 4,
                ho < conv_len(h as int),
                wo < conv_len(w as int),
                x@.len() == b * c_in * h * w,
                x@.len() <= usize::MAX,
                base == (ib * (conv_len(h as int) * conv_len(w as int)) + (ho * conv_len(w as int) + wo)) * (c_in * 9),
                out@.len() == base + ic * 9 + kh * 3,
                forall|j: int|
                    0 <= j < out@.len() ==> #[trigger] out@[j] == gathered(
                        x@,
                        c_in as int,
                        h as int,
                        w as int,
                        zero,
                        j,
                    ),
        {
            for kw in 0..3usize
                invariant
                    ib < b,
                    ic < c_in,
                    kh < 3,
                    1 <= h < usize::MAX / 4,
                    1 <= w < usize::MAX / 4,
                    ho < conv_len(h as int),
                    wo < conv_len(w as int),
                    x@.len() == b * c_in * h * w,
                    x@.len() <= usize::MAX,
                    base == (ib * (conv_len(h as int) * conv_len(w as int)) + (ho * conv_len(w as int) + wo)) * (c_in
                        * 9),
                    out@.len() == base + ic * 9 + kh * 3 + kw,
                    forall|j: int|
                        0 <= j < out@.len() ==> #[trigger] out@[j] == gathered(
                            x@,
                            c_in as int,
                            h as int,
                            w as int,
                            zero,
                            j,
                        ),
            {
                let ih1: usize = ho * 2 + kh;
                let iw1: usize = wo * 2 + kw;
                let v: T = if ih1 == 0 || ih1 > h || iw1 == 0 || iw1 > w {
                    zero
                } else {
                    proof {
                        lemma_inside(
                            b as int,
                            c_in as int,
                            h as int,
                            w as int,
                            ib as int,
                            ic as int,
                            ih1 - 1,
                            iw1 - 1,
                        );
                    }
                    x[((ib * c_in + ic) * h + (ih1 - 1)) * w + (iw1 - 1)]
                };
                proof {
                    lemma_gathered(
                        x@,
                        c_in as int,
                        h as int,
                        w as int,
                        zero,
                        ib as int,
                        ho as int,
                        wo as int,
                        ic as int,
                        kh as int,
                        kw as int,
                    );
                }
                out.push(v);
            }
        }
    }
}

proof fn lemma_inside(b: int, c: int, h: int, w: int, ib: int, ic: int, ih: int, iw: int)
    requires
        0 <= ib < b,
        0 <= ic < c,
        0 <= ih < h,
        0 <= iw < w,
    ensures
        0 <= ib * c,
        ib * c + ic < b * c,
        0 <= (ib * c + ic) * h,
        (ib * c + ic) * h + ih < b * c * h,
        0 <= ((ib * c + ic) * h + ih) * w,
        ((ib * c + ic) * h + ih) * w + iw < b * c * h * w,
        b * c <= b * c * h * w,
        b * c * h <= b * c * h * w,
{
    assert(0 <= ib * c && ib * c + c <= b * c) by (nonlinear_arith)
        requires
            0 <= ib < b,
            c >= 0,
    ;
    let u = ib * c + ic;
    assert(0 <= u * h && u * h + h <= (b * c) * h) by (nonlinear_arith)
        requires
            0 <= u < b * c,
            h >= 0,
    ;
    let v = u * h + ih;
    assert(0 <= v * w && v * w + w <= (b * c * h) * w) by (nonlinear_arith)
        requires
            0 <= v < b * c * h,
            w >= 0,
    ;
    assert(b * c <= b * c * h) by (nonlinear_arith)
        requires
            b * c >= 0,
            h >= 1,
    ;
    assert(b * c * h <= b * c * h * w) by (nonlinear_arith)
        requires
            b * c * h >= 0,
            w >= 1,
    ;
}

/// Tokens of chunk `i` of a clip.
pub open spec fn chunk_tokens(n_frames: int, cs: int, i: int) -> int {
    if i < n_frames / cs {
        token_len(cs)
    } else {
        token_len(n_frames % cs)
    }
}

/// Tokens of the first `n` chunks.
pub open spec fn tokens_upto(n_frames: int, cs: int, n: nat) -> int
    decreases n,
{
    if n == 0 {
        0
    } else {
        tokens_upto(n_frames, cs, (n - 1) as nat) + chunk_tokens(n_frames, cs, n - 1)
    }
}

/// Chunks of a clip.
pub open spec fn chunk_count(n_frames: int, cs: int) -> int {
    n_frames / cs + if n_frames % cs > 0 {
        1int
    } else {
        0int
    }
}

/// A chunked clip.
pub struct Chunked<T> {
    /// `[chunk][bin][frame]`, the last chunk padded.
    pub mel: Vec<T>,
    pub n_chunks: usize,
    /// Tokens of every chunk.
    pub tokens: Vec<usize>,
    pub n_total: usize,
}

proof fn lemma_tokens_upto(n_frames: int, cs: int, n: nat)
    requires
        n_frames >= 0,
        cs >= 1,
        n <= chunk_count(n_frames, cs),
    ensures
        0 <= tokens_upto(n_frames, cs, n) <= n_frames,
        n <= n_frames / cs ==> tokens_upto(n_frames, cs, n) == n * token_len(cs),
        n > 0 ==> chunk_tokens(n_frames, cs, n - 1) >= 1,
    decreases n,
{
    lemma_frames(n_frames, cs, token_len(cs));
    law_token_len(cs);
    if n > 0 {
        let m = (n - 1) as nat;
        lemma_tokens_upto(n_frames, cs, m);
        assert(m * token_len(cs) + token_len(cs) == n * token_len(cs)) by (nonlinear_arith)
            requires
                n == m + 1,
        ;
        assert(n * token_len(cs) <= n * cs) by (nonlinear_arith)
            requires
                token_len(cs) <= cs,
                n >= 0,
        ;
        if n <= n_frames / cs {
            assert(n * cs <= n_frames / cs * cs) by (nonlinear_arith)
                requires
                    n <= n_frames / cs,
                    cs >= 0,
            ;
        } else {
            law_token_len(n_frames % cs);
        }
    } else {
        assert(0 * token_len(cs) == 0) by (nonlinear_arith);
    }
}

impl CpuAudioEncoder {
    /// Frames of a full chunk.
    pub open spec fn chunk(self) -> int {
        self.config.n_window * 2
    }

    /// The configuration can be run.
    pub open spec fn wf(self) -> bool {
        1 <= self.config.n_window && self.chunk() <= usize::MAX / 4
    }

    /// Cuts a clip into chunks and counts their tokens.
    pub fn chunk_mel<T: Copy>(&self, mel: &[T], n_mels: usize, n_frames: usize, zero: T) -> (r: Chunked<T>)
        requires
            self.wf(),
            n_mels >= 1,
            n_mels * n_frames <= mel@.len(),
            chunk_count(n_frames as int, self.chunk()) * n_mels * self.chunk() <= usize::MAX,
        ensures
            r.n_chunks == chunk_count(n_frames as int, self.chunk()),
            r.mel@ == packed_mel(
                mel@,
                n_mels as int,
                n_frames as int,
                self.chunk(),
                self.chunk(),
                r.n_chunks as int,
                zero,
            ),
            r.tokens@ == Seq::new(
                r.n_chunks as nat,
                |i: int| chunk_tokens(n_frames as int, self.chunk(), i) as usize,
            ),
            r.n_total == tokens_upto(n_frames as int, self.chunk(), r.n_chunks as nat),
    {
        let cs: usize = self.config.n_window * 2;
        let nfull: usize = n_frames / cs;
        let tail: usize = n_frames % cs;
        proof {
            lemma_frames(n_frames as int, cs as int, token_len(cs as int));
        }
        let n_chunks: usize = if tail > 0 {
            nfull + 1
        } else {
            nfull
        };
        let mut tokens: Vec<usize> = Vec::new();
        let mut n_total: usize = 0;
        for i in 0..n_chunks
            invariant
                cs >= 1,
                nfull == n_frames as int / cs as int,
                tail == n_frames as int % cs as int,
                n_chunks == chunk_count(n_frames as int, cs as int),
                tokens@.len() == i,
                forall|k: int| 0 <= k < i ==> tokens@[k] == chunk_tokens(n_frames as int, cs as int, k) as usize,
                n_total == tokens_upto(n_frames as int, cs as int, i as nat),
        {
            proof {
                lemma_tokens_upto(n_frames as int, cs as int, (i + 1) as nat);
                lemma_tokens_upto(n_frames as int, cs as int, i as nat);
            }
            let v: usize = if i < nfull {
                feo(cs)
            } else {
                feo(tail)
            };
            tokens.push(v);
            n_total = n_total + v;
        }
        let mel = pack_mel(mel, n_mels, n_frames, cs, cs, n_chunks, zero);
        Chunked { mel, n_chunks, tokens, n_total }
    }

    /// Channels and planes of the three conv levels over one full chunk of
    /// `n_mels` bins.
    pub fn conv_geometry(&self, n_mels: usize) -> (r: [usize; 9])
        requires
            self.wf(),
            1 <= n_mels <= usize::MAX / 4,
        ensures
            r@ == seq![
                self.c1.rows,
                conv_len(n_mels as int) as usize,
                conv_len(self.chunk()) as usize,
                self.c2.rows,
                conv_len(conv_len(n_mels as int)) as usize,
                conv_len(conv_len(self.chunk())) as usize,
                self.c3.rows,
                token_len(n_mels as int) as usize,
                token_len(self.chunk()) as usize,
            ],
    {
        let cs: usize = self.config.n_window * 2;
        let h1: usize = conv_out_len(n_mels);
        let w1: usize = conv_out_len(cs);
        let h2: usize = conv_out_len(h1);
        let w2: usize = conv_out_len(w1);
        let h3: usize = conv_out_len(h2);
        let w3: usize = conv_out_len(w2);
        let r: [usize; 9] = [self.c1.rows, h1, w1, self.c2.rows, h2, w2, self.c3.rows, h3, w3];
        assert(r@ =~= seq![self.c1.rows, h1, w1, self.c2.rows, h2, w2, self.c3.rows, h3, w3]);
        r
    }

    /// Input width of the conv projection.
    pub fn conv_out_in_features(&self) -> (r: usize)
        ensures
            r == self.conv_out.cols,
    {
        self.conv_out.cols
    }

    /// Checks the conv projection against the planes of `n_mels` bins.
    pub fn check_conv_out(&self, n_mels: usize) -> (r: Result<(), TowerError>)
        requires
            1 <= n_mels <= usize::MAX / 4,
            self.c3.rows * token_len(n_mels as int) <= usize::MAX,
        ensures
            r is Ok <==> self.conv_out.cols == self.c3.rows * token_len(n_mels as int),
            r matches Err(e) ==> e == (TowerError::ConvOutDepth {
                k: self.conv_out.cols,
                c: self.c3.rows,
                f: token_len(n_mels as int) as usize,
            }),
    {
        let f: usize = feo_positions(n_mels);
        if self.conv_out.cols == self.c3.rows * f {
            Ok(())
        } else {
            Err(TowerError::ConvOutDepth { k: self.conv_out.cols, c: self.c3.rows, f })
        }
    }

    /// The kernel of a conv level.
    pub fn conv_level(&self, level: usize) -> (r: Result<MatrixShape, TowerError>)
        ensures
            r == if level == 0 {
                Ok::<MatrixShape, TowerError>(self.c1)
            } else if level == 1 {
                Ok(self.c2)
            } else if level == 2 {
                Ok(self.c3)
            } else {
                Err(TowerError::Level { level })
            },
    {
        if level == 0 {
            Ok(self.c1)
        } else if level == 1 {
            Ok(self.c2)
        } else if level == 2 {
            Ok(self.c3)
        } else {
            Err(TowerError::Level { level })
        }
    }

    /// Checks that a packed operand has `n_tokens` rows.
    pub fn check_packed(&self, len: usize, n_tokens: usize) -> (r: Result<(), TowerError>)
        requires
            n_tokens * self.conv_out.cols <= usize::MAX,
        ensures
            r == if len >= n_tokens * self.conv_out.cols {
                Ok::<(), TowerError>(())
            } else {
                Err(TowerError::PackedTooShort)
            },
    {
        if len >= n_tokens * self.conv_out.cols {
            Ok(())
        } else {
            Err(TowerError::PackedTooShort)
        }
    }

    /// Checks a layer's number.
    pub fn check_layer(&self, li: usize) -> (r: Result<(), TowerError>)
        ensures
            r == if li < self.layers {
                Ok::<(), TowerError>(())
            } else {
                Err(TowerError::Layer { layer: li })
            },
    {
        if li < self.layers {
            Ok(())
        } else {
            Err(TowerError::Layer { layer: li })
        }
    }

    /// Where the position row of a token begins: positions repeat with every
    /// chunk.
    pub fn pe_row(&self, tok: usize) -> (r: usize)
        requires
            self.wf(),
            token_len(self.chunk()) * self.config.d_model <= usize::MAX,
        ensures
            r == position_row(tok as int, token_len(self.chunk()), self.config.d_model as int),
    {
        let tpc: usize = feo(self.config.n_window * 2);
        proof {
            law_token_len(self.chunk());
            let m = tok as int % tpc as int;
            assert(0 <= m * self.config.d_model <= tpc * self.config.d_model) by (nonlinear_arith)
                requires
                    0 <= m <= tpc,
            ;
        }
        (tok % tpc) * self.config.d_model
    }

    /// Tokens of an attention window.
    pub fn window(&self) -> (r: usize)
        requires
            self.wf(),
            token_len(self.chunk()) * (self.config.n_window_infer as int / self.chunk()) <= usize::MAX,
        ensures
            r == token_len(self.chunk()) * (self.config.n_window_infer as int / self.chunk()),
    {
        let cs: usize = self.config.n_window * 2;
        feo(cs) * (self.config.n_window_infer / cs)
    }
}

/// The pieces `[st, st + len)` that `s` is cut into, `w` at a time.
pub open spec fn cuts(s: int, w: int, st: int) -> Seq<(usize, usize)>
    decreases s - st,
{
    if w < 1 || st >= s || st < 0 {
        Seq::empty()
    } else {
        let len = if s - st < w {
            s - st
        } else {
            w
        };
        seq![(st as usize, len as usize)] + cuts(s, w, st + len)
    }
}

/// Cuts `s` into pieces of `w`, the last as short as it must be.
pub fn tiles(s: usize, w: usize) -> (r: Vec<(usize, usize)>)
    requires
        w >= 1,
    ensures
        r@ == cuts(s as int, w as int, 0),
{
    let mut r: Vec<(usize, usize)> = Vec::new();
    let mut st: usize = 0;
    assert(r@ + cuts(s as int, w as int, 0) =~= cuts(s as int, w as int, 0));
    while st < s
        invariant
            w >= 1,
            st <= s,
            r@ + cuts(s as int, w as int, st as int) == cuts(s as int, w as int, 0),
        decreases s - st,
    {
        let left: usize = s - st;
        let len: usize = if left < w {
            left
        } else {
            w
        };
        let ghost before = r@;
        r.push((st, len));
        assert(r@ + cuts(s as int, w as int, st + len) =~= before + cuts(s as int, w as int, st as int));
        st = st + len;
    }
    assert(cuts(s as int, w as int, st as int) =~= Seq::empty());
    assert(r@ + Seq::<(usize, usize)>::empty() =~= r@);
    r
}

/// The attention windows of `s` tokens: one over all of them, unless a window
/// that is shorter is asked for.
pub open spec fn attention_windows(s: int, ws: Option<usize>) -> Seq<(usize, usize)> {
    match ws {
        Some(w) => if 0 < w < s {
            cuts(s, w as int, 0)
        } else {
            seq![(0usize, s as usize)]
        },
        None => seq![(0usize, s as usize)],
    }
}

/// The attention windows of `s` tokens.
pub fn windows(s: usize, ws: Option<usize>) -> (r: Vec<(usize, usize)>)
    ensures
        r@ == attention_windows(s as int, ws),
{
    match ws {
        Some(w) => if 0 < w && w < s {
            return tiles(s, w);
        },
        None => {},
    }
    vec![(0, s)]
}

/// The pieces of a cut lie end to end and reach from the start to `s`: every
/// token is in exactly one.
pub proof fn law_cuts_partition(s: int, w: int, st: int, at: int)
    requires
        w >= 1,
        0 <= st <= at < s <= usize::MAX,
    ensures
        exists|i: int|
            0 <= i < cuts(s, w, st).len() && in_piece(#[trigger] cuts(s, w, st)[i], at),
        forall|i: int, j: int|
            0 <= i < cuts(s, w, st).len() && 0 <= j < cuts(s, w, st).len() && in_piece(
                #[trigger] cuts(s, w, st)[i],
                at,
            ) && in_piece(#[trigger] cuts(s, w, st)[j], at) ==> i == j,
    decreases s - st,
{
    let c = cuts(s, w, st);
    let n = if s - st < w {
        s - st
    } else {
        w
    };
    let rest = cuts(s, w, st + n);
    lemma_cuts_from(s, w, st + n);
    assert forall|i: int| 1 <= i < c.len() implies (#[trigger] c[i]).0 >= st + n by {
        assert(c[i] == rest[i - 1]);
    }
    if at < st + n {
        assert(in_piece(c[0], at));
    } else {
        law_cuts_partition(s, w, st + n, at);
        let i = choose|i: int| 0 <= i < rest.len() && in_piece(#[trigger] rest[i], at);
        assert(c[i + 1] == rest[i]);
        assert forall|i: int, j: int|
            0 <= i < c.len() && 0 <= j < c.len() && in_piece(#[trigger] c[i], at) && in_piece(
                #[trigger] c[j],
                at,
            ) implies i == j by {
            if i > 0 && j > 0 {
                assert(c[i] == rest[i - 1] && c[j] == rest[j - 1]);
            }
        }
    }
}

/// Token `at` is in a piece.
pub open spec fn in_piece(p: (usize, usize), at: int) -> bool {
    p.0 <= at < p.0 + p.1
}

proof fn lemma_cuts_from(s: int, w: int, st: int)
    requires
        w >= 1,
        0 <= st,
        s <= usize::MAX,
    ensures
        forall|i: int| 0 <= i < cuts(s, w, st).len() ==> (#[trigger] cuts(s, w, st)[i]).0 >= st,
    decreases s - st,
{
    if st < s {
        let n = if s - st < w {
            s - st
        } else {
            w
        };
        lemma_cuts_from(s, w, st + n);
        let c = cuts(s, w, st);
        assert forall|i: int| 0 <= i < c.len() implies (#[trigger] c[i]).0 >= st by {
            if i > 0 {
                assert(c[i] == cuts(s, w, st + n)[i - 1]);
            }
        }
    }
}

/// A clip has as many tokens as its chunks: those of the full chunks, and of the
/// frames that are left over. The device counts them the same way.
pub proof fn law_tokens_add_up(e: GpuAudioEncoder, n_frames: int)
    requires
        n_frames >= 0,
        e.cs >= 1,
        e.tpc == token_len(e.cs as int),
    ensures
        tokens_upto(n_frames, e.cs as int, chunk_count(n_frames, e.cs as int) as nat) == e.tokens(n_frames),
        chunk_count(n_frames, e.cs as int) == e.chunks(n_frames),
{
    let cs = e.cs as int;
    lemma_frames(n_frames, cs, token_len(cs));
    let q = (n_frames / cs) as nat;
    lemma_tokens_upto(n_frames, cs, q);
    lemma_tokens_upto(n_frames, cs, chunk_count(n_frames, cs) as nat);
}

/// Where the position row of token `tok` begins, of `tpc` tokens a chunk and `d`
/// elements a row.
pub open spec fn position_row(tok: int, tpc: int, d: int) -> int {
    tok % tpc * d
}

/// Positions start anew with every chunk: token `t` of any chunk has row `t`.
pub proof fn law_positions_repeat(chunk: int, t: int, tpc: int, d: int)
    requires
        0 <= chunk,
        0 <= t < tpc,
    ensures
        position_row(chunk * tpc + t, tpc, d) == t * d,
{
    vstd::arithmetic::div_mod::lemma_fundamental_div_mod_converse(chunk * tpc + t, tpc, chunk, t);
}

} // verus!
