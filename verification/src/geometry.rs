//! Sizes, strides and dispatch grids: the arithmetic that the buffers and the
//! kernels have to agree on.
use vstd::prelude::*;

verus! {

/// Rows of one GEMM tile.
pub const GEMM_BM: usize = 128;

/// Columns of one GEMM tile.
pub const GEMM_BN: usize = 128;

/// Depth of one GEMM step.
pub const GEMM_BK: usize = 16;

/// Taps of a `3x3` convolution.
pub const TAPS: usize = 9;

/// Tap-table entry of a tap outside the input plane.
pub const TAP_OOB: u32 = 0xFFFF_FFFF;

/// Chunks that one round of the conv stem processes.
pub const CONV_TILE: usize = 8;

/// `ceil(v / a)`.
pub open spec fn ceil_div(v: int, a: int) -> int {
    (v + a - 1) / a
}

/// `v` rounded up to a multiple of `a`.
pub open spec fn align_up(v: int, a: int) -> int {
    ceil_div(v, a) * a
}

/// `v` is what `a` divides, plus less than `a` of padding: the two-sided bound
/// that makes `align_up(v, a)` the least multiple of `a` not below `v`.
pub proof fn lemma_align_bounds(v: int, a: int)
    requires
        v >= 0,
        a > 0,
    ensures
        v <= align_up(v, a) < v + a,
        align_up(v, a) % a == 0,
        align_up(v, a) == if v % a == 0 {
            v
        } else {
            v - v % a + a
        },
        ceil_div(v, a) == if v % a == 0 {
            v / a
        } else {
            v / a + 1
        },
        0 <= ceil_div(v, a) <= v,
{
    let q = v / a;
    let r = v % a;
    assert(v == a * q + r && 0 <= r < a && q >= 0) by (nonlinear_arith)
        requires
            a > 0,
            v >= 0,
            q == v / a,
            r == v % a,
    ;
    assert(q * a == a * q) by (nonlinear_arith);
    assert((q + 1) * a == a * q + a) by (nonlinear_arith);
    if r == 0 {
        vstd::arithmetic::div_mod::lemma_fundamental_div_mod_converse(v + a - 1, a, q, a - 1);
    } else {
        vstd::arithmetic::div_mod::lemma_fundamental_div_mod_converse(v + a - 1, a, q + 1, r - 1);
    }
    let c = ceil_div(v, a);
    assert(c * a == a * c) by (nonlinear_arith);
    assert((c * a) % a == 0) by (nonlinear_arith)
        requires
            a > 0,
    ;
    assert(c <= v) by (nonlinear_arith)
        requires
            v == a * q + r,
            a >= 1,
            q >= 0,
            0 <= r,
            c == if r == 0 {
                q
            } else {
                q + 1
            },
    ;
}

/// `align_up` gives the least multiple: any other multiple of `a` that is not
/// below `v` is not below it either.
pub proof fn law_align_least(v: int, a: int, m: int)
    requires
        v >= 0,
        a > 0,
        m % a == 0,
        m >= v,
    ensures
        m >= align_up(v, a),
{
    lemma_align_bounds(v, a);
    let c = ceil_div(v, a);
    let k = m / a;
    assert(m == a * k) by (nonlinear_arith)
        requires
            a > 0,
            k == m / a,
            m % a == 0,
    ;
    assert(k >= c) by (nonlinear_arith)
        requires
            a > 0,
            a * k >= v,
            c * a < v + a,
    ;
    assert(a * k >= c * a) by (nonlinear_arith)
        requires
            k >= c,
            a > 0,
    ;
}

/// Aligning what is aligned changes nothing.
pub proof fn law_align_idempotent(v: int, a: int)
    requires
        v >= 0,
        a > 0,
    ensures
        align_up(align_up(v, a), a) == align_up(v, a),
{
    lemma_align_bounds(v, a);
    lemma_align_bounds(align_up(v, a), a);
}

/// `ceil(v / a)`.
pub fn div_up(v: usize, a: usize) -> (r: usize)
    requires
        a > 0,
    ensures
        r == ceil_div(v as int, a as int),
        r <= v,
{
    proof {
        lemma_align_bounds(v as int, a as int);
    }
    if v % a == 0 {
        v / a
    } else {
        v / a + 1
    }
}

/// Rounds `v` up to a multiple of `a`.
pub fn align(v: usize, a: usize) -> (r: usize)
    requires
        a > 0,
        align_up(v as int, a as int) <= usize::MAX,
    ensures
        r == align_up(v as int, a as int),
{
    div_up(v, a) * a
}

/// Rounds `v` up to an even number.
pub fn pad_even(v: usize) -> (r: usize)
    requires
        v + v % 2 <= usize::MAX,
    ensures
        r == v + v % 2,
{
    if v % 2 == 1 {
        v + 1
    } else {
        v
    }
}

/// Rounds `k` up to whole GEMM steps. The GEMM walks `k` in steps of
/// [`GEMM_BK`], so an operand row has to be that wide for its padding to be
/// read as zeros.
pub fn pad_k_tile(k: usize) -> (r: usize)
    requires
        align_up(k as int, 16) <= usize::MAX,
    ensures
        r == align_up(k as int, 16),
{
    align(k, GEMM_BK)
}

/// 32-wide column blocks of a row of `k` elements.
pub fn conv_out_cols_16(k: usize) -> (r: u32)
    requires
        align_up(k as int, 32) <= usize::MAX,
    ensures
        r == (align_up(k as int, 32) / 32) as u32,
{
    (align(k, 32) / 32) as u32
}

/// The published number of chunks of one conv round.
pub fn conv_tile() -> (r: usize)
    ensures
        r == CONV_TILE,
{
    CONV_TILE
}

/// Output length of a convolution of width 3, stride 2, padding 1.
pub open spec fn conv_len(l: int) -> int {
    (l - 1) / 2 + 1
}

/// Output length of three such convolutions: the audio tokens of `l` frames.
pub open spec fn token_len(l: int) -> int {
    conv_len(conv_len(conv_len(l)))
}

/// Output length of one conv step.
pub fn conv_out_len(l: usize) -> (r: usize)
    requires
        1 <= l <= usize::MAX - 2,
    ensures
        r == conv_len(l as int),
{
    (l + 2 - 3) / 2 + 1
}

/// The height of the last conv plane: three conv steps.
pub fn feo_positions(n_mels: usize) -> (r: usize)
    requires
        1 <= n_mels <= usize::MAX - 2,
    ensures
        r == token_len(n_mels as int),
{
    conv_out_len(conv_out_len(conv_out_len(n_mels)))
}

/// The audio tokens that `frames` mel frames become.
pub fn feo(frames: usize) -> (r: usize)
    requires
        frames >= 1,
    ensures
        r == token_len(frames as int),
{
    let a: usize = (frames - 1) / 2 + 1;
    let b: usize = (a - 1) / 2 + 1;
    (b - 1) / 2 + 1
}

/// Three conv steps divide by eight, rounding up.
pub proof fn law_token_len(l: int)
    requires
        l >= 1,
    ensures
        token_len(l) == ceil_div(l, 8),
        1 <= token_len(l) <= l,
{
}

/// Elements of one chunk's mel image, its rows padded to `w0`.
pub fn mel_elems(n_mels: usize, w0: usize) -> (r: usize)
    requires
        n_mels * w0 <= usize::MAX,
    ensures
        r == n_mels * w0,
{
    n_mels * w0
}

/// The workgroup counts of a flat dispatch, split over two grid axes.
pub open spec fn grid_x(workgroups: int) -> int {
    if workgroups < 1 {
        1
    } else if workgroups > 65535 {
        65535
    } else {
        workgroups
    }
}

/// The second axis: as many rows of `grid_x` workgroups as it takes.
pub open spec fn grid_y(workgroups: int) -> int {
    if workgroups < 1 {
        1
    } else {
        ceil_div(workgroups, grid_x(workgroups))
    }
}

/// Splits a flat dispatch over two grid axes, the first capped at 65535.
pub fn grid_xy(workgroups: usize) -> (r: (u32, u32))
    ensures
        r.0 == grid_x(workgroups as int),
        r.1 == grid_y(workgroups as int) as u32,
{
    if workgroups < 1 {
        return (1, 1);
    }
    let gx: usize = if workgroups > 65535 {
        65535
    } else {
        workgroups
    };
    proof {
        lemma_align_bounds(workgroups as int, gx as int);
        if workgroups <= 65535 {
            assert((workgroups + workgroups - 1) / (workgroups as int) == 1) by (nonlinear_arith)
                requires
                    workgroups >= 1,
            ;
        }
    }
    (gx as u32, div_up(workgroups, gx) as u32)
}

/// A split grid covers every workgroup, wastes less than one row, and stays
/// within 65535 on both axes as long as 65535 rows are enough.
pub proof fn law_grid_covers(workgroups: int)
    requires
        workgroups >= 0,
    ensures
        1 <= grid_x(workgroups) <= 65535,
        grid_y(workgroups) >= 1,
        grid_x(workgroups) * grid_y(workgroups) >= workgroups,
        workgroups >= 1 ==> grid_x(workgroups) * grid_y(workgroups) < workgroups + grid_x(workgroups),
        workgroups <= 65535 * 65535 ==> grid_y(workgroups) <= 65535,
{
    if workgroups >= 1 {
        let gx = grid_x(workgroups);
        let gy = grid_y(workgroups);
        lemma_align_bounds(workgroups, gx);
        assert(gx * gy == gy * gx) by (nonlinear_arith);
        assert(gy >= 1) by (nonlinear_arith)
            requires
                gy * gx >= workgroups,
                workgroups >= 1,
                gx >= 1,
        ;
        if workgroups <= 65535 * 65535 {
            if gx == 65535 {
                assert(gy <= 65535) by (nonlinear_arith)
                    requires
                        gy * 65535 < workgroups + 65535,
                        workgroups <= 65535 * 65535,
                ;
            } else {
                assert(gy <= 1) by (nonlinear_arith)
                    requires
                        gy * gx < workgroups + gx,
                        workgroups == gx,
                        gx >= 1,
                ;
            }
        }
    }
}

/// The least width of the ladder 32, 64, .., 1024 that covers `target`, or 1024.
pub open spec fn ladder(target: int) -> int {
    if target <= 32 {
        32
    } else if target <= 64 {
        64
    } else if target <= 128 {
        128
    } else if target <= 256 {
        256
    } else if target <= 512 {
        512
    } else {
        1024
    }
}

/// Threads of a reduction over `last` elements.
pub fn block_for_reduction(last: usize) -> (r: u32)
    ensures
        r == ladder((last as u32) as int),
{
    let target: u32 = last as u32;
    let mut bs: u32 = 32;
    while bs < target && bs < 1024
        invariant
            bs == 32 || bs == 64 || bs == 128 || bs == 256 || bs == 512 || bs == 1024,
            bs > 32 ==> bs / 2 < target,
        decreases 1024 - bs,
    {
        bs = bs * 2;
    }
    bs
}

/// What tap `kh, kw` of output position `ho, wo` reads: the offset inside an
/// `h x w_in` plane of row stride `w_stride`, or [`TAP_OOB`].
pub open spec fn tap_value(h: int, w_in: int, w_stride: int, ho: int, wo: int, kh: int, kw: int) -> u32 {
    let ih = ho * 2 + kh - 1;
    let iw = wo * 2 + kw - 1;
    if ih < 0 || ih >= h || iw < 0 || iw >= w_in {
        TAP_OOB
    } else {
        (ih * w_stride + iw) as u32
    }
}

/// Entry `i` of the tap table: position `i / 9` in row-major order, tap `i % 9`.
pub open spec fn tap_entry(h: int, w_in: int, w_stride: int, i: int) -> u32 {
    let w_out = conv_len(w_in);
    tap_value(h, w_in, w_stride, i / 9 / w_out, i / 9 % w_out, i % 9 / 3, i % 3)
}

/// The tap table of a `3x3`, stride 2, padding 1 convolution.
pub open spec fn tap_table(h: int, w_in: int, w_stride: int) -> Seq<u32> {
    Seq::new((conv_len(h) * conv_len(w_in) * 9) as nat, |i: int| tap_entry(h, w_in, w_stride, i))
}

/// The sizes that the tap table of an `h x w_in` plane needs to fit.
pub open spec fn taps_fit(h: int, w_in: int, w_stride: int) -> bool {
    &&& 1 <= h <= usize::MAX - 2
    &&& 1 <= w_in <= usize::MAX - 2
    &&& conv_len(h) * conv_len(w_in) * 9 <= usize::MAX
    &&& h * w_stride + w_in <= usize::MAX
}

/// Builds the tap table of an `h x w_in` plane of row stride `w_stride`; returns
/// it with its position count and the output plane's height and width.
pub fn conv_taps(h: usize, w_in: usize, w_stride: usize) -> (r: (Vec<u32>, usize, usize, usize))
    requires
        taps_fit(h as int, w_in as int, w_stride as int),
    ensures
        r.0@ == tap_table(h as int, w_in as int, w_stride as int),
        r.1 == conv_len(h as int) * conv_len(w_in as int),
        r.2 == conv_len(h as int),
        r.3 == conv_len(w_in as int),
{
    let h_out: usize = conv_out_len(h);
    let w_out: usize = conv_out_len(w_in);
    let n: usize = h_out * w_out * TAPS;
    let mut off: Vec<u32> = Vec::new();
    for i in 0..n
        invariant
            taps_fit(h as int, w_in as int, w_stride as int),
            h_out == conv_len(h as int),
            w_out == conv_len(w_in as int),
            n == h_out * w_out * 9,
            off@ == tap_table(h as int, w_in as int, w_stride as int).take(i as int),
    {
        let pos: usize = i / 9;
        let ho: usize = pos / w_out;
        let wo: usize = pos % w_out;
        let kh: usize = i % 9 / 3;
        let kw: usize = i % 3;
        proof {
            assert(ho < h_out) by (nonlinear_arith)
                requires
                    pos < h_out * w_out,
                    ho == pos / w_out,
                    w_out > 0,
            ;
            assert(wo < w_out);
        }
        let v: u32 = if ho * 2 + kh < 1 || ho * 2 + kh - 1 >= h || wo * 2 + kw < 1 || wo * 2 + kw - 1 >= w_in {
            TAP_OOB
        } else {
            let ih: usize = ho * 2 + kh - 1;
            let iw: usize = wo * 2 + kw - 1;
            proof {
                assert(0 <= ih * w_stride <= h * w_stride) by (nonlinear_arith)
                    requires
                        ih < h,
                ;
            }
            (ih * w_stride + iw) as u32
        };
        off.push(v);
    }
    (off, h_out * w_out, h_out, w_out)
}

/// Every entry of a tap table is either the sentinel or an address inside the
/// plane, and no in-plane tap is mistaken for the sentinel.
pub proof fn law_taps_in_plane(h: int, w_in: int, w_stride: int, i: int)
    requires
        taps_fit(h, w_in, w_stride),
        w_in <= w_stride,
        h * w_stride <= TAP_OOB,
        0 <= i < tap_table(h, w_in, w_stride).len(),
    ensures
        tap_table(h, w_in, w_stride)[i] == TAP_OOB || tap_table(h, w_in, w_stride)[i] < h * w_stride,
        ({
            let w_out = conv_len(w_in);
            let ih = i / 9 / w_out * 2 + i % 9 / 3 - 1;
            let iw = i / 9 % w_out * 2 + i % 3 - 1;
            tap_table(h, w_in, w_stride)[i] != TAP_OOB <==> 0 <= ih < h && 0 <= iw < w_in
        }),
{
    let w_out = conv_len(w_in);
    let ih = i / 9 / w_out * 2 + i % 9 / 3 - 1;
    let iw = i / 9 % w_out * 2 + i % 3 - 1;
    if 0 <= ih < h && 0 <= iw < w_in {
        assert(0 <= ih * w_stride + iw < h * w_stride) by (nonlinear_arith)
            requires
                0 <= ih < h,
                0 <= iw < w_stride,
        ;
    }
}

/// Two in-plane taps of one table that read the same address are the same input
/// cell.
pub proof fn law_taps_injective(w_stride: int, ih: int, iw: int, jh: int, jw: int)
    requires
        0 <= iw < w_stride,
        0 <= jw < w_stride,
        ih >= 0,
        jh >= 0,
        ih * w_stride + iw == jh * w_stride + jw,
    ensures
        ih == jh,
        iw == jw,
{
    vstd::arithmetic::div_mod::lemma_fundamental_div_mod_converse(ih * w_stride + iw, w_stride, ih, iw);
    vstd::arithmetic::div_mod::lemma_fundamental_div_mod_converse(jh * w_stride + jw, w_stride, jh, jw);
}

/// A reduction's width is a power of two from 32 to 1024, the least of them that
/// covers the row, or the greatest; a longer row never gets a narrower one.
pub proof fn law_ladder_least(a: int, b: int)
    requires
        a <= b,
    ensures
        ladder(a) == 32 || ladder(a) == 64 || ladder(a) == 128 || ladder(a) == 256 || ladder(a) == 512 || ladder(a)
            == 1024,
        a <= ladder(a) || ladder(a) == 1024,
        ladder(a) > 32 ==> ladder(a) / 2 < a,
        ladder(a) <= ladder(b),
{
}

} // verus!
