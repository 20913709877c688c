//! The audio tower as a term: what one pass computes of the mel, the weights and
//! the positions.
use vstd::prelude::*;

use crate::config::AudioEncoderConfig;
use crate::encoder::{
    chain_pad, chain_plane, law_round_holds_chunks, law_tower_is_a_chain, tower_fits, GpuAudioEncoder, TowerShapes,
};
use crate::encoder_ops::{EncBuf, EncOp, Pipe, Shot};
use crate::encoder_plan::{
    attention_ops, conv_out_ops, encode_ops, finish_ops, flat, gelu_ops, gemm_ops, im2col_ops, layer_end, layer_ops,
    layers_ops, level_chunk0, level_input, level_ops, linear_ops, mid_ops, norm_ops, permute_ops, project_ops,
    residual_ops, round_end, round_len, round_ops, rounds_ops, scale_writes, score_shape, split_ops, value_shape, Clip,
    LN_EPS_BITS,
};
use crate::geometry::{
    align_up, ceil_div, conv_len, grid_x, grid_y, law_grid_covers, lemma_align_bounds, token_len,
};
use crate::tower_machine::{
    cols_of, does, goes, has, lemma_goes_none, lemma_goes_one, lemma_goes_sum, weight_shape, EncVal, Tower,
};

verus! {

/// The activations of a conv level for `n` chunks from `ch0` on. The first level
/// reads those chunks of the mel, the others what the level before made of them.
pub open spec fn stem(e: GpuAudioEncoder, m: Map<EncBuf, EncVal>, level: nat, ch0: int, n: int) -> EncVal
    decreases level,
{
    let l = level as usize;
    let (x, chunk0) = if level == 0 {
        (has(m, EncBuf::Mel), ch0)
    } else {
        (stem(e, m, (level - 1) as nat, ch0, n), 0int)
    };
    EncVal::Gelu {
        x: Box::new(
            EncVal::Product {
                a: Box::new(has(m, EncBuf::ConvW(l))),
                b: Box::new(
                    EncVal::Patches {
                        x: Box::new(x),
                        taps: Box::new(has(m, EncBuf::Taps(l))),
                        chunk0,
                        chunks: n,
                    },
                ),
            },
        ),
        bias: Box::new(has(m, EncBuf::ConvB(l))),
        by_channel: true,
        cols: e.conv@[level as int].n_all as int,
    }
}

/// The first chunk of round `r`, and how many it has of `total`.
pub open spec fn round_chunks(total: int, r: int) -> (int, int) {
    (
        8 * r,
        if total - 8 * r < 8 {
            total - 8 * r
        } else {
            8
        },
    )
}

/// The token rows after the first `r` rounds: a round's tokens go behind the
/// tokens of all chunks before it.
pub open spec fn token_rows(e: GpuAudioEncoder, c: Clip, m: Map<EncBuf, EncVal>, r: nat) -> EncVal
    decreases r,
{
    if r == 0 {
        has(m, EncBuf::Packed)
    } else {
        let (ch0, n) = round_chunks(c.n_chunks as int, r - 1);
        EncVal::Tokens {
            was: Box::new(token_rows(e, c, m, (r - 1) as nat)),
            x: Box::new(stem(e, m, 2, ch0, n)),
            at: ch0 * e.tpc,
            cols: e.conv_out.k as int,
        }
    }
}

/// The hidden rows before the first layer.
pub open spec fn tower_input(e: GpuAudioEncoder, c: Clip, m: Map<EncBuf, EncVal>) -> EncVal {
    let dm = e.d_model as int;
    EncVal::Placed {
        x: Box::new(
            EncVal::Times {
                x: Box::new(token_rows(e, c, m, ceil_div(c.n_chunks as int, 8) as nat)),
                w: Box::new(has(m, EncBuf::ConvOutW)),
                bias: None,
                cols: dm,
            },
        ),
        pe: Box::new(has(m, EncBuf::Pe)),
        cols: dm,
    }
}

/// A layer norm.
pub open spec fn layer_norm(e: GpuAudioEncoder, m: Map<EncBuf, EncVal>, x: EncVal, w: EncBuf, b: EncBuf) -> EncVal {
    EncVal::Norm {
        x: Box::new(x),
        w: Box::new(has(m, w)),
        b: Box::new(has(m, b)),
        eps_bits: LN_EPS_BITS,
        cols: e.d_model as int,
    }
}

/// The projection of layer `l` to queries, keys and values.
pub open spec fn heads_of(e: GpuAudioEncoder, m: Map<EncBuf, EncVal>, l: usize, x: EncVal) -> EncVal {
    EncVal::Times {
        x: Box::new(layer_norm(e, m, x, EncBuf::SlnW(l), EncBuf::SlnB(l))),
        w: Box::new(has(m, EncBuf::QkvW(l))),
        bias: Some(Box::new(has(m, EncBuf::QkvB(l)))),
        cols: 3 * e.d_model,
    }
}

/// Queries (0), keys (1) or values (2) of a projection, cut into windows of `wlen`
/// tokens.
pub open spec fn window_of(e: GpuAudioEncoder, x: EncVal, which: int, wlen: int) -> EncVal {
    EncVal::Windows {
        x: Box::new(EncVal::Heads { x: Box::new(x), which, cols: e.attn_cols as int }),
        turned: which == 1,
        wlen,
    }
}

/// Attention within the windows: the softmax of queries times keys, times values.
pub open spec fn window_attention(e: GpuAudioEncoder, c: Clip, x: EncVal) -> EncVal {
    let wlen = e.wlen();
    EncVal::Rows {
        x: Box::new(
            EncVal::Product {
                a: Box::new(
                    EncVal::Probs {
                        x: Box::new(
                            EncVal::Product {
                                a: Box::new(window_of(e, x, 0, wlen)),
                                b: Box::new(window_of(e, x, 1, wlen)),
                            },
                        ),
                        scale_bits: c.scale_bits,
                        wlen,
                    },
                ),
                b: Box::new(window_of(e, x, 2, wlen)),
            },
        ),
        wlen,
        cols: e.d_model as int,
    }
}

/// The hidden rows `x` after the attention half of layer `l`.
pub open spec fn after_attention(e: GpuAudioEncoder, c: Clip, m: Map<EncBuf, EncVal>, l: usize, x: EncVal) -> EncVal {
    EncVal::Plus {
        x: Box::new(x),
        y: Box::new(
            EncVal::Times {
                x: Box::new(window_attention(e, c, heads_of(e, m, l, x))),
                w: Box::new(has(m, EncBuf::OW(l))),
                bias: Some(Box::new(has(m, EncBuf::OB(l)))),
                cols: e.d_model as int,
            },
        ),
        cols: e.d_model as int,
    }
}

/// A dense layer with its bias and GELU.
pub open spec fn dense_gelu(m: Map<EncBuf, EncVal>, x: EncVal, w: EncBuf, b: EncBuf, cols: int) -> EncVal {
    EncVal::Gelu {
        x: Box::new(EncVal::Times { x: Box::new(x), w: Box::new(has(m, w)), bias: None, cols }),
        bias: Box::new(has(m, b)),
        by_channel: false,
        cols,
    }
}

/// The hidden rows `y` after the feed-forward half of layer `l`.
pub open spec fn after_feed(e: GpuAudioEncoder, m: Map<EncBuf, EncVal>, l: usize, y: EncVal) -> EncVal {
    EncVal::Plus {
        x: Box::new(y),
        y: Box::new(
            EncVal::Times {
                x: Box::new(
                    dense_gelu(
                        m,
                        layer_norm(e, m, y, EncBuf::FlnW(l), EncBuf::FlnB(l)),
                        EncBuf::Fc1W(l),
                        EncBuf::Fc1B(l),
                        e.layers@[l as int].fc1.n_pad as int,
                    ),
                ),
                w: Box::new(has(m, EncBuf::Fc2W(l))),
                bias: Some(Box::new(has(m, EncBuf::Fc2B(l)))),
                cols: e.d_model as int,
            },
        ),
        cols: e.d_model as int,
    }
}

/// The hidden rows after the first `n` layers, from `x` on.
pub open spec fn tower_hidden(e: GpuAudioEncoder, c: Clip, m: Map<EncBuf, EncVal>, x: EncVal, n: nat) -> EncVal
    decreases n,
{
    if n == 0 {
        x
    } else {
        let l = (n - 1) as usize;
        after_feed(e, m, l, after_attention(e, c, m, l, tower_hidden(e, c, m, x, (n - 1) as nat)))
    }
}

/// The embeddings of the hidden rows `x`: the last norm and the projector.
pub open spec fn embeddings(e: GpuAudioEncoder, m: Map<EncBuf, EncVal>, x: EncVal) -> EncVal {
    EncVal::Times {
        x: Box::new(
            dense_gelu(
                m,
                layer_norm(e, m, x, EncBuf::LnPostW, EncBuf::LnPostB),
                EncBuf::Proj1W,
                EncBuf::Proj1B,
                e.proj1.n_pad as int,
            ),
        ),
        w: Box::new(has(m, EncBuf::Proj2W)),
        bias: Some(Box::new(has(m, EncBuf::Proj2B))),
        cols: e.proj2.n_pad as int,
    }
}

/// The sizes of level `i` are in whole tiles and agree with the level before.
pub open spec fn level_sized(e: GpuAudioEncoder, i: int) -> bool {
    let l = e.conv@[i];
    &&& l.n_all % 128 == 0 && l.m_pad % 128 == 0 && l.k_pad % 16 == 0 && l.plane_pad % 32 == 0
    &&& 8 * l.plane_pad <= l.n_all
    &&& l.k <= u32::MAX && l.k_pad <= u32::MAX && l.plane <= u32::MAX && l.n_all <= u32::MAX && l.m_pad + 128
        <= u32::MAX && l.in_chunk <= u32::MAX && l.in_ic <= u32::MAX && l.c_out <= u32::MAX
    &&& l.m_pad * l.n_all <= u32::MAX
    &&& i == 0 ==> l.in_chunk == e.mel_chunk
    &&& i > 0 ==> l.in_chunk == e.conv@[i - 1].plane_pad && l.in_ic == e.conv@[i - 1].n_all
}

/// The sizes of layer `i` agree.
pub open spec fn layer_sized(e: GpuAudioEncoder, c: Clip, i: int) -> bool {
    let l = e.layers@[i];
    &&& l.qkv.n_pad == 3 * e.d_model && l.qkv.k == e.d_model
    &&& l.o.n_pad == e.d_model && l.o.k == e.d_model
    &&& l.fc1.k == e.d_model && l.fc1.n_pad == l.fc2.k && l.fc2.n_pad == e.d_model
    &&& l.fc1.n_pad % 128 == 0
    &&& c.s_pad * l.fc1.n_pad <= u32::MAX
    &&& l.fc1.n_pad <= u32::MAX
}

/// The sizes of a tower and a clip are in whole tiles, agree and fit a word; a
/// window and a head are one tile at most.
pub open spec fn tower_sized(e: GpuAudioEncoder, c: Clip) -> bool {
    &&& e.conv@.len() == 3
    &&& level_sized(e, 0) && level_sized(e, 1) && level_sized(e, 2)
    &&& e.tpc >= 1 && e.tpc <= u32::MAX
    &&& e.conv@[2].plane as int / (e.tpc as int) * e.tpc == e.conv@[2].plane
    &&& e.conv@[2].c_out * (e.conv@[2].plane as int / (e.tpc as int)) <= e.conv_out.k
    &&& c.cf == e.conv_out.k && e.conv_out.k % 512 == 0 && e.conv_out.k <= u32::MAX
    &&& e.conv_out.n_pad == e.d_model
    &&& e.d_model % 128 == 0 && 3 * e.d_model <= u32::MAX
    &&& e.nh * e.hd == e.d_model && e.hd % 2 == 0 && e.nh <= u32::MAX && e.hd <= u32::MAX
    &&& e.attn_cols == e.d_model
    &&& 1 <= c.n_chunks && c.n_chunks * e.tpc <= u32::MAX && c.n_chunks + 8 <= u32::MAX
    &&& 1 <= c.s <= c.s_pad && c.s_pad == align_up(c.s as int, 128) && c.s_pad + 128 <= u32::MAX
    &&& c.s_pad * e.attn_cols <= u32::MAX
    &&& c.wlen == e.wlen() && c.wlen <= 128 && c.wpad == 128 && c.hd_pad == 128
    &&& c.n_win * c.wlen >= c.s && c.n_win <= u32::MAX
    &&& c.blocks == e.nh * c.n_win && c.blocks >= 1 && c.blocks <= u32::MAX
    &&& 64 * e.hd <= u32::MAX
    &&& e.layers@.len() <= 42
    &&& forall|i: int| 0 <= i < e.layers@.len() ==> #[trigger] layer_sized(e, c, i)
    &&& e.proj1.k == e.d_model && e.proj2.k == e.proj1.n_pad && e.proj1.n_pad % 128 == 0 && e.proj2.n_pad % 128 == 0
    &&& c.s_pad * e.proj1.n_pad <= u32::MAX
    &&& e.proj1.n_pad <= u32::MAX && e.proj2.n_pad <= u32::MAX
    &&& c.s * e.out_dim * 2 <= u64::MAX
}

/// A list left everything but some buffers as it was.
pub open spec fn spared(s: Tower, t: Tower, out: spec_fn(EncBuf) -> bool) -> bool {
    &&& t.embeds == s.embeds
    &&& forall|b: EncBuf| !out(b) ==> #[trigger] has(t.mem, b) == has(s.mem, b)
}

proof fn lemma_pair(e: GpuAudioEncoder, c: Clip, s: Tower, a: EncOp, b: EncOp)
    ensures
        goes(e, c, s, seq![a, b]) == does(e, c, does(e, c, s, a), b),
{
    assert(seq![a, b] =~= seq![a] + seq![b]);
    lemma_goes_sum(e, c, s, seq![a], seq![b]);
    lemma_goes_one(e, c, s, a);
    lemma_goes_one(e, c, does(e, c, s, a), b);
}

/// A dense layer over the clip's rows.
proof fn lemma_linear(
    e: GpuAudioEncoder,
    c: Clip,
    s: Tower,
    a: EncBuf,
    w: EncBuf,
    o: EncBuf,
    bias: Option<EncBuf>,
    slot: int,
    n: usize,
    k: usize,
    ldc: usize,
    acc: bool,
)
    requires
        tower_sized(e, c),
        0 <= slot < 256,
        weight_shape(e, w) == (n as int, k as int),
        n % 128 == 0,
        n <= u32::MAX,
        k <= u32::MAX,
        ldc == n,
        cols_of(has(s.mem, a)) == k,
        acc ==> cols_of(has(s.mem, o)) == n,
    ensures
        ({
            let ops = if acc {
                residual_ops(a, w, o, bias, slot, c.s, n, k, ldc)
            } else {
                linear_ops(a, w, o, bias, slot, c.s, n, k, ldc)
            };
            let t = goes(e, c, s, ops);
            let p = EncVal::Times {
                x: Box::new(has(s.mem, a)),
                w: Box::new(has(s.mem, w)),
                bias: match bias {
                    Some(b) => Some(Box::new(has(s.mem, b))),
                    None => None,
                },
                cols: n as int,
            };
            &&& spared(s, t, |b: EncBuf| b == o)
            &&& has(t.mem, o) == if acc {
                EncVal::Plus { x: Box::new(has(s.mem, o)), y: Box::new(p), cols: n as int }
            } else {
                p
            }
        }),
{
    let ops = if acc {
        residual_ops(a, w, o, bias, slot, c.s, n, k, ldc)
    } else {
        linear_ops(a, w, o, bias, slot, c.s, n, k, ldc)
    };
    assert(ops =~= seq![ops[0], ops[1]]);
    lemma_pair(e, c, s, ops[0], ops[1]);
    lemma_align_bounds(c.s as int, 128);
    assert(n as int / 128 * 128 == n);
    assert(align_up(c.s as int, 128) / 128 * 128 == align_up(c.s as int, 128));
}

/// A layer norm over the clip's rows.
proof fn lemma_normed(e: GpuAudioEncoder, c: Clip, s: Tower, w: EncBuf, b: EncBuf, o: EncBuf)
    requires
        tower_sized(e, c),
        cols_of(has(s.mem, EncBuf::H)) == e.d_model,
    ensures
        ({
            let t = goes(e, c, s, norm_ops(e, EncBuf::H, w, b, o, c.s));
            &&& spared(s, t, |x: EncBuf| x == o)
            &&& has(t.mem, o) == layer_norm(e, s.mem, has(s.mem, EncBuf::H), w, b)
        }),
{
    let ops = norm_ops(e, EncBuf::H, w, b, o, c.s);
    assert(ops =~= seq![ops[0], ops[1]]);
    lemma_pair(e, c, s, ops[0], ops[1]);
    lemma_align_bounds(c.s as int, 128);
}

proof fn lemma_words(n: int)
    requires
        0 <= n <= u32::MAX,
    ensures
        grid_x(ceil_div(n, 512)) as u32 == grid_x(ceil_div(n, 512)),
        grid_y(ceil_div(n, 512)) as u32 == grid_y(ceil_div(n, 512)),
        grid_x(ceil_div(n, 512)) * grid_y(ceil_div(n, 512)) * 512 >= n,
{
    lemma_align_bounds(n, 512);
    law_grid_covers(ceil_div(n, 512));
}

/// A bias and GELU over rows of `cols` columns.
proof fn lemma_row_gelu(e: GpuAudioEncoder, c: Clip, s: Tower, bias: EncBuf, site: usize, cols: usize)
    requires
        tower_sized(e, c),
        cols_of(has(s.mem, EncBuf::Gu)) == cols,
        cols % 128 == 0,
        c.s_pad * cols <= u32::MAX,
        cols <= u32::MAX,
    ensures
        ({
            let t = goes(
                e,
                c,
                s,
                gelu_ops(EncBuf::Gu, bias, EncBuf::Gact, site, c.s_pad * cols, cols as int / 2, false),
            );
            &&& spared(s, t, |b: EncBuf| b == EncBuf::Gact)
            &&& has(t.mem, EncBuf::Gact) == (EncVal::Gelu {
                x: Box::new(has(s.mem, EncBuf::Gu)),
                bias: Box::new(has(s.mem, bias)),
                by_channel: false,
                cols: cols as int,
            })
        }),
{
    let n = c.s_pad * cols;
    let ops = gelu_ops(EncBuf::Gu, bias, EncBuf::Gact, site, n, cols as int / 2, false);
    assert(ops =~= seq![ops[0], ops[1]]);
    lemma_pair(e, c, s, ops[0], ops[1]);
    let h = cols as int / 2;
    assert(n == 2 * (c.s_pad * h) && n >= 0) by (nonlinear_arith)
        requires
            n == c.s_pad * cols,
            cols == 2 * h,
            h >= 0,
    ;
    lemma_words(n);
}

/// The gather of a conv level.
proof fn lemma_gather(e: GpuAudioEncoder, c: Clip, s: Tower, level: usize, input: EncBuf, chunk0: int, n: int)
    requires
        level < 3,
        level_sized(e, level as int),
        0 <= chunk0 <= u32::MAX,
        1 <= n <= 8,
    ensures
        ({
            let t = goes(e, c, s, im2col_ops(e, level, input, chunk0, n));
            &&& spared(s, t, |b: EncBuf| b == EncBuf::Col(level))
            &&& has(t.mem, EncBuf::Col(level)) == (EncVal::Patches {
                x: Box::new(has(s.mem, input)),
                taps: Box::new(has(s.mem, EncBuf::Taps(level))),
                chunk0,
                chunks: n,
            })
        }),
{
    let l = e.conv@[level as int];
    let a = im2col_ops(e, level, input, chunk0, n);
    assert(a =~= seq![a[0], a[1]]);
    lemma_pair(e, c, s, a[0], a[1]);
    assert(n * l.plane_pad <= 8 * l.plane_pad) by (nonlinear_arith)
        requires
            n <= 8,
            l.plane_pad >= 0,
    ;
    assert(l.n_all as int / 32 * 32 == l.n_all);
    assert(l.k_pad as int / 16 * 16 == l.k_pad);
    assert(l.plane_pad as int / 32 * 32 == l.plane_pad);
}

/// The kernel of a conv level times its patches.
proof fn lemma_convolved(e: GpuAudioEncoder, c: Clip, s: Tower, level: usize)
    requires
        level < 3,
        level_sized(e, level as int),
    ensures
        ({
            let l = e.conv@[level as int];
            let t = goes(
                e,
                c,
                s,
                gemm_ops(
                    Pipe::GemmT,
                    EncBuf::ConvW(level),
                    EncBuf::Col(level),
                    EncBuf::Raw(level),
                    None,
                    level as int,
                    flat(l.m_pad, l.n_all, l.k_pad, l.n_all),
                    (l.n_all / 128) as u32,
                    (l.m_pad / 128) as u32,
                ),
            );
            &&& spared(s, t, |b: EncBuf| b == EncBuf::Raw(level))
            &&& has(t.mem, EncBuf::Raw(level)) == (EncVal::Product {
                a: Box::new(has(s.mem, EncBuf::ConvW(level))),
                b: Box::new(has(s.mem, EncBuf::Col(level))),
            })
        }),
{
    let l = e.conv@[level as int];
    let b = gemm_ops(
        Pipe::GemmT,
        EncBuf::ConvW(level),
        EncBuf::Col(level),
        EncBuf::Raw(level),
        None,
        level as int,
        flat(l.m_pad, l.n_all, l.k_pad, l.n_all),
        (l.n_all / 128) as u32,
        (l.m_pad / 128) as u32,
    );
    assert(b =~= seq![b[0], b[1]]);
    lemma_pair(e, c, s, b[0], b[1]);
    lemma_align_bounds(l.m_pad as int, 128);
    assert(l.n_all as int / 128 * 128 == l.n_all);
    assert(l.m_pad as int / 128 * 128 == l.m_pad);
}

/// The bias and GELU of a conv level.
proof fn lemma_channel_gelu(e: GpuAudioEncoder, c: Clip, s: Tower, level: usize)
    requires
        level < 3,
        level_sized(e, level as int),
    ensures
        ({
            let l = e.conv@[level as int];
            let t = goes(
                e,
                c,
                s,
                gelu_ops(
                    EncBuf::Raw(level),
                    EncBuf::ConvB(level),
                    EncBuf::Act(level),
                    level,
                    l.m_pad * l.n_all,
                    l.n_all as int / 2,
                    true,
                ),
            );
            &&& spared(s, t, |b: EncBuf| b == EncBuf::Act(level))
            &&& has(t.mem, EncBuf::Act(level)) == (EncVal::Gelu {
                x: Box::new(has(s.mem, EncBuf::Raw(level))),
                bias: Box::new(has(s.mem, EncBuf::ConvB(level))),
                by_channel: true,
                cols: l.n_all as int,
            })
        }),
{
    let l = e.conv@[level as int];
    let g = gelu_ops(
        EncBuf::Raw(level),
        EncBuf::ConvB(level),
        EncBuf::Act(level),
        level,
        l.m_pad * l.n_all,
        l.n_all as int / 2,
        true,
    );
    assert(g =~= seq![g[0], g[1]]);
    lemma_pair(e, c, s, g[0], g[1]);
    let k = l.m_pad * l.n_all;
    let h = l.n_all as int / 2;
    assert(k == 2 * (l.m_pad * h) && k >= 0) by (nonlinear_arith)
        requires
            k == l.m_pad * l.n_all,
            l.n_all == 2 * h,
            h >= 0,
    ;
    lemma_words(k);
}

/// One conv level of a round.
proof fn lemma_level(e: GpuAudioEncoder, c: Clip, s: Tower, level: usize, ch0: int, n: int)
    requires
        tower_sized(e, c),
        level < 3,
        0 <= ch0 <= u32::MAX,
        1 <= n <= 8,
    ensures
        ({
            let t = goes(e, c, s, level_ops(e, level, ch0, n));
            &&& spared(s, t, |b: EncBuf| b == EncBuf::Col(level) || b == EncBuf::Raw(level) || b == EncBuf::Act(level))
            &&& has(t.mem, EncBuf::Act(level)) == (EncVal::Gelu {
                x: Box::new(
                    EncVal::Product {
                        a: Box::new(has(s.mem, EncBuf::ConvW(level))),
                        b: Box::new(
                            EncVal::Patches {
                                x: Box::new(
                                    has(
                                        s.mem,
                                        if level == 0 {
                                            EncBuf::Mel
                                        } else {
                                            EncBuf::Act((level - 1) as usize)
                                        },
                                    ),
                                ),
                                taps: Box::new(has(s.mem, EncBuf::Taps(level))),
                                chunk0: if level == 0 {
                                    ch0
                                } else {
                                    0
                                },
                                chunks: n,
                            },
                        ),
                    },
                ),
                bias: Box::new(has(s.mem, EncBuf::ConvB(level))),
                by_channel: true,
                cols: e.conv@[level as int].n_all as int,
            })
        }),
{
    let l = e.conv@[level as int];
    assert(level_sized(e, level as int));
    let a = im2col_ops(e, level, level_input(level), level_chunk0(level, ch0), n);
    let b = gemm_ops(
        Pipe::GemmT,
        EncBuf::ConvW(level),
        EncBuf::Col(level),
        EncBuf::Raw(level),
        None,
        level as int,
        flat(l.m_pad, l.n_all, l.k_pad, l.n_all),
        (l.n_all / 128) as u32,
        (l.m_pad / 128) as u32,
    );
    let g = gelu_ops(
        EncBuf::Raw(level),
        EncBuf::ConvB(level),
        EncBuf::Act(level),
        level,
        l.m_pad * l.n_all,
        l.n_all as int / 2,
        true,
    );
    lemma_goes_sum(e, c, s, a + b, g);
    lemma_goes_sum(e, c, s, a, b);
    lemma_gather(e, c, s, level, level_input(level), level_chunk0(level, ch0), n);
    let t1 = goes(e, c, s, a);
    lemma_convolved(e, c, t1, level);
    let t2 = goes(e, c, t1, b);
    lemma_channel_gelu(e, c, t2, level);
}

/// The token rows of a round.
proof fn lemma_permuted(e: GpuAudioEncoder, c: Clip, s: Tower, ch0: int)
    requires
        tower_sized(e, c),
        0 <= ch0 <= c.n_chunks,
    ensures
        ({
            let t = goes(e, c, s, permute_ops(e, c, ch0));
            &&& spared(s, t, |b: EncBuf| b == EncBuf::Packed)
            &&& has(t.mem, EncBuf::Packed) == (EncVal::Tokens {
                was: Box::new(has(s.mem, EncBuf::Packed)),
                x: Box::new(has(s.mem, EncBuf::Act(2))),
                at: ch0 * e.tpc,
                cols: e.conv_out.k as int,
            })
        }),
{
    let ops = permute_ops(e, c, ch0);
    assert(level_sized(e, 2));
    assert(ops =~= seq![ops[0], ops[1]]);
    lemma_pair(e, c, s, ops[0], ops[1]);
    lemma_align_bounds(c.s as int, 128);
    assert(0 <= ch0 * e.tpc <= c.n_chunks * e.tpc) by (nonlinear_arith)
        requires
            0 <= ch0 <= c.n_chunks,
            e.tpc >= 0,
    ;
    let p = e.conv@[2].plane as int;
    let f = p / (e.tpc as int);
    assert(0 <= f <= p) by (nonlinear_arith)
        requires
            f == p / (e.tpc as int),
            e.tpc >= 1,
            p >= 0,
    ;
}

/// Reads of anything but the embeddings, and waits, leave everything as it is.
pub open spec fn idle(ops: Seq<EncOp>) -> bool {
    forall|i: int|
        0 <= i < ops.len() ==> (#[trigger] ops[i] is Submit || ops[i] is Read && ops[i]->shot != Shot::Embeds)
}

proof fn lemma_idle(e: GpuAudioEncoder, c: Clip, s: Tower, ops: Seq<EncOp>)
    requires
        idle(ops),
    ensures
        goes(e, c, s, ops) == s,
    decreases ops.len(),
{
    if ops.len() == 0 {
        assert(ops =~= Seq::empty());
        lemma_goes_none(e, c, s);
    } else {
        let a = ops.drop_last();
        assert forall|i: int| 0 <= i < a.len() implies (#[trigger] a[i] is Submit || a[i] is Read && a[i]->shot
            != Shot::Embeds) by {
            assert(a[i] == ops[i]);
        }
        lemma_idle(e, c, s, a);
        assert(ops =~= a + seq![ops.last()]);
        lemma_goes_sum(e, c, s, a, seq![ops.last()]);
        lemma_goes_one(e, c, s, ops.last());
        assert(ops[ops.len() - 1] == ops.last());
    }
}

/// A pass before the layers writes this buffer.
pub open spec fn stem_writes(b: EncBuf) -> bool {
    match b {
        EncBuf::Col(_) | EncBuf::Raw(_) | EncBuf::Act(_) => true,
        EncBuf::Packed | EncBuf::HRaw | EncBuf::H => true,
        _ => false,
    }
}

proof fn lemma_same_stem(e: GpuAudioEncoder, m: Map<EncBuf, EncVal>, k: Map<EncBuf, EncVal>, level: nat, ch0: int, n: int)
    requires
        level < 3,
        forall|b: EncBuf| !stem_writes(b) ==> #[trigger] has(k, b) == has(m, b),
    ensures
        stem(e, k, level, ch0, n) == stem(e, m, level, ch0, n),
    decreases level,
{
    if level > 0 {
        lemma_same_stem(e, m, k, (level - 1) as nat, ch0, n);
    }
}

/// One conv round.
proof fn lemma_round(e: GpuAudioEncoder, c: Clip, s: Tower, ch0: int, n: int, capture: bool)
    requires
        tower_sized(e, c),
        0 <= ch0 <= c.n_chunks,
        1 <= n <= 8,
    ensures
        ({
            let t = goes(e, c, s, round_ops(e, c, ch0, n, capture));
            &&& spared(s, t, |b: EncBuf| stem_writes(b) && b != EncBuf::HRaw && b != EncBuf::H)
            &&& has(t.mem, EncBuf::Packed) == (EncVal::Tokens {
                was: Box::new(has(s.mem, EncBuf::Packed)),
                x: Box::new(stem(e, s.mem, 2, ch0, n)),
                at: ch0 * e.tpc,
                cols: e.conv_out.k as int,
            })
        }),
{
    let a0 = level_ops(e, 0, ch0, n);
    let a1 = level_ops(e, 1, ch0, n);
    let a2 = level_ops(e, 2, ch0, n);
    let a3 = permute_ops(e, c, ch0);
    let a4 = round_end(e, ch0, capture);
    lemma_goes_sum(e, c, s, a0 + a1 + a2 + a3, a4);
    lemma_goes_sum(e, c, s, a0 + a1 + a2, a3);
    lemma_goes_sum(e, c, s, a0 + a1, a2);
    lemma_goes_sum(e, c, s, a0, a1);
    lemma_level(e, c, s, 0, ch0, n);
    let t0 = goes(e, c, s, a0);
    reveal_with_fuel(stem, 3);
    assert(has(t0.mem, EncBuf::Act(0)) == stem(e, s.mem, 0, ch0, n));
    lemma_level(e, c, t0, 1, ch0, n);
    let t1 = goes(e, c, t0, a1);
    assert(has(t1.mem, EncBuf::Act(1)) == stem(e, s.mem, 1, ch0, n));
    lemma_level(e, c, t1, 2, ch0, n);
    let t2 = goes(e, c, t1, a2);
    assert(has(t2.mem, EncBuf::Act(2)) == stem(e, s.mem, 2, ch0, n));
    lemma_permuted(e, c, t2, ch0);
    let t3 = goes(e, c, t2, a3);
    assert(idle(a4));
    lemma_idle(e, c, t3, a4);
}

/// The first `r` conv rounds.
proof fn lemma_rounds(e: GpuAudioEncoder, c: Clip, s: Tower, r: nat, capture: bool)
    requires
        tower_sized(e, c),
        r <= ceil_div(c.n_chunks as int, 8),
    ensures
        ({
            let t = goes(e, c, s, rounds_ops(e, c, r, capture));
            &&& spared(s, t, |b: EncBuf| stem_writes(b) && b != EncBuf::HRaw && b != EncBuf::H)
            &&& has(t.mem, EncBuf::Packed) == token_rows(e, c, s.mem, r)
        }),
    decreases r,
{
    if r == 0 {
        lemma_goes_none(e, c, s);
    } else {
        let q = (r - 1) as nat;
        lemma_align_bounds(c.n_chunks as int, 8);
        lemma_rounds(e, c, s, q, capture);
        let t = goes(e, c, s, rounds_ops(e, c, q, capture));
        let ch0 = (r - 1) * 8;
        let n = round_len(c, ch0);
        lemma_goes_sum(e, c, s, rounds_ops(e, c, q, capture), round_ops(e, c, ch0, n, capture));
        lemma_round(e, c, t, ch0, n, capture);
        lemma_same_stem(e, s.mem, t.mem, 2, ch0, n);
    }
}

/// The positions of the token rows.
proof fn lemma_positioned(e: GpuAudioEncoder, c: Clip, s: Tower)
    requires
        tower_sized(e, c),
        cols_of(has(s.mem, EncBuf::HRaw)) == e.d_model,
    ensures
        ({
            let ops = conv_out_ops(e, c, false);
            let t = goes(e, c, s, seq![ops[2], ops[3]]);
            &&& spared(s, t, |b: EncBuf| b == EncBuf::H)
            &&& has(t.mem, EncBuf::H) == (EncVal::Placed {
                x: Box::new(has(s.mem, EncBuf::HRaw)),
                pe: Box::new(has(s.mem, EncBuf::Pe)),
                cols: e.d_model as int,
            })
        }),
{
    let ops = conv_out_ops(e, c, false);
    lemma_pair(e, c, s, ops[2], ops[3]);
    lemma_align_bounds(c.s_pad as int, 128);
    lemma_align_bounds(e.d_model as int / 2, 256);
}

/// The projection of the token rows and their positions.
proof fn lemma_conv_out(e: GpuAudioEncoder, c: Clip, s: Tower, capture: bool)
    requires
        tower_sized(e, c),
        cols_of(has(s.mem, EncBuf::Packed)) == e.conv_out.k,
    ensures
        ({
            let t = goes(e, c, s, conv_out_ops(e, c, capture));
            &&& spared(s, t, |b: EncBuf| b == EncBuf::HRaw || b == EncBuf::H)
            &&& has(t.mem, EncBuf::H) == (EncVal::Placed {
                x: Box::new(
                    EncVal::Times {
                        x: Box::new(has(s.mem, EncBuf::Packed)),
                        w: Box::new(has(s.mem, EncBuf::ConvOutW)),
                        bias: None,
                        cols: e.d_model as int,
                    },
                ),
                pe: Box::new(has(s.mem, EncBuf::Pe)),
                cols: e.d_model as int,
            })
        }),
{
    let n = e.conv_out.n_pad;
    let ops = conv_out_ops(e, c, capture);
    let a = linear_ops(EncBuf::Packed, EncBuf::ConvOutW, EncBuf::HRaw, None, 0, c.s, n, c.cf, n);
    assert(a.len() == 2);
    let w = ops[2];
    let r = ops[3];
    let end = ops.subrange(4, ops.len() as int);
    assert(ops =~= a + seq![w, r] + end);
    lemma_goes_sum(e, c, s, a + seq![w, r], end);
    lemma_goes_sum(e, c, s, a, seq![w, r]);
    lemma_linear(e, c, s, EncBuf::Packed, EncBuf::ConvOutW, EncBuf::HRaw, None, 0, n, c.cf, n, false);
    let t1 = goes(e, c, s, a);
    lemma_positioned(e, c, t1);
    let t2 = goes(e, c, t1, seq![w, r]);
    assert(idle(end));
    lemma_idle(e, c, t2, end);
}

/// The heads of a layer, and their windows.
proof fn lemma_split(e: GpuAudioEncoder, c: Clip, s: Tower)
    requires
        tower_sized(e, c),
        cols_of(has(s.mem, EncBuf::Qkv)) == 3 * e.d_model,
    ensures
        ({
            let t = goes(e, c, s, split_ops(e, c));
            let x = has(s.mem, EncBuf::Qkv);
            &&& spared(
                s,
                t,
                |b: EncBuf|
                    b == EncBuf::Q || b == EncBuf::K || b == EncBuf::V || b == EncBuf::Qp || b == EncBuf::Kt || b
                        == EncBuf::Vp,
            )
            &&& has(t.mem, EncBuf::Qp) == window_of(e, x, 0, e.wlen())
            &&& has(t.mem, EncBuf::Kt) == window_of(e, x, 1, e.wlen())
            &&& has(t.mem, EncBuf::Vp) == window_of(e, x, 2, e.wlen())
        }),
{
    let ops = split_ops(e, c);
    assert(ops =~= seq![ops[0], ops[1]] + seq![ops[2], ops[3]]);
    lemma_goes_sum(e, c, s, seq![ops[0], ops[1]], seq![ops[2], ops[3]]);
    lemma_pair(e, c, s, ops[0], ops[1]);
    let t = goes(e, c, s, seq![ops[0], ops[1]]);
    let x = has(s.mem, EncBuf::Qkv);
    assert(has(t.mem, EncBuf::Q) == (EncVal::Heads { x: Box::new(x), which: 0, cols: e.attn_cols as int }));
    assert(has(t.mem, EncBuf::K) == (EncVal::Heads { x: Box::new(x), which: 1, cols: e.attn_cols as int }));
    assert(has(t.mem, EncBuf::V) == (EncVal::Heads { x: Box::new(x), which: 2, cols: e.attn_cols as int }));
    lemma_pair(e, c, t, ops[2], ops[3]);
}

/// The scores of every window.
proof fn lemma_window_scores(e: GpuAudioEncoder, c: Clip, s: Tower, slot: int)
    requires
        tower_sized(e, c),
        0 <= slot < 256,
    ensures
        ({
            let t = goes(
                e,
                c,
                s,
                gemm_ops(
                    Pipe::GemmT,
                    EncBuf::Qp,
                    EncBuf::Kt,
                    EncBuf::Scores,
                    None,
                    slot,
                    score_shape(e, c),
                    1,
                    1,
                ),
            );
            &&& spared(s, t, |b: EncBuf| b == EncBuf::Scores)
            &&& has(t.mem, EncBuf::Scores) == (EncVal::Product {
                a: Box::new(has(s.mem, EncBuf::Qp)),
                b: Box::new(has(s.mem, EncBuf::Kt)),
            })
        }),
{
    let ops = gemm_ops(Pipe::GemmT, EncBuf::Qp, EncBuf::Kt, EncBuf::Scores, None, slot, score_shape(e, c), 1, 1);
    assert(ops =~= seq![ops[0], ops[1]]);
    lemma_pair(e, c, s, ops[0], ops[1]);
    lemma_align_bounds(128, 128);
    assert(128 * e.hd / 2 == 64 * e.hd);
}

/// The mixed values of every window.
proof fn lemma_window_values(e: GpuAudioEncoder, c: Clip, s: Tower, slot: int)
    requires
        tower_sized(e, c),
        0 <= slot < 256,
    ensures
        ({
            let t = goes(
                e,
                c,
                s,
                gemm_ops(Pipe::GemmT, EncBuf::Attn, EncBuf::Vp, EncBuf::AttnOut, None, slot, value_shape(c), 1, 1),
            );
            &&& spared(s, t, |b: EncBuf| b == EncBuf::AttnOut)
            &&& has(t.mem, EncBuf::AttnOut) == (EncVal::Product {
                a: Box::new(has(s.mem, EncBuf::Attn)),
                b: Box::new(has(s.mem, EncBuf::Vp)),
            })
        }),
{
    let ops = gemm_ops(Pipe::GemmT, EncBuf::Attn, EncBuf::Vp, EncBuf::AttnOut, None, slot, value_shape(c), 1, 1);
    assert(ops =~= seq![ops[0], ops[1]]);
    lemma_pair(e, c, s, ops[0], ops[1]);
    lemma_align_bounds(128, 128);
}

/// Attention of one layer, from the windows on.
proof fn lemma_window_attention(e: GpuAudioEncoder, c: Clip, s: Tower, slot: int, x: EncVal)
    requires
        tower_sized(e, c),
        0 <= slot,
        slot + 1 < 256,
        has(s.mem, EncBuf::Qp) == window_of(e, x, 0, e.wlen()),
        has(s.mem, EncBuf::Kt) == window_of(e, x, 1, e.wlen()),
        has(s.mem, EncBuf::Vp) == window_of(e, x, 2, e.wlen()),
    ensures
        ({
            let t = goes(e, c, s, attention_ops(e, c, slot));
            &&& spared(
                s,
                t,
                |b: EncBuf|
                    b == EncBuf::Scores || b == EncBuf::Attn || b == EncBuf::AttnOut || b == EncBuf::AttnFlat,
            )
            &&& has(t.mem, EncBuf::AttnFlat) == window_attention(e, c, x)
        }),
{
    let ops = attention_ops(e, c, slot);
    let a = gemm_ops(Pipe::GemmT, EncBuf::Qp, EncBuf::Kt, EncBuf::Scores, None, slot, score_shape(e, c), 1, 1);
    let b = gemm_ops(Pipe::GemmT, EncBuf::Attn, EncBuf::Vp, EncBuf::AttnOut, None, slot + 1, value_shape(c), 1, 1);
    assert(ops =~= a + seq![ops[2], ops[3]] + b + seq![ops[6], ops[7]]);
    lemma_goes_sum(e, c, s, a + seq![ops[2], ops[3]] + b, seq![ops[6], ops[7]]);
    lemma_goes_sum(e, c, s, a + seq![ops[2], ops[3]], b);
    lemma_goes_sum(e, c, s, a, seq![ops[2], ops[3]]);
    lemma_window_scores(e, c, s, slot);
    let t1 = goes(e, c, s, a);
    lemma_softened(e, c, t1);
    let t2 = goes(e, c, t1, seq![ops[2], ops[3]]);
    lemma_window_values(e, c, t2, slot + 1);
    let t3 = goes(e, c, t2, b);
    lemma_flattened(e, c, t3);
}

/// The softmax of every window.
proof fn lemma_softened(e: GpuAudioEncoder, c: Clip, s: Tower)
    requires
        tower_sized(e, c),
    ensures
        ({
            let ops = attention_ops(e, c, 0);
            let t = goes(e, c, s, seq![ops[2], ops[3]]);
            &&& spared(s, t, |b: EncBuf| b == EncBuf::Attn)
            &&& has(t.mem, EncBuf::Attn) == (EncVal::Probs {
                x: Box::new(has(s.mem, EncBuf::Scores)),
                scale_bits: c.scale_bits,
                wlen: e.wlen(),
            })
        }),
{
    let ops = attention_ops(e, c, 0);
    lemma_pair(e, c, s, ops[2], ops[3]);
}

/// The windows put back into token rows.
proof fn lemma_flattened(e: GpuAudioEncoder, c: Clip, s: Tower)
    requires
        tower_sized(e, c),
    ensures
        ({
            let ops = attention_ops(e, c, 0);
            let t = goes(e, c, s, seq![ops[6], ops[7]]);
            &&& spared(s, t, |b: EncBuf| b == EncBuf::AttnFlat)
            &&& has(t.mem, EncBuf::AttnFlat) == (EncVal::Rows {
                x: Box::new(has(s.mem, EncBuf::AttnOut)),
                wlen: e.wlen(),
                cols: e.d_model as int,
            })
        }),
{
    let ops = attention_ops(e, c, 0);
    lemma_pair(e, c, s, ops[6], ops[7]);
    let n = c.s_pad * e.attn_cols;
    let h = e.attn_cols as int / 2;
    assert(n == 2 * (c.s_pad * h) && n >= 0) by (nonlinear_arith)
        requires
            n == c.s_pad * e.attn_cols,
            e.attn_cols == 2 * h,
            h >= 0,
    ;
    lemma_align_bounds(n / 2, 256);
}

/// A layer writes this buffer.
pub open spec fn layer_writes(b: EncBuf) -> bool {
    b == EncBuf::H || b == EncBuf::Normed || b == EncBuf::Norm2 || b == EncBuf::Qkv || b == EncBuf::Q || b == EncBuf::K
        || b == EncBuf::V || b == EncBuf::AttnFlat || b == EncBuf::Qp || b == EncBuf::Kt || b == EncBuf::Vp || b
        == EncBuf::Scores || b == EncBuf::Attn || b == EncBuf::AttnOut || b == EncBuf::Gu || b == EncBuf::Gact
}

/// The attention half of a layer.
proof fn lemma_first_half(e: GpuAudioEncoder, c: Clip, s: Tower, li: usize)
    requires
        tower_sized(e, c),
        li < e.layers@.len(),
        cols_of(has(s.mem, EncBuf::H)) == e.d_model,
    ensures
        ({
            let l = e.layers@[li as int];
            let slot = li * 6;
            let ops = norm_ops(e, EncBuf::H, EncBuf::SlnW(li), EncBuf::SlnB(li), EncBuf::Normed, c.s) + linear_ops(
                EncBuf::Normed,
                EncBuf::QkvW(li),
                EncBuf::Qkv,
                Some(EncBuf::QkvB(li)),
                slot,
                c.s,
                l.qkv.n_pad,
                l.qkv.k,
                l.qkv.n_pad,
            ) + split_ops(e, c) + attention_ops(e, c, slot + 1) + residual_ops(
                EncBuf::AttnFlat,
                EncBuf::OW(li),
                EncBuf::H,
                Some(EncBuf::OB(li)),
                slot + 3,
                c.s,
                l.o.n_pad,
                l.o.k,
                e.d_model,
            );
            let t = goes(e, c, s, ops);
            &&& spared(s, t, |b: EncBuf| layer_writes(b))
            &&& has(t.mem, EncBuf::H) == after_attention(e, c, s.mem, li, has(s.mem, EncBuf::H))
        }),
{
    assert(layer_sized(e, c, li as int));
    let l = e.layers@[li as int];
    let slot = li * 6;
    let x = has(s.mem, EncBuf::H);
    let a1 = norm_ops(e, EncBuf::H, EncBuf::SlnW(li), EncBuf::SlnB(li), EncBuf::Normed, c.s);
    let a2 = linear_ops(
        EncBuf::Normed,
        EncBuf::QkvW(li),
        EncBuf::Qkv,
        Some(EncBuf::QkvB(li)),
        slot,
        c.s,
        l.qkv.n_pad,
        l.qkv.k,
        l.qkv.n_pad,
    );
    let a3 = split_ops(e, c);
    let a4 = attention_ops(e, c, slot + 1);
    let a5 = residual_ops(
        EncBuf::AttnFlat,
        EncBuf::OW(li),
        EncBuf::H,
        Some(EncBuf::OB(li)),
        slot + 3,
        c.s,
        l.o.n_pad,
        l.o.k,
        e.d_model,
    );
    lemma_goes_sum(e, c, s, a1 + a2 + a3 + a4, a5);
    lemma_goes_sum(e, c, s, a1 + a2 + a3, a4);
    lemma_goes_sum(e, c, s, a1 + a2, a3);
    lemma_goes_sum(e, c, s, a1, a2);
    lemma_normed(e, c, s, EncBuf::SlnW(li), EncBuf::SlnB(li), EncBuf::Normed);
    let t1 = goes(e, c, s, a1);
    lemma_linear(
        e,
        c,
        t1,
        EncBuf::Normed,
        EncBuf::QkvW(li),
        EncBuf::Qkv,
        Some(EncBuf::QkvB(li)),
        slot,
        l.qkv.n_pad,
        l.qkv.k,
        l.qkv.n_pad,
        false,
    );
    let t2 = goes(e, c, t1, a2);
    let h = heads_of(e, s.mem, li, x);
    assert(has(t2.mem, EncBuf::Qkv) == h);
    lemma_split(e, c, t2);
    let t3 = goes(e, c, t2, a3);
    lemma_window_attention(e, c, t3, slot + 1, h);
    let t4 = goes(e, c, t3, a4);
    assert(has(t4.mem, EncBuf::H) == x);
    lemma_linear(
        e,
        c,
        t4,
        EncBuf::AttnFlat,
        EncBuf::OW(li),
        EncBuf::H,
        Some(EncBuf::OB(li)),
        slot + 3,
        l.o.n_pad,
        l.o.k,
        e.d_model,
        true,
    );
}

/// The feed-forward half of a layer.
proof fn lemma_second_half(e: GpuAudioEncoder, c: Clip, s: Tower, li: usize)
    requires
        tower_sized(e, c),
        li < e.layers@.len(),
        cols_of(has(s.mem, EncBuf::H)) == e.d_model,
    ensures
        ({
            let l = e.layers@[li as int];
            let slot = li * 6;
            let ops = norm_ops(e, EncBuf::H, EncBuf::FlnW(li), EncBuf::FlnB(li), EncBuf::Norm2, c.s) + linear_ops(
                EncBuf::Norm2,
                EncBuf::Fc1W(li),
                EncBuf::Gu,
                None,
                slot + 4,
                c.s,
                l.fc1.n_pad,
                l.fc1.k,
                l.fc1.n_pad,
            ) + gelu_ops(
                EncBuf::Gu,
                EncBuf::Fc1B(li),
                EncBuf::Gact,
                3,
                c.s_pad * l.fc1.n_pad,
                l.fc1.n_pad as int / 2,
                false,
            ) + residual_ops(
                EncBuf::Gact,
                EncBuf::Fc2W(li),
                EncBuf::H,
                Some(EncBuf::Fc2B(li)),
                slot + 5,
                c.s,
                l.fc2.n_pad,
                l.fc2.k,
                e.d_model,
            );
            let t = goes(e, c, s, ops);
            &&& spared(s, t, |b: EncBuf| layer_writes(b))
            &&& has(t.mem, EncBuf::H) == after_feed(e, s.mem, li, has(s.mem, EncBuf::H))
        }),
{
    assert(layer_sized(e, c, li as int));
    let l = e.layers@[li as int];
    let slot = li * 6;
    let a1 = norm_ops(e, EncBuf::H, EncBuf::FlnW(li), EncBuf::FlnB(li), EncBuf::Norm2, c.s);
    let a2 = linear_ops(
        EncBuf::Norm2,
        EncBuf::Fc1W(li),
        EncBuf::Gu,
        None,
        slot + 4,
        c.s,
        l.fc1.n_pad,
        l.fc1.k,
        l.fc1.n_pad,
    );
    let a3 = gelu_ops(
        EncBuf::Gu,
        EncBuf::Fc1B(li),
        EncBuf::Gact,
        3,
        c.s_pad * l.fc1.n_pad,
        l.fc1.n_pad as int / 2,
        false,
    );
    let a4 = residual_ops(
        EncBuf::Gact,
        EncBuf::Fc2W(li),
        EncBuf::H,
        Some(EncBuf::Fc2B(li)),
        slot + 5,
        c.s,
        l.fc2.n_pad,
        l.fc2.k,
        e.d_model,
    );
    lemma_goes_sum(e, c, s, a1 + a2 + a3, a4);
    lemma_goes_sum(e, c, s, a1 + a2, a3);
    lemma_goes_sum(e, c, s, a1, a2);
    lemma_normed(e, c, s, EncBuf::FlnW(li), EncBuf::FlnB(li), EncBuf::Norm2);
    let t1 = goes(e, c, s, a1);
    lemma_linear(
        e,
        c,
        t1,
        EncBuf::Norm2,
        EncBuf::Fc1W(li),
        EncBuf::Gu,
        None,
        slot + 4,
        l.fc1.n_pad,
        l.fc1.k,
        l.fc1.n_pad,
        false,
    );
    let t2 = goes(e, c, t1, a2);
    lemma_row_gelu(e, c, t2, EncBuf::Fc1B(li), 3, l.fc1.n_pad);
    let t3 = goes(e, c, t2, a3);
    lemma_linear(
        e,
        c,
        t3,
        EncBuf::Gact,
        EncBuf::Fc2W(li),
        EncBuf::H,
        Some(EncBuf::Fc2B(li)),
        slot + 5,
        l.fc2.n_pad,
        l.fc2.k,
        e.d_model,
        true,
    );
}

/// One layer and what follows it.
proof fn lemma_tower_layer(e: GpuAudioEncoder, c: Clip, s: Tower, li: usize, capture: bool)
    requires
        tower_sized(e, c),
        li < e.layers@.len(),
        cols_of(has(s.mem, EncBuf::H)) == e.d_model,
    ensures
        ({
            let t = goes(e, c, s, layer_ops(e, c, li, capture) + layer_end(e, c, li as int, capture));
            &&& spared(s, t, |b: EncBuf| layer_writes(b))
            &&& has(t.mem, EncBuf::H) == after_feed(
                e,
                s.mem,
                li,
                after_attention(e, c, s.mem, li, has(s.mem, EncBuf::H)),
            )
        }),
{
    let l = e.layers@[li as int];
    let slot = li * 6;
    let a = norm_ops(e, EncBuf::H, EncBuf::SlnW(li), EncBuf::SlnB(li), EncBuf::Normed, c.s) + linear_ops(
        EncBuf::Normed,
        EncBuf::QkvW(li),
        EncBuf::Qkv,
        Some(EncBuf::QkvB(li)),
        slot,
        c.s,
        l.qkv.n_pad,
        l.qkv.k,
        l.qkv.n_pad,
    ) + split_ops(e, c) + attention_ops(e, c, slot + 1) + residual_ops(
        EncBuf::AttnFlat,
        EncBuf::OW(li),
        EncBuf::H,
        Some(EncBuf::OB(li)),
        slot + 3,
        c.s,
        l.o.n_pad,
        l.o.k,
        e.d_model,
    );
    let m = mid_ops(e, c, capture && li == 0);
    let b = norm_ops(e, EncBuf::H, EncBuf::FlnW(li), EncBuf::FlnB(li), EncBuf::Norm2, c.s) + linear_ops(
        EncBuf::Norm2,
        EncBuf::Fc1W(li),
        EncBuf::Gu,
        None,
        slot + 4,
        c.s,
        l.fc1.n_pad,
        l.fc1.k,
        l.fc1.n_pad,
    ) + gelu_ops(
        EncBuf::Gu,
        EncBuf::Fc1B(li),
        EncBuf::Gact,
        3,
        c.s_pad * l.fc1.n_pad,
        l.fc1.n_pad as int / 2,
        false,
    ) + residual_ops(
        EncBuf::Gact,
        EncBuf::Fc2W(li),
        EncBuf::H,
        Some(EncBuf::Fc2B(li)),
        slot + 5,
        c.s,
        l.fc2.n_pad,
        l.fc2.k,
        e.d_model,
    );
    let z = layer_end(e, c, li as int, capture);
    assert(layer_ops(e, c, li, capture) =~= a + m + b);
    lemma_goes_sum(e, c, s, a + m + b, z);
    lemma_goes_sum(e, c, s, a + m, b);
    lemma_goes_sum(e, c, s, a, m);
    lemma_first_half(e, c, s, li);
    let t1 = goes(e, c, s, a);
    assert(idle(m));
    lemma_idle(e, c, t1, m);
    lemma_second_half(e, c, t1, li);
    let t2 = goes(e, c, t1, b);
    assert(idle(z));
    lemma_idle(e, c, t2, z);
    let y = has(t1.mem, EncBuf::H);
    assert(after_feed(e, t1.mem, li, y) == after_feed(e, s.mem, li, y)) by {
        assert(layer_norm(e, t1.mem, y, EncBuf::FlnW(li), EncBuf::FlnB(li)) == layer_norm(
            e,
            s.mem,
            y,
            EncBuf::FlnW(li),
            EncBuf::FlnB(li),
        ));
    }
}

proof fn lemma_same_layer(e: GpuAudioEncoder, c: Clip, s: Tower, t: Tower, l: usize, x: EncVal)
    requires
        forall|b: EncBuf| !layer_writes(b) ==> #[trigger] has(t.mem, b) == has(s.mem, b),
    ensures
        after_feed(e, t.mem, l, after_attention(e, c, t.mem, l, x)) == after_feed(
            e,
            s.mem,
            l,
            after_attention(e, c, s.mem, l, x),
        ),
{
    assert(heads_of(e, t.mem, l, x) == heads_of(e, s.mem, l, x));
    let y = after_attention(e, c, s.mem, l, x);
    assert(after_attention(e, c, t.mem, l, x) == y);
    assert(layer_norm(e, t.mem, y, EncBuf::FlnW(l), EncBuf::FlnB(l)) == layer_norm(
        e,
        s.mem,
        y,
        EncBuf::FlnW(l),
        EncBuf::FlnB(l),
    ));
}

/// The first `n` layers.
proof fn lemma_tower_layers(e: GpuAudioEncoder, c: Clip, s: Tower, n: nat, capture: bool)
    requires
        tower_sized(e, c),
        n <= e.layers@.len(),
        cols_of(has(s.mem, EncBuf::H)) == e.d_model,
    ensures
        ({
            let t = goes(e, c, s, layers_ops(e, c, n, capture));
            &&& spared(s, t, |b: EncBuf| layer_writes(b))
            &&& has(t.mem, EncBuf::H) == tower_hidden(e, c, s.mem, has(s.mem, EncBuf::H), n)
            &&& cols_of(has(t.mem, EncBuf::H)) == e.d_model
        }),
    decreases n,
{
    if n == 0 {
        lemma_goes_none(e, c, s);
    } else {
        let k = (n - 1) as nat;
        let li = k as usize;
        lemma_tower_layers(e, c, s, k, capture);
        let a = layers_ops(e, c, k, capture);
        let b = layer_ops(e, c, li, capture);
        let z = layer_end(e, c, n - 1, capture);
        let t = goes(e, c, s, a);
        assert(layers_ops(e, c, n, capture) =~= a + (b + z));
        lemma_goes_sum(e, c, s, a, b + z);
        lemma_tower_layer(e, c, t, li, capture);
        lemma_same_layer(e, c, s, t, li, has(t.mem, EncBuf::H));
    }
}

/// The last norm and the projector.
proof fn lemma_projected(e: GpuAudioEncoder, c: Clip, s: Tower)
    requires
        tower_sized(e, c),
        cols_of(has(s.mem, EncBuf::H)) == e.d_model,
    ensures
        ({
            let t = goes(e, c, s, project_ops(e, c));
            &&& t.embeds == s.embeds
            &&& has(t.mem, EncBuf::Out) == embeddings(e, s.mem, has(s.mem, EncBuf::H))
        }),
{
    let slot = e.layers@.len() as int * 6;
    let a1 = norm_ops(e, EncBuf::H, EncBuf::LnPostW, EncBuf::LnPostB, EncBuf::Normed, c.s);
    let p1 = e.proj1.n_pad;
    let p2 = e.proj2.n_pad;
    let a2 = linear_ops(EncBuf::Normed, EncBuf::Proj1W, EncBuf::Gu, None, slot, c.s, p1, e.proj1.k, p1);
    let a3 = gelu_ops(EncBuf::Gu, EncBuf::Proj1B, EncBuf::Gact, 4, c.s_pad * p1, p1 as int / 2, false);
    let b4 = Some(EncBuf::Proj2B);
    let a4 = linear_ops(EncBuf::Gact, EncBuf::Proj2W, EncBuf::Out, b4, slot + 1, c.s, p2, e.proj2.k, p2);
    lemma_goes_sum(e, c, s, a1 + a2 + a3, a4);
    lemma_goes_sum(e, c, s, a1 + a2, a3);
    lemma_goes_sum(e, c, s, a1, a2);
    lemma_normed(e, c, s, EncBuf::LnPostW, EncBuf::LnPostB, EncBuf::Normed);
    let t1 = goes(e, c, s, a1);
    lemma_linear(e, c, t1, EncBuf::Normed, EncBuf::Proj1W, EncBuf::Gu, None, slot, p1, e.proj1.k, p1, false);
    let t2 = goes(e, c, t1, a2);
    lemma_row_gelu(e, c, t2, EncBuf::Proj1B, 4, p1);
    let t3 = goes(e, c, t2, a3);
    lemma_linear(e, c, t3, EncBuf::Gact, EncBuf::Proj2W, EncBuf::Out, b4, slot + 1, p2, e.proj2.k, p2, false);
}

/// A pass computes the tower: its commands, run on any memory, read back the
/// embeddings of the clip's tokens, two bytes an element.
pub proof fn law_encode_computes(e: GpuAudioEncoder, c: Clip, capture: bool, s: Tower)
    requires
        tower_sized(e, c),
    ensures
        goes(e, c, s, encode_ops(e, c, capture)).embeds == Some(
            (
                embeddings(e, s.mem, tower_hidden(e, c, s.mem, tower_input(e, c, s.mem), e.layers@.len())),
                c.s * e.out_dim * 2,
            ),
        ),
{
    let r = ceil_div(c.n_chunks as int, 8) as nat;
    let n = e.layers@.len();
    let a0 = scale_writes(e, c);
    let a1 = rounds_ops(e, c, r, capture);
    let a2 = conv_out_ops(e, c, capture);
    let a3 = layers_ops(e, c, n, capture);
    let a4 = project_ops(e, c);
    let a5 = finish_ops(e, c, capture);
    lemma_goes_sum(e, c, s, a0 + a1 + a2 + a3 + a4, a5);
    lemma_goes_sum(e, c, s, a0 + a1 + a2 + a3, a4);
    lemma_goes_sum(e, c, s, a0 + a1 + a2, a3);
    lemma_goes_sum(e, c, s, a0 + a1, a2);
    lemma_goes_sum(e, c, s, a0, a1);
    assert(a0 =~= seq![a0[0], a0[1]]);
    lemma_pair(e, c, s, a0[0], a0[1]);
    let t0 = goes(e, c, s, a0);
    assert(t0.mem == s.mem);
    lemma_align_bounds(c.n_chunks as int, 8);
    lemma_rounds(e, c, t0, r, capture);
    let t1 = goes(e, c, t0, a1);
    assert(r >= 1);
    assert(cols_of(has(t1.mem, EncBuf::Packed)) == e.conv_out.k);
    lemma_conv_out(e, c, t1, capture);
    let t2 = goes(e, c, t1, a2);
    assert(has(t2.mem, EncBuf::H) == tower_input(e, c, s.mem));
    lemma_tower_layers(e, c, t2, n, capture);
    let t3 = goes(e, c, t2, a3);
    lemma_same_tower(e, c, s, t2, tower_input(e, c, s.mem), n);
    lemma_projected(e, c, t3);
    let t4 = goes(e, c, t3, a4);
    let h = has(t3.mem, EncBuf::H);
    assert(embeddings(e, t3.mem, h) == embeddings(e, s.mem, h)) by {
        assert forall|b: EncBuf| !layer_writes(b) && !stem_writes(b) implies #[trigger] has(t3.mem, b) == has(s.mem, b) by {
            assert(has(t3.mem, b) == has(t2.mem, b));
            assert(has(t2.mem, b) == has(t1.mem, b));
        }
        assert(layer_norm(e, t3.mem, h, EncBuf::LnPostW, EncBuf::LnPostB) == layer_norm(
            e,
            s.mem,
            h,
            EncBuf::LnPostW,
            EncBuf::LnPostB,
        ));
    }
    let z = a5.drop_last();
    let last = a5.last();
    assert(a5 =~= z + seq![last]);
    assert(idle(z));
    lemma_goes_sum(e, c, t4, z, seq![last]);
    lemma_idle(e, c, t4, z);
    lemma_goes_one(e, c, t4, last);
    assert(c.s * e.out_dim >= 0) by (nonlinear_arith);
}

proof fn lemma_same_tower(e: GpuAudioEncoder, c: Clip, s: Tower, t: Tower, x: EncVal, n: nat)
    requires
        n <= e.layers@.len() <= 42,
        forall|b: EncBuf| !stem_writes(b) ==> #[trigger] has(t.mem, b) == has(s.mem, b),
    ensures
        tower_hidden(e, c, t.mem, x, n) == tower_hidden(e, c, s.mem, x, n),
    decreases n,
{
    if n > 0 {
        lemma_same_tower(e, c, s, t, x, (n - 1) as nat);
        let l = (n - 1) as usize;
        let h = tower_hidden(e, c, s.mem, x, (n - 1) as nat);
        assert(heads_of(e, t.mem, l, h) == heads_of(e, s.mem, l, h));
        let y = after_attention(e, c, s.mem, l, h);
        assert(after_attention(e, c, t.mem, l, h) == y);
        assert(layer_norm(e, t.mem, y, EncBuf::FlnW(l), EncBuf::FlnB(l)) == layer_norm(
            e,
            s.mem,
            y,
            EncBuf::FlnW(l),
            EncBuf::FlnB(l),
        ));
    }
}

/// Token rows of the chunks of the first `r` rounds.
pub open spec fn tokens_before(e: GpuAudioEncoder, c: Clip, r: nat) -> int
    decreases r,
{
    if r == 0 {
        0
    } else {
        tokens_before(e, c, (r - 1) as nat) + round_len(c, (r - 1) * 8) * e.tpc
    }
}

/// A command sets where a round's token rows go.
pub open spec fn sets_rows(op: EncOp) -> bool {
    op is Write && op->Write_buf == EncBuf::UPm
}

proof fn lemma_tokens_before(e: GpuAudioEncoder, c: Clip, r: nat)
    requires
        r * 8 < c.n_chunks + 8,
    ensures
        tokens_before(e, c, r) == (if r * 8 < c.n_chunks {
            (r * 8) as int
        } else {
            c.n_chunks as int
        }) * e.tpc,
    decreases r,
{
    if r > 0 {
        lemma_tokens_before(e, c, (r - 1) as nat);
        let a = (r - 1) * 8;
        let n = round_len(c, a);
        assert(a * e.tpc + n * e.tpc == (a + n) * e.tpc) by (nonlinear_arith);
    } else {
        assert(0 * e.tpc == 0) by (nonlinear_arith);
    }
}

/// The rounds of a clip fill its token rows without overlap or gap: a round's
/// first row is the number of token rows of all rounds before it, the first
/// round's is 0, and the last round ends with the rows of the last chunk. So token
/// `t` of chunk `ch` goes to row `ch * tpc + t`.
pub proof fn law_rounds_fill_rows(e: GpuAudioEncoder, c: Clip, r: nat, capture: bool, i: int)
    requires
        r * 8 < c.n_chunks,
        c.n_chunks * e.tpc <= u32::MAX,
    ensures
        ({
            let ops = round_ops(e, c, (r * 8) as int, round_len(c, (r * 8) as int), capture);
            &&& exists|j: int| 0 <= j < ops.len() && sets_rows(#[trigger] ops[j])
            &&& 0 <= i < ops.len() && sets_rows(ops[i]) ==> {
                &&& ops[i]->data is Permute
                &&& ops[i]->data->tok0 == tokens_before(e, c, r)
                &&& ops[i]->data->t3 == e.tpc as u32
            }
        }),
        tokens_before(e, c, 0) == 0,
        tokens_before(e, c, r + 1) == tokens_before(e, c, r) + round_len(c, (r * 8) as int) * e.tpc,
        forall|ch: int, t: int|
            #![trigger (ch * e.tpc + t)]
            r * 8 <= ch < r * 8 + round_len(c, (r * 8) as int) && 0 <= t < e.tpc ==> tokens_before(e, c, r) <= ch
                * e.tpc + t < tokens_before(e, c, r + 1),
        (r + 1) * 8 >= c.n_chunks ==> tokens_before(e, c, r + 1) == c.n_chunks * e.tpc,
{
    let ch0 = (r * 8) as int;
    let n = round_len(c, ch0);
    let a = level_ops(e, 0, ch0, n) + level_ops(e, 1, ch0, n) + level_ops(e, 2, ch0, n);
    let p = permute_ops(e, c, ch0);
    let z = round_end(e, ch0, capture);
    let ops = round_ops(e, c, ch0, n, capture);
    assert(a.len() == 18);
    assert(ops =~= a + p + z);
    assert(ops[18] == p[0]);
    assert(sets_rows(ops[18]));
    lemma_tokens_before(e, c, r);
    lemma_tokens_before(e, c, r + 1);
    assert(0 <= ch0 * e.tpc <= c.n_chunks * e.tpc) by (nonlinear_arith)
        requires
            0 <= ch0 <= c.n_chunks,
    ;
    if 0 <= i < ops.len() && sets_rows(ops[i]) {
        if i < 18 {
            assert(ops[i] == a[i]);
            let l0 = level_ops(e, 0, ch0, n);
            let l1 = level_ops(e, 1, ch0, n);
            let l2 = level_ops(e, 2, ch0, n);
            assert(l0.len() == 6 && l1.len() == 6 && l2.len() == 6);
            if i < 6 {
                assert(a[i] == l0[i]);
            } else if i < 12 {
                assert(a[i] == l1[i - 6]);
            } else {
                assert(a[i] == l2[i - 12]);
            }
        } else if i >= 20 {
            assert(ops[i] == z[i - 20]);
            assert(idle(z));
        }
    }
    assert forall|ch: int, t: int|
        #![trigger (ch * e.tpc + t)]
        ch0 <= ch < ch0 + n && 0 <= t < e.tpc implies tokens_before(e, c, r) <= ch * e.tpc + t < tokens_before(
        e,
        c,
        r + 1,
    ) by {
        assert(ch0 * e.tpc <= ch * e.tpc && ch * e.tpc + e.tpc <= (ch0 + n) * e.tpc) by (nonlinear_arith)
            requires
                ch0 <= ch < ch0 + n,
                e.tpc >= 0,
        ;
        assert(ch0 * e.tpc + n * e.tpc == (ch0 + n) * e.tpc) by (nonlinear_arith);
    }
}

/// The sizes of the conv levels of a tower that loads: in whole tiles, room for
/// the chunks of a round, and each level reads what the one before wrote, the
/// first the packed mel.
pub proof fn law_loaded_levels_sized(
    e: GpuAudioEncoder,
    cfg: AudioEncoderConfig,
    t: TowerShapes,
    window_infer: usize,
    i: int,
)
    requires
        tower_fits(cfg, t, window_infer as int),
        e.made(cfg, t, window_infer),
        t.padded(),
        0 <= i < 3,
        e.conv@[i].k_pad <= u32::MAX,
        e.conv@[i].n_all <= u32::MAX,
        e.conv@[i].m_pad + 128 <= u32::MAX,
        e.conv@[i].m_pad * e.conv@[i].n_all <= u32::MAX,
        e.conv@[i].in_chunk <= u32::MAX,
        e.conv@[i].in_ic <= u32::MAX,
    ensures
        level_sized(e, i),
        e.conv@[i].k == 9 * e.conv@[i].c_in,
        i == 0 ==> e.conv@[i].c_in == 1 && e.conv@[i].w_stride == e.w0 && e.conv@[i].h_in == e.n_mels
            && e.conv@[i].w_in == e.cs,
        i > 0 ==> e.conv@[i].w_stride == e.conv@[i].w_in,
{
    law_tower_is_a_chain(e, cfg, t, window_infer);
    let n = cfg.num_mel_bins as int;
    let cs = cfg.n_window * 2;
    law_round_holds_chunks(n, cs, i, 0);
    law_round_holds_chunks(n, cs, i, 7);
    assert(0 <= chain_plane(n, cs, i)) by {
        assert(conv_len(n) * conv_len(cs) >= 0) by (nonlinear_arith)
            requires
                n >= 1,
                cs >= 1,
        ;
        assert(conv_len(conv_len(n)) * conv_len(conv_len(cs)) >= 0) by (nonlinear_arith)
            requires
                n >= 1,
                cs >= 1,
        ;
        assert(token_len(n) * token_len(cs) >= 0) by (nonlinear_arith)
            requires
                n >= 1,
                cs >= 1,
        ;
    }
    lemma_align_bounds(chain_plane(n, cs, i), 32);
    lemma_align_bounds(8 * chain_pad(n, cs, i), 128);
    lemma_align_bounds(e.conv@[i].c_in * 9, 16);
    lemma_align_bounds(t.c1.n as int, 128);
    lemma_align_bounds(t.c2.n as int, 128);
    lemma_align_bounds(t.c3.n as int, 128);
}

} // verus!
