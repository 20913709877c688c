//! What holds of the audio tower's plans as a whole.
use vstd::prelude::*;

use crate::config::AudioEncoderConfig;
use crate::encoder::{
    chain_all, layer_error, layers_error, tower_error, tower_fits, window_tokens, GpuAudioEncoder, LayerShapes,
    TowerShapes,
};
use crate::encoder_ops::{EncBuf, EncOp, EncUniform, Pipe};
use crate::encoder_plan::{
    attention_ops, compress_uniform, conv_out_ops, encode_ops, extract_uniform, finish_ops, flat, gelu_ops, gemm_ops,
    gemm_uniform, im2col_ops, im2col_uniform, layer_end, layer_ops, layers_ops, level_chunk0, level_input, level_ops,
    linear_ops, mid_ops, norm_ops, permute_ops, permute_uniform, position_uniform, project_ops, residual_ops, round_end,
    round_len, round_ops, rounds_ops, scale, scale_writes, score_shape, softmax_uniform, split_ops, value_shape,
    window_uniform, Clip, GemmShape, LN_EPS_BITS,
};
use crate::geometry::{align_up, ceil_div, lemma_align_bounds};
use crate::hazards::{lemma_concat, lemma_flush, lemma_quiet, lemma_write, queued, quiet, steady, Event};

verus! {

/// A place that uniforms are written to.
pub type EncPlace = (EncBuf, u64);

/// What a command does to the queued uniform writes.
pub open spec fn event_of(op: EncOp) -> Event<EncPlace, EncUniform> {
    match op {
        EncOp::Write { buf, offset, data } => Event::Write { key: (buf, offset), data },
        EncOp::Submit(_) => Event::Flush,
        _ => Event::Other,
    }
}

/// What a command list does to the queued uniform writes.
pub open spec fn events(ops: Seq<EncOp>) -> Seq<Event<EncPlace, EncUniform>> {
    ops.map_values(|op: EncOp| event_of(op))
}

proof fn lemma_events_add(a: Seq<EncOp>, b: Seq<EncOp>)
    ensures
        events(a + b) == events(a) + events(b),
{
    assert(events(a + b) =~= events(a) + events(b));
}

/// The layers' feed-forward widths are one width.
pub open spec fn one_ffn(e: GpuAudioEncoder) -> bool {
    forall|i: int| 0 <= i < e.layers@.len() ==> (#[trigger] e.layers@[i]).fc1.n_pad == e.layers@[0].fc1.n_pad
}

/// The one value that a uniform has while the conv round that begins at `h` is
/// queued.
pub open spec fn uniform_of(e: GpuAudioEncoder, c: Clip, h: int, buf: EncBuf) -> EncUniform {
    match buf {
        EncBuf::UIm(l) => im2col_uniform(e, l as int, level_chunk0(l, h), round_len(c, h)),
        EncBuf::USc(i) => if i < 3 {
            scale(e.conv@[i as int].m_pad * e.conv@[i as int].n_all, e.conv@[i as int].n_all as int / 2, true)
        } else if i == 3 {
            scale(c.s_pad * e.layers@[0].fc1.n_pad, e.layers@[0].fc1.n_pad as int / 2, false)
        } else {
            scale(c.s_pad * e.proj1.n_pad, e.proj1.n_pad as int / 2, false)
        },
        EncBuf::UPm => permute_uniform(e, c, h),
        EncBuf::UPe => position_uniform(e),
        EncBuf::UEx => extract_uniform(e, c),
        EncBuf::UWp => window_uniform(e, c),
        EncBuf::USm => softmax_uniform(c),
        EncBuf::UCp => compress_uniform(e, c),
        _ => EncUniform::Norm { d: e.d_model as u32, eps_bits: LN_EPS_BITS },
    }
}

/// Everything queued is either in a ring slot below `slot` or the one value of
/// its uniform.
pub open spec fn below(e: GpuAudioEncoder, c: Clip, h: int, m: Map<EncPlace, EncUniform>, slot: int) -> bool {
    forall|b: EncBuf, o: u64| #[trigger]
        m.contains_key((b, o)) ==> if b == EncBuf::UGd {
            o < slot * 256
        } else {
            m[(b, o)] == uniform_of(e, c, h, b)
        }
}

/// Whatever is queued, as long as it is `below` at round `h` and slot `lo`: the
/// list is steady, and what is queued behind it is `below` at round `h2` and
/// slot `hi`.
#[verifier::opaque]
pub open spec fn keeps(e: GpuAudioEncoder, c: Clip, a: Seq<EncOp>, h: int, lo: int, h2: int, hi: int) -> bool {
    forall|m: Map<EncPlace, EncUniform>| #[trigger]
        below(e, c, h, m, lo) ==> steady(m, events(a)) && below(e, c, h2, queued(m, events(a)), hi)
}

proof fn lemma_then(
    e: GpuAudioEncoder,
    c: Clip,
    a: Seq<EncOp>,
    b: Seq<EncOp>,
    h0: int,
    s0: int,
    h1: int,
    s1: int,
    h2: int,
    s2: int,
)
    requires
        keeps(e, c, a, h0, s0, h1, s1),
        keeps(e, c, b, h1, s1, h2, s2),
    ensures
        keeps(e, c, a + b, h0, s0, h2, s2),
{
    reveal(keeps);
    lemma_events_add(a, b);
    assert forall|m: Map<EncPlace, EncUniform>| #[trigger] below(e, c, h0, m, s0) implies steady(m, events(a + b))
        && below(e, c, h2, queued(m, events(a + b)), s2) by {
        lemma_concat(m, events(a), events(b));
        assert(below(e, c, h1, queued(m, events(a)), s1));
    }
}

proof fn lemma_keeps_quiet(e: GpuAudioEncoder, c: Clip, a: Seq<EncOp>, h: int, lo: int)
    requires
        quiet(events(a)),
    ensures
        keeps(e, c, a, h, lo, h, lo),
{
    reveal(keeps);
    assert forall|m: Map<EncPlace, EncUniform>| #[trigger] below(e, c, h, m, lo) implies steady(m, events(a)) && below(
        e,
        c,
        h,
        queued(m, events(a)),
        lo,
    ) by {
        lemma_quiet(m, events(a));
    }
}

/// A write of a uniform's one value, and a dispatch.
proof fn lemma_keeps_pair(e: GpuAudioEncoder, c: Clip, a: Seq<EncOp>, buf: EncBuf, h: int, lo: int)
    requires
        a.len() == 2,
        a[0] == (EncOp::Write { buf, offset: 0, data: uniform_of(e, c, h, buf) }),
        event_of(a[1]) is Other,
        buf != EncBuf::UGd,
    ensures
        keeps(e, c, a, h, lo, h, lo),
{
    lemma_one_write(e, c, a[0], buf, h, lo);
    assert(quiet(events(seq![a[1]])));
    lemma_keeps_quiet(e, c, seq![a[1]], h, lo);
    lemma_then(e, c, seq![a[0]], seq![a[1]], h, lo, h, lo, h, lo);
    assert(seq![a[0]] + seq![a[1]] =~= a);
}

/// A GEMM at the first free slot takes it.
proof fn lemma_keeps_gemm(
    e: GpuAudioEncoder,
    c: Clip,
    pipe: Pipe,
    x: EncBuf,
    w: EncBuf,
    y: EncBuf,
    bias: Option<EncBuf>,
    slot: int,
    g: GemmShape,
    gx: u32,
    gy: u32,
    h: int,
)
    requires
        0 <= slot < 256,
    ensures
        keeps(e, c, gemm_ops(pipe, x, w, y, bias, slot, g, gx, gy), h, slot, h, slot + 1),
{
    reveal(keeps);
    let a = gemm_ops(pipe, x, w, y, bias, slot, g, gx, gy);
    let data = gemm_uniform(g);
    let key = (EncBuf::UGd, (slot * 256) as u64);
    let wr = seq![Event::Write { key, data }];
    let q = seq![Event::<EncPlace, EncUniform>::Other];
    assert(events(a) =~= wr + q);
    assert(quiet(q));
    assert forall|m: Map<EncPlace, EncUniform>| #[trigger] below(e, c, h, m, slot) implies steady(m, events(a))
        && below(e, c, h, queued(m, events(a)), slot + 1) by {
        lemma_concat(m, wr, q);
        lemma_write(m, key, data);
        lemma_quiet(m.insert(key, data), q);
        let n = m.insert(key, data);
        if m.contains_key(key) {
            assert(m.contains_key((EncBuf::UGd, (slot * 256) as u64)));
        }
        assert forall|b: EncBuf, o: u64| #[trigger] n.contains_key((b, o)) implies if b == EncBuf::UGd {
            o < (slot + 1) * 256
        } else {
            n[(b, o)] == uniform_of(e, c, h, b)
        } by {
            if (b, o) != key {
                assert(m.contains_key((b, o)));
            }
        }
    }
}

/// Behind a submission nothing is queued; what follows it only reads.
proof fn lemma_keeps_submit(e: GpuAudioEncoder, c: Clip, a: Seq<EncOp>, h: int, lo: int, h2: int, hi: int)
    requires
        a.len() >= 1,
        event_of(a[0]) is Flush,
        quiet(events(a.skip(1))),
    ensures
        keeps(e, c, a, h, lo, h2, hi),
{
    reveal(keeps);
    let f = seq![Event::<EncPlace, EncUniform>::Flush];
    let q = events(a.skip(1));
    assert(events(a) =~= f + q);
    assert forall|m: Map<EncPlace, EncUniform>| #[trigger] below(e, c, h, m, lo) implies steady(m, events(a)) && below(
        e,
        c,
        h2,
        queued(m, events(a)),
        hi,
    ) by {
        lemma_concat(m, f, q);
        lemma_flush(m);
        lemma_quiet(Map::<EncPlace, EncUniform>::empty(), q);
    }
}

proof fn lemma_keeps_level(e: GpuAudioEncoder, c: Clip, level: usize, h: int)
    requires
        level < 3,
    ensures
        keeps(e, c, level_ops(e, level, h, round_len(c, h)), h, level as int, h, level + 1),
{
    let n = round_len(c, h);
    let l = e.conv@[level as int];
    let g = flat(l.m_pad, l.n_all, l.k_pad, l.n_all);
    let gx = (l.n_all / 128) as u32;
    let gy = (l.m_pad / 128) as u32;
    let a = im2col_ops(e, level, level_input(level), level_chunk0(level, h), n);
    let b = gemm_ops(
        Pipe::GemmT,
        EncBuf::ConvW(level),
        EncBuf::Col(level),
        EncBuf::Raw(level),
        None,
        level as int,
        g,
        gx,
        gy,
    );
    let d = gelu_ops(
        EncBuf::Raw(level),
        EncBuf::ConvB(level),
        EncBuf::Act(level),
        level,
        l.m_pad * l.n_all,
        l.n_all as int / 2,
        true,
    );
    lemma_keeps_pair(e, c, a, EncBuf::UIm(level), h, level as int);
    lemma_keeps_gemm(
        e,
        c,
        Pipe::GemmT,
        EncBuf::ConvW(level),
        EncBuf::Col(level),
        EncBuf::Raw(level),
        None,
        level as int,
        g,
        gx,
        gy,
        h,
    );
    lemma_keeps_pair(e, c, d, EncBuf::USc(level), h, level + 1);
    lemma_then(e, c, a, b, h, level as int, h, level as int, h, level + 1);
    lemma_then(e, c, a + b, d, h, level as int, h, level + 1, h, level + 1);
}

proof fn lemma_keeps_round(e: GpuAudioEncoder, c: Clip, h: int, h2: int, capture: bool)
    ensures
        keeps(e, c, round_ops(e, c, h, round_len(c, h), capture), h, 0, h2, 0),
{
    let n = round_len(c, h);
    let a = level_ops(e, 0, h, n);
    let b = level_ops(e, 1, h, n);
    let d = level_ops(e, 2, h, n);
    let p = permute_ops(e, c, h);
    let r = round_end(e, h, capture);
    lemma_keeps_level(e, c, 0, h);
    lemma_keeps_level(e, c, 1, h);
    lemma_keeps_level(e, c, 2, h);
    lemma_keeps_pair(e, c, p, EncBuf::UPm, h, 3);
    assert(quiet(events(r.skip(1)))) by {
        let q = events(r.skip(1));
        assert forall|i: int| 0 <= i < q.len() implies #[trigger] q[i] is Other by {
            assert(q[i] == event_of(r[i + 1]));
        }
    }
    lemma_keeps_submit(e, c, r, h, 3, h2, 0);
    lemma_then(e, c, a, b, h, 0, h, 1, h, 2);
    lemma_then(e, c, a + b, d, h, 0, h, 2, h, 3);
    lemma_then(e, c, a + b + d, p, h, 0, h, 3, h, 3);
    lemma_then(e, c, a + b + d + p, r, h, 0, h, 3, h2, 0);
}

proof fn lemma_keeps_rounds(e: GpuAudioEncoder, c: Clip, n: nat, capture: bool)
    ensures
        keeps(e, c, rounds_ops(e, c, n, capture), 0, 0, n as int * 8, 0),
    decreases n,
{
    if n == 0 {
        lemma_keeps_quiet(e, c, Seq::empty(), 0, 0);
    } else {
        let k = (n - 1) as nat;
        lemma_keeps_rounds(e, c, k, capture);
        lemma_keeps_round(e, c, k as int * 8, n as int * 8, capture);
        lemma_then(
            e,
            c,
            rounds_ops(e, c, k, capture),
            round_ops(e, c, k as int * 8, round_len(c, k as int * 8), capture),
            0,
            0,
            k as int * 8,
            0,
            n as int * 8,
            0,
        );
    }
}

proof fn lemma_keeps_linear(
    e: GpuAudioEncoder,
    c: Clip,
    x: EncBuf,
    w: EncBuf,
    y: EncBuf,
    bias: Option<EncBuf>,
    slot: int,
    m: usize,
    n: usize,
    k: usize,
    ldc: usize,
    h: int,
)
    requires
        0 <= slot < 256,
    ensures
        keeps(e, c, linear_ops(x, w, y, bias, slot, m, n, k, ldc), h, slot, h, slot + 1),
        keeps(e, c, residual_ops(x, w, y, bias, slot, m, n, k, ldc), h, slot, h, slot + 1),
{
    let gx = (n / 128) as u32;
    let gy = (align_up(m as int, 128) / 128) as u32;
    let p1 = if bias is Some {
        Pipe::GemmBias
    } else {
        Pipe::Gemm
    };
    let p2 = if bias is Some {
        Pipe::GemmBetaBias
    } else {
        Pipe::GemmBeta
    };
    lemma_keeps_gemm(e, c, p1, x, w, y, bias, slot, flat(m, n, k, ldc), gx, gy, h);
    lemma_keeps_gemm(e, c, p2, x, w, y, bias, slot, flat(m, n, k, ldc), gx, gy, h);
}

proof fn lemma_keeps_conv_out(e: GpuAudioEncoder, c: Clip, h: int, capture: bool)
    ensures
        keeps(e, c, conv_out_ops(e, c, capture), h, 0, h, 0),
{
    let full = conv_out_ops(e, c, capture);
    let a = linear_ops(
        EncBuf::Packed,
        EncBuf::ConvOutW,
        EncBuf::HRaw,
        None,
        0,
        c.s,
        e.conv_out.n_pad,
        c.cf,
        e.conv_out.n_pad,
    );
    let b = full.subrange(2, 4);
    let d = full.skip(4);
    lemma_keeps_linear(
        e,
        c,
        EncBuf::Packed,
        EncBuf::ConvOutW,
        EncBuf::HRaw,
        None,
        0,
        c.s,
        e.conv_out.n_pad,
        c.cf,
        e.conv_out.n_pad,
        h,
    );
    lemma_keeps_pair(e, c, b, EncBuf::UPe, h, 1);
    assert(quiet(events(d.skip(1))));
    lemma_keeps_submit(e, c, d, h, 1, h, 0);
    lemma_then(e, c, a, b, h, 0, h, 1, h, 1);
    lemma_then(e, c, a + b, d, h, 0, h, 1, h, 0);
    assert(a + b + d =~= full);
}

proof fn lemma_keeps_attention(e: GpuAudioEncoder, c: Clip, slot: int, h: int)
    requires
        0 <= slot,
        slot + 1 < 256,
    ensures
        keeps(e, c, attention_ops(e, c, slot), h, slot, h, slot + 2),
{
    let full = attention_ops(e, c, slot);
    let a = gemm_ops(Pipe::GemmT, EncBuf::Qp, EncBuf::Kt, EncBuf::Scores, None, slot, score_shape(e, c), 1, 1);
    let b = full.subrange(2, 4);
    let d = gemm_ops(Pipe::GemmT, EncBuf::Attn, EncBuf::Vp, EncBuf::AttnOut, None, slot + 1, value_shape(c), 1, 1);
    let f = full.subrange(6, 8);
    lemma_keeps_gemm(e, c, Pipe::GemmT, EncBuf::Qp, EncBuf::Kt, EncBuf::Scores, None, slot, score_shape(e, c), 1, 1, h);
    lemma_keeps_pair(e, c, b, EncBuf::USm, h, slot + 1);
    lemma_keeps_gemm(
        e,
        c,
        Pipe::GemmT,
        EncBuf::Attn,
        EncBuf::Vp,
        EncBuf::AttnOut,
        None,
        slot + 1,
        value_shape(c),
        1,
        1,
        h,
    );
    lemma_keeps_pair(e, c, f, EncBuf::UCp, h, slot + 2);
    lemma_then(e, c, a, b, h, slot, h, slot + 1, h, slot + 1);
    lemma_then(e, c, a + b, d, h, slot, h, slot + 1, h, slot + 2);
    lemma_then(e, c, a + b + d, f, h, slot, h, slot + 2, h, slot + 2);
    assert(a + b + d + f =~= full);
}

proof fn lemma_keeps_layer(e: GpuAudioEncoder, c: Clip, li: usize, h: int, capture: bool)
    requires
        one_ffn(e),
        li < e.layers@.len(),
        li * 6 + 5 < 256,
    ensures
        keeps(e, c, layer_ops(e, c, li, capture), h, li * 6, h, li * 6 + 6),
{
    let l = e.layers@[li as int];
    let t = li * 6;
    assert(l.fc1.n_pad == e.layers@[0].fc1.n_pad);
    let p0 = norm_ops(e, EncBuf::H, EncBuf::SlnW(li), EncBuf::SlnB(li), EncBuf::Normed, c.s);
    let p1 = linear_ops(
        EncBuf::Normed,
        EncBuf::QkvW(li),
        EncBuf::Qkv,
        Some(EncBuf::QkvB(li)),
        t,
        c.s,
        l.qkv.n_pad,
        l.qkv.k,
        l.qkv.n_pad,
    );
    let p2 = split_ops(e, c);
    let p3 = attention_ops(e, c, t + 1);
    let p4 = residual_ops(
        EncBuf::AttnFlat,
        EncBuf::OW(li),
        EncBuf::H,
        Some(EncBuf::OB(li)),
        t + 3,
        c.s,
        l.o.n_pad,
        l.o.k,
        e.d_model,
    );
    let p5 = mid_ops(e, c, capture && li == 0);
    let p6 = norm_ops(e, EncBuf::H, EncBuf::FlnW(li), EncBuf::FlnB(li), EncBuf::Norm2, c.s);
    let p7 = linear_ops(
        EncBuf::Norm2,
        EncBuf::Fc1W(li),
        EncBuf::Gu,
        None,
        t + 4,
        c.s,
        l.fc1.n_pad,
        l.fc1.k,
        l.fc1.n_pad,
    );
    let p8 = gelu_ops(
        EncBuf::Gu,
        EncBuf::Fc1B(li),
        EncBuf::Gact,
        3,
        c.s_pad * l.fc1.n_pad,
        l.fc1.n_pad as int / 2,
        false,
    );
    let p9 = residual_ops(
        EncBuf::Gact,
        EncBuf::Fc2W(li),
        EncBuf::H,
        Some(EncBuf::Fc2B(li)),
        t + 5,
        c.s,
        l.fc2.n_pad,
        l.fc2.k,
        e.d_model,
    );
    lemma_keeps_pair(e, c, p0, EncBuf::ULn, h, t);
    lemma_keeps_linear(
        e,
        c,
        EncBuf::Normed,
        EncBuf::QkvW(li),
        EncBuf::Qkv,
        Some(EncBuf::QkvB(li)),
        t,
        c.s,
        l.qkv.n_pad,
        l.qkv.k,
        l.qkv.n_pad,
        h,
    );
    assert(keeps(e, c, p2, h, t + 1, h, t + 1)) by {
        let x = p2.subrange(0, 2);
        let y = p2.subrange(2, 4);
        lemma_keeps_pair(e, c, x, EncBuf::UEx, h, t + 1);
        lemma_keeps_pair(e, c, y, EncBuf::UWp, h, t + 1);
        lemma_then(e, c, x, y, h, t + 1, h, t + 1, h, t + 1);
        assert(x + y =~= p2);
    }
    lemma_keeps_attention(e, c, t + 1, h);
    lemma_keeps_linear(
        e,
        c,
        EncBuf::AttnFlat,
        EncBuf::OW(li),
        EncBuf::H,
        Some(EncBuf::OB(li)),
        t + 3,
        c.s,
        l.o.n_pad,
        l.o.k,
        e.d_model,
        h,
    );
    assert(keeps(e, c, p5, h, t + 4, h, t + 4)) by {
        if capture && li == 0 {
            assert(quiet(events(p5.skip(1))));
            lemma_keeps_submit(e, c, p5, h, t + 4, h, t + 4);
        } else {
            lemma_keeps_quiet(e, c, p5, h, t + 4);
        }
    }
    lemma_keeps_pair(e, c, p6, EncBuf::ULn, h, t + 4);
    lemma_keeps_linear(
        e,
        c,
        EncBuf::Norm2,
        EncBuf::Fc1W(li),
        EncBuf::Gu,
        None,
        t + 4,
        c.s,
        l.fc1.n_pad,
        l.fc1.k,
        l.fc1.n_pad,
        h,
    );
    lemma_keeps_pair(e, c, p8, EncBuf::USc(3), h, t + 5);
    lemma_keeps_linear(
        e,
        c,
        EncBuf::Gact,
        EncBuf::Fc2W(li),
        EncBuf::H,
        Some(EncBuf::Fc2B(li)),
        t + 5,
        c.s,
        l.fc2.n_pad,
        l.fc2.k,
        e.d_model,
        h,
    );
    lemma_then(e, c, p0, p1, h, t, h, t, h, t + 1);
    let q = p0 + p1;
    lemma_then(e, c, q, p2, h, t, h, t + 1, h, t + 1);
    let q = q + p2;
    lemma_then(e, c, q, p3, h, t, h, t + 1, h, t + 3);
    let q = q + p3;
    lemma_then(e, c, q, p4, h, t, h, t + 3, h, t + 4);
    let q = q + p4;
    lemma_then(e, c, q, p5, h, t, h, t + 4, h, t + 4);
    let q = q + p5;
    lemma_then(e, c, q, p6, h, t, h, t + 4, h, t + 4);
    let q = q + p6;
    lemma_then(e, c, q, p7, h, t, h, t + 4, h, t + 5);
    let q = q + p7;
    lemma_then(e, c, q, p8, h, t, h, t + 5, h, t + 5);
    let q = q + p8;
    lemma_then(e, c, q, p9, h, t, h, t + 5, h, t + 6);
    assert(q + p9 == layer_ops(e, c, li, capture));
}

proof fn lemma_keeps_layers(e: GpuAudioEncoder, c: Clip, n: nat, h: int, capture: bool)
    requires
        one_ffn(e),
        n <= e.layers@.len() <= usize::MAX,
        n * 6 <= 256,
    ensures
        keeps(e, c, layers_ops(e, c, n, capture), h, 0, h, n as int * 6),
    decreases n,
{
    if n == 0 {
        lemma_keeps_quiet(e, c, Seq::empty(), h, 0);
    } else {
        let li = n - 1;
        lemma_keeps_layers(e, c, li as nat, h, capture);
        lemma_keeps_layer(e, c, li as usize, h, capture);
        let a = layers_ops(e, c, li as nat, capture);
        let b = layer_ops(e, c, li as usize, capture);
        let d = layer_end(e, c, li, capture);
        lemma_then(e, c, a, b, h, 0, h, li * 6, h, n as int * 6);
        if d.len() == 0 {
            assert(d =~= Seq::<EncOp>::empty());
            lemma_keeps_quiet(e, c, d, h, n as int * 6);
        } else {
            assert(quiet(events(d.skip(1)))) by {
                let q = events(d.skip(1));
                assert forall|i: int| 0 <= i < q.len() implies #[trigger] q[i] is Other by {
                    assert(q[i] == event_of(d[i + 1]));
                }
            }
            lemma_keeps_submit(e, c, d, h, n as int * 6, h, n as int * 6);
        }
        lemma_then(e, c, a + b, d, h, 0, h, n as int * 6, h, n as int * 6);
    }
}

/// A pass is steady: between two submissions every uniform is given one value,
/// so each dispatch reads what was written for it.
pub proof fn law_encode_steady(e: GpuAudioEncoder, c: Clip, capture: bool)
    requires
        one_ffn(e),
        1 <= e.layers@.len(),
        e.layers@.len() * 6 + 2 <= 256,
    ensures
        steady(Map::<EncPlace, EncUniform>::empty(), events(encode_ops(e, c, capture))),
{
    let e0 = Map::<EncPlace, EncUniform>::empty();
    let n = e.layers@.len() as nat;
    let r = ceil_div(c.n_chunks as int, 8) as nat;
    let h = r as int * 8;
    let t = n as int * 6;
    let a = scale_writes(e, c);
    let b = rounds_ops(e, c, r, capture);
    let d = conv_out_ops(e, c, capture);
    let f = layers_ops(e, c, n, capture);
    let g = project_ops(e, c);
    let z = finish_ops(e, c, capture);
    assert(keeps(e, c, a, 0, 0, 0, 0)) by {
        lemma_one_write(e, c, a[0], EncBuf::USc(3), 0, 0);
        lemma_one_write(e, c, a[1], EncBuf::USc(4), 0, 0);
        lemma_then(e, c, seq![a[0]], seq![a[1]], 0, 0, 0, 0, 0, 0);
        assert(seq![a[0]] + seq![a[1]] =~= a);
    }
    lemma_keeps_rounds(e, c, r, capture);
    lemma_keeps_conv_out(e, c, h, capture);
    lemma_keeps_layers(e, c, n, h, capture);
    assert(keeps(e, c, g, h, t, h, t + 2)) by {
        let p0 = norm_ops(e, EncBuf::H, EncBuf::LnPostW, EncBuf::LnPostB, EncBuf::Normed, c.s);
        let p1 = linear_ops(
            EncBuf::Normed,
            EncBuf::Proj1W,
            EncBuf::Gu,
            None,
            t,
            c.s,
            e.proj1.n_pad,
            e.proj1.k,
            e.proj1.n_pad,
        );
        let p2 = gelu_ops(
            EncBuf::Gu,
            EncBuf::Proj1B,
            EncBuf::Gact,
            4,
            c.s_pad * e.proj1.n_pad,
            e.proj1.n_pad as int / 2,
            false,
        );
        let p3 = linear_ops(
            EncBuf::Gact,
            EncBuf::Proj2W,
            EncBuf::Out,
            Some(EncBuf::Proj2B),
            t + 1,
            c.s,
            e.proj2.n_pad,
            e.proj2.k,
            e.proj2.n_pad,
        );
        lemma_keeps_pair(e, c, p0, EncBuf::ULn, h, t);
        lemma_keeps_linear(
            e,
            c,
            EncBuf::Normed,
            EncBuf::Proj1W,
            EncBuf::Gu,
            None,
            t,
            c.s,
            e.proj1.n_pad,
            e.proj1.k,
            e.proj1.n_pad,
            h,
        );
        lemma_keeps_pair(e, c, p2, EncBuf::USc(4), h, t + 1);
        lemma_keeps_linear(
            e,
            c,
            EncBuf::Gact,
            EncBuf::Proj2W,
            EncBuf::Out,
            Some(EncBuf::Proj2B),
            t + 1,
            c.s,
            e.proj2.n_pad,
            e.proj2.k,
            e.proj2.n_pad,
            h,
        );
        lemma_then(e, c, p0, p1, h, t, h, t, h, t + 1);
        lemma_then(e, c, p0 + p1, p2, h, t, h, t + 1, h, t + 1);
        lemma_then(e, c, p0 + p1 + p2, p3, h, t, h, t + 1, h, t + 2);
    }
    assert(quiet(events(z.skip(1)))) by {
        let q = events(z.skip(1));
        assert forall|i: int| 0 <= i < q.len() implies #[trigger] q[i] is Other by {
            assert(q[i] == event_of(z[i + 1]));
        }
    }
    lemma_keeps_submit(e, c, z, h, t + 2, h, 0);
    lemma_then(e, c, a, b, 0, 0, 0, 0, h, 0);
    lemma_then(e, c, a + b, d, 0, 0, h, 0, h, 0);
    lemma_then(e, c, a + b + d, f, 0, 0, h, 0, h, t);
    lemma_then(e, c, a + b + d + f, g, 0, 0, h, t, h, t + 2);
    lemma_then(e, c, a + b + d + f + g, z, 0, 0, h, t + 2, h, 0);
    assert(below(e, c, 0, e0, 0));
    reveal(keeps);
}

/// One write of a uniform's one value.
proof fn lemma_one_write(e: GpuAudioEncoder, c: Clip, op: EncOp, buf: EncBuf, h: int, lo: int)
    requires
        op == (EncOp::Write { buf, offset: 0, data: uniform_of(e, c, h, buf) }),
        buf != EncBuf::UGd,
    ensures
        keeps(e, c, seq![op], h, lo, h, lo),
{
    reveal(keeps);
    let data = uniform_of(e, c, h, buf);
    let key = (buf, 0u64);
    let w = seq![Event::Write { key, data }];
    assert(events(seq![op]) =~= w);
    assert forall|m: Map<EncPlace, EncUniform>| #[trigger] below(e, c, h, m, lo) implies steady(m, events(seq![op]))
        && below(e, c, h, queued(m, events(seq![op])), lo) by {
        lemma_write(m, key, data);
        let n = m.insert(key, data);
        if m.contains_key(key) {
            assert(m.contains_key((buf, 0u64)));
        }
        assert forall|b: EncBuf, o: u64| #[trigger] n.contains_key((b, o)) implies if b == EncBuf::UGd {
            o < lo * 256
        } else {
            n[(b, o)] == uniform_of(e, c, h, b)
        } by {
            if (b, o) != key {
                assert(m.contains_key((b, o)));
            }
        }
    }
}

/// The sizes of a tower's conv round and of its padded rows fit.
pub open spec fn round_fits(cfg: AudioEncoderConfig, t: TowerShapes) -> bool {
    let n = cfg.num_mel_bins as int;
    let cs = cfg.n_window * 2;
    &&& t.c1.n_pad * chain_all(n, cs, 0) * 2 <= usize::MAX
    &&& t.c2.n_pad * chain_all(n, cs, 1) * 2 <= usize::MAX
    &&& t.c3.n_pad * chain_all(n, cs, 2) * 2 <= usize::MAX
    &&& 16 * chain_all(n, cs, 0) * 2 <= usize::MAX
    &&& align_up(t.c1.n * 9, 16) * chain_all(n, cs, 1) * 2 <= usize::MAX
    &&& align_up(t.c2.n * 9, 16) * chain_all(n, cs, 2) * 2 <= usize::MAX
    &&& align_up(3 * cfg.d_model, 128) <= usize::MAX
    &&& align_up(2 * cfg.encoder_ffn_dim, 128) <= usize::MAX
    &&& align_up(cfg.d_model as int / cfg.encoder_attention_heads as int, 128) <= usize::MAX
}

proof fn lemma_layers_agree(l: Seq<LayerShapes>, i: int, dm: int, nh: int, hd: int, inter: int)
    requires
        0 <= i,
        layers_error(l, i, dm, nh, hd, inter) is None,
    ensures
        forall|j: int| i <= j < l.len() ==> layer_error(#[trigger] l[j], j as usize, dm, nh, hd, inter) is None,
    decreases l.len() - i,
{
    if i < l.len() {
        lemma_layers_agree(l, i + 1, dm, nh, hd, inter);
    }
}

/// A tower that loads is ready to encode: its sizes fit, its conv rounds are in
/// whole tiles and its layers share one feed-forward width.
pub proof fn law_loaded_tower_ready(e: GpuAudioEncoder, cfg: AudioEncoderConfig, t: TowerShapes, window_infer: usize)
    requires
        tower_fits(cfg, t, window_infer as int),
        tower_error(cfg, t, window_infer as int) is None,
        e.made(cfg, t, window_infer),
        round_fits(cfg, t),
        t.padded(),
        t.layers@.len() >= 1,
        window_infer >= cfg.n_window * 2,
    ensures
        e.wf(),
        one_ffn(e),
        e.in_tiles(),
{
    let n = cfg.num_mel_bins as int;
    let cs = cfg.n_window * 2;
    let dm = cfg.d_model as int;
    let nh = cfg.encoder_attention_heads as int;
    let hd = dm / nh;
    crate::geometry::law_token_len(cs);
    assert(e.wlen() == window_tokens(cs, window_infer as int));
    assert(e.wlen() >= 1) by (nonlinear_arith)
        requires
            e.wlen() == e.tpc * (window_infer as int / cs),
            e.tpc >= 1,
            window_infer >= cs,
            cs >= 1,
    ;
    assert(nh * hd <= dm) by (nonlinear_arith)
        requires
            hd == dm / nh,
            nh > 0,
    ;
    assert forall|i: int| 0 <= i < 3 implies (#[trigger] e.conv@[i]).n_all % 128 == 0 && e.conv@[i].m_pad % 128 == 0
        && e.conv@[i].m_pad * e.conv@[i].n_all * 2 <= usize::MAX && e.conv@[i].k_pad * e.conv@[i].n_all * 2
        <= usize::MAX by {
        crate::encoder::law_round_holds_chunks(n, cs, i, 0);
        lemma_align_bounds(crate::encoder::chain_plane(n, cs, i), 32);
        lemma_align_bounds(8 * crate::encoder::chain_pad(n, cs, i), 128);
        lemma_align_bounds(t.c1.n as int, 128);
        lemma_align_bounds(t.c2.n as int, 128);
        lemma_align_bounds(t.c3.n as int, 128);
        lemma_align_bounds(9, 16);
    }
    lemma_layers_agree(t.layers@, 0, dm, nh, hd, cfg.encoder_ffn_dim as int);
    assert forall|i: int| 0 <= i < e.layers@.len() implies (#[trigger] e.layers@[i]).fc1.n_pad
        == e.layers@[0].fc1.n_pad by {
        let z = 0int;
        assert(t.layers@[i].padded());
        assert(t.layers@[z].padded());
        assert(layer_error(t.layers@[i], i as usize, dm, nh, hd, cfg.encoder_ffn_dim as int) is None);
        assert(layer_error(t.layers@[z], z as usize, dm, nh, hd, cfg.encoder_ffn_dim as int) is None);
    }
}

} // verus!
