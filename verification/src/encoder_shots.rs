//! What the reads of a pass are of.
use vstd::prelude::*;

use crate::encoder::GpuAudioEncoder;
use crate::encoder_encode::{clip_allocs, tower_allocs};
use crate::encoder_ops::{EncBuf, EncOp, Shot, Stage};
use crate::encoder_plan::{
    attention_ops, attention_reads, conv_out_ops, encode_ops, finish_ops, gelu_ops, head_reads, layer_end, layer_ops,
    layers_ops, level_ops, level_reads, linear_ops, mid_ops, norm_ops, permute_ops, project_ops, read_elems,
    residual_ops, round_end, round_len, round_ops, rounds_ops, scale_writes, split_ops, Clip, EncAlloc,
};
use crate::encoder_reads::{lemma_joined, reads_back};
use crate::geometry::ceil_div;

verus! {

/// The buffer that a read for this is of.
pub open spec fn shot_buffer(s: Shot) -> EncBuf {
    match s {
        Shot::Col(i) => EncBuf::Col(i),
        Shot::Raw(i) => EncBuf::Raw(i),
        Shot::Act(i) => EncBuf::Act(i),
        Shot::MelHead => EncBuf::Mel,
        Shot::Taps(i) => EncBuf::Taps(i),
        Shot::Hidden | Shot::Mid | Shot::Layer(_) => EncBuf::H,
        Shot::Q => EncBuf::Q,
        Shot::K => EncBuf::K,
        Shot::V => EncBuf::V,
        Shot::Scores => EncBuf::Scores,
        Shot::Probs => EncBuf::Attn,
        Shot::AttnOut => EncBuf::AttnOut,
        Shot::Qp => EncBuf::Qp,
        Shot::Kt => EncBuf::Kt,
        Shot::Vp => EncBuf::Vp,
        Shot::Normed => EncBuf::Normed,
        Shot::Qkv => EncBuf::Qkv,
        Shot::AttnFlat => EncBuf::AttnFlat,
        Shot::Packed => EncBuf::Packed,
        Shot::Embeds => EncBuf::Out,
    }
}

/// Some buffer of the list has at least this many bytes; the tap tables are no
/// part of the list.
pub open spec fn room(a: Seq<EncAlloc>, buf: EncBuf, bytes: int) -> bool {
    buf is Taps || exists|i: int| 0 <= i < a.len() && (#[trigger] a[i]).buf == buf && a[i].bytes >= bytes
}

/// Every read of the list is of the buffer that it is for, and ends inside it.
#[verifier::opaque]
pub open spec fn reads_well(a: Seq<EncAlloc>, ops: Seq<EncOp>) -> bool {
    forall|i: int|
        0 <= i < ops.len() ==> (#[trigger] ops[i] matches EncOp::Read { buf, bytes, shot } ==> buf == shot_buffer(shot)
            && room(a, buf, bytes as int))
}

proof fn lemma_well_joined(a: Seq<EncAlloc>)
    ensures
        forall|x: Seq<EncOp>, y: Seq<EncOp>|
            reads_well(a, x) && reads_well(a, y) ==> #[trigger] reads_well(a, x + y),
        forall|x: Seq<EncOp>| !reads_back(x) ==> #[trigger] reads_well(a, x),
        reads_well(a, Seq::<EncOp>::empty()),
{
    reveal(reads_well);
    reveal(reads_back);
}

/// The clip's sizes are in whole words, and a chunk of the mel has at least 64
/// elements.
pub open spec fn read_sizes(e: GpuAudioEncoder, c: Clip) -> bool {
    &&& c.s <= c.s_pad && c.s_pad as int % 2 == 0
    &&& e.layers@.len() <= usize::MAX
    &&& 64 <= c.n_chunks * e.mel_chunk
    &&& c.n_chunks * e.mel_chunk * 2 <= u64::MAX
    &&& e.conv@.len() == 3
    &&& forall|i: int|
        0 <= i < 3 ==> (#[trigger] e.conv@[i]).k_pad * e.conv@[i].n_all * 2 <= u64::MAX && e.conv@[i].m_pad
            * e.conv@[i].n_all * 2 <= u64::MAX
    &&& c.s_pad * e.d_model * 2 <= u64::MAX
    &&& c.s_pad * e.attn_cols * 2 <= u64::MAX
    &&& c.s_pad * c.qkv_cols * 2 <= u64::MAX
    &&& c.s_pad * c.cf * 2 <= u64::MAX
    &&& c.s_pad * e.out_dim * 2 <= u64::MAX
    &&& c.blocks * c.wpad * c.wpad * 2 <= u64::MAX
    &&& c.blocks * c.wpad * c.hd_pad * 2 <= u64::MAX
    &&& c.blocks * c.wpad * e.hd * 2 <= u64::MAX
    &&& c.blocks * e.hd * c.wpad * 2 <= u64::MAX
}

proof fn lemma_rows_room(rows: int, pad: int, cols: int)
    requires
        0 <= rows <= pad,
        pad % 2 == 0,
        cols >= 0,
    ensures
        0 <= rows * cols * 2 <= pad * cols / 2 * 4,
        pad * cols / 2 * 4 == pad * cols * 2,
{
    let h = pad / 2;
    assert(pad * cols == 2 * (h * cols)) by (nonlinear_arith)
        requires
            pad == 2 * h,
    ;
    assert(0 <= rows * cols <= pad * cols) by (nonlinear_arith)
        requires
            0 <= rows <= pad,
            cols >= 0,
    ;
}

proof fn lemma_level_reads(e: GpuAudioEncoder, c: Clip, level: usize)
    requires
        read_sizes(e, c),
        level < 3,
    ensures
        reads_well(tower_allocs(e) + clip_allocs(e, c), level_reads(e, level)),
{
    reveal(reads_well);
    let a = tower_allocs(e) + clip_allocs(e, c);
    let l = e.conv@[level as int];
    assert(l.k_pad * l.n_all * 2 >= 0 && l.m_pad * l.n_all * 2 >= 0) by (nonlinear_arith);
    let i = level as int;
    assert(a[i].buf == EncBuf::Col(level) && a[3 + i].buf == EncBuf::Raw(level) && a[6 + i].buf == EncBuf::Act(level));
}

proof fn lemma_head_reads(e: GpuAudioEncoder, c: Clip)
    requires
        read_sizes(e, c),
    ensures
        reads_well(tower_allocs(e) + clip_allocs(e, c), head_reads()),
{
    reveal(reads_well);
    let a = tower_allocs(e) + clip_allocs(e, c);
    assert(tower_allocs(e).len() == 25);
    assert(a[25].buf == EncBuf::Mel);
}

proof fn lemma_clip_reads(e: GpuAudioEncoder, c: Clip, li: usize)
    requires
        read_sizes(e, c),
    ensures
        ({
            let a = tower_allocs(e) + clip_allocs(e, c);
            &&& reads_well(a, attention_reads(e, c))
            &&& reads_well(a, seq![read_elems(EncBuf::H, c.s_pad * e.d_model, Shot::Layer(li))])
            &&& reads_well(a, seq![read_elems(EncBuf::H, c.s_pad * e.d_model, Shot::Mid)])
            &&& reads_well(a, seq![read_elems(EncBuf::H, c.s_pad * e.d_model, Shot::Hidden)])
            &&& reads_well(a, seq![read_elems(EncBuf::Packed, c.s_pad * c.cf, Shot::Packed)])
            &&& reads_well(a, seq![read_elems(EncBuf::Out, c.s * e.out_dim, Shot::Embeds)])
        }),
{
    reveal(reads_well);
    let t = tower_allocs(e);
    let k = clip_allocs(e, c);
    let a = t + k;
    assert(t.len() == 25);
    let s = c.s as int;
    let p = c.s_pad as int;
    lemma_rows_room(p, p, e.d_model as int);
    lemma_rows_room(s, p, e.d_model as int);
    lemma_rows_room(p, p, e.attn_cols as int);
    lemma_rows_room(s, p, e.attn_cols as int);
    lemma_rows_room(s, p, c.qkv_cols as int);
    lemma_rows_room(p, p, c.cf as int);
    lemma_rows_room(s, p, e.out_dim as int);
    let b = c.blocks as int;
    let w = c.wpad as int;
    assert(b * w >= 0 && b * e.hd >= 0) by (nonlinear_arith)
        requires
            b >= 0,
            w >= 0,
    ;
    assert(b * w * w >= 0 && b * w * c.hd_pad >= 0 && b * w * e.hd >= 0 && b * e.hd * w >= 0) by (nonlinear_arith)
        requires
            b * w >= 0,
            b * e.hd >= 0,
            w >= 0,
    ;
    assert(a[26].buf == EncBuf::Packed && a[28].buf == EncBuf::H && a[29].buf == EncBuf::Normed);
    assert(a[31].buf == EncBuf::Qkv && a[32].buf == EncBuf::Q && a[33].buf == EncBuf::K);
    assert(a[34].buf == EncBuf::V && a[35].buf == EncBuf::AttnFlat && a[36].buf == EncBuf::Qp);
    assert(a[37].buf == EncBuf::Kt && a[38].buf == EncBuf::Vp && a[39].buf == EncBuf::Scores);
    assert(a[40].buf == EncBuf::Attn && a[41].buf == EncBuf::AttnOut && a[44].buf == EncBuf::Out);
}

proof fn lemma_captured_rounds(e: GpuAudioEncoder, c: Clip, k: nat, capture: bool)
    requires
        read_sizes(e, c),
    ensures
        reads_well(tower_allocs(e) + clip_allocs(e, c), rounds_ops(e, c, k, capture)),
    decreases k,
{
    let a = tower_allocs(e) + clip_allocs(e, c);
    lemma_well_joined(a);
    lemma_joined();
    if k > 0 {
        lemma_captured_rounds(e, c, (k - 1) as nat, capture);
        let ch0 = (k - 1) * 8;
        let n = round_len(c, ch0);
        let body = level_ops(e, 0, ch0, n) + level_ops(e, 1, ch0, n) + level_ops(e, 2, ch0, n) + permute_ops(e, c, ch0);
        assert(!reads_back(body) && !reads_back(seq![EncOp::Submit(Stage::Capture)]) && !reads_back(
            seq![EncOp::Submit(Stage::Round(ch0 as usize))],
        )) by {
            reveal(reads_back);
        }
        lemma_level_reads(e, c, 0);
        lemma_level_reads(e, c, 1);
        lemma_level_reads(e, c, 2);
        lemma_head_reads(e, c);
        assert(reads_well(a, round_end(e, ch0, capture)));
        assert(round_ops(e, c, ch0, n, capture) == body + round_end(e, ch0, capture));
    }
}

proof fn lemma_captured_layers(e: GpuAudioEncoder, c: Clip, k: nat, capture: bool)
    requires
        read_sizes(e, c),
        k <= usize::MAX,
    ensures
        reads_well(tower_allocs(e) + clip_allocs(e, c), layers_ops(e, c, k, capture)),
    decreases k,
{
    let a = tower_allocs(e) + clip_allocs(e, c);
    lemma_well_joined(a);
    if k > 0 {
        let li = (k - 1) as usize;
        lemma_captured_layers(e, c, (k - 1) as nat, capture);
        lemma_clip_reads(e, c, li);
        lemma_layer_reads(e, c, li, capture);
        let z = layer_end(e, c, k - 1, capture);
        assert(reads_well(a, z)) by {
            if capture {
                let one = seq![read_elems(EncBuf::H, c.s_pad * e.d_model, Shot::Layer(li))];
                let sub = seq![EncOp::Submit(Stage::Layer(li))];
                assert(reads_well(a, sub)) by {
                    reveal(reads_well);
                }
                let tail = if li == 0 {
                    attention_reads(e, c)
                } else {
                    Seq::empty()
                };
                assert(z =~= sub + one + tail);
            } else {
                reveal(reads_well);
            }
        }
    }
}

proof fn lemma_layer_reads(e: GpuAudioEncoder, c: Clip, li: usize, capture: bool)
    requires
        read_sizes(e, c),
    ensures
        reads_well(tower_allocs(e) + clip_allocs(e, c), layer_ops(e, c, li, capture)),
{
    let a = tower_allocs(e) + clip_allocs(e, c);
    let l = e.layers@[li as int];
    let slot = li * 6;
    lemma_clip_reads(e, c, li);
    lemma_well_joined(a);
    lemma_joined();
    let x1 = norm_ops(e, EncBuf::H, EncBuf::SlnW(li), EncBuf::SlnB(li), EncBuf::Normed, c.s);
    let x2 = linear_ops(
        EncBuf::Normed,
        EncBuf::QkvW(li),
        EncBuf::Qkv,
        Some(EncBuf::QkvB(li)),
        slot,
        c.s,
        l.qkv.n_pad,
        l.qkv.k,
        l.qkv.n_pad,
    );
    let x3 = split_ops(e, c);
    let x4 = attention_ops(e, c, slot + 1);
    let x5 = residual_ops(
        EncBuf::AttnFlat,
        EncBuf::OW(li),
        EncBuf::H,
        Some(EncBuf::OB(li)),
        slot + 3,
        c.s,
        l.o.n_pad,
        l.o.k,
        e.d_model,
    );
    let m = mid_ops(e, c, capture && li == 0);
    let y1 = norm_ops(e, EncBuf::H, EncBuf::FlnW(li), EncBuf::FlnB(li), EncBuf::Norm2, c.s);
    let y2 = linear_ops(
        EncBuf::Norm2,
        EncBuf::Fc1W(li),
        EncBuf::Gu,
        None,
        slot + 4,
        c.s,
        l.fc1.n_pad,
        l.fc1.k,
        l.fc1.n_pad,
    );
    let y3 = gelu_ops(
        EncBuf::Gu,
        EncBuf::Fc1B(li),
        EncBuf::Gact,
        3,
        c.s_pad * l.fc1.n_pad,
        l.fc1.n_pad as int / 2,
        false,
    );
    let y4 = residual_ops(
        EncBuf::Gact,
        EncBuf::Fc2W(li),
        EncBuf::H,
        Some(EncBuf::Fc2B(li)),
        slot + 5,
        c.s,
        l.fc2.n_pad,
        l.fc2.k,
        e.d_model,
    );
    assert(!reads_back(x1) && !reads_back(x2) && !reads_back(x3)) by {
        reveal(reads_back);
    }
    assert(!reads_back(x4) && !reads_back(x5)) by {
        reveal(reads_back);
    }
    assert(!reads_back(y1) && !reads_back(y2) && !reads_back(y3) && !reads_back(y4)) by {
        reveal(reads_back);
    }
    lemma_mid_reads(e, c, capture && li == 0);
    assert(layer_ops(e, c, li, capture) == x1 + x2 + x3 + x4 + x5 + m + y1 + y2 + y3 + y4);
}

proof fn lemma_mid_reads(e: GpuAudioEncoder, c: Clip, on: bool)
    requires
        read_sizes(e, c),
    ensures
        reads_well(tower_allocs(e) + clip_allocs(e, c), mid_ops(e, c, on)),
{
    let a = tower_allocs(e) + clip_allocs(e, c);
    lemma_clip_reads(e, c, 0);
    reveal(reads_well);
    let x = seq![read_elems(EncBuf::H, c.s_pad * e.d_model, Shot::Mid)];
    assert(x[0] is Read);
}

/// Whatever a pass reads back, captured or not, it reads from the buffer that the
/// read is for and not past its end.
pub proof fn law_reads_inside(e: GpuAudioEncoder, c: Clip, capture: bool)
    requires
        read_sizes(e, c),
    ensures
        reads_well(tower_allocs(e) + clip_allocs(e, c), encode_ops(e, c, capture)),
{
    let a = tower_allocs(e) + clip_allocs(e, c);
    lemma_well_joined(a);
    let r = ceil_div(c.n_chunks as int, 8) as nat;
    let n = e.layers@.len() as nat;
    lemma_captured_rounds(e, c, r, capture);
    lemma_captured_layers(e, c, n, capture);
    lemma_other_reads(e, c);
    lemma_conv_out_reads(e, c, capture);
    lemma_finish_reads(e, c, capture);
}

proof fn lemma_other_reads(e: GpuAudioEncoder, c: Clip)
    ensures
        reads_well(tower_allocs(e) + clip_allocs(e, c), scale_writes(e, c)),
        reads_well(tower_allocs(e) + clip_allocs(e, c), project_ops(e, c)),
{
    reveal(reads_well);
}

proof fn lemma_conv_out_reads(e: GpuAudioEncoder, c: Clip, capture: bool)
    requires
        read_sizes(e, c),
    ensures
        reads_well(tower_allocs(e) + clip_allocs(e, c), conv_out_ops(e, c, capture)),
{
    let a = tower_allocs(e) + clip_allocs(e, c);
    lemma_clip_reads(e, c, 0);
    let ops = conv_out_ops(e, c, capture);
    let x = seq![read_elems(EncBuf::H, c.s_pad * e.d_model, Shot::Hidden)];
    let body = conv_out_ops(e, c, false);
    lemma_well_joined(a);
    assert(!reads_back(body)) by {
        reveal(reads_back);
    }
    if capture {
        assert(ops =~= body + x);
    }
}

proof fn lemma_finish_reads(e: GpuAudioEncoder, c: Clip, capture: bool)
    requires
        read_sizes(e, c),
    ensures
        reads_well(tower_allocs(e) + clip_allocs(e, c), finish_ops(e, c, capture)),
{
    let a = tower_allocs(e) + clip_allocs(e, c);
    lemma_clip_reads(e, c, 0);
    lemma_well_joined(a);
    let w = seq![EncOp::Submit(Stage::Last)];
    assert(!reads_back(w)) by {
        reveal(reads_back);
    }
}

} // verus!
