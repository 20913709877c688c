//! What an audio tower is made of: the tensors that fill its buffers, and that a
//! pass uses only what was made.
use vstd::prelude::*;

use crate::decoder_load::{joined, layer_name, layer_prefix};
use crate::encoder::GpuAudioEncoder;
use crate::encoder_encode::{clip_allocs, tower_allocs};
use crate::encoder_ops::{EncBuf, EncGroup, EncOp, Pipe, Stage};
use crate::encoder_plan::{
    attention_ops, attention_reads, conv_out_ops, encode_ops, finish_ops, gelu_ops, gemm_group, gemm_ops, head_reads,
    im2col_ops, layer_end, layer_ops, layers_ops, level_input, level_ops, level_reads, linear_ops, mid_ops, norm_ops,
    permute_ops, project_ops, round_end, round_len, round_ops, rounds_ops, scale_writes, score_shape, split_ops,
    value_shape, Clip, EncAlloc, GemmShape,
};
use crate::geometry::ceil_div;
use crate::pipelines::built_pipes;
use crate::score::texts;

verus! {

/// How tensors fill a weight and its bias.
#[derive(Clone, Copy, Debug, PartialEq, Eq, Structural)]
pub enum EncForm {
    /// A convolution kernel, flattened behind its first axis.
    Conv,
    Dense,
    /// Matrices stacked row by row.
    Fused,
    Norm,
}

/// A weight that is filled from tensors, and its bias where it is used. A name
/// is that of the module that holds both.
#[derive(Debug)]
pub struct EncFill {
    pub w: EncBuf,
    pub b: Option<EncBuf>,
    pub form: EncForm,
    pub names: Vec<String>,
}

/// A fill as a value.
pub open spec fn enc_fill(f: EncFill) -> (EncBuf, Option<EncBuf>, EncForm, Seq<Seq<char>>) {
    (f.w, f.b, f.form, texts(f.names@))
}

/// Fills as values.
pub open spec fn enc_fills(v: Seq<EncFill>) -> Seq<(EncBuf, Option<EncBuf>, EncForm, Seq<Seq<char>>)> {
    v.map_values(|f: EncFill| enc_fill(f))
}

/// What is filled before the layers.
pub open spec fn head_fills(prefix: Seq<char>) -> Seq<(EncBuf, Option<EncBuf>, EncForm, Seq<Seq<char>>)> {
    seq![
        (EncBuf::ConvW(0), Some(EncBuf::ConvB(0)), EncForm::Conv, seq![prefix + ".conv2d1"@]),
        (EncBuf::ConvW(1), Some(EncBuf::ConvB(1)), EncForm::Conv, seq![prefix + ".conv2d2"@]),
        (EncBuf::ConvW(2), Some(EncBuf::ConvB(2)), EncForm::Conv, seq![prefix + ".conv2d3"@]),
        (EncBuf::ConvOutW, None::<EncBuf>, EncForm::Dense, seq![prefix + ".conv_out"@]),
    ]
}

/// What fills layer `l`.
pub open spec fn enc_layer_fills(prefix: Seq<char>, l: usize) -> Seq<(EncBuf, Option<EncBuf>, EncForm, Seq<Seq<char>>)> {
    let p = layer_name(prefix, l as nat);
    seq![
        (EncBuf::Fc1W(l), Some(EncBuf::Fc1B(l)), EncForm::Dense, seq![p + ".fc1"@]),
        (EncBuf::SlnW(l), Some(EncBuf::SlnB(l)), EncForm::Norm, seq![p + ".self_attn_layer_norm"@]),
        (EncBuf::FlnW(l), Some(EncBuf::FlnB(l)), EncForm::Norm, seq![p + ".final_layer_norm"@]),
        (
            EncBuf::QkvW(l),
            Some(EncBuf::QkvB(l)),
            EncForm::Fused,
            seq![p + ".self_attn.q_proj"@, p + ".self_attn.k_proj"@, p + ".self_attn.v_proj"@],
        ),
        (EncBuf::OW(l), Some(EncBuf::OB(l)), EncForm::Dense, seq![p + ".self_attn.out_proj"@]),
        (EncBuf::Fc2W(l), Some(EncBuf::Fc2B(l)), EncForm::Dense, seq![p + ".fc2"@]),
    ]
}

/// What is filled behind the layers.
pub open spec fn foot_fills(prefix: Seq<char>) -> Seq<(EncBuf, Option<EncBuf>, EncForm, Seq<Seq<char>>)> {
    seq![
        (EncBuf::LnPostW, Some(EncBuf::LnPostB), EncForm::Norm, seq![prefix + ".ln_post"@]),
        (EncBuf::Proj1W, Some(EncBuf::Proj1B), EncForm::Dense, seq![prefix + ".proj1"@]),
        (EncBuf::Proj2W, Some(EncBuf::Proj2B), EncForm::Dense, seq![prefix + ".proj2"@]),
    ]
}

/// What fills the first `n` layers.
pub open spec fn body_fills(prefix: Seq<char>, n: nat) -> Seq<(EncBuf, Option<EncBuf>, EncForm, Seq<Seq<char>>)> {
    Seq::new(6 * n, |i: int| enc_layer_fills(prefix, (i / 6) as usize)[i % 6])
}

/// What fills a tower of `n` layers, in the order it is uploaded.
pub open spec fn tower_fills(prefix: Seq<char>, n: nat) -> Seq<(EncBuf, Option<EncBuf>, EncForm, Seq<Seq<char>>)> {
    head_fills(prefix) + body_fills(prefix, n) + foot_fills(prefix)
}

fn filled(w: EncBuf, b: Option<EncBuf>, form: EncForm, prefix: &str, tail: &str) -> (r: EncFill)
    ensures
        enc_fill(r) == (w, b, form, seq![prefix@ + tail@]),
{
    let name = joined(prefix, tail);
    let r = EncFill { w, b, form, names: vec![name] };
    assert(texts(r.names@) =~= seq![prefix@ + tail@]);
    r
}

fn layer_filled(prefix: &str, l: usize) -> (r: Vec<EncFill>)
    ensures
        enc_fills(r@) == enc_layer_fills(prefix@, l),
{
    let p = layer_prefix(prefix, l);
    let s = p.as_str();
    let q = joined(s, ".self_attn.q_proj");
    let k = joined(s, ".self_attn.k_proj");
    let v = joined(s, ".self_attn.v_proj");
    let qkv = EncFill { w: EncBuf::QkvW(l), b: Some(EncBuf::QkvB(l)), form: EncForm::Fused, names: vec![q, k, v] };
    assert(texts(qkv.names@) =~= seq![q@, k@, v@]);
    let r = vec![
        filled(EncBuf::Fc1W(l), Some(EncBuf::Fc1B(l)), EncForm::Dense, s, ".fc1"),
        filled(EncBuf::SlnW(l), Some(EncBuf::SlnB(l)), EncForm::Norm, s, ".self_attn_layer_norm"),
        filled(EncBuf::FlnW(l), Some(EncBuf::FlnB(l)), EncForm::Norm, s, ".final_layer_norm"),
        qkv,
        filled(EncBuf::OW(l), Some(EncBuf::OB(l)), EncForm::Dense, s, ".self_attn.out_proj"),
        filled(EncBuf::Fc2W(l), Some(EncBuf::Fc2B(l)), EncForm::Dense, s, ".fc2"),
    ];
    assert(enc_fills(r@) =~= enc_layer_fills(prefix@, l));
    r
}

/// What fills a tower, in the order it is uploaded.
pub fn tower_weights(prefix: &str, layers: usize) -> (r: Vec<EncFill>)
    ensures
        enc_fills(r@) == tower_fills(prefix@, layers as nat),
{
    let mut r: Vec<EncFill> = vec![
        filled(EncBuf::ConvW(0), Some(EncBuf::ConvB(0)), EncForm::Conv, prefix, ".conv2d1"),
        filled(EncBuf::ConvW(1), Some(EncBuf::ConvB(1)), EncForm::Conv, prefix, ".conv2d2"),
        filled(EncBuf::ConvW(2), Some(EncBuf::ConvB(2)), EncForm::Conv, prefix, ".conv2d3"),
        filled(EncBuf::ConvOutW, None, EncForm::Dense, prefix, ".conv_out"),
    ];
    assert(enc_fills(r@) =~= head_fills(prefix@));
    assert(enc_fills(r@) =~= head_fills(prefix@) + body_fills(prefix@, 0));
    for l in 0..layers
        invariant
            enc_fills(r@) == head_fills(prefix@) + body_fills(prefix@, l as nat),
    {
        let ghost before = r@;
        let mut one = layer_filled(prefix, l);
        let ghost added = one@;
        r.append(&mut one);
        proof {
            let was = body_fills(prefix@, l as nat);
            let now = body_fills(prefix@, (l + 1) as nat);
            let new = enc_layer_fills(prefix@, l);
            assert(enc_fills(r@) =~= enc_fills(before) + enc_fills(added));
            assert forall|i: int| 0 <= i < now.len() implies #[trigger] now[i] == (was + new)[i] by {
                if i >= was.len() {
                    assert(i / 6 == l);
                    assert(i % 6 == i - was.len());
                }
            }
            assert(now =~= was + new);
            assert(enc_fills(r@) =~= head_fills(prefix@) + now);
        }
    }
    let ghost before = r@;
    let mut foot = vec![
        filled(EncBuf::LnPostW, Some(EncBuf::LnPostB), EncForm::Norm, prefix, ".ln_post"),
        filled(EncBuf::Proj1W, Some(EncBuf::Proj1B), EncForm::Dense, prefix, ".proj1"),
        filled(EncBuf::Proj2W, Some(EncBuf::Proj2B), EncForm::Dense, prefix, ".proj2"),
    ];
    let ghost added = foot@;
    assert(enc_fills(added) =~= foot_fills(prefix@));
    r.append(&mut foot);
    assert(enc_fills(r@) =~= enc_fills(before) + enc_fills(added));
    r
}

/// The buffers at hand in a pass: those that the tower keeps, those of the clip,
/// the weights and biases, the tap tables and the positions.
pub open spec fn tower_bufs(e: GpuAudioEncoder, c: Clip, prefix: Seq<char>) -> Seq<EncBuf> {
    let f = tower_fills(prefix, e.layers@.len());
    (tower_allocs(e) + clip_allocs(e, c)).map_values(|x: EncAlloc| x.buf) + f.map_values(
        |x: (EncBuf, Option<EncBuf>, EncForm, Seq<Seq<char>>)| x.0,
    ) + f.map_values(
        |x: (EncBuf, Option<EncBuf>, EncForm, Seq<Seq<char>>)|
            match x.1 {
                Some(b) => b,
                None => x.0,
            },
    ) + seq![EncBuf::Taps(0), EncBuf::Taps(1), EncBuf::Taps(2), EncBuf::Pe]
}

/// A buffer of a tower of `n` layers.
pub open spec fn in_tower(n: int, b: EncBuf) -> bool {
    match b {
        EncBuf::Col(i) | EncBuf::Raw(i) | EncBuf::Act(i) | EncBuf::Taps(i) | EncBuf::UIm(i) => i < 3,
        EncBuf::ConvW(i) | EncBuf::ConvB(i) => i < 3,
        EncBuf::USc(i) => i < 5,
        EncBuf::SlnW(l) | EncBuf::SlnB(l) | EncBuf::QkvW(l) | EncBuf::QkvB(l) | EncBuf::OW(l) | EncBuf::OB(l) => l < n,
        EncBuf::FlnW(l) | EncBuf::FlnB(l) | EncBuf::Fc1W(l) | EncBuf::Fc1B(l) | EncBuf::Fc2W(l) | EncBuf::Fc2B(l) => l
            < n,
        _ => true,
    }
}

/// Where a buffer stands among the allocations; negative where it is filled.
spec fn alloc_place(b: EncBuf) -> int {
    match b {
        EncBuf::Col(i) => i as int,
        EncBuf::Raw(i) => 3 + i,
        EncBuf::Act(i) => 6 + i,
        EncBuf::UGd => 9,
        EncBuf::UIm(i) => 10 + i,
        EncBuf::USc(i) => 13 + i,
        EncBuf::UEx => 18,
        EncBuf::USm => 19,
        EncBuf::ULn => 20,
        EncBuf::UPm => 21,
        EncBuf::UPe => 22,
        EncBuf::UWp => 23,
        EncBuf::UCp => 24,
        EncBuf::Mel => 25,
        EncBuf::Packed => 26,
        EncBuf::HRaw => 27,
        EncBuf::H => 28,
        EncBuf::Normed => 29,
        EncBuf::Norm2 => 30,
        EncBuf::Qkv => 31,
        EncBuf::Q => 32,
        EncBuf::K => 33,
        EncBuf::V => 34,
        EncBuf::AttnFlat => 35,
        EncBuf::Qp => 36,
        EncBuf::Kt => 37,
        EncBuf::Vp => 38,
        EncBuf::Scores => 39,
        EncBuf::Attn => 40,
        EncBuf::AttnOut => 41,
        EncBuf::Gu => 42,
        EncBuf::Gact => 43,
        EncBuf::Out => 44,
        _ => -1,
    }
}

/// Where a weight stands among the fills of a tower of `n` layers, and whether
/// the buffer is its bias; negative where it is neither.
spec fn fill_place(n: int, b: EncBuf) -> (int, bool) {
    match b {
        EncBuf::ConvW(i) => (i as int, false),
        EncBuf::ConvB(i) => (i as int, true),
        EncBuf::ConvOutW => (3, false),
        EncBuf::Fc1W(l) => (4 + 6 * l, false),
        EncBuf::Fc1B(l) => (4 + 6 * l, true),
        EncBuf::SlnW(l) => (5 + 6 * l, false),
        EncBuf::SlnB(l) => (5 + 6 * l, true),
        EncBuf::FlnW(l) => (6 + 6 * l, false),
        EncBuf::FlnB(l) => (6 + 6 * l, true),
        EncBuf::QkvW(l) => (7 + 6 * l, false),
        EncBuf::QkvB(l) => (7 + 6 * l, true),
        EncBuf::OW(l) => (8 + 6 * l, false),
        EncBuf::OB(l) => (8 + 6 * l, true),
        EncBuf::Fc2W(l) => (9 + 6 * l, false),
        EncBuf::Fc2B(l) => (9 + 6 * l, true),
        EncBuf::LnPostW => (4 + 6 * n, false),
        EncBuf::LnPostB => (4 + 6 * n, true),
        EncBuf::Proj1W => (5 + 6 * n, false),
        EncBuf::Proj1B => (5 + 6 * n, true),
        EncBuf::Proj2W => (6 + 6 * n, false),
        EncBuf::Proj2B => (6 + 6 * n, true),
        _ => (-1, false),
    }
}

/// Every buffer of a tower is at hand in a pass.
pub proof fn law_tower_complete(e: GpuAudioEncoder, c: Clip, prefix: Seq<char>, b: EncBuf)
    requires
        in_tower(e.layers@.len() as int, b),
    ensures
        tower_bufs(e, c, prefix).contains(b),
{
    let n = e.layers@.len() as int;
    let f = tower_fills(prefix, n as nat);
    let all = tower_bufs(e, c, prefix);
    let a = tower_allocs(e) + clip_allocs(e, c);
    assert(a.len() == 45);
    assert(f.len() == 7 + 6 * n);
    if alloc_place(b) >= 0 {
        let i = alloc_place(b);
        assert(a[i].buf == b);
        assert(all[i] == b);
    } else if fill_place(n, b).0 >= 0 {
        let (i, bias) = fill_place(n, b);
        if 4 <= i < 4 + 6 * n {
            let l = (i - 4) / 6;
            assert(f[i] == body_fills(prefix, n as nat)[i - 4]);
            assert(f[i] == enc_layer_fills(prefix, l as usize)[(i - 4) % 6]);
        } else if i < 4 {
            assert(f[i] == head_fills(prefix)[i]);
        } else {
            assert(f[i] == foot_fills(prefix)[i - 4 - 6 * n]);
        }
        if bias {
            assert(f[i].1 == Some(b));
            assert(all[45 + f.len() + i] == b);
        } else {
            assert(f[i].0 == b);
            assert(all[45 + i] == b);
        }
    } else {
        let t: int = 45 + 2 * (7 + 6 * n);
        assert(all[t] == EncBuf::Taps(0));
        assert(all[t + 1] == EncBuf::Taps(1));
        assert(all[t + 2] == EncBuf::Taps(2));
        assert(all[t + 3] == EncBuf::Pe);
    }
}

/// A pipeline of the tower is built.
pub open spec fn pipe_built(p: Pipe) -> bool {
    exists|i: int| 0 <= i < built_pipes().len() && (#[trigger] built_pipes()[i]).pipe == p
}

/// Every pipeline that a pass may run is built.
pub proof fn law_pipes_built(p: Pipe)
    ensures
        pipe_built(p),
{
    let b = built_pipes();
    let i = match p {
        Pipe::Im2col => 0int,
        Pipe::Gelu => 1,
        Pipe::Gemm => 2,
        Pipe::GemmT => 3,
        Pipe::Extract => 4,
        Pipe::WinPack => 5,
        Pipe::GemmBeta => 6,
        Pipe::GemmBias => 7,
        Pipe::GemmBetaBias => 8,
        Pipe::Softmax => 9,
        Pipe::LayerNorm => 10,
        Pipe::Permute => 11,
        Pipe::AddPe => 12,
        Pipe::AttnFlat => 13,
    };
    assert(b[i].pipe == p);
}

/// Every buffer that a group binds is one of `bufs`.
pub open spec fn enc_binds_only(g: EncGroup, bufs: Seq<EncBuf>) -> bool {
    forall|i: int| 0 <= i < g.bindings_spec().len() ==> bufs.contains((#[trigger] g.bindings_spec()[i]).buf)
}

/// A command uses only built pipelines and buffers among `bufs`.
pub open spec fn enc_uses(op: EncOp, bufs: Seq<EncBuf>) -> bool {
    match op {
        EncOp::Write { buf, .. } => bufs.contains(buf),
        EncOp::Read { buf, .. } => bufs.contains(buf),
        EncOp::Run { pipe, group, .. } => pipe_built(pipe) && enc_binds_only(group, bufs),
        EncOp::RunAt { pipe, group, .. } => pipe_built(pipe) && enc_binds_only(group, bufs),
        EncOp::Submit(_) => true,
    }
}

/// So does every command of a list.
#[verifier::opaque]
pub open spec fn enc_use_only(ops: Seq<EncOp>, bufs: Seq<EncBuf>) -> bool {
    forall|i: int| 0 <= i < ops.len() ==> enc_uses(#[trigger] ops[i], bufs)
}

spec fn holds_tower(bufs: Seq<EncBuf>, n: int) -> bool {
    forall|b: EncBuf| in_tower(n, b) ==> #[trigger] bufs.contains(b)
}

/// What lists that use only `bufs` are made of.
proof fn lemma_rules(bufs: Seq<EncBuf>, n: int, e: GpuAudioEncoder)
    requires
        holds_tower(bufs, n),
    ensures
        forall|a: Seq<EncOp>, b: Seq<EncOp>|
            enc_use_only(a, bufs) && enc_use_only(b, bufs) ==> #[trigger] enc_use_only(a + b, bufs),
        enc_use_only(Seq::<EncOp>::empty(), bufs),
        forall|p: Pipe, a: EncBuf, w: EncBuf, c: EncBuf, b: Option<EncBuf>, slot: int, g: GemmShape, x: u32, y: u32|
            bufs.contains(a) && bufs.contains(w) && bufs.contains(c) && (b is Some ==> bufs.contains(b->0))
                ==> #[trigger] enc_use_only(gemm_ops(p, a, w, c, b, slot, g, x, y), bufs),
        forall|src: EncBuf, b: EncBuf, dst: EncBuf, site: usize, k: int, w: int, by: bool|
            bufs.contains(src) && bufs.contains(b) && bufs.contains(dst) && site < 5 ==> #[trigger] enc_use_only(
                gelu_ops(src, b, dst, site, k, w, by),
                bufs,
            ),
        forall|src: EncBuf, w: EncBuf, b: EncBuf, dst: EncBuf, rows: usize|
            bufs.contains(src) && bufs.contains(w) && bufs.contains(b) && bufs.contains(dst)
                ==> #[trigger] enc_use_only(norm_ops(e, src, w, b, dst, rows), bufs),
{
    reveal(enc_use_only);
    assert forall|p: Pipe| #[trigger] pipe_built(p) by {
        law_pipes_built(p);
    }
    assert(bufs.contains(EncBuf::UGd));
    assert(bufs.contains(EncBuf::ULn));
    assert forall|p: Pipe, a: EncBuf, w: EncBuf, c: EncBuf, b: Option<EncBuf>, slot: int, g: GemmShape, x: u32, y: u32|
        bufs.contains(a) && bufs.contains(w) && bufs.contains(c) && (b is Some ==> bufs.contains(b->0)) implies
        #[trigger] enc_use_only(gemm_ops(p, a, w, c, b, slot, g, x, y), bufs) by {
        assert(enc_binds_only(gemm_group(a, w, c, b), bufs));
    }
    assert forall|src: EncBuf, b: EncBuf, dst: EncBuf, site: usize, k: int, w: int, by: bool|
        bufs.contains(src) && bufs.contains(b) && bufs.contains(dst) && site < 5 implies #[trigger] enc_use_only(
        gelu_ops(src, b, dst, site, k, w, by),
        bufs,
    ) by {
        assert(bufs.contains(EncBuf::USc(site)));
        assert(enc_binds_only(EncGroup::Gelu { src, bias: b, dst, site }, bufs));
    }
    assert forall|src: EncBuf, w: EncBuf, b: EncBuf, dst: EncBuf, rows: usize|
        bufs.contains(src) && bufs.contains(w) && bufs.contains(b) && bufs.contains(dst) implies
        #[trigger] enc_use_only(norm_ops(e, src, w, b, dst, rows), bufs) by {
        assert(enc_binds_only(EncGroup::Norm { src, w, b, dst }, bufs));
    }
}

/// A group that names its own buffers.
proof fn lemma_fixed(g: EncGroup, bufs: Seq<EncBuf>, n: int)
    requires
        holds_tower(bufs, n),
        g is Extract || g is WinPack || g is Softmax || g is AttnFlat || g is Permute || g is AddPe,
    ensures
        enc_binds_only(g, bufs),
{
}

proof fn lemma_level(e: GpuAudioEncoder, level: usize, ch0: int, k: int, bufs: Seq<EncBuf>, n: int)
    requires
        holds_tower(bufs, n),
        level < 3,
    ensures
        enc_use_only(level_ops(e, level, ch0, k), bufs),
        enc_use_only(level_reads(e, level), bufs),
{
    lemma_rules(bufs, n, e);
    law_pipes_built(Pipe::Im2col);
    let input = level_input(level);
    assert(in_tower(n, input));
    assert(enc_binds_only(EncGroup::Im2col { level, input }, bufs));
    assert forall|cin0: int| #[trigger] enc_use_only(im2col_ops(e, level, input, cin0, k), bufs) by {
        reveal(enc_use_only);
    }
    assert(enc_use_only(level_reads(e, level), bufs)) by {
        reveal(enc_use_only);
    }
}

proof fn lemma_round(e: GpuAudioEncoder, c: Clip, ch0: int, k: int, capture: bool, bufs: Seq<EncBuf>, n: int)
    requires
        holds_tower(bufs, n),
    ensures
        enc_use_only(round_ops(e, c, ch0, k, capture), bufs),
{
    lemma_rules(bufs, n, e);
    lemma_level(e, 0, ch0, k, bufs, n);
    lemma_level(e, 1, ch0, k, bufs, n);
    lemma_level(e, 2, ch0, k, bufs, n);
    law_pipes_built(Pipe::Permute);
    lemma_fixed(EncGroup::Permute, bufs, n);
    assert(enc_use_only(permute_ops(e, c, ch0), bufs)) by {
        reveal(enc_use_only);
    }
    assert(enc_use_only(head_reads(), bufs)) by {
        reveal(enc_use_only);
    }
    assert forall|st: Stage| #[trigger] enc_use_only(seq![EncOp::Submit(st)], bufs) by {
        reveal(enc_use_only);
    }
    assert(enc_use_only(round_end(e, ch0, capture), bufs));
}

proof fn lemma_rounds(e: GpuAudioEncoder, c: Clip, k: nat, capture: bool, bufs: Seq<EncBuf>, n: int)
    requires
        holds_tower(bufs, n),
    ensures
        enc_use_only(rounds_ops(e, c, k, capture), bufs),
    decreases k,
{
    lemma_rules(bufs, n, e);
    if k > 0 {
        lemma_rounds(e, c, (k - 1) as nat, capture, bufs, n);
        lemma_round(e, c, (k - 1) * 8, round_len(c, (k - 1) * 8), capture, bufs, n);
    }
}

proof fn lemma_conv_out(e: GpuAudioEncoder, c: Clip, capture: bool, bufs: Seq<EncBuf>, n: int)
    requires
        holds_tower(bufs, n),
    ensures
        enc_use_only(conv_out_ops(e, c, capture), bufs),
{
    lemma_rules(bufs, n, e);
    law_pipes_built(Pipe::AddPe);
    lemma_fixed(EncGroup::AddPe, bufs, n);
    let all = conv_out_ops(e, c, capture);
    let lin = all.take(2);
    let rest = all.skip(2);
    assert(all =~= lin + rest);
    assert(lin =~= linear_ops(
        EncBuf::Packed,
        EncBuf::ConvOutW,
        EncBuf::HRaw,
        None,
        0,
        c.s,
        e.conv_out.n_pad,
        c.cf,
        e.conv_out.n_pad,
    ));
    assert(enc_use_only(rest, bufs)) by {
        reveal(enc_use_only);
    }
}

proof fn lemma_attention(e: GpuAudioEncoder, c: Clip, slot: int, bufs: Seq<EncBuf>, n: int)
    requires
        holds_tower(bufs, n),
    ensures
        enc_use_only(split_ops(e, c), bufs),
        enc_use_only(attention_ops(e, c, slot), bufs),
{
    assert forall|p: Pipe| #[trigger] pipe_built(p) by {
        law_pipes_built(p);
    }
    lemma_fixed(EncGroup::Extract, bufs, n);
    lemma_fixed(EncGroup::WinPack, bufs, n);
    lemma_fixed(EncGroup::Softmax, bufs, n);
    lemma_fixed(EncGroup::AttnFlat, bufs, n);
    assert(enc_use_only(split_ops(e, c), bufs)) by {
        reveal(enc_use_only);
    }
    lemma_rules(bufs, n, e);
    let all = attention_ops(e, c, slot);
    let soft = all.subrange(2, 4);
    let last = all.skip(6);
    assert(enc_use_only(soft, bufs) && enc_use_only(last, bufs)) by {
        reveal(enc_use_only);
    }
    assert(all =~= all.take(2) + soft + all.subrange(4, 6) + last);
    assert(all.take(2) =~= gemm_ops(
        Pipe::GemmT,
        EncBuf::Qp,
        EncBuf::Kt,
        EncBuf::Scores,
        None,
        slot,
        score_shape(e, c),
        1,
        1,
    ));
    assert(all.subrange(4, 6) =~= gemm_ops(
        Pipe::GemmT,
        EncBuf::Attn,
        EncBuf::Vp,
        EncBuf::AttnOut,
        None,
        slot + 1,
        value_shape(c),
        1,
        1,
    ));
}

proof fn lemma_layer(e: GpuAudioEncoder, c: Clip, li: usize, capture: bool, bufs: Seq<EncBuf>, n: int)
    requires
        holds_tower(bufs, n),
        li < n,
    ensures
        enc_use_only(layer_ops(e, c, li, capture), bufs),
        enc_use_only(layer_end(e, c, li as int, capture), bufs),
{
    lemma_rules(bufs, n, e);
    lemma_attention(e, c, li * 6 + 1, bufs, n);
    assert(enc_use_only(mid_ops(e, c, capture && li == 0), bufs)) by {
        reveal(enc_use_only);
    }
    assert(enc_use_only(attention_reads(e, c), bufs)) by {
        reveal(enc_use_only);
    }
    assert(enc_use_only(layer_end(e, c, li as int, capture), bufs)) by {
        reveal(enc_use_only);
    }
}

proof fn lemma_layers(e: GpuAudioEncoder, c: Clip, k: nat, capture: bool, bufs: Seq<EncBuf>, n: int)
    requires
        holds_tower(bufs, n),
        k <= n <= usize::MAX,
    ensures
        enc_use_only(layers_ops(e, c, k, capture), bufs),
    decreases k,
{
    lemma_rules(bufs, n, e);
    if k > 0 {
        lemma_layers(e, c, (k - 1) as nat, capture, bufs, n);
        lemma_layer(e, c, (k - 1) as usize, capture, bufs, n);
    }
}

/// A pass uses only what the tower and the clip made.
pub proof fn law_encode_uses_made(e: GpuAudioEncoder, c: Clip, capture: bool, prefix: Seq<char>)
    ensures
        enc_use_only(encode_ops(e, c, capture), tower_bufs(e, c, prefix)),
{
    let n = e.layers.len() as int;
    let bufs = tower_bufs(e, c, prefix);
    assert forall|b: EncBuf| in_tower(n, b) implies #[trigger] bufs.contains(b) by {
        law_tower_complete(e, c, prefix, b);
    }
    lemma_rules(bufs, n, e);
    lemma_rounds(e, c, ceil_div(c.n_chunks as int, 8) as nat, capture, bufs, n);
    lemma_conv_out(e, c, capture, bufs, n);
    lemma_layers(e, c, n as nat, capture, bufs, n);
    assert(enc_use_only(scale_writes(e, c), bufs) && enc_use_only(finish_ops(e, c, capture), bufs)) by {
        reveal(enc_use_only);
    }
    assert(enc_use_only(project_ops(e, c), bufs));
}

} // verus!
