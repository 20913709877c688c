//! Plans use only what was made: every command names a pipeline that is built and
//! buffers that exist.
use vstd::prelude::*;

use crate::decoder::{width_known, Switches, TextConfig, WgpuTextDecoder};
use crate::decoder_build::{law_load_makes, load_allocs, load_bufs, load_fills, makes};
use crate::decoder_ops::{Buf, GDims, Group, Kernel, Op};
use crate::decoder_prefill::{
    attention_ops, attention_settings, flat_ops, gemm_ops, last_ops, layer_slot, prefill_allocs, prefill_layer_ops,
    prefill_layers_ops, prefill_ops, run_at_ops, setup_ops, slab_ops, slab_settings, slabs_ops, softmax_kernel,
    tail_zeros, PrefillDims,
};
use crate::decoder_step::{
    again_ops, dispatch_chunk, encode_step_ops, gqa_ops, is_paired, kept, run_ops, split_kernel, step_layer_ops,
    step_layers_ops, step_uniforms,
};
use crate::pipelines::{built_kernels, kernel_built, law_kernels_built};

verus! {

/// Every buffer that a group binds is one of `bufs`.
pub open spec fn binds_only(g: Group, bufs: Seq<Buf>) -> bool {
    forall|i: int| 0 <= i < g.bindings_spec().len() ==> bufs.contains((#[trigger] g.bindings_spec()[i]).buf)
}

/// A command uses only built pipelines and buffers among `bufs`.
pub open spec fn uses(op: Op, bufs: Seq<Buf>) -> bool {
    match op {
        Op::Write { buf, .. } => bufs.contains(buf),
        Op::WriteZeros { buf, .. } => bufs.contains(buf),
        Op::Pipeline(k) => built_kernels().contains(k),
        Op::Bind(group) => binds_only(group, bufs),
        Op::BindAt { group, .. } => binds_only(group, bufs),
        Op::CopyToken => bufs.contains(Buf::Token) && bufs.contains(Buf::TokenStaging),
        _ => true,
    }
}

/// So does every command of a list.
#[verifier::opaque]
pub open spec fn use_only(ops: Seq<Op>, bufs: Seq<Buf>) -> bool {
    forall|i: int| 0 <= i < ops.len() ==> uses(#[trigger] ops[i], bufs)
}

/// The buffers that a prefill makes, on the slab path or not.
pub open spec fn prefill_makes(slabbed: bool, buf: Buf) -> bool {
    match buf {
        Buf::PSlabPart | Buf::PSlabStats | Buf::PSlabW => slabbed,
        Buf::PH | Buf::PNormed | Buf::PNorm2 | Buf::PQkv | Buf::PQOut | Buf::PScores | Buf::PKRep | Buf::PVRep => true,
        Buf::PAttn | Buf::PAttnFlat | Buf::PGu | Buf::PActivated | Buf::PGd | Buf::PSl | Buf::PRk => true,
        _ => false,
    }
}

/// `bufs` holds what the load of `n` layers makes and, in a prefill, what that
/// makes. `pre` says whether the prefill is slabbed.
pub open spec fn holds(bufs: Seq<Buf>, n: int, pre: Option<bool>) -> bool {
    &&& n >= 0
    &&& forall|b: Buf| makes(n, b) ==> #[trigger] bufs.contains(b)
    &&& forall|b: Buf| pre is Some && prefill_makes(pre->0, b) ==> #[trigger] bufs.contains(b)
}

/// A group that a step of `n` layers may bind, or a prefill.
spec fn known(g: Group, n: int, pre: Option<bool>) -> bool {
    match g {
        Group::GemvQkv(l) | Group::GemvO(l) | Group::GemvGu(l) | Group::GemvDp(l) => l < n,
        Group::GemvQkvNorm(l) | Group::GemvGuNorm(l) | Group::Rms1(l) | Group::Rms2(l) => l < n,
        Group::Extract(l) | Group::Gqa(l) | Group::GqaSplit(l) => l < n,
        Group::PRms1(l) | Group::PRms2(l) | Group::PExtract(l) | Group::PRepeatK(l) | Group::PRepeatV(l) => l < n
            && pre is Some,
        Group::PGemm { .. } => false,
        Group::PSlabStats | Group::PSlabWeights | Group::PSlabMerge => pre == Some(true),
        Group::PSoftmax | Group::PSilu | Group::PFinalRms { .. } => pre is Some,
        _ => true,
    }
}

proof fn lemma_group(g: Group, bufs: Seq<Buf>, n: int, pre: Option<bool>)
    requires
        holds(bufs, n, pre),
        known(g, n, pre),
    ensures
        binds_only(g, bufs),
{
}

/// What lists that use only `bufs` are made of.
proof fn lemma_rules(bufs: Seq<Buf>, n: int, pre: Option<bool>)
    requires
        holds(bufs, n, pre),
    ensures
        forall|a: Seq<Op>, b: Seq<Op>| use_only(a, bufs) && use_only(b, bufs) ==> #[trigger] use_only(a + b, bufs),
        forall|c: bool, s: Seq<Op>| use_only(s, bufs) ==> #[trigger] use_only(kept(c, s), bufs),
        forall|x: u32, y: u32, z: u32| #[trigger] use_only(again_ops(x, y, z), bufs),
        use_only(Seq::<Op>::empty(), bufs),
        forall|k: Kernel, g: Group, x: u32, y: u32, z: u32|
            kernel_built(k) && known(g, n, pre) ==> #[trigger] use_only(run_ops(k, g, x, y, z), bufs),
        forall|k: Kernel, g: Group, at: u32, x: u32, y: u32|
            kernel_built(k) && known(g, n, pre) ==> #[trigger] use_only(run_at_ops(k, g, at, x, y), bufs),
{
    reveal(use_only);
    assert forall|k: Kernel, g: Group, x: u32, y: u32, z: u32|
        kernel_built(k) && known(g, n, pre) implies #[trigger] use_only(run_ops(k, g, x, y, z), bufs) by {
        lemma_group(g, bufs, n, pre);
        law_kernels_built(k);
    }
    assert forall|k: Kernel, g: Group, at: u32, x: u32, y: u32|
        kernel_built(k) && known(g, n, pre) implies #[trigger] use_only(run_at_ops(k, g, at, x, y), bufs) by {
        lemma_group(g, bufs, n, pre);
        law_kernels_built(k);
    }
}

proof fn lemma_gqa(cfg: TextConfig, sw: Switches, l: usize, cur_len: usize, bufs: Seq<Buf>, n: int)
    requires
        holds(bufs, n, None),
        l < n,
    ensures
        use_only(gqa_ops(cfg, sw, l, cur_len), bufs),
{
    lemma_rules(bufs, n, None);
    let paired = is_paired(cfg, sw.gqa_pair);
    let split = split_kernel(paired, dispatch_chunk(cfg, sw, cur_len as int));
    assert(use_only(seq![Op::Pipeline(split)], bufs)) by {
        reveal(use_only);
        law_kernels_built(split);
    }
    assert forall|k: Kernel, x: u32, y: u32| kernel_built(k) implies #[trigger] use_only(
        run_ops(k, Group::GqaSplit(l), x, y, 1).push(Op::Pipeline(split)),
        bufs,
    ) by {
        let r = run_ops(k, Group::GqaSplit(l), x, y, 1);
        assert(r.push(Op::Pipeline(split)) =~= r + seq![Op::Pipeline(split)]);
    }
}

proof fn lemma_step_layer(cfg: TextConfig, sw: Switches, l: usize, cur_len: usize, bufs: Seq<Buf>, n: int)
    requires
        holds(bufs, n, None),
        l < n,
    ensures
        use_only(step_layer_ops(cfg, sw, l, cur_len), bufs),
{
    lemma_rules(bufs, n, None);
    lemma_gqa(cfg, sw, l, cur_len, bufs, n);
}

proof fn lemma_step_layers(cfg: TextConfig, sw: Switches, k: nat, cur_len: usize, bufs: Seq<Buf>, n: int)
    requires
        holds(bufs, n, None),
        k <= n <= usize::MAX,
    ensures
        use_only(step_layers_ops(cfg, sw, k, cur_len), bufs),
    decreases k,
{
    lemma_rules(bufs, n, None);
    if k > 0 {
        lemma_step_layers(cfg, sw, (k - 1) as nat, cur_len, bufs, n);
        lemma_step_layer(cfg, sw, (k - 1) as usize, cur_len, bufs, n);
    }
}

/// A decode step uses only what was made at load.
pub proof fn law_step_uses_loaded(
    dec: WgpuTextDecoder,
    sw: Switches,
    scale_bits: u32,
    pos: usize,
    max_seq: usize,
    rope_positions: usize,
    prefix: Seq<char>,
)
    ensures
        use_only(
            step_uniforms(dec, sw, scale_bits, pos) + encode_step_ops(dec.cfg, sw, (pos + 1) as usize) + seq![Op::Submit],
            load_bufs(
                load_allocs(dec.cfg, max_seq, rope_positions),
                load_fills(prefix, dec.cfg.num_hidden_layers as nat),
            ),
        ),
{
    let cfg = dec.cfg;
    let n = cfg.num_hidden_layers as int;
    let bufs = load_bufs(load_allocs(cfg, max_seq, rope_positions), load_fills(prefix, n as nat));
    assert forall|b: Buf| makes(n, b) implies #[trigger] bufs.contains(b) by {
        law_load_makes(cfg, max_seq, rope_positions, prefix, b);
    }
    let cur = (pos + 1) as usize;
    lemma_step_layers(cfg, sw, n as nat, cur, bufs, n);
    lemma_rules(bufs, n, None);
    assert(use_only(step_uniforms(dec, sw, scale_bits, pos), bufs)) by {
        reveal(use_only);
    }
    assert(use_only(seq![Op::CopyToken], bufs)) by {
        reveal(use_only);
    }
    assert(use_only(seq![Op::Submit], bufs)) by {
        reveal(use_only);
    }
}

proof fn lemma_gemms(bufs: Seq<Buf>, n: int, pre: Option<bool>)
    requires
        holds(bufs, n, pre),
        pre is Some,
    ensures
        forall|k: Kernel, a: Buf, w: Buf, c: Buf, o: int, slot: int, g: GDims, x: u32, y: u32, z: u32|
            kernel_built(k) && bufs.contains(a) && bufs.contains(w) && bufs.contains(c) ==> #[trigger] use_only(
                gemm_ops(k, a, w, c, o, slot, g, x, y, z),
                bufs,
            ),
{
    reveal(use_only);
    assert forall|k: Kernel, a: Buf, w: Buf, c: Buf, o: int, slot: int, g: GDims, x: u32, y: u32, z: u32|
        kernel_built(k) && bufs.contains(a) && bufs.contains(w) && bufs.contains(c) implies #[trigger] use_only(
        gemm_ops(k, a, w, c, o, slot, g, x, y, z),
        bufs,
    ) by {
        law_kernels_built(k);
        assert(bufs.contains(Buf::PGd));
        assert(binds_only(Group::PGemm { a, w, c, c_off: o as u64 }, bufs));
    }
}

proof fn lemma_slab_settings(cfg: TextConfig, d: PrefillDims, scale_bits: u32, k: nat, bufs: Seq<Buf>)
    requires
        bufs.contains(Buf::PSl),
    ensures
        use_only(slab_settings(cfg, d, scale_bits, k), bufs),
    decreases k,
{
    reveal(use_only);
    if k > 0 {
        lemma_slab_settings(cfg, d, scale_bits, (k - 1) as nat, bufs);
    }
}

proof fn lemma_tail_zeros(cfg: TextConfig, d: PrefillDims, k: nat, bufs: Seq<Buf>)
    requires
        bufs.contains(Buf::PKRep),
        bufs.contains(Buf::PVRep),
    ensures
        use_only(tail_zeros(cfg, d, k), bufs),
    decreases k,
{
    reveal(use_only);
    if k > 0 {
        lemma_tail_zeros(cfg, d, (k - 1) as nat, bufs);
    }
}

proof fn lemma_setup(dec: WgpuTextDecoder, d: PrefillDims, scale_bits: u32, bufs: Seq<Buf>, n: int)
    requires
        holds(bufs, n, Some(d.slabbed())),
    ensures
        use_only(setup_ops(dec, d, scale_bits), bufs),
{
    let cfg = dec.cfg;
    lemma_slab_settings(cfg, d, scale_bits, d.n_slab as nat, bufs);
    lemma_tail_zeros(cfg, d, cfg.num_attention_heads as nat, bufs);
    assert(bufs.contains(Buf::USilu) && bufs.contains(Buf::UQkvx) && bufs.contains(Buf::PSl) && bufs.contains(Buf::PRk));
    assert(use_only(attention_settings(cfg, d, scale_bits), bufs)) by {
        reveal(use_only);
    }
    let all = setup_ops(dec, d, scale_bits);
    let zeros = if d.nkv_rows > d.cur {
        tail_zeros(cfg, d, cfg.num_attention_heads as nat)
    } else {
        Seq::empty()
    };
    lemma_rules(bufs, n, Some(d.slabbed()));
    let first = all.take(2);
    let last = all.skip(all.len() - 1);
    assert(use_only(first, bufs) && use_only(last, bufs)) by {
        reveal(use_only);
    }
    assert(all =~= first + attention_settings(cfg, d, scale_bits) + zeros + last);
}

proof fn lemma_slabs(cfg: TextConfig, d: PrefillDims, dup: Seq<char>, k: nat, bufs: Seq<Buf>, n: int)
    requires
        holds(bufs, n, Some(true)),
    ensures
        use_only(slabs_ops(cfg, d, dup, k), bufs),
    decreases k,
{
    lemma_rules(bufs, n, Some(true));
    if k > 0 {
        lemma_slabs(cfg, d, dup, (k - 1) as nat, bufs, n);
        lemma_gemms(bufs, n, Some(true));
        assert(use_only(slab_ops(cfg, d, dup, k - 1), bufs));
    }
}

proof fn lemma_attention(cfg: TextConfig, d: PrefillDims, sw: Switches, slot: int, bufs: Seq<Buf>, n: int)
    requires
        holds(bufs, n, Some(d.slabbed())),
        !d.slabbed() ==> width_known(sw.sm_bs),
    ensures
        use_only(attention_ops(cfg, d, sw, slot), bufs),
{
    lemma_rules(bufs, n, Some(d.slabbed()));
    if d.slabbed() {
        lemma_slabs(cfg, d, sw.dup@, d.n_slab as nat, bufs, n);
    } else {
        lemma_gemms(bufs, n, Some(false));
        assert(kernel_built(softmax_kernel(d.cur, sw.sm_bs)));
        assert(use_only(flat_ops(cfg, d, sw.dup@, sw.sm_bs, slot), bufs));
    }
}

proof fn lemma_layer(cfg: TextConfig, d: PrefillDims, sw: Switches, l: usize, slot: int, bufs: Seq<Buf>, n: int)
    requires
        holds(bufs, n, Some(d.slabbed())),
        !d.slabbed() ==> width_known(sw.sm_bs),
        l < n,
    ensures
        use_only(prefill_layer_ops(cfg, d, sw, l, slot), bufs),
{
    lemma_rules(bufs, n, Some(d.slabbed()));
    lemma_gemms(bufs, n, Some(d.slabbed()));
    lemma_attention(cfg, d, sw, slot + 1, bufs, n);
}

proof fn lemma_layers(cfg: TextConfig, d: PrefillDims, sw: Switches, k: nat, bufs: Seq<Buf>, n: int)
    requires
        holds(bufs, n, Some(d.slabbed())),
        !d.slabbed() ==> width_known(sw.sm_bs),
        k <= n <= usize::MAX,
    ensures
        use_only(prefill_layers_ops(cfg, d, sw, k), bufs),
    decreases k,
{
    lemma_rules(bufs, n, Some(d.slabbed()));
    if k > 0 {
        let l = (k - 1) as usize;
        lemma_layers(cfg, d, sw, (k - 1) as nat, bufs, n);
        lemma_layer(cfg, d, sw, l, layer_slot(d, sw.dup@, k - 1), bufs, n);
        assert(use_only(seq![Op::SubmitWait { layer: l }], bufs)) by {
            reveal(use_only);
        }
    }
}

/// A prefill uses only what was made at load and what it makes itself.
pub proof fn law_prefill_uses_made(
    dec: WgpuTextDecoder,
    d: PrefillDims,
    sw: Switches,
    scale_bits: u32,
    max_seq: usize,
    rope_positions: usize,
    prefix: Seq<char>,
)
    requires
        !d.slabbed() ==> width_known(sw.sm_bs),
    ensures
        use_only(
            prefill_ops(dec, d, sw, scale_bits),
            load_bufs(
                load_allocs(dec.cfg, max_seq, rope_positions) + prefill_allocs(dec.cfg, d),
                load_fills(prefix, dec.cfg.num_hidden_layers as nat),
            ),
        ),
{
    let cfg = dec.cfg;
    let n = cfg.num_hidden_layers as int;
    let p = prefill_allocs(cfg, d);
    let a = load_allocs(cfg, max_seq, rope_positions);
    let f = load_fills(prefix, n as nat);
    let bufs = load_bufs(a + p, f);
    let base = load_bufs(a, f);
    assert forall|b: Buf| makes(n, b) implies #[trigger] bufs.contains(b) by {
        law_load_makes(cfg, max_seq, rope_positions, prefix, b);
        let i = choose|i: int| 0 <= i < base.len() && base[i] == b;
        if i < a.len() {
            assert(bufs[i] == b);
        } else {
            assert(bufs[i + p.len()] == b);
        }
    }
    assert forall|b: Buf| prefill_makes(d.slabbed(), b) implies #[trigger] bufs.contains(b) by {
        lemma_prefill_at(cfg, d, b);
        let i = choose|i: int| 0 <= i < p.len() && (#[trigger] p[i]).buf == b;
        assert(bufs[a.len() + i] == b);
    }
    lemma_rules(bufs, n, Some(d.slabbed()));
    lemma_setup(dec, d, scale_bits, bufs, n);
    lemma_layers(cfg, d, sw, n as nat, bufs, n);
    assert(use_only(seq![Op::CopyToken, Op::Submit], bufs)) by {
        reveal(use_only);
    }
    assert(use_only(last_ops(cfg, d), bufs));
}

proof fn lemma_prefill_at(cfg: TextConfig, d: PrefillDims, b: Buf)
    requires
        prefill_makes(d.slabbed(), b),
    ensures
        exists|i: int| 0 <= i < prefill_allocs(cfg, d).len() && (#[trigger] prefill_allocs(cfg, d)[i]).buf == b,
{
    let p = prefill_allocs(cfg, d);
    let k = if d.slabbed() {
        3int
    } else {
        0
    };
    let i = match b {
        Buf::PH => 0int,
        Buf::PNormed => 1,
        Buf::PNorm2 => 2,
        Buf::PQkv => 3,
        Buf::PQOut => 4,
        Buf::PScores => 5,
        Buf::PKRep => 6,
        Buf::PVRep => 7,
        Buf::PAttn => 8,
        Buf::PSlabPart => 9,
        Buf::PSlabStats => 10,
        Buf::PSlabW => 11,
        Buf::PAttnFlat => 9 + k,
        Buf::PGu => 10 + k,
        Buf::PActivated => 11 + k,
        Buf::PGd => 12 + k,
        Buf::PSl => 13 + k,
        _ => 14 + k,
    };
    assert(p[i].buf == b);
}

} // verus!
