//! What holds of the decoder's plans as a whole.
use vstd::prelude::*;

use crate::decoder::{Switches, TextConfig, WgpuTextDecoder, MAX_SLAB};
use crate::decoder_ops::{Buf, GDims, Group, Kernel, Op, Uniform};
use crate::decoder_prefill::{
    attention_ops, attention_settings, attention_slots, flat_ops, flat_slots, gemm_ops, last_ops,
    law_slots_in_ring, layer_slot, layer_slots, one_if, prefill_layer_ops, prefill_layers_ops, prefill_ops,
    run_at_ops, setup_ops, slab_ops, slab_score_dims, slab_settings, slab_softmax, slab_statistics,
    slab_value_dims, slabs_ops, slots_fit, submits_after, tail_zeros, PrefillDims,
};
use crate::decoder_step::{again_ops, kept, run_ops, silu_write, step_uniforms};
use crate::hazards::{lemma_concat, lemma_flush, lemma_quiet, lemma_write, queued, quiet, steady, Event};

verus! {

/// A place that uniforms are written to.
pub type Place = (Buf, u64);

/// What a command does to the queued uniform writes.
pub open spec fn event_of(op: Op) -> Event<Place, Uniform> {
    match op {
        Op::Write { buf, offset, data } => Event::Write { key: (buf, offset), data },
        Op::Submit => Event::Flush,
        Op::SubmitWait { .. } => Event::Flush,
        _ => Event::Other,
    }
}

/// What a command list does to the queued uniform writes.
pub open spec fn events(ops: Seq<Op>) -> Seq<Event<Place, Uniform>> {
    ops.map_values(|op: Op| event_of(op))
}

proof fn lemma_events_add(a: Seq<Op>, b: Seq<Op>)
    ensures
        events(a + b) == events(a) + events(b),
{
    assert(events(a + b) =~= events(a) + events(b));
}

/// The GEMM dimensions that the slab slots carry.
pub open spec fn slab_slot_dims(cfg: TextConfig, d: PrefillDims, k: int) -> Uniform {
    if k < d.n_slab {
        Uniform::Gemm(slab_score_dims(cfg, d, k))
    } else {
        Uniform::Gemm(slab_value_dims(cfg, d, k - d.n_slab))
    }
}

/// Of the GEMM slots only those below `slot` are queued, and the slab slots
/// carry what they always carry.
pub open spec fn ring_below(cfg: TextConfig, d: PrefillDims, m: Map<Place, Uniform>, slot: int) -> bool {
    forall|o: u64| #[trigger]
        m.contains_key((Buf::PGd, o)) ==> {
            &&& o < slot * 256
            &&& o < 8192 ==> m[(Buf::PGd, o)] == slab_slot_dims(cfg, d, o as int / 256)
        }
}

/// Whatever is queued, as long as it uses only GEMM slots below `lo`: the list
/// is steady and uses only those below `hi`.
pub open spec fn keeps_ring(cfg: TextConfig, d: PrefillDims, a: Seq<Op>, lo: int, hi: int) -> bool {
    forall|m: Map<Place, Uniform>| #[trigger]
        ring_below(cfg, d, m, lo) ==> steady(m, events(a)) && ring_below(cfg, d, queued(m, events(a)), hi)
}

proof fn lemma_ring_add(cfg: TextConfig, d: PrefillDims, a: Seq<Op>, b: Seq<Op>, lo: int, mid: int, hi: int)
    requires
        keeps_ring(cfg, d, a, lo, mid),
        keeps_ring(cfg, d, b, mid, hi),
    ensures
        keeps_ring(cfg, d, a + b, lo, hi),
{
    lemma_events_add(a, b);
    assert forall|m: Map<Place, Uniform>| #[trigger] ring_below(cfg, d, m, lo) implies steady(m, events(a + b))
        && ring_below(cfg, d, queued(m, events(a + b)), hi) by {
        lemma_concat(m, events(a), events(b));
        assert(ring_below(cfg, d, queued(m, events(a)), mid));
    }
}

proof fn lemma_ring_quiet(cfg: TextConfig, d: PrefillDims, a: Seq<Op>, lo: int)
    requires
        quiet(events(a)),
    ensures
        keeps_ring(cfg, d, a, lo, lo),
{
    assert forall|m: Map<Place, Uniform>| #[trigger] ring_below(cfg, d, m, lo) implies steady(m, events(a))
        && ring_below(cfg, d, queued(m, events(a)), lo) by {
        lemma_quiet(m, events(a));
    }
}

proof fn lemma_ring_run(cfg: TextConfig, d: PrefillDims, kernel: Kernel, group: Group, x: u32, y: u32, z: u32, lo: int)
    ensures
        keeps_ring(cfg, d, run_ops(kernel, group, x, y, z), lo, lo),
{
    lemma_ring_quiet(cfg, d, run_ops(kernel, group, x, y, z), lo);
}

proof fn lemma_ring_run_at(cfg: TextConfig, d: PrefillDims, kernel: Kernel, group: Group, at: u32, x: u32, y: u32, lo: int)
    ensures
        keeps_ring(cfg, d, run_at_ops(kernel, group, at, x, y), lo, lo),
{
    lemma_ring_quiet(cfg, d, run_at_ops(kernel, group, at, x, y), lo);
}

proof fn lemma_ring_again(cfg: TextConfig, d: PrefillDims, cond: bool, x: u32, y: u32, z: u32, lo: int)
    ensures
        keeps_ring(cfg, d, kept(cond, again_ops(x, y, z)), lo, lo),
{
    lemma_ring_quiet(cfg, d, kept(cond, again_ops(x, y, z)), lo);
}

/// A GEMM at the first free slot takes it.
proof fn lemma_ring_gemm(
    cfg: TextConfig,
    d: PrefillDims,
    kernel: Kernel,
    a: Buf,
    w: Buf,
    c: Buf,
    c_off: int,
    slot: int,
    g: GDims,
    x: u32,
    y: u32,
    z: u32,
)
    requires
        32 <= slot < 256,
    ensures
        keeps_ring(cfg, d, gemm_ops(kernel, a, w, c, c_off, slot, g, x, y, z), slot, slot + 1),
{
    let ops = gemm_ops(kernel, a, w, c, c_off, slot, g, x, y, z);
    let key = (Buf::PGd, (slot * 256) as u64);
    let wr = seq![Event::Write { key, data: Uniform::Gemm(g) }];
    let rest = events(ops).skip(1);
    assert(events(ops) =~= wr + rest);
    assert forall|m: Map<Place, Uniform>| #[trigger] ring_below(cfg, d, m, slot) implies steady(m, events(ops))
        && ring_below(cfg, d, queued(m, events(ops)), slot + 1) by {
        lemma_concat(m, wr, rest);
        lemma_write(m, key, Uniform::Gemm(g));
        lemma_quiet(m.insert(key, Uniform::Gemm(g)), rest);
        let n = m.insert(key, Uniform::Gemm(g));
        assert forall|o: u64| #[trigger] n.contains_key((Buf::PGd, o)) implies {
            &&& o < (slot + 1) * 256
            &&& o < 8192 ==> n[(Buf::PGd, o)] == slab_slot_dims(cfg, d, o as int / 256)
        } by {
            if o != slot * 256 {
                assert(m.contains_key((Buf::PGd, o)));
            }
        }
        assert(!m.contains_key(key));
    }
}

/// A GEMM at a slab slot writes what the slot carries anyway.
proof fn lemma_ring_slab_gemm(
    cfg: TextConfig,
    d: PrefillDims,
    cond: bool,
    kernel: Kernel,
    a: Buf,
    w: Buf,
    c: Buf,
    c_off: int,
    k: int,
    g: GDims,
    x: u32,
    y: u32,
    z: u32,
    lo: int,
)
    requires
        0 <= k < 32 <= lo,
        Uniform::Gemm(g) == slab_slot_dims(cfg, d, k),
    ensures
        keeps_ring(cfg, d, kept(cond, gemm_ops(kernel, a, w, c, c_off, k, g, x, y, z)), lo, lo),
{
    let ops = gemm_ops(kernel, a, w, c, c_off, k, g, x, y, z);
    if !cond {
        lemma_ring_quiet(cfg, d, Seq::empty(), lo);
    } else {
        let key = (Buf::PGd, (k * 256) as u64);
        let wr = seq![Event::Write { key, data: Uniform::Gemm(g) }];
        let rest = events(ops).skip(1);
        assert(events(ops) =~= wr + rest);
        assert forall|m: Map<Place, Uniform>| #[trigger] ring_below(cfg, d, m, lo) implies steady(m, events(ops))
            && ring_below(cfg, d, queued(m, events(ops)), lo) by {
            lemma_concat(m, wr, rest);
            lemma_write(m, key, Uniform::Gemm(g));
            lemma_quiet(m.insert(key, Uniform::Gemm(g)), rest);
            let n = m.insert(key, Uniform::Gemm(g));
            assert forall|o: u64| #[trigger] n.contains_key((Buf::PGd, o)) implies {
                &&& o < lo * 256
                &&& o < 8192 ==> n[(Buf::PGd, o)] == slab_slot_dims(cfg, d, o as int / 256)
            } by {
                if o != k * 256 {
                    assert(m.contains_key((Buf::PGd, o)));
                }
            }
        }
    }
}

proof fn lemma_ring_slab(cfg: TextConfig, d: PrefillDims, dup: Seq<char>, t: int, lo: int)
    requires
        0 <= t < d.n_slab <= 16,
        lo >= 32,
    ensures
        keeps_ring(cfg, d, slab_ops(cfg, d, dup, t), lo, lo),
{
    let nqh = cfg.num_attention_heads as u32;
    let my = (d.mp / 128) as u32;
    let (gx, gy) = crate::decoder_prefill::row_grid(cfg, d);
    let sd = slab_score_dims(cfg, d, t);
    let vd = slab_value_dims(cfg, d, t);
    let off = crate::decoder_prefill::slab_part_offset(cfg, d, t);
    let sc = gemm_ops(Kernel::GemmCausal, Buf::PQOut, Buf::PKRep, Buf::PScores, 0, t, sd, 8, my, nqh);
    let va = gemm_ops(
        Kernel::GemmAvCausal,
        Buf::PAttn,
        Buf::PVRep,
        Buf::PSlabPart,
        off,
        d.n_slab + t,
        vd,
        1,
        my,
        nqh,
    );
    let c1 = kept(dup == "p_scores"@, sc);
    let c2 = run_at_ops(Kernel::SlabStats, Group::PSlabStats, ((16 + t) * 256) as u32, gx, gy);
    let c3 = run_at_ops(Kernel::Softmax(256), Group::PSoftmax, (t * 256) as u32, gx, gy);
    let c4 = kept(dup == "p_softmax"@, again_ops(gx, gy, 1));
    let c6 = kept(dup == "p_av"@, va);
    lemma_ring_slab_gemm(cfg, d, true, Kernel::GemmCausal, Buf::PQOut, Buf::PKRep, Buf::PScores, 0, t, sd, 8, my, nqh, lo);
    lemma_ring_slab_gemm(cfg, d, dup == "p_scores"@, Kernel::GemmCausal, Buf::PQOut, Buf::PKRep, Buf::PScores, 0, t, sd, 8, my, nqh, lo);
    lemma_ring_run_at(cfg, d, Kernel::SlabStats, Group::PSlabStats, ((16 + t) * 256) as u32, gx, gy, lo);
    lemma_ring_run_at(cfg, d, Kernel::Softmax(256), Group::PSoftmax, (t * 256) as u32, gx, gy, lo);
    lemma_ring_again(cfg, d, dup == "p_softmax"@, gx, gy, 1, lo);
    lemma_ring_slab_gemm(cfg, d, true, Kernel::GemmAvCausal, Buf::PAttn, Buf::PVRep, Buf::PSlabPart, off, d.n_slab + t, vd, 1, my, nqh, lo);
    lemma_ring_slab_gemm(cfg, d, dup == "p_av"@, Kernel::GemmAvCausal, Buf::PAttn, Buf::PVRep, Buf::PSlabPart, off, d.n_slab + t, vd, 1, my, nqh, lo);
    lemma_ring_add(cfg, d, sc, c1, lo, lo, lo);
    lemma_ring_add(cfg, d, sc + c1, c2, lo, lo, lo);
    lemma_ring_add(cfg, d, sc + c1 + c2, c3, lo, lo, lo);
    lemma_ring_add(cfg, d, sc + c1 + c2 + c3, c4, lo, lo, lo);
    lemma_ring_add(cfg, d, sc + c1 + c2 + c3 + c4, va, lo, lo, lo);
    lemma_ring_add(cfg, d, sc + c1 + c2 + c3 + c4 + va, c6, lo, lo, lo);
}

proof fn lemma_ring_slabs(cfg: TextConfig, d: PrefillDims, dup: Seq<char>, n: nat, lo: int)
    requires
        n <= d.n_slab <= 16,
        lo >= 32,
    ensures
        keeps_ring(cfg, d, slabs_ops(cfg, d, dup, n), lo, lo),
    decreases n,
{
    if n == 0 {
        lemma_ring_quiet(cfg, d, Seq::empty(), lo);
    } else {
        let k = (n - 1) as nat;
        lemma_ring_slabs(cfg, d, dup, k, lo);
        lemma_ring_slab(cfg, d, dup, n - 1, lo);
        lemma_ring_add(cfg, d, slabs_ops(cfg, d, dup, k), slab_ops(cfg, d, dup, n - 1), lo, lo, lo);
    }
}

proof fn lemma_ring_maybe_gemm(
    cfg: TextConfig,
    d: PrefillDims,
    cond: bool,
    kernel: Kernel,
    a: Buf,
    w: Buf,
    c: Buf,
    slot: int,
    g: GDims,
    x: u32,
    y: u32,
    z: u32,
)
    requires
        cond ==> 32 <= slot < 256,
    ensures
        keeps_ring(cfg, d, kept(cond, gemm_ops(kernel, a, w, c, 0, slot, g, x, y, z)), slot, slot + one_if(cond)),
{
    if cond {
        lemma_ring_gemm(cfg, d, kernel, a, w, c, 0, slot, g, x, y, z);
    } else {
        lemma_ring_quiet(cfg, d, Seq::empty(), slot);
    }
}

proof fn lemma_ring_flat(cfg: TextConfig, d: PrefillDims, dup: Seq<char>, forced: u32, slot: int)
    requires
        32 <= slot,
        slot + flat_slots(dup) <= 256,
    ensures
        keeps_ring(cfg, d, flat_ops(cfg, d, dup, forced, slot), slot, slot + flat_slots(dup)),
{
    let nqh = cfg.num_attention_heads as u32;
    let hd = cfg.head_dim as int;
    let my = (d.mp / 128) as u32;
    let nx = (d.np / 128) as u32;
    let (gx, gy) = crate::decoder_prefill::row_grid(cfg, d);
    let sd = crate::decoder_prefill::dense_dims(
        d.s as int,
        d.cur as int,
        hd,
        d.np as int,
        d.mp * hd / 2,
        d.np * hd / 2,
        d.mp * d.np,
    );
    let vd = crate::decoder_prefill::dense_dims(
        d.s as int,
        hd,
        d.cur16 as int,
        cfg.num_attention_heads * hd,
        d.mp * d.cur16 / 2,
        d.np * hd / 2,
        hd,
    );
    let ds = dup == "p_scores"@;
    let dv = dup == "p_av"@;
    let v = slot + 1 + one_if(ds);
    let k = crate::decoder_prefill::softmax_kernel(d.cur, forced);
    let a0 = gemm_ops(Kernel::GemmCausal, Buf::PQOut, Buf::PKRep, Buf::PScores, 0, slot, sd, nx, my, nqh);
    let a1 = kept(ds, gemm_ops(Kernel::Gemm, Buf::PQOut, Buf::PKRep, Buf::PScores, 0, slot + 1, sd, nx, my, nqh));
    let a2 = run_at_ops(k, Group::PSoftmax, 0, gx, gy);
    let a3 = kept(dup == "p_softmax"@, again_ops(gx, gy, 1));
    let a4 = gemm_ops(Kernel::GemmAvCausal, Buf::PAttn, Buf::PVRep, Buf::PAttnFlat, 0, v, vd, 1, my, nqh);
    let a5 = kept(dv, gemm_ops(Kernel::GemmAv, Buf::PAttn, Buf::PVRep, Buf::PAttnFlat, 0, v + 1, vd, 1, my, nqh));
    lemma_ring_gemm(cfg, d, Kernel::GemmCausal, Buf::PQOut, Buf::PKRep, Buf::PScores, 0, slot, sd, nx, my, nqh);
    lemma_ring_maybe_gemm(cfg, d, ds, Kernel::Gemm, Buf::PQOut, Buf::PKRep, Buf::PScores, slot + 1, sd, nx, my, nqh);
    lemma_ring_run_at(cfg, d, k, Group::PSoftmax, 0, gx, gy, v);
    lemma_ring_again(cfg, d, dup == "p_softmax"@, gx, gy, 1, v);
    lemma_ring_gemm(cfg, d, Kernel::GemmAvCausal, Buf::PAttn, Buf::PVRep, Buf::PAttnFlat, 0, v, vd, 1, my, nqh);
    lemma_ring_maybe_gemm(cfg, d, dv, Kernel::GemmAv, Buf::PAttn, Buf::PVRep, Buf::PAttnFlat, v + 1, vd, 1, my, nqh);
    lemma_ring_add(cfg, d, a0, a1, slot, slot + 1, v);
    lemma_ring_add(cfg, d, a0 + a1, a2, slot, v, v);
    lemma_ring_add(cfg, d, a0 + a1 + a2, a3, slot, v, v);
    lemma_ring_add(cfg, d, a0 + a1 + a2 + a3, a4, slot, v, v + 1);
    lemma_ring_add(cfg, d, a0 + a1 + a2 + a3 + a4, a5, slot, v + 1, v + 1 + one_if(dv));
}

proof fn lemma_ring_attention(cfg: TextConfig, d: PrefillDims, sw: Switches, slot: int)
    requires
        d.n_slab <= 16,
        32 <= slot,
        slot + attention_slots(d, sw.dup@) <= 256,
    ensures
        keeps_ring(cfg, d, attention_ops(cfg, d, sw, slot), slot, slot + attention_slots(d, sw.dup@)),
{
    if d.slabbed() {
        let (wx, wy) = crate::decoder_prefill::weight_grid(cfg, d);
        let mx = crate::decoder_prefill::merge_grid(cfg, d);
        let nqh = cfg.num_attention_heads as u32;
        let a = slabs_ops(cfg, d, sw.dup@, d.n_slab as nat);
        let b = run_ops(Kernel::SlabWeights, Group::PSlabWeights, wx, wy, 1);
        let c = run_ops(Kernel::SlabMerge, Group::PSlabMerge, mx, nqh, 1);
        lemma_ring_slabs(cfg, d, sw.dup@, d.n_slab as nat, slot);
        lemma_ring_run(cfg, d, Kernel::SlabWeights, Group::PSlabWeights, wx, wy, 1, slot);
        lemma_ring_run(cfg, d, Kernel::SlabMerge, Group::PSlabMerge, mx, nqh, 1, slot);
        lemma_ring_add(cfg, d, a, b, slot, slot, slot);
        lemma_ring_add(cfg, d, a + b, c, slot, slot, slot);
    } else {
        lemma_ring_flat(cfg, d, sw.dup@, sw.sm_bs, slot);
    }
}

proof fn lemma_ring_layer(cfg: TextConfig, d: PrefillDims, sw: Switches, l: usize, slot: int)
    requires
        d.n_slab <= 16,
        32 <= slot,
        slot + layer_slots(d, sw.dup@) <= 256,
    ensures
        keeps_ring(cfg, d, prefill_layer_ops(cfg, d, sw, l, slot), slot, slot + layer_slots(d, sw.dup@)),
{
    let dup = sw.dup@;
    let s = d.s as u32;
    let hs = cfg.hidden_size as int;
    let inter = cfg.intermediate_size as int;
    let qkv = cfg.qkv_width();
    let heads = (cfg.num_attention_heads + cfg.num_key_value_heads) as u32;
    let my = (d.mp / 128) as u32;
    let (rx, ry) = crate::decoder_prefill::repeat_grid(cfg, d);
    let (ax, ay) = crate::decoder_prefill::act_grid(cfg, d);
    let b = slot + 1;
    let e = slot + 1 + attention_slots(d, dup);
    let g1 = crate::decoder_prefill::dense_dims(d.s as int, qkv, hs, qkv, 0, 0, 0);
    let g2 = crate::decoder_prefill::dense_dims(d.s as int, hs, cfg.num_attention_heads * cfg.head_dim, hs, 0, 0, 0);
    let g3 = crate::decoder_prefill::dense_dims(d.s as int, 2 * inter, hs, 2 * inter, 0, 0, 0);
    let g4 = crate::decoder_prefill::dense_dims(d.s as int, hs, inter, hs, 0, 0, 0);
    let qx = (qkv / 128) as u32;
    let hx = (hs / 128) as u32;
    let ux = (2 * inter / 128) as u32;
    let p0 = run_ops(Kernel::RmsNorm, Group::PRms1(l), s, 1, 1);
    let p1 = gemm_ops(Kernel::Gemm, Buf::PNormed, Buf::QkvW(l), Buf::PQkv, 0, slot, g1, qx, my, 1);
    let p2 = run_ops(Kernel::Extract, Group::PExtract(l), s, heads, 1);
    let p3 = kept(dup == "p_extract"@, again_ops(s, heads, 1));
    let p4 = run_ops(Kernel::RepeatKv, Group::PRepeatK(l), rx, ry, 1);
    let p5 = kept(dup == "p_repeat"@, again_ops(rx, ry, 1));
    let p6 = run_ops(Kernel::RepeatKv, Group::PRepeatV(l), rx, ry, 1);
    let p8 = attention_ops(cfg, d, sw, b);
    let p9 = gemm_ops(Kernel::GemmAcc, Buf::PAttnFlat, Buf::OW(l), Buf::PH, 0, e, g2, hx, my, 1);
    let p10 = run_ops(Kernel::RmsNorm, Group::PRms2(l), s, 1, 1);
    let p11 = kept(dup == "p_rms"@, again_ops(s, 1, 1));
    let p12 = gemm_ops(Kernel::Gemm, Buf::PNorm2, Buf::GuW(l), Buf::PGu, 0, e + 1, g3, ux, my, 1);
    let p13 = run_ops(Kernel::Silu, Group::PSilu, ax, ay, 1);
    let p14 = kept(dup == "p_silu"@, again_ops(ax, ay, 1));
    let p15 = gemm_ops(Kernel::GemmAcc, Buf::PActivated, Buf::DpW(l), Buf::PH, 0, e + 2, g4, hx, my, 1);
    lemma_ring_run(cfg, d, Kernel::RmsNorm, Group::PRms1(l), s, 1, 1, slot);
    lemma_ring_gemm(cfg, d, Kernel::Gemm, Buf::PNormed, Buf::QkvW(l), Buf::PQkv, 0, slot, g1, qx, my, 1);
    lemma_ring_run(cfg, d, Kernel::Extract, Group::PExtract(l), s, heads, 1, b);
    lemma_ring_again(cfg, d, dup == "p_extract"@, s, heads, 1, b);
    lemma_ring_run(cfg, d, Kernel::RepeatKv, Group::PRepeatK(l), rx, ry, 1, b);
    lemma_ring_again(cfg, d, dup == "p_repeat"@, rx, ry, 1, b);
    lemma_ring_run(cfg, d, Kernel::RepeatKv, Group::PRepeatV(l), rx, ry, 1, b);
    lemma_ring_attention(cfg, d, sw, b);
    lemma_ring_gemm(cfg, d, Kernel::GemmAcc, Buf::PAttnFlat, Buf::OW(l), Buf::PH, 0, e, g2, hx, my, 1);
    lemma_ring_run(cfg, d, Kernel::RmsNorm, Group::PRms2(l), s, 1, 1, e + 1);
    lemma_ring_again(cfg, d, dup == "p_rms"@, s, 1, 1, e + 1);
    lemma_ring_gemm(cfg, d, Kernel::Gemm, Buf::PNorm2, Buf::GuW(l), Buf::PGu, 0, e + 1, g3, ux, my, 1);
    lemma_ring_run(cfg, d, Kernel::Silu, Group::PSilu, ax, ay, 1, e + 2);
    lemma_ring_again(cfg, d, dup == "p_silu"@, ax, ay, 1, e + 2);
    lemma_ring_gemm(cfg, d, Kernel::GemmAcc, Buf::PActivated, Buf::DpW(l), Buf::PH, 0, e + 2, g4, hx, my, 1);
    lemma_ring_add(cfg, d, p0, p1, slot, slot, b);
    let q = p0 + p1;
    lemma_ring_add(cfg, d, q, p2, slot, b, b);
    let q = q + p2;
    lemma_ring_add(cfg, d, q, p3, slot, b, b);
    let q = q + p3;
    lemma_ring_add(cfg, d, q, p4, slot, b, b);
    let q = q + p4;
    lemma_ring_add(cfg, d, q, p5, slot, b, b);
    let q = q + p5;
    lemma_ring_add(cfg, d, q, p6, slot, b, b);
    let q = q + p6;
    lemma_ring_add(cfg, d, q, p5, slot, b, b);
    let q = q + p5;
    lemma_ring_add(cfg, d, q, p8, slot, b, e);
    let q = q + p8;
    lemma_ring_add(cfg, d, q, p9, slot, e, e + 1);
    let q = q + p9;
    lemma_ring_add(cfg, d, q, p10, slot, e + 1, e + 1);
    let q = q + p10;
    lemma_ring_add(cfg, d, q, p11, slot, e + 1, e + 1);
    let q = q + p11;
    lemma_ring_add(cfg, d, q, p12, slot, e + 1, e + 2);
    let q = q + p12;
    lemma_ring_add(cfg, d, q, p13, slot, e + 2, e + 2);
    let q = q + p13;
    lemma_ring_add(cfg, d, q, p14, slot, e + 2, e + 2);
    let q = q + p14;
    lemma_ring_add(cfg, d, q, p15, slot, e + 2, e + 3);
    assert(q + p15 == prefill_layer_ops(cfg, d, sw, l, slot));
}

/// The ring is empty again behind a submission.
proof fn lemma_ring_submit(cfg: TextConfig, d: PrefillDims, op: Op, lo: int, hi: int)
    requires
        event_of(op) is Flush,
    ensures
        keeps_ring(cfg, d, seq![op], lo, hi),
{
    assert(events(seq![op]) =~= seq![Event::<Place, Uniform>::Flush]);
    assert forall|m: Map<Place, Uniform>| #[trigger] ring_below(cfg, d, m, lo) implies steady(m, events(seq![op]))
        && ring_below(cfg, d, queued(m, events(seq![op])), hi) by {
        lemma_flush(m);
    }
}

proof fn lemma_ring_layers(cfg: TextConfig, d: PrefillDims, sw: Switches, n: nat)
    requires
        d.n_slab <= 16,
        slots_fit(cfg, d, sw.dup@),
        n <= cfg.num_hidden_layers,
    ensures
        keeps_ring(cfg, d, prefill_layers_ops(cfg, d, sw, n), 32, layer_slot(d, sw.dup@, n as int)),
    decreases n,
{
    let dup = sw.dup@;
    if n == 0 {
        crate::decoder_prefill::lemma_next_slot(d, dup, 0);
        lemma_ring_quiet(cfg, d, Seq::empty(), 32);
    } else {
        let l = n - 1;
        let slot = layer_slot(d, dup, l);
        let next = layer_slot(d, dup, n as int);
        law_slots_in_ring(cfg, d, dup, l);
        crate::decoder_prefill::lemma_next_slot(d, dup, l);
        lemma_ring_layers(cfg, d, sw, l as nat);
        lemma_ring_layer(cfg, d, sw, l as usize, slot);
        let a = prefill_layers_ops(cfg, d, sw, l as nat);
        let b = prefill_layer_ops(cfg, d, sw, l as usize, slot);
        let c = if submits_after(d.s as int, l) {
            seq![Op::SubmitWait { layer: l as usize }]
        } else {
            Seq::empty()
        };
        let mid = slot + layer_slots(d, dup);
        lemma_ring_add(cfg, d, a, b, 32, slot, mid);
        if submits_after(d.s as int, l) {
            lemma_ring_submit(cfg, d, Op::SubmitWait { layer: l as usize }, mid, next);
        } else {
            lemma_ring_quiet(cfg, d, Seq::empty(), mid);
        }
        lemma_ring_add(cfg, d, a + b, c, 32, mid, next);
    }
}

/// The slab settings written so far occupy the slots of the first `n` slabs.
pub open spec fn settings_below(m: Map<Place, Uniform>, n: int) -> bool {
    &&& forall|b: Buf, o: u64| #[trigger] m.contains_key((b, o)) ==> b == Buf::USilu || b == Buf::UQkvx || b == Buf::PSl
    &&& forall|o: u64| #[trigger]
        m.contains_key((Buf::PSl, o)) ==> o % 256 == 0 && (o < n * 256 || 4096 <= o < 4096 + n * 256)
}

proof fn lemma_slab_settings_steady(cfg: TextConfig, d: PrefillDims, scale_bits: u32, m: Map<Place, Uniform>, n: nat)
    requires
        n <= 16,
        settings_below(m, 0),
    ensures
        steady(m, events(slab_settings(cfg, d, scale_bits, n))),
        settings_below(queued(m, events(slab_settings(cfg, d, scale_bits, n))), n as int),
    decreases n,
{
    if n == 0 {
        assert(events(slab_settings(cfg, d, scale_bits, 0)) =~= Seq::<Event<Place, Uniform>>::empty());
    } else {
        let t = n - 1;
        lemma_slab_settings_steady(cfg, d, scale_bits, m, t as nat);
        let a = slab_settings(cfg, d, scale_bits, t as nat);
        let o1 = Op::Write { buf: Buf::PSl, offset: (t * 256) as u64, data: slab_softmax(cfg, d, scale_bits, t) };
        let o2 = Op::Write {
            buf: Buf::PSl,
            offset: ((16 + t) * 256) as u64,
            data: slab_statistics(cfg, d, scale_bits, t),
        };
        let k1 = (Buf::PSl, (t * 256) as u64);
        let k2 = (Buf::PSl, ((16 + t) * 256) as u64);
        let e1 = seq![Event::Write { key: k1, data: slab_softmax(cfg, d, scale_bits, t) }];
        let e2 = seq![Event::Write { key: k2, data: slab_statistics(cfg, d, scale_bits, t) }];
        assert(events(a + seq![o1, o2]) =~= events(a) + (e1 + e2));
        let p = queued(m, events(a));
        lemma_concat(m, events(a), e1 + e2);
        lemma_concat(p, e1, e2);
        lemma_write(p, k1, slab_softmax(cfg, d, scale_bits, t));
        let p1 = p.insert(k1, slab_softmax(cfg, d, scale_bits, t));
        lemma_write(p1, k2, slab_statistics(cfg, d, scale_bits, t));
        assert(!p.contains_key(k1));
        assert(!p.contains_key(k2));
        assert(!p1.contains_key(k2));
        let p2 = p1.insert(k2, slab_statistics(cfg, d, scale_bits, t));
        assert forall|b: Buf, o: u64| #[trigger] p2.contains_key((b, o)) implies b == Buf::USilu || b == Buf::UQkvx
            || b == Buf::PSl by {
            if (b, o) != k1 && (b, o) != k2 {
                assert(p.contains_key((b, o)));
            }
        }
        assert forall|o: u64| #[trigger] p2.contains_key((Buf::PSl, o)) implies o % 256 == 0 && (o < n * 256 || 4096
            <= o < 4096 + n * 256) by {
            if o != t * 256 && o != (16 + t) * 256 {
                assert(p.contains_key((Buf::PSl, o)));
            }
        }
    }
}

/// Queuing one more write to a place that holds none.
proof fn lemma_fresh(m: Map<Place, Uniform>, a: Seq<Op>, op: Op, buf: Buf, offset: u64, data: Uniform)
    requires
        op == (Op::Write { buf, offset, data }),
        steady(m, events(a)),
        !queued(m, events(a)).contains_key((buf, offset)),
    ensures
        steady(m, events(a + seq![op])),
        queued(m, events(a + seq![op])) == queued(m, events(a)).insert((buf, offset), data),
{
    let e = seq![Event::Write { key: (buf, offset), data }];
    assert(events(a + seq![op]) =~= events(a) + e);
    lemma_concat(m, events(a), e);
    lemma_write(queued(m, events(a)), (buf, offset), data);
}

proof fn lemma_zeros_quiet(cfg: TextConfig, d: PrefillDims, n: nat)
    ensures
        quiet(events(tail_zeros(cfg, d, n))),
    decreases n,
{
    if n > 0 {
        lemma_zeros_quiet(cfg, d, (n - 1) as nat);
        let a = events(tail_zeros(cfg, d, (n - 1) as nat));
        let e = events(tail_zeros(cfg, d, n));
        assert forall|i: int| 0 <= i < e.len() implies #[trigger] e[i] is Other by {
            if i < a.len() {
                assert(e[i] == a[i]);
            }
        }
    }
}

/// Everything written before the first layer goes to a place of its own.
proof fn lemma_setup_steady(dec: WgpuTextDecoder, d: PrefillDims, scale_bits: u32)
    requires
        d.n_slab <= 16,
    ensures
        steady(Map::<Place, Uniform>::empty(), events(setup_ops(dec, d, scale_bits))),
        ring_below(dec.cfg, d, queued(Map::<Place, Uniform>::empty(), events(setup_ops(dec, d, scale_bits))), 32),
{
    let cfg = dec.cfg;
    let e0 = Map::<Place, Uniform>::empty();
    let z = Seq::<Op>::empty();
    let full = setup_ops(dec, d, scale_bits);
    let w1 = silu_write(cfg, d.s as int);
    let d1 = w1->data;
    let d2 = Uniform::Qkvx {
        max_seq: dec.cap as u32,
        start: d.kv_start as u32,
        pos_offset: d.kv_start as u32,
        s: d.mp as u32,
        eps_bits: cfg.rms_norm_eps_bits,
    };
    let w2 = Op::Write { buf: Buf::UQkvx, offset: 0, data: d2 };
    assert(events(z) =~= Seq::<Event<Place, Uniform>>::empty());
    lemma_fresh(e0, z, w1, Buf::USilu, 0, d1);
    lemma_fresh(e0, z + seq![w1], w2, Buf::UQkvx, 0, d2);
    let a2 = seq![w1, w2];
    assert(z + seq![w1] + seq![w2] =~= a2);
    let m2 = queued(e0, events(a2));
    assert(settings_below(m2, 0));
    let at = attention_settings(cfg, d, scale_bits);
    lemma_events_add(a2, at);
    lemma_concat(e0, events(a2), events(at));
    let m3 = queued(e0, events(a2 + at));
    assert(steady(e0, events(a2 + at)) && forall|b: Buf, o: u64| #[trigger]
        m3.contains_key((b, o)) ==> b == Buf::USilu || b == Buf::UQkvx || b == Buf::PSl) by {
        if d.slabbed() {
            let n = d.n_slab as nat;
            let sl = slab_settings(cfg, d, scale_bits, n);
            lemma_slab_settings_steady(cfg, d, scale_bits, m2, n);
            let x1 = at[at.len() - 2];
            let x2 = at[at.len() - 1];
            let y1 = x1->data;
            let y2 = x2->data;
            lemma_fresh(m2, sl, x1, Buf::PSl, 8192, y1);
            lemma_fresh(m2, sl + seq![x1], x2, Buf::PSl, 8448, y2);
            assert(sl + seq![x1] + seq![x2] =~= at);
            let p = queued(m2, events(sl));
            assert forall|b: Buf, o: u64| #[trigger] m3.contains_key((b, o)) implies b == Buf::USilu || b
                == Buf::UQkvx || b == Buf::PSl by {
                if b != Buf::PSl {
                    assert(p.contains_key((b, o)));
                }
            }
        } else {
            let x = at[0];
            let y = x->data;
            lemma_fresh(m2, z, x, Buf::PSl, 0, y);
            assert(z + seq![x] =~= at);
        }
    }
    let tz = if d.nkv_rows > d.cur {
        tail_zeros(cfg, d, cfg.num_attention_heads as nat)
    } else {
        z
    };
    lemma_zeros_quiet(cfg, d, cfg.num_attention_heads as nat);
    assert(quiet(events(tz)));
    lemma_events_add(a2 + at, tz);
    lemma_concat(e0, events(a2 + at), events(tz));
    lemma_quiet(m3, events(tz));
    let rk = full[full.len() - 1];
    lemma_fresh(e0, a2 + at + tz, rk, Buf::PRk, 0, rk->data);
    assert(a2 + at + tz + seq![rk] =~= full);
    let m5 = queued(e0, events(full));
    assert forall|o: u64| !(#[trigger] m5.contains_key((Buf::PGd, o))) by {
        if m5.contains_key((Buf::PGd, o)) {
            assert(m3.contains_key((Buf::PGd, o)));
        }
    }
}

/// A prefill is steady: between two submissions every uniform slot is given one
/// value, so each dispatch reads what was written for it.
pub proof fn law_prefill_steady(dec: WgpuTextDecoder, d: PrefillDims, sw: Switches, scale_bits: u32)
    requires
        d.n_slab <= MAX_SLAB,
        slots_fit(dec.cfg, d, sw.dup@),
    ensures
        steady(Map::<Place, Uniform>::empty(), events(prefill_ops(dec, d, sw, scale_bits))),
{
    let cfg = dec.cfg;
    let e0 = Map::<Place, Uniform>::empty();
    let n = cfg.num_hidden_layers as nat;
    let a = setup_ops(dec, d, scale_bits);
    let b = prefill_layers_ops(cfg, d, sw, n);
    let c = last_ops(cfg, d);
    lemma_setup_steady(dec, d, scale_bits);
    lemma_ring_layers(cfg, d, sw, n);
    lemma_events_add(a, b);
    lemma_concat(e0, events(a), events(b));
    lemma_events_add(a + b, c);
    let m = queued(e0, events(a + b));
    lemma_concat(e0, events(a + b), events(c));
    let q = events(c).drop_last();
    let f = seq![Event::<Place, Uniform>::Flush];
    assert(events(c) =~= q + f);
    assert(quiet(q));
    lemma_concat(m, q, f);
    lemma_quiet(m, q);
    lemma_flush(m);
}

/// A step is steady.
pub proof fn law_step_uniforms_steady(dec: WgpuTextDecoder, sw: Switches, scale_bits: u32, pos: usize)
    ensures
        steady(Map::<Place, Uniform>::empty(), events(step_uniforms(dec, sw, scale_bits, pos))),
{
    let e0 = Map::<Place, Uniform>::empty();
    let z = Seq::<Op>::empty();
    let u = step_uniforms(dec, sw, scale_bits, pos);
    assert(events(z) =~= Seq::<Event<Place, Uniform>>::empty());
    lemma_fresh(e0, z, u[0], Buf::USilu, 0, u[0]->data);
    lemma_fresh(e0, z + seq![u[0]], u[1], Buf::UQkvx, 0, u[1]->data);
    lemma_fresh(e0, z + seq![u[0]] + seq![u[1]], u[2], Buf::UGqa, 0, u[2]->data);
    lemma_fresh(e0, z + seq![u[0]] + seq![u[1]] + seq![u[2]], u[3], Buf::UGp1, 0, u[3]->data);
    lemma_fresh(e0, z + seq![u[0]] + seq![u[1]] + seq![u[2]] + seq![u[3]], u[4], Buf::UGp2, 0, u[4]->data);
    assert(z + seq![u[0]] + seq![u[1]] + seq![u[2]] + seq![u[3]] + seq![u[4]] =~= u);
}

} // verus!
