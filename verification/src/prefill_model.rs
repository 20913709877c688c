//! What a prefill computes: the model over many rows at once, and the token that
//! follows the last of them.
use vstd::prelude::*;

use crate::decoder::{Switches, TextConfig, WgpuTextDecoder};
use crate::decoder_model::{
    constants_set, fed_forward, fired, following, hidden, keys, law_step_computes, lemma_argmax, lemma_fired,
    lemma_logits, mixed_in, one_row, projected, queries, sized, values,
};
use crate::decoder_ops::{whole, Buf, GDims, Group, Kernel, Op, Uniform};
use crate::decoder_prefill::{
    act_grid, attention_ops, attention_settings, attention_slots, dense_dims, dims_for, flat_ops, gemm_ops, last_ops, layer_slot,
    layer_slots, merge_grid, prefill_layer_ops, prefill_layers_ops, prefill_ops, repeat_grid, row_grid, run_at_ops,
    setup_ops, slab_len, slab_ops, slab_part_offset, slab_score_dims, slab_settings, slab_softmax, slab_statistics,
    slab_value_dims, slabs_ops, slots_fit, softmax_kernel, submits_after, tail_zeros, weight_grid, PrefillDims,
};
use crate::decoder_step::{encode_step_ops, plain, run_ops, step_uniforms};
use crate::geometry::{align_up, ceil_div, grid_x, grid_y, law_grid_covers, lemma_align_bounds};
use crate::machine::{
    effect, exec, got, lemma_run_none, lemma_run_one, lemma_run_sum, matrix_cols, matrix_rows, run, Ctx, Machine, Val,
};
use crate::pipelines::shader_of;

verus! {

/// The keys of `rows` rows from position `first` on, with those before them.
pub open spec fn reach(first: int, rows: int) -> int {
    first + rows
}

/// The keys of layer `l` for every query head.
pub open spec fn spread_keys(c: Ctx, m: Map<Buf, Val>, l: usize, x: Val, first: int) -> Val {
    Val::Spread {
        x: Box::new(keys(c.cfg, m, l, x, c.slots, first, c.rows)),
        keys: reach(first, c.rows),
    }
}

/// The values of layer `l` for every query head.
pub open spec fn spread_values(c: Ctx, m: Map<Buf, Val>, l: usize, x: Val, first: int) -> Val {
    Val::Spread {
        x: Box::new(values(c.cfg, m, l, x, c.slots, first, c.rows)),
        keys: reach(first, c.rows),
    }
}

/// The scores of the queries of layer `l` against `n` keys from `from` on.
pub open spec fn scores_of(c: Ctx, m: Map<Buf, Val>, l: usize, x: Val, first: int, from: int, n: int) -> Val {
    Val::Scores {
        q: Box::new(queries(c.cfg, m, l, x, first)),
        k: Box::new(spread_keys(c, m, l, x, first)),
        rows: c.rows,
        from,
        keys: n,
    }
}

/// Flat attention: one softmax over all keys.
pub open spec fn flat_attended(c: Ctx, m: Map<Buf, Val>, l: usize, x: Val, first: int, scale_bits: u32) -> Val {
    let n = reach(first, c.rows);
    Val::Mixed {
        p: Box::new(
            Val::Probs { of: Box::new(scores_of(c, m, l, x, first, 0, n)), keys: n, scale_bits },
        ),
        v: Box::new(spread_values(c, m, l, x, first)),
    }
}

/// Keys of slab `t` in whole steps of 16.
pub open spec fn slab_keys(n: int, t: int) -> int {
    let left = align_up(n, 16) - t * 1024;
    if left < 1024 {
        left
    } else {
        1024
    }
}

/// The result of slab `t`.
pub open spec fn slab_result(c: Ctx, m: Map<Buf, Val>, l: usize, x: Val, first: int, scale_bits: u32, t: int) -> Val {
    Val::Mixed {
        p: Box::new(
            Val::Probs {
                of: Box::new(scores_of(c, m, l, x, first, t * 1024, 1024)),
                keys: slab_keys(reach(first, c.rows), t),
                scale_bits,
            },
        ),
        v: Box::new(spread_values(c, m, l, x, first)),
    }
}

/// The statistics of slab `t`.
pub open spec fn slab_summary(c: Ctx, m: Map<Buf, Val>, l: usize, x: Val, first: int, scale_bits: u32, t: int) -> Val {
    Val::Stats {
        of: Box::new(scores_of(c, m, l, x, first, t * 1024, 1024)),
        keys: slab_keys(reach(first, c.rows), t),
        scale_bits,
    }
}

/// Attention in slabs of 1024 keys, from the first key to the last: each slab's
/// result times its share by all slabs' statistics.
pub open spec fn slab_attended(c: Ctx, m: Map<Buf, Val>, l: usize, x: Val, first: int, scale_bits: u32) -> Val {
    let n = ceil_div(reach(first, c.rows), 1024);
    Val::Merged {
        of: Box::new(
            Val::Slabs { of: Seq::new(n as nat, |t: int| slab_result(c, m, l, x, first, scale_bits, t)) },
        ),
        by: Box::new(
            Val::Shares {
                of: Box::new(
                    Val::Slabs { of: Seq::new(n as nat, |t: int| slab_summary(c, m, l, x, first, scale_bits, t)) },
                ),
            },
        ),
    }
}

/// The attention of layer `l` over the rows from position `first` on.
pub open spec fn attended_rows(
    c: Ctx,
    m: Map<Buf, Val>,
    l: usize,
    x: Val,
    first: int,
    scale_bits: u32,
    slabs: bool,
) -> Val {
    if slabs {
        slab_attended(c, m, l, x, first, scale_bits)
    } else {
        flat_attended(c, m, l, x, first, scale_bits)
    }
}

/// The hidden rows after the first `n` layers, from `x` on.
pub open spec fn hidden_rows(
    c: Ctx,
    m: Map<Buf, Val>,
    x: Val,
    n: nat,
    first: int,
    scale_bits: u32,
    slabs: bool,
) -> Val
    decreases n,
{
    if n == 0 {
        x
    } else {
        let l = (n - 1) as usize;
        let x = hidden_rows(c, m, x, (n - 1) as nat, first, scale_bits, slabs);
        fed_forward(c.cfg, m, l, mixed_in(m, l, x, attended_rows(c, m, l, x, first, scale_bits, slabs)))
    }
}

/// What a prefill's run is about.
pub open spec fn many_rows(cfg: TextConfig, sw: Switches, subgroup: bool, slots: int, d: PrefillDims) -> Ctx {
    Ctx {
        cfg,
        sw,
        subgroup,
        rows: d.s as int,
        slots,
        padded: d.mp as int,
        key_rows: d.nkv_rows as int,
        score_cols: d.score_cols(),
        prob_cols: d.prob_cols(),
    }
}

/// The sizes of a prefill are in the kernels' whole tiles and fit a word.
pub open spec fn prefill_sized(c: Ctx, d: PrefillDims) -> bool {
    let cfg = c.cfg;
    let nqh = cfg.num_attention_heads as int;
    let hd = cfg.head_dim as int;
    &&& cfg.widths_fit()
    &&& plain(c.sw)
    &&& c.sw.gemv_rpw >= 8
    &&& d.s >= 1
    &&& d.cur == d.kv_start + d.s
    &&& d.cur <= c.slots <= u32::MAX
    &&& d.s <= d.mp && d.mp as int % 128 == 0
    &&& d.cur <= d.np && d.np as int % 128 == 0
    &&& d.cur16 == align_up(d.cur as int, 16)
    &&& d.n_slab == (if d.n_slab > 0 {
        ceil_div(d.cur as int, 1024)
    } else {
        0
    })
    &&& d.n_slab <= 16
    &&& d.nkv_rows == (if d.n_slab > 0 {
        d.n_slab * 1024
    } else {
        d.np as int
    })
    &&& c == many_rows(cfg, c.sw, c.subgroup, c.slots, d)
    &&& 0 < cfg.num_key_value_heads
    &&& nqh == nqh / (cfg.num_key_value_heads as int) * cfg.num_key_value_heads
    &&& nqh + cfg.num_key_value_heads <= u32::MAX
    &&& 0 < hd <= 128 && hd % 2 == 0
    &&& 0 < cfg.hidden_size && 2 * cfg.hidden_size <= u32::MAX && cfg.hidden_size as int % 128 == 0
    &&& cfg.qkv_width() <= u32::MAX && cfg.qkv_width() % 128 == 0
    &&& 2 * cfg.intermediate_size <= u32::MAX && 2 * cfg.intermediate_size % 128 == 0
    &&& cfg.vocab_size <= u32::MAX && cfg.vocab_size as int % 8 == 0
    &&& d.mp <= u32::MAX && d.np <= u32::MAX && d.nkv_rows <= u32::MAX
    &&& d.s * cfg.hidden_size * 2 <= u32::MAX
    &&& d.s * cfg.intermediate_size <= u32::MAX
    &&& d.mp * hd <= u32::MAX
    &&& d.nkv_rows * hd <= u32::MAX
    &&& d.mp * c.score_cols <= u32::MAX
    &&& d.mp * c.prob_cols <= u32::MAX
    &&& nqh * hd <= u32::MAX
    &&& nqh * d.mp <= u32::MAX
    &&& nqh * d.s <= u32::MAX
    &&& nqh * d.cur * hd <= u32::MAX
    &&& 16 * (d.mp * nqh * hd * 2) <= u64::MAX
    &&& slots_fit(cfg, d, c.sw.dup@)
}

/// The uniforms of a prefill are set: its first row goes to slot `kv_start`, is
/// rotated by `kv_start`, and each row behind it to and by one more.
pub open spec fn prefill_set(c: Ctx, set: Map<(Buf, u64), Uniform>, d: PrefillDims, scale_bits: u32) -> bool {
    let cfg = c.cfg;
    &&& constants_set(cfg, set)
    &&& set.contains_key((Buf::USilu, 0)) && set[(Buf::USilu, 0)] == (Uniform::Silu {
        inter2: (cfg.intermediate_size / 2) as u32,
        total2: (d.s * cfg.intermediate_size / 2) as u32,
        gx: act_grid(cfg, d).0,
    })
    &&& set.contains_key((Buf::UQkvx, 0)) && set[(Buf::UQkvx, 0)] == (Uniform::Qkvx {
        max_seq: c.slots as u32,
        start: d.kv_start as u32,
        pos_offset: d.kv_start as u32,
        s: d.mp as u32,
        eps_bits: cfg.rms_norm_eps_bits,
    })
    &&& set.contains_key((Buf::PRk, 0)) && set[(Buf::PRk, 0)] == (Uniform::RepeatKv {
        nkvh: cfg.num_key_value_heads as u32,
        max_seq: c.slots as u32,
        cur: d.cur as u32,
        hd: cfg.head_dim as u32,
        npw: (d.nkv_rows * cfg.head_dim / 2) as u32,
        gx: repeat_grid(cfg, d).0,
    })
    &&& !d.slabbed() ==> set.contains_key((Buf::PSl, 0)) && set[(Buf::PSl, 0)] == (Uniform::Softmax {
        n_w: (d.cur16 / 2) as u32,
        n_x: (d.np / 2) as u32,
        valid: d.cur as u32,
        m: d.s as u32,
        mp: d.mp as u32,
        scale_bits,
        gx: row_grid(cfg, d).0,
        row0: 0,
    })
    &&& d.slabbed() ==> slabs_set(cfg, set, d, scale_bits, d.n_slab as int)
    &&& d.slabbed() ==> set.contains_key((Buf::PSl, 8192)) && set[(Buf::PSl, 8192)] == (Uniform::SlabWeights {
        rows: (cfg.num_attention_heads * d.mp) as u32,
        n_slab: d.n_slab as u32,
        gx: weight_grid(cfg, d).0,
    })
    &&& d.slabbed() ==> set.contains_key((Buf::PSl, 8448)) && set[(Buf::PSl, 8448)] == (Uniform::SlabMerge {
        rows: d.mp as u32,
        n_slab: d.n_slab as u32,
        gx: merge_grid(cfg, d),
    })
}

/// The settings of the first `n` slabs are set.
pub open spec fn slabs_set(
    cfg: TextConfig,
    set: Map<(Buf, u64), Uniform>,
    d: PrefillDims,
    scale_bits: u32,
    n: int,
) -> bool {
    forall|t: int|
        #![trigger slab_softmax(cfg, d, scale_bits, t)]
        0 <= t < n ==> set.contains_key((Buf::PSl, (t * 256) as u64)) && set[(Buf::PSl, (t * 256) as u64)]
            == slab_softmax(cfg, d, scale_bits, t) && set.contains_key((Buf::PSl, ((16 + t) * 256) as u64))
            && set[(Buf::PSl, ((16 + t) * 256) as u64)] == slab_statistics(cfg, d, scale_bits, t)
}

/// A list left everything but some buffers and the GEMM ring as it was.
pub open spec fn ring_but(s: Machine, t: Machine, out: spec_fn(Buf) -> bool) -> bool {
    &&& t.out == s.out
    &&& forall|k: (Buf, u64)| k.0 != Buf::PGd ==> #[trigger] t.set.contains_key(k) == s.set.contains_key(k)
    &&& forall|k: (Buf, u64)| k.0 != Buf::PGd ==> #[trigger] t.set[k] == s.set[k]
    &&& forall|b: Buf| !out(b) ==> #[trigger] got(t.mem, b) == got(s.mem, b)
}

/// The machine after one GEMM.
pub open spec fn gemm_fired(
    c: Ctx,
    s: Machine,
    k: Kernel,
    a: Buf,
    w: Buf,
    o: Buf,
    off: int,
    slot: int,
    g: GDims,
    x: u32,
    y: u32,
    z: u32,
) -> Machine {
    let group = Group::PGemm { a, w, c: o, c_off: off as u64 };
    let t = Machine {
        set: s.set.insert((Buf::PGd, (slot * 256) as u64), Uniform::Gemm(g)),
        kernel: Some(k),
        group: Some(group),
        at: (slot * 256) as u32,
        ..s
    };
    Machine {
        mem: effect(c, t, shader_of(c.cfg, c.sw, c.subgroup, k), group.bindings_spec(), x as int, y as int, z as int),
        ..t
    }
}

proof fn lemma_gemm_fired(
    c: Ctx,
    s: Machine,
    k: Kernel,
    a: Buf,
    w: Buf,
    o: Buf,
    off: int,
    slot: int,
    g: GDims,
    x: u32,
    y: u32,
    z: u32,
)
    ensures
        run(c, s, gemm_ops(k, a, w, o, off, slot, g, x, y, z)) == gemm_fired(
            c,
            s,
            k,
            a,
            w,
            o,
            off,
            slot,
            g,
            x,
            y,
            z,
        ),
{
    let ops = gemm_ops(k, a, w, o, off, slot, g, x, y, z);
    assert(ops =~= seq![ops[0]] + seq![ops[1]] + seq![ops[2]] + seq![ops[3]]);
    lemma_run_sum(c, s, seq![ops[0]] + seq![ops[1]] + seq![ops[2]], seq![ops[3]]);
    lemma_run_sum(c, s, seq![ops[0]] + seq![ops[1]], seq![ops[2]]);
    lemma_run_sum(c, s, seq![ops[0]], seq![ops[1]]);
    lemma_run_one(c, s, ops[0]);
    let t0 = exec(c, s, ops[0]);
    lemma_run_one(c, t0, ops[1]);
    let t1 = exec(c, t0, ops[1]);
    lemma_run_one(c, t1, ops[2]);
    lemma_run_one(c, exec(c, t1, ops[2]), ops[3]);
}

proof fn lemma_fired_at(c: Ctx, s: Machine, k: Kernel, g: Group, at: u32, x: u32, y: u32)
    ensures
        run(c, s, run_at_ops(k, g, at, x, y)) == ({
            let t = Machine { kernel: Some(k), group: Some(g), at, ..s };
            Machine {
                mem: effect(c, t, shader_of(c.cfg, c.sw, c.subgroup, k), g.bindings_spec(), x as int, y as int, 1),
                ..t
            }
        }),
{
    let ops = run_at_ops(k, g, at, x, y);
    assert(ops =~= seq![ops[0]] + seq![ops[1]] + seq![ops[2]]);
    lemma_run_sum(c, s, seq![ops[0]] + seq![ops[1]], seq![ops[2]]);
    lemma_run_sum(c, s, seq![ops[0]], seq![ops[1]]);
    lemma_run_one(c, s, ops[0]);
    let t0 = exec(c, s, ops[0]);
    lemma_run_one(c, t0, ops[1]);
    lemma_run_one(c, exec(c, t0, ops[1]), ops[2]);
}

/// A projection: rows times a weight, onto the hidden rows or not.
proof fn lemma_projection(
    c: Ctx,
    s: Machine,
    d: PrefillDims,
    k: Kernel,
    a: Buf,
    w: Buf,
    o: Buf,
    slot: int,
    n: int,
    depth: int,
)
    requires
        prefill_sized(c, d),
        0 <= slot < 256,
        k == Kernel::Gemm || k == Kernel::GemmAcc,
        n == matrix_rows(c.cfg, w),
        depth == matrix_cols(c.cfg, w),
        0 <= n <= u32::MAX,
        n % 128 == 0,
        0 <= depth <= u32::MAX,
    ensures
        ({
            let t = run(
                c,
                s,
                gemm_ops(
                    k,
                    a,
                    w,
                    o,
                    0,
                    slot,
                    dense_dims(d.s as int, n, depth, n, 0, 0, 0),
                    (n / 128) as u32,
                    (d.mp / 128) as u32,
                    1,
                ),
            );
            let p = Val::Times { x: Box::new(got(s.mem, a)), w: Box::new(got(s.mem, w)) };
            &&& ring_but(s, t, |b: Buf| b == o)
            &&& got(t.mem, o) == if k == Kernel::GemmAcc {
                Val::Plus { x: Box::new(got(s.mem, o)), y: Box::new(p) }
            } else {
                p
            }
        }),
{
    let g = dense_dims(d.s as int, n, depth, n, 0, 0, 0);
    lemma_gemm_fired(c, s, k, a, w, o, 0, slot, g, (n / 128) as u32, (d.mp / 128) as u32, 1);
    assert(n / 128 * 128 == n);
    assert(d.mp as int / 128 * 128 == d.mp);
}

/// A norm of all rows.
proof fn lemma_rows_normed(c: Ctx, s: Machine, d: PrefillDims, scale_bits: u32, g: Group, w: Buf, o: Buf)
    requires
        prefill_sized(c, d),
        prefill_set(c, s.set, d, scale_bits),
        g.bindings_spec() =~= seq![whole(0, Buf::PH), whole(1, w), whole(2, o), whole(3, Buf::URms)],
    ensures
        ({
            let t = run(c, s, run_ops(Kernel::RmsNorm, g, d.s as u32, 1, 1));
            &&& ring_but(s, t, |b: Buf| b == o)
            &&& got(t.mem, o) == (Val::Norm {
                x: Box::new(got(s.mem, Buf::PH)),
                w: Box::new(got(s.mem, w)),
                eps_bits: c.cfg.rms_norm_eps_bits,
            })
        }),
{
    lemma_fired(c, s, Kernel::RmsNorm, g, d.s as u32, 1, 1);
}

/// A layer of a prefill writes this buffer.
pub open spec fn rows_write(b: Buf, l: usize) -> bool {
    b == Buf::PH || b == Buf::PNormed || b == Buf::PNorm2 || b == Buf::PQkv || b == Buf::PQOut || b == Buf::PScores
        || b == Buf::PKRep || b == Buf::PVRep || b == Buf::PAttn || b == Buf::PSlabPart || b == Buf::PSlabStats || b
        == Buf::PSlabW || b == Buf::PAttnFlat || b == Buf::PGu || b == Buf::PActivated || b == Buf::KCache(l) || b
        == Buf::VCache(l)
}

/// The heads of all rows.
proof fn lemma_rows_extracted(c: Ctx, s: Machine, d: PrefillDims, scale_bits: u32, l: usize, x: Val, m: Map<Buf, Val>)
    requires
        prefill_sized(c, d),
        prefill_set(c, s.set, d, scale_bits),
        got(s.mem, Buf::PQkv) == projected(c.cfg, m, l, x),
        forall|b: Buf| !rows_write(b, l) ==> #[trigger] got(s.mem, b) == got(m, b),
        got(s.mem, Buf::KCache(l)) == got(m, Buf::KCache(l)),
        got(s.mem, Buf::VCache(l)) == got(m, Buf::VCache(l)),
    ensures
        ({
            let heads = (c.cfg.num_attention_heads + c.cfg.num_key_value_heads) as u32;
            let t = run(c, s, run_ops(Kernel::Extract, Group::PExtract(l), d.s as u32, heads, 1));
            &&& ring_but(s, t, |b: Buf| b == Buf::PQOut || b == Buf::KCache(l) || b == Buf::VCache(l))
            &&& got(t.mem, Buf::PQOut) == queries(c.cfg, m, l, x, d.kv_start as int)
            &&& got(t.mem, Buf::KCache(l)) == keys(c.cfg, m, l, x, c.slots, d.kv_start as int, c.rows)
            &&& got(t.mem, Buf::VCache(l)) == values(c.cfg, m, l, x, c.slots, d.kv_start as int, c.rows)
        }),
{
    let heads = (c.cfg.num_attention_heads + c.cfg.num_key_value_heads) as u32;
    lemma_fired(c, s, Kernel::Extract, Group::PExtract(l), d.s as u32, heads, 1);
}

proof fn lemma_even(a: int, b: int)
    requires
        b % 2 == 0,
    ensures
        (a * b) / 2 * 2 == a * b,
        (b * a) / 2 * 2 == b * a,
        a >= 0 && b >= 0 ==> a * b >= 0 && b * a >= 0,
{
    let h = b / 2;
    assert(a * b == 2 * (a * h)) by (nonlinear_arith)
        requires
            b == 2 * h,
    ;
    assert(b * a == a * b) by (nonlinear_arith);
    assert(a >= 0 && b >= 0 ==> a * b >= 0) by (nonlinear_arith);
}

proof fn lemma_grid(n: int)
    requires
        0 <= n <= u32::MAX,
    ensures
        grid_x(n) as u32 == grid_x(n),
        grid_y(n) as u32 == grid_y(n),
        grid_x(n) * grid_y(n) >= n,
{
    law_grid_covers(n);
}

/// The copies of a cache.
proof fn lemma_spread(c: Ctx, s: Machine, d: PrefillDims, scale_bits: u32, l: usize, values: bool)
    requires
        prefill_sized(c, d),
        prefill_set(c, s.set, d, scale_bits),
    ensures
        ({
            let (rx, ry) = repeat_grid(c.cfg, d);
            let g = if values {
                Group::PRepeatV(l)
            } else {
                Group::PRepeatK(l)
            };
            let from = if values {
                Buf::VCache(l)
            } else {
                Buf::KCache(l)
            };
            let to = if values {
                Buf::PVRep
            } else {
                Buf::PKRep
            };
            let t = run(c, s, run_ops(Kernel::RepeatKv, g, rx, ry, 1));
            &&& ring_but(s, t, |b: Buf| b == to)
            &&& got(t.mem, to) == (Val::Spread { x: Box::new(got(s.mem, from)), keys: d.cur as int })
        }),
{
    let (rx, ry) = repeat_grid(c.cfg, d);
    let g = if values {
        Group::PRepeatV(l)
    } else {
        Group::PRepeatK(l)
    };
    lemma_fired(c, s, Kernel::RepeatKv, g, rx, ry, 1);
    let nqh = c.cfg.num_attention_heads as int;
    let hd = c.cfg.head_dim as int;
    let e = nqh * d.cur * hd;
    let n = ceil_div(e / 2, 256);
    assert(e >= 0) by (nonlinear_arith)
        requires
            e == nqh * d.cur * hd,
            nqh >= 0,
            d.cur >= 0,
            hd >= 0,
    ;
    lemma_even(nqh * d.cur, hd);
    lemma_align_bounds(e / 2, 256);
    lemma_grid(n);
    lemma_even(d.nkv_rows as int, hd);
    lemma_key_rows(d);
    assert(grid_x(n) * grid_y(n) * 512 >= e);
}

/// The copied caches hold every key.
proof fn lemma_key_rows(d: PrefillDims)
    requires
        d.cur <= d.np,
        d.n_slab == (if d.n_slab > 0 {
            ceil_div(d.cur as int, 1024)
        } else {
            0
        }),
        d.nkv_rows == (if d.n_slab > 0 {
            d.n_slab * 1024
        } else {
            d.np as int
        }),
    ensures
        d.cur <= d.nkv_rows,
{
    lemma_align_bounds(d.cur as int, 1024);
}

/// The scores of one dispatch.
proof fn lemma_scores(c: Ctx, s: Machine, d: PrefillDims, slot: int, g: GDims, x: u32)
    requires
        prefill_sized(c, d),
        0 <= slot < 256,
        g.m == d.s,
        g.k == c.cfg.head_dim && g.lda == c.cfg.head_dim,
        g.bsa == d.mp * c.cfg.head_dim / 2,
        g.bsb == d.nkv_rows * c.cfg.head_dim / 2,
        g.ldc == d.score_cols(),
        g.bsc == d.mp * d.score_cols(),
        g.n <= d.score_cols(),
        g.beta == 0,
        x * 128 >= g.n,
    ensures
        ({
            let t = run(
                c,
                s,
                gemm_ops(
                    Kernel::GemmCausal,
                    Buf::PQOut,
                    Buf::PKRep,
                    Buf::PScores,
                    0,
                    slot,
                    g,
                    x,
                    (d.mp / 128) as u32,
                    c.cfg.num_attention_heads as u32,
                ),
            );
            &&& ring_but(s, t, |b: Buf| b == Buf::PScores)
            &&& got(t.mem, Buf::PScores) == (Val::Scores {
                q: Box::new(got(s.mem, Buf::PQOut)),
                k: Box::new(got(s.mem, Buf::PKRep)),
                rows: c.rows,
                from: g.row0 as int,
                keys: g.n as int,
            })
        }),
{
    let nqh = c.cfg.num_attention_heads as u32;
    lemma_gemm_fired(
        c,
        s,
        Kernel::GemmCausal,
        Buf::PQOut,
        Buf::PKRep,
        Buf::PScores,
        0,
        slot,
        g,
        x,
        (d.mp / 128) as u32,
        nqh,
    );
    assert(d.mp as int / 128 * 128 == d.mp);
    lemma_even(d.mp as int, c.cfg.head_dim as int);
    lemma_even(d.nkv_rows as int, c.cfg.head_dim as int);
}

/// The mixed values of one dispatch, but for where they go.
proof fn lemma_values_fit(c: Ctx, d: PrefillDims, g: GDims)
    requires
        prefill_sized(c, d),
        g.m == d.s,
        g.n == c.cfg.head_dim,
        g.k <= d.prob_cols(),
        g.lda == d.prob_cols(),
        g.bsa == d.mp * d.prob_cols() / 2,
        g.bsb == d.nkv_rows * c.cfg.head_dim / 2,
        g.ldc == c.cfg.num_attention_heads * c.cfg.head_dim,
        g.bsc == c.cfg.head_dim,
        g.beta == 0,
    ensures
        crate::machine::fits_values(
            c,
            g,
            1,
            (d.mp / 128) as u32 as int,
            c.cfg.num_attention_heads as u32 as int,
        ),
{
    assert(d.mp as int / 128 * 128 == d.mp);
    lemma_even(d.prob_cols(), d.mp as int);
    lemma_even(d.nkv_rows as int, c.cfg.head_dim as int);
}

/// Flat attention.
proof fn lemma_flat(c: Ctx, s: Machine, d: PrefillDims, scale_bits: u32, slot: int, q: Val, k: Val, v: Val)
    requires
        prefill_sized(c, d),
        prefill_set(c, s.set, d, scale_bits),
        !d.slabbed(),
        0 <= slot,
        slot + 1 < 256,
        got(s.mem, Buf::PQOut) == q,
        got(s.mem, Buf::PKRep) == k,
        got(s.mem, Buf::PVRep) == v,
    ensures
        ({
            let t = run(c, s, flat_ops(c.cfg, d, c.sw.dup@, c.sw.sm_bs, slot));
            &&& ring_but(s, t, |b: Buf| b == Buf::PScores || b == Buf::PAttn || b == Buf::PAttnFlat)
            &&& got(t.mem, Buf::PAttnFlat) == (Val::Mixed {
                p: Box::new(
                    Val::Probs {
                        of: Box::new(
                            Val::Scores {
                                q: Box::new(q),
                                k: Box::new(k),
                                rows: c.rows,
                                from: 0,
                                keys: d.cur as int,
                            },
                        ),
                        keys: d.cur as int,
                        scale_bits,
                    },
                ),
                v: Box::new(v),
            })
        }),
{
    let cfg = c.cfg;
    let hd = cfg.head_dim as int;
    let nqh = cfg.num_attention_heads as u32;
    let my = (d.mp / 128) as u32;
    let (gx, gy) = row_grid(cfg, d);
    lemma_prefill_names();
    lemma_align_bounds(d.cur as int, 16);
    lemma_even(d.mp as int, hd);
    lemma_even(d.np as int, hd);
    lemma_even(d.cur16 as int, d.mp as int);
    let sdims = dense_dims(
        d.s as int,
        d.cur as int,
        hd,
        d.np as int,
        d.mp * hd / 2,
        d.np * hd / 2,
        d.mp * d.np,
    );
    let vdims = dense_dims(
        d.s as int,
        hd,
        d.cur16 as int,
        cfg.num_attention_heads * hd,
        d.mp * d.cur16 / 2,
        d.np * hd / 2,
        hd,
    );
    let nx = (d.np / 128) as u32;
    let a1 = gemm_ops(Kernel::GemmCausal, Buf::PQOut, Buf::PKRep, Buf::PScores, 0, slot, sdims, nx, my, nqh);
    let sk = softmax_kernel(d.cur, c.sw.sm_bs);
    let a2 = run_at_ops(sk, Group::PSoftmax, 0, gx, gy);
    let a3 = gemm_ops(Kernel::GemmAvCausal, Buf::PAttn, Buf::PVRep, Buf::PAttnFlat, 0, slot + 1, vdims, 1, my, nqh);
    assert(flat_ops(cfg, d, c.sw.dup@, c.sw.sm_bs, slot) =~= a1 + a2 + a3);
    lemma_run_sum(c, s, a1 + a2, a3);
    lemma_run_sum(c, s, a1, a2);
    assert(d.np as int / 128 * 128 == d.np);
    assert(d.mp * hd >= 0 && d.np * hd >= 0 && d.mp * d.np >= 0 && d.mp * d.cur16 >= 0) by (nonlinear_arith)
        requires
            d.mp >= 0,
            d.np >= 0,
            d.cur16 >= 0,
            hd >= 0,
    ;
    lemma_scores(c, s, d, slot, sdims, nx);
    let t1 = run(c, s, a1);
    lemma_softmax(c, t1, d, scale_bits, sk, 0);
    let t2 = run(c, t1, a2);
    lemma_gemm_fired(
        c,
        t2,
        Kernel::GemmAvCausal,
        Buf::PAttn,
        Buf::PVRep,
        Buf::PAttnFlat,
        0,
        slot + 1,
        vdims,
        1,
        my,
        nqh,
    );
    assert(cfg.num_attention_heads * hd >= 0) by (nonlinear_arith)
        requires
            hd >= 0,
    ;
    lemma_values_fit(c, d, vdims);
}

/// The softmax of one set of scores, by the settings at `at`.
proof fn lemma_softmax(c: Ctx, s: Machine, d: PrefillDims, scale_bits: u32, k: Kernel, at: int)
    requires
        prefill_sized(c, d),
        0 <= at <= u32::MAX,
        k is Softmax || k is SoftmaxWide,
        s.set.contains_key((Buf::PSl, at as u64)),
        ({
            let u = s.set[(Buf::PSl, at as u64)];
            &&& u is Softmax
            &&& u->n_w == d.prob_cols() / 2
            &&& u->Softmax_n_x == d.score_cols() / 2
            &&& u->Softmax_valid <= d.prob_cols()
            &&& u->Softmax_m == d.s
            &&& u->Softmax_mp == d.mp
            &&& u->Softmax_scale_bits == scale_bits
            &&& u->Softmax_gx == row_grid(c.cfg, d).0
            &&& got(s.mem, Buf::PScores) is Scores
            &&& got(s.mem, Buf::PScores)->from == u->Softmax_row0
        }),
    ensures
        ({
            let (gx, gy) = row_grid(c.cfg, d);
            let t = run(c, s, run_at_ops(k, Group::PSoftmax, at as u32, gx, gy));
            let u = s.set[(Buf::PSl, at as u64)];
            &&& ring_but(s, t, |b: Buf| b == Buf::PAttn)
            &&& got(t.mem, Buf::PAttn) == (Val::Probs {
                of: Box::new(got(s.mem, Buf::PScores)),
                keys: u->Softmax_valid as int,
                scale_bits,
            })
        }),
{
    let (gx, gy) = row_grid(c.cfg, d);
    lemma_fired_at(c, s, k, Group::PSoftmax, at as u32, gx, gy);
    let n = c.cfg.num_attention_heads * d.s;
    assert(n >= 0) by (nonlinear_arith)
        requires
            n == c.cfg.num_attention_heads * d.s,
    ;
    lemma_grid(n);
    lemma_align_bounds(d.cur as int, 16);
    assert(d.prob_cols() % 2 == 0 && d.score_cols() % 2 == 0);
}

proof fn lemma_prefill_names()
    ensures
        "p_scores"@.len() > 0,
        "p_softmax"@.len() > 0,
        "p_av"@.len() > 0,
        "p_extract"@.len() > 0,
        "p_repeat"@.len() > 0,
        "p_rms"@.len() > 0,
        "p_silu"@.len() > 0,
{
    reveal_strlit("p_scores");
    reveal_strlit("p_softmax");
    reveal_strlit("p_av");
    reveal_strlit("p_extract");
    reveal_strlit("p_repeat");
    reveal_strlit("p_rms");
    reveal_strlit("p_silu");
}

/// The state of attention after `n` slabs.
pub open spec fn slabs_done(
    s: Machine,
    t: Machine,
    n: int,
    result: spec_fn(int) -> Val,
    summary: spec_fn(int) -> Val,
) -> bool {
    &&& ring_but(
        s,
        t,
        |b: Buf| b == Buf::PScores || b == Buf::PAttn || b == Buf::PSlabStats || b == Buf::PSlabPart,
    )
    &&& n > 0 ==> got(t.mem, Buf::PSlabPart) == (Val::Slabs { of: Seq::new(n as nat, result) })
    &&& n > 0 ==> got(t.mem, Buf::PSlabStats) == (Val::Slabs { of: Seq::new(n as nat, summary) })
}

/// The scores, the result and the statistics of slab `t`, by the queries and the
/// copied keys and values.
pub open spec fn slab_scores(c: Ctx, q: Val, k: Val, t: int) -> Val {
    Val::Scores { q: Box::new(q), k: Box::new(k), rows: c.rows, from: t * 1024, keys: 1024 }
}

/// The result of slab `t`, by the queries and the copied keys and values.
pub open spec fn slab_mixed(c: Ctx, d: PrefillDims, scale_bits: u32, q: Val, k: Val, v: Val, t: int) -> Val {
    Val::Mixed {
        p: Box::new(
            Val::Probs { of: Box::new(slab_scores(c, q, k, t)), keys: slab_keys(d.cur as int, t), scale_bits },
        ),
        v: Box::new(v),
    }
}

/// The statistics of slab `t`, by the queries and the copied keys.
pub open spec fn slab_counted(c: Ctx, d: PrefillDims, scale_bits: u32, q: Val, k: Val, t: int) -> Val {
    Val::Stats { of: Box::new(slab_scores(c, q, k, t)), keys: slab_keys(d.cur as int, t), scale_bits }
}

proof fn lemma_slab_bounds(c: Ctx, d: PrefillDims, t: int)
    requires
        prefill_sized(c, d),
        d.slabbed(),
        0 <= t < d.n_slab,
    ensures
        0 < slab_len(d, t) <= 1024,
        slab_len(d, t) == slab_keys(d.cur as int, t),
        0 <= t * 1024 <= u32::MAX,
{
    lemma_align_bounds(d.cur as int, 1024);
    lemma_align_bounds(d.cur as int, 16);
}

/// The statistics of one slab.
proof fn lemma_stats(c: Ctx, s: Machine, d: PrefillDims, scale_bits: u32, t: int, before: Seq<Val>)
    requires
        prefill_sized(c, d),
        prefill_set(c, s.set, d, scale_bits),
        d.slabbed(),
        0 <= t < d.n_slab,
        got(s.mem, Buf::PScores) is Scores,
        got(s.mem, Buf::PScores)->from == t * 1024,
        before.len() == t,
        t > 0 ==> got(s.mem, Buf::PSlabStats) == (Val::Slabs { of: before }),
    ensures
        ({
            let (gx, gy) = row_grid(c.cfg, d);
            let u = run(c, s, run_at_ops(Kernel::SlabStats, Group::PSlabStats, ((16 + t) * 256) as u32, gx, gy));
            &&& ring_but(s, u, |b: Buf| b == Buf::PSlabStats)
            &&& got(u.mem, Buf::PSlabStats) == (Val::Slabs {
                of: before.push(
                    Val::Stats {
                        of: Box::new(got(s.mem, Buf::PScores)),
                        keys: slab_keys(d.cur as int, t),
                        scale_bits,
                    },
                ),
            })
        }),
{
    let (gx, gy) = row_grid(c.cfg, d);
    lemma_fired_at(c, s, Kernel::SlabStats, Group::PSlabStats, ((16 + t) * 256) as u32, gx, gy);
    let n = c.cfg.num_attention_heads * d.s;
    assert(n >= 0 && c.cfg.num_attention_heads * d.mp >= 0) by (nonlinear_arith)
        requires
            n == c.cfg.num_attention_heads * d.s,
    ;
    lemma_grid(n);
    lemma_slab_bounds(c, d, t);
    assert(slab_softmax(c.cfg, d, scale_bits, t) is Softmax);
    if t == 0 {
        assert(before.push(got(s.mem, Buf::PScores)).len() == 1);
        let v = Val::Stats {
            of: Box::new(got(s.mem, Buf::PScores)),
            keys: slab_keys(d.cur as int, t),
            scale_bits,
        };
        assert(before.push(v) =~= seq![v]);
    }
    assert((t * 1024) / 1024 == t && (t * 1024) % 1024 == 0);
}

/// The mixed values of one slab.
proof fn lemma_slab_values(c: Ctx, s: Machine, d: PrefillDims, t: int, before: Seq<Val>)
    requires
        prefill_sized(c, d),
        d.slabbed(),
        0 <= t < d.n_slab,
        got(s.mem, Buf::PAttn) is Probs,
        got(s.mem, Buf::PAttn)->Probs_keys <= slab_len(d, t),
        *got(s.mem, Buf::PAttn)->Probs_of is Scores,
        (*got(s.mem, Buf::PAttn)->Probs_of)->from == t * 1024,
        before.len() == t,
        t > 0 ==> got(s.mem, Buf::PSlabPart) == (Val::Slabs { of: before }),
    ensures
        ({
            let u = run(
                c,
                s,
                gemm_ops(
                    Kernel::GemmAvCausal,
                    Buf::PAttn,
                    Buf::PVRep,
                    Buf::PSlabPart,
                    slab_part_offset(c.cfg, d, t),
                    d.n_slab + t,
                    slab_value_dims(c.cfg, d, t),
                    1,
                    (d.mp / 128) as u32,
                    c.cfg.num_attention_heads as u32,
                ),
            );
            &&& ring_but(s, u, |b: Buf| b == Buf::PSlabPart)
            &&& got(u.mem, Buf::PSlabPart) == (Val::Slabs {
                of: before.push(
                    Val::Mixed { p: Box::new(got(s.mem, Buf::PAttn)), v: Box::new(got(s.mem, Buf::PVRep)) },
                ),
            })
        }),
{
    let g = slab_value_dims(c.cfg, d, t);
    let off = slab_part_offset(c.cfg, d, t);
    lemma_gemm_fired(
        c,
        s,
        Kernel::GemmAvCausal,
        Buf::PAttn,
        Buf::PVRep,
        Buf::PSlabPart,
        off,
        d.n_slab + t,
        g,
        1,
        (d.mp / 128) as u32,
        c.cfg.num_attention_heads as u32,
    );
    lemma_slab_bounds(c, d, t);
    let hd = c.cfg.head_dim as int;
    let nqh = c.cfg.num_attention_heads as int;
    lemma_even(d.mp as int, 1024);
    lemma_even(d.nkv_rows as int, hd);
    assert(nqh * hd >= 0) by (nonlinear_arith)
        requires
            nqh >= 0,
            hd >= 0,
    ;
    lemma_values_fit(c, d, g);
    let one = d.mp * nqh * hd * 2;
    assert(off == t * one) by (nonlinear_arith)
        requires
            off == t * d.mp * nqh * hd * 2,
            one == d.mp * nqh * hd * 2,
    ;
    assert(0 <= off <= 16 * one) by (nonlinear_arith)
        requires
            off == t * one,
            one == d.mp * nqh * hd * 2,
            0 <= t < 16,
            nqh >= 0,
            hd >= 0,
            d.mp >= 0,
    ;
    assert((t * 1024) / 1024 == t);
    if t == 0 {
        let v = Val::Mixed { p: Box::new(got(s.mem, Buf::PAttn)), v: Box::new(got(s.mem, Buf::PVRep)) };
        assert(before.push(v) =~= seq![v]);
    }
}

/// Attention over one more slab.
proof fn lemma_slab(c: Ctx, s: Machine, d: PrefillDims, scale_bits: u32, q: Val, k: Val, v: Val, t: int, u: Machine)
    requires
        prefill_sized(c, d),
        prefill_set(c, u.set, d, scale_bits),
        d.slabbed(),
        0 <= t < d.n_slab,
        got(s.mem, Buf::PQOut) == q,
        got(s.mem, Buf::PKRep) == k,
        got(s.mem, Buf::PVRep) == v,
        slabs_done(
            s,
            u,
            t,
            |i: int| slab_mixed(c, d, scale_bits, q, k, v, i),
            |i: int| slab_counted(c, d, scale_bits, q, k, i),
        ),
    ensures
        slabs_done(
            s,
            run(c, u, slab_ops(c.cfg, d, c.sw.dup@, t)),
            t + 1,
            |i: int| slab_mixed(c, d, scale_bits, q, k, v, i),
            |i: int| slab_counted(c, d, scale_bits, q, k, i),
        ),
{
    let cfg = c.cfg;
    let nqh = cfg.num_attention_heads as u32;
    let my = (d.mp / 128) as u32;
    let (gx, gy) = row_grid(cfg, d);
    let fm = |i: int| slab_mixed(c, d, scale_bits, q, k, v, i);
    let fs = |i: int| slab_counted(c, d, scale_bits, q, k, i);
    lemma_prefill_names();
    lemma_slab_bounds(c, d, t);
    let g = slab_score_dims(cfg, d, t);
    let a1 = gemm_ops(Kernel::GemmCausal, Buf::PQOut, Buf::PKRep, Buf::PScores, 0, t, g, 8, my, nqh);
    let a2 = run_at_ops(Kernel::SlabStats, Group::PSlabStats, ((16 + t) * 256) as u32, gx, gy);
    let a3 = run_at_ops(Kernel::Softmax(256), Group::PSoftmax, (t * 256) as u32, gx, gy);
    let a4 = gemm_ops(
        Kernel::GemmAvCausal,
        Buf::PAttn,
        Buf::PVRep,
        Buf::PSlabPart,
        slab_part_offset(cfg, d, t),
        d.n_slab + t,
        slab_value_dims(cfg, d, t),
        1,
        my,
        nqh,
    );
    assert(slab_ops(cfg, d, c.sw.dup@, t) =~= a1 + a2 + a3 + a4);
    lemma_run_sum(c, u, a1 + a2 + a3, a4);
    lemma_run_sum(c, u, a1 + a2, a3);
    lemma_run_sum(c, u, a1, a2);
    lemma_even(d.mp as int, cfg.head_dim as int);
    lemma_even(d.nkv_rows as int, cfg.head_dim as int);
    lemma_scores(c, u, d, t, g, 8);
    let u1 = run(c, u, a1);
    assert(got(u1.mem, Buf::PScores) == slab_scores(c, q, k, t));
    let bs = Seq::new(t as nat, fs);
    let bm = Seq::new(t as nat, fm);
    lemma_stats(c, u1, d, scale_bits, t, bs);
    let u2 = run(c, u1, a2);
    assert(slab_softmax(cfg, d, scale_bits, t) is Softmax);
    assert(slab_statistics(cfg, d, scale_bits, t) is SlabStats);
    lemma_softmax(c, u2, d, scale_bits, Kernel::Softmax(256), t * 256);
    let u3 = run(c, u2, a3);
    lemma_slab_values(c, u3, d, t, bm);
    let u4 = run(c, u3, a4);
    assert(Seq::new((t + 1) as nat, fs) =~= bs.push(slab_counted(c, d, scale_bits, q, k, t)));
    assert(Seq::new((t + 1) as nat, fm) =~= bm.push(slab_mixed(c, d, scale_bits, q, k, v, t)));
}

proof fn lemma_slabs(c: Ctx, s: Machine, d: PrefillDims, scale_bits: u32, q: Val, k: Val, v: Val, n: nat)
    requires
        prefill_sized(c, d),
        prefill_set(c, s.set, d, scale_bits),
        d.slabbed(),
        n <= d.n_slab,
        got(s.mem, Buf::PQOut) == q,
        got(s.mem, Buf::PKRep) == k,
        got(s.mem, Buf::PVRep) == v,
    ensures
        slabs_done(
            s,
            run(c, s, slabs_ops(c.cfg, d, c.sw.dup@, n)),
            n as int,
            |i: int| slab_mixed(c, d, scale_bits, q, k, v, i),
            |i: int| slab_counted(c, d, scale_bits, q, k, i),
        ),
    decreases n,
{
    if n == 0 {
        lemma_run_none(c, s);
    } else {
        let m = (n - 1) as nat;
        lemma_slabs(c, s, d, scale_bits, q, k, v, m);
        let u = run(c, s, slabs_ops(c.cfg, d, c.sw.dup@, m));
        lemma_set_kept(c, s, u, d, scale_bits);
        lemma_slab(c, s, d, scale_bits, q, k, v, m as int, u);
        lemma_run_sum(c, s, slabs_ops(c.cfg, d, c.sw.dup@, m), slab_ops(c.cfg, d, c.sw.dup@, m as int));
    }
}

/// What is set stays set while only the GEMM ring is written.
proof fn lemma_set_kept(c: Ctx, s: Machine, t: Machine, d: PrefillDims, scale_bits: u32)
    requires
        prefill_set(c, s.set, d, scale_bits),
        forall|k: (Buf, u64)| k.0 != Buf::PGd ==> #[trigger] t.set.contains_key(k) == s.set.contains_key(k),
        forall|k: (Buf, u64)| k.0 != Buf::PGd ==> #[trigger] t.set[k] == s.set[k],
    ensures
        prefill_set(c, t.set, d, scale_bits),
{
}

/// The slabs put together.
proof fn lemma_merged(c: Ctx, s: Machine, d: PrefillDims, scale_bits: u32, p: Seq<Val>, st: Seq<Val>)
    requires
        prefill_sized(c, d),
        prefill_set(c, s.set, d, scale_bits),
        d.slabbed(),
        p.len() == d.n_slab,
        st.len() == d.n_slab,
        got(s.mem, Buf::PSlabPart) == (Val::Slabs { of: p }),
        got(s.mem, Buf::PSlabStats) == (Val::Slabs { of: st }),
    ensures
        ({
            let a = run_ops(
                Kernel::SlabWeights,
                Group::PSlabWeights,
                weight_grid(c.cfg, d).0,
                weight_grid(c.cfg, d).1,
                1,
            );
            let b = run_ops(
                Kernel::SlabMerge,
                Group::PSlabMerge,
                merge_grid(c.cfg, d),
                c.cfg.num_attention_heads as u32,
                1,
            );
            let t = run(c, run(c, s, a), b);
            &&& ring_but(s, t, |b: Buf| b == Buf::PSlabW || b == Buf::PAttnFlat)
            &&& got(t.mem, Buf::PAttnFlat) == (Val::Merged {
                of: Box::new(Val::Slabs { of: p }),
                by: Box::new(Val::Shares { of: Box::new(Val::Slabs { of: st }) }),
            })
        }),
{
    let (wx, wy) = weight_grid(c.cfg, d);
    let mx = merge_grid(c.cfg, d);
    let nqh = c.cfg.num_attention_heads as u32;
    lemma_fired(c, s, Kernel::SlabWeights, Group::PSlabWeights, wx, wy, 1);
    let r = c.cfg.num_attention_heads * d.mp;
    assert(r >= 0) by (nonlinear_arith)
        requires
            r == c.cfg.num_attention_heads * d.mp,
    ;
    lemma_align_bounds(r, 256);
    lemma_grid(ceil_div(r, 256));
    let t1 = fired(c, s, Kernel::SlabWeights, Group::PSlabWeights, wx, wy, 1);
    assert(got(t1.mem, Buf::PSlabW) == (Val::Shares { of: Box::new(Val::Slabs { of: st }) }));
    lemma_fired(c, t1, Kernel::SlabMerge, Group::PSlabMerge, mx, nqh, 1);
    lemma_even(c.cfg.head_dim as int, d.mp as int);
    lemma_even(d.mp as int, c.cfg.head_dim as int);
    lemma_align_bounds(d.mp * c.cfg.head_dim / 2, 256);
}

/// The activation of all rows.
proof fn lemma_rows_gated(c: Ctx, s: Machine, d: PrefillDims, scale_bits: u32)
    requires
        prefill_sized(c, d),
        prefill_set(c, s.set, d, scale_bits),
    ensures
        ({
            let (ax, ay) = act_grid(c.cfg, d);
            let t = run(c, s, run_ops(Kernel::Silu, Group::PSilu, ax, ay, 1));
            &&& ring_but(s, t, |b: Buf| b == Buf::PActivated)
            &&& got(t.mem, Buf::PActivated) == (Val::Gated { x: Box::new(got(s.mem, Buf::PGu)) })
        }),
{
    let (ax, ay) = act_grid(c.cfg, d);
    lemma_fired(c, s, Kernel::Silu, Group::PSilu, ax, ay, 1);
    let e = d.s * c.cfg.intermediate_size;
    lemma_even(d.s as int, c.cfg.intermediate_size as int);
    lemma_align_bounds(e / 2, 256);
    lemma_grid(ceil_div(e / 2, 256));
}

/// What a layer leaves, by what it found.
pub open spec fn rows_done(c: Ctx, s: Machine, t: Machine, d: PrefillDims, l: usize, scale_bits: u32) -> bool {
    let x = got(s.mem, Buf::PH);
    let first = d.kv_start as int;
    &&& got(t.mem, Buf::PH) == fed_forward(
        c.cfg,
        s.mem,
        l,
        mixed_in(s.mem, l, x, attended_rows(c, s.mem, l, x, first, scale_bits, d.slabbed())),
    )
    &&& got(t.mem, Buf::KCache(l)) == keys(c.cfg, s.mem, l, x, c.slots, first, c.rows)
    &&& got(t.mem, Buf::VCache(l)) == values(c.cfg, s.mem, l, x, c.slots, first, c.rows)
    &&& ring_but(s, t, |b: Buf| rows_write(b, l))
}

/// Attention of one layer, from the heads on.
proof fn lemma_rows_attended(
    c: Ctx,
    s: Machine,
    d: PrefillDims,
    scale_bits: u32,
    l: usize,
    slot: int,
    x: Val,
    m: Map<Buf, Val>,
)
    requires
        prefill_sized(c, d),
        prefill_set(c, s.set, d, scale_bits),
        0 <= slot,
        !d.slabbed() ==> slot + 1 < 256,
        got(s.mem, Buf::PQOut) == queries(c.cfg, m, l, x, d.kv_start as int),
        got(s.mem, Buf::KCache(l)) == keys(c.cfg, m, l, x, c.slots, d.kv_start as int, c.rows),
        got(s.mem, Buf::VCache(l)) == values(c.cfg, m, l, x, c.slots, d.kv_start as int, c.rows),
    ensures
        ({
            let (rx, ry) = repeat_grid(c.cfg, d);
            let t1 = run(c, s, run_ops(Kernel::RepeatKv, Group::PRepeatK(l), rx, ry, 1));
            let t2 = run(c, t1, run_ops(Kernel::RepeatKv, Group::PRepeatV(l), rx, ry, 1));
            let t = run(c, t2, attention_ops(c.cfg, d, c.sw, slot));
            &&& ring_but(
                s,
                t,
                |b: Buf| rows_write(b, l) && b != Buf::KCache(l) && b != Buf::VCache(l) && b != Buf::PH && b
                    != Buf::PQkv,
            )
            &&& got(t.mem, Buf::PAttnFlat) == attended_rows(
                c,
                m,
                l,
                x,
                d.kv_start as int,
                scale_bits,
                d.slabbed(),
            )
        }),
{
    let (rx, ry) = repeat_grid(c.cfg, d);
    let first = d.kv_start as int;
    lemma_spread(c, s, d, scale_bits, l, false);
    let t1 = run(c, s, run_ops(Kernel::RepeatKv, Group::PRepeatK(l), rx, ry, 1));
    lemma_set_kept(c, s, t1, d, scale_bits);
    lemma_spread(c, t1, d, scale_bits, l, true);
    let t2 = run(c, t1, run_ops(Kernel::RepeatKv, Group::PRepeatV(l), rx, ry, 1));
    lemma_set_kept(c, t1, t2, d, scale_bits);
    let q = queries(c.cfg, m, l, x, first);
    let k = spread_keys(c, m, l, x, first);
    let v = spread_values(c, m, l, x, first);
    assert(got(t2.mem, Buf::PQOut) == q);
    assert(got(t2.mem, Buf::PKRep) == k);
    assert(got(t2.mem, Buf::PVRep) == v);
    if d.slabbed() {
        let n = d.n_slab as nat;
        let fm = |i: int| slab_mixed(c, d, scale_bits, q, k, v, i);
        let fs = |i: int| slab_counted(c, d, scale_bits, q, k, i);
        let a1 = slabs_ops(c.cfg, d, c.sw.dup@, n);
        let a2 = run_ops(
            Kernel::SlabWeights,
            Group::PSlabWeights,
            weight_grid(c.cfg, d).0,
            weight_grid(c.cfg, d).1,
            1,
        );
        let a3 = run_ops(
            Kernel::SlabMerge,
            Group::PSlabMerge,
            merge_grid(c.cfg, d),
            c.cfg.num_attention_heads as u32,
            1,
        );
        lemma_run_sum(c, t2, a1 + a2, a3);
        lemma_run_sum(c, t2, a1, a2);
        lemma_slabs(c, t2, d, scale_bits, q, k, v, n);
        let t3 = run(c, t2, a1);
        lemma_set_kept(c, t2, t3, d, scale_bits);
        lemma_merged(c, t3, d, scale_bits, Seq::new(n, fm), Seq::new(n, fs));
        assert(Seq::new(n, fm) =~= Seq::new(n, |t: int| slab_result(c, m, l, x, first, scale_bits, t)));
        assert(Seq::new(n, fs) =~= Seq::new(n, |t: int| slab_summary(c, m, l, x, first, scale_bits, t)));
    } else {
        lemma_flat(c, t2, d, scale_bits, slot, q, k, v);
    }
}

/// One layer of a prefill.
proof fn lemma_rows_layer(c: Ctx, s: Machine, d: PrefillDims, scale_bits: u32, l: usize, slot: int)
    requires
        prefill_sized(c, d),
        prefill_set(c, s.set, d, scale_bits),
        0 <= slot,
        slot + layer_slots(d, c.sw.dup@) <= 256,
    ensures
        rows_done(c, s, run(c, s, prefill_layer_ops(c.cfg, d, c.sw, l, slot)), d, l, scale_bits),
{
    let cfg = c.cfg;
    let dup = c.sw.dup@;
    let x = got(s.mem, Buf::PH);
    let first = d.kv_start as int;
    let hs = cfg.hidden_size as int;
    let inter = cfg.intermediate_size as int;
    let qkv = cfg.qkv_width();
    let heads = (cfg.num_attention_heads + cfg.num_key_value_heads) as u32;
    let my = (d.mp / 128) as u32;
    let sx = d.s as u32;
    let (rx, ry) = repeat_grid(cfg, d);
    let (ax, ay) = act_grid(cfg, d);
    lemma_prefill_names();
    let after = slot + 1 + attention_slots(d, dup);
    let nd = cfg.num_attention_heads * cfg.head_dim;
    assert(nd >= 0) by (nonlinear_arith)
        requires
            nd == cfg.num_attention_heads * cfg.head_dim,
    ;
    let a1 = run_ops(Kernel::RmsNorm, Group::PRms1(l), sx, 1, 1);
    let a2 = gemm_ops(
        Kernel::Gemm,
        Buf::PNormed,
        Buf::QkvW(l),
        Buf::PQkv,
        0,
        slot,
        dense_dims(d.s as int, qkv, hs, qkv, 0, 0, 0),
        (qkv / 128) as u32,
        my,
        1,
    );
    let a3 = run_ops(Kernel::Extract, Group::PExtract(l), sx, heads, 1);
    let a4 = run_ops(Kernel::RepeatKv, Group::PRepeatK(l), rx, ry, 1);
    let a5 = run_ops(Kernel::RepeatKv, Group::PRepeatV(l), rx, ry, 1);
    let a6 = attention_ops(cfg, d, c.sw, slot + 1);
    let a7 = gemm_ops(
        Kernel::GemmAcc,
        Buf::PAttnFlat,
        Buf::OW(l),
        Buf::PH,
        0,
        after,
        dense_dims(d.s as int, hs, nd, hs, 0, 0, 0),
        (hs / 128) as u32,
        my,
        1,
    );
    let a8 = run_ops(Kernel::RmsNorm, Group::PRms2(l), sx, 1, 1);
    let a9 = gemm_ops(
        Kernel::Gemm,
        Buf::PNorm2,
        Buf::GuW(l),
        Buf::PGu,
        0,
        after + 1,
        dense_dims(d.s as int, 2 * inter, hs, 2 * inter, 0, 0, 0),
        (2 * inter / 128) as u32,
        my,
        1,
    );
    let b1 = run_ops(Kernel::Silu, Group::PSilu, ax, ay, 1);
    let b2 = gemm_ops(
        Kernel::GemmAcc,
        Buf::PActivated,
        Buf::DpW(l),
        Buf::PH,
        0,
        after + 2,
        dense_dims(d.s as int, hs, inter, hs, 0, 0, 0),
        (hs / 128) as u32,
        my,
        1,
    );
    assert(prefill_layer_ops(cfg, d, c.sw, l, slot) =~= a1 + a2 + a3 + a4 + a5 + a6 + a7 + a8 + a9 + b1 + b2);
    lemma_run_sum(c, s, a1 + a2 + a3 + a4 + a5 + a6 + a7 + a8 + a9 + b1, b2);
    lemma_run_sum(c, s, a1 + a2 + a3 + a4 + a5 + a6 + a7 + a8 + a9, b1);
    lemma_run_sum(c, s, a1 + a2 + a3 + a4 + a5 + a6 + a7 + a8, a9);
    lemma_run_sum(c, s, a1 + a2 + a3 + a4 + a5 + a6 + a7, a8);
    lemma_run_sum(c, s, a1 + a2 + a3 + a4 + a5 + a6, a7);
    lemma_run_sum(c, s, a1 + a2 + a3 + a4 + a5, a6);
    lemma_run_sum(c, s, a1 + a2 + a3 + a4, a5);
    lemma_run_sum(c, s, a1 + a2 + a3, a4);
    lemma_run_sum(c, s, a1 + a2, a3);
    lemma_run_sum(c, s, a1, a2);
    lemma_rows_normed(c, s, d, scale_bits, Group::PRms1(l), Buf::IlnW(l), Buf::PNormed);
    let t1 = run(c, s, a1);
    lemma_projection(c, t1, d, Kernel::Gemm, Buf::PNormed, Buf::QkvW(l), Buf::PQkv, slot, qkv, hs);
    let t2 = run(c, t1, a2);
    assert(got(t2.mem, Buf::PQkv) == projected(cfg, s.mem, l, x));
    lemma_set_kept(c, s, t2, d, scale_bits);
    lemma_rows_extracted(c, t2, d, scale_bits, l, x, s.mem);
    let t3 = run(c, t2, a3);
    lemma_set_kept(c, t2, t3, d, scale_bits);
    lemma_rows_attended(c, t3, d, scale_bits, l, slot + 1, x, s.mem);
    let t6 = run(c, run(c, run(c, t3, a4), a5), a6);
    lemma_set_kept(c, t3, t6, d, scale_bits);
    assert(got(t6.mem, Buf::PH) == x);
    lemma_projection(c, t6, d, Kernel::GemmAcc, Buf::PAttnFlat, Buf::OW(l), Buf::PH, after, hs, nd);
    let t7 = run(c, t6, a7);
    let y = got(t7.mem, Buf::PH);
    assert(y == mixed_in(s.mem, l, x, attended_rows(c, s.mem, l, x, first, scale_bits, d.slabbed())));
    lemma_set_kept(c, t6, t7, d, scale_bits);
    lemma_rows_normed(c, t7, d, scale_bits, Group::PRms2(l), Buf::PlnW(l), Buf::PNorm2);
    let t8 = run(c, t7, a8);
    lemma_projection(c, t8, d, Kernel::Gemm, Buf::PNorm2, Buf::GuW(l), Buf::PGu, after + 1, 2 * inter, hs);
    let t9 = run(c, t8, a9);
    lemma_set_kept(c, t7, t9, d, scale_bits);
    lemma_rows_gated(c, t9, d, scale_bits);
    let u1 = run(c, t9, b1);
    assert(got(u1.mem, Buf::PH) == y);
    lemma_projection(c, u1, d, Kernel::GemmAcc, Buf::PActivated, Buf::DpW(l), Buf::PH, after + 2, hs, inter);
}

/// One of the first `n` layers writes this buffer.
pub open spec fn layers_write_rows(b: Buf, n: nat) -> bool {
    match b {
        Buf::KCache(l) => l < n,
        Buf::VCache(l) => l < n,
        _ => rows_write(b, 0),
    }
}

/// What the first `n` layers leave, by what they found.
pub open spec fn all_rows_done(c: Ctx, s: Machine, t: Machine, d: PrefillDims, n: nat, scale_bits: u32) -> bool {
    let x = got(s.mem, Buf::PH);
    let first = d.kv_start as int;
    &&& got(t.mem, Buf::PH) == hidden_rows(c, s.mem, x, n, first, scale_bits, d.slabbed())
    &&& forall|l: usize|
        #![trigger got(t.mem, Buf::KCache(l))]
        l < n ==> got(t.mem, Buf::KCache(l)) == keys(
            c.cfg,
            s.mem,
            l,
            hidden_rows(c, s.mem, x, l as nat, first, scale_bits, d.slabbed()),
            c.slots,
            first,
            c.rows,
        )
    &&& forall|l: usize|
        #![trigger got(t.mem, Buf::VCache(l))]
        l < n ==> got(t.mem, Buf::VCache(l)) == values(
            c.cfg,
            s.mem,
            l,
            hidden_rows(c, s.mem, x, l as nat, first, scale_bits, d.slabbed()),
            c.slots,
            first,
            c.rows,
        )
    &&& ring_but(s, t, |b: Buf| layers_write_rows(b, n))
}

proof fn lemma_next_rows(c: Ctx, s: Machine, t: Machine, u: Machine, d: PrefillDims, n: nat, scale_bits: u32)
    requires
        all_rows_done(c, s, t, d, n, scale_bits),
        rows_done(c, t, u, d, n as usize, scale_bits),
        n < usize::MAX,
    ensures
        all_rows_done(c, s, u, d, n + 1, scale_bits),
{
    let x = got(s.mem, Buf::PH);
    let first = d.kv_start as int;
    let l = n as usize;
    let slabs = d.slabbed();
    let h = hidden_rows(c, s.mem, x, n, first, scale_bits, slabs);
    lemma_same_attention(c, s, t, l, h, first, scale_bits, slabs);
    assert(projected(c.cfg, t.mem, l, h) == projected(c.cfg, s.mem, l, h));
    assert forall|k: usize| k < n + 1 implies #[trigger] got(u.mem, Buf::KCache(k)) == keys(
        c.cfg,
        s.mem,
        k,
        hidden_rows(c, s.mem, x, k as nat, first, scale_bits, slabs),
        c.slots,
        first,
        c.rows,
    ) by {
        if k < n {
            assert(got(u.mem, Buf::KCache(k)) == got(t.mem, Buf::KCache(k)));
        }
    }
    assert forall|k: usize| k < n + 1 implies #[trigger] got(u.mem, Buf::VCache(k)) == values(
        c.cfg,
        s.mem,
        k,
        hidden_rows(c, s.mem, x, k as nat, first, scale_bits, slabs),
        c.slots,
        first,
        c.rows,
    ) by {
        if k < n {
            assert(got(u.mem, Buf::VCache(k)) == got(t.mem, Buf::VCache(k)));
        }
    }
}

/// The attention term depends on memory only through the buffers it names.
proof fn lemma_same_attention(
    c: Ctx,
    s: Machine,
    t: Machine,
    l: usize,
    h: Val,
    first: int,
    scale_bits: u32,
    slabs: bool,
)
    requires
        forall|b: Buf|
            #![trigger got(t.mem, b)]
            !layers_write_rows(b, l as nat) ==> got(t.mem, b) == got(s.mem, b),
    ensures
        attended_rows(c, t.mem, l, h, first, scale_bits, slabs) == attended_rows(
            c,
            s.mem,
            l,
            h,
            first,
            scale_bits,
            slabs,
        ),
{
    assert(projected(c.cfg, t.mem, l, h) == projected(c.cfg, s.mem, l, h));
    assert(queries(c.cfg, t.mem, l, h, first) == queries(c.cfg, s.mem, l, h, first));
    assert(spread_keys(c, t.mem, l, h, first) == spread_keys(c, s.mem, l, h, first));
    assert(spread_values(c, t.mem, l, h, first) == spread_values(c, s.mem, l, h, first));
    let n = ceil_div(reach(first, c.rows), 1024) as nat;
    assert(Seq::new(n, |i: int| slab_result(c, t.mem, l, h, first, scale_bits, i)) =~= Seq::new(
        n,
        |i: int| slab_result(c, s.mem, l, h, first, scale_bits, i),
    ));
    assert(Seq::new(n, |i: int| slab_summary(c, t.mem, l, h, first, scale_bits, i)) =~= Seq::new(
        n,
        |i: int| slab_summary(c, s.mem, l, h, first, scale_bits, i),
    ));
}

proof fn lemma_slot_bound(c: Ctx, d: PrefillDims, l: int)
    requires
        prefill_sized(c, d),
        0 <= l < c.cfg.num_hidden_layers,
    ensures
        0 <= layer_slot(d, c.sw.dup@, l),
        layer_slot(d, c.sw.dup@, l) + layer_slots(d, c.sw.dup@) <= 256,
{
    lemma_prefill_names();
    let per = layer_slots(d, c.sw.dup@);
    assert(per == 4 || per == 6);
    if d.s >= 512 {
        let since = l % crate::decoder_prefill::submit_every(d.s as int);
        assert(0 <= since <= 3);
        assert(since * per <= 3 * per) by (nonlinear_arith)
            requires
                since <= 3,
                per >= 0,
        ;
        assert(0 <= since * per) by (nonlinear_arith)
            requires
                0 <= since,
                per >= 0,
        ;
    } else {
        let n = c.cfg.num_hidden_layers as int;
        assert(0 <= l * per) by (nonlinear_arith)
            requires
                0 <= l,
                per >= 0,
        ;
        assert(l * per + per <= n * per) by (nonlinear_arith)
            requires
                l + 1 <= n,
                per >= 0,
        ;
    }
}

proof fn lemma_all_rows(c: Ctx, s: Machine, d: PrefillDims, n: nat, scale_bits: u32)
    requires
        prefill_sized(c, d),
        prefill_set(c, s.set, d, scale_bits),
        n <= c.cfg.num_hidden_layers,
    ensures
        all_rows_done(c, s, run(c, s, prefill_layers_ops(c.cfg, d, c.sw, n)), d, n, scale_bits),
    decreases n,
{
    if n == 0 {
        lemma_run_none(c, s);
    } else {
        let m = (n - 1) as nat;
        let l = n - 1;
        lemma_all_rows(c, s, d, m, scale_bits);
        let a = prefill_layers_ops(c.cfg, d, c.sw, m);
        let slot = layer_slot(d, c.sw.dup@, l);
        let b = prefill_layer_ops(c.cfg, d, c.sw, l as usize, slot);
        let e = if submits_after(d.s as int, l) {
            seq![Op::SubmitWait { layer: l as usize }]
        } else {
            Seq::empty()
        };
        lemma_run_sum(c, s, a + b, e);
        lemma_run_sum(c, s, a, b);
        let t = run(c, s, a);
        lemma_set_kept(c, s, t, d, scale_bits);
        lemma_slot_bound(c, d, l);
        lemma_rows_layer(c, t, d, scale_bits, l as usize, slot);
        let u = run(c, t, b);
        lemma_next_rows(c, s, t, u, d, m, scale_bits);
        if submits_after(d.s as int, l) {
            lemma_run_one(c, u, Op::SubmitWait { layer: l as usize });
        } else {
            lemma_run_none(c, u);
        }
    }
}

proof fn lemma_zeros(c: Ctx, s: Machine, cfg: TextConfig, d: PrefillDims, n: nat)
    ensures
        run(c, s, tail_zeros(cfg, d, n)) == s,
    decreases n,
{
    if n == 0 {
        lemma_run_none(c, s);
    } else {
        let m = (n - 1) as nat;
        lemma_zeros(c, s, cfg, d, m);
        let ops = tail_zeros(cfg, d, n);
        let a = tail_zeros(cfg, d, m);
        let x = ops[ops.len() - 2];
        let y = ops[ops.len() - 1];
        assert(ops =~= a + seq![x] + seq![y]);
        lemma_run_sum(c, s, a + seq![x], seq![y]);
        lemma_run_sum(c, s, a, seq![x]);
        lemma_run_one(c, s, x);
        lemma_run_one(c, s, y);
    }
}

/// Settings were added to slots of the softmax uniform only.
pub open spec fn slots_added(s: Machine, t: Machine) -> bool {
    &&& t.mem == s.mem
    &&& t.out == s.out
    &&& forall|k: (Buf, u64)| k.0 != Buf::PSl ==> #[trigger] t.set.contains_key(k) == s.set.contains_key(k)
    &&& forall|k: (Buf, u64)| k.0 != Buf::PSl ==> #[trigger] t.set[k] == s.set[k]
}

proof fn lemma_slab_settings(c: Ctx, s: Machine, d: PrefillDims, scale_bits: u32, n: nat)
    requires
        n <= 16,
    ensures
        ({
            let t = run(c, s, slab_settings(c.cfg, d, scale_bits, n));
            slots_added(s, t) && slabs_set(c.cfg, t.set, d, scale_bits, n as int)
        }),
    decreases n,
{
    if n == 0 {
        lemma_run_none(c, s);
    } else {
        let m = (n - 1) as nat;
        lemma_slab_settings(c, s, d, scale_bits, m);
        let a = slab_settings(c.cfg, d, scale_bits, m);
        let ops = slab_settings(c.cfg, d, scale_bits, n);
        let x = ops[ops.len() - 2];
        let y = ops[ops.len() - 1];
        assert(ops =~= a + seq![x] + seq![y]);
        lemma_run_sum(c, s, a + seq![x], seq![y]);
        lemma_run_sum(c, s, a, seq![x]);
        let t = run(c, s, a);
        lemma_run_one(c, t, x);
        let t1 = exec(c, t, x);
        lemma_run_one(c, t1, y);
        let t2 = exec(c, t1, y);
        assert forall|i: int| #![trigger slab_softmax(c.cfg, d, scale_bits, i)] 0 <= i < n implies t2.set.contains_key(
            (Buf::PSl, (i * 256) as u64),
        ) && t2.set[(Buf::PSl, (i * 256) as u64)] == slab_softmax(c.cfg, d, scale_bits, i) && t2.set.contains_key(
            (Buf::PSl, ((16 + i) * 256) as u64),
        ) && t2.set[(Buf::PSl, ((16 + i) * 256) as u64)] == slab_statistics(c.cfg, d, scale_bits, i) by {
            if i < m {
                assert((i * 256) as u64 != (m * 256) as u64);
                assert((i * 256) as u64 != ((16 + m) * 256) as u64);
                assert(((16 + i) * 256) as u64 != (m * 256) as u64);
                assert(((16 + i) * 256) as u64 != ((16 + m) * 256) as u64);
            } else {
                assert((i * 256) as u64 != ((16 + i) * 256) as u64);
            }
        }
    }
}

proof fn lemma_attention_settings(c: Ctx, s: Machine, d: PrefillDims, scale_bits: u32)
    requires
        prefill_sized(c, d),
    ensures
        ({
            let t = run(c, s, attention_settings(c.cfg, d, scale_bits));
            &&& slots_added(s, t)
            &&& !d.slabbed() ==> t.set.contains_key((Buf::PSl, 0)) && t.set[(Buf::PSl, 0)] == (Uniform::Softmax {
                n_w: (d.cur16 / 2) as u32,
                n_x: (d.np / 2) as u32,
                valid: d.cur as u32,
                m: d.s as u32,
                mp: d.mp as u32,
                scale_bits,
                gx: row_grid(c.cfg, d).0,
                row0: 0,
            })
            &&& d.slabbed() ==> slabs_set(c.cfg, t.set, d, scale_bits, d.n_slab as int)
            &&& d.slabbed() ==> t.set.contains_key((Buf::PSl, 8192)) && t.set[(Buf::PSl, 8192)]
                == (Uniform::SlabWeights {
                rows: (c.cfg.num_attention_heads * d.mp) as u32,
                n_slab: d.n_slab as u32,
                gx: weight_grid(c.cfg, d).0,
            })
            &&& d.slabbed() ==> t.set.contains_key((Buf::PSl, 8448)) && t.set[(Buf::PSl, 8448)]
                == (Uniform::SlabMerge { rows: d.mp as u32, n_slab: d.n_slab as u32, gx: merge_grid(c.cfg, d) })
        }),
{
    let ops = attention_settings(c.cfg, d, scale_bits);
    if d.slabbed() {
        let a = slab_settings(c.cfg, d, scale_bits, d.n_slab as nat);
        let x = ops[ops.len() - 2];
        let y = ops[ops.len() - 1];
        assert(ops =~= a + seq![x] + seq![y]);
        lemma_run_sum(c, s, a + seq![x], seq![y]);
        lemma_run_sum(c, s, a, seq![x]);
        lemma_slab_settings(c, s, d, scale_bits, d.n_slab as nat);
        let t = run(c, s, a);
        lemma_run_one(c, t, x);
        let t1 = exec(c, t, x);
        lemma_run_one(c, t1, y);
        let t2 = exec(c, t1, y);
        assert forall|i: int| #![trigger slab_softmax(c.cfg, d, scale_bits, i)] 0 <= i < d.n_slab implies
            t2.set.contains_key((Buf::PSl, (i * 256) as u64)) && t2.set[(Buf::PSl, (i * 256) as u64)] == slab_softmax(
            c.cfg,
            d,
            scale_bits,
            i,
        ) && t2.set.contains_key((Buf::PSl, ((16 + i) * 256) as u64)) && t2.set[(Buf::PSl, ((16 + i) * 256) as u64)]
            == slab_statistics(c.cfg, d, scale_bits, i) by {
            assert((i * 256) as u64 != 8192 && (i * 256) as u64 != 8448);
            assert(((16 + i) * 256) as u64 != 8192 && ((16 + i) * 256) as u64 != 8448);
        }
    } else {
        assert(ops =~= seq![ops[0]]);
        lemma_run_one(c, s, ops[0]);
    }
}

/// What is written before the first layer is what the layers need.
proof fn lemma_setup(c: Ctx, s: Machine, dec: WgpuTextDecoder, d: PrefillDims, scale_bits: u32)
    requires
        prefill_sized(c, d),
        c.cfg == dec.cfg,
        c.slots == dec.cap,
        constants_set(c.cfg, s.set),
    ensures
        ({
            let t = run(c, s, setup_ops(dec, d, scale_bits));
            prefill_set(c, t.set, d, scale_bits) && t.mem == s.mem && t.out == s.out
        }),
{
    let cfg = dec.cfg;
    let ops = setup_ops(dec, d, scale_bits);
    let w0 = ops[0];
    let w1 = ops[1];
    let a = attention_settings(cfg, d, scale_bits);
    let z = if d.nkv_rows > d.cur {
        tail_zeros(cfg, d, cfg.num_attention_heads as nat)
    } else {
        Seq::empty()
    };
    let w2 = ops[ops.len() - 1];
    assert(ops =~= seq![w0] + seq![w1] + a + z + seq![w2]);
    lemma_run_sum(c, s, seq![w0] + seq![w1] + a + z, seq![w2]);
    lemma_run_sum(c, s, seq![w0] + seq![w1] + a, z);
    lemma_run_sum(c, s, seq![w0] + seq![w1], a);
    lemma_run_sum(c, s, seq![w0], seq![w1]);
    lemma_run_one(c, s, w0);
    let t0 = exec(c, s, w0);
    lemma_run_one(c, t0, w1);
    let t1 = exec(c, t0, w1);
    lemma_attention_settings(c, t1, d, scale_bits);
    let t2 = run(c, t1, a);
    if d.nkv_rows > d.cur {
        lemma_zeros(c, t2, cfg, d, cfg.num_attention_heads as nat);
    } else {
        lemma_run_none(c, t2);
    }
    lemma_run_one(c, t2, w2);
}

/// What a prefill of the rows from position `kv_start` on is for: the token that
/// the model gives after the last of the rows, and their keys and values in the
/// caches, each row in the slot of its position and rotated by its position.
pub open spec fn prefill_done(c: Ctx, s: Machine, t: Machine, d: PrefillDims, scale_bits: u32) -> bool {
    let n = c.cfg.num_hidden_layers as nat;
    let x = got(s.mem, Buf::PH);
    let first = d.kv_start as int;
    &&& t.out == following(
        c.cfg,
        s.mem,
        Val::Row {
            x: Box::new(hidden_rows(c, s.mem, x, n, first, scale_bits, d.slabbed())),
            row: c.rows - 1,
        },
    )
    &&& got(t.mem, Buf::Token) == t.out
    &&& forall|l: usize|
        #![trigger got(t.mem, Buf::KCache(l))]
        l < n ==> got(t.mem, Buf::KCache(l)) == keys(
            c.cfg,
            s.mem,
            l,
            hidden_rows(c, s.mem, x, l as nat, first, scale_bits, d.slabbed()),
            c.slots,
            first,
            c.rows,
        )
    &&& forall|l: usize|
        #![trigger got(t.mem, Buf::VCache(l))]
        l < n ==> got(t.mem, Buf::VCache(l)) == values(
            c.cfg,
            s.mem,
            l,
            hidden_rows(c, s.mem, x, l as nat, first, scale_bits, d.slabbed()),
            c.slots,
            first,
            c.rows,
        )
    &&& constants_set(c.cfg, t.set)
    &&& forall|b: Buf|
        !layers_write_rows(b, n) && b != Buf::FinalNorm && b != Buf::Logits && b != Buf::Token ==> #[trigger] got(
            t.mem,
            b,
        ) == got(s.mem, b)
}

/// The final norm reads the last row, and nothing else.
proof fn lemma_last_row(c: Ctx, s: Machine, d: PrefillDims)
    requires
        prefill_sized(c, d),
        constants_set(c.cfg, s.set),
    ensures
        ({
            let g = Group::PFinalRms {
                offset: ((d.s - 1) * c.cfg.hidden_size * 2) as u64,
                size: (c.cfg.hidden_size * 2) as u64,
            };
            let t = run(c, s, run_ops(Kernel::RmsNorm, g, 1, 1, 1));
            &&& t.set == s.set
            &&& t.out == s.out
            &&& forall|b: Buf| b != Buf::FinalNorm ==> #[trigger] got(t.mem, b) == got(s.mem, b)
            &&& got(t.mem, Buf::FinalNorm) == (Val::Norm {
                x: Box::new(Val::Row { x: Box::new(got(s.mem, Buf::PH)), row: d.s - 1 }),
                w: Box::new(got(s.mem, Buf::FinalNormW)),
                eps_bits: c.cfg.rms_norm_eps_bits,
            })
        }),
{
    let hs = c.cfg.hidden_size as int;
    let g = Group::PFinalRms {
        offset: ((d.s - 1) * c.cfg.hidden_size * 2) as u64,
        size: (c.cfg.hidden_size * 2) as u64,
    };
    lemma_fired(c, s, Kernel::RmsNorm, g, 1, 1, 1);
    let row = hs * 2;
    let q = d.s - 1;
    let off = q * hs * 2;
    assert(off == q * row && 0 <= off && off + row == d.s * hs * 2) by (nonlinear_arith)
        requires
            off == q * hs * 2,
            row == hs * 2,
            q == d.s - 1,
            q >= 0,
            hs >= 0,
    ;
    assert(off / row == q && off % row == 0) by (nonlinear_arith)
        requires
            off == q * row,
            row > 0,
    ;
}

/// A prefill computes the model: its commands, run on any memory that holds the
/// rows, leave every row's keys and values in the caches and copy out the token
/// that follows the last row.
pub proof fn law_prefill_computes(
    dec: WgpuTextDecoder,
    d: PrefillDims,
    sw: Switches,
    subgroup: bool,
    scale_bits: u32,
    s: Machine,
)
    requires
        prefill_sized(many_rows(dec.cfg, sw, subgroup, dec.cap as int, d), d),
        constants_set(dec.cfg, s.set),
    ensures
        ({
            let c = many_rows(dec.cfg, sw, subgroup, dec.cap as int, d);
            prefill_done(c, s, run(c, s, prefill_ops(dec, d, sw, scale_bits)), d, scale_bits)
        }),
{
    let cfg = dec.cfg;
    let c = many_rows(cfg, sw, subgroup, dec.cap as int, d);
    let n = cfg.num_hidden_layers as nat;
    let a1 = setup_ops(dec, d, scale_bits);
    let a2 = prefill_layers_ops(cfg, d, sw, n);
    let a3 = last_ops(cfg, d);
    lemma_run_sum(c, s, a1 + a2, a3);
    lemma_run_sum(c, s, a1, a2);
    lemma_setup(c, s, dec, d, scale_bits);
    let s1 = run(c, s, a1);
    lemma_all_rows(c, s1, d, n, scale_bits);
    let s2 = run(c, s1, a2);
    lemma_set_kept(c, s1, s2, d, scale_bits);
    let g = Group::PFinalRms {
        offset: ((d.s - 1) * cfg.hidden_size * 2) as u64,
        size: (cfg.hidden_size * 2) as u64,
    };
    let b1 = run_ops(Kernel::RmsNorm, g, 1, 1, 1);
    let b2 = run_ops(Kernel::GemvLm, Group::GemvLm, (cfg.vocab_size / 8) as u32, 1, 1);
    let b3 = run_ops(Kernel::Argmax, Group::Argmax, 1, 1, 1);
    let b4 = seq![Op::CopyToken];
    let b5 = seq![Op::Submit];
    assert(a3 =~= b1 + b2 + b3 + b4 + b5);
    lemma_run_sum(c, s2, b1 + b2 + b3 + b4, b5);
    lemma_run_sum(c, s2, b1 + b2 + b3, b4);
    lemma_run_sum(c, s2, b1 + b2, b3);
    lemma_run_sum(c, s2, b1, b2);
    lemma_last_row(c, s2, d);
    let s3 = run(c, s2, b1);
    lemma_logits(c, s3);
    let s4 = run(c, s3, b2);
    lemma_argmax(c, s4);
    let s5 = run(c, s4, b3);
    lemma_run_one(c, s5, Op::CopyToken);
    lemma_run_one(c, run(c, s5, b4), Op::Submit);
}

/// The row that the final norm of a prefill reads, and the vocabulary projection
/// behind it takes, is the last row that was written: it ends where the hidden
/// rows end.
pub proof fn law_last_row_projected(dec: WgpuTextDecoder, d: PrefillDims, sw: Switches, scale_bits: u32)
    requires
        d.s >= 1,
        d.s * dec.cfg.hidden_size * 2 <= u64::MAX,
    ensures
        ({
            let ops = prefill_ops(dec, d, sw, scale_bits);
            let i = ops.len() - 10;
            &&& i >= 0
            &&& ops[i] matches Op::Bind(Group::PFinalRms { offset, size })
            &&& size == dec.cfg.hidden_size * 2
            &&& offset + size == d.s * dec.cfg.hidden_size * 2
            &&& ops[i - 1] == Op::Pipeline(Kernel::RmsNorm)
            &&& ops[i + 1] is Dispatch
            &&& ops[i + 2] == Op::Pipeline(Kernel::GemvLm)
        }),
{
    let hs = dec.cfg.hidden_size as int;
    let ops = prefill_ops(dec, d, sw, scale_bits);
    let last = last_ops(dec.cfg, d);
    assert(last.len() == 11);
    let i = ops.len() - 10;
    assert(ops[i] == last[1] && ops[i - 1] == last[0] && ops[i + 1] == last[2] && ops[i + 2] == last[3]);
    assert((d.s - 1) * hs * 2 + hs * 2 == d.s * hs * 2 && (d.s - 1) * hs * 2 >= 0) by (nonlinear_arith)
        requires
            d.s >= 1,
            hs >= 0,
    ;
}

/// The sizes of a prefill: the last of `s` rows behind `kv_start` slots attends to
/// `kv_start + s` keys, rows and keys are padded to the next whole tile and no
/// further, and the slabs hold every key, the last of them at least one.
pub proof fn law_prefill_dims(s: usize, kv_start: usize, slabs: bool)
    requires
        1 <= s,
        kv_start + s + 1024 <= usize::MAX,
    ensures
        ({
            let d = dims_for(s, kv_start, slabs);
            &&& d.s == s && d.kv_start == kv_start && d.cur == kv_start + s
            &&& s <= d.mp < s + 128 && d.mp as int % 128 == 0
            &&& d.cur <= d.np < d.cur + 128 && d.np as int % 128 == 0
            &&& d.cur <= d.cur16 < d.cur + 16 && d.cur16 as int % 16 == 0 && d.cur16 == align_up(d.cur as int, 16)
            &&& d.slabbed() == slabs
            &&& slabs ==> (d.n_slab - 1) * 1024 < d.cur <= d.n_slab * 1024 && d.nkv_rows == d.n_slab * 1024
            &&& slabs ==> d.n_slab == ceil_div(d.cur as int, 1024)
            &&& !slabs ==> d.n_slab == 0 && d.nkv_rows == d.np
            &&& d.cur <= d.nkv_rows
            &&& d.score_cols() == (if slabs {
                1024
            } else {
                d.np as int
            })
            &&& d.prob_cols() == (if slabs {
                1024
            } else {
                d.cur16 as int
            })
        }),
{
    let cur = kv_start + s;
    lemma_align_bounds(s as int, 128);
    lemma_align_bounds(cur, 128);
    lemma_align_bounds(cur, 16);
    lemma_align_bounds(cur, 1024);
}

/// A command hands the extraction this first slot and this first position.
pub open spec fn stores_at(op: Op, slot: int, at: int) -> bool {
    &&& op matches Op::Write { buf, offset, data }
    &&& buf == Buf::UQkvx && offset == 0
    &&& data is Qkvx && data->start == slot && data->pos_offset == at
}

/// A command writes the extraction's settings.
pub open spec fn sets_slot(op: Op) -> bool {
    op is Write && op->Write_buf == Buf::UQkvx
}

/// The rotary position that a step hands to the extraction is the slot that it
/// writes, and both are the number of positions in the cache. So the next step
/// uses the next, and a step behind a prefill the one behind its last row; a
/// prefill begins at the first slot that is free.
pub proof fn law_positions_follow(dec: WgpuTextDecoder, d: PrefillDims, sw: Switches, scale_bits: u32, i: int)
    requires
        dec.pos + 1 <= u32::MAX,
        d.cur == d.kv_start + d.s,
        d.cur <= u32::MAX,
    ensures
        ({
            let one = step_uniforms(dec, sw, scale_bits, dec.pos);
            let next = WgpuTextDecoder { pos: (dec.pos + 1) as usize, ..dec };
            let two = step_uniforms(next, sw, scale_bits, next.pos);
            let rows = setup_ops(dec, d, scale_bits);
            let after = WgpuTextDecoder { pos: d.cur, ..dec };
            let then = step_uniforms(after, sw, scale_bits, after.pos);
            &&& exists|j: int| 0 <= j < one.len() && sets_slot(#[trigger] one[j])
            &&& exists|j: int| 0 <= j < rows.len() && sets_slot(#[trigger] rows[j])
            &&& 0 <= i < one.len() && sets_slot(one[i]) ==> stores_at(one[i], dec.pos as int, dec.pos as int)
            &&& 0 <= i < two.len() && sets_slot(two[i]) ==> stores_at(two[i], dec.pos + 1, dec.pos + 1)
            &&& 0 <= i < rows.len() && sets_slot(rows[i]) ==> stores_at(rows[i], d.kv_start as int, d.kv_start as int)
            &&& 0 <= i < then.len() && sets_slot(then[i]) ==> stores_at(then[i], d.kv_start + d.s, d.kv_start + d.s)
        }),
{
    let one = step_uniforms(dec, sw, scale_bits, dec.pos);
    assert(sets_slot(one[1]));
    let rows = setup_ops(dec, d, scale_bits);
    assert(sets_slot(rows[1]));
    let a = attention_settings(dec.cfg, d, scale_bits);
    let n = dec.cfg.num_attention_heads as nat;
    if 2 <= i < rows.len() && sets_slot(rows[i]) {
        lemma_no_slot_in_settings(dec.cfg, d, scale_bits, d.n_slab as nat);
        lemma_no_slot_in_zeros(dec.cfg, d, n);
        let z = if d.nkv_rows > d.cur {
            tail_zeros(dec.cfg, d, n)
        } else {
            Seq::empty()
        };
        if i < 2 + a.len() {
            assert(rows[i] == a[i - 2]);
        } else if i < 2 + a.len() + z.len() {
            assert(rows[i] == z[i - 2 - a.len()]);
        }
    }
}

proof fn lemma_no_slot_in_settings(cfg: TextConfig, d: PrefillDims, scale_bits: u32, n: nat)
    ensures
        forall|i: int|
            0 <= i < slab_settings(cfg, d, scale_bits, n).len() ==> !sets_slot(
                #[trigger] slab_settings(cfg, d, scale_bits, n)[i],
            ),
    decreases n,
{
    if n > 0 {
        lemma_no_slot_in_settings(cfg, d, scale_bits, (n - 1) as nat);
        let before = slab_settings(cfg, d, scale_bits, (n - 1) as nat);
        let all = slab_settings(cfg, d, scale_bits, n);
        assert forall|i: int| 0 <= i < all.len() implies !sets_slot(#[trigger] all[i]) by {
            if i < before.len() {
                assert(all[i] == before[i]);
            }
        }
    }
}

proof fn lemma_no_slot_in_zeros(cfg: TextConfig, d: PrefillDims, n: nat)
    ensures
        forall|i: int| 0 <= i < tail_zeros(cfg, d, n).len() ==> !sets_slot(#[trigger] tail_zeros(cfg, d, n)[i]),
    decreases n,
{
    if n > 0 {
        lemma_no_slot_in_zeros(cfg, d, (n - 1) as nat);
        let before = tail_zeros(cfg, d, (n - 1) as nat);
        let all = tail_zeros(cfg, d, n);
        assert forall|i: int| 0 <= i < all.len() implies !sets_slot(#[trigger] all[i]) by {
            if i < before.len() {
                assert(all[i] == before[i]);
            }
        }
    }
}

/// A step behind a prefill goes on where the prefill stopped: it embeds the token
/// that the prefill gave, its row goes to the slot, and is rotated by the
/// position, behind the prefill's last row, and it attends to every row of the
/// prefill and itself.
pub proof fn law_step_follows_prefill(
    dec: WgpuTextDecoder,
    d: PrefillDims,
    sw: Switches,
    subgroup: bool,
    scale_bits: u32,
    s: Machine,
)
    requires
        prefill_sized(many_rows(dec.cfg, sw, subgroup, dec.cap as int, d), d),
        sized(dec.cfg, sw, dec.cap as int),
        d.cur < dec.cap,
        constants_set(dec.cfg, s.set),
    ensures
        ({
            let c = many_rows(dec.cfg, sw, subgroup, dec.cap as int, d);
            let t = run(c, s, prefill_ops(dec, d, sw, scale_bits));
            let e = WgpuTextDecoder { pos: d.cur, ..dec };
            let u = run(
                one_row(dec.cfg, sw, subgroup, dec.cap as int),
                t,
                step_uniforms(e, sw, scale_bits, e.pos) + encode_step_ops(e.cfg, sw, (e.pos + 1) as usize) + seq![
                    Op::Submit,
                ],
            );
            let n = dec.cfg.num_hidden_layers as nat;
            let x = Val::Lookup { table: Box::new(got(s.mem, Buf::EmbedTable)), token: Box::new(t.out) };
            &&& u.out == following(
                dec.cfg,
                s.mem,
                hidden(dec.cfg, t.mem, x, n, dec.cap as int, d.kv_start + d.s, scale_bits),
            )
            &&& forall|l: usize|
                #![trigger got(u.mem, Buf::KCache(l))]
                l < n ==> {
                    let k = got(u.mem, Buf::KCache(l));
                    let v = got(u.mem, Buf::VCache(l));
                    &&& k is Keys && k->Keys_slot == d.kv_start + d.s && k->Keys_at == d.kv_start + d.s
                    &&& v is Values && v->Values_slot == d.kv_start + d.s
                    &&& *k->Keys_was is Keys && (*k->Keys_was)->Keys_slot == d.kv_start && (*k->Keys_was)->Keys_at
                        == d.kv_start && (*k->Keys_was)->Keys_rows == d.s
                    &&& *v->Values_was is Values && (*v->Values_was)->Values_slot == d.kv_start
                        && (*v->Values_was)->Values_rows == d.s
                }
        }),
{
    let c = many_rows(dec.cfg, sw, subgroup, dec.cap as int, d);
    let o = one_row(dec.cfg, sw, subgroup, dec.cap as int);
    let t = run(c, s, prefill_ops(dec, d, sw, scale_bits));
    let e = WgpuTextDecoder { pos: d.cur, ..dec };
    let u = run(
        o,
        t,
        step_uniforms(e, sw, scale_bits, e.pos) + encode_step_ops(e.cfg, sw, (e.pos + 1) as usize) + seq![Op::Submit],
    );
    law_prefill_computes(dec, d, sw, subgroup, scale_bits, s);
    law_step_computes(e, sw, subgroup, scale_bits, t);
    let n = dec.cfg.num_hidden_layers as nat;
    assert forall|l: usize| l < n implies {
        let k = #[trigger] got(u.mem, Buf::KCache(l));
        let v = got(u.mem, Buf::VCache(l));
        &&& k is Keys && k->Keys_slot == d.kv_start + d.s && k->Keys_at == d.kv_start + d.s
        &&& v is Values && v->Values_slot == d.kv_start + d.s
        &&& *k->Keys_was is Keys && (*k->Keys_was)->Keys_slot == d.kv_start && (*k->Keys_was)->Keys_at == d.kv_start
            && (*k->Keys_was)->Keys_rows == d.s
        &&& *v->Values_was is Values && (*v->Values_was)->Values_slot == d.kv_start && (*v->Values_was)->Values_rows
            == d.s
    } by {
        assert(got(t.mem, Buf::KCache(l)) is Keys);
        assert(got(t.mem, Buf::VCache(l)) is Values);
        assert(got(u.mem, Buf::VCache(l)) is Values);
    }
}

} // verus!
