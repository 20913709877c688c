//! The model that the decoder runs, as a term: what a decode step computes of the
//! token, the weights and the caches.
use vstd::prelude::*;

use crate::decoder::{Switches, TextConfig, WgpuTextDecoder, GQA_SINGLE_CAP};
use crate::decoder_load::constant_uniforms;
use crate::decoder_ops::{whole, Buf, Group, Kernel, Op, Uniform};
use crate::decoder_step::{
    chunks_of, debug_layer_ops, debug_layers_ops, dispatch_chunk, encode_step_ops, gemv_grid, gqa_ops, is_paired,
    lemma_names, norm_grid, plain, run_ops, silu_groups, single_op, site_ops, split_kernel, step_fits, step_layer_ops,
    step_layers_ops, step_uniforms, tail_ops,
};
use crate::geometry::{ceil_div, grid_x, grid_y, law_grid_covers, lemma_align_bounds};
use crate::machine::{
    effect, exec, got, kept_but, lemma_run_none, lemma_run_one, lemma_run_sum, matrix_cols, matrix_rows, run, Ctx, Machine, Val,
};
use crate::pipelines::shader_of;

verus! {

/// The projection of the normalised hidden rows `x` to queries, keys and values.
pub open spec fn projected(cfg: TextConfig, m: Map<Buf, Val>, l: usize, x: Val) -> Val {
    Val::Times {
        x: Box::new(
            Val::Norm { x: Box::new(x), w: Box::new(got(m, Buf::IlnW(l))), eps_bits: cfg.rms_norm_eps_bits },
        ),
        w: Box::new(got(m, Buf::QkvW(l))),
    }
}

/// The queries of layer `l`, the first row at position `first`.
pub open spec fn queries(cfg: TextConfig, m: Map<Buf, Val>, l: usize, x: Val, first: int) -> Val {
    Val::Queries {
        qkv: Box::new(projected(cfg, m, l, x)),
        w: Box::new(got(m, Buf::QnW(l))),
        cos: Box::new(got(m, Buf::Cos)),
        sin: Box::new(got(m, Buf::Sin)),
        at: first,
        eps_bits: cfg.rms_norm_eps_bits,
    }
}

/// The key cache of layer `l` with the new keys: the row at position `first` is
/// in slot `first`, and was rotated by its position.
pub open spec fn keys(cfg: TextConfig, m: Map<Buf, Val>, l: usize, x: Val, slots: int, first: int, rows: int) -> Val {
    Val::Keys {
        was: Box::new(got(m, Buf::KCache(l))),
        qkv: Box::new(projected(cfg, m, l, x)),
        w: Box::new(got(m, Buf::KnW(l))),
        cos: Box::new(got(m, Buf::Cos)),
        sin: Box::new(got(m, Buf::Sin)),
        slots,
        slot: first,
        at: first,
        rows,
        eps_bits: cfg.rms_norm_eps_bits,
    }
}

/// The value cache of layer `l` with the new values.
pub open spec fn values(cfg: TextConfig, m: Map<Buf, Val>, l: usize, x: Val, slots: int, first: int, rows: int) -> Val {
    Val::Values {
        was: Box::new(got(m, Buf::VCache(l))),
        qkv: Box::new(projected(cfg, m, l, x)),
        slots,
        slot: first,
        rows,
    }
}

/// The hidden rows `x` after attention gave `a`.
pub open spec fn mixed_in(m: Map<Buf, Val>, l: usize, x: Val, a: Val) -> Val {
    Val::Plus {
        x: Box::new(x),
        y: Box::new(Val::Times { x: Box::new(a), w: Box::new(got(m, Buf::OW(l))) }),
    }
}

/// The hidden rows `y` after the feed-forward part of layer `l`.
pub open spec fn fed_forward(cfg: TextConfig, m: Map<Buf, Val>, l: usize, y: Val) -> Val {
    Val::Plus {
        x: Box::new(y),
        y: Box::new(
            Val::Times {
                x: Box::new(
                    Val::Gated {
                        x: Box::new(
                            Val::Times {
                                x: Box::new(
                                    Val::Norm {
                                        x: Box::new(y),
                                        w: Box::new(got(m, Buf::PlnW(l))),
                                        eps_bits: cfg.rms_norm_eps_bits,
                                    },
                                ),
                                w: Box::new(got(m, Buf::GuW(l))),
                            },
                        ),
                    },
                ),
                w: Box::new(got(m, Buf::DpW(l))),
            },
        ),
    }
}

/// The attention of layer `l` for the one row at position `pos`: over itself and
/// all positions before it.
pub open spec fn attended(cfg: TextConfig, m: Map<Buf, Val>, l: usize, x: Val, slots: int, pos: int, scale_bits: u32) -> Val {
    Val::Attend {
        q: Box::new(queries(cfg, m, l, x, pos)),
        k: Box::new(keys(cfg, m, l, x, slots, pos, 1)),
        v: Box::new(values(cfg, m, l, x, slots, pos, 1)),
        rows: 1,
        keys: pos + 1,
        scale_bits,
    }
}

/// The hidden row after the first `n` layers of a step at position `pos`, from
/// `x` on.
pub open spec fn hidden(cfg: TextConfig, m: Map<Buf, Val>, x: Val, n: nat, slots: int, pos: int, scale_bits: u32) -> Val
    decreases n,
{
    if n == 0 {
        x
    } else {
        let l = (n - 1) as usize;
        let x = hidden(cfg, m, x, (n - 1) as nat, slots, pos, scale_bits);
        fed_forward(cfg, m, l, mixed_in(m, l, x, attended(cfg, m, l, x, slots, pos, scale_bits)))
    }
}

/// The embedding of the token.
pub open spec fn embedded(m: Map<Buf, Val>) -> Val {
    Val::Lookup { table: Box::new(got(m, Buf::EmbedTable)), token: Box::new(got(m, Buf::Token)) }
}

/// The token that follows a hidden row.
pub open spec fn following(cfg: TextConfig, m: Map<Buf, Val>, x: Val) -> Val {
    Val::Best {
        x: Box::new(
            Val::Times {
                x: Box::new(
                    Val::Norm { x: Box::new(x), w: Box::new(got(m, Buf::FinalNormW)), eps_bits: cfg.rms_norm_eps_bits },
                ),
                w: Box::new(got(m, Buf::EmbedTable)),
            },
        ),
    }
}

/// The model's sizes are in the kernels' whole steps and fit a word.
pub open spec fn sized(cfg: TextConfig, sw: Switches, slots: int) -> bool {
    &&& step_fits(cfg, sw)
    &&& 0 < cfg.num_key_value_heads
    &&& cfg.num_attention_heads + cfg.num_key_value_heads <= u32::MAX
    &&& 0 < cfg.hidden_size <= u32::MAX
    &&& cfg.hidden_size as int % 2 == 0
    &&& cfg.hidden_size as int % sw.gemv_rpw as int == 0
    &&& cfg.qkv_width() <= u32::MAX
    &&& cfg.qkv_width() % 8 == 0
    &&& cfg.qkv_width() % sw.gemv_rpw as int == 0
    &&& 2 * cfg.intermediate_size <= u32::MAX
    &&& 2 * cfg.intermediate_size % 8 == 0
    &&& 2 * cfg.intermediate_size % sw.gemv_rpw as int == 0
    &&& cfg.vocab_size <= u32::MAX
    &&& cfg.vocab_size as int % 8 == 0
    &&& slots <= u32::MAX
}

/// What a run of one row is about.
pub open spec fn one_row(cfg: TextConfig, sw: Switches, subgroup: bool, slots: int) -> Ctx {
    Ctx { cfg, sw, subgroup, rows: 1, slots, padded: 1, key_rows: 0, score_cols: 0, prob_cols: 0 }
}

/// The uniforms that never change hold what the model says.
pub open spec fn constants_set(cfg: TextConfig, set: Map<(Buf, u64), Uniform>) -> bool {
    &&& set.contains_key((Buf::URms, 0)) && set[(Buf::URms, 0)] == (Uniform::Rms { eps_bits: cfg.rms_norm_eps_bits })
    &&& set.contains_key((Buf::UArgmax, 0)) && set[(Buf::UArgmax, 0)] == (Uniform::Argmax {
        n: cfg.vocab_size as u32,
        slot: 0,
    })
    &&& set.contains_key((Buf::UEmbed, 0)) && set[(Buf::UEmbed, 0)] is Embed && set[(Buf::UEmbed, 0)]->Embed_slot == 0
        && set[(Buf::UEmbed, 0)]->d2 * 2 == cfg.hidden_size
}

/// The uniforms of a step at position `pos` are set: the new row goes to slot
/// `pos`, is rotated by `pos` and attends to `pos + 1` keys, in `chunks` pieces
/// where attention is split.
pub open spec fn step_set(
    c: Ctx,
    set: Map<(Buf, u64), Uniform>,
    pos: int,
    scale_bits: u32,
    chunks: u32,
) -> bool {
    &&& constants_set(c.cfg, set)
    &&& set.contains_key((Buf::USilu, 0)) && set[(Buf::USilu, 0)] == (Uniform::Silu {
        inter2: (c.cfg.intermediate_size / 2) as u32,
        total2: (c.cfg.intermediate_size / 2) as u32,
        gx: grid_x(silu_groups(c.cfg)) as u32,
    })
    &&& set.contains_key((Buf::UQkvx, 0)) && set[(Buf::UQkvx, 0)] == (Uniform::Qkvx {
        max_seq: c.slots as u32,
        start: pos as u32,
        pos_offset: pos as u32,
        s: 1,
        eps_bits: c.cfg.rms_norm_eps_bits,
    })
    &&& set.contains_key((Buf::UGqa, 0)) && set[(Buf::UGqa, 0)] == (Uniform::Gqa {
        cur_len: (pos + 1) as u32,
        max_seq: c.slots as u32,
        scale_bits,
    })
    &&& set.contains_key((Buf::UGp1, 0)) && set[(Buf::UGp1, 0)] == (Uniform::Split {
        cur_len: (pos + 1) as u32,
        max_seq: c.slots as u32,
        scale_bits,
        n_chunks: chunks,
    })
    &&& set.contains_key((Buf::UGp2, 0)) && set[(Buf::UGp2, 0)] == (Uniform::Merge { n_chunks: chunks })
}

/// A layer writes this buffer.
pub open spec fn step_writes(b: Buf, l: usize) -> bool {
    b == Buf::H || b == Buf::Norm1 || b == Buf::Norm2 || b == Buf::Qkv || b == Buf::QOut || b == Buf::AttnOut || b
        == Buf::GateUp || b == Buf::Activated || b == Buf::SplitPartOut || b == Buf::SplitPartMax || b
        == Buf::SplitPartSum || b == Buf::KCache(l) || b == Buf::VCache(l)
}

/// The machine after a kernel was set, bound and dispatched.
pub open spec fn fired(c: Ctx, s: Machine, k: Kernel, g: Group, x: u32, y: u32, z: u32) -> Machine {
    let t = Machine { kernel: Some(k), group: Some(g), at: 0, ..s };
    Machine {
        mem: effect(c, t, shader_of(c.cfg, c.sw, c.subgroup, k), g.bindings_spec(), x as int, y as int, z as int),
        ..t
    }
}

pub proof fn lemma_fired(c: Ctx, s: Machine, k: Kernel, g: Group, x: u32, y: u32, z: u32)
    ensures
        run(c, s, run_ops(k, g, x, y, z)) == fired(c, s, k, g, x, y, z),
{
    let a = Op::Pipeline(k);
    let b = Op::Bind(g);
    let d = Op::Dispatch { x, y, z };
    assert(run_ops(k, g, x, y, z) =~= seq![a] + seq![b] + seq![d]);
    lemma_run_sum(c, s, seq![a] + seq![b], seq![d]);
    lemma_run_sum(c, s, seq![a], seq![b]);
    lemma_run_one(c, s, a);
    lemma_run_one(c, exec(c, s, a), b);
    lemma_run_one(c, exec(c, exec(c, s, a), b), d);
}

/// A matrix times a normalised vector.
proof fn lemma_gemv_norm(c: Ctx, s: Machine, k: Kernel, g: Group, w: Buf, norm: Buf, out: Buf, rows: int)
    requires
        c.rows == 1,
        rows == matrix_rows(c.cfg, w),
        0 <= rows <= u32::MAX,
        rows % 8 == 0,
        c.cfg.hidden_size == matrix_cols(c.cfg, w),
        k == Kernel::GemvQkvNorm || k == Kernel::GemvGuNorm || k == Kernel::GemvLmNorm,
        k == Kernel::GemvQkvNorm ==> rows == c.cfg.qkv_width() && c.cfg.widths_fit(),
        k == Kernel::GemvGuNorm ==> rows == 2 * c.cfg.intermediate_size && c.cfg.widths_fit(),
        k == Kernel::GemvLmNorm ==> rows == c.cfg.vocab_size,
        g.bindings_spec() =~= seq![whole(0, w), whole(1, Buf::H), whole(2, out), whole(3, norm)],
    ensures
        ({
            let t = run(c, s, run_ops(k, g, norm_grid(rows), 1, 1));
            &&& kept_but(s, t, |b: Buf| b == out)
            &&& got(t.mem, out) == (Val::Times {
                x: Box::new(
                    Val::Norm {
                        x: Box::new(got(s.mem, Buf::H)),
                        w: Box::new(got(s.mem, norm)),
                        eps_bits: c.cfg.rms_norm_eps_bits,
                    },
                ),
                w: Box::new(got(s.mem, w)),
            })
        }),
{
    lemma_fired(c, s, k, g, norm_grid(rows), 1, 1);
    assert(rows / 8 * 8 == rows);
}

/// A matrix times a vector, without a norm.
proof fn lemma_gemv(c: Ctx, s: Machine, k: Kernel, g: Group, w: Buf, from: Buf, out: Buf, rows: int, acc: bool)
    requires
        c.rows == 1,
        c.sw.wf(),
        rows == matrix_rows(c.cfg, w),
        0 <= rows <= u32::MAX,
        rows % c.sw.gemv_rpw as int == 0,
        c.cfg.widths_fit(),
        k == Kernel::GemvO && w is OW && rows == c.cfg.hidden_size && acc || k == Kernel::GemvDp && w is DpW && rows
            == c.cfg.hidden_size && acc || k == Kernel::GemvQkv && w is QkvW && rows == c.cfg.qkv_width() && !acc || k
            == Kernel::GemvGu && w is GuW && rows == 2 * c.cfg.intermediate_size && !acc,
        g.bindings_spec() =~= seq![whole(0, w), whole(1, from), whole(2, out)],
    ensures
        ({
            let p = Val::Times { x: Box::new(got(s.mem, from)), w: Box::new(got(s.mem, w)) };
            let t = run(c, s, run_ops(k, g, gemv_grid(rows, c.sw.gemv_rpw), 1, 1));
            &&& kept_but(s, t, |b: Buf| b == out)
            &&& got(t.mem, out) == if acc {
                Val::Plus { x: Box::new(got(s.mem, out)), y: Box::new(p) }
            } else {
                p
            }
        }),
{
    lemma_fired(c, s, k, g, gemv_grid(rows, c.sw.gemv_rpw), 1, 1);
    let rpw = c.sw.gemv_rpw as int;
    assert(rows / rpw * rpw == rows && 0 <= rows / rpw <= rows) by (nonlinear_arith)
        requires
            rows % rpw == 0,
            rpw > 0,
            rows >= 0,
    ;
}

/// The norm of the hidden row.
proof fn lemma_rms(c: Ctx, s: Machine, g: Group, norm: Buf, out: Buf)
    requires
        c.rows == 1,
        constants_set(c.cfg, s.set),
        g.bindings_spec() =~= seq![whole(0, Buf::H), whole(1, norm), whole(2, out), whole(3, Buf::URms)],
    ensures
        ({
            let t = run(c, s, run_ops(Kernel::RmsNorm, g, 1, 1, 1));
            &&& kept_but(s, t, |b: Buf| b == out)
            &&& got(t.mem, out) == (Val::Norm {
                x: Box::new(got(s.mem, Buf::H)),
                w: Box::new(got(s.mem, norm)),
                eps_bits: c.cfg.rms_norm_eps_bits,
            })
        }),
{
    lemma_fired(c, s, Kernel::RmsNorm, g, 1, 1, 1);
}

proof fn lemma_chunk_kernel(c: Ctx, pos: int)
    requires
        c.sw.wf(),
        0 <= pos < usize::MAX,
    ensures
        ({
            let chunk = dispatch_chunk(c.cfg, c.sw, pos + 1);
            &&& chunk == 128 || chunk == 256 || chunk == 512
            &&& is_paired(c.cfg, c.sw.gqa_pair) ==> chunk != 128
        }),
{
}

/// Attention of one row: in one piece or split, what comes out is the same term.
proof fn lemma_gqa(c: Ctx, s: Machine, l: usize, pos: int, scale_bits: u32)
    requires
        c.rows == 1,
        c.sw.wf(),
        plain(c.sw),
        0 <= pos,
        pos + 1 <= u32::MAX,
        pos + 1 <= usize::MAX,
        0 <= c.slots <= u32::MAX,
        c.cfg.num_attention_heads + c.cfg.num_key_value_heads <= u32::MAX,
        step_set(
            c,
            s.set,
            pos,
            scale_bits,
            chunks_of((pos + 1) as usize, dispatch_chunk(c.cfg, c.sw, pos + 1)) as u32,
        ),
    ensures
        ({
            let t = run(c, s, gqa_ops(c.cfg, c.sw, l, (pos + 1) as usize));
            &&& got(t.mem, Buf::AttnOut) == (Val::Attend {
                q: Box::new(got(s.mem, Buf::QOut)),
                k: Box::new(got(s.mem, Buf::KCache(l))),
                v: Box::new(got(s.mem, Buf::VCache(l))),
                rows: 1,
                keys: pos + 1,
                scale_bits,
            })
            &&& t.set == s.set
            &&& t.out == s.out
            &&& forall|b: Buf|
                b != Buf::AttnOut && b != Buf::SplitPartOut && b != Buf::SplitPartMax && b != Buf::SplitPartSum
                    ==> #[trigger] got(t.mem, b) == got(s.mem, b)
        }),
{
    let cfg = c.cfg;
    let cur_len = (pos + 1) as usize;
    let nqh = cfg.num_attention_heads as u32;
    let ops = gqa_ops(cfg, c.sw, l, cur_len);
    lemma_names();
    if cur_len <= GQA_SINGLE_CAP {
        let k = if cur_len > 512 {
            Kernel::Gqa512
        } else {
            Kernel::Gqa256
        };
        lemma_fired(c, s, k, Group::Gqa(l), nqh, 1, 1);
    } else {
        let paired = is_paired(cfg, c.sw.gqa_pair);
        let chunk = dispatch_chunk(cfg, c.sw, cur_len as int);
        lemma_chunk_kernel(c, pos);
        let split = split_kernel(paired, chunk);
        let x = (if paired {
            cfg.num_key_value_heads
        } else {
            cfg.num_attention_heads
        }) as u32;
        let n = chunks_of(cur_len, chunk);
        lemma_align_bounds(cur_len as int, chunk);
        let y = n as u32;
        assert(n == ceil_div(cur_len as int, chunk));
        assert((n - 1) * chunk < cur_len <= n * chunk) by (nonlinear_arith)
            requires
                cur_len <= n * chunk < cur_len + chunk,
        ;
        let a = run_ops(split, Group::GqaSplit(l), x, y, 1);
        let b = run_ops(Kernel::GqaMerge, Group::GqaMerge, nqh, 1, 1);
        assert(ops =~= a + b);
        lemma_run_sum(c, s, a, b);
        lemma_fired(c, s, split, Group::GqaSplit(l), x, y, 1);
        let t1 = fired(c, s, split, Group::GqaSplit(l), x, y, 1);
        lemma_fired(c, t1, Kernel::GqaMerge, Group::GqaMerge, nqh, 1, 1);
    }
}

/// The state of a step's run before a layer: the uniforms are set.
pub open spec fn step_ready(c: Ctx, s: Machine, pos: int, scale_bits: u32) -> bool {
    &&& c.rows == 1
    &&& c.padded == 1
    &&& plain(c.sw)
    &&& sized(c.cfg, c.sw, c.slots)
    &&& 0 <= pos < c.slots
    &&& pos + 1 <= usize::MAX
    &&& step_set(
        c,
        s.set,
        pos,
        scale_bits,
        chunks_of((pos + 1) as usize, dispatch_chunk(c.cfg, c.sw, pos + 1)) as u32,
    )
}

/// What a layer leaves, by what it found.
pub open spec fn layer_done(c: Ctx, s: Machine, t: Machine, l: usize, pos: int, scale_bits: u32) -> bool {
    let x = got(s.mem, Buf::H);
    &&& got(t.mem, Buf::H) == fed_forward(
        c.cfg,
        s.mem,
        l,
        mixed_in(s.mem, l, x, attended(c.cfg, s.mem, l, x, c.slots, pos, scale_bits)),
    )
    &&& got(t.mem, Buf::KCache(l)) == keys(c.cfg, s.mem, l, x, c.slots, pos, 1)
    &&& got(t.mem, Buf::VCache(l)) == values(c.cfg, s.mem, l, x, c.slots, pos, 1)
    &&& t.set == s.set
    &&& t.out == s.out
    &&& forall|b: Buf| !step_writes(b, l) ==> #[trigger] got(t.mem, b) == got(s.mem, b)
}

proof fn lemma_silu_reach(c: Ctx)
    requires
        2 * c.cfg.intermediate_size <= u32::MAX,
        2 * c.cfg.intermediate_size % 8 == 0,
    ensures
        ({
            let g = silu_groups(c.cfg);
            &&& 0 <= g <= u32::MAX
            &&& grid_x(g) as u32 == grid_x(g)
            &&& grid_y(g) as u32 == grid_y(g)
            &&& g as u32 * 1 * 256 >= c.cfg.intermediate_size / 2
            &&& grid_x(g) * grid_y(g) * 256 >= c.cfg.intermediate_size / 2
        }),
{
    let h = c.cfg.intermediate_size as int / 2;
    let g = silu_groups(c.cfg);
    lemma_align_bounds(h, 256);
    law_grid_covers(g);
}

/// The heads of the new row.
proof fn lemma_extract(c: Ctx, s: Machine, l: usize, pos: int, scale_bits: u32, x: Val, m: Map<Buf, Val>)
    requires
        step_ready(c, s, pos, scale_bits),
        got(s.mem, Buf::Qkv) == projected(c.cfg, m, l, x),
        forall|b: Buf| !step_writes(b, l) ==> #[trigger] got(s.mem, b) == got(m, b),
        got(s.mem, Buf::KCache(l)) == got(m, Buf::KCache(l)),
        got(s.mem, Buf::VCache(l)) == got(m, Buf::VCache(l)),
    ensures
        ({
            let heads = (c.cfg.num_attention_heads + c.cfg.num_key_value_heads) as u32;
            let t = run(c, s, run_ops(Kernel::Extract, Group::Extract(l), 1, heads, 1));
            &&& kept_but(s, t, |b: Buf| b == Buf::QOut || b == Buf::KCache(l) || b == Buf::VCache(l))
            &&& got(t.mem, Buf::QOut) == queries(c.cfg, m, l, x, pos)
            &&& got(t.mem, Buf::KCache(l)) == keys(c.cfg, m, l, x, c.slots, pos, 1)
            &&& got(t.mem, Buf::VCache(l)) == values(c.cfg, m, l, x, c.slots, pos, 1)
        }),
{
    let heads = (c.cfg.num_attention_heads + c.cfg.num_key_value_heads) as u32;
    lemma_fired(c, s, Kernel::Extract, Group::Extract(l), 1, heads, 1);
}

/// The activation of one row.
proof fn lemma_silu(c: Ctx, s: Machine, pos: int, scale_bits: u32, gx: u32, gy: u32)
    requires
        step_ready(c, s, pos, scale_bits),
        gx == grid_x(silu_groups(c.cfg)) && gy == grid_y(silu_groups(c.cfg)) || gx == silu_groups(c.cfg) as u32 && gy
            == 1,
    ensures
        ({
            let t = run(c, s, run_ops(Kernel::Silu, Group::Silu, gx, gy, 1));
            &&& kept_but(s, t, |b: Buf| b == Buf::Activated)
            &&& got(t.mem, Buf::Activated) == (Val::Gated { x: Box::new(got(s.mem, Buf::GateUp)) })
        }),
{
    lemma_silu_reach(c);
    lemma_fired(c, s, Kernel::Silu, Group::Silu, gx, gy, 1);
}

/// The attention half of a layer from its projection on.
proof fn lemma_attention_half(c: Ctx, s: Machine, l: usize, pos: int, scale_bits: u32, x: Val, m: Map<Buf, Val>)
    requires
        step_ready(c, s, pos, scale_bits),
        got(s.mem, Buf::H) == x,
        got(s.mem, Buf::Qkv) == projected(c.cfg, m, l, x),
        forall|b: Buf| !step_writes(b, l) ==> #[trigger] got(s.mem, b) == got(m, b),
        got(s.mem, Buf::KCache(l)) == got(m, Buf::KCache(l)),
        got(s.mem, Buf::VCache(l)) == got(m, Buf::VCache(l)),
    ensures
        ({
            let heads = (c.cfg.num_attention_heads + c.cfg.num_key_value_heads) as u32;
            let hid = gemv_grid(c.cfg.hidden_size as int, c.sw.gemv_rpw);
            let t1 = run(c, s, run_ops(Kernel::Extract, Group::Extract(l), 1, heads, 1));
            let t2 = run(c, t1, gqa_ops(c.cfg, c.sw, l, (pos + 1) as usize));
            let t = run(c, t2, run_ops(Kernel::GemvO, Group::GemvO(l), hid, 1, 1));
            &&& got(t.mem, Buf::H) == mixed_in(m, l, x, attended(c.cfg, m, l, x, c.slots, pos, scale_bits))
            &&& got(t.mem, Buf::KCache(l)) == keys(c.cfg, m, l, x, c.slots, pos, 1)
            &&& got(t.mem, Buf::VCache(l)) == values(c.cfg, m, l, x, c.slots, pos, 1)
            &&& t.set == s.set
            &&& t.out == s.out
            &&& forall|b: Buf| !step_writes(b, l) ==> #[trigger] got(t.mem, b) == got(m, b)
        }),
{
    let cfg = c.cfg;
    let heads = (cfg.num_attention_heads + cfg.num_key_value_heads) as u32;
    let hid = gemv_grid(cfg.hidden_size as int, c.sw.gemv_rpw);
    lemma_extract(c, s, l, pos, scale_bits, x, m);
    let t1 = run(c, s, run_ops(Kernel::Extract, Group::Extract(l), 1, heads, 1));
    assert(got(t1.mem, Buf::QOut) == queries(cfg, m, l, x, pos));
    assert(got(t1.mem, Buf::KCache(l)) == keys(cfg, m, l, x, c.slots, pos, 1));
    assert(got(t1.mem, Buf::VCache(l)) == values(cfg, m, l, x, c.slots, pos, 1));
    lemma_gqa(c, t1, l, pos, scale_bits);
    let t2 = run(c, t1, gqa_ops(cfg, c.sw, l, (pos + 1) as usize));
    assert(got(t2.mem, Buf::AttnOut) == attended(cfg, m, l, x, c.slots, pos, scale_bits));
    lemma_gemv(c, t2, Kernel::GemvO, Group::GemvO(l), Buf::OW(l), Buf::AttnOut, Buf::H, cfg.hidden_size as int, true);
}

/// The feed-forward half of a layer from its projection on.
proof fn lemma_feed_half(
    c: Ctx,
    s: Machine,
    l: usize,
    pos: int,
    scale_bits: u32,
    y: Val,
    m: Map<Buf, Val>,
    gx: u32,
    gy: u32,
)
    requires
        step_ready(c, s, pos, scale_bits),
        gx == grid_x(silu_groups(c.cfg)) && gy == grid_y(silu_groups(c.cfg)) || gx == silu_groups(c.cfg) as u32 && gy
            == 1,
        got(s.mem, Buf::H) == y,
        got(s.mem, Buf::GateUp) == (Val::Times {
            x: Box::new(
                Val::Norm {
                    x: Box::new(y),
                    w: Box::new(got(m, Buf::PlnW(l))),
                    eps_bits: c.cfg.rms_norm_eps_bits,
                },
            ),
            w: Box::new(got(m, Buf::GuW(l))),
        }),
        got(s.mem, Buf::DpW(l)) == got(m, Buf::DpW(l)),
    ensures
        ({
            let hid = gemv_grid(c.cfg.hidden_size as int, c.sw.gemv_rpw);
            let t1 = run(c, s, run_ops(Kernel::Silu, Group::Silu, gx, gy, 1));
            let t = run(c, t1, run_ops(Kernel::GemvDp, Group::GemvDp(l), hid, 1, 1));
            &&& got(t.mem, Buf::H) == fed_forward(c.cfg, m, l, y)
            &&& t.set == s.set
            &&& t.out == s.out
            &&& forall|b: Buf| b != Buf::H && b != Buf::Activated ==> #[trigger] got(t.mem, b) == got(s.mem, b)
        }),
{
    let cfg = c.cfg;
    let hid = gemv_grid(cfg.hidden_size as int, c.sw.gemv_rpw);
    lemma_silu_reach(c);
    lemma_silu(c, s, pos, scale_bits, gx, gy);
    let t1 = run(c, s, run_ops(Kernel::Silu, Group::Silu, gx, gy, 1));
    lemma_gemv(c, t1, Kernel::GemvDp, Group::GemvDp(l), Buf::DpW(l), Buf::Activated, Buf::H, cfg.hidden_size as int, true);
}

proof fn lemma_site(sw: Switches, name: Seq<char>, k: Kernel, g: Group, x: u32, y: u32)
    requires
        plain(sw),
        name.len() > 0,
    ensures
        site_ops(sw.skip@, sw.dup@, name, k, g, x, y) == run_ops(k, g, x, y, 1),
{
    assert(site_ops(sw.skip@, sw.dup@, name, k, g, x, y) =~= run_ops(k, g, x, y, 1));
}

/// One layer of the fused step.
proof fn lemma_step_layer(c: Ctx, s: Machine, l: usize, pos: int, scale_bits: u32)
    requires
        step_ready(c, s, pos, scale_bits),
    ensures
        layer_done(c, s, run(c, s, step_layer_ops(c.cfg, c.sw, l, (pos + 1) as usize)), l, pos, scale_bits),
{
    let cfg = c.cfg;
    let sw = c.sw;
    let x = got(s.mem, Buf::H);
    let cur_len = (pos + 1) as usize;
    let heads = (cfg.num_attention_heads + cfg.num_key_value_heads) as u32;
    let hid = gemv_grid(cfg.hidden_size as int, sw.gemv_rpw);
    let sg = silu_groups(cfg);
    let inter2 = 2 * cfg.intermediate_size;
    lemma_names();
    lemma_silu_reach(c);
    let a1 = run_ops(Kernel::GemvQkvNorm, Group::GemvQkvNorm(l), norm_grid(cfg.qkv_width()), 1, 1);
    let a2 = run_ops(Kernel::Extract, Group::Extract(l), 1, heads, 1);
    let a3 = gqa_ops(cfg, sw, l, cur_len);
    let a4 = run_ops(Kernel::GemvO, Group::GemvO(l), hid, 1, 1);
    let a5 = run_ops(Kernel::GemvGuNorm, Group::GemvGuNorm(l), norm_grid(inter2), 1, 1);
    let a6 = run_ops(Kernel::Silu, Group::Silu, grid_x(sg) as u32, grid_y(sg) as u32, 1);
    let a7 = run_ops(Kernel::GemvDp, Group::GemvDp(l), hid, 1, 1);
    lemma_site(sw, "qkv"@, Kernel::GemvQkvNorm, Group::GemvQkvNorm(l), norm_grid(cfg.qkv_width()), 1);
    lemma_site(sw, "extract"@, Kernel::Extract, Group::Extract(l), 1, heads);
    lemma_site(sw, "o"@, Kernel::GemvO, Group::GemvO(l), hid, 1);
    lemma_site(sw, "gu"@, Kernel::GemvGuNorm, Group::GemvGuNorm(l), norm_grid(inter2), 1);
    lemma_site(sw, "silu"@, Kernel::Silu, Group::Silu, grid_x(sg) as u32, grid_y(sg) as u32);
    lemma_site(sw, "dp"@, Kernel::GemvDp, Group::GemvDp(l), hid, 1);
    let all = a1 + a2 + a3 + a4 + a5 + a6 + a7;
    assert(step_layer_ops(cfg, sw, l, cur_len) =~= all);
    lemma_run_sum(c, s, a1 + a2 + a3 + a4 + a5 + a6, a7);
    lemma_run_sum(c, s, a1 + a2 + a3 + a4 + a5, a6);
    lemma_run_sum(c, s, a1 + a2 + a3 + a4, a5);
    lemma_run_sum(c, s, a1 + a2 + a3, a4);
    lemma_run_sum(c, s, a1 + a2, a3);
    lemma_run_sum(c, s, a1, a2);
    lemma_gemv_norm(
        c,
        s,
        Kernel::GemvQkvNorm,
        Group::GemvQkvNorm(l),
        Buf::QkvW(l),
        Buf::IlnW(l),
        Buf::Qkv,
        cfg.qkv_width(),
    );
    let t1 = run(c, s, a1);
    assert(got(t1.mem, Buf::Qkv) == projected(cfg, s.mem, l, x));
    lemma_attention_half(c, t1, l, pos, scale_bits, x, s.mem);
    let t4 = run(c, run(c, run(c, t1, a2), a3), a4);
    let y = got(t4.mem, Buf::H);
    lemma_gemv_norm(
        c,
        t4,
        Kernel::GemvGuNorm,
        Group::GemvGuNorm(l),
        Buf::GuW(l),
        Buf::PlnW(l),
        Buf::GateUp,
        inter2,
    );
    let t5 = run(c, t4, a5);
    lemma_feed_half(c, t5, l, pos, scale_bits, y, s.mem, grid_x(sg) as u32, grid_y(sg) as u32);
}

/// One layer of the step, op by op.
proof fn lemma_debug_layer(c: Ctx, s: Machine, l: usize, pos: int, scale_bits: u32)
    requires
        step_ready(c, s, pos, scale_bits),
    ensures
        layer_done(c, s, run(c, s, debug_layer_ops(c.cfg, c.sw, l, (pos + 1) as usize)), l, pos, scale_bits),
{
    let cfg = c.cfg;
    let sw = c.sw;
    let x = got(s.mem, Buf::H);
    let n = (pos + 1) as usize;
    let sg = silu_groups(cfg);
    let (gx, gy) = (grid_x(sg) as u32, grid_y(sg) as u32);
    lemma_silu_reach(c);
    let a0 = single_op(cfg, sw, l, n, 0);
    let a1 = single_op(cfg, sw, l, n, 1);
    let a2 = single_op(cfg, sw, l, n, 2);
    let a3 = single_op(cfg, sw, l, n, 3);
    let a4 = single_op(cfg, sw, l, n, 4);
    let a5 = single_op(cfg, sw, l, n, 5);
    let a6 = single_op(cfg, sw, l, n, 6);
    let a7 = run_ops(Kernel::Silu, Group::Silu, gx, gy, 1);
    let a8 = single_op(cfg, sw, l, n, 8);
    lemma_run_sum(c, s, a0 + a1 + a2 + a3 + a4 + a5 + a6 + a7, a8);
    lemma_run_sum(c, s, a0 + a1 + a2 + a3 + a4 + a5 + a6, a7);
    lemma_run_sum(c, s, a0 + a1 + a2 + a3 + a4 + a5, a6);
    lemma_run_sum(c, s, a0 + a1 + a2 + a3 + a4, a5);
    lemma_run_sum(c, s, a0 + a1 + a2 + a3, a4);
    lemma_run_sum(c, s, a0 + a1 + a2, a3);
    lemma_run_sum(c, s, a0 + a1, a2);
    lemma_run_sum(c, s, a0, a1);
    lemma_rms(c, s, Group::Rms1(l), Buf::IlnW(l), Buf::Norm1);
    let t0 = run(c, s, a0);
    assert(got(t0.mem, Buf::Norm1) == (Val::Norm {
        x: Box::new(x),
        w: Box::new(got(s.mem, Buf::IlnW(l))),
        eps_bits: cfg.rms_norm_eps_bits,
    }));
    lemma_gemv(c, t0, Kernel::GemvQkv, Group::GemvQkv(l), Buf::QkvW(l), Buf::Norm1, Buf::Qkv, cfg.qkv_width(), false);
    let t1 = run(c, t0, a1);
    assert(got(t1.mem, Buf::Qkv) == projected(cfg, s.mem, l, x));
    lemma_attention_half(c, t1, l, pos, scale_bits, x, s.mem);
    let t4 = run(c, run(c, run(c, t1, a2), a3), a4);
    let y = got(t4.mem, Buf::H);
    lemma_rms(c, t4, Group::Rms2(l), Buf::PlnW(l), Buf::Norm2);
    let t5 = run(c, t4, a5);
    let inter2 = 2 * cfg.intermediate_size;
    lemma_gemv(c, t5, Kernel::GemvGu, Group::GemvGu(l), Buf::GuW(l), Buf::Norm2, Buf::GateUp, inter2, false);
    let t6 = run(c, t5, a6);
    lemma_feed_half(c, t6, l, pos, scale_bits, y, s.mem, gx, gy);
}

/// What the first `n` layers leave, by what they found.
pub open spec fn layers_done(c: Ctx, s: Machine, t: Machine, n: nat, pos: int, scale_bits: u32) -> bool {
    let x = got(s.mem, Buf::H);
    &&& got(t.mem, Buf::H) == hidden(c.cfg, s.mem, x, n, c.slots, pos, scale_bits)
    &&& forall|l: usize|
        #![trigger got(t.mem, Buf::KCache(l))]
        l < n ==> got(t.mem, Buf::KCache(l)) == keys(
            c.cfg,
            s.mem,
            l,
            hidden(c.cfg, s.mem, x, l as nat, c.slots, pos, scale_bits),
            c.slots,
            pos,
            1,
        )
    &&& forall|l: usize|
        #![trigger got(t.mem, Buf::VCache(l))]
        l < n ==> got(t.mem, Buf::VCache(l)) == values(
            c.cfg,
            s.mem,
            l,
            hidden(c.cfg, s.mem, x, l as nat, c.slots, pos, scale_bits),
            c.slots,
            pos,
            1,
        )
    &&& t.set == s.set
    &&& t.out == s.out
    &&& forall|b: Buf| !layers_write(b, n) ==> #[trigger] got(t.mem, b) == got(s.mem, b)
}

/// One of the first `n` layers writes this buffer.
pub open spec fn layers_write(b: Buf, n: nat) -> bool {
    match b {
        Buf::KCache(l) => l < n,
        Buf::VCache(l) => l < n,
        _ => step_writes(b, 0),
    }
}

proof fn lemma_next_layer(c: Ctx, s: Machine, t: Machine, u: Machine, n: nat, pos: int, scale_bits: u32)
    requires
        layers_done(c, s, t, n, pos, scale_bits),
        layer_done(c, t, u, n as usize, pos, scale_bits),
        n < usize::MAX,
    ensures
        layers_done(c, s, u, n + 1, pos, scale_bits),
{
    let x = got(s.mem, Buf::H);
    let l = n as usize;
    let h = hidden(c.cfg, s.mem, x, n, c.slots, pos, scale_bits);
    assert(projected(c.cfg, t.mem, l, h) == projected(c.cfg, s.mem, l, h));
    assert forall|k: usize| k < n + 1 implies #[trigger] got(u.mem, Buf::KCache(k)) == keys(
        c.cfg,
        s.mem,
        k,
        hidden(c.cfg, s.mem, x, k as nat, c.slots, pos, scale_bits),
        c.slots,
        pos,
        1,
    ) by {
        if k < n {
            assert(got(u.mem, Buf::KCache(k)) == got(t.mem, Buf::KCache(k)));
        }
    }
    assert forall|k: usize| k < n + 1 implies #[trigger] got(u.mem, Buf::VCache(k)) == values(
        c.cfg,
        s.mem,
        k,
        hidden(c.cfg, s.mem, x, k as nat, c.slots, pos, scale_bits),
        c.slots,
        pos,
        1,
    ) by {
        if k < n {
            assert(got(u.mem, Buf::VCache(k)) == got(t.mem, Buf::VCache(k)));
        }
    }
}

proof fn lemma_step_layers(c: Ctx, s: Machine, n: nat, pos: int, scale_bits: u32)
    requires
        step_ready(c, s, pos, scale_bits),
        n <= usize::MAX,
    ensures
        layers_done(c, s, run(c, s, step_layers_ops(c.cfg, c.sw, n, (pos + 1) as usize)), n, pos, scale_bits),
    decreases n,
{
    let cur_len = (pos + 1) as usize;
    if n == 0 {
        lemma_run_none(c, s);
    } else {
        let m = (n - 1) as nat;
        lemma_step_layers(c, s, m, pos, scale_bits);
        let t = run(c, s, step_layers_ops(c.cfg, c.sw, m, cur_len));
        lemma_step_layer(c, t, m as usize, pos, scale_bits);
        lemma_run_sum(c, s, step_layers_ops(c.cfg, c.sw, m, cur_len), step_layer_ops(c.cfg, c.sw, m as usize, cur_len));
        let u = run(c, t, step_layer_ops(c.cfg, c.sw, m as usize, cur_len));
        lemma_next_layer(c, s, t, u, m, pos, scale_bits);
    }
}

proof fn lemma_debug_layers(c: Ctx, s: Machine, n: nat, pos: int, scale_bits: u32)
    requires
        step_ready(c, s, pos, scale_bits),
        n <= usize::MAX,
    ensures
        layers_done(c, s, run(c, s, debug_layers_ops(c.cfg, c.sw, n, (pos + 1) as usize)), n, pos, scale_bits),
    decreases n,
{
    let cur_len = (pos + 1) as usize;
    if n == 0 {
        lemma_run_none(c, s);
    } else {
        let m = (n - 1) as nat;
        lemma_debug_layers(c, s, m, pos, scale_bits);
        let t = run(c, s, debug_layers_ops(c.cfg, c.sw, m, cur_len));
        lemma_debug_layer(c, t, m as usize, pos, scale_bits);
        lemma_run_sum(
            c,
            s,
            debug_layers_ops(c.cfg, c.sw, m, cur_len),
            debug_layer_ops(c.cfg, c.sw, m as usize, cur_len),
        );
        let u = run(c, t, debug_layer_ops(c.cfg, c.sw, m as usize, cur_len));
        lemma_next_layer(c, s, t, u, m, pos, scale_bits);
    }
}

proof fn lemma_write(c: Ctx, s: Machine, buf: Buf, offset: u64, data: Uniform)
    ensures
        run(c, s, seq![Op::Write { buf, offset, data }]) == (Machine { set: s.set.insert((buf, offset), data), ..s }),
{
    lemma_run_one(c, s, Op::Write { buf, offset, data });
}

/// The uniforms written at load are what every run needs of them.
pub proof fn law_constants_set(c: Ctx, s: Machine)
    requires
        c.cfg.hidden_size <= u32::MAX,
        c.cfg.hidden_size as int % 2 == 0,
    ensures
        ({
            let t = run(c, s, constant_uniforms(c.cfg));
            constants_set(c.cfg, t.set) && t.mem == s.mem
        }),
{
    let w = constant_uniforms(c.cfg);
    assert(w =~= seq![w[0]] + seq![w[1]] + seq![w[2]]);
    lemma_run_sum(c, s, seq![w[0]] + seq![w[1]], seq![w[2]]);
    lemma_run_sum(c, s, seq![w[0]], seq![w[1]]);
    lemma_run_one(c, s, w[0]);
    lemma_run_one(c, exec(c, s, w[0]), w[1]);
    lemma_run_one(c, exec(c, exec(c, s, w[0]), w[1]), w[2]);
}

proof fn lemma_step_uniforms(c: Ctx, s: Machine, d: WgpuTextDecoder, scale_bits: u32, pos: usize)
    requires
        c.cfg == d.cfg,
        c.slots == d.cap,
        c.cfg.intermediate_size <= u32::MAX,
        c.cfg.intermediate_size as int % 2 == 0,
        pos < usize::MAX,
        constants_set(c.cfg, s.set),
    ensures
        ({
            let t = run(c, s, step_uniforms(d, c.sw, scale_bits, pos));
            &&& step_set(
                c,
                t.set,
                pos as int,
                scale_bits,
                chunks_of((pos + 1) as usize, dispatch_chunk(c.cfg, c.sw, pos + 1)) as u32,
            )
            &&& t.mem == s.mem
            &&& t.out == s.out
        }),
{
    let w = step_uniforms(d, c.sw, scale_bits, pos);
    assert(w =~= seq![w[0]] + seq![w[1]] + seq![w[2]] + seq![w[3]] + seq![w[4]]);
    lemma_run_sum(c, s, seq![w[0]] + seq![w[1]] + seq![w[2]] + seq![w[3]], seq![w[4]]);
    lemma_run_sum(c, s, seq![w[0]] + seq![w[1]] + seq![w[2]], seq![w[3]]);
    lemma_run_sum(c, s, seq![w[0]] + seq![w[1]], seq![w[2]]);
    lemma_run_sum(c, s, seq![w[0]], seq![w[1]]);
    lemma_run_one(c, s, w[0]);
    let t0 = exec(c, s, w[0]);
    lemma_run_one(c, t0, w[1]);
    let t1 = exec(c, t0, w[1]);
    lemma_run_one(c, t1, w[2]);
    let t2 = exec(c, t1, w[2]);
    lemma_run_one(c, t2, w[3]);
    let t3 = exec(c, t2, w[3]);
    lemma_run_one(c, t3, w[4]);
    assert(1 * d.cfg.intermediate_size / 2 == d.cfg.intermediate_size as int / 2);
}

/// What a step at position `pos` is for, as the machine it starts from and the
/// one it leaves: the token that the model gives after the token at hand, and
/// one more position in every cache. The new row is rotated by `pos` and stored
/// in slot `pos`, and it attends to the `pos + 1` positions up to itself.
pub open spec fn step_done(c: Ctx, s: Machine, t: Machine, pos: int, scale_bits: u32) -> bool {
    let n = c.cfg.num_hidden_layers as nat;
    let x = embedded(s.mem);
    &&& got(t.mem, Buf::Token) == following(c.cfg, s.mem, hidden(c.cfg, s.mem, x, n, c.slots, pos, scale_bits))
    &&& forall|l: usize|
        #![trigger got(t.mem, Buf::KCache(l))]
        l < n ==> got(t.mem, Buf::KCache(l)) == keys(
            c.cfg,
            s.mem,
            l,
            hidden(c.cfg, s.mem, x, l as nat, c.slots, pos, scale_bits),
            c.slots,
            pos,
            1,
        )
    &&& forall|l: usize|
        #![trigger got(t.mem, Buf::VCache(l))]
        l < n ==> got(t.mem, Buf::VCache(l)) == values(
            c.cfg,
            s.mem,
            l,
            hidden(c.cfg, s.mem, x, l as nat, c.slots, pos, scale_bits),
            c.slots,
            pos,
            1,
        )
    &&& constants_set(c.cfg, t.set)
    &&& forall|b: Buf|
        !layers_write(b, n) && b != Buf::Logits && b != Buf::FinalNorm && b != Buf::Token ==> #[trigger] got(t.mem, b)
            == got(s.mem, b)
}

proof fn lemma_embed(c: Ctx, s: Machine)
    requires
        constants_set(c.cfg, s.set),
    ensures
        ({
            let t = run(c, s, run_ops(Kernel::Embed, Group::Embed, 1, 1, 1));
            &&& kept_but(s, t, |b: Buf| b == Buf::H)
            &&& got(t.mem, Buf::H) == embedded(s.mem)
        }),
{
    lemma_fired(c, s, Kernel::Embed, Group::Embed, 1, 1, 1);
}

pub proof fn lemma_argmax(c: Ctx, s: Machine)
    requires
        constants_set(c.cfg, s.set),
        c.cfg.vocab_size <= u32::MAX,
    ensures
        ({
            let t = run(c, s, run_ops(Kernel::Argmax, Group::Argmax, 1, 1, 1));
            &&& kept_but(s, t, |b: Buf| b == Buf::Token)
            &&& got(t.mem, Buf::Token) == (Val::Best { x: Box::new(got(s.mem, Buf::Logits)) })
        }),
{
    lemma_fired(c, s, Kernel::Argmax, Group::Argmax, 1, 1, 1);
}

/// A step computes the model: its commands, run on any memory, leave the token
/// that follows and the caches one position longer, and copy that token out.
pub proof fn law_step_computes(d: WgpuTextDecoder, sw: Switches, subgroup: bool, scale_bits: u32, s: Machine)
    requires
        plain(sw),
        sized(d.cfg, sw, d.cap as int),
        d.pos < d.cap,
        constants_set(d.cfg, s.set),
    ensures
        ({
            let c = one_row(d.cfg, sw, subgroup, d.cap as int);
            let ops = step_uniforms(d, sw, scale_bits, d.pos) + encode_step_ops(d.cfg, sw, (d.pos + 1) as usize)
                + seq![Op::Submit];
            let t = run(c, s, ops);
            step_done(c, s, t, d.pos as int, scale_bits) && t.out == got(t.mem, Buf::Token)
        }),
{
    let cfg = d.cfg;
    let c = one_row(cfg, sw, subgroup, d.cap as int);
    let pos = d.pos as int;
    let n = cfg.num_hidden_layers as nat;
    let cur_len = (d.pos + 1) as usize;
    lemma_names();
    let w = step_uniforms(d, sw, scale_bits, d.pos);
    let a1 = run_ops(Kernel::Embed, Group::Embed, 1, 1, 1);
    let a2 = step_layers_ops(cfg, sw, n, cur_len);
    let a3 = run_ops(Kernel::GemvLmNorm, Group::GemvLmNorm, norm_grid(cfg.vocab_size as int), 1, 1);
    let a4 = run_ops(Kernel::Argmax, Group::Argmax, 1, 1, 1);
    let a5 = seq![Op::CopyToken];
    let a6 = seq![Op::Submit];
    lemma_site(sw, "lm"@, Kernel::GemvLmNorm, Group::GemvLmNorm, norm_grid(cfg.vocab_size as int), 1);
    assert(encode_step_ops(cfg, sw, cur_len) =~= a1 + a2 + a3 + a4 + a5);
    let enc = a1 + a2 + a3 + a4 + a5;
    lemma_run_sum(c, s, w + enc, a6);
    lemma_run_sum(c, s, w, enc);
    lemma_step_uniforms(c, s, d, scale_bits, d.pos);
    let s0 = run(c, s, w);
    lemma_run_sum(c, s0, a1 + a2 + a3 + a4, a5);
    lemma_run_sum(c, s0, a1 + a2 + a3, a4);
    lemma_run_sum(c, s0, a1 + a2, a3);
    lemma_run_sum(c, s0, a1, a2);
    lemma_embed(c, s0);
    let s1 = run(c, s0, a1);
    lemma_step_layers(c, s1, n, pos, scale_bits);
    let s2 = run(c, s1, a2);
    lemma_gemv_norm(
        c,
        s2,
        Kernel::GemvLmNorm,
        Group::GemvLmNorm,
        Buf::EmbedTable,
        Buf::FinalNormW,
        Buf::Logits,
        cfg.vocab_size as int,
    );
    let s3 = run(c, s2, a3);
    lemma_argmax(c, s3);
    let s4 = run(c, s3, a4);
    lemma_run_one(c, s4, Op::CopyToken);
    let s5 = run(c, s4, a5);
    lemma_run_one(c, s5, Op::Submit);
    lemma_same_terms(c, s, s1, n, pos, scale_bits);
}

proof fn lemma_same_hidden(c: Ctx, s: Machine, t: Machine, k: nat, x: Val, pos: int, scale_bits: u32)
    requires
        k <= usize::MAX,
        forall|b: Buf| b != Buf::H ==> #[trigger] got(t.mem, b) == got(s.mem, b),
    ensures
        hidden(c.cfg, t.mem, x, k, c.slots, pos, scale_bits) == hidden(c.cfg, s.mem, x, k, c.slots, pos, scale_bits),
    decreases k,
{
    if k > 0 {
        lemma_same_hidden(c, s, t, (k - 1) as nat, x, pos, scale_bits);
        let l = (k - 1) as usize;
        let h = hidden(c.cfg, s.mem, x, (k - 1) as nat, c.slots, pos, scale_bits);
        let a = attended(c.cfg, s.mem, l, h, c.slots, pos, scale_bits);
        assert(projected(c.cfg, t.mem, l, h) == projected(c.cfg, s.mem, l, h));
        assert(queries(c.cfg, t.mem, l, h, pos) == queries(c.cfg, s.mem, l, h, pos));
        assert(keys(c.cfg, t.mem, l, h, c.slots, pos, 1) == keys(c.cfg, s.mem, l, h, c.slots, pos, 1));
        assert(attended(c.cfg, t.mem, l, h, c.slots, pos, scale_bits) == a);
        let y = mixed_in(s.mem, l, h, a);
        assert(mixed_in(t.mem, l, h, a) == y);
        assert(fed_forward(c.cfg, t.mem, l, y) == fed_forward(c.cfg, s.mem, l, y));
    }
}

/// The terms of a run depend on memory only through the buffers that they name.
proof fn lemma_same_terms(c: Ctx, s: Machine, t: Machine, n: nat, pos: int, scale_bits: u32)
    requires
        n <= usize::MAX,
        forall|b: Buf| b != Buf::H ==> #[trigger] got(t.mem, b) == got(s.mem, b),
    ensures
        forall|k: nat, x: Val|
            k <= n ==> #[trigger] hidden(c.cfg, t.mem, x, k, c.slots, pos, scale_bits) == hidden(
                c.cfg,
                s.mem,
                x,
                k,
                c.slots,
                pos,
                scale_bits,
            ),
{
    assert forall|k: nat, x: Val| k <= n implies #[trigger] hidden(c.cfg, t.mem, x, k, c.slots, pos, scale_bits)
        == hidden(c.cfg, s.mem, x, k, c.slots, pos, scale_bits) by {
        lemma_same_hidden(c, s, t, k, x, pos, scale_bits);
    }
}

/// Two steps in a row: the second reads the token that the first gave, and its
/// row goes to the slot, and is rotated by the position, behind the first's.
pub proof fn law_steps_follow(d: WgpuTextDecoder, sw: Switches, subgroup: bool, scale_bits: u32, s: Machine)
    requires
        plain(sw),
        sized(d.cfg, sw, d.cap as int),
        d.pos + 1 < d.cap,
        constants_set(d.cfg, s.set),
    ensures
        ({
            let c = one_row(d.cfg, sw, subgroup, d.cap as int);
            let e = WgpuTextDecoder { pos: (d.pos + 1) as usize, ..d };
            let t = run(
                c,
                s,
                step_uniforms(d, sw, scale_bits, d.pos) + encode_step_ops(d.cfg, sw, (d.pos + 1) as usize) + seq![
                    Op::Submit,
                ],
            );
            let u = run(
                c,
                t,
                step_uniforms(e, sw, scale_bits, e.pos) + encode_step_ops(e.cfg, sw, (e.pos + 1) as usize) + seq![
                    Op::Submit,
                ],
            );
            let n = d.cfg.num_hidden_layers as nat;
            let x = Val::Lookup { table: Box::new(got(s.mem, Buf::EmbedTable)), token: Box::new(t.out) };
            &&& u.out == following(
                d.cfg,
                s.mem,
                hidden(d.cfg, t.mem, x, n, d.cap as int, d.pos + 1, scale_bits),
            )
            &&& forall|l: usize|
                #![trigger got(u.mem, Buf::KCache(l))]
                l < n ==> {
                    let k = got(u.mem, Buf::KCache(l));
                    let v = got(u.mem, Buf::VCache(l));
                    &&& k is Keys && k->Keys_slot == d.pos + 1 && k->Keys_at == d.pos + 1 && k->Keys_rows == 1
                    &&& v is Values && v->Values_slot == d.pos + 1 && v->Values_rows == 1
                    &&& *k->Keys_was is Keys && (*k->Keys_was)->Keys_slot == d.pos && (*k->Keys_was)->Keys_at == d.pos
                    &&& *v->Values_was is Values && (*v->Values_was)->Values_slot == d.pos
                    &&& (*k->Keys_was)->Keys_was == Box::new(got(s.mem, Buf::KCache(l)))
                    &&& (*v->Values_was)->Values_was == Box::new(got(s.mem, Buf::VCache(l)))
                }
        }),
{
    let c = one_row(d.cfg, sw, subgroup, d.cap as int);
    let e = WgpuTextDecoder { pos: (d.pos + 1) as usize, ..d };
    let t = run(
        c,
        s,
        step_uniforms(d, sw, scale_bits, d.pos) + encode_step_ops(d.cfg, sw, (d.pos + 1) as usize) + seq![Op::Submit],
    );
    let u = run(
        c,
        t,
        step_uniforms(e, sw, scale_bits, e.pos) + encode_step_ops(e.cfg, sw, (e.pos + 1) as usize) + seq![Op::Submit],
    );
    law_step_computes(d, sw, subgroup, scale_bits, s);
    law_step_computes(e, sw, subgroup, scale_bits, t);
    let n = d.cfg.num_hidden_layers as nat;
    assert forall|l: usize| l < n implies {
        let k = #[trigger] got(u.mem, Buf::KCache(l));
        let v = got(u.mem, Buf::VCache(l));
        &&& k is Keys && k->Keys_slot == d.pos + 1 && k->Keys_at == d.pos + 1 && k->Keys_rows == 1
        &&& v is Values && v->Values_slot == d.pos + 1 && v->Values_rows == 1
        &&& *k->Keys_was is Keys && (*k->Keys_was)->Keys_slot == d.pos && (*k->Keys_was)->Keys_at == d.pos
        &&& *v->Values_was is Values && (*v->Values_was)->Values_slot == d.pos
        &&& (*k->Keys_was)->Keys_was == Box::new(got(s.mem, Buf::KCache(l)))
        &&& (*v->Values_was)->Values_was == Box::new(got(s.mem, Buf::VCache(l)))
    } by {
        assert(got(t.mem, Buf::KCache(l)) is Keys);
        assert(got(t.mem, Buf::VCache(l)) is Values);
        assert(got(u.mem, Buf::VCache(l)) is Values);
    }
}

/// A step run op by op computes what the fused step computes. The unfused tail is
/// dispatched for kernels of at least eight rows per workgroup.
pub proof fn law_unfused_step_computes(d: WgpuTextDecoder, sw: Switches, subgroup: bool, scale_bits: u32, s: Machine)
    requires
        plain(sw),
        sized(d.cfg, sw, d.cap as int),
        sw.gemv_rpw >= 8,
        d.pos < d.cap,
        constants_set(d.cfg, s.set),
    ensures
        ({
            let c = one_row(d.cfg, sw, subgroup, d.cap as int);
            let ops = step_uniforms(d, sw, scale_bits, d.pos) + (run_ops(Kernel::Embed, Group::Embed, 1, 1, 1)
                + debug_layers_ops(d.cfg, sw, d.cfg.num_hidden_layers as nat, (d.pos + 1) as usize) + tail_ops(d.cfg));
            step_done(c, s, run(c, s, ops), d.pos as int, scale_bits)
        }),
{
    let cfg = d.cfg;
    let c = one_row(cfg, sw, subgroup, d.cap as int);
    let pos = d.pos as int;
    let n = cfg.num_hidden_layers as nat;
    let cur_len = (d.pos + 1) as usize;
    let w = step_uniforms(d, sw, scale_bits, d.pos);
    let a1 = run_ops(Kernel::Embed, Group::Embed, 1, 1, 1);
    let a2 = debug_layers_ops(cfg, sw, n, cur_len);
    let a3 = run_ops(Kernel::RmsNorm, Group::FinalRms, 1, 1, 1);
    let a4 = run_ops(Kernel::GemvLm, Group::GemvLm, norm_grid(cfg.vocab_size as int), 1, 1);
    let a5 = run_ops(Kernel::Argmax, Group::Argmax, 1, 1, 1);
    assert(a1 + a2 + tail_ops(cfg) =~= a1 + a2 + a3 + a4 + a5);
    let enc = a1 + a2 + a3 + a4 + a5;
    lemma_run_sum(c, s, w, enc);
    lemma_step_uniforms(c, s, d, scale_bits, d.pos);
    let s0 = run(c, s, w);
    lemma_run_sum(c, s0, a1 + a2 + a3 + a4, a5);
    lemma_run_sum(c, s0, a1 + a2 + a3, a4);
    lemma_run_sum(c, s0, a1 + a2, a3);
    lemma_run_sum(c, s0, a1, a2);
    lemma_embed(c, s0);
    let s1 = run(c, s0, a1);
    lemma_debug_layers(c, s1, n, pos, scale_bits);
    let s2 = run(c, s1, a2);
    lemma_rms(c, s2, Group::FinalRms, Buf::FinalNormW, Buf::FinalNorm);
    let s3 = run(c, s2, a3);
    lemma_logits(c, s3);
    let s4 = run(c, s3, a4);
    lemma_argmax(c, s4);
    lemma_same_terms(c, s, s1, n, pos, scale_bits);
}

/// The logits of a final row that is normalised already.
pub proof fn lemma_logits(c: Ctx, s: Machine)
    requires
        c.cfg.vocab_size <= u32::MAX,
        c.cfg.vocab_size as int % 8 == 0,
        c.sw.gemv_rpw >= 8,
    ensures
        ({
            let t = run(c, s, run_ops(Kernel::GemvLm, Group::GemvLm, norm_grid(c.cfg.vocab_size as int), 1, 1));
            &&& kept_but(s, t, |b: Buf| b == Buf::Logits)
            &&& got(t.mem, Buf::Logits) == (Val::Times {
                x: Box::new(got(s.mem, Buf::FinalNorm)),
                w: Box::new(got(s.mem, Buf::EmbedTable)),
            })
        }),
{
    let v = c.cfg.vocab_size as int;
    lemma_fired(c, s, Kernel::GemvLm, Group::GemvLm, norm_grid(v), 1, 1);
    let r = c.sw.gemv_rpw as int;
    assert(v / 8 * r >= v) by (nonlinear_arith)
        requires
            v % 8 == 0,
            v >= 0,
            r >= 8,
    ;
}

} // verus!
