//! What a decoder plan computes. A plan is run over symbolic values: a buffer
//! holds a term that says how its contents came about, and a dispatch gives its
//! output a term by the kernel's generated parameters, the roles of its bindings
//! and the uniforms it reads. A dispatch whose parameters, operands or grid do not
//! fit together leaves its output lost.
use vstd::prelude::*;

use crate::decoder::{Switches, TextConfig};
use crate::decoder_ops::{Binding, Buf, GDims, Group, Kernel, Op, Uniform};
use crate::pipelines::{shader_of, Shader};

verus! {

/// What a buffer holds.
pub enum Val {
    /// What this buffer held at the start.
    Held(Buf),
    /// The row of a table that a token names.
    Lookup { table: Box<Val>, token: Box<Val> },
    /// Rows scaled to unit root mean square, times a weight.
    Norm { x: Box<Val>, w: Box<Val>, eps_bits: u32 },
    /// Every row times every row of a matrix.
    Times { x: Box<Val>, w: Box<Val> },
    Plus { x: Box<Val>, y: Box<Val> },
    /// The query heads, normalised and rotated from position `at` on.
    Queries { qkv: Box<Val>, w: Box<Val>, cos: Box<Val>, sin: Box<Val>, at: int, eps_bits: u32 },
    /// A key cache of `slots` slots after the key heads, normalised and rotated
    /// from position `at` on, went to `rows` slots from `slot` on.
    Keys {
        was: Box<Val>,
        qkv: Box<Val>,
        w: Box<Val>,
        cos: Box<Val>,
        sin: Box<Val>,
        slots: int,
        slot: int,
        at: int,
        rows: int,
        eps_bits: u32,
    },
    /// A value cache of `slots` slots after the value heads went to `rows` slots
    /// from `slot` on.
    Values { was: Box<Val>, qkv: Box<Val>, slots: int, slot: int, rows: int },
    /// Each row's mix of values: the last of `rows` rows attends to the first
    /// `keys` keys, each row before it to one fewer.
    Attend { q: Box<Val>, k: Box<Val>, v: Box<Val>, rows: int, keys: int, scale_bits: u32 },
    /// One of the three results of attention in pieces.
    Piece { which: int, of: Box<Val>, pieces: int },
    /// The first half of each row, through the activation, times the second half.
    Gated { x: Box<Val> },
    /// The place of the greatest element.
    Best { x: Box<Val> },
    /// One row.
    Row { x: Box<Val>, row: int },
    /// The kv heads of the first `keys` slots, one copy for every query head.
    Spread { x: Box<Val>, keys: int },
    /// Query rows against the key rows from `from` on, `keys` of them.
    Scores { q: Box<Val>, k: Box<Val>, rows: int, from: int, keys: int },
    /// The causal softmax of scores.
    Probs { of: Box<Val>, keys: int, scale_bits: u32 },
    /// The maximum and the sum of every row of scores.
    Stats { of: Box<Val>, keys: int, scale_bits: u32 },
    /// Probabilities times values.
    Mixed { p: Box<Val>, v: Box<Val> },
    /// Results of slab after slab.
    Slabs { of: Seq<Val> },
    /// The share of each slab in each row, from the slabs' statistics.
    Shares { of: Box<Val> },
    /// The slabs' results, each times its share.
    Merged { of: Box<Val>, by: Box<Val> },
    Lost,
}

/// What a run is about: the model, the kernels built for it, the rows in flight.
pub struct Ctx {
    pub cfg: TextConfig,
    pub sw: Switches,
    pub subgroup: bool,
    pub rows: int,
    /// Slots of the caches.
    pub slots: int,
    /// Rows that the buffers of a prefill are laid out for.
    pub padded: int,
    /// Key rows per query head of the copied caches.
    pub key_rows: int,
    /// Columns of a row of scores, and of one of probabilities.
    pub score_cols: int,
    pub prob_cols: int,
}

/// Device memory and what the next dispatch will use.
pub struct Machine {
    pub mem: Map<Buf, Val>,
    pub set: Map<(Buf, u64), Uniform>,
    pub kernel: Option<Kernel>,
    pub group: Option<Group>,
    /// The dynamic offset that the group is bound with.
    pub at: u32,
    /// The token that was copied out.
    pub out: Val,
}

/// What a buffer holds.
pub open spec fn got(m: Map<Buf, Val>, b: Buf) -> Val {
    if m.contains_key(b) {
        m[b]
    } else {
        Val::Held(b)
    }
}

/// Rows of a weight matrix, as the model has it.
pub open spec fn matrix_rows(cfg: TextConfig, b: Buf) -> int {
    match b {
        Buf::QkvW(_) => cfg.num_attention_heads * cfg.head_dim + 2 * (cfg.num_key_value_heads * cfg.head_dim),
        Buf::OW(_) | Buf::DpW(_) => cfg.hidden_size as int,
        Buf::GuW(_) => 2 * cfg.intermediate_size,
        Buf::EmbedTable => cfg.vocab_size as int,
        _ => -1,
    }
}

/// Columns of a weight matrix, as the model has it.
pub open spec fn matrix_cols(cfg: TextConfig, b: Buf) -> int {
    match b {
        Buf::QkvW(_) | Buf::GuW(_) | Buf::EmbedTable => cfg.hidden_size as int,
        Buf::OW(_) => cfg.num_attention_heads * cfg.head_dim,
        Buf::DpW(_) => cfg.intermediate_size as int,
        _ => -1,
    }
}

/// The first `n` entries are whole buffers at the indices `0..n`.
pub open spec fn in_place(b: Seq<Binding>, n: int) -> bool {
    &&& b.len() >= n
    &&& forall|i: int| 0 <= i < n ==> (#[trigger] b[i]).index == i && b[i].offset == 0 && b[i].size == 0
}

/// A matrix times a vector, onto the output where the kernel accumulates.
pub open spec fn gemv(
    c: Ctx,
    m: Map<Buf, Val>,
    b: Seq<Binding>,
    x: Val,
    rows: int,
    cols: int,
    acc: bool,
    reach: int,
) -> Map<Buf, Val> {
    let w = b[0].buf;
    let out = b[2].buf;
    let p = Val::Times { x: Box::new(x), w: Box::new(got(m, w)) };
    m.insert(
        out,
        if rows == matrix_rows(c.cfg, w) && cols == matrix_cols(c.cfg, w) && reach >= rows {
            if acc {
                Val::Plus { x: Box::new(got(m, out)), y: Box::new(p) }
            } else {
                p
            }
        } else {
            Val::Lost
        },
    )
}

/// A norm over whole rows, or over the one row that is bound.
pub open spec fn rms(c: Ctx, s: Machine, b: Seq<Binding>, d: int, x: int, y: int) -> Map<Buf, Val> {
    let m = s.mem;
    let v = got(m, b[0].buf);
    let ok = d == c.cfg.hidden_size && y == 1 && b.len() == 4 && b[0].index == 0 && b[1] == (Binding {
        index: 1,
        buf: b[1].buf,
        offset: 0,
        size: 0,
    }) && b[2] == (Binding { index: 2, buf: b[2].buf, offset: 0, size: 0 }) && b[3].index == 3 && b[3].offset == 0;
    let whole = b[0].offset == 0 && b[0].size == 0;
    let one = b[0].size == d * 2 && d > 0 && b[0].offset as int % (d * 2) == 0;
    m.insert(
        b[2].buf,
        if ok && s.set.contains_key((b[3].buf, 0)) && s.set[(b[3].buf, 0)] is Rms {
            let eps_bits = s.set[(b[3].buf, 0)]->Rms_eps_bits;
            let w = Box::new(got(m, b[1].buf));
            if whole && x == c.rows {
                Val::Norm { x: Box::new(v), w, eps_bits }
            } else if one && x == 1 {
                Val::Norm { x: Box::new(Val::Row { x: Box::new(v), row: b[0].offset as int / (d * 2) }), w, eps_bits }
            } else {
                Val::Lost
            }
        } else {
            Val::Lost
        },
    )
}

/// The heads of a projection: queries to their buffer, keys and values to the
/// caches.
pub open spec fn extract(
    c: Ctx,
    s: Machine,
    b: Seq<Binding>,
    nqh: int,
    nkvh: int,
    hd: int,
    x: int,
    y: int,
) -> Map<Buf, Val> {
    let m = s.mem;
    let u = s.set[(b[8].buf, 0)];
    if in_place(b, 9) && b.len() == 9 && nqh == c.cfg.num_attention_heads && nkvh == c.cfg.num_key_value_heads && hd
        == c.cfg.head_dim && x == c.rows && y == nqh + nkvh && s.set.contains_key((b[8].buf, 0)) && u is Qkvx
        && u->Qkvx_max_seq == c.slots && u->Qkvx_s == c.padded {
        let qkv = Box::new(got(m, b[0].buf));
        let cos = Box::new(got(m, b[3].buf));
        let sin = Box::new(got(m, b[4].buf));
        let at = u->pos_offset as int;
        let slot = u->start as int;
        let eps_bits = u->Qkvx_eps_bits;
        m.insert(
            b[5].buf,
            Val::Queries { qkv, w: Box::new(got(m, b[1].buf)), cos, sin, at, eps_bits },
        ).insert(
            b[6].buf,
            Val::Keys {
                was: Box::new(got(m, b[6].buf)),
                qkv,
                w: Box::new(got(m, b[2].buf)),
                cos,
                sin,
                slots: c.slots,
                slot,
                at,
                rows: c.rows,
                eps_bits,
            },
        ).insert(
            b[7].buf,
            Val::Values { was: Box::new(got(m, b[7].buf)), qkv, slots: c.slots, slot, rows: c.rows },
        )
    } else {
        m.insert(b[5].buf, Val::Lost).insert(b[6].buf, Val::Lost).insert(b[7].buf, Val::Lost)
    }
}

/// Attention of one row over the caches.
pub open spec fn attend(m: Map<Buf, Val>, b: Seq<Binding>, keys: int, scale_bits: u32) -> Val {
    Val::Attend {
        q: Box::new(got(m, b[0].buf)),
        k: Box::new(got(m, b[1].buf)),
        v: Box::new(got(m, b[2].buf)),
        rows: 1,
        keys,
        scale_bits,
    }
}

/// Attention in one piece.
pub open spec fn gqa_single(
    c: Ctx,
    s: Machine,
    b: Seq<Binding>,
    nqh: int,
    nkvh: int,
    hd: int,
    cap: int,
    x: int,
) -> Map<Buf, Val> {
    let m = s.mem;
    let u = s.set[(b[4].buf, 0)];
    m.insert(
        b[3].buf,
        if in_place(b, 5) && b.len() == 5 && nqh == c.cfg.num_attention_heads && nkvh == c.cfg.num_key_value_heads
            && hd == c.cfg.head_dim && x == nqh && c.rows == 1 && s.set.contains_key((b[4].buf, 0)) && u is Gqa
            && u->Gqa_max_seq == c.slots && u->Gqa_cur_len <= cap {
            attend(m, b, u->Gqa_cur_len as int, u->Gqa_scale_bits)
        } else {
            Val::Lost
        },
    )
}

/// The pieces of attention over `chunk` keys each.
pub open spec fn gqa_split(c: Ctx, s: Machine, b: Seq<Binding>, chunk: int, heads: bool, y: int) -> Map<Buf, Val> {
    let m = s.mem;
    let u = s.set[(b[6].buf, 0)];
    if in_place(b, 7) && b.len() == 7 && heads && c.rows == 1 && s.set.contains_key((b[6].buf, 0)) && u is Split
        && u->Split_max_seq == c.slots && y == u->Split_n_chunks && (u->Split_n_chunks - 1) * chunk < u->Split_cur_len
        <= u->Split_n_chunks * chunk {
        let of = Box::new(attend(m, b, u->Split_cur_len as int, u->Split_scale_bits));
        let pieces = y;
        m.insert(b[3].buf, Val::Piece { which: 0, of, pieces }).insert(
            b[4].buf,
            Val::Piece { which: 1, of, pieces },
        ).insert(b[5].buf, Val::Piece { which: 2, of, pieces })
    } else {
        m.insert(b[3].buf, Val::Lost).insert(b[4].buf, Val::Lost).insert(b[5].buf, Val::Lost)
    }
}

/// The pieces of attention put together.
pub open spec fn gqa_merge(c: Ctx, s: Machine, b: Seq<Binding>, hd: int, x: int) -> Map<Buf, Val> {
    let m = s.mem;
    let u = s.set[(b[4].buf, 0)];
    let first = got(m, b[1].buf);
    m.insert(
        b[0].buf,
        if in_place(b, 5) && b.len() == 5 && hd == c.cfg.head_dim && x == c.cfg.num_attention_heads
            && s.set.contains_key((b[4].buf, 0)) && u is Merge && first is Piece && first->which == 0 && first->pieces
            == u->Merge_n_chunks && got(m, b[2].buf) == (Val::Piece {
            which: 1,
            of: first->Piece_of,
            pieces: first->pieces,
        }) && got(m, b[3].buf) == (Val::Piece { which: 2, of: first->Piece_of, pieces: first->pieces }) {
            *first->Piece_of
        } else {
            Val::Lost
        },
    )
}

/// The activation.
pub open spec fn silu(c: Ctx, s: Machine, b: Seq<Binding>, inter: int, x: int, y: int) -> Map<Buf, Val> {
    let m = s.mem;
    let u = s.set[(b[2].buf, 0)];
    m.insert(
        b[1].buf,
        if in_place(b, 3) && b.len() == 3 && inter == c.cfg.intermediate_size && s.set.contains_key((b[2].buf, 0))
            && u is Silu && u->inter2 * 2 == inter && u->total2 * 2 == c.rows * inter && (y == 1 || x
            == u->Silu_gx) && x * y * 256 >= u->total2 {
            Val::Gated { x: Box::new(got(m, b[0].buf)) }
        } else {
            Val::Lost
        },
    )
}

/// The place of the greatest logit.
pub open spec fn argmax(c: Ctx, s: Machine, b: Seq<Binding>, x: int) -> Map<Buf, Val> {
    let m = s.mem;
    let u = s.set[(b[2].buf, 0)];
    m.insert(
        b[1].buf,
        if in_place(b, 3) && b.len() == 3 && x == 1 && s.set.contains_key((b[2].buf, 0)) && u is Argmax && u->Argmax_n
            == c.cfg.vocab_size && u->Argmax_slot == 0 {
            Val::Best { x: Box::new(got(m, b[0].buf)) }
        } else {
            Val::Lost
        },
    )
}

/// The embedding of the token.
pub open spec fn embed(c: Ctx, s: Machine, b: Seq<Binding>, x: int) -> Map<Buf, Val> {
    let m = s.mem;
    let u = s.set[(b[3].buf, 0)];
    m.insert(
        b[2].buf,
        if in_place(b, 4) && b.len() == 4 && x == 1 && s.set.contains_key((b[3].buf, 0)) && u is Embed
            && u->Embed_slot == 0 && u->d2 * 2 == c.cfg.hidden_size {
            Val::Lookup { table: Box::new(got(m, b[0].buf)), token: Box::new(got(m, b[1].buf)) }
        } else {
            Val::Lost
        },
    )
}

/// A GEMM of one matrix: `rows` dense rows of `a` against the rows of a weight.
pub open spec fn fits_dense(c: Ctx, g: GDims, w: Buf, x: int, y: int, z: int) -> bool {
    &&& g.m == c.rows
    &&& g.n == matrix_rows(c.cfg, w)
    &&& g.k == matrix_cols(c.cfg, w)
    &&& g.lda == g.k
    &&& g.ldc == g.n
    &&& g.row0 == 0
    &&& g.beta == 0
    &&& x * 128 >= g.n
    &&& y * 128 >= g.m
    &&& z == 1
}

/// A GEMM of one matrix, onto the output where the kernel accumulates.
pub open spec fn gemm(c: Ctx, s: Machine, b: Seq<Binding>, acc: bool, x: int, y: int, z: int) -> Map<Buf, Val> {
    let m = s.mem;
    let key = (b[3].buf, s.at as u64);
    let p = Val::Times { x: Box::new(got(m, b[0].buf)), w: Box::new(got(m, b[1].buf)) };
    m.insert(
        b[2].buf,
        if in_place(b, 2) && b.len() == 4 && b[2].index == 2 && b[2].offset == 0 && b[3].index == 3
            && s.set.contains_key(key) && s.set[key] is Gemm && fits_dense(
            c,
            s.set[key]->Gemm_0,
            b[1].buf,
            x,
            y,
            z,
        ) {
            if acc {
                Val::Plus { x: Box::new(got(m, b[2].buf)), y: Box::new(p) }
            } else {
                p
            }
        } else {
            Val::Lost
        },
    )
}

/// A cache copied out for every query head: `cur` rows of each.
pub open spec fn spread(c: Ctx, s: Machine, b: Seq<Binding>, rep: int, x: int, y: int) -> Map<Buf, Val> {
    let m = s.mem;
    let u = s.set[(b[2].buf, 0)];
    m.insert(
        b[1].buf,
        if in_place(b, 3) && b.len() == 3 && s.set.contains_key((b[2].buf, 0)) && u is RepeatKv && rep
            * c.cfg.num_key_value_heads == c.cfg.num_attention_heads && u->nkvh == c.cfg.num_key_value_heads
            && u->RepeatKv_hd == c.cfg.head_dim && u->RepeatKv_max_seq == c.slots && u->npw * 2 == c.key_rows
            * c.cfg.head_dim && u->cur <= c.key_rows && (y == 1 || x == u->RepeatKv_gx) && x * y * 512
            >= c.cfg.num_attention_heads * u->cur * c.cfg.head_dim {
            Val::Spread { x: Box::new(got(m, b[0].buf)), keys: u->cur as int }
        } else {
            Val::Lost
        },
    )
}

/// The layout of the scores of one dispatch: for every query head the query rows
/// against the key rows from `from` on.
pub open spec fn fits_scores(c: Ctx, g: GDims, x: int, y: int, z: int) -> bool {
    let hd = c.cfg.head_dim;
    &&& g.m == c.rows
    &&& g.k == hd
    &&& g.lda == hd
    &&& g.bsa * 2 == c.padded * hd
    &&& g.bsb * 2 == c.key_rows * hd
    &&& g.ldc == c.score_cols
    &&& g.bsc == c.padded * c.score_cols
    &&& g.n <= c.score_cols
    &&& g.beta == 0
    &&& x * 128 >= g.n
    &&& y * 128 >= g.m
    &&& z == c.cfg.num_attention_heads
}

/// The layout of the mixed values of one dispatch: for every query head the
/// probabilities times the value rows, side by side in the output rows.
pub open spec fn fits_values(c: Ctx, g: GDims, x: int, y: int, z: int) -> bool {
    let hd = c.cfg.head_dim;
    &&& g.m == c.rows
    &&& g.n == hd
    &&& g.k <= c.prob_cols
    &&& g.lda == c.prob_cols
    &&& g.bsa * 2 == c.padded * c.prob_cols
    &&& g.bsb * 2 == c.key_rows * hd
    &&& g.ldc == c.cfg.num_attention_heads * hd
    &&& g.bsc == hd
    &&& g.beta == 0
    &&& x * 128 >= g.n
    &&& y * 128 >= g.m
    &&& z == c.cfg.num_attention_heads
}

/// `s` with `v` as its slab `t`; only the slab behind the last can be added.
pub open spec fn with_slab(s: Val, t: int, v: Val) -> Val {
    if t == 0 {
        Val::Slabs { of: seq![v] }
    } else if s is Slabs && s->Slabs_of.len() == t {
        Val::Slabs { of: s->Slabs_of.push(v) }
    } else {
        Val::Lost
    }
}

/// The two GEMMs of causal attention. The scores of a dispatch begin at the key
/// row that the dimensions name; the mixed values of a slab go to its part of the
/// output.
pub open spec fn causal(c: Ctx, s: Machine, b: Seq<Binding>, av: bool, x: int, y: int, z: int) -> Map<Buf, Val> {
    let m = s.mem;
    let key = (b[3].buf, s.at as u64);
    let g = s.set[key]->Gemm_0;
    let one = c.padded * c.cfg.num_attention_heads * c.cfg.head_dim * 2;
    let ok = in_place(b, 2) && b.len() == 4 && b[2].index == 2 && b[3].index == 3 && s.set.contains_key(key)
        && s.set[key] is Gemm;
    m.insert(
        b[2].buf,
        if !ok {
            Val::Lost
        } else if !av {
            if b[2].offset == 0 && fits_scores(c, g, x, y, z) {
                Val::Scores {
                    q: Box::new(got(m, b[0].buf)),
                    k: Box::new(got(m, b[1].buf)),
                    rows: c.rows,
                    from: g.row0 as int,
                    keys: g.n as int,
                }
            } else {
                Val::Lost
            }
        } else if !fits_values(c, g, x, y, z) {
            Val::Lost
        } else {
            let p = got(m, b[0].buf);
            let v = Val::Mixed { p: Box::new(p), v: Box::new(got(m, b[1].buf)) };
            if p is Probs && p->Probs_keys <= g.k && *p->Probs_of is Scores && p->Probs_of->from == g.row0 {
                if b[2].buf == Buf::PSlabPart {
                    let t = g.row0 as int / 1024;
                    if g.row0 == t * 1024 && b[2].offset == t * one {
                        with_slab(got(m, b[2].buf), t, v)
                    } else {
                        Val::Lost
                    }
                } else if b[2].offset == 0 {
                    v
                } else {
                    Val::Lost
                }
            } else {
                Val::Lost
            }
        },
    )
}

/// The softmax of scores. `n_x` and `n_w` are the words of a row of scores and of
/// one of probabilities.
pub open spec fn softmax(c: Ctx, s: Machine, b: Seq<Binding>, x: int, y: int) -> Map<Buf, Val> {
    let m = s.mem;
    let key = (b[2].buf, s.at as u64);
    let u = s.set[key];
    let sc = got(m, b[0].buf);
    m.insert(
        b[1].buf,
        if in_place(b, 2) && b.len() == 3 && b[2].index == 2 && b[2].offset == 0 && s.set.contains_key(key)
            && u is Softmax && sc is Scores && u->Softmax_row0 == sc->from && u->Softmax_valid <= c.prob_cols
            && u->Softmax_m == c.rows && u->Softmax_mp == c.padded && u->Softmax_n_x * 2 == c.score_cols && u->n_w * 2
            == c.prob_cols && (y == 1 || x == u->Softmax_gx) && x * y >= c.cfg.num_attention_heads * c.rows {
            Val::Probs { of: Box::new(sc), keys: u->Softmax_valid as int, scale_bits: u->Softmax_scale_bits }
        } else {
            Val::Lost
        },
    )
}

/// The statistics of a slab of scores, to the slab's rows.
pub open spec fn slab_stats(c: Ctx, s: Machine, b: Seq<Binding>, t: int, x: int, y: int) -> Map<Buf, Val> {
    let m = s.mem;
    let key = (b[2].buf, s.at as u64);
    let u = s.set[key];
    let sc = got(m, b[0].buf);
    m.insert(
        b[1].buf,
        if in_place(b, 2) && b.len() == 3 && b[2].index == 2 && b[2].offset == 0 && t == 1024 && s.set.contains_key(
            key,
        ) && u is SlabStats && sc is Scores && u->SlabStats_row0 == sc->from && u->SlabStats_m == c.rows
            && u->SlabStats_mp == c.padded && u->SlabStats_n_x * 2 == c.score_cols && u->SlabStats_rows
            == c.cfg.num_attention_heads * c.padded && (y == 1 || x == u->SlabStats_gx) && x * y
            >= c.cfg.num_attention_heads * c.rows && u->SlabStats_row0 as int % 1024 == 0 {
            with_slab(
                got(m, b[1].buf),
                u->SlabStats_row0 as int / 1024,
                Val::Stats {
                    of: Box::new(sc),
                    keys: u->SlabStats_valid as int,
                    scale_bits: u->SlabStats_scale_bits,
                },
            )
        } else {
            Val::Lost
        },
    )
}

/// The share of every slab in every row.
pub open spec fn slab_weights(c: Ctx, s: Machine, b: Seq<Binding>, x: int, y: int) -> Map<Buf, Val> {
    let m = s.mem;
    let key = (b[2].buf, b[2].offset);
    let u = s.set[key];
    let st = got(m, b[0].buf);
    m.insert(
        b[1].buf,
        if in_place(b, 2) && b.len() == 3 && b[2].index == 2 && s.set.contains_key(key) && u is SlabWeights
            && st is Slabs && u->SlabWeights_n_slab == st->Slabs_of.len() && u->SlabWeights_rows
            == c.cfg.num_attention_heads * c.padded && (y == 1 || x == u->SlabWeights_gx) && x * y * 256
            >= u->SlabWeights_rows {
            Val::Shares { of: Box::new(st) }
        } else {
            Val::Lost
        },
    )
}

/// The slabs' results put together.
pub open spec fn slab_merge(
    c: Ctx,
    s: Machine,
    b: Seq<Binding>,
    nqh: int,
    hd: int,
    x: int,
    y: int,
) -> Map<Buf, Val> {
    let m = s.mem;
    let key = (b[3].buf, b[3].offset);
    let u = s.set[key];
    let p = got(m, b[0].buf);
    m.insert(
        b[2].buf,
        if in_place(b, 3) && b.len() == 4 && b[3].index == 3 && s.set.contains_key(key) && u is SlabMerge && p is Slabs
            && u->SlabMerge_n_slab == p->Slabs_of.len() && u->SlabMerge_rows == c.padded && nqh
            == c.cfg.num_attention_heads && hd == c.cfg.head_dim && y == nqh && x * 512 >= c.padded * hd {
            Val::Merged { of: Box::new(p), by: Box::new(got(m, b[1].buf)) }
        } else {
            Val::Lost
        },
    )
}

/// Memory after a dispatch.
pub open spec fn effect(c: Ctx, s: Machine, sh: Shader, b: Seq<Binding>, x: int, y: int, z: int) -> Map<Buf, Val> {
    let m = s.mem;
    match sh {
        Shader::Gemv { rows, cols, acc, rpw, .. } => if in_place(b, 3) && b.len() == 3 && (c.rows == 1 || b[1].buf
            == Buf::FinalNorm) {
            gemv(c, m, b, got(m, b[1].buf), rows as int, cols as int, acc, x * rpw)
        } else {
            m.insert(b[2].buf, Val::Lost)
        },
        Shader::GemvNorm { rows, cols, acc, norm, eps_bits, .. } => if in_place(b, 4) && b.len() == 4 && c.rows == 1
            && norm == cols {
            gemv(
                c,
                m,
                b,
                Val::Norm { x: Box::new(got(m, b[1].buf)), w: Box::new(got(m, b[3].buf)), eps_bits },
                rows as int,
                cols as int,
                acc,
                x * 8,
            )
        } else {
            m.insert(b[2].buf, Val::Lost)
        },
        Shader::RmsNorm { d, .. } => rms(c, s, b, d as int, x, y),
        Shader::QkvExtract { nqh, nkvh, hd } => extract(c, s, b, nqh as int, nkvh as int, hd as int, x, y),
        Shader::GqaSingle { nqh, nkvh, hd, cap, .. } => gqa_single(
            c,
            s,
            b,
            nqh as int,
            nkvh as int,
            hd as int,
            cap as int,
            x,
        ),
        Shader::GqaSplit { nqh, nkvh, hd, chunk } => gqa_split(
            c,
            s,
            b,
            chunk as int,
            nqh == c.cfg.num_attention_heads && nkvh == c.cfg.num_key_value_heads && hd == c.cfg.head_dim && x == nqh,
            y,
        ),
        Shader::GqaSplitPair { hd, chunk, rep, row0, coal, .. } => gqa_split(
            c,
            s,
            b,
            chunk as int,
            hd == c.cfg.head_dim && x == c.cfg.num_key_value_heads && rep * c.cfg.num_key_value_heads
                == c.cfg.num_attention_heads && !row0 && !coal,
            y,
        ),
        Shader::GqaMerge { hd } => gqa_merge(c, s, b, hd as int, x),
        Shader::SiluMulSplit { inter } => silu(c, s, b, inter as int, x, y),
        Shader::Argmax => argmax(c, s, b, x),
        Shader::Embed => embed(c, s, b, x),
        Shader::PrefillGemm { transb, acc, bias } => if !transb && !bias {
            gemm(c, s, b, acc, x, y, z)
        } else {
            m.insert(b[2].buf, Val::Lost)
        },
        Shader::PrefillGemmCausal { av } => causal(c, s, b, av, x, y, z),
        Shader::SoftmaxCausal { .. } => softmax(c, s, b, x, y),
        Shader::RepeatKv { rep } => spread(c, s, b, rep as int, x, y),
        Shader::SlabStats { t, .. } => slab_stats(c, s, b, t as int, x, y),
        Shader::SlabWeights { .. } => slab_weights(c, s, b, x, y),
        Shader::SlabMerge { nqh, hd } => slab_merge(c, s, b, nqh as int, hd as int, x, y),
        _ => m,
    }
}

/// The machine after one command.
pub open spec fn exec(c: Ctx, s: Machine, op: Op) -> Machine {
    match op {
        Op::Write { buf, offset, data } => Machine { set: s.set.insert((buf, offset), data), ..s },
        Op::WriteZeros { .. } => s,
        Op::Pipeline(k) => Machine { kernel: Some(k), ..s },
        Op::Bind(g) => Machine { group: Some(g), at: 0, ..s },
        Op::BindAt { group, at } => Machine { group: Some(group), at, ..s },
        Op::Dispatch { x, y, z } => match (s.kernel, s.group) {
            (Some(k), Some(g)) => Machine {
                mem: effect(
                    c,
                    s,
                    shader_of(c.cfg, c.sw, c.subgroup, k),
                    g.bindings_spec(),
                    x as int,
                    y as int,
                    z as int,
                ),
                ..s
            },
            _ => s,
        },
        Op::CopyToken => Machine { out: got(s.mem, Buf::Token), ..s },
        Op::Submit => s,
        Op::SubmitWait { .. } => s,
    }
}

/// The machine after a list of commands.
#[verifier::opaque]
pub open spec fn run(c: Ctx, s: Machine, ops: Seq<Op>) -> Machine
    decreases ops.len(),
{
    if ops.len() == 0 {
        s
    } else {
        exec(c, run(c, s, ops.drop_last()), ops.last())
    }
}

/// Running two lists one after the other runs their sum.
pub proof fn lemma_run_sum(c: Ctx, s: Machine, a: Seq<Op>, b: Seq<Op>)
    ensures
        run(c, s, a + b) == run(c, run(c, s, a), b),
    decreases b.len(),
{
    reveal(run);
    if b.len() == 0 {
        assert(a + b =~= a);
    } else {
        assert((a + b).drop_last() =~= a + b.drop_last());
        assert((a + b).last() == b.last());
        lemma_run_sum(c, s, a, b.drop_last());
    }
}

/// Running one command.
pub proof fn lemma_run_one(c: Ctx, s: Machine, op: Op)
    ensures
        run(c, s, seq![op]) == exec(c, s, op),
{
    assert(seq![op].drop_last() =~= Seq::<Op>::empty());
    assert(seq![op].last() == op);
    reveal_with_fuel(run, 2);
}

/// A list left everything but some buffers as it was.
pub open spec fn kept_but(s: Machine, t: Machine, out: spec_fn(Buf) -> bool) -> bool {
    &&& t.set == s.set
    &&& t.out == s.out
    &&& forall|b: Buf| !out(b) ==> #[trigger] got(t.mem, b) == got(s.mem, b)
}

/// Running nothing.
pub proof fn lemma_run_none(c: Ctx, s: Machine)
    ensures
        run(c, s, Seq::empty()) == s,
{
    reveal(run);
}

} // verus!
