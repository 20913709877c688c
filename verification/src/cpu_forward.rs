//! One pass of the host text decoder: the order of its stages, and where each
//! head's row comes from and goes to.
use vstd::prelude::*;

use crate::cpu_decoder::{kv_elems, kv_row, law_kv_row_inside, CpuTextDecoder};
use crate::decoder::TextConfig;

verus! {

/// A stage of a layer.
#[derive(Clone, Copy, Debug, PartialEq, Eq, Structural)]
pub enum Step {
    /// Normalises the hidden rows for attention.
    Norm1,
    /// Projects them to queries, keys and values.
    Project,
    /// Normalises and rotates the heads and stores keys and values.
    Heads,
    /// Attends to what is stored.
    Attend,
    /// Adds the output projection to the hidden rows.
    Out,
    /// Normalises the hidden rows for the feed-forward part.
    Norm2,
    /// Projects to gate and up and combines them.
    GateUp,
    /// Adds the down projection to the hidden rows.
    Down,
}

/// The stages of a layer in order.
pub open spec fn step_at(i: int) -> Step {
    if i == 0 {
        Step::Norm1
    } else if i == 1 {
        Step::Project
    } else if i == 2 {
        Step::Heads
    } else if i == 3 {
        Step::Attend
    } else if i == 4 {
        Step::Out
    } else if i == 5 {
        Step::Norm2
    } else if i == 6 {
        Step::GateUp
    } else {
        Step::Down
    }
}

/// The stages of a pass, each with its layer.
pub open spec fn pass(layers: nat) -> Seq<(usize, Step)> {
    Seq::new(layers * 8, |i: int| ((i / 8) as usize, step_at(i % 8)))
}

/// Lists the stages of a pass through that many layers.
pub fn stages(layers: usize) -> (r: Vec<(usize, Step)>)
    requires
        layers * 8 <= usize::MAX,
    ensures
        r@ == pass(layers as nat),
{
    let mut r: Vec<(usize, Step)> = Vec::new();
    let n: usize = layers * 8;
    for i in 0..n
        invariant
            n == layers * 8,
            r@ == pass(layers as nat).take(i as int),
    {
        let s = match i % 8 {
            0 => Step::Norm1,
            1 => Step::Project,
            2 => Step::Heads,
            3 => Step::Attend,
            4 => Step::Out,
            5 => Step::Norm2,
            6 => Step::GateUp,
            _ => Step::Down,
        };
        r.push((i / 8, s));
        assert(r@ =~= pass(layers as nat).take(i + 1));
    }
    assert(pass(layers as nat).take(n as int) =~= pass(layers as nat));
    r
}

/// What becomes of one head of one row.
#[derive(Clone, Copy, Debug, PartialEq, Eq, Structural)]
pub enum HeadMove {
    /// The query at `at` is normalised and rotated in place.
    Query { at: usize, pos: usize },
    /// The key at `from` is normalised, rotated and stored at `to`; the value at
    /// `from` is stored at `to` as it is.
    Store { from: usize, to: usize, pos: usize },
}

/// The moves of row `r`, which stands at position `pos`.
pub open spec fn row_moves(cfg: TextConfig, cap: int, layer: int, pos: int, r: int) -> Seq<HeadMove> {
    Seq::new(
        cfg.num_attention_heads as nat,
        |h: int| HeadMove::Query { at: (r * cfg.q_width() + h * cfg.head_dim) as usize, pos: pos as usize },
    ) + Seq::new(
        cfg.num_key_value_heads as nat,
        |h: int|
            HeadMove::Store {
                from: (r * cfg.kv_width() + h * cfg.head_dim) as usize,
                to: kv_row(cfg, cap, layer, h, pos) as usize,
                pos: pos as usize,
            },
    )
}

/// The moves of the first `rows` rows from position `q0` on.
pub open spec fn pass_moves(cfg: TextConfig, cap: int, layer: int, q0: int, rows: nat) -> Seq<HeadMove>
    decreases rows,
{
    if rows == 0 {
        Seq::empty()
    } else {
        pass_moves(cfg, cap, layer, q0, (rows - 1) as nat) + row_moves(cfg, cap, layer, q0 + rows - 1, rows - 1)
    }
}

/// The sizes of a pass of `rows` rows fit.
pub open spec fn pass_fits(cfg: TextConfig, cap: int, q0: int, rows: int) -> bool {
    &&& q0 + rows <= cap
    &&& rows * cfg.q_width() <= usize::MAX
    &&& rows * cfg.kv_width() <= usize::MAX
    &&& cfg.num_hidden_layers * cfg.num_key_value_heads <= usize::MAX
    &&& kv_elems(cfg, cap) <= usize::MAX
}

proof fn lemma_head_inside(rows: int, r: int, heads: int, h: int, hd: int)
    requires
        0 <= r < rows,
        0 <= h < heads,
        hd >= 0,
    ensures
        0 <= h * hd,
        h * hd + hd <= heads * hd,
        0 <= r * (heads * hd),
        0 <= heads * hd <= rows * (heads * hd),
        r * (heads * hd) + h * hd + hd <= rows * (heads * hd),
{
    assert(0 <= h * hd && h * hd + hd <= heads * hd) by (nonlinear_arith)
        requires
            0 <= h < heads,
            hd >= 0,
    ;
    let w = heads * hd;
    assert(0 <= r * w && r * w + w <= rows * w) by (nonlinear_arith)
        requires
            0 <= r < rows,
            w >= 0,
    ;
}

impl CpuTextDecoder {
    /// The moves of one row.
    fn moves_of_row(&self, layer: usize, q0: usize, rows: usize, r: usize) -> (m: Vec<HeadMove>)
        requires
            layer < self.cfg.num_hidden_layers,
            r < rows,
            pass_fits(self.cfg, self.cap as int, q0 as int, rows as int),
        ensures
            m@ == row_moves(self.cfg, self.cap as int, layer as int, q0 + r, r as int),
    {
        let hd: usize = self.cfg.head_dim;
        let nqh: usize = self.cfg.num_attention_heads;
        let nkvh: usize = self.cfg.num_key_value_heads;
        let pos: usize = q0 + r;
        let ghost all = row_moves(self.cfg, self.cap as int, layer as int, pos as int, r as int);
        let mut m: Vec<HeadMove> = Vec::new();
        for h in 0..nqh
            invariant
                hd == self.cfg.head_dim,
                nqh == self.cfg.num_attention_heads,
                pos == q0 + r,
                r < rows,
                rows * self.cfg.q_width() <= usize::MAX,
                all == row_moves(self.cfg, self.cap as int, layer as int, pos as int, r as int),
                m@ == all.take(h as int),
        {
            proof {
                lemma_head_inside(rows as int, r as int, nqh as int, h as int, hd as int);
            }
            m.push(HeadMove::Query { at: r * (nqh * hd) + h * hd, pos });
            assert(m@ =~= all.take(h + 1));
        }
        for h in 0..nkvh
            invariant
                hd == self.cfg.head_dim,
                nqh == self.cfg.num_attention_heads,
                nkvh == self.cfg.num_key_value_heads,
                pos == q0 + r,
                r < rows,
                layer < self.cfg.num_hidden_layers,
                pass_fits(self.cfg, self.cap as int, q0 as int, rows as int),
                all == row_moves(self.cfg, self.cap as int, layer as int, pos as int, r as int),
                m@ == all.take(nqh + h),
        {
            proof {
                lemma_head_inside(rows as int, r as int, nkvh as int, h as int, hd as int);
            }
            let to: usize = self.kv_at(layer, h, pos);
            m.push(HeadMove::Store { from: r * (nkvh * hd) + h * hd, to, pos });
            assert(m@ =~= all.take(nqh + h + 1));
        }
        assert(all.take(nqh + nkvh) =~= all);
        m
    }

    /// The moves of a pass of `rows` rows from position `q0` on through a layer.
    pub fn moves(&self, layer: usize, q0: usize, rows: usize) -> (m: Vec<HeadMove>)
        requires
            layer < self.cfg.num_hidden_layers,
            pass_fits(self.cfg, self.cap as int, q0 as int, rows as int),
        ensures
            m@ == pass_moves(self.cfg, self.cap as int, layer as int, q0 as int, rows as nat),
    {
        let mut m: Vec<HeadMove> = Vec::new();
        for r in 0..rows
            invariant
                layer < self.cfg.num_hidden_layers,
                pass_fits(self.cfg, self.cap as int, q0 as int, rows as int),
                m@ == pass_moves(self.cfg, self.cap as int, layer as int, q0 as int, r as nat),
        {
            let mut one = self.moves_of_row(layer, q0, rows, r);
            m.append(&mut one);
        }
        m
    }
}

/// A pass stores every head of every row once: it makes one move for each query
/// head and one for each kv head of a row.
pub proof fn law_pass_moves_counted(cfg: TextConfig, cap: int, layer: int, q0: int, rows: nat)
    ensures
        pass_moves(cfg, cap, layer, q0, rows).len() == rows * (cfg.num_attention_heads + cfg.num_key_value_heads),
    decreases rows,
{
    let w = cfg.num_attention_heads + cfg.num_key_value_heads;
    if rows > 0 {
        law_pass_moves_counted(cfg, cap, layer, q0, (rows - 1) as nat);
        assert((rows - 1) * w + w == rows * w) by (nonlinear_arith);
    } else {
        assert(rows * w == 0) by (nonlinear_arith)
            requires
                rows == 0,
        ;
    }
}

/// Stage `s` of a layer reads what stage `p` of the same layer leaves.
pub open spec fn reads(s: Step, p: Step) -> bool {
    match s {
        Step::Norm1 => false,
        Step::Project => p == Step::Norm1,
        Step::Heads => p == Step::Project,
        Step::Attend => p == Step::Heads,
        Step::Out => p == Step::Attend,
        Step::Norm2 => p == Step::Out,
        Step::GateUp => p == Step::Norm2,
        Step::Down => p == Step::GateUp || p == Step::Out,
    }
}

/// Stage `s` writes the hidden rows.
pub open spec fn writes_hidden(s: Step) -> bool {
    s == Step::Out || s == Step::Down
}

/// Where a stage stands in a pass.
pub open spec fn runs_at(layers: nat, l: usize, s: Step, i: int) -> bool {
    0 <= i < pass(layers).len() && pass(layers)[i] == (l, s)
}

/// A pass runs every stage of every layer exactly once and nothing else.
pub proof fn law_pass_runs_each_stage_once(layers: nat, l: usize, s: Step)
    requires
        layers <= usize::MAX,
    ensures
        l < layers ==> exists|i: int| runs_at(layers, l, s, i),
        forall|i: int, j: int| #[trigger] runs_at(layers, l, s, i) && #[trigger] runs_at(layers, l, s, j) ==> i == j,
        forall|i: int| #[trigger] runs_at(layers, l, s, i) ==> l < layers,
{
    let k: int = match s {
        Step::Norm1 => 0,
        Step::Project => 1,
        Step::Heads => 2,
        Step::Attend => 3,
        Step::Out => 4,
        Step::Norm2 => 5,
        Step::GateUp => 6,
        Step::Down => 7,
    };
    if l < layers {
        assert((l * 8 + k) / 8 == l && (l * 8 + k) % 8 == k);
        assert(runs_at(layers, l, s, l * 8 + k));
    }
    assert forall|i: int| #[trigger] runs_at(layers, l, s, i) implies l < layers && i == l * 8 + k by {
        assert(i / 8 < layers && 0 <= i % 8 < 8 && i == i / 8 * 8 + i % 8);
    }
}

/// A pass respects its data flow: a stage comes behind every stage of its layer
/// that it reads from.
pub proof fn law_pass_respects_reads(layers: nat, l: usize, s: Step, p: Step, i: int, j: int)
    requires
        layers <= usize::MAX,
        reads(s, p),
        runs_at(layers, l, s, i),
        runs_at(layers, l, p, j),
    ensures
        j < i,
{
}

/// The hidden rows are read as the stage before left them: within a layer the
/// first norm comes before both updates of the hidden rows and the second norm
/// between them, and every stage of a layer comes before those of the next.
pub proof fn law_pass_updates_in_order(layers: nat, l: usize, i: int)
    requires
        layers <= usize::MAX,
    ensures
        forall|j: int, s: Step|
            #![trigger runs_at(layers, l, s, j)]
            runs_at(layers, l, Step::Norm1, i) && runs_at(layers, l, s, j) && writes_hidden(s) ==> i < j,
        forall|j: int|
            runs_at(layers, l, Step::Norm2, i) && #[trigger] runs_at(layers, l, Step::Out, j) ==> j < i,
        forall|j: int|
            runs_at(layers, l, Step::Norm2, i) && #[trigger] runs_at(layers, l, Step::Down, j) ==> i < j,
        forall|j: int, m: usize, s: Step, t: Step|
            #![trigger runs_at(layers, l, s, i), runs_at(layers, m, t, j)]
            runs_at(layers, l, s, i) && runs_at(layers, m, t, j) && l < m ==> i < j,
{
    assert forall|j: int, m: usize, s: Step, t: Step|
        #![trigger runs_at(layers, l, s, i), runs_at(layers, m, t, j)]
        runs_at(layers, l, s, i) && runs_at(layers, m, t, j) && l < m implies i < j by {
        assert(i / 8 == l && j / 8 == m);
    }
}

/// Every row of a pass is rotated at its own position, and its keys and values
/// go to the cache row of that position: row `r` of a pass from `q0` on stands
/// at `q0 + r`. A head is read from its own place in its row.
pub proof fn law_moves_keep_positions(cfg: TextConfig, cap: int, layer: int, q0: int, rows: nat, r: int, h: int)
    requires
        0 <= layer < cfg.num_hidden_layers,
        0 <= q0,
        cap <= usize::MAX,
        pass_fits(cfg, cap, q0, rows as int),
        0 <= r < rows,
        0 <= h < cfg.num_attention_heads + cfg.num_key_value_heads,
    ensures
        ({
            let w = cfg.num_attention_heads + cfg.num_key_value_heads;
            let m = pass_moves(cfg, cap, layer, q0, rows)[r * w + h];
            &&& 0 <= r * w + h < pass_moves(cfg, cap, layer, q0, rows).len()
            &&& h < cfg.num_attention_heads ==> m is Query && m->Query_pos == q0 + r && m->at == (r
                * cfg.num_attention_heads + h) * cfg.head_dim
            &&& h >= cfg.num_attention_heads ==> m is Store && m->Store_pos == q0 + r && m->from == (r
                * cfg.num_key_value_heads + (h - cfg.num_attention_heads)) * cfg.head_dim && m->to == ((layer
                * cfg.num_key_value_heads + (h - cfg.num_attention_heads)) * cap + q0 + r) * cfg.head_dim
        }),
    decreases rows,
{
    let w = cfg.num_attention_heads + cfg.num_key_value_heads;
    law_pass_moves_counted(cfg, cap, layer, q0, rows);
    law_pass_moves_counted(cfg, cap, layer, q0, (rows - 1) as nat);
    assert(0 <= r * w && r * w + w <= rows * w) by (nonlinear_arith)
        requires
            0 <= r < rows,
            w >= 0,
    ;
    let before = pass_moves(cfg, cap, layer, q0, (rows - 1) as nat);
    let one = row_moves(cfg, cap, layer, q0 + rows - 1, rows - 1);
    if r < rows - 1 {
        assert(r * w + w <= (rows - 1) * w) by (nonlinear_arith)
            requires
                r < rows - 1,
                w >= 0,
        ;
        assert((rows - 1) * cfg.q_width() <= rows * cfg.q_width()) by (nonlinear_arith)
            requires
                cfg.q_width() >= 0,
                rows >= 1,
        {
            assert((rows - 1) * cfg.q_width() == rows * cfg.q_width() - cfg.q_width()) by (nonlinear_arith);
        }
        assert((rows - 1) * cfg.kv_width() <= rows * cfg.kv_width()) by (nonlinear_arith)
            requires
                cfg.kv_width() >= 0,
                rows >= 1,
        {
            assert((rows - 1) * cfg.kv_width() == rows * cfg.kv_width() - cfg.kv_width()) by (nonlinear_arith);
        }
        law_moves_keep_positions(cfg, cap, layer, q0, (rows - 1) as nat, r, h);
        assert((before + one)[r * w + h] == before[r * w + h]);
    } else {
        assert((before + one)[r * w + h] == one[h]);
        let hd = cfg.head_dim as int;
        if h < cfg.num_attention_heads {
            let n = cfg.num_attention_heads as int;
            lemma_head_inside(rows as int, r, n, h, hd);
            assert(r * (n * hd) + h * hd == (r * n + h) * hd) by (nonlinear_arith);
        } else {
            let n = cfg.num_key_value_heads as int;
            let g = h - cfg.num_attention_heads;
            lemma_head_inside(rows as int, r, n, g, hd);
            assert(r * (n * hd) + g * hd == (r * n + g) * hd) by (nonlinear_arith);
            law_kv_row_inside(cfg, cap, layer, g, q0 + r);
            let p = q0 + r;
            assert(layer * n * (cap * hd) + g * (cap * hd) + p * hd == ((layer * n + g) * cap + p) * hd) by (nonlinear_arith);
        }
    }
}

} // verus!
