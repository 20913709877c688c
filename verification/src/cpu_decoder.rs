//! The host text decoder: its ledger, its checks and where it keeps what.
use vstd::prelude::*;

use crate::decoder::{grow_target, grown_cap, TextConfig, KV_INITIAL_CAP, KV_STEP};
use crate::geometry::align_up;
use crate::text::{dec, lit, push_dec};

verus! {

/// Why the host decoder refuses.
#[derive(Clone, Copy, Debug, PartialEq, Eq, Structural)]
pub enum CpuError {
    /// No vocabulary, no width or no layers.
    Degenerate,
    /// There are no kv heads, or the query heads are not a multiple of them.
    Heads { heads: usize, kv_heads: usize },
    /// Fewer hidden states than positions.
    HiddenSize,
    /// More positions than the ceiling.
    TooLong { need: usize, max_seq: usize },
    /// A step past the ceiling.
    PastEnd { max_seq: usize },
}

/// Rejects a configuration that the decoder cannot run.
pub fn check_config(cfg: &TextConfig) -> (r: Result<(), CpuError>)
    ensures
        r == if cfg.vocab_size == 0 || cfg.hidden_size == 0 || cfg.num_hidden_layers == 0 {
            Err::<(), CpuError>(CpuError::Degenerate)
        } else if cfg.num_key_value_heads == 0 || cfg.num_attention_heads % cfg.num_key_value_heads != 0 {
            Err(CpuError::Heads { heads: cfg.num_attention_heads, kv_heads: cfg.num_key_value_heads })
        } else {
            Ok(())
        },
{
    if cfg.vocab_size == 0 || cfg.hidden_size == 0 || cfg.num_hidden_layers == 0 {
        return Err(CpuError::Degenerate);
    }
    if cfg.num_key_value_heads == 0 || cfg.num_attention_heads % cfg.num_key_value_heads != 0 {
        return Err(CpuError::Heads { heads: cfg.num_attention_heads, kv_heads: cfg.num_key_value_heads });
    }
    Ok(())
}

impl CpuError {
    /// The error in words.
    pub open spec fn text(self) -> Seq<char> {
        match self {
            CpuError::Degenerate => "degenerate text config"@,
            CpuError::Heads { heads, kv_heads } => dec(heads as nat) + " heads are not a multiple of "@ + dec(
                kv_heads as nat,
            ) + " kv heads"@,
            CpuError::HiddenSize => "prefill hidden size mismatch"@,
            CpuError::TooLong { need, max_seq } => "prefill needs "@ + dec(need as nat) + " positions, max_seq is "@
                + dec(max_seq as nat),
            CpuError::PastEnd { max_seq } => "decode past max_seq "@ + dec(max_seq as nat),
        }
    }

    /// The error in words.
    pub fn message(&self) -> (r: String)
        ensures
            r@ == self.text(),
    {
        match *self {
            CpuError::Degenerate => lit("degenerate text config"),
            CpuError::Heads { heads, kv_heads } => {
                let mut s = String::new();
                push_dec(&mut s, heads);
                s.append(" heads are not a multiple of ");
                push_dec(&mut s, kv_heads);
                s.append(" kv heads");
                assert(s@ =~= self.text());
                s
            },
            CpuError::HiddenSize => lit("prefill hidden size mismatch"),
            CpuError::TooLong { need, max_seq } => {
                let mut s = lit("prefill needs ");
                push_dec(&mut s, need);
                s.append(" positions, max_seq is ");
                push_dec(&mut s, max_seq);
                s
            },
            CpuError::PastEnd { max_seq } => {
                let mut s = lit("decode past max_seq ");
                push_dec(&mut s, max_seq);
                s
            },
        }
    }
}

/// Whether an embedding table of this shape fits the configuration.
pub fn embed_fits(cfg: &TextConfig, shape: &[usize]) -> (r: bool)
    ensures
        r == (shape@ == seq![cfg.vocab_size, cfg.hidden_size]),
{
    if shape.len() != 2 {
        return false;
    }
    let r = shape[0] == cfg.vocab_size && shape[1] == cfg.hidden_size;
    proof {
        if r {
            assert(shape@ =~= seq![cfg.vocab_size, cfg.hidden_size]);
        } else {
            let want = seq![cfg.vocab_size, cfg.hidden_size];
            assert(want[0] == cfg.vocab_size && want[1] == cfg.hidden_size);
        }
    }
    r
}

/// The host decoder's ledger.
#[derive(Clone, Copy, Debug, PartialEq, Eq, Structural)]
pub struct CpuTextDecoder {
    pub cfg: TextConfig,
    pub max_seq: usize,
    pub cap: usize,
    pub pos: usize,
    /// The token that the next step embeds.
    pub last_token: u32,
}

/// Where row `pos` of a head begins in a layer's cache of `cap` slots.
pub open spec fn kv_row(cfg: TextConfig, cap: int, layer: int, head: int, pos: int) -> int {
    layer * cfg.num_key_value_heads * (cap * cfg.head_dim) + head * (cap * cfg.head_dim) + pos * cfg.head_dim
}

/// Elements of the key (or value) cache of every layer.
pub open spec fn kv_elems(cfg: TextConfig, cap: int) -> int {
    cfg.num_hidden_layers * cfg.num_key_value_heads * (cap * cfg.head_dim)
}

impl CpuTextDecoder {
    /// No more slots than the ceiling allows.
    pub open spec fn wf(self) -> bool {
        self.cap <= self.max_seq
    }

    /// A decoder right after load.
    pub fn new(cfg: TextConfig, max_seq: usize) -> (r: CpuTextDecoder)
        ensures
            r.wf(),
            r.cfg == cfg,
            r.max_seq == max_seq,
            r.cap == (if KV_INITIAL_CAP < max_seq {
                KV_INITIAL_CAP
            } else {
                max_seq
            }),
            r.pos == 0,
            r.last_token == 0,
    {
        CpuTextDecoder {
            cfg,
            max_seq,
            cap: if KV_INITIAL_CAP < max_seq {
                KV_INITIAL_CAP
            } else {
                max_seq
            },
            pos: 0,
            last_token: 0,
        }
    }

    /// Grows the caches to hold `need` positions and returns their capacity.
    /// Where it changes the caches are allocated anew.
    pub fn ensure_capacity(&mut self, need: usize) -> (r: usize)
        requires
            old(self).wf(),
            align_up(need as int, KV_STEP as int) <= usize::MAX,
        ensures
            final(self).wf(),
            r == final(self).cap,
            *final(self) == (CpuTextDecoder {
                cap: grown_cap(need as int, old(self).max_seq as int, old(self).cap as int) as usize,
                ..*old(self)
            }),
            final(self).cap == grown_cap(need as int, old(self).max_seq as int, old(self).cap as int),
    {
        self.cap = grow_target(need, self.max_seq, self.cap);
        self.cap
    }

    /// Elements of the key (or value) cache.
    pub fn cache_len(&self) -> (r: usize)
        requires
            self.cfg.num_hidden_layers * self.cfg.num_key_value_heads <= usize::MAX,
            self.cap * self.cfg.head_dim <= usize::MAX,
            kv_elems(self.cfg, self.cap as int) <= usize::MAX,
        ensures
            r == kv_elems(self.cfg, self.cap as int),
    {
        self.cfg.num_hidden_layers * self.cfg.num_key_value_heads * (self.cap * self.cfg.head_dim)
    }

    /// Where row `pos` of a head begins in the cache.
    pub fn kv_at(&self, layer: usize, head: usize, pos: usize) -> (r: usize)
        requires
            layer < self.cfg.num_hidden_layers,
            head < self.cfg.num_key_value_heads,
            pos < self.cap,
            self.cfg.num_hidden_layers * self.cfg.num_key_value_heads <= usize::MAX,
            kv_elems(self.cfg, self.cap as int) <= usize::MAX,
        ensures
            r == kv_row(self.cfg, self.cap as int, layer as int, head as int, pos as int),
            r + self.cfg.head_dim <= kv_elems(self.cfg, self.cap as int),
    {
        proof {
            law_kv_row_inside(self.cfg, self.cap as int, layer as int, head as int, pos as int);
        }
        layer * self.cfg.num_key_value_heads * (self.cap * self.cfg.head_dim) + head * (self.cap * self.cfg.head_dim)
            + pos * self.cfg.head_dim
    }

    /// The kv head that a query head reads.
    pub fn kv_head(&self, h: usize) -> (r: usize)
        requires
            self.cfg.num_key_value_heads > 0,
            self.cfg.num_attention_heads >= self.cfg.num_key_value_heads,
        ensures
            r == h / (self.cfg.num_attention_heads / self.cfg.num_key_value_heads),
            r * (self.cfg.num_attention_heads / self.cfg.num_key_value_heads) <= h < (r + 1) * (
            self.cfg.num_attention_heads / self.cfg.num_key_value_heads),
            h < self.cfg.num_attention_heads && self.cfg.num_attention_heads as int % self.cfg.num_key_value_heads as int
                == 0 ==> r < self.cfg.num_key_value_heads,
    {
        proof {
            let a = self.cfg.num_attention_heads as int;
            let b = self.cfg.num_key_value_heads as int;
            assert(a / b >= 1) by (nonlinear_arith)
                requires
                    a >= b,
                    b > 0,
            ;
            let rep = a / b;
            let r = h as int / rep;
            assert(r * rep <= h < (r + 1) * rep) by (nonlinear_arith)
                requires
                    r == h as int / rep,
                    rep >= 1,
                    h >= 0,
            ;
            if h < a && a % b == 0 {
                assert(a == rep * b) by (nonlinear_arith)
                    requires
                        rep == a / b,
                        a % b == 0,
                        b > 0,
                ;
                assert(r < b) by (nonlinear_arith)
                    requires
                        r * rep <= h,
                        h < a,
                        a == rep * b,
                        rep >= 1,
                ;
            }
        }
        h / (self.cfg.num_attention_heads / self.cfg.num_key_value_heads)
    }

    /// Keys that the query at `pos` attends to: those up to itself.
    pub fn visible(&self, pos: usize) -> (r: usize)
        requires
            pos < usize::MAX,
        ensures
            r == if pos + 1 < self.cap {
                pos + 1
            } else {
                self.cap as int
            },
    {
        if pos + 1 < self.cap {
            pos + 1
        } else {
            self.cap
        }
    }

    /// Checks a prefill of `s` positions from `kv_start` on and returns the bytes
    /// of hidden states it reads.
    pub fn prefill(&self, hidden_len: usize, s: usize, kv_start: usize) -> (r: Result<usize, CpuError>)
        requires
            s * self.cfg.hidden_size * 2 <= usize::MAX,
            s * self.cfg.hidden_size <= usize::MAX,
            kv_start + s <= usize::MAX,
        ensures
            r == if hidden_len < s * self.cfg.hidden_size * 2 {
                Err::<usize, CpuError>(CpuError::HiddenSize)
            } else if kv_start + s > self.max_seq {
                Err(CpuError::TooLong { need: (kv_start + s) as usize, max_seq: self.max_seq })
            } else {
                Ok((s * self.cfg.hidden_size * 2) as usize)
            },
    {
        let bytes: usize = s * self.cfg.hidden_size * 2;
        if hidden_len < bytes {
            return Err(CpuError::HiddenSize);
        }
        if kv_start + s > self.max_seq {
            return Err(CpuError::TooLong { need: kv_start + s, max_seq: self.max_seq });
        }
        Ok(bytes)
    }

    /// Takes note of a prefill that ended in `token`.
    pub fn prefilled(&mut self, s: usize, kv_start: usize, token: i32)
        requires
            kv_start + s <= usize::MAX,
        ensures
            *final(self) == (CpuTextDecoder {
                pos: (kv_start + s) as usize,
                last_token: token as u32,
                ..*old(self)
            }),
    {
        self.pos = kv_start + s;
        self.last_token = token as u32;
    }

    /// Checks a step and returns the token to embed and the position to run.
    pub fn step(&self) -> (r: Result<(u32, usize), CpuError>)
        ensures
            r == if self.pos < self.max_seq {
                Ok::<(u32, usize), CpuError>((self.last_token, self.pos))
            } else {
                Err(CpuError::PastEnd { max_seq: self.max_seq })
            },
    {
        if self.pos < self.max_seq {
            Ok((self.last_token, self.pos))
        } else {
            Err(CpuError::PastEnd { max_seq: self.max_seq })
        }
    }

    /// Takes note of a step that gave `token`.
    pub fn stepped(&mut self, token: i32)
        requires
            old(self).pos < old(self).max_seq,
        ensures
            *final(self) == (CpuTextDecoder {
                pos: (old(self).pos + 1) as usize,
                last_token: token as u32,
                ..*old(self)
            }),
    {
        self.pos = self.pos + 1;
        self.last_token = token as u32;
    }

    /// The decoder on one line.
    pub fn describe(&self) -> (r: String)
        ensures
            r@ == "cpu decoder: "@ + dec(self.cfg.num_hidden_layers as nat) + " layers, hidden "@ + dec(
                self.cfg.hidden_size as nat,
            ) + ", "@ + dec(self.cfg.num_attention_heads as nat) + " heads ("@ + dec(
                self.cfg.num_key_value_heads as nat,
            ) + " kv), max_seq "@ + dec(self.max_seq as nat) + ", f16 weights"@,
    {
        let mut s = lit("cpu decoder: ");
        push_dec(&mut s, self.cfg.num_hidden_layers);
        s.append(" layers, hidden ");
        push_dec(&mut s, self.cfg.hidden_size);
        s.append(", ");
        push_dec(&mut s, self.cfg.num_attention_heads);
        s.append(" heads (");
        push_dec(&mut s, self.cfg.num_key_value_heads);
        s.append(" kv), max_seq ");
        push_dec(&mut s, self.max_seq);
        s.append(", f16 weights");
        s
    }
}

/// The partner of dimension `j` in a rotation of `hd` dimensions, and whether it
/// enters negated: the halves rotate against each other.
pub fn rope_partner(hd: usize, j: usize) -> (r: (usize, bool))
    requires
        j < hd,
        hd % 2 == 0,
    ensures
        r == if j < hd / 2 {
            ((j + hd / 2) as usize, true)
        } else {
            ((j - hd / 2) as usize, false)
        },
        r.0 < hd,
{
    let half: usize = hd / 2;
    if j < half {
        (j + half, true)
    } else {
        (j - half, false)
    }
}

/// Partners are mutual, and of two partners exactly one enters negated.
pub proof fn law_partners_mutual(hd: int, j: int)
    requires
        0 <= j < hd,
        hd % 2 == 0,
    ensures
        ({
            let half = hd / 2;
            let p = if j < half {
                j + half
            } else {
                j - half
            };
            &&& 0 <= p < hd
            &&& (p < half) != (j < half)
            &&& j == if p < half {
                p + half
            } else {
                p - half
            }
        }),
{
}

/// A row of the cache lies inside it.
pub proof fn law_kv_row_inside(cfg: TextConfig, cap: int, layer: int, head: int, pos: int)
    requires
        0 <= layer < cfg.num_hidden_layers,
        0 <= head < cfg.num_key_value_heads,
        0 <= pos < cap,
    ensures
        0 <= kv_row(cfg, cap, layer, head, pos),
        kv_row(cfg, cap, layer, head, pos) + cfg.head_dim <= kv_elems(cfg, cap),
        0 <= cap * cfg.head_dim <= kv_elems(cfg, cap),
        0 <= layer * cfg.num_key_value_heads <= cfg.num_hidden_layers * cfg.num_key_value_heads,
        layer * cfg.num_key_value_heads * (cap * cfg.head_dim) <= kv_elems(cfg, cap),
        0 <= head * (cap * cfg.head_dim) <= kv_elems(cfg, cap),
        0 <= layer * cfg.num_key_value_heads * (cap * cfg.head_dim),
        0 <= pos * cfg.head_dim <= kv_elems(cfg, cap),
{
    let hd = cfg.head_dim as int;
    let kv = cfg.num_key_value_heads as int;
    let nl = cfg.num_hidden_layers as int;
    let stride = cap * hd;
    assert(0 <= pos * hd && pos * hd + hd <= stride) by (nonlinear_arith)
        requires
            0 <= pos < cap,
            hd >= 0,
            stride == cap * hd,
    ;
    assert(0 <= head * stride && head * stride + stride <= kv * stride) by (nonlinear_arith)
        requires
            0 <= head < kv,
            stride >= 0,
    ;
    assert(0 <= layer * kv && layer * kv + kv <= nl * kv) by (nonlinear_arith)
        requires
            0 <= layer < nl,
            kv >= 0,
    ;
    assert(0 <= layer * kv * stride && layer * kv * stride + kv * stride <= nl * kv * stride) by (nonlinear_arith)
        requires
            0 <= layer * kv,
            layer * kv + kv <= nl * kv,
            stride >= 0,
    ;
}

/// Rows of different layers, heads or positions do not overlap.
pub proof fn law_kv_rows_apart(
    cfg: TextConfig,
    cap: int,
    l1: int,
    h1: int,
    p1: int,
    l2: int,
    h2: int,
    p2: int,
)
    requires
        0 <= l1 < cfg.num_hidden_layers,
        0 <= l2 < cfg.num_hidden_layers,
        0 <= h1 < cfg.num_key_value_heads,
        0 <= h2 < cfg.num_key_value_heads,
        0 <= p1 < cap,
        0 <= p2 < cap,
        (l1, h1, p1) != (l2, h2, p2),
    ensures
        kv_row(cfg, cap, l1, h1, p1) + cfg.head_dim <= kv_row(cfg, cap, l2, h2, p2) || kv_row(cfg, cap, l2, h2, p2)
            + cfg.head_dim <= kv_row(cfg, cap, l1, h1, p1),
{
    if l1 < l2 || (l1 == l2 && (h1 < h2 || (h1 == h2 && p1 < p2))) {
        lemma_kv_rows_ascend(cfg, cap, l1, h1, p1, l2, h2, p2);
    } else {
        lemma_kv_rows_ascend(cfg, cap, l2, h2, p2, l1, h1, p1);
    }
}

proof fn lemma_kv_rows_ascend(
    cfg: TextConfig,
    cap: int,
    l1: int,
    h1: int,
    p1: int,
    l2: int,
    h2: int,
    p2: int,
)
    requires
        0 <= l1 <= l2,
        0 <= h1 < cfg.num_key_value_heads,
        0 <= h2 < cfg.num_key_value_heads,
        0 <= p1 < cap,
        0 <= p2 < cap,
        l1 < l2 || (l1 == l2 && (h1 < h2 || (h1 == h2 && p1 < p2))),
    ensures
        kv_row(cfg, cap, l1, h1, p1) + cfg.head_dim <= kv_row(cfg, cap, l2, h2, p2),
{
    let hd = cfg.head_dim as int;
    let kv = cfg.num_key_value_heads as int;
    let stride = cap * hd;
    assert(0 <= p2 * hd && p1 * hd + hd <= stride && stride >= 0) by (nonlinear_arith)
        requires
            0 <= p1 < cap,
            0 <= p2 < cap,
            hd >= 0,
            stride == cap * hd,
    ;
    assert(0 <= h2 * stride && h1 * stride + stride <= kv * stride) by (nonlinear_arith)
        requires
            0 <= h1 < kv,
            0 <= h2,
            stride >= 0,
    ;
    if l1 < l2 {
        assert(l1 * kv * stride + kv * stride <= l2 * kv * stride) by (nonlinear_arith)
            requires
                l1 + 1 <= l2,
                kv >= 0,
                stride >= 0,
        ;
    } else if h1 < h2 {
        assert(h1 * stride + stride <= h2 * stride) by (nonlinear_arith)
            requires
                h1 + 1 <= h2,
                stride >= 0,
        ;
    } else {
        assert(p1 * hd + hd <= p2 * hd) by (nonlinear_arith)
            requires
                p1 + 1 <= p2,
                hd >= 0,
        ;
    }
}

} // verus!
