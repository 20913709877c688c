//! What a pass of the host text decoder computes: its stages, run over symbolic
//! values, give what a decode step gives.
use vstd::prelude::*;

use crate::cpu_forward::{pass, Step};
use crate::decoder::TextConfig;
use crate::decoder_model::{attended, fed_forward, hidden, mixed_in, projected};
use crate::decoder_ops::Buf;
use crate::machine::{got, Val};

verus! {

/// What the host decoder holds between two stages.
pub struct Host {
    /// The hidden row.
    pub x: Val,
    /// Its last normalised form.
    pub n: Val,
    pub qkv: Val,
    pub q: Val,
    pub k: Val,
    pub v: Val,
    /// The result of attention.
    pub a: Val,
    /// The result of gate and up.
    pub g: Val,
}

/// A stage of layer `l` for the row at position `pos`.
pub open spec fn acts(
    cfg: TextConfig,
    m: Map<Buf, Val>,
    slots: int,
    pos: int,
    scale_bits: u32,
    l: usize,
    s: Step,
    h: Host,
) -> Host {
    let eps_bits = cfg.rms_norm_eps_bits;
    match s {
        Step::Norm1 => Host {
            n: Val::Norm { x: Box::new(h.x), w: Box::new(got(m, Buf::IlnW(l))), eps_bits },
            ..h
        },
        Step::Project => Host {
            qkv: Val::Times { x: Box::new(h.n), w: Box::new(got(m, Buf::QkvW(l))) },
            ..h
        },
        Step::Heads => Host {
            q: Val::Queries {
                qkv: Box::new(h.qkv),
                w: Box::new(got(m, Buf::QnW(l))),
                cos: Box::new(got(m, Buf::Cos)),
                sin: Box::new(got(m, Buf::Sin)),
                at: pos,
                eps_bits,
            },
            k: Val::Keys {
                was: Box::new(got(m, Buf::KCache(l))),
                qkv: Box::new(h.qkv),
                w: Box::new(got(m, Buf::KnW(l))),
                cos: Box::new(got(m, Buf::Cos)),
                sin: Box::new(got(m, Buf::Sin)),
                slots,
                slot: pos,
                at: pos,
                rows: 1,
                eps_bits,
            },
            v: Val::Values { was: Box::new(got(m, Buf::VCache(l))), qkv: Box::new(h.qkv), slots, slot: pos, rows: 1 },
            ..h
        },
        Step::Attend => Host {
            a: Val::Attend {
                q: Box::new(h.q),
                k: Box::new(h.k),
                v: Box::new(h.v),
                rows: 1,
                keys: pos + 1,
                scale_bits,
            },
            ..h
        },
        Step::Out => Host {
            x: Val::Plus {
                x: Box::new(h.x),
                y: Box::new(Val::Times { x: Box::new(h.a), w: Box::new(got(m, Buf::OW(l))) }),
            },
            ..h
        },
        Step::Norm2 => Host {
            n: Val::Norm { x: Box::new(h.x), w: Box::new(got(m, Buf::PlnW(l))), eps_bits },
            ..h
        },
        Step::GateUp => Host {
            g: Val::Gated { x: Box::new(Val::Times { x: Box::new(h.n), w: Box::new(got(m, Buf::GuW(l))) }) },
            ..h
        },
        Step::Down => Host {
            x: Val::Plus {
                x: Box::new(h.x),
                y: Box::new(Val::Times { x: Box::new(h.g), w: Box::new(got(m, Buf::DpW(l))) }),
            },
            ..h
        },
    }
}

/// The first `n` stages of a list.
pub open spec fn carried(
    cfg: TextConfig,
    m: Map<Buf, Val>,
    slots: int,
    pos: int,
    scale_bits: u32,
    s: Seq<(usize, Step)>,
    n: nat,
    h: Host,
) -> Host
    decreases n,
{
    if n == 0 {
        h
    } else {
        let (l, step) = s[n - 1];
        acts(cfg, m, slots, pos, scale_bits, l, step, carried(cfg, m, slots, pos, scale_bits, s, (n - 1) as nat, h))
    }
}

proof fn lemma_carried(
    cfg: TextConfig,
    m: Map<Buf, Val>,
    slots: int,
    pos: int,
    scale_bits: u32,
    layers: nat,
    n: nat,
    h: Host,
)
    requires
        n <= layers <= usize::MAX,
    ensures
        carried(cfg, m, slots, pos, scale_bits, pass(layers), 8 * n, h).x == hidden(
            cfg,
            m,
            h.x,
            n,
            slots,
            pos,
            scale_bits,
        ),
    decreases n,
{
    if n > 0 {
        let k = (n - 1) as nat;
        let l = k as usize;
        lemma_carried(cfg, m, slots, pos, scale_bits, layers, k, h);
        let s = pass(layers);
        let b = 8 * k;
        assert(s[b as int] == (l, Step::Norm1)) by {
            assert(b as int / 8 == k && b as int % 8 == 0);
        }
        assert(s[(b + 1) as int] == (l, Step::Project)) by {
            assert((b + 1) as int / 8 == k && (b + 1) as int % 8 == 1);
        }
        assert(s[(b + 2) as int] == (l, Step::Heads)) by {
            assert((b + 2) as int / 8 == k && (b + 2) as int % 8 == 2);
        }
        assert(s[(b + 3) as int] == (l, Step::Attend)) by {
            assert((b + 3) as int / 8 == k && (b + 3) as int % 8 == 3);
        }
        assert(s[(b + 4) as int] == (l, Step::Out)) by {
            assert((b + 4) as int / 8 == k && (b + 4) as int % 8 == 4);
        }
        assert(s[(b + 5) as int] == (l, Step::Norm2)) by {
            assert((b + 5) as int / 8 == k && (b + 5) as int % 8 == 5);
        }
        assert(s[(b + 6) as int] == (l, Step::GateUp)) by {
            assert((b + 6) as int / 8 == k && (b + 6) as int % 8 == 6);
        }
        assert(s[(b + 7) as int] == (l, Step::Down)) by {
            assert((b + 7) as int / 8 == k && (b + 7) as int % 8 == 7);
        }
        reveal_with_fuel(carried, 9);
        let h0 = carried(cfg, m, slots, pos, scale_bits, s, b, h);
        let h1 = acts(cfg, m, slots, pos, scale_bits, l, Step::Norm1, h0);
        let h2 = acts(cfg, m, slots, pos, scale_bits, l, Step::Project, h1);
        let h3 = acts(cfg, m, slots, pos, scale_bits, l, Step::Heads, h2);
        let h4 = acts(cfg, m, slots, pos, scale_bits, l, Step::Attend, h3);
        let h5 = acts(cfg, m, slots, pos, scale_bits, l, Step::Out, h4);
        let h6 = acts(cfg, m, slots, pos, scale_bits, l, Step::Norm2, h5);
        let h7 = acts(cfg, m, slots, pos, scale_bits, l, Step::GateUp, h6);
        let h8 = acts(cfg, m, slots, pos, scale_bits, l, Step::Down, h7);
        assert(carried(cfg, m, slots, pos, scale_bits, s, b + 1, h) == h1);
        assert(carried(cfg, m, slots, pos, scale_bits, s, b + 2, h) == h2);
        assert(carried(cfg, m, slots, pos, scale_bits, s, b + 3, h) == h3);
        assert(carried(cfg, m, slots, pos, scale_bits, s, b + 4, h) == h4);
        assert(carried(cfg, m, slots, pos, scale_bits, s, b + 5, h) == h5);
        assert(carried(cfg, m, slots, pos, scale_bits, s, b + 6, h) == h6);
        assert(carried(cfg, m, slots, pos, scale_bits, s, b + 7, h) == h7);
        assert(carried(cfg, m, slots, pos, scale_bits, s, b + 8, h) == h8);
        assert(h2.qkv == projected(cfg, m, l, h0.x));
        assert(h4.a == attended(cfg, m, l, h0.x, slots, pos, scale_bits));
        assert(h5.x == mixed_in(m, l, h0.x, h4.a));
        assert(h8.x == fed_forward(cfg, m, l, h5.x));
    }
}

/// A pass of the host decoder computes the model: its stages, each doing what it
/// is for with what the stages before it left, give the hidden row that a decode
/// step gives.
pub proof fn law_pass_computes(
    cfg: TextConfig,
    m: Map<Buf, Val>,
    slots: int,
    pos: int,
    scale_bits: u32,
    layers: nat,
    h: Host,
)
    requires
        layers <= usize::MAX,
    ensures
        carried(cfg, m, slots, pos, scale_bits, pass(layers), pass(layers).len(), h).x == hidden(
            cfg,
            m,
            h.x,
            layers,
            slots,
            pos,
            scale_bits,
        ),
{
    lemma_carried(cfg, m, slots, pos, scale_bits, layers, layers, h);
    assert(pass(layers).len() == 8 * layers);
}

} // verus!
