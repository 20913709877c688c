//! Everything that a decoder is made of: its pipelines, its buffers, the tensors
//! that fill them, and the uniforms that never change.
use vstd::prelude::*;

use crate::decoder::{kv_words, Switches, TextConfig, WgpuTextDecoder, KV_INITIAL_CAP};
use crate::decoder_load::{
    check_embed, constant_uniforms, constants, joined, layer_groups, layer_name, layer_prefix, scratch, scratch_allocs,
    scratch_fits, EmbedMismatch,
};
use crate::decoder_ops::{Buf, Group, Kernel, Op};
use crate::decoder_prefill::{stored, Alloc};
use crate::pipelines::{built_kernels, pipeline_of, pipelines, PipelineSpec};
use crate::score::texts;

verus! {

/// How tensors fill a buffer.
#[derive(Clone, Copy, Debug, PartialEq, Eq, Structural)]
pub enum Form {
    Matrix,
    Vector,
    /// Matrices one behind the other.
    Fused,
}

/// A buffer that is filled from tensors.
#[derive(Debug)]
pub struct Fill {
    pub buf: Buf,
    pub form: Form,
    pub names: Vec<String>,
}

/// A fill as a value.
pub open spec fn fill(f: Fill) -> (Buf, Form, Seq<Seq<char>>) {
    (f.buf, f.form, texts(f.names@))
}

/// Fills as values.
pub open spec fn fills(v: Seq<Fill>) -> Seq<(Buf, Form, Seq<Seq<char>>)> {
    v.map_values(|f: Fill| fill(f))
}

/// What fills the buffers of layer `l`, in the order they are uploaded.
pub open spec fn layer_fills(prefix: Seq<char>, l: usize) -> Seq<(Buf, Form, Seq<Seq<char>>)> {
    let p = layer_name(prefix, l as nat);
    seq![
        (
            Buf::QkvW(l),
            Form::Fused,
            seq![
                p + ".self_attn.q_proj.weight"@,
                p + ".self_attn.k_proj.weight"@,
                p + ".self_attn.v_proj.weight"@,
            ],
        ),
        (Buf::OW(l), Form::Matrix, seq![p + ".self_attn.o_proj.weight"@]),
        (Buf::GuW(l), Form::Fused, seq![p + ".mlp.gate_proj.weight"@, p + ".mlp.up_proj.weight"@]),
        (Buf::DpW(l), Form::Matrix, seq![p + ".mlp.down_proj.weight"@]),
        (Buf::IlnW(l), Form::Vector, seq![p + ".input_layernorm.weight"@]),
        (Buf::PlnW(l), Form::Vector, seq![p + ".post_attention_layernorm.weight"@]),
        (Buf::QnW(l), Form::Vector, seq![p + ".self_attn.q_norm.weight"@]),
        (Buf::KnW(l), Form::Vector, seq![p + ".self_attn.k_norm.weight"@]),
    ]
}

/// What fills the buffers of a decoder of `n` layers: the embedding table, the
/// final norm, then layer by layer.
pub open spec fn load_fills(prefix: Seq<char>, n: nat) -> Seq<(Buf, Form, Seq<Seq<char>>)> {
    Seq::new(
        2 + 8 * n,
        |i: int|
            if i == 0 {
                (Buf::EmbedTable, Form::Matrix, seq![prefix + ".embed_tokens.weight"@])
            } else if i == 1 {
                (Buf::FinalNormW, Form::Vector, seq![prefix + ".norm.weight"@])
            } else {
                layer_fills(prefix, ((i - 2) / 8) as usize)[(i - 2) % 8]
            },
    )
}

fn single(buf: Buf, form: Form, prefix: &str, tail: &str) -> (r: Fill)
    ensures
        fill(r) == (buf, form, seq![prefix@ + tail@]),
{
    let name = joined(prefix, tail);
    let r = Fill { buf, form, names: vec![name] };
    assert(texts(r.names@) =~= seq![prefix@ + tail@]);
    r
}

fn layer_filled(prefix: &str, l: usize) -> (r: Vec<Fill>)
    ensures
        fills(r@) == layer_fills(prefix@, l),
{
    let p = layer_prefix(prefix, l);
    let s = p.as_str();
    let q = joined(s, ".self_attn.q_proj.weight");
    let k = joined(s, ".self_attn.k_proj.weight");
    let v = joined(s, ".self_attn.v_proj.weight");
    let qkv = Fill { buf: Buf::QkvW(l), form: Form::Fused, names: vec![q, k, v] };
    assert(texts(qkv.names@) =~= seq![q@, k@, v@]);
    let g = joined(s, ".mlp.gate_proj.weight");
    let u = joined(s, ".mlp.up_proj.weight");
    let gu = Fill { buf: Buf::GuW(l), form: Form::Fused, names: vec![g, u] };
    assert(texts(gu.names@) =~= seq![g@, u@]);
    let r = vec![
        qkv,
        single(Buf::OW(l), Form::Matrix, s, ".self_attn.o_proj.weight"),
        gu,
        single(Buf::DpW(l), Form::Matrix, s, ".mlp.down_proj.weight"),
        single(Buf::IlnW(l), Form::Vector, s, ".input_layernorm.weight"),
        single(Buf::PlnW(l), Form::Vector, s, ".post_attention_layernorm.weight"),
        single(Buf::QnW(l), Form::Vector, s, ".self_attn.q_norm.weight"),
        single(Buf::KnW(l), Form::Vector, s, ".self_attn.k_norm.weight"),
    ];
    assert(fills(r@) =~= layer_fills(prefix@, l));
    r
}

/// What fills a decoder's buffers, in the order they are uploaded.
pub fn weight_fills(prefix: &str, layers: usize) -> (r: Vec<Fill>)
    requires
        layers * 8 + 2 <= usize::MAX,
    ensures
        fills(r@) == load_fills(prefix@, layers as nat),
{
    let mut r: Vec<Fill> = vec![
        single(Buf::EmbedTable, Form::Matrix, prefix, ".embed_tokens.weight"),
        single(Buf::FinalNormW, Form::Vector, prefix, ".norm.weight"),
    ];
    assert(fills(r@) =~= load_fills(prefix@, 0));
    for l in 0..layers
        invariant
            fills(r@) == load_fills(prefix@, l as nat),
    {
        let ghost before = r@;
        let mut one = layer_filled(prefix, l);
        let ghost added = one@;
        r.append(&mut one);
        proof {
            let was = load_fills(prefix@, l as nat);
            let now = load_fills(prefix@, (l + 1) as nat);
            assert(fills(r@) =~= fills(before) + fills(added));
            assert forall|i: int| 0 <= i < now.len() implies #[trigger] now[i] == (was + layer_fills(prefix@, l))[i] by {
                if i < was.len() {
                } else {
                    assert((i - 2) / 8 == l);
                    assert((i - 2) % 8 == i - was.len());
                }
            }
            assert(now =~= was + layer_fills(prefix@, l));
        }
    }
    r
}

/// The caches of `n` layers, each half of `bytes`.
pub open spec fn cache_allocs(bytes: int, n: nat) -> Seq<Alloc> {
    Seq::new(
        2 * n,
        |i: int|
            stored(
                if i % 2 == 0 {
                    Buf::KCache((i / 2) as usize)
                } else {
                    Buf::VCache((i / 2) as usize)
                },
                bytes,
            ),
    )
}

/// The caches to create: after load, and again whenever the cache grows.
pub fn caches(layers: usize, bytes: u64) -> (r: Vec<Alloc>)
    requires
        layers * 2 <= usize::MAX,
    ensures
        r@ == cache_allocs(bytes as int, layers as nat),
{
    let mut r: Vec<Alloc> = Vec::new();
    for l in 0..layers
        invariant
            r@ =~= cache_allocs(bytes as int, l as nat),
    {
        r.push(Alloc { buf: Buf::KCache(l), bytes, uniform: false });
        r.push(Alloc { buf: Buf::VCache(l), bytes, uniform: false });
    }
    r
}

/// A decoder that has run nothing.
pub open spec fn fresh(cfg: TextConfig, max_seq: usize) -> WgpuTextDecoder {
    WgpuTextDecoder {
        cfg,
        max_seq,
        cap: if KV_INITIAL_CAP < max_seq {
            KV_INITIAL_CAP
        } else {
            max_seq
        },
        pos: 0,
    }
}

/// The buffers that are created empty: scratch, then the caches.
pub open spec fn load_allocs(cfg: TextConfig, max_seq: usize, rope_positions: usize) -> Seq<Alloc> {
    scratch_allocs(cfg, max_seq as int, rope_positions as int) + cache_allocs(
        kv_words(cfg, fresh(cfg, max_seq).cap as int) * 4,
        cfg.num_hidden_layers as nat,
    )
}

/// The sizes of a decoder fit.
pub open spec fn load_fits(cfg: TextConfig, max_seq: usize, rope_positions: usize) -> bool {
    let cap = fresh(cfg, max_seq).cap;
    &&& scratch_fits(cfg, max_seq as int, rope_positions as int)
    &&& cfg.num_key_value_heads > 0
    &&& cfg.num_hidden_layers * 8 + 2 <= usize::MAX
    &&& cfg.num_key_value_heads * cap <= usize::MAX
    &&& cfg.num_key_value_heads * cap * cfg.head_dim <= usize::MAX
    &&& kv_words(cfg, cap as int) * 4 <= usize::MAX
}

/// A decoder to build.
pub struct LoadPlan {
    pub decoder: WgpuTextDecoder,
    pub pipelines: Vec<PipelineSpec>,
    /// Buffers to create empty.
    pub allocs: Vec<Alloc>,
    /// Buffers to create from tensors.
    pub fills: Vec<Fill>,
    /// Uniforms to write once.
    pub writes: Vec<Op>,
}

impl WgpuTextDecoder {
    /// Plans a decoder with the weights under `prefix`. `max_seq` is the ceiling
    /// on prompt plus generated positions, `rope_positions` the length of the
    /// rotary tables, `rows` and `cols` the shape of the embedding table.
    pub fn load(
        cfg: TextConfig,
        sw: &Switches,
        subgroup: bool,
        prefix: &str,
        max_seq: usize,
        rope_positions: usize,
        rows: usize,
        cols: usize,
    ) -> (r: Result<LoadPlan, EmbedMismatch>)
        requires
            load_fits(cfg, max_seq, rope_positions),
        ensures
            r is Ok <==> rows == cfg.vocab_size && cols == cfg.hidden_size,
            match r {
                Ok(p) => {
                    &&& p.decoder == fresh(cfg, max_seq)
                    &&& p.decoder.wf()
                    &&& p.pipelines@ == built_kernels().map_values(|k: Kernel| pipeline_of(cfg, *sw, subgroup, k))
                    &&& p.allocs@ == load_allocs(cfg, max_seq, rope_positions)
                    &&& fills(p.fills@) == load_fills(prefix@, cfg.num_hidden_layers as nat)
                    &&& p.writes@ == constant_uniforms(cfg)
                },
                Err(e) => e == (EmbedMismatch { rows, cols, vocab: cfg.vocab_size, hidden: cfg.hidden_size }),
            },
    {
        match check_embed(&cfg, rows, cols) {
            Err(e) => {
                return Err(e);
            },
            Ok(_) => {},
        }
        let decoder = WgpuTextDecoder::new(cfg, max_seq);
        let built = pipelines(&cfg, sw, subgroup);
        let mut allocs = scratch(&cfg, max_seq, rope_positions);
        let mut kv = caches(cfg.num_hidden_layers, decoder.kv_bytes());
        allocs.append(&mut kv);
        let fills = weight_fills(prefix, cfg.num_hidden_layers);
        let writes = constants(&cfg);
        Ok(LoadPlan { decoder, pipelines: built, allocs, fills, writes })
    }
}

/// The buffers that a load makes.
pub open spec fn load_bufs(a: Seq<Alloc>, f: Seq<(Buf, Form, Seq<Seq<char>>)>) -> Seq<Buf> {
    a.map_values(|x: Alloc| x.buf) + f.map_values(|x: (Buf, Form, Seq<Seq<char>>)| x.0)
}

/// Where a buffer stands among those that the load of `n` layers makes.
pub open spec fn place(n: int, buf: Buf) -> int {
    let f = 25 + 2 * n;
    match buf {
        Buf::H => 0,
        Buf::Norm1 => 1,
        Buf::Qkv => 2,
        Buf::QOut => 3,
        Buf::AttnOut => 4,
        Buf::Norm2 => 5,
        Buf::GateUp => 6,
        Buf::Activated => 7,
        Buf::FinalNorm => 8,
        Buf::Logits => 9,
        Buf::Token => 10,
        Buf::TokenStaging => 11,
        Buf::Cos => 12,
        Buf::Sin => 13,
        Buf::URms => 14,
        Buf::UQkvx => 15,
        Buf::USilu => 16,
        Buf::UGqa => 17,
        Buf::UGp1 => 18,
        Buf::UGp2 => 19,
        Buf::SplitPartOut => 20,
        Buf::SplitPartMax => 21,
        Buf::SplitPartSum => 22,
        Buf::UArgmax => 23,
        Buf::UEmbed => 24,
        Buf::KCache(l) => 25 + 2 * l,
        Buf::VCache(l) => 26 + 2 * l,
        Buf::EmbedTable => f,
        Buf::FinalNormW => f + 1,
        Buf::QkvW(l) => f + 2 + 8 * l,
        Buf::OW(l) => f + 3 + 8 * l,
        Buf::GuW(l) => f + 4 + 8 * l,
        Buf::DpW(l) => f + 5 + 8 * l,
        Buf::IlnW(l) => f + 6 + 8 * l,
        Buf::PlnW(l) => f + 7 + 8 * l,
        Buf::QnW(l) => f + 8 + 8 * l,
        Buf::KnW(l) => f + 9 + 8 * l,
        _ => -1,
    }
}

proof fn lemma_places(cfg: TextConfig, max_seq: usize, rope_positions: usize, prefix: Seq<char>, i: int)
    requires
        0 <= i < 27 + 10 * cfg.num_hidden_layers,
    ensures
        load_bufs(
            load_allocs(cfg, max_seq, rope_positions),
            load_fills(prefix, cfg.num_hidden_layers as nat),
        ).len() == 27 + 10 * cfg.num_hidden_layers,
        place(
            cfg.num_hidden_layers as int,
            load_bufs(
                load_allocs(cfg, max_seq, rope_positions),
                load_fills(prefix, cfg.num_hidden_layers as nat),
            )[i],
        ) == i,
{
    let n = cfg.num_hidden_layers as int;
    let a = load_allocs(cfg, max_seq, rope_positions);
    let f = load_fills(prefix, n as nat);
    let all = load_bufs(a, f);
    assert(scratch_allocs(cfg, max_seq as int, rope_positions as int).len() == 25);
    assert(a.len() == 25 + 2 * n);
    if i < 25 {
        assert(all[i] == scratch_allocs(cfg, max_seq as int, rope_positions as int)[i].buf);
    } else if i < a.len() {
        let j = i - 25;
        assert(all[i] == cache_allocs(kv_words(cfg, fresh(cfg, max_seq).cap as int) * 4, n as nat)[j].buf);
    } else {
        let j = i - a.len();
        assert(all[i] == f[j].0);
        if j >= 2 {
            let l = (j - 2) / 8;
            let k = (j - 2) % 8;
            assert(f[j] == layer_fills(prefix, l as usize)[k]);
            assert(j == 2 + 8 * l + k);
        }
    }
}

/// A load makes no buffer twice.
pub proof fn law_load_makes_once(cfg: TextConfig, max_seq: usize, rope_positions: usize, prefix: Seq<char>)
    ensures
        load_bufs(
            load_allocs(cfg, max_seq, rope_positions),
            load_fills(prefix, cfg.num_hidden_layers as nat),
        ).no_duplicates(),
{
    let all = load_bufs(load_allocs(cfg, max_seq, rope_positions), load_fills(prefix, cfg.num_hidden_layers as nat));
    lemma_places(cfg, max_seq, rope_positions, prefix, 0);
    assert forall|i: int, j: int| 0 <= i < all.len() && 0 <= j < all.len() && i != j implies all[i] != all[j] by {
        lemma_places(cfg, max_seq, rope_positions, prefix, i);
        lemma_places(cfg, max_seq, rope_positions, prefix, j);
    }
}

/// The bind groups outside the layers.
pub open spec fn tail_groups() -> Seq<Group> {
    seq![Group::FinalRms, Group::GemvLm, Group::GemvLmNorm, Group::Silu, Group::Argmax, Group::Embed]
}

/// Every buffer that a decode step binds is made at load.
pub proof fn law_step_binds_loaded(
    cfg: TextConfig,
    max_seq: usize,
    rope_positions: usize,
    prefix: Seq<char>,
    l: usize,
    g: int,
    i: int,
)
    requires
        l < cfg.num_hidden_layers,
        0 <= g < (layer_groups(l) + tail_groups()).len(),
        0 <= i < (layer_groups(l) + tail_groups())[g].bindings_spec().len(),
    ensures
        load_bufs(
            load_allocs(cfg, max_seq, rope_positions),
            load_fills(prefix, cfg.num_hidden_layers as nat),
        ).contains((layer_groups(l) + tail_groups())[g].bindings_spec()[i].buf),
{
    let buf = (layer_groups(l) + tail_groups())[g].bindings_spec()[i].buf;
    law_load_makes(cfg, max_seq, rope_positions, prefix, buf);
}

/// A load of `n` layers makes this buffer.
pub open spec fn makes(n: int, buf: Buf) -> bool {
    match buf {
        Buf::KCache(l) | Buf::VCache(l) => l < n,
        Buf::QkvW(l) | Buf::OW(l) | Buf::GuW(l) | Buf::DpW(l) => l < n,
        Buf::IlnW(l) | Buf::PlnW(l) | Buf::QnW(l) | Buf::KnW(l) => l < n,
        _ => place(n, buf) >= 0,
    }
}

/// What a load is said to make, it makes.
pub proof fn law_load_makes(cfg: TextConfig, max_seq: usize, rope_positions: usize, prefix: Seq<char>, buf: Buf)
    requires
        makes(cfg.num_hidden_layers as int, buf),
    ensures
        load_bufs(
            load_allocs(cfg, max_seq, rope_positions),
            load_fills(prefix, cfg.num_hidden_layers as nat),
        ).contains(buf),
{
    let n = cfg.num_hidden_layers as int;
    let a = load_allocs(cfg, max_seq, rope_positions);
    let f = load_fills(prefix, n as nat);
    let all = load_bufs(a, f);
    let at = place(n, buf);
    assert(scratch_allocs(cfg, max_seq as int, rope_positions as int).len() == 25);
    assert(a.len() == 25 + 2 * n);
    assert(0 <= at < all.len());
    if at < 25 {
        assert(all[at] == scratch_allocs(cfg, max_seq as int, rope_positions as int)[at].buf);
    } else if at < a.len() {
        assert(all[at] == cache_allocs(kv_words(cfg, fresh(cfg, max_seq).cap as int) * 4, n as nat)[at - 25].buf);
    } else {
        let j = at - a.len();
        assert(all[at] == f[j].0);
        if j >= 2 {
            assert(f[j] == layer_fills(prefix, ((j - 2) / 8) as usize)[(j - 2) % 8]);
        }
    }
    assert(all[at] == buf);
}

} // verus!
