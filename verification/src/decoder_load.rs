//! What a decoder needs from load on: scratch buffers, constant uniforms, weight
//! names and the bind groups that follow the KV cache.
use vstd::prelude::*;

use crate::config::TextDecoderConfig;
use crate::decoder::TextConfig;
use crate::decoder_ops::{Buf, Group, Op, Uniform};
use crate::decoder_prefill::{storage, stored, uniform, uniform_buf, Alloc};
use crate::geometry::{ceil_div, div_up};
use crate::text::{dec, lit, push_dec};

verus! {

/// The decoder's sizes out of a model's configuration; `eps_bits` is its epsilon
/// in single precision.
pub fn text_config(t: &TextDecoderConfig, eps_bits: u32) -> (r: TextConfig)
    ensures
        r == (TextConfig {
            vocab_size: t.vocab_size,
            hidden_size: t.hidden_size,
            intermediate_size: t.intermediate_size,
            num_hidden_layers: t.num_hidden_layers,
            num_attention_heads: t.num_attention_heads,
            num_key_value_heads: t.num_key_value_heads,
            head_dim: t.head_dim,
            rms_norm_eps_bits: eps_bits,
        }),
{
    TextConfig {
        vocab_size: t.vocab_size,
        hidden_size: t.hidden_size,
        intermediate_size: t.intermediate_size,
        num_hidden_layers: t.num_hidden_layers,
        num_attention_heads: t.num_attention_heads,
        num_key_value_heads: t.num_key_value_heads,
        head_dim: t.head_dim,
        rms_norm_eps_bits: eps_bits,
    }
}

/// Partial results of split attention: chunks of 256 keys.
pub open spec fn max_chunks(max_seq: int) -> int {
    ceil_div(max_seq, 256)
}

/// The scratch sizes fit.
pub open spec fn scratch_fits(cfg: TextConfig, max_seq: int, rope_positions: int) -> bool {
    &&& cfg.widths_fit()
    &&& cfg.hidden_size * 2 <= usize::MAX
    &&& cfg.qkv_width() * 2 <= usize::MAX
    &&& cfg.q_width() * 2 <= usize::MAX
    &&& cfg.intermediate_size * 4 <= usize::MAX
    &&& cfg.vocab_size * 2 <= usize::MAX
    &&& rope_positions * cfg.head_dim * 2 <= usize::MAX
    &&& cfg.num_attention_heads * max_chunks(max_seq) * cfg.head_dim * 4 <= usize::MAX
    &&& cfg.num_attention_heads * max_chunks(max_seq) * 4 <= usize::MAX
}

/// The buffers that every step uses, in the order they are created.
pub open spec fn scratch_allocs(cfg: TextConfig, max_seq: int, rope_positions: int) -> Seq<Alloc> {
    let hs = cfg.hidden_size as int / 2 * 4;
    let q = cfg.q_width() / 2 * 4;
    let rope = rope_positions * cfg.head_dim / 2 * 4;
    let parts = cfg.num_attention_heads * max_chunks(max_seq);
    seq![
        stored(Buf::H, hs),
        stored(Buf::Norm1, hs),
        stored(Buf::Qkv, cfg.qkv_width() / 2 * 4),
        stored(Buf::QOut, q),
        stored(Buf::AttnOut, q),
        stored(Buf::Norm2, hs),
        stored(Buf::GateUp, cfg.intermediate_size * 4),
        stored(Buf::Activated, cfg.intermediate_size as int / 2 * 4),
        stored(Buf::FinalNorm, hs),
        stored(Buf::Logits, cfg.vocab_size as int / 2 * 4),
        stored(Buf::Token, 4),
        stored(Buf::TokenStaging, 4),
        stored(Buf::Cos, rope),
        stored(Buf::Sin, rope),
        uniform(Buf::URms, 16),
        uniform(Buf::UQkvx, 32),
        uniform(Buf::USilu, 16),
        uniform(Buf::UGqa, 16),
        uniform(Buf::UGp1, 16),
        uniform(Buf::UGp2, 16),
        stored(Buf::SplitPartOut, parts * cfg.head_dim * 4),
        stored(Buf::SplitPartMax, parts * 4),
        stored(Buf::SplitPartSum, parts * 4),
        uniform(Buf::UArgmax, 16),
        uniform(Buf::UEmbed, 16),
    ]
}

/// The buffers that every step uses. [`Buf::TokenStaging`] is a mappable copy
/// target, every other storage buffer is one the kernels bind.
pub fn scratch(cfg: &TextConfig, max_seq: usize, rope_positions: usize) -> (r: Vec<Alloc>)
    requires
        scratch_fits(*cfg, max_seq as int, rope_positions as int),
    ensures
        r@ == scratch_allocs(*cfg, max_seq as int, rope_positions as int),
{
    let chunks: usize = div_up(max_seq, 256);
    proof {
        let c = chunks as int;
        assert(0 <= cfg.num_attention_heads * c) by (nonlinear_arith)
            requires
                c >= 0,
        ;
        assert(0 <= cfg.num_attention_heads * c * cfg.head_dim) by (nonlinear_arith)
            requires
                cfg.num_attention_heads * c >= 0,
        ;
        assert(0 <= rope_positions * cfg.head_dim) by (nonlinear_arith);
        assert(0 <= cfg.q_width()) by (nonlinear_arith);
        assert(0 <= cfg.kv_width()) by (nonlinear_arith);
    }
    let hs: usize = cfg.hidden_size / 2 * 4;
    let q: usize = cfg.q_dim() / 2 * 4;
    let rope: usize = rope_positions * cfg.head_dim / 2 * 4;
    let parts: usize = cfg.num_attention_heads * chunks;
    vec![
        storage(Buf::H, hs),
        storage(Buf::Norm1, hs),
        storage(Buf::Qkv, cfg.fused_qkv_cols() / 2 * 4),
        storage(Buf::QOut, q),
        storage(Buf::AttnOut, q),
        storage(Buf::Norm2, hs),
        storage(Buf::GateUp, cfg.intermediate_size * 4),
        storage(Buf::Activated, cfg.intermediate_size / 2 * 4),
        storage(Buf::FinalNorm, hs),
        storage(Buf::Logits, cfg.vocab_size / 2 * 4),
        storage(Buf::Token, 4),
        storage(Buf::TokenStaging, 4),
        storage(Buf::Cos, rope),
        storage(Buf::Sin, rope),
        uniform_buf(Buf::URms, 16),
        uniform_buf(Buf::UQkvx, 32),
        uniform_buf(Buf::USilu, 16),
        uniform_buf(Buf::UGqa, 16),
        uniform_buf(Buf::UGp1, 16),
        uniform_buf(Buf::UGp2, 16),
        storage(Buf::SplitPartOut, parts * cfg.head_dim * 4),
        storage(Buf::SplitPartMax, parts * 4),
        storage(Buf::SplitPartSum, parts * 4),
        uniform_buf(Buf::UArgmax, 16),
        uniform_buf(Buf::UEmbed, 16),
    ]
}

/// The uniforms that never change.
pub open spec fn constant_uniforms(cfg: TextConfig) -> Seq<Op> {
    seq![
        Op::Write { buf: Buf::URms, offset: 0, data: Uniform::Rms { eps_bits: cfg.rms_norm_eps_bits } },
        Op::Write { buf: Buf::UArgmax, offset: 0, data: Uniform::Argmax { n: cfg.vocab_size as u32, slot: 0 } },
        Op::Write { buf: Buf::UEmbed, offset: 0, data: Uniform::Embed { slot: 0, d2: (cfg.hidden_size / 2) as u32 } },
    ]
}

/// The uniforms that never change.
pub fn constants(cfg: &TextConfig) -> (r: Vec<Op>)
    ensures
        r@ == constant_uniforms(*cfg),
{
    vec![
        Op::Write { buf: Buf::URms, offset: 0, data: Uniform::Rms { eps_bits: cfg.rms_norm_eps_bits } },
        Op::Write { buf: Buf::UArgmax, offset: 0, data: Uniform::Argmax { n: cfg.vocab_size as u32, slot: 0 } },
        Op::Write { buf: Buf::UEmbed, offset: 0, data: Uniform::Embed { slot: 0, d2: (cfg.hidden_size / 2) as u32 } },
    ]
}

/// The shape of an embedding table that is not the configured one.
#[derive(Clone, Copy, Debug, PartialEq, Eq, Structural)]
pub struct EmbedMismatch {
    pub rows: usize,
    pub cols: usize,
    pub vocab: usize,
    pub hidden: usize,
}

impl EmbedMismatch {
    /// The mismatch in words.
    pub open spec fn text(self) -> Seq<char> {
        "embed_tokens is ["@ + dec(self.rows as nat) + "x"@ + dec(self.cols as nat) + "], expected ["@ + dec(
            self.vocab as nat,
        ) + "x"@ + dec(self.hidden as nat) + "]"@
    }

    /// The mismatch in words.
    pub fn message(&self) -> (r: String)
        ensures
            r@ == self.text(),
    {
        let mut s = lit("embed_tokens is [");
        push_dec(&mut s, self.rows);
        s.append("x");
        push_dec(&mut s, self.cols);
        s.append("], expected [");
        push_dec(&mut s, self.vocab);
        s.append("x");
        push_dec(&mut s, self.hidden);
        s.append("]");
        s
    }
}

/// Checks the embedding table against the configuration.
pub fn check_embed(cfg: &TextConfig, rows: usize, cols: usize) -> (r: Result<(), EmbedMismatch>)
    ensures
        r is Ok <==> rows == cfg.vocab_size && cols == cfg.hidden_size,
        r matches Err(e) ==> e == (EmbedMismatch { rows, cols, vocab: cfg.vocab_size, hidden: cfg.hidden_size }),
{
    if rows != cfg.vocab_size || cols != cfg.hidden_size {
        return Err(EmbedMismatch { rows, cols, vocab: cfg.vocab_size, hidden: cfg.hidden_size });
    }
    Ok(())
}

/// The name of layer `i` under `prefix`.
pub open spec fn layer_name(prefix: Seq<char>, i: nat) -> Seq<char> {
    prefix + ".layers."@ + dec(i)
}

/// The tensors of a decoder layer, in the order they are read, behind the
/// layer's name: the output and down projections, the parts of the fused
/// attention and gate projections, and the norms.
pub open spec fn layer_tensors() -> Seq<Seq<char>> {
    seq![
        ".self_attn.o_proj.weight"@,
        ".mlp.down_proj.weight"@,
        ".self_attn.q_proj.weight"@,
        ".self_attn.k_proj.weight"@,
        ".self_attn.v_proj.weight"@,
        ".mlp.gate_proj.weight"@,
        ".mlp.up_proj.weight"@,
        ".input_layernorm.weight"@,
        ".post_attention_layernorm.weight"@,
        ".self_attn.q_norm.weight"@,
        ".self_attn.k_norm.weight"@,
    ]
}

/// `prefix` followed by `tail`.
pub fn joined(prefix: &str, tail: &str) -> (r: String)
    ensures
        r@ == prefix@ + tail@,
{
    let mut s = lit(prefix);
    s.append(tail);
    s
}

/// The name of layer `i` under `prefix`.
pub fn layer_prefix(prefix: &str, i: usize) -> (r: String)
    ensures
        r@ == layer_name(prefix@, i as nat),
{
    let mut s = joined(prefix, ".layers.");
    push_dec(&mut s, i);
    s
}

/// The tensor names of layer `i`, in the order of [`layer_tensors`].
pub fn layer_weight_names(prefix: &str, i: usize) -> (r: Vec<String>)
    ensures
        r@.len() == layer_tensors().len(),
        forall|j: int| 0 <= j < r@.len() ==> (#[trigger] r@[j])@ == layer_name(prefix@, i as nat) + layer_tensors()[j],
{
    let p = layer_prefix(prefix, i);
    let s = p.as_str();
    vec![
        joined(s, ".self_attn.o_proj.weight"),
        joined(s, ".mlp.down_proj.weight"),
        joined(s, ".self_attn.q_proj.weight"),
        joined(s, ".self_attn.k_proj.weight"),
        joined(s, ".self_attn.v_proj.weight"),
        joined(s, ".mlp.gate_proj.weight"),
        joined(s, ".mlp.up_proj.weight"),
        joined(s, ".input_layernorm.weight"),
        joined(s, ".post_attention_layernorm.weight"),
        joined(s, ".self_attn.q_norm.weight"),
        joined(s, ".self_attn.k_norm.weight"),
    ]
}

/// The bind groups that layer `l` owns.
pub open spec fn layer_groups(l: usize) -> Seq<Group> {
    seq![
        Group::GemvQkv(l),
        Group::GemvQkvNorm(l),
        Group::GemvO(l),
        Group::GemvGu(l),
        Group::GemvGuNorm(l),
        Group::GemvDp(l),
        Group::Rms1(l),
        Group::Rms2(l),
        Group::Extract(l),
        Group::Gqa(l),
        Group::GqaSplit(l),
        Group::GqaMerge,
    ]
}

/// The bind groups of layer `l` that read or write its KV cache.
pub open spec fn kv_groups(l: usize) -> Seq<Group> {
    seq![Group::Extract(l), Group::Gqa(l), Group::GqaSplit(l)]
}

/// The bind groups to rebuild when the cache of layer `l` moves.
pub fn kv_bind_groups(l: usize) -> (r: Vec<Group>)
    ensures
        r@ == kv_groups(l),
{
    vec![Group::Extract(l), Group::Gqa(l), Group::GqaSplit(l)]
}

/// A group binds the KV cache of layer `l`.
pub open spec fn binds_cache(g: Group, l: usize) -> bool {
    exists|i: int|
        0 <= i < g.bindings_spec().len() && ((#[trigger] g.bindings_spec()[i]).buf == Buf::KCache(l)
            || g.bindings_spec()[i].buf == Buf::VCache(l))
}

/// Of a layer's bind groups, exactly the three of [`kv_bind_groups`] bind its
/// cache: rebuilding them is enough when the cache grows.
pub proof fn law_kv_groups_complete(l: usize, i: int)
    requires
        0 <= i < layer_groups(l).len(),
    ensures
        binds_cache(layer_groups(l)[i], l) <==> kv_groups(l).contains(layer_groups(l)[i]),
{
    let g = layer_groups(l)[i];
    let k = kv_groups(l);
    if i == 8 {
        assert(g.bindings_spec()[6].buf == Buf::KCache(l));
        assert(k[0] == g);
    } else if i == 9 {
        assert(g.bindings_spec()[1].buf == Buf::KCache(l));
        assert(k[1] == g);
    } else if i == 10 {
        assert(g.bindings_spec()[1].buf == Buf::KCache(l));
        assert(k[2] == g);
    }
}

} // verus!
