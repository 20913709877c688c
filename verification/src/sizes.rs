//! Buffers hold what the kernels read from them and write to them.
use vstd::prelude::*;

use crate::decoder::{kv_words, Switches, TextConfig, WgpuTextDecoder};
use crate::decoder_build::cache_allocs;
use crate::decoder_load::{constant_uniforms, scratch_allocs, scratch_fits};
use crate::decoder_ops::{Buf, Group, Op};
use crate::decoder_prefill::{
    prefill_allocs, prefill_error, prefill_fits, slab_part_offset, Alloc, PrefillDims,
};
use crate::decoder_step::step_uniforms;
use crate::encoder::GpuAudioEncoder;
use crate::encoder_encode::{clip_allocs, tower_allocs};
use crate::encoder_ops::EncBuf;
use crate::encoder_plan::{score_shape, value_shape, Clip, EncAlloc};
use crate::machine::{matrix_cols, matrix_rows};

verus! {

/// Some buffer of the list has this many bytes.
pub open spec fn sized_as(a: Seq<Alloc>, buf: Buf, bytes: int) -> bool {
    exists|i: int| 0 <= i < a.len() && #[trigger] a[i] == (Alloc { buf, bytes: bytes as u64, uniform: false })
}

/// Some buffer of the list is a uniform of at least this many bytes.
pub open spec fn uniform_of(a: Seq<Alloc>, buf: Buf, bytes: int) -> bool {
    exists|i: int| 0 <= i < a.len() && (#[trigger] a[i]).buf == buf && a[i].uniform && a[i].bytes >= bytes
}

/// The model's widths are even.
pub open spec fn even_widths(cfg: TextConfig) -> bool {
    &&& cfg.hidden_size as int % 2 == 0
    &&& cfg.head_dim as int % 2 == 0
    &&& cfg.intermediate_size as int % 2 == 0
    &&& cfg.vocab_size as int % 2 == 0
}

proof fn lemma_even_product(a: int, b: int)
    requires
        b % 2 == 0,
    ensures
        a * b / 2 * 4 == a * b * 2,
{
    let h = b / 2;
    assert(a * b == 2 * (a * h)) by (nonlinear_arith)
        requires
            b == 2 * h,
    ;
}

/// A matrix times a vector reads and writes whole buffers: the input has two
/// bytes for every column of the weight and the output two for every row.
pub proof fn law_step_buffers_fit(cfg: TextConfig, max_seq: int, rope_positions: int, l: usize, g: int)
    requires
        scratch_fits(cfg, max_seq, rope_positions),
        even_widths(cfg),
        0 <= g < 8,
    ensures
        ({
            let a = scratch_allocs(cfg, max_seq, rope_positions);
            let group = seq![
                Group::GemvQkv(l),
                Group::GemvO(l),
                Group::GemvGu(l),
                Group::GemvDp(l),
                Group::GemvLm,
                Group::GemvQkvNorm(l),
                Group::GemvGuNorm(l),
                Group::GemvLmNorm,
            ][g];
            let b = group.bindings_spec();
            &&& sized_as(a, b[1].buf, matrix_cols(cfg, b[0].buf) * 2)
            &&& sized_as(a, b[2].buf, matrix_rows(cfg, b[0].buf) * 2)
        }),
{
    let a = scratch_allocs(cfg, max_seq, rope_positions);
    lemma_even_product(cfg.num_attention_heads as int, cfg.head_dim as int);
    lemma_even_product(cfg.num_key_value_heads as int, cfg.head_dim as int);
    assert(a[0].buf == Buf::H && a[1].buf == Buf::Norm1 && a[2].buf == Buf::Qkv && a[3].buf == Buf::QOut);
    assert(a[4].buf == Buf::AttnOut && a[5].buf == Buf::Norm2 && a[6].buf == Buf::GateUp && a[7].buf == Buf::Activated);
    assert(a[8].buf == Buf::FinalNorm && a[9].buf == Buf::Logits);
}

/// The heads of a row fill their buffers, the rotary tables hold every position,
/// the partial results of split attention hold one row, one maximum and one sum
/// for every head and chunk of 256 keys, and a token is one word.
pub proof fn law_heads_fit(cfg: TextConfig, max_seq: int, rope_positions: int)
    requires
        scratch_fits(cfg, max_seq, rope_positions),
        even_widths(cfg),
    ensures
        ({
            let a = scratch_allocs(cfg, max_seq, rope_positions);
            let heads = cfg.num_attention_heads as int;
            let hd = cfg.head_dim as int;
            let chunks = (max_seq + 255) / 256;
            &&& sized_as(a, Buf::QOut, heads * hd * 2)
            &&& sized_as(a, Buf::AttnOut, heads * hd * 2)
            &&& sized_as(a, Buf::Cos, rope_positions * hd * 2)
            &&& sized_as(a, Buf::Sin, rope_positions * hd * 2)
            &&& sized_as(a, Buf::SplitPartOut, heads * chunks * hd * 4)
            &&& sized_as(a, Buf::SplitPartMax, heads * chunks * 4)
            &&& sized_as(a, Buf::SplitPartSum, heads * chunks * 4)
            &&& sized_as(a, Buf::Token, 4)
            &&& sized_as(a, Buf::TokenStaging, 4)
        }),
{
    let a = scratch_allocs(cfg, max_seq, rope_positions);
    lemma_even_product(cfg.num_attention_heads as int, cfg.head_dim as int);
    lemma_even_product(rope_positions, cfg.head_dim as int);
    assert(a[3].buf == Buf::QOut && a[4].buf == Buf::AttnOut && a[10].buf == Buf::Token && a[11].buf
        == Buf::TokenStaging);
    assert(a[12].buf == Buf::Cos && a[13].buf == Buf::Sin && a[20].buf == Buf::SplitPartOut);
    assert(a[21].buf == Buf::SplitPartMax && a[22].buf == Buf::SplitPartSum);
}

/// Every uniform that is written at load or in a step fits its buffer.
pub proof fn law_step_uniforms_fit(
    d: WgpuTextDecoder,
    sw: Switches,
    scale_bits: u32,
    pos: usize,
    max_seq: int,
    rope_positions: int,
    i: int,
)
    requires
        0 <= i < (constant_uniforms(d.cfg) + step_uniforms(d, sw, scale_bits, pos)).len(),
    ensures
        ({
            let op = (constant_uniforms(d.cfg) + step_uniforms(d, sw, scale_bits, pos))[i];
            &&& op matches Op::Write { buf, offset, data }
            &&& uniform_of(
                scratch_allocs(d.cfg, max_seq, rope_positions),
                buf,
                offset + 4 * data.words_spec().len(),
            )
        }),
{
    let a = scratch_allocs(d.cfg, max_seq, rope_positions);
    assert(a[14].buf == Buf::URms && a[15].buf == Buf::UQkvx && a[16].buf == Buf::USilu && a[17].buf == Buf::UGqa);
    assert(a[18].buf == Buf::UGp1 && a[19].buf == Buf::UGp2 && a[23].buf == Buf::UArgmax && a[24].buf == Buf::UEmbed);
}

/// The caches of every layer hold two bytes for every element of every slot of
/// every kv head, keys and values alike.
pub proof fn law_caches_fit(cfg: TextConfig, slots: int, l: usize)
    requires
        l < cfg.num_hidden_layers,
        cfg.head_dim as int % 2 == 0,
        slots >= 0,
    ensures
        ({
            let a = cache_allocs(kv_words(cfg, slots) * 4, cfg.num_hidden_layers as nat);
            let bytes = cfg.num_key_value_heads * slots * cfg.head_dim * 2;
            sized_as(a, Buf::KCache(l), bytes) && sized_as(a, Buf::VCache(l), bytes)
        }),
{
    let a = cache_allocs(kv_words(cfg, slots) * 4, cfg.num_hidden_layers as nat);
    lemma_even_product(cfg.num_key_value_heads * slots, cfg.head_dim as int);
    assert((2 * l) / 2 == l && (2 * l) % 2 == 0 && (2 * l + 1) / 2 == l && (2 * l + 1) % 2 == 1);
    assert(a[2 * l].buf == Buf::KCache(l));
    assert(a[2 * l + 1].buf == Buf::VCache(l));
}

/// The buffers of a prefill hold `mp` rows of what the projections read and
/// write, and for every query head what the two GEMMs of attention stride over.
pub proof fn law_prefill_buffers_fit(cfg: TextConfig, d: PrefillDims, l: usize)
    requires
        prefill_fits(cfg, d),
        even_widths(cfg),
        d.mp as int % 128 == 0,
        d.nkv_rows as int % 128 == 0,
        d.prob_cols() % 2 == 0 && d.score_cols() % 2 == 0,
    ensures
        ({
            let a = prefill_allocs(cfg, d);
            let mp = d.mp as int;
            let heads = cfg.num_attention_heads as int;
            let hd = cfg.head_dim as int;
            &&& sized_as(a, Buf::PH, mp * matrix_cols(cfg, Buf::QkvW(l)) * 2)
            &&& sized_as(a, Buf::PNormed, mp * matrix_cols(cfg, Buf::QkvW(l)) * 2)
            &&& sized_as(a, Buf::PNorm2, mp * matrix_cols(cfg, Buf::GuW(l)) * 2)
            &&& sized_as(a, Buf::PQkv, mp * matrix_rows(cfg, Buf::QkvW(l)) * 2)
            &&& sized_as(a, Buf::PAttnFlat, mp * matrix_cols(cfg, Buf::OW(l)) * 2)
            &&& sized_as(a, Buf::PGu, mp * matrix_rows(cfg, Buf::GuW(l)) * 2)
            &&& sized_as(a, Buf::PActivated, mp * matrix_cols(cfg, Buf::DpW(l)) * 2)
            &&& sized_as(a, Buf::PQOut, heads * mp * hd * 2)
            &&& sized_as(a, Buf::PScores, heads * mp * d.score_cols() * 2)
            &&& sized_as(a, Buf::PAttn, heads * mp * d.prob_cols() * 2)
            &&& sized_as(a, Buf::PKRep, heads * d.nkv_rows * hd * 2)
            &&& sized_as(a, Buf::PVRep, heads * d.nkv_rows * hd * 2)
            &&& d.slabbed() ==> sized_as(a, Buf::PSlabPart, slab_part_offset(cfg, d, d.n_slab as int))
            &&& d.slabbed() ==> sized_as(a, Buf::PSlabStats, d.n_slab * heads * mp * 8)
            &&& d.slabbed() ==> sized_as(a, Buf::PSlabW, d.n_slab * heads * mp * 4)
        }),
{
    let a = prefill_allocs(cfg, d);
    let mp = d.mp as int;
    let heads = cfg.num_attention_heads as int;
    let hd = cfg.head_dim as int;
    lemma_even_product(mp, cfg.hidden_size as int);
    lemma_even_product(heads, hd);
    lemma_even_product(cfg.num_key_value_heads as int, hd);
    assert(cfg.qkv_width() % 2 == 0);
    lemma_even_product(mp, cfg.qkv_width());
    lemma_even_product(mp, 2 * cfg.intermediate_size);
    lemma_even_product(mp, cfg.intermediate_size as int);
    lemma_even_product(mp, heads * hd);
    lemma_even_product(heads * mp, hd);
    lemma_even_product(heads * mp, d.score_cols());
    lemma_even_product(heads * mp, d.prob_cols());
    lemma_even_product(heads * d.nkv_rows, hd);
    assert(a[0].buf == Buf::PH && a[1].buf == Buf::PNormed && a[2].buf == Buf::PNorm2 && a[3].buf == Buf::PQkv);
    assert(a[4].buf == Buf::PQOut && a[5].buf == Buf::PScores && a[6].buf == Buf::PKRep && a[7].buf == Buf::PVRep);
    assert(a[8].buf == Buf::PAttn);
    let k: int = if d.slabbed() {
        12
    } else {
        9
    };
    assert(a[k].buf == Buf::PAttnFlat && a[k + 1].buf == Buf::PGu && a[k + 2].buf == Buf::PActivated);
    if d.slabbed() {
        let n = d.n_slab as int;
        lemma_even_product(n * mp, heads * hd);
        assert(n * mp * heads * hd * 2 == n * mp * (heads * hd) * 2) by (nonlinear_arith);
        assert(n * heads * mp * 2 * 4 == n * heads * mp * 8) by (nonlinear_arith);
        assert(a[9].buf == Buf::PSlabPart && a[10].buf == Buf::PSlabStats && a[11].buf == Buf::PSlabW);
    }
}

/// The slots of the prefill's uniforms fit: 256 GEMMs, 16 slabs with their
/// statistics, the shares, the merge, and the copies of the caches.
pub proof fn law_prefill_uniforms_fit(cfg: TextConfig, d: PrefillDims)
    ensures
        uniform_of(prefill_allocs(cfg, d), Buf::PGd, 65536),
        uniform_of(prefill_allocs(cfg, d), Buf::PSl, 8480),
        uniform_of(prefill_allocs(cfg, d), Buf::PRk, 24),
{
    let a = prefill_allocs(cfg, d);
    let k: int = if d.slabbed() {
        15
    } else {
        12
    };
    assert(a[k].buf == Buf::PGd && a[k + 1].buf == Buf::PSl && a[k + 2].buf == Buf::PRk);
}

/// Some buffer of the list has this many bytes.
pub open spec fn enc_sized_as(a: Seq<EncAlloc>, buf: EncBuf, bytes: int) -> bool {
    exists|i: int| 0 <= i < a.len() && #[trigger] a[i] == (EncAlloc { buf, bytes: bytes as u64 })
}

/// The conv buffers of a level hold what its gather and its GEMM stride over.
pub proof fn law_level_buffers_fit(e: GpuAudioEncoder, i: usize)
    requires
        i < 3,
    ensures
        ({
            let a = tower_allocs(e);
            let l = e.conv@[i as int];
            &&& enc_sized_as(a, EncBuf::Col(i), l.k_pad * l.n_all * 2)
            &&& enc_sized_as(a, EncBuf::Raw(i), l.m_pad * l.n_all * 2)
            &&& enc_sized_as(a, EncBuf::Act(i), l.m_pad * l.n_all * 2)
        }),
{
    let a = tower_allocs(e);
    assert(a[0].buf == EncBuf::Col(0) && a[1].buf == EncBuf::Col(1) && a[2].buf == EncBuf::Col(2));
    assert(a[3].buf == EncBuf::Raw(0) && a[4].buf == EncBuf::Raw(1) && a[5].buf == EncBuf::Raw(2));
    assert(a[6].buf == EncBuf::Act(0) && a[7].buf == EncBuf::Act(1) && a[8].buf == EncBuf::Act(2));
}

/// The buffers of a clip hold `s_pad` rows of what its layers read and write, and
/// for every attention block what the two GEMMs of attention stride over.
pub proof fn law_clip_buffers_fit(e: GpuAudioEncoder, c: Clip)
    requires
        e.d_model as int % 2 == 0,
        e.attn_cols as int % 2 == 0,
        c.s_pad as int % 2 == 0,
        c.wpad as int % 2 == 0,
        c.wpad * e.hd <= usize::MAX,
        e.hd * c.wpad <= usize::MAX,
        c.wpad * c.wpad <= usize::MAX,
        c.wpad * c.hd_pad <= usize::MAX,
    ensures
        ({
            let a = clip_allocs(e, c);
            let scores = score_shape(e, c);
            let values = value_shape(c);
            let rows = c.s_pad as int;
            &&& enc_sized_as(a, EncBuf::Mel, c.n_chunks * e.mel_chunk * 2)
            &&& enc_sized_as(a, EncBuf::Packed, rows * c.cf * 2)
            &&& enc_sized_as(a, EncBuf::HRaw, rows * e.d_model * 2)
            &&& enc_sized_as(a, EncBuf::H, rows * e.d_model * 2)
            &&& enc_sized_as(a, EncBuf::Normed, rows * e.d_model * 2)
            &&& enc_sized_as(a, EncBuf::Norm2, rows * e.d_model * 2)
            &&& enc_sized_as(a, EncBuf::Qkv, rows * c.qkv_cols * 2)
            &&& enc_sized_as(a, EncBuf::Q, rows * e.attn_cols * 2)
            &&& enc_sized_as(a, EncBuf::K, rows * e.attn_cols * 2)
            &&& enc_sized_as(a, EncBuf::V, rows * e.attn_cols * 2)
            &&& enc_sized_as(a, EncBuf::AttnFlat, rows * e.attn_cols * 2)
            &&& enc_sized_as(a, EncBuf::Qp, c.blocks * (scores.bsa * 2) * 2)
            &&& enc_sized_as(a, EncBuf::Kt, c.blocks * (scores.bsb * 2) * 2)
            &&& enc_sized_as(a, EncBuf::Scores, c.blocks * scores.bsc * 2)
            &&& enc_sized_as(a, EncBuf::Attn, c.blocks * (values.bsa * 2) * 2)
            &&& enc_sized_as(a, EncBuf::Vp, c.blocks * (values.bsb * 2) * 2)
            &&& enc_sized_as(a, EncBuf::AttnOut, c.blocks * values.bsc * 2)
            &&& enc_sized_as(a, EncBuf::Gu, rows * c.gu_pad * 2)
            &&& enc_sized_as(a, EncBuf::Gact, rows * c.inter_pad * 2)
            &&& enc_sized_as(a, EncBuf::Out, rows * e.out_dim * 2)
        }),
{
    let a = clip_allocs(e, c);
    let rows = c.s_pad as int;
    lemma_rows_even(rows, c.cf as int);
    lemma_rows_even(rows, e.d_model as int);
    lemma_rows_even(rows, c.qkv_cols as int);
    lemma_rows_even(rows, e.attn_cols as int);
    lemma_rows_even(rows, c.gu_pad as int);
    lemma_rows_even(rows, c.inter_pad as int);
    lemma_rows_even(rows, e.out_dim as int);
    let b = c.blocks as int;
    let w = c.wpad as int;
    lemma_rows_even(w, e.hd as int);
    lemma_rows_even(w, w);
    lemma_rows_even(w, c.hd_pad as int);
    assert(e.hd * w == w * e.hd) by (nonlinear_arith);
    assert(b * w * e.hd == b * (w * e.hd) && b * e.hd * w == b * (e.hd * w) && b * w * w == b * (w * w) && b * w * c.hd_pad
        == b * (w * c.hd_pad)) by (nonlinear_arith);
    assert(w * e.hd >= 0 && w * w >= 0 && w * c.hd_pad >= 0) by (nonlinear_arith)
        requires
            w >= 0,
    ;
    assert(a[0].buf == EncBuf::Mel && a[1].buf == EncBuf::Packed && a[2].buf == EncBuf::HRaw && a[3].buf == EncBuf::H);
    assert(a[4].buf == EncBuf::Normed && a[5].buf == EncBuf::Norm2 && a[6].buf == EncBuf::Qkv && a[7].buf == EncBuf::Q);
    assert(a[8].buf == EncBuf::K && a[9].buf == EncBuf::V && a[10].buf == EncBuf::AttnFlat && a[11].buf == EncBuf::Qp);
    assert(a[12].buf == EncBuf::Kt && a[13].buf == EncBuf::Vp && a[14].buf == EncBuf::Scores && a[15].buf
        == EncBuf::Attn);
    assert(a[16].buf == EncBuf::AttnOut && a[17].buf == EncBuf::Gu && a[18].buf == EncBuf::Gact && a[19].buf
        == EncBuf::Out);
}

proof fn lemma_rows_even(a: int, b: int)
    requires
        a % 2 == 0,
    ensures
        a * b / 2 * 4 == a * b * 2,
        a * b / 2 * 2 == a * b,
{
    let h = a / 2;
    assert(a * b == 2 * (h * b)) by (nonlinear_arith)
        requires
            a == 2 * h,
    ;
}

/// The bytes of weights that a step reads are two for every element of every
/// matrix it multiplies with: the four of each layer, and the embedding table.
pub proof fn law_step_weight_bytes(d: WgpuTextDecoder, l: usize)
    ensures
        d.step_weight_bytes_spec() == d.cfg.num_hidden_layers * (matrix_bytes(d.cfg, Buf::QkvW(l)) + matrix_bytes(
            d.cfg,
            Buf::OW(l),
        ) + matrix_bytes(d.cfg, Buf::GuW(l)) + matrix_bytes(d.cfg, Buf::DpW(l))) + matrix_bytes(
            d.cfg,
            Buf::EmbedTable,
        ),
{
    let c = d.cfg;
    let n = c.num_hidden_layers as int;
    let a = c.qkv_width() * c.hidden_size;
    let b = c.hidden_size * c.q_width();
    let g = 2 * c.intermediate_size * c.hidden_size;
    let e = c.hidden_size * c.intermediate_size;
    assert((a + b + g + e) * 2 * n == n * (a * 2 + b * 2 + g * 2 + e * 2)) by (nonlinear_arith);
}

/// Bytes of a weight matrix, as the model has it.
pub open spec fn matrix_bytes(cfg: TextConfig, w: Buf) -> int {
    matrix_rows(cfg, w) * matrix_cols(cfg, w) * 2
}

/// A prefill is accepted if and only if the hidden states are all there, the slabs
/// have a settings slot each, and the largest buffer of its attention can be
/// bound: the slabs' results, or the flat probabilities.
pub proof fn law_accepted_prefill_binds(cfg: TextConfig, d: PrefillDims, hidden_len: int, limit: u64)
    requires
        prefill_fits(cfg, d),
        even_widths(cfg),
        d.mp as int % 128 == 0,
        d.cur16 as int % 16 == 0,
    ensures
        prefill_error(cfg, d, hidden_len, limit) is None <==> {
            &&& d.s * cfg.hidden_size * 2 <= hidden_len
            &&& d.slabbed() ==> d.n_slab <= 16 && exists|i: int|
                0 <= i < prefill_allocs(cfg, d).len() && (#[trigger] prefill_allocs(cfg, d)[i]).buf == Buf::PSlabPart
                    && prefill_allocs(cfg, d)[i].bytes <= limit
            &&& !d.slabbed() ==> exists|i: int|
                0 <= i < prefill_allocs(cfg, d).len() && (#[trigger] prefill_allocs(cfg, d)[i]).buf == Buf::PAttn
                    && prefill_allocs(cfg, d)[i].bytes <= limit
        },
{
    let a = prefill_allocs(cfg, d);
    let mp = d.mp as int;
    let heads = cfg.num_attention_heads as int;
    let hd = cfg.head_dim as int;
    lemma_even_product(heads, hd);
    lemma_even_product(heads * mp, d.prob_cols());
    let n = d.n_slab as int;
    lemma_even_product(n * mp, heads * hd);
    assert(n * mp * heads * hd * 2 == n * mp * (heads * hd) * 2) by (nonlinear_arith);
    assert(heads * mp >= 0 && n * mp >= 0 && heads * hd >= 0) by (nonlinear_arith)
        requires
            heads >= 0,
            mp >= 0,
            n >= 0,
            hd >= 0,
    ;
    assert(heads * mp * d.cur16 >= 0 && n * mp * (heads * hd) >= 0) by (nonlinear_arith)
        requires
            heads * mp >= 0,
            n * mp >= 0,
            heads * hd >= 0,
    ;
    assert(a[8].buf == Buf::PAttn);
    if d.slabbed() {
        assert(a[9].buf == Buf::PSlabPart);
        assert forall|i: int| 0 <= i < a.len() && (#[trigger] a[i]).buf == Buf::PSlabPart implies i == 9 by {}
    } else {
        assert forall|i: int| 0 <= i < a.len() && (#[trigger] a[i]).buf == Buf::PAttn implies i == 8 by {}
    }
}

} // verus!
