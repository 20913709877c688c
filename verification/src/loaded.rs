//! What the weight buffers hold once a decoder or a tower is loaded: which tensor each of
//! their rows comes from, against what the kernels take that row for.
use vstd::prelude::*;

use crate::decoder::TextConfig;
use crate::decoder_build::{layer_fills, load_fills, Form};
use crate::decoder_load::{layer_name, layer_tensors};
use crate::decoder_ops::Buf;
use crate::encoder_build::{body_fills, enc_layer_fills, foot_fills, head_fills, tower_fills, EncForm};
use crate::encoder_ops::EncBuf;
use crate::text::dec;
use crate::weights::{bytes_of, fuses_to, half_offset, raw_offset, DType, Fused, RawTensor};

verus! {

/// A weight of the model.
#[derive(Clone, Copy, Debug, PartialEq, Eq, Structural)]
pub enum Weight {
    Embedding,
    FinalNorm,
    Query(usize),
    Key(usize),
    Value(usize),
    Output(usize),
    Gate(usize),
    Up(usize),
    Down(usize),
    Norm1(usize),
    Norm2(usize),
    QueryNorm(usize),
    KeyNorm(usize),
}

/// The name of a tensor of layer `l`.
pub open spec fn in_layer(prefix: Seq<char>, l: usize, tail: Seq<char>) -> Seq<char> {
    prefix + ".layers."@ + dec(l as nat) + tail
}

impl Weight {
    /// The checkpoint's name of the weight.
    pub open spec fn tensor(self, prefix: Seq<char>) -> Seq<char> {
        match self {
            Weight::Embedding => prefix + ".embed_tokens.weight"@,
            Weight::FinalNorm => prefix + ".norm.weight"@,
            Weight::Query(l) => in_layer(prefix, l, ".self_attn.q_proj.weight"@),
            Weight::Key(l) => in_layer(prefix, l, ".self_attn.k_proj.weight"@),
            Weight::Value(l) => in_layer(prefix, l, ".self_attn.v_proj.weight"@),
            Weight::Output(l) => in_layer(prefix, l, ".self_attn.o_proj.weight"@),
            Weight::Gate(l) => in_layer(prefix, l, ".mlp.gate_proj.weight"@),
            Weight::Up(l) => in_layer(prefix, l, ".mlp.up_proj.weight"@),
            Weight::Down(l) => in_layer(prefix, l, ".mlp.down_proj.weight"@),
            Weight::Norm1(l) => in_layer(prefix, l, ".input_layernorm.weight"@),
            Weight::Norm2(l) => in_layer(prefix, l, ".post_attention_layernorm.weight"@),
            Weight::QueryNorm(l) => in_layer(prefix, l, ".self_attn.q_norm.weight"@),
            Weight::KeyNorm(l) => in_layer(prefix, l, ".self_attn.k_norm.weight"@),
        }
    }

    /// The rows of the weight; a vector is one row.
    pub open spec fn rows(self, cfg: TextConfig) -> int {
        match self {
            Weight::Embedding => cfg.vocab_size as int,
            Weight::Query(_) => cfg.num_attention_heads * cfg.head_dim,
            Weight::Key(_) | Weight::Value(_) => cfg.num_key_value_heads * cfg.head_dim,
            Weight::Output(_) | Weight::Down(_) => cfg.hidden_size as int,
            Weight::Gate(_) | Weight::Up(_) => cfg.intermediate_size as int,
            _ => 1,
        }
    }
}

/// What the kernels take row `r` of a weight buffer for: a weight and its row.
pub open spec fn row_meant(cfg: TextConfig, buf: Buf, r: int) -> Option<(Weight, int)> {
    let q = cfg.num_attention_heads * cfg.head_dim;
    let kv = cfg.num_key_value_heads * cfg.head_dim;
    let inter = cfg.intermediate_size as int;
    match buf {
        Buf::EmbedTable => Some((Weight::Embedding, r)),
        Buf::FinalNormW => Some((Weight::FinalNorm, r)),
        Buf::QkvW(l) => if r < q {
            Some((Weight::Query(l), r))
        } else if r < q + kv {
            Some((Weight::Key(l), r - q))
        } else {
            Some((Weight::Value(l), r - q - kv))
        },
        Buf::OW(l) => Some((Weight::Output(l), r)),
        Buf::GuW(l) => if r < inter {
            Some((Weight::Gate(l), r))
        } else {
            Some((Weight::Up(l), r - inter))
        },
        Buf::DpW(l) => Some((Weight::Down(l), r)),
        Buf::IlnW(l) => Some((Weight::Norm1(l), r)),
        Buf::PlnW(l) => Some((Weight::Norm2(l), r)),
        Buf::QnW(l) => Some((Weight::QueryNorm(l), r)),
        Buf::KnW(l) => Some((Weight::KeyNorm(l), r)),
        _ => None,
    }
}

/// The rows of a weight buffer.
pub open spec fn buffer_rows(cfg: TextConfig, buf: Buf) -> int {
    match buf {
        Buf::EmbedTable => cfg.vocab_size as int,
        Buf::QkvW(_) => (cfg.num_attention_heads + 2 * cfg.num_key_value_heads) * cfg.head_dim,
        Buf::OW(_) | Buf::DpW(_) => cfg.hidden_size as int,
        Buf::GuW(_) => 2 * cfg.intermediate_size,
        _ => 1,
    }
}

/// Where row `r` comes from if tensors of `rows` rows each lie one behind the
/// other: a tensor and its row.
pub open spec fn origin(names: Seq<Seq<char>>, rows: spec_fn(Seq<char>) -> int, r: int) -> (Seq<char>, int)
    decreases names.len(),
{
    if names.len() <= 1 || r < rows(names[0]) {
        (names[0], r)
    } else {
        origin(names.drop_first(), rows, r - rows(names[0]))
    }
}

/// Every row of every weight buffer comes from the tensor, and from the row of
/// it, that the kernels take it for. So the first `intermediate_size` rows of a
/// layer's fused `GuW` buffer, the half that goes through the activation, are the
/// rows of that layer's `gate_proj` tensor, and those behind them the rows of its
/// `up_proj` tensor; likewise queries, keys and values.
pub proof fn law_rows_come_from_their_tensors(
    cfg: TextConfig,
    prefix: Seq<char>,
    rows: spec_fn(Seq<char>) -> int,
    i: int,
    r: int,
)
    requires
        0 <= i < load_fills(prefix, cfg.num_hidden_layers as nat).len(),
        0 <= r < buffer_rows(cfg, load_fills(prefix, cfg.num_hidden_layers as nat)[i].0),
        forall|w: Weight| rows(#[trigger] w.tensor(prefix)) == w.rows(cfg),
    ensures
        ({
            let f = load_fills(prefix, cfg.num_hidden_layers as nat)[i];
            &&& row_meant(cfg, f.0, r) matches Some((w, at))
            &&& origin(f.2, rows, r) == (w.tensor(prefix), at)
            &&& 0 <= at < w.rows(cfg)
            &&& f.2.len() > 1 ==> f.1 == Form::Fused
        }),
{
    let n = cfg.num_hidden_layers as nat;
    let f = load_fills(prefix, n)[i];
    assert((cfg.num_attention_heads + 2 * cfg.num_key_value_heads) * cfg.head_dim == cfg.num_attention_heads
        * cfg.head_dim + cfg.num_key_value_heads * cfg.head_dim + cfg.num_key_value_heads * cfg.head_dim)
        by (nonlinear_arith);
    if i >= 2 {
        let l = ((i - 2) / 8) as usize;
        let k = (i - 2) % 8;
        assert(f == layer_fills(prefix, l)[k]);
        assert(rows(Weight::Query(l).tensor(prefix)) == Weight::Query(l).rows(cfg));
        assert(rows(Weight::Key(l).tensor(prefix)) == Weight::Key(l).rows(cfg));
        assert(rows(Weight::Gate(l).tensor(prefix)) == Weight::Gate(l).rows(cfg));
        reveal_with_fuel(origin, 3);
        if k == 0 {
            let names = f.2;
            assert(names.drop_first()[0] == names[1]);
            assert(names.drop_first().drop_first()[0] == names[2]);
        } else if k == 2 {
            let names = f.2;
            assert(names.drop_first()[0] == names[1]);
        }
    }
}

/// Every weight of every layer is in some buffer: its row `r` is what a row of a
/// buffer is taken for.
pub proof fn law_every_weight_is_loaded(cfg: TextConfig, prefix: Seq<char>, l: usize)
    requires
        l < cfg.num_hidden_layers,
    ensures
        ({
            let f = load_fills(prefix, cfg.num_hidden_layers as nat);
            let at = 2 + 8 * l;
            &&& f[0].2.contains(Weight::Embedding.tensor(prefix))
            &&& f[1].2.contains(Weight::FinalNorm.tensor(prefix))
            &&& f[at].0 == Buf::QkvW(l) && f[at].2.contains(Weight::Query(l).tensor(prefix)) && f[at].2.contains(
                Weight::Key(l).tensor(prefix),
            ) && f[at].2.contains(Weight::Value(l).tensor(prefix))
            &&& f[at + 1].0 == Buf::OW(l) && f[at + 1].2.contains(Weight::Output(l).tensor(prefix))
            &&& f[at + 2].0 == Buf::GuW(l) && f[at + 2].2.contains(Weight::Gate(l).tensor(prefix))
                && f[at + 2].2.contains(Weight::Up(l).tensor(prefix))
            &&& f[at + 3].0 == Buf::DpW(l) && f[at + 3].2.contains(Weight::Down(l).tensor(prefix))
            &&& f[at + 4].0 == Buf::IlnW(l) && f[at + 4].2.contains(Weight::Norm1(l).tensor(prefix))
            &&& f[at + 5].0 == Buf::PlnW(l) && f[at + 5].2.contains(Weight::Norm2(l).tensor(prefix))
            &&& f[at + 6].0 == Buf::QnW(l) && f[at + 6].2.contains(Weight::QueryNorm(l).tensor(prefix))
            &&& f[at + 7].0 == Buf::KnW(l) && f[at + 7].2.contains(Weight::KeyNorm(l).tensor(prefix))
        }),
{
    let n = cfg.num_hidden_layers as nat;
    let f = load_fills(prefix, n);
    let at = 2 + 8 * l;
    assert(f[0].2[0] == Weight::Embedding.tensor(prefix));
    assert(f[1].2[0] == Weight::FinalNorm.tensor(prefix));
    assert forall|k: int| 0 <= k < 8 implies #[trigger] f[at + k] == layer_fills(prefix, l)[k] by {
        assert((at + k - 2) / 8 == l && (at + k - 2) % 8 == k);
    }
    assert(f[at + 0].2[0] == Weight::Query(l).tensor(prefix));
    assert(f[at + 0].2[1] == Weight::Key(l).tensor(prefix));
    assert(f[at + 0].2[2] == Weight::Value(l).tensor(prefix));
    assert(f[at + 1].2[0] == Weight::Output(l).tensor(prefix));
    assert(f[at + 2].2[0] == Weight::Gate(l).tensor(prefix));
    assert(f[at + 2].2[1] == Weight::Up(l).tensor(prefix));
    assert(f[at + 3].2[0] == Weight::Down(l).tensor(prefix));
    assert(f[at + 4].2[0] == Weight::Norm1(l).tensor(prefix));
    assert(f[at + 5].2[0] == Weight::Norm2(l).tensor(prefix));
    assert(f[at + 6].2[0] == Weight::QueryNorm(l).tensor(prefix));
    assert(f[at + 7].2[0] == Weight::KeyNorm(l).tensor(prefix));
}

/// Rows of the first `k` matrices.
pub open spec fn rows_before(ts: Seq<&RawTensor>, k: int) -> int
    decreases k,
{
    if k <= 0 {
        0
    } else {
        rows_before(ts, k - 1) + ts[k - 1].shape@[0]
    }
}

/// The matrices all have `cols` columns and hold what their shapes say.
pub open spec fn same_cols(ts: Seq<&RawTensor>, cols: int) -> bool {
    forall|k: int|
        0 <= k < ts.len() ==> (#[trigger] ts[k]).shape@.len() == 2 && ts[k].shape@[1] == cols && ts[k].bytes().len()
            == ts[k].shape@[0] * cols * ts[k].dtype.size()
}

proof fn lemma_offsets_in_rows(ts: Seq<&RawTensor>, cols: int, k: int)
    requires
        same_cols(ts, cols),
        0 <= k <= ts.len(),
        cols >= 0,
    ensures
        half_offset(ts, k) == rows_before(ts, k) * cols * 2,
        (forall|j: int| 0 <= j < ts.len() ==> (#[trigger] ts[j]).dtype == DType::F16) ==> raw_offset(ts, k)
            == rows_before(ts, k) * cols * 2,
    decreases k,
{
    if k > 0 {
        lemma_offsets_in_rows(ts, cols, k - 1);
        let t = ts[k - 1];
        let n = t.shape@[0] as int;
        let z = t.dtype.size();
        let b = rows_before(ts, k - 1);
        assert((n * cols * z) / z == n * cols) by (nonlinear_arith)
            requires
                z > 0,
        ;
        assert((b + n) * cols * 2 == b * cols * 2 + n * cols * 2) by (nonlinear_arith);
    } else {
        assert(0 * cols * 2 == 0) by (nonlinear_arith);
    }
}

/// Fused matrices of one width lie row behind row: each begins behind the rows of
/// all before it, at two bytes an element.
pub proof fn law_fused_rows_follow(ts: Seq<&RawTensor>, f: Fused, cols: int, k: int)
    requires
        fuses_to(ts, Ok(f)),
        same_cols(ts, cols),
        cols >= 0,
        0 <= k < ts.len(),
    ensures
        match f {
            Fused::Pieces(p) => p@[k].0 == rows_before(ts, k) * cols * 2 && bytes_of(p@[k].1).len() == ts[k].shape@[0]
                * cols * 2,
            Fused::Convert(p) => p@[k].0 == rows_before(ts, k) * cols * 2 && p@[k].1 == ts[k].shape@[0] * cols * 2,
        },
{
    lemma_offsets_in_rows(ts, cols, k);
    lemma_offsets_in_rows(ts, cols, k + 1);
    let n = ts[k].shape@[0] as int;
    let b = rows_before(ts, k);
    assert((b + n) * cols * 2 == b * cols * 2 + n * cols * 2) by (nonlinear_arith);
}

/// The module that row `r` of a tower weight is taken for, and its row there.
/// Queries, keys and values have `dm` rows each.
pub open spec fn tower_row_meant(prefix: Seq<char>, w: EncBuf, dm: int, r: int) -> Option<(Seq<char>, int)> {
    match w {
        EncBuf::ConvW(i) => if i == 0 {
            Some((prefix + ".conv2d1"@, r))
        } else if i == 1 {
            Some((prefix + ".conv2d2"@, r))
        } else {
            Some((prefix + ".conv2d3"@, r))
        },
        EncBuf::ConvOutW => Some((prefix + ".conv_out"@, r)),
        EncBuf::QkvW(l) => if r < dm {
            Some((in_layer(prefix, l, ".self_attn.q_proj"@), r))
        } else if r < 2 * dm {
            Some((in_layer(prefix, l, ".self_attn.k_proj"@), r - dm))
        } else {
            Some((in_layer(prefix, l, ".self_attn.v_proj"@), r - 2 * dm))
        },
        EncBuf::OW(l) => Some((in_layer(prefix, l, ".self_attn.out_proj"@), r)),
        EncBuf::Fc1W(l) => Some((in_layer(prefix, l, ".fc1"@), r)),
        EncBuf::Fc2W(l) => Some((in_layer(prefix, l, ".fc2"@), r)),
        EncBuf::SlnW(l) => Some((in_layer(prefix, l, ".self_attn_layer_norm"@), r)),
        EncBuf::FlnW(l) => Some((in_layer(prefix, l, ".final_layer_norm"@), r)),
        EncBuf::LnPostW => Some((prefix + ".ln_post"@, r)),
        EncBuf::Proj1W => Some((prefix + ".proj1"@, r)),
        EncBuf::Proj2W => Some((prefix + ".proj2"@, r)),
        _ => None,
    }
}

/// The bias that the kernels use with a tower weight.
pub open spec fn bias_meant(w: EncBuf) -> Option<EncBuf> {
    match w {
        EncBuf::ConvW(i) => Some(EncBuf::ConvB(i)),
        EncBuf::QkvW(l) => Some(EncBuf::QkvB(l)),
        EncBuf::OW(l) => Some(EncBuf::OB(l)),
        EncBuf::Fc1W(l) => Some(EncBuf::Fc1B(l)),
        EncBuf::Fc2W(l) => Some(EncBuf::Fc2B(l)),
        EncBuf::SlnW(l) => Some(EncBuf::SlnB(l)),
        EncBuf::FlnW(l) => Some(EncBuf::FlnB(l)),
        EncBuf::LnPostW => Some(EncBuf::LnPostB),
        EncBuf::Proj1W => Some(EncBuf::Proj1B),
        EncBuf::Proj2W => Some(EncBuf::Proj2B),
        _ => None,
    }
}

/// Every row of every weight of the tower comes from the module, and from the row
/// of it, that the kernels take it for, and its bias is that module's: of a layer's
/// fused projection the first rows are the queries', the next the keys' and the
/// last the values'.
pub proof fn law_tower_rows_come_from_their_modules(
    prefix: Seq<char>,
    n: nat,
    rows: spec_fn(Seq<char>) -> int,
    dm: int,
    i: int,
    r: int,
)
    requires
        n <= usize::MAX,
        0 <= i < tower_fills(prefix, n).len(),
        0 <= r,
        dm >= 0,
        forall|l: usize| rows(#[trigger] in_layer(prefix, l, ".self_attn.q_proj"@)) == dm,
        forall|l: usize| rows(#[trigger] in_layer(prefix, l, ".self_attn.k_proj"@)) == dm,
    ensures
        ({
            let f = tower_fills(prefix, n)[i];
            &&& tower_row_meant(prefix, f.0, dm, r) == Some(origin(f.3, rows, r))
            &&& f.1 == bias_meant(f.0)
            &&& f.3.len() > 1 ==> f.2 == EncForm::Fused
            &&& f.2 == EncForm::Conv <==> f.0 is ConvW
            &&& f.2 == EncForm::Norm <==> f.0 is SlnW || f.0 is FlnW || f.0 is LnPostW
        }),
{
    let f = tower_fills(prefix, n)[i];
    reveal_with_fuel(origin, 3);
    if i < 4 {
        assert(f == head_fills(prefix)[i]);
    } else if i < 4 + 6 * n {
        let j = i - 4;
        let l = (j / 6) as usize;
        let k = j % 6;
        assert(f == body_fills(prefix, n)[j]);
        assert(f == enc_layer_fills(prefix, l)[k]);
        assert(rows(in_layer(prefix, l, ".self_attn.q_proj"@)) == dm);
        assert(rows(in_layer(prefix, l, ".self_attn.k_proj"@)) == dm);
        if k == 3 {
            let names = f.3;
            assert(names.drop_first()[0] == names[1]);
            assert(names.drop_first().drop_first()[0] == names[2]);
        }
    } else {
        assert(f == foot_fills(prefix)[i - 4 - 6 * n]);
    }
}

/// No weight of the tower is filled twice, and those of every layer are filled.
pub proof fn law_tower_filled_once(prefix: Seq<char>, n: nat, i: int, j: int)
    requires
        n <= usize::MAX,
        0 <= i < tower_fills(prefix, n).len(),
        0 <= j < tower_fills(prefix, n).len(),
        tower_fills(prefix, n)[i].0 == tower_fills(prefix, n)[j].0,
    ensures
        i == j,
        tower_fills(prefix, n).len() == 7 + 6 * n,
{
    let f = tower_fills(prefix, n);
    assert forall|k: int| 0 <= k < f.len() implies (#[trigger] f[k]) == (if k < 4 {
        head_fills(prefix)[k]
    } else if k < 4 + 6 * n {
        enc_layer_fills(prefix, ((k - 4) / 6) as usize)[(k - 4) % 6]
    } else {
        foot_fills(prefix)[k - 4 - 6 * n]
    }) by {
        if 4 <= k < 4 + 6 * n {
            assert(f[k] == body_fills(prefix, n)[k - 4]);
        }
    }
    let a = f[i];
    let b = f[j];
    if 4 <= i < 4 + 6 * n && 4 <= j < 4 + 6 * n {
        assert((i - 4) == (i - 4) / 6 * 6 + (i - 4) % 6);
        assert((j - 4) == (j - 4) / 6 * 6 + (j - 4) % 6);
    }
}

/// The tensors that are listed for a layer are those that its buffers are filled
/// from: each is in some buffer, and no buffer takes another.
pub proof fn law_listed_tensors_fill(prefix: Seq<char>, l: usize)
    ensures
        forall|i: int|
            0 <= i < layer_tensors().len() ==> exists|k: int, j: int|
                fills_with(prefix, l, k, j, layer_name(prefix, l as nat) + #[trigger] layer_tensors()[i]),
        forall|k: int, j: int, t: Seq<char>|
            #[trigger] fills_with(prefix, l, k, j, t) ==> exists|i: int|
                0 <= i < layer_tensors().len() && t == layer_name(prefix, l as nat) + #[trigger] layer_tensors()[i],
        layer_tensors().len() == 11,
{
    let p = layer_name(prefix, l as nat);
    let t = layer_tensors();
    assert(fills_with(prefix, l, 1, 0, p + t[0]));
    assert(fills_with(prefix, l, 3, 0, p + t[1]));
    assert(fills_with(prefix, l, 0, 0, p + t[2]));
    assert(fills_with(prefix, l, 0, 1, p + t[3]));
    assert(fills_with(prefix, l, 0, 2, p + t[4]));
    assert(fills_with(prefix, l, 2, 0, p + t[5]));
    assert(fills_with(prefix, l, 2, 1, p + t[6]));
    assert(fills_with(prefix, l, 4, 0, p + t[7]));
    assert(fills_with(prefix, l, 5, 0, p + t[8]));
    assert(fills_with(prefix, l, 6, 0, p + t[9]));
    assert(fills_with(prefix, l, 7, 0, p + t[10]));
    assert forall|k: int, j: int, x: Seq<char>| #[trigger] fills_with(prefix, l, k, j, x) implies exists|i: int|
        0 <= i < t.len() && x == p + #[trigger] t[i] by {
        let i: int = if k == 0 {
            2 + j
        } else if k == 1 {
            0
        } else if k == 2 {
            5 + j
        } else if k == 3 {
            1
        } else {
            k + 3
        };
        assert(x == p + t[i]);
    }
}

/// Tensor `j` of fill `k` of a layer is `t`.
pub open spec fn fills_with(prefix: Seq<char>, l: usize, k: int, j: int, t: Seq<char>) -> bool {
    let f = layer_fills(prefix, l);
    0 <= k < f.len() && 0 <= j < f[k].2.len() && f[k].2[j] == t
}

} // verus!
