//! What a pass reads back.
use vstd::prelude::*;

use crate::encoder::GpuAudioEncoder;
use crate::encoder_ops::EncOp;
use crate::encoder_plan::{
    conv_out_ops, encode_ops, finish_ops, layer_end, layer_ops, layers_ops, project_ops, round_len, round_ops,
    rounds_ops, scale_writes, Clip,
};
use crate::geometry::ceil_div;

verus! {

/// A command of the list reads a buffer back.
#[verifier::opaque]
pub open spec fn reads_back(ops: Seq<EncOp>) -> bool {
    exists|i: int| 0 <= i < ops.len() && #[trigger] ops[i] is Read
}

pub proof fn lemma_joined()
    ensures
        forall|a: Seq<EncOp>, b: Seq<EncOp>| #[trigger] reads_back(a + b) == (reads_back(a) || reads_back(b)),
        !reads_back(Seq::<EncOp>::empty()),
{
    reveal(reads_back);
    assert forall|a: Seq<EncOp>, b: Seq<EncOp>| #[trigger] reads_back(a + b) == (reads_back(a) || reads_back(b)) by {
        let s = a + b;
        if reads_back(a) {
            let i = choose|i: int| 0 <= i < a.len() && #[trigger] a[i] is Read;
            assert(s[i] is Read);
        }
        if reads_back(b) {
            let i = choose|i: int| 0 <= i < b.len() && #[trigger] b[i] is Read;
            assert(s[a.len() + i] is Read);
        }
    }
}

proof fn lemma_round(e: GpuAudioEncoder, c: Clip, ch0: int, k: int)
    ensures
        !reads_back(round_ops(e, c, ch0, k, false)),
{
    reveal(reads_back);
    lemma_joined();
}

proof fn lemma_rounds(e: GpuAudioEncoder, c: Clip, k: nat)
    ensures
        !reads_back(rounds_ops(e, c, k, false)),
    decreases k,
{
    lemma_joined();
    if k > 0 {
        lemma_rounds(e, c, (k - 1) as nat);
        lemma_round(e, c, (k - 1) * 8, round_len(c, (k - 1) * 8));
    }
}

proof fn lemma_layers(e: GpuAudioEncoder, c: Clip, k: nat)
    ensures
        !reads_back(layers_ops(e, c, k, false)),
    decreases k,
{
    lemma_joined();
    if k > 0 {
        lemma_layers(e, c, (k - 1) as nat);
        assert(!reads_back(layer_ops(e, c, (k - 1) as usize, false)) && !reads_back(
            layer_end(e, c, k - 1, false),
        )) by {
            reveal(reads_back);
        }
    }
}

/// A pass that is not captured reads the embeddings back, as its last command,
/// and nothing else.
pub proof fn law_only_embeds_read(e: GpuAudioEncoder, c: Clip)
    ensures
        encode_ops(e, c, false).last() is Read,
        !reads_back(encode_ops(e, c, false).drop_last()),
{
    lemma_joined();
    let f = finish_ops(e, c, false);
    let n = e.layers@.len() as nat;
    let body = scale_writes(e, c) + rounds_ops(e, c, ceil_div(c.n_chunks as int, 8) as nat, false) + conv_out_ops(
        e,
        c,
        false,
    ) + layers_ops(e, c, n, false) + project_ops(e, c);
    lemma_rounds(e, c, ceil_div(c.n_chunks as int, 8) as nat);
    lemma_layers(e, c, n);
    assert(!reads_back(scale_writes(e, c)) && !reads_back(conv_out_ops(e, c, false)) && !reads_back(
        project_ops(e, c),
    ) && !reads_back(f.drop_last())) by {
        reveal(reads_back);
    }
    assert(encode_ops(e, c, false).drop_last() =~= body + f.drop_last());
}

} // verus!
