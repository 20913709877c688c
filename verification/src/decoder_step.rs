//! One decode step as a plan: the uniforms it writes and the dispatches it
//! issues, fused for production and op by op for the probes.
use vstd::prelude::*;

use crate::decoder::{
    gqa_split_chunk, split_chunk, Switches, TextConfig, WgpuTextDecoder, GEMV_NORM_RPW, GQA_SINGLE_CAP,
};
use crate::decoder_ops::{Buf, Group, Kernel, Op, Uniform};
use crate::geometry::{ceil_div, div_up, grid_x, grid_xy, grid_y};
use crate::text::str_eq;

verus! {

/// `s` if `cond` holds, else nothing.
pub open spec fn kept(cond: bool, s: Seq<Op>) -> Seq<Op> {
    if cond {
        s
    } else {
        Seq::empty()
    }
}

/// Sets a kernel and its operands and dispatches it.
pub open spec fn run_ops(kernel: Kernel, group: Group, x: u32, y: u32, z: u32) -> Seq<Op> {
    seq![Op::Pipeline(kernel), Op::Bind(group), Op::Dispatch { x, y, z }]
}

/// A dispatch alone, on what is set.
pub open spec fn again_ops(x: u32, y: u32, z: u32) -> Seq<Op> {
    seq![Op::Dispatch { x, y, z }]
}

pub(crate) fn run(kernel: Kernel, group: Group, x: u32, y: u32, z: u32) -> (r: Vec<Op>)
    ensures
        r@ == run_ops(kernel, group, x, y, z),
{
    vec![Op::Pipeline(kernel), Op::Bind(group), Op::Dispatch { x, y, z }]
}

pub(crate) fn again(cond: bool, x: u32, y: u32, z: u32) -> (r: Vec<Op>)
    ensures
        r@ == kept(cond, again_ops(x, y, z)),
{
    if cond {
        vec![Op::Dispatch { x, y, z }]
    } else {
        Vec::new()
    }
}

/// A dispatch that `skip` may drop and `dup` may repeat, by its name.
pub open spec fn site_ops(
    skip: Seq<char>,
    dup: Seq<char>,
    name: Seq<char>,
    kernel: Kernel,
    group: Group,
    x: u32,
    y: u32,
) -> Seq<Op> {
    kept(skip != name, run_ops(kernel, group, x, y, 1)) + kept(dup == name, again_ops(x, y, 1))
}

fn site(skip: &str, dup: &str, name: &str, kernel: Kernel, group: Group, x: u32, y: u32) -> (r: Vec<Op>)
    ensures
        r@ == site_ops(skip@, dup@, name@, kernel, group, x, y),
{
    let mut r = if str_eq(skip, name) {
        Vec::new()
    } else {
        run(kernel, group, x, y, 1)
    };
    let mut t = again(str_eq(dup, name), x, y, 1);
    r.append(&mut t);
    r
}

/// Whether attention handles the two query heads of a kv head together.
pub open spec fn is_paired(cfg: TextConfig, pair: bool) -> bool {
    cfg.num_attention_heads == 2 * cfg.num_key_value_heads && pair
}

/// The chunk that split attention is dispatched with. The paired kernel has no
/// 128-wide build.
pub open spec fn dispatch_chunk(cfg: TextConfig, sw: Switches, cur_len: int) -> int {
    let c = split_chunk(sw.gqa_chunk as int, cur_len);
    if is_paired(cfg, sw.gqa_pair) && c < 256 {
        256
    } else {
        c
    }
}

/// Chunks of `chunk` that a context takes.
pub open spec fn chunks_of(cur_len: usize, chunk: int) -> int {
    ceil_div((cur_len as u32) as int, chunk)
}

/// The split-attention kernel.
pub open spec fn split_kernel(paired: bool, chunk: int) -> Kernel {
    if paired && chunk == 512 {
        Kernel::GqaSplitPair512
    } else if paired {
        Kernel::GqaSplitPair256
    } else if chunk == 128 {
        Kernel::GqaSplit128
    } else if chunk == 512 {
        Kernel::GqaSplit512
    } else {
        Kernel::GqaSplit256
    }
}

/// Attention of layer `l` over a context of `cur_len`.
pub open spec fn gqa_ops(cfg: TextConfig, sw: Switches, l: usize, cur_len: usize) -> Seq<Op> {
    let nqh = cfg.num_attention_heads as u32;
    if cur_len <= GQA_SINGLE_CAP {
        run_ops(
            if cur_len > 512 {
                Kernel::Gqa512
            } else {
                Kernel::Gqa256
            },
            Group::Gqa(l),
            nqh,
            1,
            1,
        )
    } else {
        let paired = is_paired(cfg, sw.gqa_pair);
        let chunk = dispatch_chunk(cfg, sw, cur_len as int);
        let split = split_kernel(paired, chunk);
        let x = (if paired {
            cfg.num_key_value_heads
        } else {
            cfg.num_attention_heads
        }) as u32;
        let y = chunks_of(cur_len, chunk) as u32;
        run_ops(split, Group::GqaSplit(l), x, y, 1) + kept(sw.dup@ == "gqa_p1"@, again_ops(x, y, 1)) + kept(
            sw.dup@ == "gqa_p1_coal"@,
            run_ops(Kernel::GqaSplitPair256Coal, Group::GqaSplit(l), x, y, 1).push(Op::Pipeline(split)),
        ) + kept(
            sw.dup@ == "gqa_p1_row0"@,
            run_ops(Kernel::GqaSplitPair256Row0, Group::GqaSplit(l), x, y, 1).push(Op::Pipeline(split)),
        ) + run_ops(Kernel::GqaMerge, Group::GqaMerge, nqh, 1, 1) + kept(
            sw.dup@ == "gqa_merge"@,
            again_ops(nqh, 1, 1),
        )
    }
}

/// A diagnostic attention dispatch in front of the merge.
fn diagnostic(cond: bool, kernel: Kernel, l: usize, x: u32, y: u32, split: Kernel) -> (r: Vec<Op>)
    ensures
        r@ == kept(cond, run_ops(kernel, Group::GqaSplit(l), x, y, 1).push(Op::Pipeline(split))),
{
    if cond {
        let mut r = run(kernel, Group::GqaSplit(l), x, y, 1);
        r.push(Op::Pipeline(split));
        r
    } else {
        Vec::new()
    }
}

/// Columns per workgroup of a plain vector-matrix kernel.
pub open spec fn gemv_grid(rows: int, rpw: usize) -> u32 {
    (rows / (rpw as int)) as u32
}

/// Columns per workgroup of a fused norm-and-multiply kernel.
pub open spec fn norm_grid(rows: int) -> u32 {
    (rows / 8) as u32
}

/// Workgroups of the activation over one row.
pub open spec fn silu_groups(cfg: TextConfig) -> int {
    ceil_div(cfg.intermediate_size as int / 2, 256)
}

/// One layer of the fused step.
pub open spec fn step_layer_ops(cfg: TextConfig, sw: Switches, l: usize, cur_len: usize) -> Seq<Op> {
    let heads = (cfg.num_attention_heads + cfg.num_key_value_heads) as u32;
    let hidden = gemv_grid(cfg.hidden_size as int, sw.gemv_rpw);
    let sg = silu_groups(cfg);
    site_ops(
        sw.skip@,
        sw.dup@,
        "qkv"@,
        Kernel::GemvQkvNorm,
        Group::GemvQkvNorm(l),
        norm_grid(cfg.qkv_width()),
        1,
    ) + site_ops(sw.skip@, sw.dup@, "extract"@, Kernel::Extract, Group::Extract(l), 1, heads) + kept(
        sw.skip@ != "gqa"@,
        gqa_ops(cfg, sw, l, cur_len),
    ) + kept(sw.dup@ == "gqa"@ && sw.skip@ != "gqa"@, gqa_ops(cfg, sw, l, cur_len)) + site_ops(
        sw.skip@,
        sw.dup@,
        "o"@,
        Kernel::GemvO,
        Group::GemvO(l),
        hidden,
        1,
    ) + site_ops(
        sw.skip@,
        sw.dup@,
        "gu"@,
        Kernel::GemvGuNorm,
        Group::GemvGuNorm(l),
        norm_grid(2 * cfg.intermediate_size),
        1,
    ) + site_ops(
        sw.skip@,
        sw.dup@,
        "silu"@,
        Kernel::Silu,
        Group::Silu,
        grid_x(sg) as u32,
        grid_y(sg) as u32,
    ) + site_ops(sw.skip@, sw.dup@, "dp"@, Kernel::GemvDp, Group::GemvDp(l), hidden, 1)
}

/// The first `n` layers of the fused step.
pub open spec fn step_layers_ops(cfg: TextConfig, sw: Switches, n: nat, cur_len: usize) -> Seq<Op>
    decreases n,
{
    if n == 0 {
        Seq::empty()
    } else {
        step_layers_ops(cfg, sw, (n - 1) as nat, cur_len) + step_layer_ops(cfg, sw, (n - 1) as usize, cur_len)
    }
}

/// The whole fused step.
pub open spec fn encode_step_ops(cfg: TextConfig, sw: Switches, cur_len: usize) -> Seq<Op> {
    run_ops(Kernel::Embed, Group::Embed, 1, 1, 1) + step_layers_ops(cfg, sw, cfg.num_hidden_layers as nat, cur_len)
        + site_ops(
        sw.skip@,
        sw.dup@,
        "lm"@,
        Kernel::GemvLmNorm,
        Group::GemvLmNorm,
        norm_grid(cfg.vocab_size as int),
        1,
    ) + kept(sw.skip@ != "argmax"@, run_ops(Kernel::Argmax, Group::Argmax, 1, 1, 1)) + seq![Op::CopyToken]
}

/// The activation's uniform for `rows` rows.
pub open spec fn silu_write(cfg: TextConfig, rows: int) -> Op {
    let words = rows * cfg.intermediate_size / 2;
    Op::Write {
        buf: Buf::USilu,
        offset: 0,
        data: Uniform::Silu {
            inter2: (cfg.intermediate_size / 2) as u32,
            total2: words as u32,
            gx: grid_x(ceil_div(words, 256)) as u32,
        },
    }
}

/// The uniforms of a step at position `pos`.
pub open spec fn step_uniforms(d: WgpuTextDecoder, sw: Switches, scale_bits: u32, pos: usize) -> Seq<Op> {
    let cur_len = (pos + 1) as usize;
    let n_chunks = chunks_of(cur_len, dispatch_chunk(d.cfg, sw, cur_len as int)) as u32;
    seq![
        silu_write(d.cfg, 1),
        Op::Write {
            buf: Buf::UQkvx,
            offset: 0,
            data: Uniform::Qkvx {
                max_seq: d.cap as u32,
                start: pos as u32,
                pos_offset: pos as u32,
                s: 1,
                eps_bits: d.cfg.rms_norm_eps_bits,
            },
        },
        Op::Write {
            buf: Buf::UGqa,
            offset: 0,
            data: Uniform::Gqa { cur_len: cur_len as u32, max_seq: d.cap as u32, scale_bits },
        },
        Op::Write {
            buf: Buf::UGp1,
            offset: 0,
            data: Uniform::Split { cur_len: cur_len as u32, max_seq: d.cap as u32, scale_bits, n_chunks },
        },
        Op::Write { buf: Buf::UGp2, offset: 0, data: Uniform::Merge { n_chunks } },
    ]
}

/// The ops of one layer, unfused, in the order of their numbers.
pub open spec fn single_op(cfg: TextConfig, sw: Switches, l: usize, cur_len: usize, op: int) -> Seq<Op> {
    let heads = (cfg.num_attention_heads + cfg.num_key_value_heads) as u32;
    let hidden = gemv_grid(cfg.hidden_size as int, sw.gemv_rpw);
    if op == 0 {
        run_ops(Kernel::RmsNorm, Group::Rms1(l), 1, 1, 1)
    } else if op == 1 {
        run_ops(Kernel::GemvQkv, Group::GemvQkv(l), gemv_grid(cfg.qkv_width(), sw.gemv_rpw), 1, 1)
    } else if op == 2 {
        run_ops(Kernel::Extract, Group::Extract(l), 1, heads, 1)
    } else if op == 3 {
        gqa_ops(cfg, sw, l, cur_len)
    } else if op == 4 {
        run_ops(Kernel::GemvO, Group::GemvO(l), hidden, 1, 1)
    } else if op == 5 {
        run_ops(Kernel::RmsNorm, Group::Rms2(l), 1, 1, 1)
    } else if op == 6 {
        run_ops(Kernel::GemvGu, Group::GemvGu(l), gemv_grid(2 * cfg.intermediate_size, sw.gemv_rpw), 1, 1)
    } else if op == 7 {
        run_ops(Kernel::Silu, Group::Silu, silu_groups(cfg) as u32, 1, 1)
    } else {
        run_ops(Kernel::GemvDp, Group::GemvDp(l), hidden, 1, 1)
    }
}

/// One layer, unfused, with the activation's grid split over two axes.
pub open spec fn debug_layer_ops(cfg: TextConfig, sw: Switches, l: usize, cur_len: usize) -> Seq<Op> {
    let sg = silu_groups(cfg);
    single_op(cfg, sw, l, cur_len, 0) + single_op(cfg, sw, l, cur_len, 1) + single_op(cfg, sw, l, cur_len, 2)
        + single_op(cfg, sw, l, cur_len, 3) + single_op(cfg, sw, l, cur_len, 4) + single_op(cfg, sw, l, cur_len, 5)
        + single_op(cfg, sw, l, cur_len, 6) + run_ops(
        Kernel::Silu,
        Group::Silu,
        grid_x(sg) as u32,
        grid_y(sg) as u32,
        1,
    ) + single_op(cfg, sw, l, cur_len, 8)
}

/// The unfused tail: final norm, vocabulary projection, argmax.
pub open spec fn tail_ops(cfg: TextConfig) -> Seq<Op> {
    run_ops(Kernel::RmsNorm, Group::FinalRms, 1, 1, 1) + run_ops(
        Kernel::GemvLm,
        Group::GemvLm,
        norm_grid(cfg.vocab_size as int),
        1,
        1,
    ) + run_ops(Kernel::Argmax, Group::Argmax, 1, 1, 1)
}

/// What the step plans need of the configuration.
pub open spec fn step_fits(cfg: TextConfig, sw: Switches) -> bool {
    &&& cfg.widths_fit()
    &&& 2 * cfg.num_key_value_heads <= usize::MAX
    &&& sw.wf()
}

impl WgpuTextDecoder {
    /// Attention of layer `l`.
    pub fn encode_gqa(&self, sw: &Switches, l: usize, cur_len: usize) -> (r: Vec<Op>)
        requires
            step_fits(self.cfg, *sw),
        ensures
            r@ == gqa_ops(self.cfg, *sw, l, cur_len),
    {
        let nqh: u32 = self.cfg.num_attention_heads as u32;
        if cur_len <= GQA_SINGLE_CAP {
            let k = if cur_len > 512 {
                Kernel::Gqa512
            } else {
                Kernel::Gqa256
            };
            return run(k, Group::Gqa(l), nqh, 1, 1);
        }
        let paired: bool = self.pairs_heads(sw);
        let chunk: usize = self.chunk_dispatched(sw, cur_len);
        let y: u32 = div_up((cur_len as u32) as usize, chunk) as u32;
        let split = if paired && chunk == 512 {
            Kernel::GqaSplitPair512
        } else if paired {
            Kernel::GqaSplitPair256
        } else if chunk == 128 {
            Kernel::GqaSplit128
        } else if chunk == 512 {
            Kernel::GqaSplit512
        } else {
            Kernel::GqaSplit256
        };
        let x: u32 = if paired {
            self.cfg.num_key_value_heads as u32
        } else {
            self.cfg.num_attention_heads as u32
        };
        let dup = sw.dup.as_str();
        let mut r = run(split, Group::GqaSplit(l), x, y, 1);
        let mut t = again(str_eq(dup, "gqa_p1"), x, y, 1);
        r.append(&mut t);
        let mut t = diagnostic(str_eq(dup, "gqa_p1_coal"), Kernel::GqaSplitPair256Coal, l, x, y, split);
        r.append(&mut t);
        let mut t = diagnostic(str_eq(dup, "gqa_p1_row0"), Kernel::GqaSplitPair256Row0, l, x, y, split);
        r.append(&mut t);
        let mut t = run(Kernel::GqaMerge, Group::GqaMerge, nqh, 1, 1);
        r.append(&mut t);
        let mut t = again(str_eq(dup, "gqa_merge"), nqh, 1, 1);
        r.append(&mut t);
        r
    }

    fn step_layer(&self, sw: &Switches, l: usize, cur_len: usize) -> (r: Vec<Op>)
        requires
            step_fits(self.cfg, *sw),
        ensures
            r@ == step_layer_ops(self.cfg, *sw, l, cur_len),
    {
        let cfg = &self.cfg;
        let skip = sw.skip.as_str();
        let dup = sw.dup.as_str();
        let heads: u32 = (cfg.num_attention_heads + cfg.num_key_value_heads) as u32;
        let hidden: u32 = (cfg.hidden_size / sw.gemv_rpw) as u32;
        let qkv: u32 = (cfg.fused_qkv_cols() / GEMV_NORM_RPW) as u32;
        let gu: u32 = (2 * cfg.intermediate_size / GEMV_NORM_RPW) as u32;
        let sg = grid_xy(div_up(cfg.intermediate_size / 2, 256));
        let mut r = site(skip, dup, "qkv", Kernel::GemvQkvNorm, Group::GemvQkvNorm(l), qkv, 1);
        let mut t = site(skip, dup, "extract", Kernel::Extract, Group::Extract(l), 1, heads);
        r.append(&mut t);
        let no_gqa: bool = str_eq(skip, "gqa");
        let mut t = if no_gqa {
            Vec::new()
        } else {
            self.encode_gqa(sw, l, cur_len)
        };
        r.append(&mut t);
        let mut t = if str_eq(dup, "gqa") && !no_gqa {
            self.encode_gqa(sw, l, cur_len)
        } else {
            Vec::new()
        };
        r.append(&mut t);
        let mut t = site(skip, dup, "o", Kernel::GemvO, Group::GemvO(l), hidden, 1);
        r.append(&mut t);
        let mut t = site(skip, dup, "gu", Kernel::GemvGuNorm, Group::GemvGuNorm(l), gu, 1);
        r.append(&mut t);
        let mut t = site(skip, dup, "silu", Kernel::Silu, Group::Silu, sg.0, sg.1);
        r.append(&mut t);
        let mut t = site(skip, dup, "dp", Kernel::GemvDp, Group::GemvDp(l), hidden, 1);
        r.append(&mut t);
        r
    }

    /// The dispatches of the step at position `pos`. `dup` repeats one of them
    /// by name, `skip` drops one.
    pub fn encode_step(&self, sw: &Switches, pos: usize) -> (r: Vec<Op>)
        requires
            step_fits(self.cfg, *sw),
            pos < usize::MAX,
        ensures
            r@ == encode_step_ops(self.cfg, *sw, (pos + 1) as usize),
    {
        let cfg = &self.cfg;
        let cur_len: usize = pos + 1;
        let skip = sw.skip.as_str();
        let dup = sw.dup.as_str();
        let mut r = run(Kernel::Embed, Group::Embed, 1, 1, 1);
        let mut layers: Vec<Op> = Vec::new();
        for l in 0..cfg.num_hidden_layers
            invariant
                step_fits(self.cfg, *sw),
                cfg == &self.cfg,
                layers@ == step_layers_ops(self.cfg, *sw, l as nat, cur_len),
        {
            let mut t = self.step_layer(sw, l, cur_len);
            layers.append(&mut t);
        }
        r.append(&mut layers);
        let vocab: u32 = (cfg.vocab_size / GEMV_NORM_RPW) as u32;
        let mut t = site(skip, dup, "lm", Kernel::GemvLmNorm, Group::GemvLmNorm, vocab, 1);
        r.append(&mut t);
        let mut t = if str_eq(skip, "argmax") {
            Vec::new()
        } else {
            run(Kernel::Argmax, Group::Argmax, 1, 1, 1)
        };
        r.append(&mut t);
        let mut t = vec![Op::CopyToken];
        r.append(&mut t);
        r
    }

    /// The activation's uniform for `rows` rows, and its grid.
    pub fn write_silu_rows(&self, rows: usize) -> (r: (Op, (u32, u32)))
        requires
            rows * self.cfg.intermediate_size <= usize::MAX,
        ensures
            r.0 == silu_write(self.cfg, rows as int),
            r.1.0 == grid_x(ceil_div(rows * self.cfg.intermediate_size / 2, 256)),
            r.1.1 == grid_y(ceil_div(rows * self.cfg.intermediate_size / 2, 256)) as u32,
    {
        let words: usize = rows * self.cfg.intermediate_size / 2;
        let g = grid_xy(div_up(words, 256));
        let op = Op::Write {
            buf: Buf::USilu,
            offset: 0,
            data: Uniform::Silu {
                inter2: (self.cfg.intermediate_size / 2) as u32,
                total2: words as u32,
                gx: g.0,
            },
        };
        (op, g)
    }

    fn pairs_heads(&self, sw: &Switches) -> (r: bool)
        ensures
            r == is_paired(self.cfg, sw.gqa_pair),
    {
        let heads: usize = self.cfg.num_attention_heads;
        heads % 2 == 0 && heads / 2 == self.cfg.num_key_value_heads && sw.gqa_pair
    }

    fn chunk_dispatched(&self, sw: &Switches, cur_len: usize) -> (r: usize)
        ensures
            r == dispatch_chunk(self.cfg, *sw, cur_len as int),
    {
        let c: usize = gqa_split_chunk(sw.gqa_chunk, cur_len);
        if self.pairs_heads(sw) && c < 256 {
            256
        } else {
            c
        }
    }

    /// The uniforms of the step at position `pos`.
    pub fn write_step_uniforms(&self, sw: &Switches, scale_bits: u32, pos: usize) -> (r: Vec<Op>)
        requires
            sw.wf(),
            pos < usize::MAX,
        ensures
            r@ == step_uniforms(*self, *sw, scale_bits, pos),
    {
        let cur_len: usize = pos + 1;
        proof {
            assert(1 * self.cfg.intermediate_size == self.cfg.intermediate_size) by (nonlinear_arith);
        }
        let silu = self.write_silu_rows(1).0;
        let chunk: usize = self.chunk_dispatched(sw, cur_len);
        let n_chunks: u32 = div_up((cur_len as u32) as usize, chunk) as u32;
        vec![
            silu,
            Op::Write {
                buf: Buf::UQkvx,
                offset: 0,
                data: Uniform::Qkvx {
                    max_seq: self.cap as u32,
                    start: pos as u32,
                    pos_offset: pos as u32,
                    s: 1,
                    eps_bits: self.cfg.rms_norm_eps_bits,
                },
            },
            Op::Write {
                buf: Buf::UGqa,
                offset: 0,
                data: Uniform::Gqa { cur_len: cur_len as u32, max_seq: self.cap as u32, scale_bits },
            },
            Op::Write {
                buf: Buf::UGp1,
                offset: 0,
                data: Uniform::Split { cur_len: cur_len as u32, max_seq: self.cap as u32, scale_bits, n_chunks },
            },
            Op::Write { buf: Buf::UGp2, offset: 0, data: Uniform::Merge { n_chunks } },
        ]
    }

    /// Everything that one decode step queues and submits at the decoder's
    /// position.
    pub fn step(&self, sw: &Switches, scale_bits: u32) -> (r: Vec<Op>)
        requires
            step_fits(self.cfg, *sw),
            self.pos < usize::MAX,
        ensures
            r@ == step_uniforms(*self, *sw, scale_bits, self.pos) + encode_step_ops(
                self.cfg,
                *sw,
                (self.pos + 1) as usize,
            ) + seq![Op::Submit],
    {
        let mut r = self.write_step_uniforms(sw, scale_bits, self.pos);
        let mut t = self.encode_step(sw, self.pos);
        r.append(&mut t);
        let mut t = vec![Op::Submit];
        r.append(&mut t);
        r
    }

    /// Takes the outcome of reading the token back: a step that failed leaves
    /// the position where it was.
    pub fn stepped<E>(&mut self, token: Result<i32, E>) -> (r: Result<i32, E>)
        requires
            old(self).pos < usize::MAX,
        ensures
            r == token,
            *final(self) == (WgpuTextDecoder {
                pos: if token is Ok {
                    (old(self).pos + 1) as usize
                } else {
                    old(self).pos
                },
                ..*old(self)
            }),
    {
        match token {
            Ok(t) => {
                self.pos = self.pos + 1;
                Ok(t)
            },
            Err(e) => Err(e),
        }
    }

    /// The embedding lookup alone.
    pub fn debug_encode_embed(&self) -> (r: Vec<Op>)
        ensures
            r@ == run_ops(Kernel::Embed, Group::Embed, 1, 1, 1),
    {
        run(Kernel::Embed, Group::Embed, 1, 1, 1)
    }

    /// The embedding lookup, in a pass that is open.
    pub fn debug_dispatch_embed(&self) -> (r: Vec<Op>)
        ensures
            r@ == run_ops(Kernel::Embed, Group::Embed, 1, 1, 1),
    {
        self.debug_encode_embed()
    }

    /// The uniforms of a step at position `pos` alone.
    pub fn debug_write_step_uniforms(&self, sw: &Switches, scale_bits: u32, pos: usize) -> (r: Vec<Op>)
        requires
            sw.wf(),
            pos < usize::MAX,
        ensures
            r@ == step_uniforms(*self, *sw, scale_bits, pos),
    {
        self.write_step_uniforms(sw, scale_bits, pos)
    }

    /// One of the nine ops of layer `l`, behind its step uniforms.
    pub fn debug_encode_op(&self, sw: &Switches, scale_bits: u32, l: usize, pos: usize, op: usize) -> (r: Vec<Op>)
        requires
            step_fits(self.cfg, *sw),
            pos < usize::MAX,
            op < 9,
        ensures
            r@ == step_uniforms(*self, *sw, scale_bits, pos) + single_op(
                self.cfg,
                *sw,
                l,
                (pos + 1) as usize,
                op as int,
            ),
    {
        let mut r = self.write_step_uniforms(sw, scale_bits, pos);
        let mut t = self.debug_dispatch_op(sw, l, pos, op);
        r.append(&mut t);
        r
    }

    /// One of the nine ops of layer `l`: 0 norm, 1 query/key/value projection,
    /// 2 extraction, 3 attention, 4 output projection, 5 norm, 6 gate and up
    /// projection, 7 activation, 8 down projection.
    pub fn debug_dispatch_op(&self, sw: &Switches, l: usize, pos: usize, op: usize) -> (r: Vec<Op>)
        requires
            step_fits(self.cfg, *sw),
            pos < usize::MAX,
            op < 9,
        ensures
            r@ == single_op(self.cfg, *sw, l, (pos + 1) as usize, op as int),
    {
        let cfg = &self.cfg;
        let hidden: u32 = (cfg.hidden_size / sw.gemv_rpw) as u32;
        if op == 0 {
            run(Kernel::RmsNorm, Group::Rms1(l), 1, 1, 1)
        } else if op == 1 {
            run(Kernel::GemvQkv, Group::GemvQkv(l), (cfg.fused_qkv_cols() / sw.gemv_rpw) as u32, 1, 1)
        } else if op == 2 {
            run(
                Kernel::Extract,
                Group::Extract(l),
                1,
                (cfg.num_attention_heads + cfg.num_key_value_heads) as u32,
                1,
            )
        } else if op == 3 {
            self.encode_gqa(sw, l, pos + 1)
        } else if op == 4 {
            run(Kernel::GemvO, Group::GemvO(l), hidden, 1, 1)
        } else if op == 5 {
            run(Kernel::RmsNorm, Group::Rms2(l), 1, 1, 1)
        } else if op == 6 {
            run(Kernel::GemvGu, Group::GemvGu(l), (2 * cfg.intermediate_size / sw.gemv_rpw) as u32, 1, 1)
        } else if op == 7 {
            run(Kernel::Silu, Group::Silu, div_up(cfg.intermediate_size / 2, 256) as u32, 1, 1)
        } else {
            run(Kernel::GemvDp, Group::GemvDp(l), hidden, 1, 1)
        }
    }

    /// Layer `l` alone, unfused, behind its step uniforms.
    pub fn debug_encode_layer(&self, sw: &Switches, scale_bits: u32, l: usize, pos: usize) -> (r: Vec<Op>)
        requires
            step_fits(self.cfg, *sw),
            pos < usize::MAX,
        ensures
            r@ == step_uniforms(*self, *sw, scale_bits, pos) + debug_layer_ops(
                self.cfg,
                *sw,
                l,
                (pos + 1) as usize,
            ),
    {
        let sg = grid_xy(div_up(self.cfg.intermediate_size / 2, 256));
        let mut r = self.write_step_uniforms(sw, scale_bits, pos);
        let mut layer = self.debug_dispatch_op(sw, l, pos, 0);
        let mut t = self.debug_dispatch_op(sw, l, pos, 1);
        layer.append(&mut t);
        let mut t = self.debug_dispatch_op(sw, l, pos, 2);
        layer.append(&mut t);
        let mut t = self.debug_dispatch_op(sw, l, pos, 3);
        layer.append(&mut t);
        let mut t = self.debug_dispatch_op(sw, l, pos, 4);
        layer.append(&mut t);
        let mut t = self.debug_dispatch_op(sw, l, pos, 5);
        layer.append(&mut t);
        let mut t = self.debug_dispatch_op(sw, l, pos, 6);
        layer.append(&mut t);
        let mut t = run(Kernel::Silu, Group::Silu, sg.0, sg.1, 1);
        layer.append(&mut t);
        let mut t = self.debug_dispatch_op(sw, l, pos, 8);
        layer.append(&mut t);
        r.append(&mut layer);
        r
    }

    /// The unfused tail alone.
    pub fn debug_encode_tail(&self) -> (r: Vec<Op>)
        ensures
            r@ == tail_ops(self.cfg),
    {
        let mut r = run(Kernel::RmsNorm, Group::FinalRms, 1, 1, 1);
        let mut t = run(Kernel::GemvLm, Group::GemvLm, (self.cfg.vocab_size / 8) as u32, 1, 1);
        r.append(&mut t);
        let mut t = run(Kernel::Argmax, Group::Argmax, 1, 1, 1);
        r.append(&mut t);
        r
    }

    /// The tail, in a pass that is open.
    pub fn debug_dispatch_tail(&self) -> (r: Vec<Op>)
        ensures
            r@ == tail_ops(self.cfg),
    {
        self.debug_encode_tail()
    }
}

/// The dispatches in a list of commands.
pub open spec fn dispatch_count(s: Seq<Op>) -> nat
    decreases s.len(),
{
    if s.len() == 0 {
        0
    } else {
        dispatch_count(s.drop_last()) + (if s.last() is Dispatch {
            1nat
        } else {
            0nat
        })
    }
}

proof fn lemma_count_add(a: Seq<Op>, b: Seq<Op>)
    ensures
        dispatch_count(a + b) == dispatch_count(a) + dispatch_count(b),
    decreases b.len(),
{
    if b.len() == 0 {
        assert(a + b =~= a);
    } else {
        lemma_count_add(a, b.drop_last());
        assert((a + b).drop_last() =~= a + b.drop_last());
    }
}

proof fn lemma_count_run(kernel: Kernel, group: Group, x: u32, y: u32, z: u32)
    ensures
        dispatch_count(run_ops(kernel, group, x, y, z)) == 1,
{
    let s = run_ops(kernel, group, x, y, z);
    assert(s.drop_last().drop_last().drop_last() =~= Seq::<Op>::empty());
    reveal_with_fuel(dispatch_count, 4);
}

proof fn lemma_count_site(skip: Seq<char>, dup: Seq<char>, name: Seq<char>, kernel: Kernel, group: Group, x: u32, y: u32)
    requires
        skip != name,
        dup != name,
    ensures
        dispatch_count(site_ops(skip, dup, name, kernel, group, x, y)) == 1,
{
    lemma_count_run(kernel, group, x, y, 1);
    assert(site_ops(skip, dup, name, kernel, group, x, y) =~= run_ops(kernel, group, x, y, 1));
}

/// No dispatch is repeated or dropped.
pub open spec fn plain(sw: Switches) -> bool {
    sw.dup@.len() == 0 && sw.skip@.len() == 0
}

pub proof fn lemma_names()
    ensures
        "qkv"@.len() > 0,
        "extract"@.len() > 0,
        "gqa"@.len() > 0,
        "o"@.len() > 0,
        "gu"@.len() > 0,
        "silu"@.len() > 0,
        "dp"@.len() > 0,
        "lm"@.len() > 0,
        "argmax"@.len() > 0,
        "gqa_p1"@.len() > 0,
        "gqa_p1_coal"@.len() > 0,
        "gqa_p1_row0"@.len() > 0,
        "gqa_merge"@.len() > 0,
{
    reveal_strlit("qkv");
    reveal_strlit("extract");
    reveal_strlit("gqa");
    reveal_strlit("o");
    reveal_strlit("gu");
    reveal_strlit("silu");
    reveal_strlit("dp");
    reveal_strlit("lm");
    reveal_strlit("argmax");
    reveal_strlit("gqa_p1");
    reveal_strlit("gqa_p1_coal");
    reveal_strlit("gqa_p1_row0");
    reveal_strlit("gqa_merge");
}

/// Dispatches of one layer's attention.
pub open spec fn attention_dispatches(cur_len: int) -> nat {
    if cur_len > GQA_SINGLE_CAP {
        2
    } else {
        1
    }
}

proof fn lemma_count_gqa(cfg: TextConfig, sw: Switches, l: usize, cur_len: usize)
    requires
        plain(sw),
    ensures
        dispatch_count(gqa_ops(cfg, sw, l, cur_len)) == attention_dispatches(cur_len as int),
{
    lemma_names();
    let nqh = cfg.num_attention_heads as u32;
    if cur_len <= GQA_SINGLE_CAP {
        lemma_count_run(
            if cur_len > 512 {
                Kernel::Gqa512
            } else {
                Kernel::Gqa256
            },
            Group::Gqa(l),
            nqh,
            1,
            1,
        );
    } else {
        let paired = is_paired(cfg, sw.gqa_pair);
        let chunk = dispatch_chunk(cfg, sw, cur_len as int);
        let split = split_kernel(paired, chunk);
        let x = (if paired {
            cfg.num_key_value_heads
        } else {
            cfg.num_attention_heads
        }) as u32;
        let y = chunks_of(cur_len, chunk) as u32;
        let a = run_ops(split, Group::GqaSplit(l), x, y, 1);
        let b = run_ops(Kernel::GqaMerge, Group::GqaMerge, nqh, 1, 1);
        lemma_count_run(split, Group::GqaSplit(l), x, y, 1);
        lemma_count_run(Kernel::GqaMerge, Group::GqaMerge, nqh, 1, 1);
        lemma_count_add(a, b);
        assert(gqa_ops(cfg, sw, l, cur_len) =~= a + b);
    }
}

proof fn lemma_count_step_layer(cfg: TextConfig, sw: Switches, l: usize, cur_len: usize)
    requires
        plain(sw),
    ensures
        dispatch_count(step_layer_ops(cfg, sw, l, cur_len)) == 6 + attention_dispatches(cur_len as int),
{
    lemma_names();
    let heads = (cfg.num_attention_heads + cfg.num_key_value_heads) as u32;
    let hidden = gemv_grid(cfg.hidden_size as int, sw.gemv_rpw);
    let sg = silu_groups(cfg);
    let (k, d) = (sw.skip@, sw.dup@);
    let a1 = site_ops(k, d, "qkv"@, Kernel::GemvQkvNorm, Group::GemvQkvNorm(l), norm_grid(cfg.qkv_width()), 1);
    let a2 = site_ops(k, d, "extract"@, Kernel::Extract, Group::Extract(l), 1, heads);
    let a3 = gqa_ops(cfg, sw, l, cur_len);
    let a4 = site_ops(k, d, "o"@, Kernel::GemvO, Group::GemvO(l), hidden, 1);
    let a5 = site_ops(
        k,
        d,
        "gu"@,
        Kernel::GemvGuNorm,
        Group::GemvGuNorm(l),
        norm_grid(2 * cfg.intermediate_size),
        1,
    );
    let a6 = site_ops(k, d, "silu"@, Kernel::Silu, Group::Silu, grid_x(sg) as u32, grid_y(sg) as u32);
    let a7 = site_ops(k, d, "dp"@, Kernel::GemvDp, Group::GemvDp(l), hidden, 1);
    lemma_count_site(k, d, "qkv"@, Kernel::GemvQkvNorm, Group::GemvQkvNorm(l), norm_grid(cfg.qkv_width()), 1);
    lemma_count_site(k, d, "extract"@, Kernel::Extract, Group::Extract(l), 1, heads);
    lemma_count_gqa(cfg, sw, l, cur_len);
    lemma_count_site(k, d, "o"@, Kernel::GemvO, Group::GemvO(l), hidden, 1);
    lemma_count_site(
        k,
        d,
        "gu"@,
        Kernel::GemvGuNorm,
        Group::GemvGuNorm(l),
        norm_grid(2 * cfg.intermediate_size),
        1,
    );
    lemma_count_site(k, d, "silu"@, Kernel::Silu, Group::Silu, grid_x(sg) as u32, grid_y(sg) as u32);
    lemma_count_site(k, d, "dp"@, Kernel::GemvDp, Group::GemvDp(l), hidden, 1);
    let e = Seq::<Op>::empty();
    assert(a1 + a2 + a3 + e =~= a1 + a2 + a3);
    lemma_count_add(a1, a2);
    lemma_count_add(a1 + a2, a3);
    lemma_count_add(a1 + a2 + a3, a4);
    lemma_count_add(a1 + a2 + a3 + a4, a5);
    lemma_count_add(a1 + a2 + a3 + a4 + a5, a6);
    lemma_count_add(a1 + a2 + a3 + a4 + a5 + a6, a7);
}

proof fn lemma_count_step_layers(cfg: TextConfig, sw: Switches, n: nat, cur_len: usize)
    requires
        plain(sw),
    ensures
        dispatch_count(step_layers_ops(cfg, sw, n, cur_len)) == n * (6 + attention_dispatches(cur_len as int)),
    decreases n,
{
    let per = 6 + attention_dispatches(cur_len as int);
    if n > 0 {
        let m = (n - 1) as nat;
        lemma_count_step_layers(cfg, sw, m, cur_len);
        lemma_count_step_layer(cfg, sw, m as usize, cur_len);
        lemma_count_add(step_layers_ops(cfg, sw, m, cur_len), step_layer_ops(cfg, sw, m as usize, cur_len));
        assert(n * per == m * per + per) by (nonlinear_arith)
            requires
                n == m + 1,
        ;
    } else {
        assert(0 * per == 0) by (nonlinear_arith);
    }
}

/// A fused step without diagnostics issues the embedding, seven dispatches per
/// layer (eight where attention is split) and the two of the tail.
pub proof fn law_fused_step_dispatches(cfg: TextConfig, sw: Switches, cur_len: usize)
    requires
        plain(sw),
    ensures
        dispatch_count(encode_step_ops(cfg, sw, cur_len)) == 3 + cfg.num_hidden_layers * (6 + attention_dispatches(
            cur_len as int,
        )),
{
    lemma_names();
    let n = cfg.num_hidden_layers as nat;
    let a = run_ops(Kernel::Embed, Group::Embed, 1, 1, 1);
    let b = step_layers_ops(cfg, sw, n, cur_len);
    let v = norm_grid(cfg.vocab_size as int);
    let c = site_ops(sw.skip@, sw.dup@, "lm"@, Kernel::GemvLmNorm, Group::GemvLmNorm, v, 1);
    let d = run_ops(Kernel::Argmax, Group::Argmax, 1, 1, 1);
    let e = seq![Op::CopyToken];
    lemma_count_run(Kernel::Embed, Group::Embed, 1, 1, 1);
    lemma_count_step_layers(cfg, sw, n, cur_len);
    lemma_count_site(sw.skip@, sw.dup@, "lm"@, Kernel::GemvLmNorm, Group::GemvLmNorm, v, 1);
    lemma_count_run(Kernel::Argmax, Group::Argmax, 1, 1, 1);
    assert(dispatch_count(e) == 0) by {
        reveal_with_fuel(dispatch_count, 2);
        assert(e.drop_last() =~= Seq::<Op>::empty());
    }
    lemma_count_add(a, b);
    lemma_count_add(a + b, c);
    lemma_count_add(a + b + c, d);
    lemma_count_add(a + b + c + d, e);
}

proof fn lemma_count_debug_layer(cfg: TextConfig, sw: Switches, l: usize, cur_len: usize)
    requires
        plain(sw),
    ensures
        dispatch_count(debug_layer_ops(cfg, sw, l, cur_len)) == 8 + attention_dispatches(cur_len as int),
{
    let heads = (cfg.num_attention_heads + cfg.num_key_value_heads) as u32;
    let hidden = gemv_grid(cfg.hidden_size as int, sw.gemv_rpw);
    let sg = silu_groups(cfg);
    let s = |op: int| single_op(cfg, sw, l, cur_len, op);
    let u = run_ops(Kernel::Silu, Group::Silu, grid_x(sg) as u32, grid_y(sg) as u32, 1);
    lemma_count_run(Kernel::RmsNorm, Group::Rms1(l), 1, 1, 1);
    lemma_count_run(Kernel::GemvQkv, Group::GemvQkv(l), gemv_grid(cfg.qkv_width(), sw.gemv_rpw), 1, 1);
    lemma_count_run(Kernel::Extract, Group::Extract(l), 1, heads, 1);
    lemma_count_gqa(cfg, sw, l, cur_len);
    lemma_count_run(Kernel::GemvO, Group::GemvO(l), hidden, 1, 1);
    lemma_count_run(Kernel::RmsNorm, Group::Rms2(l), 1, 1, 1);
    lemma_count_run(Kernel::GemvGu, Group::GemvGu(l), gemv_grid(2 * cfg.intermediate_size, sw.gemv_rpw), 1, 1);
    lemma_count_run(Kernel::Silu, Group::Silu, grid_x(sg) as u32, grid_y(sg) as u32, 1);
    lemma_count_run(Kernel::GemvDp, Group::GemvDp(l), hidden, 1, 1);
    lemma_count_add(s(0), s(1));
    lemma_count_add(s(0) + s(1), s(2));
    lemma_count_add(s(0) + s(1) + s(2), s(3));
    lemma_count_add(s(0) + s(1) + s(2) + s(3), s(4));
    lemma_count_add(s(0) + s(1) + s(2) + s(3) + s(4), s(5));
    lemma_count_add(s(0) + s(1) + s(2) + s(3) + s(4) + s(5), s(6));
    lemma_count_add(s(0) + s(1) + s(2) + s(3) + s(4) + s(5) + s(6), u);
    lemma_count_add(s(0) + s(1) + s(2) + s(3) + s(4) + s(5) + s(6) + u, s(8));
}

/// The first `n` layers of the unfused step.
pub open spec fn debug_layers_ops(cfg: TextConfig, sw: Switches, n: nat, cur_len: usize) -> Seq<Op>
    decreases n,
{
    if n == 0 {
        Seq::empty()
    } else {
        debug_layers_ops(cfg, sw, (n - 1) as nat, cur_len) + debug_layer_ops(cfg, sw, (n - 1) as usize, cur_len)
    }
}

proof fn lemma_count_debug_layers(cfg: TextConfig, sw: Switches, n: nat, cur_len: usize)
    requires
        plain(sw),
    ensures
        dispatch_count(debug_layers_ops(cfg, sw, n, cur_len)) == n * (8 + attention_dispatches(cur_len as int)),
    decreases n,
{
    let per = 8 + attention_dispatches(cur_len as int);
    if n > 0 {
        let m = (n - 1) as nat;
        lemma_count_debug_layers(cfg, sw, m, cur_len);
        lemma_count_debug_layer(cfg, sw, m as usize, cur_len);
        lemma_count_add(debug_layers_ops(cfg, sw, m, cur_len), debug_layer_ops(cfg, sw, m as usize, cur_len));
        assert(n * per == m * per + per) by (nonlinear_arith)
            requires
                n == m + 1,
        ;
    } else {
        assert(0 * per == 0) by (nonlinear_arith);
    }
}

impl WgpuTextDecoder {
    /// Dispatches of one step at a context of `cur_len`: the embedding, seven
    /// per layer (eight where attention is split, for the merge), the LM head and
    /// the argmax.
    pub fn dispatches_per_step(&self, cur_len: usize) -> (r: usize)
        requires
            self.cfg.num_hidden_layers * 8 + 3 <= usize::MAX,
        ensures
            r == 3 + self.cfg.num_hidden_layers * (if cur_len > GQA_SINGLE_CAP {
                8int
            } else {
                7int
            }),
            forall|sw: Switches|
                plain(sw) ==> #[trigger] dispatch_count(encode_step_ops(self.cfg, sw, cur_len)) == r,
    {
        proof {
            assert forall|sw: Switches| plain(sw) implies #[trigger] dispatch_count(
                encode_step_ops(self.cfg, sw, cur_len),
            ) == 3 + self.cfg.num_hidden_layers * (6 + attention_dispatches(cur_len as int)) by {
                law_fused_step_dispatches(self.cfg, sw, cur_len);
            }
        }
        let per_layer: usize = if cur_len > GQA_SINGLE_CAP {
            8
        } else {
            7
        };
        3 + self.cfg.num_hidden_layers * per_layer
    }
}

/// A step run op by op issues the embedding, nine dispatches per layer (ten where
/// attention is split) and the three of the tail.
pub proof fn law_unfused_step_dispatches(cfg: TextConfig, sw: Switches, cur_len: usize)
    requires
        plain(sw),
    ensures
        dispatch_count(
            run_ops(Kernel::Embed, Group::Embed, 1, 1, 1) + debug_layers_ops(
                cfg,
                sw,
                cfg.num_hidden_layers as nat,
                cur_len,
            ) + tail_ops(cfg),
        ) == 1 + cfg.num_hidden_layers * (if cur_len > GQA_SINGLE_CAP {
            10int
        } else {
            9int
        }) + 3,
{
    let n = cfg.num_hidden_layers as nat;
    let a = run_ops(Kernel::Embed, Group::Embed, 1, 1, 1);
    let b = debug_layers_ops(cfg, sw, n, cur_len);
    let v = norm_grid(cfg.vocab_size as int);
    let t1 = run_ops(Kernel::RmsNorm, Group::FinalRms, 1, 1, 1);
    let t2 = run_ops(Kernel::GemvLm, Group::GemvLm, v, 1, 1);
    let t3 = run_ops(Kernel::Argmax, Group::Argmax, 1, 1, 1);
    lemma_count_run(Kernel::Embed, Group::Embed, 1, 1, 1);
    lemma_count_run(Kernel::RmsNorm, Group::FinalRms, 1, 1, 1);
    lemma_count_run(Kernel::GemvLm, Group::GemvLm, v, 1, 1);
    lemma_count_run(Kernel::Argmax, Group::Argmax, 1, 1, 1);
    lemma_count_debug_layers(cfg, sw, n, cur_len);
    lemma_count_add(t1, t2);
    lemma_count_add(t1 + t2, t3);
    lemma_count_add(a, b);
    lemma_count_add(a + b, t1 + t2 + t3);
}

/// Where attention is split, the chunks that a layer dispatches are as many as
/// the split kernel is told of and as the merge combines.
pub proof fn law_chunk_counts_agree(d: WgpuTextDecoder, sw: Switches, scale_bits: u32, pos: usize, l: usize)
    requires
        GQA_SINGLE_CAP <= pos < usize::MAX,
    ensures
        ({
            let n = chunks_of((pos + 1) as usize, dispatch_chunk(d.cfg, sw, pos + 1)) as u32;
            let u = step_uniforms(d, sw, scale_bits, pos);
            &&& u[3] matches Op::Write { buf: Buf::UGp1, data: Uniform::Split { n_chunks, .. }, .. } && n_chunks == n
            &&& u[4] matches Op::Write { buf: Buf::UGp2, data: Uniform::Merge { n_chunks }, .. } && n_chunks == n
            &&& gqa_ops(d.cfg, sw, l, (pos + 1) as usize)[2] matches Op::Dispatch { y, .. } && y == n
        }),
{
}

/// The chunks of a context within the ceiling fit the partial-result buffers,
/// which are sized for chunks of 256.
pub proof fn law_chunks_fit_partials(cfg: TextConfig, sw: Switches, cur_len: usize, max_seq: usize)
    requires
        sw.wf(),
        cur_len <= max_seq <= u32::MAX,
        dispatch_chunk(cfg, sw, cur_len as int) >= 256,
    ensures
        chunks_of(cur_len, dispatch_chunk(cfg, sw, cur_len as int)) <= ceil_div(max_seq as int, 256),
{
    let c = dispatch_chunk(cfg, sw, cur_len as int);
    assert(c == 256 || c == 512);
}

/// Running the nine ops of a layer one after the other is running the layer, as
/// long as the activation's grid fits one axis.
pub proof fn law_ops_make_the_layer(cfg: TextConfig, sw: Switches, l: usize, cur_len: usize)
    requires
        1 <= silu_groups(cfg) <= 65535,
    ensures
        debug_layer_ops(cfg, sw, l, cur_len) == single_op(cfg, sw, l, cur_len, 0) + single_op(cfg, sw, l, cur_len, 1)
            + single_op(cfg, sw, l, cur_len, 2) + single_op(cfg, sw, l, cur_len, 3) + single_op(
            cfg,
            sw,
            l,
            cur_len,
            4,
        ) + single_op(cfg, sw, l, cur_len, 5) + single_op(cfg, sw, l, cur_len, 6) + single_op(
            cfg,
            sw,
            l,
            cur_len,
            7,
        ) + single_op(cfg, sw, l, cur_len, 8),
{
    crate::geometry::law_grid_covers(silu_groups(cfg));
    let g = silu_groups(cfg);
    assert(ceil_div(g, g) == 1) by (nonlinear_arith)
        requires
            g >= 1,
    ;
}

/// A site that the diagnostics may drop or repeat: dropped it issues nothing of its
/// own, repeated it issues once more what it issued, and whatever it issues is its
/// own kernel on its own operands and grid.
pub proof fn law_site_drops_and_repeats(
    skip: Seq<char>,
    dup: Seq<char>,
    name: Seq<char>,
    kernel: Kernel,
    group: Group,
    x: u32,
    y: u32,
)
    ensures
        ({
            let ops = site_ops(skip, dup, name, kernel, group, x, y);
            &&& dispatch_count(ops) == (if skip == name {
                0nat
            } else {
                1nat
            }) + (if dup == name {
                1nat
            } else {
                0nat
            })
            &&& forall|i: int|
                0 <= i < ops.len() ==> #[trigger] ops[i] == Op::Pipeline(kernel) || ops[i] == Op::Bind(group) || ops[i]
                    == (Op::Dispatch { x, y, z: 1 })
            &&& skip != name ==> ops.len() >= 3 && ops[0] == Op::Pipeline(kernel) && ops[1] == Op::Bind(group)
        }),
{
    let a = kept(skip != name, run_ops(kernel, group, x, y, 1));
    let b = kept(dup == name, again_ops(x, y, 1));
    lemma_count_run(kernel, group, x, y, 1);
    lemma_count_add(a, b);
    let one = again_ops(x, y, 1);
    assert(one.drop_last() =~= Seq::empty());
    assert(one.last() is Dispatch);
    assert(dispatch_count(one) == 1) by {
        reveal_with_fuel(dispatch_count, 2);
    }
}

} // verus!
