//! Both sides of a binding agree: a kernel reads each field of a uniform where it
//! was written, and a layout declares each buffer of a group as what it is.
use vstd::prelude::*;

use crate::decoder_ops::{Buf, GDims, Group, Kernel, Uniform};
use crate::encoder_ops::{EncBuf, EncGroup, EncUniform, Pipe};
use crate::pipelines::{built_pipes, layout_of, BindKind};
use crate::tower_machine::pipe_place;

verus! {

/// The settings that a kernel finds in the words of a slot, field after field as
/// it declares them, where `kind` says which settings it expects.
pub open spec fn found(kind: Uniform, w: Seq<u32>) -> Uniform {
    match kind {
        Uniform::Rms { .. } => Uniform::Rms { eps_bits: w[0] },
        Uniform::Qkvx { .. } => Uniform::Qkvx {
            max_seq: w[0],
            start: w[1],
            pos_offset: w[2],
            s: w[3],
            eps_bits: w[4],
        },
        Uniform::Gemm(_) => Uniform::Gemm(
            GDims {
                m: w[0],
                n: w[1],
                k: w[2],
                ldc: w[3],
                bsa: w[4],
                bsb: w[5],
                bsc: w[6],
                beta: w[7],
                row0: w[8],
                lda: w[9],
            },
        ),
        Uniform::Silu { .. } => Uniform::Silu { inter2: w[0], total2: w[1], gx: w[2] },
        Uniform::RepeatKv { .. } => Uniform::RepeatKv {
            nkvh: w[0],
            max_seq: w[1],
            cur: w[2],
            hd: w[3],
            npw: w[4],
            gx: w[5],
        },
        Uniform::Softmax { .. } => Uniform::Softmax {
            n_w: w[0],
            n_x: w[1],
            valid: w[2],
            m: w[3],
            mp: w[4],
            scale_bits: w[5],
            gx: w[6],
            row0: w[7],
        },
        Uniform::SlabStats { .. } => Uniform::SlabStats {
            n_x: w[0],
            valid: w[1],
            m: w[2],
            mp: w[3],
            scale_bits: w[4],
            row0: w[5],
            gx: w[6],
            rows: w[7],
        },
        Uniform::SlabWeights { .. } => Uniform::SlabWeights { rows: w[0], n_slab: w[1], gx: w[2] },
        Uniform::SlabMerge { .. } => Uniform::SlabMerge { rows: w[0], n_slab: w[1], gx: w[2] },
        Uniform::Gqa { .. } => Uniform::Gqa { cur_len: w[0], max_seq: w[1], scale_bits: w[2] },
        Uniform::Split { .. } => Uniform::Split { cur_len: w[0], max_seq: w[1], scale_bits: w[2], n_chunks: w[3] },
        Uniform::Merge { .. } => Uniform::Merge { n_chunks: w[0] },
        Uniform::Argmax { .. } => Uniform::Argmax { n: w[0], slot: w[1] },
        Uniform::Embed { .. } => Uniform::Embed { slot: w[0], d2: w[1] },
    }
}

/// A decoder kernel finds in a slot the settings that were written to it.
pub proof fn law_kernels_find_settings(u: Uniform)
    ensures
        found(u, u.words_spec()) == u,
{
}

/// The settings that a tower kernel finds in the words of a uniform.
pub open spec fn enc_found(kind: EncUniform, w: Seq<u32>) -> EncUniform {
    match kind {
        EncUniform::Gemm { .. } => EncUniform::Gemm {
            m: w[0],
            n: w[1],
            k: w[2],
            ldc: w[3],
            bsa: w[4],
            bsb: w[5],
            bsc: w[6],
            beta: w[7],
        },
        EncUniform::Im2col { .. } => EncUniform::Im2col {
            taps: w[0],
            k: w[1],
            k_pad: w[2],
            plane: w[3],
            plane_pad: w[4],
            n_chunks: w[5],
            n_all: w[6],
            in_chunk: w[7],
            in_ic: w[8],
            chunk0: w[9],
            bpc: w[10],
        },
        EncUniform::Scale { .. } => EncUniform::Scale { n: w[0], words: w[1], mode: w[2], gx: w[3] },
        EncUniform::Extract { .. } => EncUniform::Extract {
            n_tokens: w[0],
            nh: w[1],
            hd: w[2],
            tpc: w[3],
            row_stride: w[4],
            attn_cols: w[5],
            pe_stride: w[6],
            dm: w[7],
        },
        EncUniform::Softmax { .. } => EncUniform::Softmax {
            s: w[0],
            wlen: w[1],
            wpad: w[2],
            n_win: w[3],
            scale_bits: w[4],
        },
        EncUniform::Window { .. } => EncUniform::Window {
            wlen: w[0],
            wpad: w[1],
            hd: w[2],
            n_win: w[3],
            s: w[4],
            acols: w[5],
            pad_n: w[6],
        },
        EncUniform::Norm { .. } => EncUniform::Norm { d: w[0], eps_bits: w[1] },
        EncUniform::Permute { .. } => EncUniform::Permute {
            c: w[0],
            f: w[1],
            t3: w[2],
            s_pad: w[3],
            n_all: w[4],
            plane_pad: w[5],
            tok0: w[6],
            n_tokens: w[7],
        },
        EncUniform::Position { .. } => EncUniform::Position { d: w[0], tpc: w[1], s_pad: w[2] },
        EncUniform::Compress { .. } => EncUniform::Compress {
            cols: w[0],
            wlen: w[1],
            wpad: w[2],
            hd: w[3],
            n_win: w[4],
            rows: w[5],
        },
    }
}

/// A tower kernel finds in a uniform the settings that were written to it.
pub proof fn law_tower_kernels_find_settings(u: EncUniform)
    ensures
        enc_found(u, u.words_spec()) == u,
{
}

/// The buffer holds uniforms.
pub open spec fn holds_uniforms(b: Buf) -> bool {
    match b {
        Buf::URms | Buf::UQkvx | Buf::UGqa | Buf::UGp1 | Buf::UGp2 | Buf::USilu | Buf::UArgmax | Buf::UEmbed => true,
        Buf::PGd | Buf::PSl | Buf::PRk => true,
        _ => false,
    }
}

/// A group is bound at a dynamic offset.
pub open spec fn moves(g: Group) -> bool {
    g is PGemm || g is PSlabStats || g is PSoftmax
}

/// The group is one that the kernel is dispatched with, and the kernel has a
/// layout of its own.
pub open spec fn goes_with(k: Kernel, g: Group) -> bool {
    match k {
        Kernel::Gqa256 | Kernel::Gqa512 => g is Gqa,
        Kernel::GqaSplit128 | Kernel::GqaSplit256 | Kernel::GqaSplit512 => g is GqaSplit,
        Kernel::GqaSplitPair256 | Kernel::GqaSplitPair512 => g is GqaSplit,
        Kernel::GqaSplitPair256Row0 | Kernel::GqaSplitPair256Coal => g is GqaSplit,
        Kernel::Gemm | Kernel::GemmAcc | Kernel::GemmAv | Kernel::GemmCausal | Kernel::GemmAvCausal => g is PGemm
            && !holds_uniforms(g->a) && !holds_uniforms(g->w) && !holds_uniforms(g->c),
        Kernel::Softmax(_) | Kernel::SoftmaxWide(_, _) => g is PSoftmax,
        Kernel::RepeatKv => g is PRepeatK || g is PRepeatV,
        Kernel::SlabStats => g is PSlabStats,
        Kernel::SlabWeights => g is PSlabWeights,
        Kernel::SlabMerge => g is PSlabMerge,
        _ => false,
    }
}

/// Entry `i` of a group is what the kernel writes.
pub open spec fn is_output(g: Group, i: int) -> bool {
    match g {
        Group::Gqa(_) => i == 3,
        Group::GqaSplit(_) => 3 <= i <= 5,
        Group::PGemm { .. } => i == 2,
        Group::PSlabMerge => i == 2,
        _ => i == 1,
    }
}

/// A layout declares every entry of the groups it is used with: at the same
/// binding, a uniform as one, with a dynamic offset where the group is bound at
/// one, and exactly what the kernel writes as writable.
pub proof fn law_layouts_match_groups(k: Kernel, g: Group, i: int)
    requires
        goes_with(k, g),
        0 <= i < g.bindings_spec().len(),
    ensures
        ({
            let e = layout_of(k).entries_spec();
            let b = g.bindings_spec();
            &&& e.len() == b.len()
            &&& e[i].binding == b[i].index
            &&& e[i].kind == BindKind::ReadWrite <==> is_output(g, i)
            &&& holds_uniforms(b[i].buf) ==> e[i].kind == if moves(g) {
                BindKind::UniformAt
            } else {
                BindKind::Uniform
            }
            &&& !holds_uniforms(b[i].buf) ==> e[i].kind == BindKind::ReadOnly || e[i].kind == BindKind::ReadWrite
        }),
{
}

/// The layouts of the tower's GEMMs declare every entry of their groups: the
/// result as writable, the settings as a uniform at a dynamic offset.
pub proof fn law_tower_layouts_match_groups(p: Pipe, g: EncGroup, i: int)
    requires
        (p == Pipe::Gemm || p == Pipe::GemmT || p == Pipe::GemmBeta) && g is Gemm || (p == Pipe::GemmBias || p
            == Pipe::GemmBetaBias) && g is GemmBias,
        0 <= i < g.bindings_spec().len(),
    ensures
        ({
            let spec = built_pipes()[pipe_place(p)];
            let e = spec.layout.entries_spec();
            let b = g.bindings_spec();
            &&& spec.pipe == p
            &&& e.len() == b.len()
            &&& e[i].binding == b[i].index
            &&& e[i].kind == (if i == 2 {
                BindKind::ReadWrite
            } else if i == 3 {
                BindKind::UniformAt
            } else {
                BindKind::ReadOnly
            })
            &&& i == 3 ==> b[i].buf == EncBuf::UGd
        }),
{
}

} // verus!
