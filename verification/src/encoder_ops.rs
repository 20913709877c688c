//! What an audio tower plan is made of.
use vstd::prelude::*;

use crate::text::{lit, push_dec};

verus! {

/// A buffer of the audio tower. A number is the conv level, the bias-and-GELU
/// site or the layer that owns it.
#[derive(Clone, Copy, Debug, PartialEq, Eq, Structural)]
pub enum EncBuf {
    Mel,
    Packed,
    HRaw,
    H,
    Normed,
    Norm2,
    Qkv,
    Q,
    K,
    V,
    AttnFlat,
    Qp,
    Kt,
    Vp,
    Scores,
    Attn,
    AttnOut,
    Gu,
    Gact,
    Out,
    Pe,
    Col(usize),
    Raw(usize),
    Act(usize),
    Taps(usize),
    UGd,
    UIm(usize),
    USc(usize),
    UEx,
    USm,
    ULn,
    UPm,
    UPe,
    UWp,
    UCp,
    ConvW(usize),
    ConvB(usize),
    ConvOutW,
    SlnW(usize),
    SlnB(usize),
    QkvW(usize),
    QkvB(usize),
    OW(usize),
    OB(usize),
    FlnW(usize),
    FlnB(usize),
    Fc1W(usize),
    Fc1B(usize),
    Fc2W(usize),
    Fc2B(usize),
    LnPostW,
    LnPostB,
    Proj1W,
    Proj1B,
    Proj2W,
    Proj2B,
}

impl EncBuf {
    /// The buffer holds uniforms.
    pub open spec fn uniform(self) -> bool {
        self is UGd || self is UIm || self is USc || self is UEx || self is USm || self is ULn || self is UPm
            || self is UPe || self is UWp || self is UCp
    }

    /// Whether the buffer holds uniforms; every other is a storage buffer.
    pub fn is_uniform(&self) -> (r: bool)
        ensures
            r == self.uniform(),
    {
        match *self {
            EncBuf::UGd | EncBuf::UIm(_) | EncBuf::USc(_) | EncBuf::UEx | EncBuf::USm => true,
            EncBuf::ULn | EncBuf::UPm | EncBuf::UPe | EncBuf::UWp | EncBuf::UCp => true,
            _ => false,
        }
    }
}

/// A compute kernel of the audio tower.
#[derive(Clone, Copy, Debug, PartialEq, Eq, Structural)]
pub enum Pipe {
    Im2col,
    Gelu,
    Gemm,
    /// Reads its second operand as `[k][n]`.
    GemmT,
    /// Adds onto its result.
    GemmBeta,
    /// Adds a bias per column.
    GemmBias,
    GemmBetaBias,
    Extract,
    WinPack,
    Softmax,
    LayerNorm,
    Permute,
    AddPe,
    AttnFlat,
}

/// A bind group of the audio tower.
#[derive(Clone, Copy, Debug, PartialEq, Eq, Structural)]
pub enum EncGroup {
    Im2col { level: usize, input: EncBuf },
    Gelu { src: EncBuf, bias: EncBuf, dst: EncBuf, site: usize },
    Gemm { a: EncBuf, w: EncBuf, c: EncBuf },
    GemmBias { a: EncBuf, w: EncBuf, c: EncBuf, bias: EncBuf },
    Extract,
    WinPack,
    Softmax,
    AttnFlat,
    Permute,
    AddPe,
    Norm { src: EncBuf, w: EncBuf, b: EncBuf, dst: EncBuf },
}

/// One entry of a bind group: `size == 0` binds the whole buffer.
#[derive(Clone, Copy, Debug, PartialEq, Eq, Structural)]
pub struct EncBinding {
    pub index: u32,
    pub buf: EncBuf,
    pub size: u64,
}

/// The contents of a uniform. Fields named `*_bits` carry the bit pattern of a
/// single-precision number.
#[derive(Clone, Copy, Debug, PartialEq, Eq, Structural)]
pub enum EncUniform {
    /// `bsa` and `bsb` are batch strides in words, `bsc` is one in elements.
    Gemm { m: u32, n: u32, k: u32, ldc: u32, bsa: u32, bsb: u32, bsc: u32, beta: u32 },
    Im2col { taps: u32, k: u32, k_pad: u32, plane: u32, plane_pad: u32, n_chunks: u32, n_all: u32, in_chunk: u32, in_ic: u32, chunk0: u32, bpc: u32 },
    /// `mode` 1 indexes the bias by channel, 0 by column.
    Scale { n: u32, words: u32, mode: u32, gx: u32 },
    Extract { n_tokens: u32, nh: u32, hd: u32, tpc: u32, row_stride: u32, attn_cols: u32, pe_stride: u32, dm: u32 },
    Softmax { s: u32, wlen: u32, wpad: u32, n_win: u32, scale_bits: u32 },
    Window { wlen: u32, wpad: u32, hd: u32, n_win: u32, s: u32, acols: u32, pad_n: u32 },
    Norm { d: u32, eps_bits: u32 },
    Permute { c: u32, f: u32, t3: u32, s_pad: u32, n_all: u32, plane_pad: u32, tok0: u32, n_tokens: u32 },
    Position { d: u32, tpc: u32, s_pad: u32 },
    Compress { cols: u32, wlen: u32, wpad: u32, hd: u32, n_win: u32, rows: u32 },
}

/// Where a plan waits for the device.
#[derive(Clone, Copy, Debug, PartialEq, Eq, Structural)]
pub enum Stage {
    /// Behind the conv round that begins at this chunk.
    Round(usize),
    /// Before the conv tensors of a round are read.
    Capture,
    ConvOut,
    /// Between the halves of the first layer.
    Mid,
    Layer(usize),
    Last,
}

/// What a read is for.
#[derive(Clone, Copy, Debug, PartialEq, Eq, Structural)]
pub enum Shot {
    Col(usize),
    Raw(usize),
    Act(usize),
    MelHead,
    Taps(usize),
    /// The tower's input, after the positions were added.
    Hidden,
    /// The residual between the halves of the first layer.
    Mid,
    Layer(usize),
    Q,
    K,
    V,
    Scores,
    Probs,
    AttnOut,
    Qp,
    Kt,
    Vp,
    Normed,
    Qkv,
    AttnFlat,
    Packed,
    Embeds,
}

/// One command of a plan.
#[derive(Clone, Copy, Debug, PartialEq, Eq, Structural)]
pub enum EncOp {
    /// Queues a uniform write; it is visible to the next submission.
    Write { buf: EncBuf, offset: u64, data: EncUniform },
    /// One compute pass.
    Run { pipe: Pipe, group: EncGroup, x: u32, y: u32, z: u32 },
    /// One compute pass with a dynamic uniform offset.
    RunAt { pipe: Pipe, group: EncGroup, at: u32, x: u32, y: u32, z: u32 },
    /// Submits and waits for the device.
    Submit(Stage),
    /// Reads a buffer back from its start.
    Read { buf: EncBuf, bytes: u64, shot: Shot },
}

impl EncUniform {
    /// The words of the uniform, padding included.
    pub open spec fn words_spec(self) -> Seq<u32> {
        match self {
            EncUniform::Gemm { m, n, k, ldc, bsa, bsb, bsc, beta } => seq![m, n, k, ldc, bsa, bsb, bsc, beta],
            EncUniform::Im2col { taps, k, k_pad, plane, plane_pad, n_chunks, n_all, in_chunk, in_ic, chunk0, bpc } => seq![taps, k, k_pad, plane, plane_pad, n_chunks, n_all, in_chunk, in_ic, chunk0, bpc, 0u32],
            EncUniform::Scale { n, words, mode, gx } => seq![n, words, mode, gx],
            EncUniform::Extract { n_tokens, nh, hd, tpc, row_stride, attn_cols, pe_stride, dm } => seq![n_tokens, nh, hd, tpc, row_stride, attn_cols, pe_stride, dm],
            EncUniform::Softmax { s, wlen, wpad, n_win, scale_bits } => seq![s, wlen, wpad, n_win, scale_bits, 0u32, 0u32, 0u32],
            EncUniform::Window { wlen, wpad, hd, n_win, s, acols, pad_n } => seq![wlen, wpad, hd, n_win, s, acols, pad_n, 0u32],
            EncUniform::Norm { d, eps_bits } => seq![d, eps_bits, 0u32, 0u32, 0u32, 0u32, 0u32, 0u32],
            EncUniform::Permute { c, f, t3, s_pad, n_all, plane_pad, tok0, n_tokens } => seq![c, f, t3, s_pad, n_all, plane_pad, tok0, n_tokens],
            EncUniform::Position { d, tpc, s_pad } => seq![d, tpc, s_pad, 0u32],
            EncUniform::Compress { cols, wlen, wpad, hd, n_win, rows } => seq![cols, wlen, wpad, hd, n_win, rows, 0u32, 0u32],
        }
    }

    /// The words of the uniform, in the order the kernels declare them.
    pub fn words(&self) -> (r: Vec<u32>)
        ensures
            r@ == self.words_spec(),
    {
        match *self {
            EncUniform::Gemm { m, n, k, ldc, bsa, bsb, bsc, beta } => vec![m, n, k, ldc, bsa, bsb, bsc, beta],
            EncUniform::Im2col { taps, k, k_pad, plane, plane_pad, n_chunks, n_all, in_chunk, in_ic, chunk0, bpc } => vec![taps, k, k_pad, plane, plane_pad, n_chunks, n_all, in_chunk, in_ic, chunk0, bpc, 0],
            EncUniform::Scale { n, words, mode, gx } => vec![n, words, mode, gx],
            EncUniform::Extract { n_tokens, nh, hd, tpc, row_stride, attn_cols, pe_stride, dm } => vec![n_tokens, nh, hd, tpc, row_stride, attn_cols, pe_stride, dm],
            EncUniform::Softmax { s, wlen, wpad, n_win, scale_bits } => vec![s, wlen, wpad, n_win, scale_bits, 0, 0, 0],
            EncUniform::Window { wlen, wpad, hd, n_win, s, acols, pad_n } => vec![wlen, wpad, hd, n_win, s, acols, pad_n, 0],
            EncUniform::Norm { d, eps_bits } => vec![d, eps_bits, 0, 0, 0, 0, 0, 0],
            EncUniform::Permute { c, f, t3, s_pad, n_all, plane_pad, tok0, n_tokens } => vec![c, f, t3, s_pad, n_all, plane_pad, tok0, n_tokens],
            EncUniform::Position { d, tpc, s_pad } => vec![d, tpc, s_pad, 0],
            EncUniform::Compress { cols, wlen, wpad, hd, n_win, rows } => vec![cols, wlen, wpad, hd, n_win, rows, 0, 0],
        }
    }
}

/// Binds a whole buffer.
pub open spec fn whole(index: u32, buf: EncBuf) -> EncBinding {
    EncBinding { index, buf, size: 0 }
}

/// Binds one slot of the GEMM ring.
pub open spec fn slot_window() -> EncBinding {
    EncBinding { index: 3, buf: EncBuf::UGd, size: 32 }
}

fn all(index: u32, buf: EncBuf) -> (r: EncBinding)
    ensures
        r == whole(index, buf),
{
    EncBinding { index, buf, size: 0 }
}

fn one_slot() -> (r: EncBinding)
    ensures
        r == slot_window(),
{
    EncBinding { index: 3, buf: EncBuf::UGd, size: 32 }
}

impl EncGroup {
    /// The entries of the group.
    pub open spec fn bindings_spec(self) -> Seq<EncBinding> {
        match self {
            EncGroup::Im2col { level, input } => seq![
                whole(0, input),
                whole(1, EncBuf::Taps(level)),
                whole(2, EncBuf::Col(level)),
                whole(3, EncBuf::UIm(level)),
            ],
            EncGroup::Gelu { src, bias, dst, site } => seq![
                whole(0, src),
                whole(1, bias),
                whole(2, dst),
                whole(3, EncBuf::USc(site)),
            ],
            EncGroup::Gemm { a, w, c } => seq![
                whole(0, a),
                whole(1, w),
                whole(2, c),
                slot_window(),
            ],
            EncGroup::GemmBias { a, w, c, bias } => seq![
                whole(0, a),
                whole(1, w),
                whole(2, c),
                slot_window(),
                whole(4, bias),
            ],
            EncGroup::Extract => seq![
                whole(0, EncBuf::Qkv),
                whole(1, EncBuf::Q),
                whole(2, EncBuf::K),
                whole(3, EncBuf::V),
                whole(5, EncBuf::UEx),
            ],
            EncGroup::WinPack => seq![
                whole(0, EncBuf::Q),
                whole(1, EncBuf::K),
                whole(2, EncBuf::V),
                whole(3, EncBuf::Qp),
                whole(4, EncBuf::Kt),
                whole(5, EncBuf::Vp),
                whole(6, EncBuf::UWp),
            ],
            EncGroup::Softmax => seq![
                whole(0, EncBuf::Scores),
                whole(1, EncBuf::Attn),
                whole(2, EncBuf::USm),
            ],
            EncGroup::AttnFlat => seq![
                whole(0, EncBuf::AttnOut),
                whole(1, EncBuf::AttnFlat),
                whole(2, EncBuf::UCp),
            ],
            EncGroup::Permute => seq![
                whole(0, EncBuf::Act(2)),
                whole(1, EncBuf::Packed),
                whole(2, EncBuf::UPm),
            ],
            EncGroup::AddPe => seq![
                whole(0, EncBuf::HRaw),
                whole(1, EncBuf::Pe),
                whole(2, EncBuf::H),
                whole(3, EncBuf::UPe),
            ],
            EncGroup::Norm { src, w, b, dst } => seq![
                whole(0, src),
                whole(1, w),
                whole(2, b),
                whole(3, EncBuf::ULn),
                whole(4, dst),
            ],
        }
    }

    /// The entries of the group, in binding order.
    pub fn bindings(&self) -> (r: Vec<EncBinding>)
        ensures
            r@ == self.bindings_spec(),
    {
        match *self {
            EncGroup::Im2col { level, input } => vec![
                all(0, input),
                all(1, EncBuf::Taps(level)),
                all(2, EncBuf::Col(level)),
                all(3, EncBuf::UIm(level)),
            ],
            EncGroup::Gelu { src, bias, dst, site } => vec![
                all(0, src),
                all(1, bias),
                all(2, dst),
                all(3, EncBuf::USc(site)),
            ],
            EncGroup::Gemm { a, w, c } => vec![
                all(0, a),
                all(1, w),
                all(2, c),
                one_slot(),
            ],
            EncGroup::GemmBias { a, w, c, bias } => vec![
                all(0, a),
                all(1, w),
                all(2, c),
                one_slot(),
                all(4, bias),
            ],
            EncGroup::Extract => vec![
                all(0, EncBuf::Qkv),
                all(1, EncBuf::Q),
                all(2, EncBuf::K),
                all(3, EncBuf::V),
                all(5, EncBuf::UEx),
            ],
            EncGroup::WinPack => vec![
                all(0, EncBuf::Q),
                all(1, EncBuf::K),
                all(2, EncBuf::V),
                all(3, EncBuf::Qp),
                all(4, EncBuf::Kt),
                all(5, EncBuf::Vp),
                all(6, EncBuf::UWp),
            ],
            EncGroup::Softmax => vec![
                all(0, EncBuf::Scores),
                all(1, EncBuf::Attn),
                all(2, EncBuf::USm),
            ],
            EncGroup::AttnFlat => vec![
                all(0, EncBuf::AttnOut),
                all(1, EncBuf::AttnFlat),
                all(2, EncBuf::UCp),
            ],
            EncGroup::Permute => vec![
                all(0, EncBuf::Act(2)),
                all(1, EncBuf::Packed),
                all(2, EncBuf::UPm),
            ],
            EncGroup::AddPe => vec![
                all(0, EncBuf::HRaw),
                all(1, EncBuf::Pe),
                all(2, EncBuf::H),
                all(3, EncBuf::UPe),
            ],
            EncGroup::Norm { src, w, b, dst } => vec![
                all(0, src),
                all(1, w),
                all(2, b),
                all(3, EncBuf::ULn),
                all(4, dst),
            ],
        }
    }
}

impl Stage {
    /// Where the device was lost, in words.
    pub open spec fn text(self) -> Seq<char> {
        match self {
            Stage::Round(ch0) => "in conv round "@ + crate::text::dec(ch0 as nat),
            Stage::Capture => "during capture"@,
            Stage::ConvOut => "after conv_out"@,
            Stage::Mid => "at mid capture"@,
            Stage::Layer(l) => "after layer "@ + crate::text::dec(l as nat),
            Stage::Last => "at readback"@,
        }
    }

    /// Where the device was lost, in words.
    pub fn label(&self) -> (r: String)
        ensures
            r@ == self.text(),
    {
        match *self {
            Stage::Round(ch0) => {
                let mut s = lit("in conv round ");
                push_dec(&mut s, ch0);
                s
            },
            Stage::Capture => lit("during capture"),
            Stage::ConvOut => lit("after conv_out"),
            Stage::Mid => lit("at mid capture"),
            Stage::Layer(l) => {
                let mut s = lit("after layer ");
                push_dec(&mut s, l);
                s
            },
            Stage::Last => lit("at readback"),
        }
    }
}

} // verus!
