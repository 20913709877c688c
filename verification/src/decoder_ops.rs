//! What a decoder plan is made of: buffers, kernels, bind groups, uniforms and
//! the commands that use them.
use vstd::prelude::*;

verus! {

/// A buffer of the decoder. A number is the layer that owns it.
#[derive(Clone, Copy, Debug, PartialEq, Eq, Structural)]
pub enum Buf {
    H,
    Norm1,
    Qkv,
    QOut,
    AttnOut,
    Norm2,
    GateUp,
    Activated,
    FinalNorm,
    Logits,
    Token,
    TokenStaging,
    Cos,
    Sin,
    URms,
    UQkvx,
    UGqa,
    UGp1,
    UGp2,
    USilu,
    UArgmax,
    UEmbed,
    SplitPartOut,
    SplitPartMax,
    SplitPartSum,
    EmbedTable,
    FinalNormW,
    KCache(usize),
    VCache(usize),
    IlnW(usize),
    PlnW(usize),
    QnW(usize),
    KnW(usize),
    QkvW(usize),
    OW(usize),
    GuW(usize),
    DpW(usize),
    PH,
    PNormed,
    PNorm2,
    PQkv,
    PQOut,
    PScores,
    PKRep,
    PVRep,
    PAttn,
    PSlabPart,
    PSlabStats,
    PSlabW,
    PAttnFlat,
    PGu,
    PActivated,
    PGd,
    PSl,
    PRk,
}

/// A compute kernel of the decoder.
#[derive(Clone, Copy, Debug, PartialEq, Eq, Structural)]
pub enum Kernel {
    GemvQkv,
    GemvO,
    GemvGu,
    GemvDp,
    GemvLm,
    GemvQkvNorm,
    GemvGuNorm,
    GemvLmNorm,
    RmsNorm,
    Extract,
    Gqa256,
    Gqa512,
    GqaSplit128,
    GqaSplitPair256,
    GqaSplitPair512,
    GqaSplitPair256Row0,
    GqaSplitPair256Coal,
    GqaSplit256,
    GqaSplit512,
    GqaMerge,
    Silu,
    Argmax,
    Embed,
    Gemm,
    GemmAcc,
    GemmAv,
    GemmCausal,
    GemmAvCausal,
    /// One thread per lane of the reduction tree.
    Softmax(u32),
    /// Fewer threads than the tree has lanes: physical width, tree width.
    SoftmaxWide(u32, u32),
    RepeatKv,
    SlabStats,
    SlabWeights,
    SlabMerge,
}

/// A bind group of the decoder. A number is the layer it reads.
#[derive(Clone, Copy, Debug, PartialEq, Eq, Structural)]
pub enum Group {
    GemvQkv(usize),
    GemvO(usize),
    GemvGu(usize),
    GemvDp(usize),
    GemvQkvNorm(usize),
    GemvGuNorm(usize),
    Rms1(usize),
    Rms2(usize),
    Extract(usize),
    Gqa(usize),
    GqaSplit(usize),
    GqaMerge,
    FinalRms,
    GemvLm,
    GemvLmNorm,
    Silu,
    Argmax,
    Embed,
    PRms1(usize),
    PRms2(usize),
    PExtract(usize),
    PRepeatK(usize),
    PRepeatV(usize),
    /// `c += a * w` style operands; the result is bound from `c_off` on.
    PGemm { a: Buf, w: Buf, c: Buf, c_off: u64 },
    PSlabStats,
    PSoftmax,
    PSlabWeights,
    PSlabMerge,
    PSilu,
    /// The row at `offset` of the prefill output, of `size` bytes.
    PFinalRms { offset: u64, size: u64 },
}

/// One entry of a bind group: `size == 0` binds from `offset` to the end.
#[derive(Clone, Copy, Debug, PartialEq, Eq, Structural)]
pub struct Binding {
    pub index: u32,
    pub buf: Buf,
    pub offset: u64,
    pub size: u64,
}

/// The dimensions of one GEMM. `bsa` and `bsb` are batch strides in words, `bsc`
/// is one in elements.
#[derive(Clone, Copy, Debug, PartialEq, Eq, Structural)]
pub struct GDims {
    pub m: u32,
    pub n: u32,
    pub k: u32,
    pub ldc: u32,
    pub bsa: u32,
    pub bsb: u32,
    pub bsc: u32,
    pub beta: u32,
    pub row0: u32,
    pub lda: u32,
}

/// The contents of a uniform slot. Fields named `*_bits` carry the bit pattern
/// of a single-precision number.
#[derive(Clone, Copy, Debug, PartialEq, Eq, Structural)]
pub enum Uniform {
    Rms { eps_bits: u32 },
    Qkvx { max_seq: u32, start: u32, pos_offset: u32, s: u32, eps_bits: u32 },
    Gemm(GDims),
    Silu { inter2: u32, total2: u32, gx: u32 },
    RepeatKv { nkvh: u32, max_seq: u32, cur: u32, hd: u32, npw: u32, gx: u32 },
    Softmax { n_w: u32, n_x: u32, valid: u32, m: u32, mp: u32, scale_bits: u32, gx: u32, row0: u32 },
    SlabStats { n_x: u32, valid: u32, m: u32, mp: u32, scale_bits: u32, row0: u32, gx: u32, rows: u32 },
    SlabWeights { rows: u32, n_slab: u32, gx: u32 },
    SlabMerge { rows: u32, n_slab: u32, gx: u32 },
    Gqa { cur_len: u32, max_seq: u32, scale_bits: u32 },
    Split { cur_len: u32, max_seq: u32, scale_bits: u32, n_chunks: u32 },
    Merge { n_chunks: u32 },
    Argmax { n: u32, slot: u32 },
    Embed { slot: u32, d2: u32 },
}

/// One command of a plan.
#[derive(Clone, Copy, Debug, PartialEq, Eq, Structural)]
pub enum Op {
    /// Queues a uniform write; it is visible to the next submission.
    Write { buf: Buf, offset: u64, data: Uniform },
    /// Queues a write of `len` zero bytes.
    WriteZeros { buf: Buf, offset: u64, len: usize },
    Pipeline(Kernel),
    Bind(Group),
    /// Binds with a dynamic uniform offset.
    BindAt { group: Group, at: u32 },
    Dispatch { x: u32, y: u32, z: u32 },
    /// Copies the token to its staging buffer.
    CopyToken,
    Submit,
    /// Submits, waits for the device and starts a new command buffer.
    SubmitWait { layer: usize },
}

impl Uniform {
    /// The words of the slot, padding included.
    pub open spec fn words_spec(self) -> Seq<u32> {
        match self {
            Uniform::Rms { eps_bits } => seq![eps_bits, 0u32, 0u32, 0u32],
            Uniform::Qkvx { max_seq, start, pos_offset, s, eps_bits } => seq![
                max_seq,
                start,
                pos_offset,
                s,
                eps_bits,
                0u32,
                0u32,
                0u32,
            ],
            Uniform::Gemm(g) => seq![g.m, g.n, g.k, g.ldc, g.bsa, g.bsb, g.bsc, g.beta, g.row0, g.lda],
            Uniform::Silu { inter2, total2, gx } => seq![inter2, total2, gx, 0u32],
            Uniform::RepeatKv { nkvh, max_seq, cur, hd, npw, gx } => seq![nkvh, max_seq, cur, hd, npw, gx],
            Uniform::Softmax { n_w, n_x, valid, m, mp, scale_bits, gx, row0 } => seq![
                n_w,
                n_x,
                valid,
                m,
                mp,
                scale_bits,
                gx,
                row0,
            ],
            Uniform::SlabStats { n_x, valid, m, mp, scale_bits, row0, gx, rows } => seq![
                n_x,
                valid,
                m,
                mp,
                scale_bits,
                row0,
                gx,
                rows,
            ],
            Uniform::SlabWeights { rows, n_slab, gx } => seq![rows, n_slab, gx, 0u32],
            Uniform::SlabMerge { rows, n_slab, gx } => seq![rows, n_slab, gx, 0u32],
            Uniform::Gqa { cur_len, max_seq, scale_bits } => seq![cur_len, max_seq, scale_bits, 0u32],
            Uniform::Split { cur_len, max_seq, scale_bits, n_chunks } => seq![cur_len, max_seq, scale_bits, n_chunks],
            Uniform::Merge { n_chunks } => seq![n_chunks, 0u32, 0u32, 0u32],
            Uniform::Argmax { n, slot } => seq![n, slot, 0u32, 0u32],
            Uniform::Embed { slot, d2 } => seq![slot, d2, 0u32, 0u32],
        }
    }

    /// The words of the slot, in the order the kernels declare them.
    pub fn words(&self) -> (r: Vec<u32>)
        ensures
            r@ == self.words_spec(),
    {
        match *self {
            Uniform::Rms { eps_bits } => vec![eps_bits, 0, 0, 0],
            Uniform::Qkvx { max_seq, start, pos_offset, s, eps_bits } => vec![
                max_seq,
                start,
                pos_offset,
                s,
                eps_bits,
                0,
                0,
                0,
            ],
            Uniform::Gemm(g) => vec![g.m, g.n, g.k, g.ldc, g.bsa, g.bsb, g.bsc, g.beta, g.row0, g.lda],
            Uniform::Silu { inter2, total2, gx } => vec![inter2, total2, gx, 0],
            Uniform::RepeatKv { nkvh, max_seq, cur, hd, npw, gx } => vec![nkvh, max_seq, cur, hd, npw, gx],
            Uniform::Softmax { n_w, n_x, valid, m, mp, scale_bits, gx, row0 } => vec![
                n_w,
                n_x,
                valid,
                m,
                mp,
                scale_bits,
                gx,
                row0,
            ],
            Uniform::SlabStats { n_x, valid, m, mp, scale_bits, row0, gx, rows } => vec![
                n_x,
                valid,
                m,
                mp,
                scale_bits,
                row0,
                gx,
                rows,
            ],
            Uniform::SlabWeights { rows, n_slab, gx } => vec![rows, n_slab, gx, 0],
            Uniform::SlabMerge { rows, n_slab, gx } => vec![rows, n_slab, gx, 0],
            Uniform::Gqa { cur_len, max_seq, scale_bits } => vec![cur_len, max_seq, scale_bits, 0],
            Uniform::Split { cur_len, max_seq, scale_bits, n_chunks } => vec![cur_len, max_seq, scale_bits, n_chunks],
            Uniform::Merge { n_chunks } => vec![n_chunks, 0, 0, 0],
            Uniform::Argmax { n, slot } => vec![n, slot, 0, 0],
            Uniform::Embed { slot, d2 } => vec![slot, d2, 0, 0],
        }
    }
}

/// Binds a whole buffer.
pub open spec fn whole(index: u32, buf: Buf) -> Binding {
    Binding { index, buf, offset: 0, size: 0 }
}

/// Binds `size` bytes of a buffer from `offset` on.
pub open spec fn part(index: u32, buf: Buf, offset: u64, size: u64) -> Binding {
    Binding { index, buf, offset, size }
}

fn all(index: u32, buf: Buf) -> (r: Binding)
    ensures
        r == whole(index, buf),
{
    Binding { index, buf, offset: 0, size: 0 }
}

fn some(index: u32, buf: Buf, offset: u64, size: u64) -> (r: Binding)
    ensures
        r == part(index, buf, offset, size),
{
    Binding { index, buf, offset, size }
}

impl Group {
    /// The entries of the group.
    pub open spec fn bindings_spec(self) -> Seq<Binding> {
        match self {
            Group::GemvQkv(l) => seq![whole(0, Buf::QkvW(l)), whole(1, Buf::Norm1), whole(2, Buf::Qkv)],
            Group::GemvO(l) => seq![whole(0, Buf::OW(l)), whole(1, Buf::AttnOut), whole(2, Buf::H)],
            Group::GemvGu(l) => seq![whole(0, Buf::GuW(l)), whole(1, Buf::Norm2), whole(2, Buf::GateUp)],
            Group::GemvDp(l) => seq![whole(0, Buf::DpW(l)), whole(1, Buf::Activated), whole(2, Buf::H)],
            Group::GemvQkvNorm(l) => seq![
                whole(0, Buf::QkvW(l)),
                whole(1, Buf::H),
                whole(2, Buf::Qkv),
                whole(3, Buf::IlnW(l)),
            ],
            Group::GemvGuNorm(l) => seq![
                whole(0, Buf::GuW(l)),
                whole(1, Buf::H),
                whole(2, Buf::GateUp),
                whole(3, Buf::PlnW(l)),
            ],
            Group::Rms1(l) => seq![
                whole(0, Buf::H),
                whole(1, Buf::IlnW(l)),
                whole(2, Buf::Norm1),
                whole(3, Buf::URms),
            ],
            Group::Rms2(l) => seq![
                whole(0, Buf::H),
                whole(1, Buf::PlnW(l)),
                whole(2, Buf::Norm2),
                whole(3, Buf::URms),
            ],
            Group::Extract(l) => seq![
                whole(0, Buf::Qkv),
                whole(1, Buf::QnW(l)),
                whole(2, Buf::KnW(l)),
                whole(3, Buf::Cos),
                whole(4, Buf::Sin),
                whole(5, Buf::QOut),
                whole(6, Buf::KCache(l)),
                whole(7, Buf::VCache(l)),
                whole(8, Buf::UQkvx),
            ],
            Group::Gqa(l) => seq![
                whole(0, Buf::QOut),
                whole(1, Buf::KCache(l)),
                whole(2, Buf::VCache(l)),
                whole(3, Buf::AttnOut),
                whole(4, Buf::UGqa),
            ],
            Group::GqaSplit(l) => seq![
                whole(0, Buf::QOut),
                whole(1, Buf::KCache(l)),
                whole(2, Buf::VCache(l)),
                whole(3, Buf::SplitPartOut),
                whole(4, Buf::SplitPartMax),
                whole(5, Buf::SplitPartSum),
                whole(6, Buf::UGp1),
            ],
            Group::GqaMerge => seq![
                whole(0, Buf::AttnOut),
                whole(1, Buf::SplitPartOut),
                whole(2, Buf::SplitPartMax),
                whole(3, Buf::SplitPartSum),
                whole(4, Buf::UGp2),
            ],
            Group::FinalRms => seq![
                whole(0, Buf::H),
                whole(1, Buf::FinalNormW),
                whole(2, Buf::FinalNorm),
                whole(3, Buf::URms),
            ],
            Group::GemvLm => seq![whole(0, Buf::EmbedTable), whole(1, Buf::FinalNorm), whole(2, Buf::Logits)],
            Group::GemvLmNorm => seq![
                whole(0, Buf::EmbedTable),
                whole(1, Buf::H),
                whole(2, Buf::Logits),
                whole(3, Buf::FinalNormW),
            ],
            Group::Silu => seq![whole(0, Buf::GateUp), whole(1, Buf::Activated), whole(2, Buf::USilu)],
            Group::Argmax => seq![whole(0, Buf::Logits), whole(1, Buf::Token), whole(2, Buf::UArgmax)],
            Group::Embed => seq![
                whole(0, Buf::EmbedTable),
                whole(1, Buf::Token),
                whole(2, Buf::H),
                whole(3, Buf::UEmbed),
            ],
            Group::PRms1(l) => seq![
                whole(0, Buf::PH),
                whole(1, Buf::IlnW(l)),
                whole(2, Buf::PNormed),
                whole(3, Buf::URms),
            ],
            Group::PRms2(l) => seq![
                whole(0, Buf::PH),
                whole(1, Buf::PlnW(l)),
                whole(2, Buf::PNorm2),
                whole(3, Buf::URms),
            ],
            Group::PExtract(l) => seq![
                whole(0, Buf::PQkv),
                whole(1, Buf::QnW(l)),
                whole(2, Buf::KnW(l)),
                whole(3, Buf::Cos),
                whole(4, Buf::Sin),
                whole(5, Buf::PQOut),
                whole(6, Buf::KCache(l)),
                whole(7, Buf::VCache(l)),
                whole(8, Buf::UQkvx),
            ],
            Group::PRepeatK(l) => seq![whole(0, Buf::KCache(l)), whole(1, Buf::PKRep), whole(2, Buf::PRk)],
            Group::PRepeatV(l) => seq![whole(0, Buf::VCache(l)), whole(1, Buf::PVRep), whole(2, Buf::PRk)],
            Group::PGemm { a, w, c, c_off } => seq![
                whole(0, a),
                whole(1, w),
                part(2, c, c_off, 0),
                part(3, Buf::PGd, 0, 64),
            ],
            Group::PSlabStats => seq![whole(0, Buf::PScores), whole(1, Buf::PSlabStats), part(2, Buf::PSl, 0, 32)],
            Group::PSoftmax => seq![whole(0, Buf::PScores), whole(1, Buf::PAttn), part(2, Buf::PSl, 0, 32)],
            Group::PSlabWeights => seq![
                whole(0, Buf::PSlabStats),
                whole(1, Buf::PSlabW),
                part(2, Buf::PSl, 8192, 32),
            ],
            Group::PSlabMerge => seq![
                whole(0, Buf::PSlabPart),
                whole(1, Buf::PSlabW),
                whole(2, Buf::PAttnFlat),
                part(3, Buf::PSl, 8448, 32),
            ],
            Group::PSilu => seq![whole(0, Buf::PGu), whole(1, Buf::PActivated), whole(2, Buf::USilu)],
            Group::PFinalRms { offset, size } => seq![
                part(0, Buf::PH, offset, size),
                whole(1, Buf::FinalNormW),
                whole(2, Buf::FinalNorm),
                whole(3, Buf::URms),
            ],
        }
    }

    /// The entries of the group, in binding order.
    pub fn bindings(&self) -> (r: Vec<Binding>)
        ensures
            r@ == self.bindings_spec(),
    {
        match *self {
            Group::GemvQkv(l) => vec![all(0, Buf::QkvW(l)), all(1, Buf::Norm1), all(2, Buf::Qkv)],
            Group::GemvO(l) => vec![all(0, Buf::OW(l)), all(1, Buf::AttnOut), all(2, Buf::H)],
            Group::GemvGu(l) => vec![all(0, Buf::GuW(l)), all(1, Buf::Norm2), all(2, Buf::GateUp)],
            Group::GemvDp(l) => vec![all(0, Buf::DpW(l)), all(1, Buf::Activated), all(2, Buf::H)],
            Group::GemvQkvNorm(l) => vec![
                all(0, Buf::QkvW(l)),
                all(1, Buf::H),
                all(2, Buf::Qkv),
                all(3, Buf::IlnW(l)),
            ],
            Group::GemvGuNorm(l) => vec![
                all(0, Buf::GuW(l)),
                all(1, Buf::H),
                all(2, Buf::GateUp),
                all(3, Buf::PlnW(l)),
            ],
            Group::Rms1(l) => vec![
                all(0, Buf::H),
                all(1, Buf::IlnW(l)),
                all(2, Buf::Norm1),
                all(3, Buf::URms),
            ],
            Group::Rms2(l) => vec![
                all(0, Buf::H),
                all(1, Buf::PlnW(l)),
                all(2, Buf::Norm2),
                all(3, Buf::URms),
            ],
            Group::Extract(l) => vec![
                all(0, Buf::Qkv),
                all(1, Buf::QnW(l)),
                all(2, Buf::KnW(l)),
                all(3, Buf::Cos),
                all(4, Buf::Sin),
                all(5, Buf::QOut),
                all(6, Buf::KCache(l)),
                all(7, Buf::VCache(l)),
                all(8, Buf::UQkvx),
            ],
            Group::Gqa(l) => vec![
                all(0, Buf::QOut),
                all(1, Buf::KCache(l)),
                all(2, Buf::VCache(l)),
                all(3, Buf::AttnOut),
                all(4, Buf::UGqa),
            ],
            Group::GqaSplit(l) => vec![
                all(0, Buf::QOut),
                all(1, Buf::KCache(l)),
                all(2, Buf::VCache(l)),
                all(3, Buf::SplitPartOut),
                all(4, Buf::SplitPartMax),
                all(5, Buf::SplitPartSum),
                all(6, Buf::UGp1),
            ],
            Group::GqaMerge => vec![
                all(0, Buf::AttnOut),
                all(1, Buf::SplitPartOut),
                all(2, Buf::SplitPartMax),
                all(3, Buf::SplitPartSum),
                all(4, Buf::UGp2),
            ],
            Group::FinalRms => vec![
                all(0, Buf::H),
                all(1, Buf::FinalNormW),
                all(2, Buf::FinalNorm),
                all(3, Buf::URms),
            ],
            Group::GemvLm => vec![all(0, Buf::EmbedTable), all(1, Buf::FinalNorm), all(2, Buf::Logits)],
            Group::GemvLmNorm => vec![
                all(0, Buf::EmbedTable),
                all(1, Buf::H),
                all(2, Buf::Logits),
                all(3, Buf::FinalNormW),
            ],
            Group::Silu => vec![all(0, Buf::GateUp), all(1, Buf::Activated), all(2, Buf::USilu)],
            Group::Argmax => vec![all(0, Buf::Logits), all(1, Buf::Token), all(2, Buf::UArgmax)],
            Group::Embed => vec![
                all(0, Buf::EmbedTable),
                all(1, Buf::Token),
                all(2, Buf::H),
                all(3, Buf::UEmbed),
            ],
            Group::PRms1(l) => vec![
                all(0, Buf::PH),
                all(1, Buf::IlnW(l)),
                all(2, Buf::PNormed),
                all(3, Buf::URms),
            ],
            Group::PRms2(l) => vec![
                all(0, Buf::PH),
                all(1, Buf::PlnW(l)),
                all(2, Buf::PNorm2),
                all(3, Buf::URms),
            ],
            Group::PExtract(l) => vec![
                all(0, Buf::PQkv),
                all(1, Buf::QnW(l)),
                all(2, Buf::KnW(l)),
                all(3, Buf::Cos),
                all(4, Buf::Sin),
                all(5, Buf::PQOut),
                all(6, Buf::KCache(l)),
                all(7, Buf::VCache(l)),
                all(8, Buf::UQkvx),
            ],
            Group::PRepeatK(l) => vec![all(0, Buf::KCache(l)), all(1, Buf::PKRep), all(2, Buf::PRk)],
            Group::PRepeatV(l) => vec![all(0, Buf::VCache(l)), all(1, Buf::PVRep), all(2, Buf::PRk)],
            Group::PGemm { a, w, c, c_off } => vec![
                all(0, a),
                all(1, w),
                some(2, c, c_off, 0),
                some(3, Buf::PGd, 0, 64),
            ],
            Group::PSlabStats => vec![all(0, Buf::PScores), all(1, Buf::PSlabStats), some(2, Buf::PSl, 0, 32)],
            Group::PSoftmax => vec![all(0, Buf::PScores), all(1, Buf::PAttn), some(2, Buf::PSl, 0, 32)],
            Group::PSlabWeights => vec![
                all(0, Buf::PSlabStats),
                all(1, Buf::PSlabW),
                some(2, Buf::PSl, 8192, 32),
            ],
            Group::PSlabMerge => vec![
                all(0, Buf::PSlabPart),
                all(1, Buf::PSlabW),
                all(2, Buf::PAttnFlat),
                some(3, Buf::PSl, 8448, 32),
            ],
            Group::PSilu => vec![all(0, Buf::PGu), all(1, Buf::PActivated), all(2, Buf::USilu)],
            Group::PFinalRms { offset, size } => vec![
                some(0, Buf::PH, offset, size),
                all(1, Buf::FinalNormW),
                all(2, Buf::FinalNorm),
                all(3, Buf::URms),
            ],
        }
    }
}

} // verus!
