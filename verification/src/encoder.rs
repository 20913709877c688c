//! The audio tower's layout: the conv chain's geometry and the checks that tie a
//! checkpoint's weights to it.
use vstd::prelude::*;

use crate::config::AudioEncoderConfig;
use crate::geometry::{
    align, align_up, conv_len, conv_out_len, conv_taps, feo, lemma_align_bounds, mel_elems, pad_even, pad_k_tile,
    tap_table, taps_fit, token_len, CONV_TILE, GEMM_BM, GEMM_BN, TAPS,
};

verus! {

/// Token capacity of one encode.
pub const MAX_TOKENS: usize = 16384;

/// Longest attention window.
pub const MAX_WINDOW: usize = 2048;

/// Slots of the GEMM uniform ring.
pub const MAX_GEMMS: usize = 256;

/// The shape of a loaded linear layer: outputs, outputs in whole tiles, inputs.
#[derive(Clone, Copy, Debug, PartialEq, Eq, Structural)]
pub struct LinearShape {
    pub n: usize,
    pub n_pad: usize,
    pub k: usize,
}

impl LinearShape {
    /// The outputs are padded to whole tiles, as every loaded layer's are.
    pub open spec fn padded(self) -> bool {
        self.n_pad == align_up(self.n as int, 128)
    }
}

/// The shapes of one transformer layer.
#[derive(Clone, Copy, Debug, PartialEq, Eq, Structural)]
pub struct LayerShapes {
    pub qkv: LinearShape,
    pub o: LinearShape,
    pub fc1: LinearShape,
    pub fc2: LinearShape,
}

impl LayerShapes {
    /// The four weights are padded to whole tiles.
    pub open spec fn padded(self) -> bool {
        self.qkv.padded() && self.o.padded() && self.fc1.padded() && self.fc2.padded()
    }
}

/// The shapes of every weight of the tower.
pub struct TowerShapes {
    pub c1: LinearShape,
    pub c2: LinearShape,
    pub c3: LinearShape,
    pub conv_out: LinearShape,
    pub layers: Vec<LayerShapes>,
    pub proj1: LinearShape,
    pub proj2: LinearShape,
}

impl TowerShapes {
    /// Every weight is padded to whole tiles.
    pub open spec fn padded(self) -> bool {
        &&& self.c1.padded() && self.c2.padded() && self.c3.padded()
        &&& self.conv_out.padded() && self.proj1.padded() && self.proj2.padded()
        &&& forall|i: int| 0 <= i < self.layers@.len() ==> (#[trigger] self.layers@[i]).padded()
    }
}

/// Which check a tower fails.
#[derive(Clone, Copy, Debug, PartialEq, Eq, Structural)]
pub enum EncoderError {
    HeadSplit { d_model: usize, heads: usize },
    Conv1Depth { k: usize },
    Conv2Depth { k: usize, c1: usize },
    Conv3Depth { k: usize, c2: usize },
    ConvOutDepth { k: usize, c3: usize, h3: usize },
    ConvOutWidth { n: usize, d_model: usize },
    /// An odd output plane of the numbered convolution.
    OddPlane { conv: usize, plane: usize },
    /// A kernel depth of the numbered convolution that is not in whole steps.
    DepthTile { conv: usize, k: usize },
    LayerQkv { layer: usize },
    LayerOut { layer: usize },
    LayerFc1 { layer: usize },
    LayerFc2 { layer: usize },
    Projector,
    Window { wlen: usize },
    MelBins { got: usize, want: usize },
    EmptyMel,
    TooManyTokens { tokens: usize },
    TooManyGemms { slots: usize },
}

/// One level of the conv chain. All counts are in elements.
///
/// A chunk of input produces `plane` output positions, laid out `plane_pad`
/// apart. A round of [`CONV_TILE`] chunks is `n_all` positions, which is also the
/// channel stride of the level's activation.
pub struct ConvLevel {
    pub n_all: usize,
    pub k: usize,
    pub k_pad: usize,
    pub c_in: usize,
    pub c_out: usize,
    pub m_pad: usize,
    pub plane: usize,
    pub plane_pad: usize,
    pub h_in: usize,
    pub w_in: usize,
    pub w_stride: usize,
    pub in_chunk: usize,
    pub in_ic: usize,
    pub taps: Vec<u32>,
}

/// A conv level's numbers, as the dispatches see them.
#[derive(Clone, Copy, Debug, PartialEq, Eq, Structural)]
pub struct LevelView {
    pub n_all: usize,
    pub k: usize,
    pub k_pad: usize,
    pub c_in: usize,
    pub c_out: usize,
    pub m_pad: usize,
    pub plane: usize,
    pub plane_pad: usize,
    pub h_in: usize,
    pub w_in: usize,
    pub h_out: usize,
    pub w_out: usize,
    pub in_chunk: usize,
    pub in_ic: usize,
}

/// The input of a conv level.
#[derive(Clone, Copy, Debug, PartialEq, Eq, Structural)]
pub struct LevelInput {
    pub h_in: usize,
    pub w_in: usize,
    pub w_stride: usize,
    pub c_in: usize,
    pub in_chunk: usize,
    pub in_ic: usize,
    pub n_all: usize,
}

impl LevelInput {
    /// The level's sizes fit.
    pub open spec fn fits(self) -> bool {
        &&& taps_fit(self.h_in as int, self.w_in as int, self.w_stride as int)
        &&& align_up(self.c_in * 9, 16) <= usize::MAX
        &&& align_up(conv_len(self.h_in as int) * conv_len(self.w_in as int), 32) <= usize::MAX
    }

    /// Output positions per chunk.
    pub open spec fn plane(self) -> int {
        conv_len(self.h_in as int) * conv_len(self.w_in as int)
    }
}

impl ConvLevel {
    /// The level that an input and a kernel shape make.
    pub open spec fn made(self, i: LevelInput, w: LinearShape) -> bool {
        &&& self.n_all == i.n_all
        &&& self.k == i.c_in * 9
        &&& self.k_pad == align_up(i.c_in * 9, 16)
        &&& self.c_in == i.c_in
        &&& self.c_out == w.n
        &&& self.m_pad == w.n_pad
        &&& self.plane == i.plane()
        &&& self.plane_pad == align_up(i.plane(), 32)
        &&& self.h_in == i.h_in
        &&& self.w_in == i.w_in
        &&& self.w_stride == i.w_stride
        &&& self.in_chunk == i.in_chunk
        &&& self.in_ic == i.in_ic
        &&& self.taps@ == tap_table(i.h_in as int, i.w_in as int, i.w_stride as int)
    }

    /// Builds the level, unless the kernel's depth is not the input's in whole
    /// steps.
    pub fn build(w: LinearShape, i: LevelInput) -> (r: Option<ConvLevel>)
        requires
            i.fits(),
        ensures
            r is Some <==> w.k == align_up(i.c_in * 9, 16),
            r matches Some(l) ==> l.made(i, w),
    {
        proof {
            lemma_align_bounds(i.c_in * 9, 16);
        }
        let k: usize = i.c_in * TAPS;
        let k_pad: usize = pad_k_tile(k);
        if w.k != k_pad {
            return None;
        }
        let (taps, plane, _h_out, _w_out) = conv_taps(i.h_in, i.w_in, i.w_stride);
        Some(
            ConvLevel {
                n_all: i.n_all,
                k,
                k_pad,
                c_in: i.c_in,
                c_out: w.n,
                m_pad: w.n_pad,
                plane,
                plane_pad: align(plane, 32),
                h_in: i.h_in,
                w_in: i.w_in,
                w_stride: i.w_stride,
                in_chunk: i.in_chunk,
                in_ic: i.in_ic,
                taps,
            },
        )
    }

    /// Height of the output plane.
    pub fn h_out(&self) -> (r: usize)
        requires
            1 <= self.h_in <= usize::MAX - 2,
        ensures
            r == conv_len(self.h_in as int),
    {
        (self.h_in + 2 - 3) / 2 + 1
    }

    /// Width of the output plane.
    pub fn w_out(&self) -> (r: usize)
        requires
            1 <= self.w_in <= usize::MAX - 2,
        ensures
            r == conv_len(self.w_in as int),
    {
        (self.w_in + 2 - 3) / 2 + 1
    }
}

/// The loaded tower's layout.
pub struct GpuAudioEncoder {
    pub d_model: usize,
    pub out_dim: usize,
    pub nh: usize,
    pub hd: usize,
    pub inter: usize,
    /// Tokens of a full chunk.
    pub tpc: usize,
    /// Frames of a full chunk.
    pub cs: usize,
    pub n_mels: usize,
    pub pe_rows: usize,
    pub window_infer: usize,
    /// The conv levels in chain order.
    pub conv: Vec<ConvLevel>,
    pub conv_out: LinearShape,
    pub layers: Vec<LayerShapes>,
    pub proj1: LinearShape,
    pub proj2: LinearShape,
    /// Mel row stride.
    pub w0: usize,
    /// Elements of one chunk's mel image.
    pub mel_chunk: usize,
    /// Row stride of the attention operands.
    pub attn_cols: usize,
}

/// Output plane of level `i` of the chain over `n_mels x cs`.
pub open spec fn chain_plane(n_mels: int, cs: int, i: int) -> int {
    if i == 0 {
        conv_len(n_mels) * conv_len(cs)
    } else if i == 1 {
        conv_len(conv_len(n_mels)) * conv_len(conv_len(cs))
    } else {
        token_len(n_mels) * token_len(cs)
    }
}

/// Position stride of a chunk at level `i`.
pub open spec fn chain_pad(n_mels: int, cs: int, i: int) -> int {
    align_up(chain_plane(n_mels, cs, i), 32)
}

/// Positions of a round at level `i`.
pub open spec fn chain_all(n_mels: int, cs: int, i: int) -> int {
    align_up(8 * chain_pad(n_mels, cs, i), 128)
}

/// `v` rounded up to an even number.
pub open spec fn even_up(v: int) -> int {
    v + v % 2
}

/// The input of level `i`: the mel image, then each level's output plane.
pub open spec fn chain_input(n_mels: int, cs: int, c1: usize, c2: usize, i: int) -> LevelInput {
    if i == 0 {
        LevelInput {
            h_in: n_mels as usize,
            w_in: cs as usize,
            w_stride: even_up(cs) as usize,
            c_in: 1,
            in_chunk: (n_mels * even_up(cs)) as usize,
            in_ic: 0,
            n_all: chain_all(n_mels, cs, 0) as usize,
        }
    } else if i == 1 {
        LevelInput {
            h_in: conv_len(n_mels) as usize,
            w_in: conv_len(cs) as usize,
            w_stride: conv_len(cs) as usize,
            c_in: c1,
            in_chunk: chain_pad(n_mels, cs, 0) as usize,
            in_ic: chain_all(n_mels, cs, 0) as usize,
            n_all: chain_all(n_mels, cs, 1) as usize,
        }
    } else {
        LevelInput {
            h_in: conv_len(conv_len(n_mels)) as usize,
            w_in: conv_len(conv_len(cs)) as usize,
            w_stride: conv_len(conv_len(cs)) as usize,
            c_in: c2,
            in_chunk: chain_pad(n_mels, cs, 1) as usize,
            in_ic: chain_all(n_mels, cs, 1) as usize,
            n_all: chain_all(n_mels, cs, 2) as usize,
        }
    }
}

/// The check that the layer shapes fail first.
pub open spec fn layer_error(l: LayerShapes, i: usize, dm: int, nh: int, hd: int, inter: int) -> Option<EncoderError> {
    if !(l.qkv.k == dm && l.qkv.n == 3 * dm) {
        Some(EncoderError::LayerQkv { layer: i })
    } else if !(l.o.k == nh * hd && l.o.n == dm) {
        Some(EncoderError::LayerOut { layer: i })
    } else if !(l.fc1.k == dm && l.fc1.n == inter) {
        Some(EncoderError::LayerFc1 { layer: i })
    } else if !(l.fc2.k == inter && l.fc2.n == dm) {
        Some(EncoderError::LayerFc2 { layer: i })
    } else {
        None
    }
}

/// The check that the layers fail first, from layer `i` on.
pub open spec fn layers_error(l: Seq<LayerShapes>, i: int, dm: int, nh: int, hd: int, inter: int) -> Option<EncoderError>
    decreases l.len() - i,
{
    if i >= l.len() || i < 0 {
        None
    } else {
        match layer_error(l[i], i as usize, dm, nh, hd, inter) {
            Some(e) => Some(e),
            None => layers_error(l, i + 1, dm, nh, hd, inter),
        }
    }
}

/// Tokens of one attention window.
pub open spec fn window_tokens(cs: int, window_infer: int) -> int {
    token_len(cs) * (window_infer / cs)
}

/// The check that a tower fails first, in the order they are made.
pub open spec fn tower_error(cfg: AudioEncoderConfig, t: TowerShapes, window_infer: int) -> Option<EncoderError> {
    let dm = cfg.d_model as int;
    let nh = cfg.encoder_attention_heads as int;
    let hd = dm / nh;
    let cs = cfg.n_window * 2;
    let n_mels = cfg.num_mel_bins as int;
    let h3 = token_len(n_mels);
    if dm % nh != 0 {
        Some(EncoderError::HeadSplit { d_model: cfg.d_model, heads: cfg.encoder_attention_heads })
    } else if t.c1.k != 16 {
        Some(EncoderError::Conv1Depth { k: t.c1.k })
    } else if t.c2.k != t.c1.n * 9 {
        Some(EncoderError::Conv2Depth { k: t.c2.k, c1: t.c1.n })
    } else if t.c3.k != t.c2.n * 9 {
        Some(EncoderError::Conv3Depth { k: t.c3.k, c2: t.c2.n })
    } else if t.conv_out.k != t.c3.n * h3 {
        Some(EncoderError::ConvOutDepth { k: t.conv_out.k, c3: t.c3.n, h3: h3 as usize })
    } else if t.conv_out.n != dm {
        Some(EncoderError::ConvOutWidth { n: t.conv_out.n, d_model: cfg.d_model })
    } else if chain_plane(n_mels, cs, 0) % 2 != 0 {
        Some(EncoderError::OddPlane { conv: 1, plane: chain_plane(n_mels, cs, 0) as usize })
    } else if chain_plane(n_mels, cs, 1) % 2 != 0 {
        Some(EncoderError::OddPlane { conv: 2, plane: chain_plane(n_mels, cs, 1) as usize })
    } else if chain_plane(n_mels, cs, 2) % 2 != 0 {
        Some(EncoderError::OddPlane { conv: 3, plane: chain_plane(n_mels, cs, 2) as usize })
    } else if t.c2.k != align_up(t.c1.n * 9, 16) {
        Some(EncoderError::DepthTile { conv: 2, k: t.c2.k })
    } else if t.c3.k != align_up(t.c2.n * 9, 16) {
        Some(EncoderError::DepthTile { conv: 3, k: t.c3.k })
    } else if layers_error(t.layers@, 0, dm, nh, hd, cfg.encoder_ffn_dim as int) is Some {
        layers_error(t.layers@, 0, dm, nh, hd, cfg.encoder_ffn_dim as int)
    } else if !(t.proj1.k == dm && t.proj2.k == t.proj1.n && t.proj2.n == cfg.output_dim) {
        Some(EncoderError::Projector)
    } else if window_tokens(cs, window_infer) > MAX_WINDOW {
        Some(EncoderError::Window { wlen: window_tokens(cs, window_infer) as usize })
    } else {
        None
    }
}

/// A configuration whose sizes fit.
pub open spec fn tower_fits(cfg: AudioEncoderConfig, t: TowerShapes, window_infer: int) -> bool {
    let cs = cfg.n_window * 2;
    let n_mels = cfg.num_mel_bins as int;
    let dm = cfg.d_model as int;
    &&& cfg.encoder_attention_heads > 0
    &&& 1 <= cfg.n_window
    &&& cs <= usize::MAX - 2
    &&& 1 <= n_mels <= usize::MAX - 2
    &&& n_mels * even_up(cs) + cs <= usize::MAX
    &&& chain_all(n_mels, cs, 0) <= usize::MAX
    &&& chain_all(n_mels, cs, 1) <= usize::MAX
    &&& chain_all(n_mels, cs, 2) <= usize::MAX
    &&& chain_plane(n_mels, cs, 0) * 9 <= usize::MAX
    &&& chain_plane(n_mels, cs, 1) * 9 <= usize::MAX
    &&& chain_plane(n_mels, cs, 2) * 9 <= usize::MAX
    &&& conv_len(n_mels) * conv_len(cs) + conv_len(cs) <= usize::MAX
    &&& conv_len(conv_len(n_mels)) * conv_len(conv_len(cs)) + conv_len(conv_len(cs)) <= usize::MAX
    &&& align_up(t.c1.n * 9, 16) <= usize::MAX
    &&& align_up(t.c2.n * 9, 16) <= usize::MAX
    &&& t.c3.n * token_len(n_mels) <= usize::MAX
    &&& 3 * dm <= usize::MAX
    &&& align_up(dm, 128) <= usize::MAX
    &&& window_tokens(cs, window_infer) <= usize::MAX
}

impl GpuAudioEncoder {
    /// The tower that a configuration and a checkpoint make.
    pub open spec fn made(self, cfg: AudioEncoderConfig, t: TowerShapes, window_infer: usize) -> bool {
        let dm = cfg.d_model as int;
        let cs = cfg.n_window * 2;
        let n_mels = cfg.num_mel_bins as int;
        &&& self.d_model == dm
        &&& self.out_dim == cfg.output_dim
        &&& self.nh == cfg.encoder_attention_heads
        &&& self.hd == dm / (cfg.encoder_attention_heads as int)
        &&& self.inter == cfg.encoder_ffn_dim
        &&& self.tpc == token_len(cs)
        &&& self.cs == cs
        &&& self.n_mels == n_mels
        &&& self.pe_rows == cfg.max_source_positions
        &&& self.window_infer == window_infer
        &&& self.conv@.len() == 3
        &&& self.conv@[0].made(chain_input(n_mels, cs, t.c1.n, t.c2.n, 0), t.c1)
        &&& self.conv@[1].made(chain_input(n_mels, cs, t.c1.n, t.c2.n, 1), t.c2)
        &&& self.conv@[2].made(chain_input(n_mels, cs, t.c1.n, t.c2.n, 2), t.c3)
        &&& self.conv_out == t.conv_out
        &&& self.layers@ == t.layers@
        &&& self.proj1 == t.proj1
        &&& self.proj2 == t.proj2
        &&& self.w0 == even_up(cs)
        &&& self.mel_chunk == n_mels * even_up(cs)
        &&& self.attn_cols == align_up(dm, 128)
    }

    /// The rows of every weight are in whole tiles: the outputs, padded with
    /// zeros, and not a row more.
    pub open spec fn in_tiles(self) -> bool {
        &&& forall|i: int|
            0 <= i < self.conv@.len() ==> (#[trigger] self.conv@[i]).m_pad == align_up(self.conv@[i].c_out as int, 128)
        &&& self.conv_out.padded() && self.proj1.padded() && self.proj2.padded()
        &&& forall|i: int| 0 <= i < self.layers@.len() ==> (#[trigger] self.layers@[i]).padded()
    }

    /// Lays the tower out, or says which check fails.
    pub fn load(cfg: &AudioEncoderConfig, t: &TowerShapes, window_infer: usize) -> (r: Result<Self, EncoderError>)
        requires
            tower_fits(*cfg, *t, window_infer as int),
            t.padded(),
        ensures
            match tower_error(*cfg, *t, window_infer as int) {
                Some(e) => r is Err && r->Err_0 == e,
                None => r is Ok && r->Ok_0.made(*cfg, *t, window_infer) && r->Ok_0.in_tiles(),
            },
    {
        let dm: usize = cfg.d_model;
        let nh: usize = cfg.encoder_attention_heads;
        if dm % nh != 0 {
            return Err(EncoderError::HeadSplit { d_model: dm, heads: nh });
        }
        let hd: usize = dm / nh;
        let inter: usize = cfg.encoder_ffn_dim;
        let cs: usize = cfg.n_window * 2;
        let n_mels: usize = cfg.num_mel_bins;
        let tpc: usize = feo(cs);
        if t.c1.k != pad_k_tile(TAPS) {
            return Err(EncoderError::Conv1Depth { k: t.c1.k });
        }
        proof {
            lemma_align_bounds(t.c1.n * 9, 16);
            lemma_align_bounds(t.c2.n * 9, 16);
            assert(nh * hd == dm) by (nonlinear_arith)
                requires
                    dm % nh == 0,
                    hd == dm / nh,
                    nh > 0,
            ;
        }
        if t.c2.k != t.c1.n * TAPS {
            return Err(EncoderError::Conv2Depth { k: t.c2.k, c1: t.c1.n });
        }
        if t.c3.k != t.c2.n * TAPS {
            return Err(EncoderError::Conv3Depth { k: t.c3.k, c2: t.c2.n });
        }
        let w0: usize = pad_even(cs);
        let h1: usize = conv_out_len(n_mels);
        let t1: usize = conv_out_len(cs);
        let h2: usize = conv_out_len(h1);
        let t2: usize = conv_out_len(t1);
        let h3: usize = conv_out_len(h2);
        let t3: usize = conv_out_len(t2);
        if t.conv_out.k != t.c3.n * h3 {
            return Err(EncoderError::ConvOutDepth { k: t.conv_out.k, c3: t.c3.n, h3 });
        }
        if t.conv_out.n != dm {
            return Err(EncoderError::ConvOutWidth { n: t.conv_out.n, d_model: dm });
        }
        proof {
            assert(0 <= h1 * t1) by (nonlinear_arith);
            assert(0 <= h2 * t2) by (nonlinear_arith);
            assert(0 <= h3 * t3) by (nonlinear_arith);
        }
        let p1: usize = h1 * t1;
        let p2: usize = h2 * t2;
        let p3: usize = h3 * t3;
        if p1 % 2 != 0 {
            return Err(EncoderError::OddPlane { conv: 1, plane: p1 });
        }
        if p2 % 2 != 0 {
            return Err(EncoderError::OddPlane { conv: 2, plane: p2 });
        }
        if p3 % 2 != 0 {
            return Err(EncoderError::OddPlane { conv: 3, plane: p3 });
        }
        proof {
            lemma_align_bounds(p1 as int, 32);
            lemma_align_bounds(p2 as int, 32);
            lemma_align_bounds(p3 as int, 32);
            lemma_align_bounds(8 * align_up(p1 as int, 32), 128);
            lemma_align_bounds(8 * align_up(p2 as int, 32), 128);
            lemma_align_bounds(8 * align_up(p3 as int, 32), 128);
            lemma_align_bounds(9, 16);
        }
        let pad1: usize = align(p1, 32);
        let pad2: usize = align(p2, 32);
        let pad3: usize = align(p3, 32);
        let all1: usize = align(CONV_TILE * pad1, GEMM_BN);
        let all2: usize = align(CONV_TILE * pad2, GEMM_BN);
        let all3: usize = align(CONV_TILE * pad3, GEMM_BN);
        let mel_chunk: usize = mel_elems(n_mels, w0);
        let i1 = LevelInput { h_in: n_mels, w_in: cs, w_stride: w0, c_in: 1, in_chunk: mel_chunk, in_ic: 0, n_all: all1 };
        let i2 = LevelInput { h_in: h1, w_in: t1, w_stride: t1, c_in: t.c1.n, in_chunk: pad1, in_ic: all1, n_all: all2 };
        let i3 = LevelInput { h_in: h2, w_in: t2, w_stride: t2, c_in: t.c2.n, in_chunk: pad2, in_ic: all2, n_all: all3 };
        let l1 = match ConvLevel::build(t.c1, i1) {
            Some(l) => l,
            None => {
                assert(false);
                return Err(EncoderError::Conv1Depth { k: t.c1.k });
            },
        };
        let l2 = match ConvLevel::build(t.c2, i2) {
            Some(l) => l,
            None => {
                return Err(EncoderError::DepthTile { conv: 2, k: t.c2.k });
            },
        };
        let l3 = match ConvLevel::build(t.c3, i3) {
            Some(l) => l,
            None => {
                return Err(EncoderError::DepthTile { conv: 3, k: t.c3.k });
            },
        };
        let mut layers: Vec<LayerShapes> = Vec::new();
        for i in 0..t.layers.len()
            invariant
                nh * hd == dm,
                3 * dm <= usize::MAX,
                layers@ == t.layers@.take(i as int),
                layers_error(t.layers@, 0, dm as int, nh as int, hd as int, inter as int) == layers_error(
                    t.layers@,
                    i as int,
                    dm as int,
                    nh as int,
                    hd as int,
                    inter as int,
                ),
                tower_error(*cfg, *t, window_infer as int) is None ==> layers_error(
                    t.layers@,
                    0,
                    dm as int,
                    nh as int,
                    hd as int,
                    inter as int,
                ) is None,
                layers_error(t.layers@, 0, dm as int, nh as int, hd as int, inter as int) is Some ==> tower_error(
                    *cfg,
                    *t,
                    window_infer as int,
                ) == layers_error(t.layers@, 0, dm as int, nh as int, hd as int, inter as int),
        {
            let l = t.layers[i];
            if !(l.qkv.k == dm && l.qkv.n == 3 * dm) {
                return Err(EncoderError::LayerQkv { layer: i });
            }
            if !(l.o.k == nh * hd && l.o.n == dm) {
                return Err(EncoderError::LayerOut { layer: i });
            }
            if !(l.fc1.k == dm && l.fc1.n == inter) {
                return Err(EncoderError::LayerFc1 { layer: i });
            }
            if !(l.fc2.k == inter && l.fc2.n == dm) {
                return Err(EncoderError::LayerFc2 { layer: i });
            }
            layers.push(l);
        }
        if !(t.proj1.k == dm && t.proj2.k == t.proj1.n && t.proj2.n == cfg.output_dim) {
            return Err(EncoderError::Projector);
        }
        assert(layers@ == t.layers@);
        let wlen: usize = tpc * (window_infer / cs);
        if wlen > MAX_WINDOW {
            return Err(EncoderError::Window { wlen });
        }
        Ok(
            GpuAudioEncoder {
                d_model: dm,
                out_dim: cfg.output_dim,
                nh,
                hd,
                inter,
                tpc,
                cs,
                n_mels,
                pe_rows: cfg.max_source_positions,
                window_infer,
                conv: vec![l1, l2, l3],
                conv_out: t.conv_out,
                layers,
                proj1: t.proj1,
                proj2: t.proj2,
                w0,
                mel_chunk,
                attn_cols: align(nh * hd, GEMM_BM),
            },
        )
    }

    /// The numbers of conv level `i`.
    pub fn level(&self, i: usize) -> (r: LevelView)
        requires
            i < self.conv@.len(),
            1 <= self.conv@[i as int].h_in <= usize::MAX - 2,
            1 <= self.conv@[i as int].w_in <= usize::MAX - 2,
        ensures
            ({
                let l = self.conv@[i as int];
                r == (LevelView {
                    n_all: l.n_all,
                    k: l.k,
                    k_pad: l.k_pad,
                    c_in: l.c_in,
                    c_out: l.c_out,
                    m_pad: l.m_pad,
                    plane: l.plane,
                    plane_pad: l.plane_pad,
                    h_in: l.h_in,
                    w_in: l.w_in,
                    h_out: conv_len(l.h_in as int) as usize,
                    w_out: conv_len(l.w_in as int) as usize,
                    in_chunk: l.in_chunk,
                    in_ic: l.in_ic,
                })
            }),
    {
        let l = &self.conv[i];
        LevelView {
            n_all: l.n_all,
            k: l.k,
            k_pad: l.k_pad,
            c_in: l.c_in,
            c_out: l.c_out,
            m_pad: l.m_pad,
            plane: l.plane,
            plane_pad: l.plane_pad,
            h_in: l.h_in,
            w_in: l.w_in,
            h_out: l.h_out(),
            w_out: l.w_out(),
            in_chunk: l.in_chunk,
            in_ic: l.in_ic,
        }
    }
}

/// A tower that loads is a chain: each level's input plane and channels are the
/// output of the level before, and a chunk of the last level is as many tokens
/// as a full chunk of frames.
pub proof fn law_tower_is_a_chain(e: GpuAudioEncoder, cfg: AudioEncoderConfig, t: TowerShapes, window_infer: usize)
    requires
        tower_fits(cfg, t, window_infer as int),
        e.made(cfg, t, window_infer),
    ensures
        forall|i: int|
            1 <= i < 3 ==> {
                &&& (#[trigger] e.conv@[i]).h_in == conv_len(e.conv@[i - 1].h_in as int)
                &&& e.conv@[i].w_in == conv_len(e.conv@[i - 1].w_in as int)
                &&& e.conv@[i].c_in == e.conv@[i - 1].c_out
                &&& e.conv@[i].in_chunk == e.conv@[i - 1].plane_pad
                &&& e.conv@[i].in_ic == e.conv@[i - 1].n_all
            },
        conv_len(e.conv@[2].w_in as int) == e.tpc,
        e.conv@[2].plane == conv_len(e.conv@[2].h_in as int) * e.tpc,
{
    let cs = cfg.n_window * 2;
    let n = cfg.num_mel_bins as int;
    assert(conv_len(cs) <= cs);
    assert(conv_len(n) <= n);
    lemma_align_bounds(chain_plane(n, cs, 0), 32);
    lemma_align_bounds(chain_plane(n, cs, 1), 32);
    assert(0 <= chain_plane(n, cs, 0)) by (nonlinear_arith)
        requires
            n >= 1,
            cs >= 1,
    ;
    assert(e.conv@[0].c_out == t.c1.n);
}

/// A round's positions hold every chunk of it: chunk `c` of level `i` begins
/// `c * plane_pad` in and ends before the channel stride.
pub proof fn law_round_holds_chunks(n_mels: int, cs: int, i: int, c: int)
    requires
        n_mels >= 1,
        cs >= 1,
        0 <= i < 3,
        0 <= c < CONV_TILE,
    ensures
        chain_plane(n_mels, cs, i) <= chain_pad(n_mels, cs, i),
        c * chain_pad(n_mels, cs, i) + chain_plane(n_mels, cs, i) <= chain_all(n_mels, cs, i),
{
    let p = chain_plane(n_mels, cs, i);
    assert(p >= 0) by {
        assert(conv_len(n_mels) * conv_len(cs) >= 0) by (nonlinear_arith)
            requires
                n_mels >= 1,
                cs >= 1,
        ;
        assert(conv_len(conv_len(n_mels)) * conv_len(conv_len(cs)) >= 0) by (nonlinear_arith)
            requires
                n_mels >= 1,
                cs >= 1,
        ;
        assert(token_len(n_mels) * token_len(cs) >= 0) by (nonlinear_arith)
            requires
                n_mels >= 1,
                cs >= 1,
        ;
    }
    lemma_align_bounds(p, 32);
    let q = align_up(p, 32);
    lemma_align_bounds(8 * q, 128);
    assert(c * q <= 7 * q) by (nonlinear_arith)
        requires
            c <= 7,
            q >= 0,
    ;
}

} // verus!
