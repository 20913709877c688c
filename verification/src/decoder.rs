//! The text decoder's state and vocabulary: hyper-parameters, runtime switches,
//! the KV cache ledger, and the buffers, kernels, bind groups and commands that
//! the plans are written in.
//!
//! Nothing here touches a device. A plan is a list of [`Op`]s that a driver
//! replays against one.
use vstd::prelude::*;

use crate::geometry::{align_up, div_up, ladder, block_for_reduction, lemma_align_bounds};
use crate::text::{ascii_lower_seq, is_word, parse_u32, parse_usize, parse_value};

verus! {

/// Rows per workgroup of the fused norm-and-multiply kernels.
pub const GEMV_NORM_RPW: usize = 8;

/// Longest context of the single-block attention kernel; above it attention is
/// split over chunks of the context and merged.
pub const GQA_SINGLE_CAP: usize = 1024;

/// KV slots allocated at load.
pub const KV_INITIAL_CAP: usize = 1024;

/// KV capacity grows in multiples of this.
pub const KV_STEP: usize = 256;

/// Keys of one slab of the bounded-row prefill attention.
pub const SLAB_T: usize = 1024;

/// Workgroup width of the slab softmax.
pub const SLAB_BS: usize = 256;

/// Slabs that the uniform buffer has slots for.
pub const MAX_SLAB: usize = 16;

/// Slots of the GEMM uniform ring.
pub const MAX_GEMMS: usize = 256;

/// Physical workgroup width of the flat softmax.
pub const SOFTMAX_BS_PHYS: u32 = 128;

/// Text decoder hyper-parameters. `rms_norm_eps_bits` is the bit pattern of the
/// single-precision epsilon.
#[derive(Clone, Copy, Debug, PartialEq, Eq, Structural)]
pub struct TextConfig {
    pub vocab_size: usize,
    pub hidden_size: usize,
    pub intermediate_size: usize,
    pub num_hidden_layers: usize,
    pub num_attention_heads: usize,
    pub num_key_value_heads: usize,
    pub head_dim: usize,
    pub rms_norm_eps_bits: u32,
}

impl TextConfig {
    /// Width of all query heads together.
    pub open spec fn q_width(self) -> int {
        self.num_attention_heads * self.head_dim
    }

    /// Width of all key (or value) heads together.
    pub open spec fn kv_width(self) -> int {
        self.num_key_value_heads * self.head_dim
    }

    /// Width of the fused query, key and value projection.
    pub open spec fn qkv_width(self) -> int {
        self.q_width() + 2 * self.kv_width()
    }

    /// The widths fit a size.
    pub open spec fn widths_fit(self) -> bool {
        &&& self.q_width() <= usize::MAX
        &&& self.kv_width() <= usize::MAX
        &&& 2 * self.kv_width() <= usize::MAX
        &&& self.qkv_width() <= usize::MAX
        &&& 2 * self.intermediate_size <= usize::MAX
        &&& self.num_attention_heads + self.num_key_value_heads <= usize::MAX
    }

    pub fn q_dim(&self) -> (r: usize)
        requires
            self.q_width() <= usize::MAX,
        ensures
            r == self.q_width(),
    {
        self.num_attention_heads * self.head_dim
    }

    pub fn kv_dim(&self) -> (r: usize)
        requires
            self.kv_width() <= usize::MAX,
        ensures
            r == self.kv_width(),
    {
        self.num_key_value_heads * self.head_dim
    }

    pub fn fused_qkv_cols(&self) -> (r: usize)
        requires
            self.widths_fit(),
        ensures
            r == self.qkv_width(),
    {
        self.q_dim() + 2 * self.kv_dim()
    }
}

/// How the prefill chooses between flat and slab attention.
#[derive(Clone, Copy, Debug, PartialEq, Eq, Structural)]
pub enum SlabMode {
    /// By prompt length.
    Auto,
    Always,
    Never,
}

/// Every runtime switch, decided once.
pub struct Switches {
    /// Rows per workgroup of the plain vector-matrix kernels.
    pub gemv_rpw: usize,
    /// Warp shuffles in the softmax reduction tails.
    pub sg_reduce: bool,
    pub slab: SlabMode,
    /// Key words that attention stage 1 loads ahead.
    pub gqa_depth: usize,
    /// Warp-cooperative attention stage 1.
    pub gqa_coop: bool,
    /// Attention stage 1 loads one word early.
    pub gqa_pf: bool,
    /// Forced split-attention chunk, 0 for the default policy.
    pub gqa_chunk: usize,
    /// Attention handles the query heads of a kv head together.
    pub gqa_pair: bool,
    /// Forced physical softmax width, 0 for the default.
    pub sm_bs: u32,
    /// The dispatch that is issued twice.
    pub dup: String,
    /// The dispatch that is left out.
    pub skip: String,
}

/// The size that an optional setting spells.
pub open spec fn size_setting(v: Option<Seq<char>>) -> Option<nat> {
    match v {
        Some(s) => parse_value(s, usize::MAX as nat),
        None => None,
    }
}

/// The view of an optional setting.
pub open spec fn setting_view(v: Option<String>) -> Option<Seq<char>> {
    match v {
        Some(s) => Some(s@),
        None => None,
    }
}

fn size_of_setting(v: &Option<String>) -> (r: Option<usize>)
    ensures
        match r {
            Some(n) => size_setting(setting_view(*v)) == Some(n as nat),
            None => size_setting(setting_view(*v)) is None,
        },
{
    match v {
        Some(s) => parse_usize(s.as_str()),
        None => None,
    }
}

/// Whether a setting reads as "off".
pub open spec fn says_off(v: Seq<char>) -> bool {
    let w = ascii_lower_seq(v);
    w == "0"@ || w == "off"@ || w == "no"@
}

/// Whether a setting reads as "on".
pub open spec fn says_on(v: Seq<char>) -> bool {
    let w = ascii_lower_seq(v);
    w == "1"@ || w == "on"@ || w == "yes"@
}

fn reads_off(v: &str) -> (r: bool)
    ensures
        r == says_off(v@),
{
    is_word(v, "0") || is_word(v, "off") || is_word(v, "no")
}

fn reads_on(v: &str) -> (r: bool)
    ensures
        r == says_on(v@),
{
    is_word(v, "1") || is_word(v, "on") || is_word(v, "yes")
}

/// Rows per workgroup of the plain vector-matrix kernels: the setting if it is
/// 2, 4, 8, 16 or 32, else 8.
pub open spec fn rpw_of(setting: Option<nat>) -> nat {
    match setting {
        Some(n) => if n == 2 || n == 4 || n == 8 || n == 16 || n == 32 {
            n
        } else {
            8
        },
        None => 8,
    }
}

/// Reads the rows per workgroup of the plain vector-matrix kernels.
pub fn gemv_rpw(setting: &Option<String>) -> (r: usize)
    ensures
        r == rpw_of(size_setting(setting_view(*setting))),
{
    match size_of_setting(setting) {
        Some(n) => if n == 2 || n == 4 || n == 8 || n == 16 || n == 32 {
            n
        } else {
            8
        },
        None => 8,
    }
}

/// Warp shuffles are on unless the setting turns them off.
pub fn sg_reduce(setting: &str) -> (r: bool)
    ensures
        r == !says_off(setting@),
{
    !reads_off(setting)
}

/// The slab mode that a setting names; anything unknown leaves it to the length.
pub open spec fn slab_mode_of(setting: Seq<char>) -> SlabMode {
    if says_on(setting) || ascii_lower_seq(setting) == "force"@ {
        SlabMode::Always
    } else if says_off(setting) {
        SlabMode::Never
    } else {
        SlabMode::Auto
    }
}

pub fn slab_mode(setting: &str) -> (r: SlabMode)
    ensures
        r == slab_mode_of(setting@),
{
    if reads_on(setting) || is_word(setting, "force") {
        SlabMode::Always
    } else if reads_off(setting) {
        SlabMode::Never
    } else {
        SlabMode::Auto
    }
}

/// Whether a prefill of `s` positions takes the slab path.
pub open spec fn takes_slabs(mode: SlabMode, s: int) -> bool {
    match mode {
        SlabMode::Always => true,
        SlabMode::Never => false,
        SlabMode::Auto => s > 4096,
    }
}

/// Whether a prefill of `s` positions takes the slab path.
pub fn slab_path(mode: SlabMode, s: usize) -> (r: bool)
    ensures
        r == takes_slabs(mode, s as int),
{
    match mode {
        SlabMode::Always => true,
        SlabMode::Never => false,
        SlabMode::Auto => s > 4096,
    }
}

/// Key words loaded ahead: the setting if it is 1 to 16, else 1.
pub open spec fn depth_of(setting: Option<nat>) -> nat {
    match setting {
        Some(n) => if 1 <= n <= 16 {
            n
        } else {
            1
        },
        None => 1,
    }
}

/// Reads the key words loaded ahead.
pub fn gqa_depth(setting: &Option<String>) -> (r: usize)
    ensures
        r == depth_of(size_setting(setting_view(*setting))),
{
    match size_of_setting(setting) {
        Some(n) => if 1 <= n && n <= 16 {
            n
        } else {
            1
        },
        None => 1,
    }
}

/// Warp-cooperative stage 1 is off unless the setting turns it on.
pub fn gqa_coop(setting: &str) -> (r: bool)
    ensures
        r == says_on(setting@),
{
    reads_on(setting)
}

/// Early loads are on unless the setting turns them off.
pub fn gqa_pf(setting: &str) -> (r: bool)
    ensures
        r == !says_off(setting@),
{
    !reads_off(setting)
}

/// Paired query heads are on unless the setting turns them off.
pub fn gqa_pair(setting: &str) -> (r: bool)
    ensures
        r == !says_off(setting@),
{
    !reads_off(setting)
}

/// The forced chunk: the setting if it is 128, 256 or 512, else 0.
pub open spec fn forced_chunk_of(setting: Option<nat>) -> nat {
    match setting {
        Some(n) => if n == 128 || n == 256 || n == 512 {
            n
        } else {
            0
        },
        None => 0,
    }
}

/// Reads the forced split-attention chunk.
pub fn gqa_forced_chunk(setting: &Option<String>) -> (r: usize)
    ensures
        r == forced_chunk_of(size_setting(setting_view(*setting))),
{
    match size_of_setting(setting) {
        Some(n) => if n == 128 || n == 256 || n == 512 {
            n
        } else {
            0
        },
        None => 0,
    }
}

/// The forced softmax width: what the setting spells, 0 where it spells none.
pub open spec fn softmax_width_of(setting: Option<Seq<char>>) -> nat {
    match setting {
        Some(s) => match parse_value(s, u32::MAX as nat) {
            Some(n) => n,
            None => 0,
        },
        None => 0,
    }
}

/// Reads the forced softmax width.
pub fn forced_softmax_width(setting: &Option<String>) -> (r: u32)
    ensures
        r == softmax_width_of(setting_view(*setting)),
{
    match setting {
        Some(s) => match parse_u32(s.as_str()) {
            Some(n) => n,
            None => 0,
        },
        None => 0,
    }
}

impl Switches {
    /// Values the readers above can return.
    pub open spec fn wf(self) -> bool {
        &&& self.gemv_rpw == 2 || self.gemv_rpw == 4 || self.gemv_rpw == 8 || self.gemv_rpw == 16 || self.gemv_rpw
            == 32
        &&& 1 <= self.gqa_depth <= 16
        &&& self.gqa_chunk == 0 || self.gqa_chunk == 128 || self.gqa_chunk == 256 || self.gqa_chunk == 512
    }

    /// Decides every switch from the settings' text.
    pub fn read(
        rpw: &Option<String>,
        sm_subgroup: &str,
        slab: &str,
        depth: &Option<String>,
        coop: &str,
        pf: &str,
        chunk: &Option<String>,
        pair: &str,
        sm_bs: &Option<String>,
        dup: String,
        skip: String,
    ) -> (r: Switches)
        ensures
            r.wf(),
            r.slab == slab_mode_of(slab@),
            r.sg_reduce == !says_off(sm_subgroup@),
            r.gqa_coop == says_on(coop@),
            r.gqa_pf == !says_off(pf@),
            r.gqa_pair == !says_off(pair@),
            r.dup@ == dup@,
            r.skip@ == skip@,
            r.gemv_rpw == rpw_of(size_setting(setting_view(*rpw))),
            r.gqa_depth == depth_of(size_setting(setting_view(*depth))),
            r.gqa_chunk == forced_chunk_of(size_setting(setting_view(*chunk))),
            r.sm_bs == softmax_width_of(setting_view(*sm_bs)),
    {
        Switches {
            gemv_rpw: gemv_rpw(rpw),
            sg_reduce: sg_reduce(sm_subgroup),
            slab: slab_mode(slab),
            gqa_depth: gqa_depth(depth),
            gqa_coop: gqa_coop(coop),
            gqa_pf: gqa_pf(pf),
            gqa_chunk: gqa_forced_chunk(chunk),
            gqa_pair: gqa_pair(pair),
            sm_bs: forced_softmax_width(sm_bs),
            dup,
            skip,
        }
    }
}

/// The split-attention chunk at a context of `cur_len`.
pub open spec fn split_chunk(forced: int, cur_len: int) -> int {
    if forced != 0 {
        forced
    } else if cur_len >= 2048 {
        512
    } else {
        256
    }
}

/// The split-attention chunk at a context of `cur_len`.
pub fn gqa_split_chunk(forced: usize, cur_len: usize) -> (r: usize)
    ensures
        r == split_chunk(forced as int, cur_len as int),
{
    if forced != 0 {
        return forced;
    }
    if cur_len >= 2048 {
        512
    } else {
        256
    }
}

/// Physical and tree width of the flat softmax over rows of `last` keys. A tree
/// under 256 runs at its own width: the narrower widths have kernels from there
/// on only.
pub open spec fn softmax_widths(last: usize, forced: u32) -> (int, int) {
    let tree = ladder((last as u32) as int);
    let phys = if forced != 0 {
        forced as int
    } else {
        SOFTMAX_BS_PHYS as int
    };
    if tree <= phys || tree < 256 {
        (tree, tree)
    } else {
        (phys, tree)
    }
}

/// Physical and tree width of the flat softmax. A forced width has to be one
/// that pipelines are built for.
pub fn softmax_blocks(last: usize, forced: u32) -> (r: (u32, u32))
    requires
        width_known(forced),
    ensures
        r.0 == softmax_widths(last, forced).0,
        r.1 == softmax_widths(last, forced).1,
{
    let tree: u32 = block_for_reduction(last);
    let phys: u32 = if forced != 0 {
        forced
    } else {
        SOFTMAX_BS_PHYS
    };
    if tree <= phys || tree < 256 {
        (tree, tree)
    } else {
        (phys, tree)
    }
}

/// The softmax kernels that are built: every width of the ladder, and the
/// narrower physical widths 64, 128 and 256 under the trees 256, 512 and 1024.
pub open spec fn softmax_built(phys: int, tree: int) -> bool {
    if phys == tree {
        tree == 32 || tree == 64 || tree == 128 || tree == 256 || tree == 512 || tree == 1024
    } else {
        &&& phys == 64 || phys == 128 || phys == 256
        &&& tree == 256 || tree == 512 || tree == 1024
        &&& phys < tree
    }
}

/// The widths that may be forced on the flat softmax; nought forces none.
pub open spec fn width_known(forced: u32) -> bool {
    forced == 0 || forced == 64 || forced == 128 || forced == 256
}

/// The widths that [`softmax_blocks`] picks have a kernel, whatever the length
/// of the rows.
pub proof fn law_softmax_widths_built(last: usize, forced: u32)
    requires
        width_known(forced),
    ensures
        softmax_built(softmax_widths(last, forced).0, softmax_widths(last, forced).1),
{
}

/// Entry point of the split-attention kernel: the paired one where exactly two
/// query heads share a kv head.
pub fn pair_split_entry(nqh: usize, nkvh: usize) -> (r: &'static str)
    requires
        nkvh > 0,
    ensures
        r@ == if nqh == 2 * nkvh {
            "gqa_split_p1_pair"@
        } else {
            "gqa_split_p1"@
        },
{
    if nqh % 2 == 0 && nqh / 2 == nkvh {
        "gqa_split_p1_pair"
    } else {
        "gqa_split_p1"
    }
}

/// The decoder's ledger: what the KV cache holds and how far it may grow.
#[derive(Clone, Copy, Debug, PartialEq, Eq, Structural)]
pub struct WgpuTextDecoder {
    pub cfg: TextConfig,
    /// The ceiling on prompt plus generated positions.
    pub max_seq: usize,
    /// KV slots allocated. Every uniform that carries a KV stride uses this.
    pub cap: usize,
    /// Positions in the KV cache; the next step attends over one more.
    pub pos: usize,
}

/// Slots to hold `need` positions: whole steps, not above the ceiling, never
/// fewer than there are.
pub open spec fn grown_cap(need: int, max_seq: int, cap: int) -> int {
    let stepped = align_up(need, KV_STEP as int);
    let under = if stepped < max_seq {
        stepped
    } else {
        max_seq
    };
    if under > cap {
        under
    } else {
        cap
    }
}

/// The capacity to grow to for `need` positions.
pub fn grow_target(need: usize, max_seq: usize, cap: usize) -> (r: usize)
    requires
        align_up(need as int, KV_STEP as int) <= usize::MAX,
    ensures
        r == grown_cap(need as int, max_seq as int, cap as int),
{
    let stepped: usize = div_up(need, KV_STEP) * KV_STEP;
    let under: usize = if stepped < max_seq {
        stepped
    } else {
        max_seq
    };
    if under > cap {
        under
    } else {
        cap
    }
}

/// Growing never shrinks, holds what was asked for as far as the ceiling lets
/// it, does not pass the ceiling unless it was passed before, and asking again
/// changes nothing.
pub proof fn law_capacity_grows(need: int, max_seq: int, cap: int)
    requires
        need >= 0,
        max_seq >= 0,
        cap >= 0,
    ensures
        grown_cap(need, max_seq, cap) >= cap,
        grown_cap(need, max_seq, cap) >= need || grown_cap(need, max_seq, cap) >= max_seq,
        cap <= max_seq ==> grown_cap(need, max_seq, cap) <= max_seq,
        need <= cap && cap % (KV_STEP as int) == 0 ==> grown_cap(need, max_seq, cap) == cap,
        grown_cap(need, max_seq, grown_cap(need, max_seq, cap)) == grown_cap(need, max_seq, cap),
{
    lemma_align_bounds(need, KV_STEP as int);
    if need <= cap && cap % (KV_STEP as int) == 0 {
        crate::geometry::law_align_least(need, KV_STEP as int, cap);
    }
}

/// Growing for two requests in turn ends where growing for the larger one does.
pub proof fn law_capacity_order(a: int, b: int, max_seq: int, cap: int)
    requires
        0 <= a <= b,
        max_seq >= 0,
        cap >= 0,
    ensures
        grown_cap(b, max_seq, grown_cap(a, max_seq, cap)) == grown_cap(b, max_seq, cap),
        grown_cap(a, max_seq, grown_cap(b, max_seq, cap)) == grown_cap(b, max_seq, cap),
{
    lemma_align_bounds(a, KV_STEP as int);
    lemma_align_bounds(b, KV_STEP as int);
    crate::geometry::law_align_least(a, KV_STEP as int, align_up(b, KV_STEP as int));
}

/// 32-bit words of one layer's key (or value) cache of `slots` slots.
pub open spec fn kv_words(cfg: TextConfig, slots: int) -> int {
    cfg.num_key_value_heads * slots * cfg.head_dim / 2
}

impl WgpuTextDecoder {
    /// The cache never holds more than it has slots for, nor more slots than the
    /// ceiling allows.
    pub open spec fn wf(self) -> bool {
        self.cap <= self.max_seq
    }

    /// A decoder right after load.
    pub fn new(cfg: TextConfig, max_seq: usize) -> (r: WgpuTextDecoder)
        ensures
            r.wf(),
            r.cfg == cfg,
            r.max_seq == max_seq,
            r.cap == (if KV_INITIAL_CAP < max_seq {
                KV_INITIAL_CAP
            } else {
                max_seq
            }),
            r.pos == 0,
    {
        WgpuTextDecoder {
            cfg,
            max_seq,
            cap: if KV_INITIAL_CAP < max_seq {
                KV_INITIAL_CAP
            } else {
                max_seq
            },
            pos: 0,
        }
    }

    /// Grows the cache to hold `need` positions and returns its capacity. Where
    /// the capacity changes, the KV buffers and the bind groups that read them
    /// are rebuilt.
    pub fn ensure_capacity(&mut self, need: usize) -> (r: usize)
        requires
            old(self).wf(),
            align_up(need as int, KV_STEP as int) <= usize::MAX,
        ensures
            final(self).wf(),
            r == final(self).cap,
            final(self).cap == grown_cap(need as int, old(self).max_seq as int, old(self).cap as int),
            final(self).cfg == old(self).cfg,
            final(self).max_seq == old(self).max_seq,
            final(self).pos == old(self).pos,
    {
        let target: usize = grow_target(need, self.max_seq, self.cap);
        self.cap = target;
        self.cap
    }

    /// Bytes of one layer's key (or value) cache.
    pub fn kv_bytes(&self) -> (r: u64)
        requires
            self.cfg.num_key_value_heads * self.cap <= usize::MAX,
            self.cfg.num_key_value_heads * self.cap * self.cfg.head_dim <= usize::MAX,
            kv_words(self.cfg, self.cap as int) * 4 <= usize::MAX,
        ensures
            r == kv_words(self.cfg, self.cap as int) * 4,
    {
        let words: usize = self.cfg.num_key_value_heads * self.cap * self.cfg.head_dim / 2;
        (words * 4) as u64
    }

    /// Bytes of weights that one step reads.
    pub open spec fn step_weight_bytes_spec(self) -> int {
        let c = self.cfg;
        (c.qkv_width() * c.hidden_size + c.hidden_size * c.q_width() + 2 * c.intermediate_size * c.hidden_size
            + c.hidden_size * c.intermediate_size) * 2 * c.num_hidden_layers + c.vocab_size * c.hidden_size * 2
    }

    /// Bytes of weights that one step reads.
    pub fn step_weight_bytes(&self) -> (r: u64)
        requires
            self.cfg.widths_fit(),
            self.cfg.qkv_width() * self.cfg.hidden_size + self.cfg.hidden_size * self.cfg.q_width() + 2
                * self.cfg.intermediate_size * self.cfg.hidden_size + self.cfg.hidden_size
                * self.cfg.intermediate_size <= usize::MAX,
            self.cfg.vocab_size * self.cfg.hidden_size <= usize::MAX,
            (self.cfg.qkv_width() * self.cfg.hidden_size + self.cfg.hidden_size * self.cfg.q_width() + 2
                * self.cfg.intermediate_size * self.cfg.hidden_size + self.cfg.hidden_size
                * self.cfg.intermediate_size) * 2 <= u64::MAX,
            self.step_weight_bytes_spec() <= u64::MAX,
        ensures
            r == self.step_weight_bytes_spec(),
    {
        let c = &self.cfg;
        let qkv: usize = c.fused_qkv_cols();
        let q: usize = c.q_dim();
        proof {
            assert(0 <= qkv * c.hidden_size) by (nonlinear_arith);
            assert(0 <= c.hidden_size * q) by (nonlinear_arith);
            assert(0 <= 2 * c.intermediate_size * c.hidden_size) by (nonlinear_arith);
            assert(0 <= c.hidden_size * c.intermediate_size) by (nonlinear_arith);
            assert(0 <= c.vocab_size * c.hidden_size) by (nonlinear_arith);
        }
        let per_layer: usize = qkv * c.hidden_size + c.hidden_size * q + 2 * c.intermediate_size * c.hidden_size
            + c.hidden_size * c.intermediate_size;
        let layer_bytes: u64 = per_layer as u64 * 2;
        proof {
            assert(0 <= layer_bytes * c.num_hidden_layers) by (nonlinear_arith);
        }
        layer_bytes * c.num_hidden_layers as u64 + (c.vocab_size * c.hidden_size) as u64 * 2
    }
}

} // verus!
