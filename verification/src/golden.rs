//! Recorded runs: what they hold and how a run is held against one. Numbers that
//! are real in the file are kept as bit patterns.
use vstd::prelude::*;

use crate::text::{dec, lit, push_dec};

verus! {

/// What a recording says of itself.
#[derive(Clone, Debug)]
pub struct Meta {
    pub model_dir: String,
    pub wav: String,
    pub tag: String,
    pub hidden_size: usize,
    pub intermediate_size: usize,
    pub num_hidden_layers: usize,
    pub num_attention_heads: usize,
    pub num_key_value_heads: usize,
    pub head_dim: usize,
    pub vocab_size: usize,
    pub rms_norm_eps: u64,
    pub rope_theta: u64,
    pub mrope_section: Vec<usize>,
    pub mrope_interleaved: bool,
    pub audio_start_pos: usize,
    pub nat: usize,
    pub seq_len: usize,
    pub max_seq: usize,
    pub max_new_tokens: usize,
    pub first_token: i32,
    /// The token that ended generation, 0 where it was not recorded.
    pub last_token: i32,
    pub n_decode: usize,
    pub n_dumped_step_logits: usize,
}

/// How many elements each tensor of a recording has.
#[derive(Clone, Copy, Debug, PartialEq, Eq, Structural)]
pub struct TensorLens {
    pub hidden: usize,
    pub cos: usize,
    pub k_cache: usize,
    pub v_cache: usize,
    pub step_logits: usize,
}

/// A tensor of a recording.
#[derive(Clone, Copy, Debug, PartialEq, Eq, Structural)]
pub enum Recorded {
    KCache,
    VCache,
    Hidden,
    Cos,
    StepLogits,
}

/// A tensor of a length that its recording does not account for.
#[derive(Clone, Copy, Debug, PartialEq, Eq, Structural)]
pub struct LengthError {
    pub what: Recorded,
    pub got: usize,
    pub want: usize,
}

impl Recorded {
    /// The tensor's name.
    pub open spec fn name_spec(self) -> Seq<char> {
        match self {
            Recorded::KCache => "k_cache"@,
            Recorded::VCache => "v_cache"@,
            Recorded::Hidden => "hidden"@,
            Recorded::Cos => "cos"@,
            Recorded::StepLogits => "step_logits"@,
        }
    }

    /// The tensor's name.
    pub fn name(&self) -> (r: &'static str)
        ensures
            r@ == self.name_spec(),
    {
        match *self {
            Recorded::KCache => "k_cache",
            Recorded::VCache => "v_cache",
            Recorded::Hidden => "hidden",
            Recorded::Cos => "cos",
            Recorded::StepLogits => "step_logits",
        }
    }
}

impl Meta {
    /// Elements of one layer's key (or value) cache.
    pub open spec fn layer_elems(self) -> int {
        self.num_key_value_heads * self.seq_len * self.head_dim
    }

    /// The sizes fit.
    pub open spec fn fits(self) -> bool {
        &&& self.num_key_value_heads * self.seq_len <= usize::MAX
        &&& self.layer_elems() <= usize::MAX
        &&& self.layer_elems() * self.num_hidden_layers <= usize::MAX
        &&& self.seq_len * self.hidden_size <= usize::MAX
        &&& self.max_seq * self.head_dim <= usize::MAX
        &&& self.n_dumped_step_logits * self.vocab_size <= usize::MAX
    }

    /// The first tensor whose length the recording does not account for.
    pub open spec fn fault(self, t: TensorLens) -> Option<LengthError> {
        let kv = self.layer_elems() * self.num_hidden_layers;
        if t.k_cache != kv {
            Some(LengthError { what: Recorded::KCache, got: t.k_cache, want: kv as usize })
        } else if t.v_cache != kv {
            Some(LengthError { what: Recorded::VCache, got: t.v_cache, want: kv as usize })
        } else if t.hidden != self.seq_len * self.hidden_size {
            Some(
                LengthError {
                    what: Recorded::Hidden,
                    got: t.hidden,
                    want: (self.seq_len * self.hidden_size) as usize,
                },
            )
        } else if t.cos != self.max_seq * self.head_dim {
            Some(LengthError { what: Recorded::Cos, got: t.cos, want: (self.max_seq * self.head_dim) as usize })
        } else if t.step_logits != self.n_dumped_step_logits * self.vocab_size {
            Some(
                LengthError {
                    what: Recorded::StepLogits,
                    got: t.step_logits,
                    want: (self.n_dumped_step_logits * self.vocab_size) as usize,
                },
            )
        } else {
            None
        }
    }

    /// Checks the lengths of the tensors.
    pub fn check_integrity(&self, t: &TensorLens) -> (r: Result<(), LengthError>)
        requires
            self.fits(),
        ensures
            match self.fault(*t) {
                Some(e) => r == Err::<(), LengthError>(e),
                None => r is Ok,
            },
    {
        let per_layer: usize = self.num_key_value_heads * self.seq_len * self.head_dim;
        let kv: usize = per_layer * self.num_hidden_layers;
        check(t.k_cache, kv, Recorded::KCache)?;
        check(t.v_cache, kv, Recorded::VCache)?;
        check(t.hidden, self.seq_len * self.hidden_size, Recorded::Hidden)?;
        check(t.cos, self.max_seq * self.head_dim, Recorded::Cos)?;
        check(t.step_logits, self.n_dumped_step_logits * self.vocab_size, Recorded::StepLogits)?;
        Ok(())
    }

    /// The elements of one layer in a cache of all layers, as a half-open range.
    pub fn layer_range(&self, layer: usize) -> (r: (usize, usize))
        requires
            self.fits(),
            layer < self.num_hidden_layers,
        ensures
            r.0 == layer * self.layer_elems(),
            r.1 == (layer + 1) * self.layer_elems(),
            r.0 <= r.1 <= self.layer_elems() * self.num_hidden_layers,
    {
        let per_layer: usize = self.num_key_value_heads * self.seq_len * self.head_dim;
        proof {
            let p = per_layer as int;
            let n = self.num_hidden_layers as int;
            assert(0 <= layer * p && (layer + 1) * p == layer * p + p && (layer + 1) * p <= p * n) by (nonlinear_arith)
                requires
                    0 <= layer < n,
                    p >= 0,
            ;
        }
        (layer * per_layer, (layer + 1) * per_layer)
    }

    /// The tokens that a decode has to give: those recorded, and the one that
    /// ended generation where it was.
    pub fn expected_sequence(&self, tokens: &Vec<i32>) -> (r: Vec<i32>)
        ensures
            r@ == if self.last_token != 0 {
                tokens@.push(self.last_token)
            } else {
                tokens@
            },
    {
        let mut v: Vec<i32> = Vec::new();
        for i in 0..tokens.len()
            invariant
                v@ == tokens@.take(i as int),
        {
            v.push(tokens[i]);
        }
        assert(tokens@.take(tokens@.len() as int) =~= tokens@);
        if self.last_token != 0 {
            v.push(self.last_token);
        }
        v
    }

    /// The wrong length in words.
    pub fn describe_fault(&self, e: &LengthError) -> (r: String)
        ensures
            r@ == "golden "@ + e.what.name_spec() + ": "@ + dec(e.got as nat) + " elements, expected "@ + dec(
                e.want as nat,
            ) + " (meta says "@ + dec(self.num_hidden_layers as nat) + "x"@ + dec(self.num_key_value_heads as nat)
                + "x"@ + dec(self.seq_len as nat) + "x"@ + dec(self.head_dim as nat) + ")"@,
    {
        let mut s = lit("golden ");
        s.append(e.what.name());
        s.append(": ");
        push_dec(&mut s, e.got);
        s.append(" elements, expected ");
        push_dec(&mut s, e.want);
        s.append(" (meta says ");
        push_dec(&mut s, self.num_hidden_layers);
        s.append("x");
        push_dec(&mut s, self.num_key_value_heads);
        s.append("x");
        push_dec(&mut s, self.seq_len);
        s.append("x");
        push_dec(&mut s, self.head_dim);
        s.append(")");
        s
    }
}

fn check(got: usize, want: usize, what: Recorded) -> (r: Result<(), LengthError>)
    ensures
        r == if got == want {
            Ok::<(), LengthError>(())
        } else {
            Err(LengthError { what, got, want })
        },
{
    if got != want {
        return Err(LengthError { what, got, want });
    }
    Ok(())
}

/// `v` doubled `k` times.
pub open spec fn doubled(v: int, k: nat) -> int
    decreases k,
{
    if k == 0 {
        v
    } else {
        2 * doubled(v, (k - 1) as nat)
    }
}

/// What the bits of a half-width number stand for. Every finite one is a whole
/// number of its smallest units, 2 to the minus 24.
pub enum Half {
    Finite(int),
    Infinite { negative: bool },
    NotANumber,
}

/// The number that the bits stand for.
pub open spec fn half_of(bits: u16) -> Half {
    let m = bits as int % 1024;
    let e = bits as int / 1024 % 32;
    let negative = bits >= 0x8000;
    if e == 31 {
        if m == 0 {
            Half::Infinite { negative }
        } else {
            Half::NotANumber
        }
    } else {
        let size = if e == 0 {
            m
        } else {
            doubled(1024 + m, (e - 1) as nat)
        };
        Half::Finite(
            if negative {
                -size
            } else {
                size
            },
        )
    }
}

/// How far two numbers lie apart, in units of 2 to the minus 24.
#[derive(Clone, Copy, Debug, PartialEq, Eq, Structural)]
pub enum Gap {
    Units(u64),
    Infinite,
}

/// The distance of two whole numbers.
pub open spec fn apart(x: int, y: int) -> int {
    if x < y {
        y - x
    } else {
        x - y
    }
}

/// How far two numbers lie apart. Where one of them is no number, or both are the
/// same infinity, the difference is no number and counts for nothing.
pub open spec fn gap_of(a: u16, b: u16) -> Gap {
    match (half_of(a), half_of(b)) {
        (Half::Finite(x), Half::Finite(y)) => Gap::Units(apart(x, y) as u64),
        (Half::Infinite { negative: p }, Half::Infinite { negative: q }) => if p == q {
            Gap::Units(0)
        } else {
            Gap::Infinite
        },
        (Half::Infinite { .. }, Half::Finite(_)) => Gap::Infinite,
        (Half::Finite(_), Half::Infinite { .. }) => Gap::Infinite,
        _ => Gap::Units(0),
    }
}

impl Gap {
    /// Not above `o`.
    pub open spec fn within(self, o: Gap) -> bool {
        match (self, o) {
            (_, Gap::Infinite) => true,
            (Gap::Infinite, _) => false,
            (Gap::Units(x), Gap::Units(y)) => x <= y,
        }
    }
}

proof fn lemma_doubled(v: int, w: int, k: nat, j: nat)
    requires
        0 <= v <= w,
        k <= j,
    ensures
        0 <= doubled(v, k) <= doubled(w, j),
    decreases j,
{
    if j > 0 {
        if k == j {
            lemma_doubled(v, w, (k - 1) as nat, (j - 1) as nat);
        } else {
            lemma_doubled(v, w, k, (j - 1) as nat);
        }
    }
}

proof fn lemma_size(v: int, k: nat)
    requires
        0 <= v < 2048,
        k <= 29,
    ensures
        0 <= doubled(v, k) < 0x100_0000_0000,
{
    lemma_doubled(v, 2047, k, 29);
    assert(doubled(2047, 29) < 0x100_0000_0000) by {
        reveal_with_fuel(doubled, 30);
    }
}

/// A finite number lies within 2 to the 40 units of nought.
proof fn lemma_half(bits: u16)
    ensures
        half_of(bits) matches Half::Finite(x) ==> -0x100_0000_0000 < x < 0x100_0000_0000,
{
    let m = bits as int % 1024;
    let e = bits as int / 1024 % 32;
    if 0 < e && e < 31 {
        lemma_size(1024 + m, (e - 1) as nat);
    }
}

/// The units of a finite number, without the sign.
fn units(bits: u16) -> (r: u64)
    requires
        bits as int / 1024 % 32 != 31,
    ensures
        r < 0x100_0000_0000,
        half_of(bits) == Half::Finite(
            if bits >= 0x8000 {
                -(r as int)
            } else {
                r as int
            },
        ),
{
    let m: u64 = (bits % 1024) as u64;
    let e: u64 = (bits / 1024 % 32) as u64;
    if e == 0 {
        return m;
    }
    let mut v: u64 = 1024 + m;
    let mut k: u64 = 1;
    while k < e
        invariant
            1 <= k <= e < 31,
            m < 1024,
            v == doubled(1024 + m, (k - 1) as nat),
            v < 0x100_0000_0000,
        decreases e - k,
    {
        proof {
            lemma_size(1024 + m, k as nat);
        }
        v = v * 2;
        k = k + 1;
    }
    v
}

/// How far two numbers lie apart.
pub fn gap(a: u16, b: u16) -> (r: Gap)
    ensures
        r == gap_of(a, b),
{
    let x_wide = a / 1024 % 32 == 31;
    let y_wide = b / 1024 % 32 == 31;
    let nan = x_wide && a % 1024 != 0 || y_wide && b % 1024 != 0;
    let same_sign = (a >= 0x8000) == (b >= 0x8000);
    if nan || x_wide && y_wide && same_sign {
        return Gap::Units(0);
    }
    if x_wide || y_wide {
        return Gap::Infinite;
    }
    let x: u64 = units(a);
    let y: u64 = units(b);
    if !same_sign {
        Gap::Units(x + y)
    } else if x < y {
        Gap::Units(y - x)
    } else {
        Gap::Units(x - y)
    }
}

fn wider(a: Gap, b: Gap) -> (r: Gap)
    ensures
        r == if a.within(b) {
            b
        } else {
            a
        },
{
    match a {
        Gap::Infinite => a,
        Gap::Units(x) => match b {
            Gap::Infinite => b,
            Gap::Units(y) => if x <= y {
                b
            } else {
                a
            },
        },
    }
}

/// How two tensors of half-width numbers compare.
#[derive(Clone, Copy, Debug, PartialEq, Eq, Structural)]
pub struct Diff {
    /// The widest gap.
    pub max_abs: Gap,
    /// Positions with the same bits.
    pub n_exact: usize,
    pub n: usize,
    /// The first position whose bits differ.
    pub first_bad: Option<usize>,
}

/// Equal positions among the first `n`.
pub open spec fn equal_upto(a: Seq<u16>, b: Seq<u16>, n: nat) -> nat
    decreases n,
{
    if n == 0 {
        0
    } else {
        equal_upto(a, b, (n - 1) as nat) + if a[n - 1] == b[n - 1] {
            1nat
        } else {
            0nat
        }
    }
}

/// `g` is the widest gap of the first `n` positions, and nought of none.
pub open spec fn widest(a: Seq<u16>, b: Seq<u16>, n: int, g: Gap) -> bool {
    &&& forall|i: int| 0 <= i < n ==> (#[trigger] gap_of(a[i], b[i])).within(g)
    &&& if n == 0 {
        g == Gap::Units(0)
    } else {
        exists|i: int| 0 <= i < n && #[trigger] gap_of(a[i], b[i]) == g
    }
}

/// The comparison of the common length of two tensors.
pub open spec fn compares(a: Seq<u16>, b: Seq<u16>, d: Diff) -> bool {
    &&& d.n == (if a.len() < b.len() {
        a.len()
    } else {
        b.len()
    })
    &&& d.n_exact == equal_upto(a, b, d.n as nat)
    &&& widest(a, b, d.n as int, d.max_abs)
    &&& match d.first_bad {
        Some(i) => i < d.n && a[i as int] != b[i as int] && forall|k: int| 0 <= k < i ==> a[k] == b[k],
        None => forall|k: int| 0 <= k < d.n ==> a[k] == b[k],
    }
}

/// Compares the common length of two tensors.
pub fn diff_f16(a: &[u16], b: &[u16]) -> (r: Diff)
    ensures
        compares(a@, b@, r),
{
    let n: usize = if a.len() < b.len() {
        a.len()
    } else {
        b.len()
    };
    let mut exact: usize = 0;
    let mut first: Option<usize> = None;
    let mut max = Gap::Units(0);
    for i in 0..n
        invariant
            n <= a@.len(),
            n <= b@.len(),
            exact <= i,
            exact == equal_upto(a@, b@, i as nat),
            widest(a@, b@, i as int, max),
            match first {
                Some(j) => j < i && a@[j as int] != b@[j as int] && forall|k: int| 0 <= k < j ==> a@[k] == b@[k],
                None => forall|k: int| 0 <= k < i ==> a@[k] == b@[k],
            },
    {
        let g = gap(a[i], b[i]);
        let next = wider(max, g);
        proof {
            assert(gap_of(a@[i as int], b@[i as int]) == g);
            if next != g {
                let at = choose|k: int| 0 <= k < i && #[trigger] gap_of(a@[k], b@[k]) == max;
                assert(gap_of(a@[at], b@[at]) == next);
            }
        }
        max = next;
        if a[i] == b[i] {
            exact = exact + 1;
        } else if first.is_none() {
            first = Some(i);
        }
    }
    Diff { max_abs: max, n_exact: exact, n, first_bad: first }
}

impl Diff {
    /// Whether the tensors agree everywhere.
    pub fn exact(&self) -> (r: bool)
        ensures
            r == (self.n_exact == self.n),
    {
        self.n_exact == self.n
    }
}

/// A gap has no direction.
proof fn lemma_gap_symmetric(a: u16, b: u16)
    ensures
        gap_of(a, b) == gap_of(b, a),
{
}

proof fn lemma_equal_symmetric(a: Seq<u16>, b: Seq<u16>, n: nat)
    ensures
        equal_upto(a, b, n) == equal_upto(b, a, n),
    decreases n,
{
    if n > 0 {
        lemma_equal_symmetric(a, b, (n - 1) as nat);
    }
}

/// A comparison has no direction: the length, the equal positions, the widest gap
/// and the first difference are the same both ways.
pub proof fn law_diff_symmetric(a: Seq<u16>, b: Seq<u16>, d: Diff, e: Diff)
    requires
        compares(a, b, d),
        compares(b, a, e),
    ensures
        d == e,
{
    lemma_equal_symmetric(a, b, d.n as nat);
    assert forall|i: int| 0 <= i < d.n implies gap_of(a[i], b[i]) == gap_of(b[i], a[i]) by {
        lemma_gap_symmetric(a[i], b[i]);
    }
    if d.n > 0 {
        let i = choose|i: int| 0 <= i < d.n && #[trigger] gap_of(a[i], b[i]) == d.max_abs;
        let j = choose|i: int| 0 <= i < d.n && #[trigger] gap_of(b[i], a[i]) == e.max_abs;
        assert(gap_of(b[i], a[i]).within(e.max_abs));
        assert(gap_of(a[j], b[j]).within(d.max_abs));
    }
}

/// On finite numbers the widest gap is the largest distance, and some position has
/// it.
pub proof fn law_finite_max_abs(a: Seq<u16>, b: Seq<u16>, d: Diff)
    requires
        compares(a, b, d),
        forall|i: int| 0 <= i < d.n ==> (#[trigger] half_of(a[i])) is Finite && half_of(b[i]) is Finite,
    ensures
        d.max_abs is Units,
        forall|i: int|
            0 <= i < d.n ==> apart(#[trigger] half_of(a[i])->Finite_0, half_of(b[i])->Finite_0) <= d.max_abs->Units_0,
        if d.n == 0 {
            d.max_abs->Units_0 == 0
        } else {
            exists|i: int|
                0 <= i < d.n && apart(#[trigger] half_of(a[i])->Finite_0, half_of(b[i])->Finite_0) == d.max_abs->Units_0
        },
{
    assert forall|i: int| 0 <= i < d.n implies gap_of(a[i], b[i]) == Gap::Units(
        apart(#[trigger] half_of(a[i])->Finite_0, half_of(b[i])->Finite_0) as u64,
    ) && 0 <= apart(half_of(a[i])->Finite_0, half_of(b[i])->Finite_0) <= u64::MAX by {
        lemma_half(a[i]);
        lemma_half(b[i]);
    }
    if d.n > 0 {
        let i = choose|i: int| 0 <= i < d.n && #[trigger] gap_of(a[i], b[i]) == d.max_abs;
        assert(half_of(a[i]) is Finite);
    }
}

/// Tensors agree everywhere exactly where no position differs.
pub proof fn law_exact_means_equal(a: Seq<u16>, b: Seq<u16>, n: nat)
    ensures
        equal_upto(a, b, n) <= n,
        equal_upto(a, b, n) == n <==> forall|k: int| 0 <= k < n ==> a[k] == b[k],
    decreases n,
{
    if n > 0 {
        law_exact_means_equal(a, b, (n - 1) as nat);
    }
}

/// A comparison is exact exactly where it names no first difference.
pub proof fn law_exact_names_none(a: Seq<u16>, b: Seq<u16>, d: Diff)
    requires
        compares(a, b, d),
    ensures
        d.n_exact <= d.n,
        d.n_exact == d.n <==> d.first_bad is None,
{
    law_exact_means_equal(a, b, d.n as nat);
}

} // verus!
