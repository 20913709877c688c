//! The kernel benches' host side: matrix shapes padded to a kernel's tile, kernel
//! sources filled in from a template, and which variants are worth a run.

use vstd::prelude::*;
use crate::manifest::{pieces, split};
use crate::wgsl_gemm::{rows_fit, shape_ok};
use crate::text::{chars_of, dec, number, parse_usize, parse_value, push_dec, str_eq, string_of};

verus! {

/// One variant of the tiled matrix kernel: its per-thread tile, its workgroup,
/// whether it double-buffers, how far it unrolls, and its shared-memory layout.
#[derive(Clone, Copy, Debug, PartialEq, Eq, Structural)]
pub struct Variant {
    pub tm: usize,
    pub tn: usize,
    pub wgx: usize,
    pub wgy: usize,
    pub double: bool,
    pub unroll: usize,
    pub permuted: bool,
    pub chunked: bool,
}

/// Whether the counts of a walk over `rows` tile rows fit.
fn rows_last(rows: usize, nthr: usize, chunked: bool) -> (r: bool)
    ensures
        r == rows_fit(rows as nat, nthr as nat, chunked),
{
    nthr > 0 && rows <= usize::MAX / 17 && (chunked || rows * 16 / nthr <= usize::MAX / 16)
}

/// The column title of a variant.
pub open spec fn title_text(v: Variant) -> Seq<char> {
    let tile = dec(v.tm as nat) + "x"@ + dec(v.tn as nat) + "/"@ + dec(v.wgx as nat) + "x"@ + dec(v.wgy as nat);
    let d = if v.double { "D"@ } else { Seq::empty() };
    let u = if v.unroll > 0 { "U"@ + dec(v.unroll as nat) } else { Seq::empty() };
    let p = if v.permuted { "P"@ } else { Seq::empty() };
    let c = if v.chunked { "V"@ } else { Seq::empty() };
    tile + d + u + p + c
}

/// The smallest multiple of `tile` that is not below `n`.
pub open spec fn padded(n: int, tile: int) -> int {
    (n + tile - 1) / tile * tile
}

/// Padding covers what was there, in whole tiles, and adds less than one tile.
pub proof fn law_padded(n: int, tile: int)
    requires
        n >= 0,
        tile > 0,
    ensures
        padded(n, tile) >= n,
        padded(n, tile) < n + tile,
        padded(n, tile) % tile == 0,
        n % tile == 0 ==> padded(n, tile) == n,
{
    let q = (n + tile - 1) / tile;
    assert(q * tile <= n + tile - 1 < q * tile + tile) by (nonlinear_arith)
        requires
            q == (n + tile - 1) / tile,
            tile > 0,
    ;
    assert((q * tile) % tile == 0) by (nonlinear_arith)
        requires
            tile > 0,
    ;
    if n % tile == 0 {
        let p = n / tile;
        assert(n == p * tile) by (nonlinear_arith)
            requires
                n % tile == 0,
                p == n / tile,
                tile > 0,
        ;
        assert(q == p) by (nonlinear_arith)
            requires
                q * tile <= p * tile + tile - 1 < q * tile + tile,
                tile > 0,
        ;
    }
}

/// A matrix product set up for a variant.
#[derive(Clone, Copy, Debug)]
pub struct Setup {
    /// The padded sizes.
    pub m: usize,
    pub n: usize,
    pub k: usize,
    /// Words of each operand; two values to a word.
    pub a_words: usize,
    pub w_words: usize,
    pub c_words: usize,
    pub grid: (u32, u32),
}

impl Variant {
    /// The rows of the tile that a workgroup computes.
    pub open spec fn bm(self) -> int {
        self.wgy * self.tm
    }

    /// The columns of the tile that a workgroup computes.
    pub open spec fn bn(self) -> int {
        self.wgx * self.tn
    }

    /// The setup of an `m` by `k` by `n` product.
    pub open spec fn setup_of(self, m: int, n: int, k: int) -> (int, int, int, int, int, int, int, int) {
        let mp = padded(m, self.bm());
        let np = padded(n, self.bn());
        (mp, np, k, mp * (k / 2), np * (k / 2), mp * np / 2, np / self.bn(), mp / self.bm())
    }

    /// Whether a kernel of this shape can be generated.
    pub fn buildable(&self) -> (r: bool)
        ensures
            r == shape_ok(self.tm as nat, self.tn as nat, self.wgx as nat, self.wgy as nat, self.permuted, self.chunked),
    {
        match (self.wgx.checked_mul(self.wgy), self.wgy.checked_mul(self.tm), self.wgx.checked_mul(self.tn)) {
            (Some(nthr), Some(bm), Some(bn)) => {
                if !rows_last(bm, nthr, self.chunked) || !rows_last(bn, nthr, self.chunked) || bm < 4 || bn < 4 {
                    return false;
                }
                let even: bool = bm * 16 % nthr == 0 && bn * 16 % nthr == 0;
                let grouped: bool = nthr % (bm / 4) == 0 && nthr % (bn / 4) == 0;
                let chunks: bool = if !self.chunked {
                    true
                } else if nthr > usize::MAX / 4 {
                    proof {
                        vstd::arithmetic::div_mod::lemma_small_mod((bm * 16) as nat, (4 * nthr) as nat);
                    }
                    false
                } else {
                    self.permuted && self.tn == 8 && bm * 16 % (4 * nthr) == 0 && bn * 16 % (4 * nthr) == 0
                };
                even && grouped && chunks
            },
            _ => false,
        }
    }

    /// Writes the column title.
    pub fn title(&self) -> (r: String)
        ensures
            r@ == title_text(*self),
    {
        let mut r = number(self.tm);
        r.append("x");
        push_dec(&mut r, self.tn);
        r.append("/");
        push_dec(&mut r, self.wgx);
        r.append("x");
        push_dec(&mut r, self.wgy);
        let ghost tile = r@;
        if self.double {
            r.append("D");
        }
        assert(r@ =~= tile + (if self.double { "D"@ } else { Seq::empty() }));
        let ghost one = r@;
        if self.unroll > 0 {
            r.append("U");
            push_dec(&mut r, self.unroll);
        }
        assert(r@ =~= one + (if self.unroll > 0 { "U"@ + dec(self.unroll as nat) } else { Seq::empty() }));
        let ghost two = r@;
        if self.permuted {
            r.append("P");
        }
        assert(r@ =~= two + (if self.permuted { "P"@ } else { Seq::empty() }));
        let ghost three = r@;
        if self.chunked {
            r.append("V");
        }
        assert(r@ =~= three + (if self.chunked { "V"@ } else { Seq::empty() }));
        r
    }

    /// Sets up an `m` by `k` by `n` product.
    pub fn setup(&self, m: usize, n: usize, k: usize) -> (r: Setup)
        requires
            0 < self.bm() <= 0x1_0000,
            0 < self.bn() <= 0x1_0000,
            m <= 0x10_0000,
            n <= 0x10_0000,
            k <= 0x10_0000,
            (m + self.bm()) * (k / 2) <= usize::MAX,
            (n + self.bn()) * (k / 2) <= usize::MAX,
            (m + self.bm()) * (n + self.bn()) <= usize::MAX,
        ensures
            (r.m as int, r.n as int, r.k as int, r.a_words as int, r.w_words as int, r.c_words as int, r.grid.0 as int, r.grid.1 as int)
                == self.setup_of(m as int, n as int, k as int),
    {
        let bm: usize = self.wgy * self.tm;
        let bn: usize = self.wgx * self.tn;
        proof {
            law_padded(m as int, bm as int);
            law_padded(n as int, bn as int);
        }
        let ghost mg = padded(m as int, bm as int);
        let ghost ng = padded(n as int, bn as int);
        let gm: usize = (m + bm - 1) / bm;
        let gn: usize = (n + bn - 1) / bn;
        let mp: usize = gm * bm;
        let np: usize = gn * bn;
        let kk: usize = k / 2;
        assert(mp * kk <= (m + bm) * kk && np * kk <= (n + bn) * kk && mp * np <= (m + bm) * (n + bn)) by (nonlinear_arith)
            requires
                0 <= mp < m + bm,
                0 <= np < n + bn,
                0 <= kk,
        ;
        assert(mp / bm == gm && np / bn == gn) by (nonlinear_arith)
            requires
                mp == gm * bm,
                np == gn * bn,
                bm > 0,
                bn > 0,
        ;
        assert(gm <= mp && gn <= np) by (nonlinear_arith)
            requires
                mp == gm * bm,
                np == gn * bn,
                bm > 0,
                bn > 0,
                gm >= 0,
                gn >= 0,
        ;
        Setup {
            m: mp,
            n: np,
            k,
            a_words: mp * kk,
            w_words: np * kk,
            c_words: mp * np / 2,
            grid: (gn as u32, gm as u32),
        }
    }
}

impl Setup {
    /// The kernel's uniform.
    pub fn words(&self) -> (r: Vec<u32>)
        requires
            self.m <= u32::MAX,
            self.n <= u32::MAX,
            self.k <= u32::MAX,
        ensures
            r@ == seq![self.m as u32, self.n as u32, self.k as u32, 0u32],
    {
        vec![self.m as u32, self.n as u32, self.k as u32, 0u32]
    }

    /// The corner of the product that is compared with the host's own: at most
    /// 256 rows and columns.
    pub fn corner(&self) -> (r: (usize, usize))
        ensures
            r.0 == if self.m < 256 { self.m } else { 256 },
            r.1 == if self.n < 256 { self.n } else { 256 },
    {
        (if self.m < 256 { self.m } else { 256 }, if self.n < 256 { self.n } else { 256 })
    }
}

/// The variants that the bench compares.
pub fn variants() -> (r: Vec<Variant>)
    ensures
        r@.len() == 7,
        r@[0] == (Variant { tm: 8, tn: 8, wgx: 16, wgy: 16, double: true, unroll: 0, permuted: true, chunked: false }),
        r@[1] == (Variant { tm: 8, tn: 8, wgx: 16, wgy: 16, double: true, unroll: 4, permuted: true, chunked: false }),
        r@[2] == (Variant { tm: 8, tn: 8, wgx: 16, wgy: 16, double: true, unroll: 4, permuted: true, chunked: true }),
        r@[3] == (Variant { tm: 16, tn: 8, wgx: 16, wgy: 8, double: false, unroll: 4, permuted: true, chunked: true }),
        r@[4] == (Variant { tm: 16, tn: 8, wgx: 16, wgy: 8, double: true, unroll: 4, permuted: true, chunked: true }),
        r@[5] == (Variant { tm: 8, tn: 8, wgx: 16, wgy: 8, double: true, unroll: 4, permuted: true, chunked: true }),
        r@[6] == (Variant { tm: 16, tn: 8, wgx: 16, wgy: 8, double: true, unroll: 0, permuted: true, chunked: true }),
{
    let mut r: Vec<Variant> = Vec::new();
    r.push(Variant { tm: 8, tn: 8, wgx: 16, wgy: 16, double: true, unroll: 0, permuted: true, chunked: false });
    r.push(Variant { tm: 8, tn: 8, wgx: 16, wgy: 16, double: true, unroll: 4, permuted: true, chunked: false });
    r.push(Variant { tm: 8, tn: 8, wgx: 16, wgy: 16, double: true, unroll: 4, permuted: true, chunked: true });
    r.push(Variant { tm: 16, tn: 8, wgx: 16, wgy: 8, double: false, unroll: 4, permuted: true, chunked: true });
    r.push(Variant { tm: 16, tn: 8, wgx: 16, wgy: 8, double: true, unroll: 4, permuted: true, chunked: true });
    r.push(Variant { tm: 8, tn: 8, wgx: 16, wgy: 8, double: true, unroll: 4, permuted: true, chunked: true });
    r.push(Variant { tm: 16, tn: 8, wgx: 16, wgy: 8, double: true, unroll: 0, permuted: true, chunked: true });
    r
}

/// The variant that a request to print a source names, where its first three
/// parts are numbers: tile, unrolling and the two layout flags, on a doubled
/// 16 by 16 workgroup.
pub open spec fn dump_of(s: Seq<char>) -> Option<Variant> {
    let p = pieces(s, ',');
    let max = usize::MAX as nat;
    match (parse_value(p[0], max), parse_value(p[1], max), parse_value(p[2], max)) {
        (Some(tm), Some(tn), Some(uq)) => Some(
            Variant {
                tm: tm as usize,
                tn: tn as usize,
                wgx: 16,
                wgy: 16,
                double: true,
                unroll: uq as usize,
                permuted: p[3] == "1"@,
                chunked: p[4] == "1"@,
            },
        ),
        _ => None,
    }
}

/// Reads such a request.
pub fn dump_variant(s: &str) -> (r: Option<Variant>)
    requires
        pieces(s@, ',').len() >= 5,
    ensures
        r == dump_of(s@),
{
    let c = chars_of(s);
    let p = split(c.as_slice(), ',');
    let tm = parse_usize(string_of(p[0].as_slice()).as_str());
    let tn = parse_usize(string_of(p[1].as_slice()).as_str());
    let uq = parse_usize(string_of(p[2].as_slice()).as_str());
    match (tm, tn, uq) {
        (Some(tm), Some(tn), Some(unroll)) => Some(
            Variant {
                tm,
                tn,
                wgx: 16,
                wgy: 16,
                double: true,
                unroll,
                permuted: str_eq(string_of(p[3].as_slice()).as_str(), "1"),
                chunked: str_eq(string_of(p[4].as_slice()).as_str(), "1"),
            },
        ),
        _ => None,
    }
}

/// `s` with every `from` replaced by `to`, from the left, none of them overlapping.
pub open spec fn replaced(s: Seq<char>, from: Seq<char>, to: Seq<char>) -> Seq<char>
    decreases s.len(),
{
    if from.len() == 0 || s.len() < from.len() {
        s
    } else if s.take(from.len() as int) == from {
        to + replaced(s.skip(from.len() as int), from, to)
    } else {
        seq![s[0]] + replaced(s.skip(1), from, to)
    }
}

/// Replaces every `from` by `to`.
pub fn replace(s: &str, from: &str, to: &str) -> (r: String)
    requires
        from@.len() > 0,
    ensures
        r@ == replaced(s@, from@, to@),
{
    let c = chars_of(s);
    let f = chars_of(from);
    let t = chars_of(to);
    let n: usize = c.len();
    let w: usize = f.len();
    let mut out: Vec<char> = Vec::new();
    let mut at: usize = 0;
    assert(s@.skip(0) =~= s@);
    assert(out@ + replaced(s@, from@, to@) =~= replaced(s@, from@, to@));
    while at < n && w <= n - at
        invariant
            c@ == s@,
            f@ == from@,
            t@ == to@,
            n == c@.len(),
            w == f@.len(),
            w > 0,
            at <= n,
            out@ + replaced(s@.skip(at as int), from@, to@) == replaced(s@, from@, to@),
        decreases n - at,
    {
        let ghost rest = s@.skip(at as int);
        let ghost was = out@;
        let mut same: usize = 0;
        while same < w && c[at + same] == f[same]
            invariant
                c@ == s@,
                f@ == from@,
                n == c@.len(),
                w == f@.len(),
                at + w <= n,
                same <= w,
                forall|i: int| 0 <= i < same ==> c@[at + i] == f@[i],
            decreases w - same,
        {
            same = same + 1;
        }
        if same == w {
            assert(rest.take(w as int) =~= from@);
            assert(rest.skip(w as int) =~= s@.skip(at + w));
            let mut tail = t.clone();
            assert(tail@ =~= t@);
            out.append(&mut tail);
            at = at + w;
            assert(was + (to@ + replaced(s@.skip(at as int), from@, to@)) =~= out@ + replaced(s@.skip(at as int), from@, to@));
        } else {
            assert(rest.take(w as int)[same as int] == c@[at + same]);
            assert(rest.skip(1) =~= s@.skip(at + 1));
            out.push(c[at]);
            at = at + 1;
            assert(was + (seq![rest[0]] + replaced(s@.skip(at as int), from@, to@)) =~= out@ + replaced(s@.skip(at as int), from@, to@));
        }
    }
    while at < n
        invariant
            c@ == s@,
            n == c@.len(),
            at <= n,
            out@ + s@.skip(at as int) == replaced(s@, from@, to@),
        decreases n - at,
    {
        let ghost before = out@;
        assert(before + s@.skip(at as int) =~= before.push(s@[at as int]) + s@.skip(at + 1));
        out.push(c[at]);
        at = at + 1;
    }
    assert(out@ + s@.skip(at as int) =~= out@);
    string_of(out.as_slice())
}

/// `n` with the suffix that makes it an unsigned literal.
pub open spec fn literal_text(n: nat) -> Seq<char> {
    dec(n) + "u"@
}

fn literal(n: usize) -> (r: String)
    ensures
        r@ == literal_text(n as nat),
{
    let mut r = number(n);
    r.append("u");
    r
}

/// A matrix-vector kernel's template filled in for `cols` columns: groups of
/// eight values, tiles of 32 groups, and the input's words in two widths.
pub open spec fn gemv_text(template: Seq<char>, cols: nat) -> Seq<char> {
    let a = replaced(template, "{kg}u"@, literal_text(cols / 8));
    let b = replaced(a, "{tiles}u"@, literal_text(cols / 8 / 32));
    let c = replaced(b, "{xw2}u"@, literal_text(cols / 4));
    replaced(c, "{xw}u"@, literal_text(cols / 8))
}

/// Fills in a matrix-vector kernel's template.
pub fn gemv_source(template: &str, cols: usize) -> (r: String)
    ensures
        r@ == gemv_text(template@, cols as nat),
{
    proof {
        reveal_strlit("{kg}u");
        reveal_strlit("{tiles}u");
        reveal_strlit("{xw2}u");
        reveal_strlit("{xw}u");
    }
    let a = replace(template, "{kg}u", literal(cols / 8).as_str());
    let b = replace(a.as_str(), "{tiles}u", literal(cols / 8 / 32).as_str());
    let c = replace(b.as_str(), "{xw2}u", literal(cols / 4).as_str());
    replace(c.as_str(), "{xw}u", literal(cols / 8).as_str())
}

/// Whether the unrolled kernels can run on `cols` columns: four tiles at a time.
pub fn tiles_even(cols: usize) -> (r: bool)
    ensures
        r == ((cols / 8 / 32) % 4 == 0),
{
    (cols / 8 / 32) % 4 == 0
}

/// The merge of a split product: its uniform and its workgroups, a word for two
/// rows and 256 words to a workgroup.
pub fn merge_plan(rows: u32, splits: u32) -> (r: (Vec<u32>, u32))
    ensures
        r.0@ == seq![(rows / 2) as u32, splits],
        r.1 == (rows / 2 + 255) / 256,
{
    let words: u32 = rows / 2;
    (vec![words, splits], (words + 255) / 256)
}

/// Whether an attention variant is run on a scenario: the chunk is shared out
/// evenly between the pinned rows, and the two ablations take one row, a chunk
/// of 256 and a depth of 4 or the prefetching schedule.
pub open spec fn worth_running(chunk: int, pin: int, depth: int, ablation: bool) -> bool {
    chunk % (256 * pin) == 0 && (ablation ==> pin == 1 && chunk == 256 && (depth == 4 || depth == 99))
}

/// Decides that.
pub fn runs(chunk: usize, pin: usize, depth: usize, ablation: bool) -> (r: bool)
    requires
        pin > 0,
        256 * pin <= usize::MAX,
    ensures
        r == worth_running(chunk as int, pin as int, depth as int, ablation),
{
    if chunk % (256 * pin) != 0 {
        return false;
    }
    !ablation || (pin == 1 && chunk == 256 && (depth == 4 || depth == 99))
}

/// The attention bench's uniform: how many positions there are, how many fit, the
/// scale's bit pattern and how many chunks there are.
pub fn attn_words(len: u32, max_seq: u32, scale_bits: u32, chunk: u32) -> (r: Vec<u32>)
    requires
        chunk > 0,
    ensures
        r@ == seq![len, max_seq, scale_bits, (if len % chunk == 0 { len / chunk } else { (len / chunk + 1) as u32 })],
{
    let mut n: u32 = len / chunk;
    if len % chunk != 0 {
        assert(len / chunk < u32::MAX) by (nonlinear_arith)
            requires
                len % chunk != 0,
                chunk > 0,
                len <= u32::MAX,
        ;
        n = n + 1;
    }
    vec![len, max_seq, scale_bits, n]
}

} // verus!
