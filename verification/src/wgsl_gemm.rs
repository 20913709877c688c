//! Generator of the tiled f16 GEMM kernel that the tile-shape benchmark runs.
//!
//! The kernel multiplies `A [m, k]` by `W [n, k]` transposed, both packed two
//! halves to a word. One workgroup of `wgx * wgy` threads owns a tile of
//! `wgy * tm` rows by `wgx * tn` columns and walks `k` in steps of [`BK`].
//! Every generator comes with a `_text` function that states its text.
use vstd::prelude::*;
use vstd::string::*;

use crate::text::{dec, lit, number, push_dec, rep};

verus! {

/// Depth of one `k` step.
pub const BK: usize = 16;

/// Bindings and tile constants.
pub open spec fn consts_text(bm: nat, bn: nat, tm: nat, tn: nat, aq: nat, bq: nat, cstep: nat) -> Seq<char> {
    "struct GDims { m: u32, n: u32, k: u32, _p: u32 };\n@group(0) @binding(0) var<storage, read>       A: array<u32>;\n@group(0) @binding(1) var<storage, read>       W: array<u32>;\n@group(0) @binding(2) var<storage, read_write> C: array<u32>;\n@group(0) @binding(3) var<uniform>             gd: GDims;\nconst BM: u32 = "@
        + dec(bm)
        + "u;\nconst BN: u32 = "@
        + dec(bn)
        + "u;\nconst BK: u32 = 16u;\nconst PAD: u32 = 17u;\nconst TM: u32 = "@
        + dec(tm)
        + "u;\nconst TN: u32 = "@
        + dec(tn)
        + "u;\nconst AQ: u32 = "@
        + dec(aq)
        + "u;\nconst BQ: u32 = "@
        + dec(bq)
        + "u;\nconst CSTEP: u32 = "@
        + dec(cstep)
        + "u;\n"@
}

fn consts(bm: usize, bn: usize, tm: usize, tn: usize, aq: usize, bq: usize, cstep: usize) -> (s: String)
    ensures
        s@ == consts_text(bm as nat, bn as nat, tm as nat, tn as nat, aq as nat, bq as nat, cstep as nat),
{
    let mut s = lit("struct GDims { m: u32, n: u32, k: u32, _p: u32 };\n@group(0) @binding(0) var<storage, read>       A: array<u32>;\n@group(0) @binding(1) var<storage, read>       W: array<u32>;\n@group(0) @binding(2) var<storage, read_write> C: array<u32>;\n@group(0) @binding(3) var<uniform>             gd: GDims;\nconst BM: u32 = ");
    push_dec(&mut s, bm);
    s.append("u;\nconst BN: u32 = ");
    push_dec(&mut s, bn);
    s.append("u;\nconst BK: u32 = 16u;\nconst PAD: u32 = 17u;\nconst TM: u32 = ");
    push_dec(&mut s, tm);
    s.append("u;\nconst TN: u32 = ");
    push_dec(&mut s, tn);
    s.append("u;\nconst AQ: u32 = ");
    push_dec(&mut s, aq);
    s.append("u;\nconst BQ: u32 = ");
    push_dec(&mut s, bq);
    s.append("u;\nconst CSTEP: u32 = ");
    push_dec(&mut s, cstep);
    s.append("u;\n");
    s
}

/// Shared tiles in 16-byte chunks.
pub open spec fn shared_chunks_text(a: nat, b: nat) -> Seq<char> {
    "var<workgroup> A4: array<vec4<f32>, "@
        + dec(a)
        + ">;\nvar<workgroup> B4: array<vec4<f32>, "@
        + dec(b)
        + ">;\n"@
}

fn shared_chunks(a: usize, b: usize) -> (s: String)
    ensures
        s@ == shared_chunks_text(a as nat, b as nat),
{
    let mut s = lit("var<workgroup> A4: array<vec4<f32>, ");
    push_dec(&mut s, a);
    s.append(">;\nvar<workgroup> B4: array<vec4<f32>, ");
    push_dec(&mut s, b);
    s.append(">;\n");
    s
}

/// Shared tiles in scalar words.
pub open spec fn shared_words_text(a: nat, b: nat) -> Seq<char> {
    "var<workgroup> As: array<f32, "@
        + dec(a)
        + ">;\nvar<workgroup> Bs: array<f32, "@
        + dec(b)
        + ">;\n"@
}

fn shared_words(a: usize, b: usize) -> (s: String)
    ensures
        s@ == shared_words_text(a as nat, b as nat),
{
    let mut s = lit("var<workgroup> As: array<f32, ");
    push_dec(&mut s, a);
    s.append(">;\nvar<workgroup> Bs: array<f32, ");
    push_dec(&mut s, b);
    s.append(">;\n");
    s
}

/// Half extraction and the entry point header.
pub open spec fn entry_text(wgx: nat, wgy: nat) -> Seq<char> {
    "fn halve(w: u32, odd: bool) -> f32 {\n  let p = unpack2x16float(w);\n  return select(p.x, p.y, odd);\n}\n@compute @workgroup_size("@
        + dec(wgx)
        + ", "@
        + dec(wgy)
        + ")\nfn gemm(@builtin(workgroup_id) wid: vec3<u32>,\n@builtin(local_invocation_id) lid: vec3<u32>) {\nlet tx = lid.x;\n let ty = lid.y;\nlet m0 = wid.y * BM;\n let n0 = wid.x * BN;\n let kk = gd.k / 2u;\n"@
}

fn entry(wgx: usize, wgy: usize) -> (s: String)
    ensures
        s@ == entry_text(wgx as nat, wgy as nat),
{
    let mut s = lit("fn halve(w: u32, odd: bool) -> f32 {\n  let p = unpack2x16float(w);\n  return select(p.x, p.y, odd);\n}\n@compute @workgroup_size(");
    push_dec(&mut s, wgx);
    s.append(", ");
    push_dec(&mut s, wgy);
    s.append(")\nfn gemm(@builtin(workgroup_id) wid: vec3<u32>,\n@builtin(local_invocation_id) lid: vec3<u32>) {\nlet tx = lid.x;\n let ty = lid.y;\nlet m0 = wid.y * BM;\n let n0 = wid.x * BN;\n let kk = gd.k / 2u;\n");
    s
}

/// One accumulator register.
pub open spec fn acc_decl_text(i: nat, j: nat) -> Seq<char> {
    "var c"@ + dec(i) + dec(j) + " = 0.0;\n"@
}

fn acc_decl(i: usize, j: usize) -> (s: String)
    ensures
        s@ == acc_decl_text(i as nat, j as nat),
{
    let mut s = lit("var c");
    push_dec(&mut s, i);
    push_dec(&mut s, j);
    s.append(" = 0.0;\n");
    s
}

/// The accumulators of row `i`.
pub open spec fn acc_row_item(i: nat) -> spec_fn(nat) -> Seq<char> {
    |j: nat| acc_decl_text(i, j)
}

fn acc_row(i: usize, tn: usize) -> (s: String)
    ensures
        s@ == rep(tn as nat, acc_row_item(i as nat)),
{
    let mut s = String::new();
    for j in 0..tn
        invariant
            s@ == rep(j as nat, acc_row_item(i as nat)),
    {
        s.append(acc_decl(i, j).as_str());
    }
    s
}

/// All accumulators.
pub open spec fn acc_rows_item(tn: nat) -> spec_fn(nat) -> Seq<char> {
    |i: nat| rep(tn, acc_row_item(i))
}

fn acc_rows(tn: usize, tm: usize) -> (s: String)
    ensures
        s@ == rep(tm as nat, acc_rows_item(tn as nat)),
{
    let mut s = String::new();
    for i in 0..tm
        invariant
            s@ == rep(i as nat, acc_rows_item(tn as nat)),
    {
        s.append(acc_row(i, tn).as_str());
    }
    s
}

/// The `k` index register of chunk `i`, `off` past chunk 0's.
pub open spec fn chunk_step_text(k: Seq<char>, i: nat, off: nat) -> Seq<char> {
    " let "@ + k + dec(i) + " = "@ + k + "0 + "@ + dec(off) + "u;\n"@
}

fn chunk_step(k: &str, i: usize, off: usize) -> (s: String)
    ensures
        s@ == chunk_step_text(k@, i as nat, off as nat),
{
    let mut s = lit(" let ");
    s.append(k);
    push_dec(&mut s, i);
    s.append(" = ");
    s.append(k);
    s.append("0 + ");
    push_dec(&mut s, off);
    s.append("u;\n");
    s
}

/// The `k` index registers of chunks 1 to `last`.
pub open spec fn chunk_steps_item(k: Seq<char>, kstep: nat) -> spec_fn(nat) -> Seq<char> {
    |i: nat| chunk_step_text(k, i + 1, (i + 1) * kstep)
}

fn chunk_steps(k: &str, kstep: usize, last: usize) -> (s: String)
    requires
        last * kstep <= usize::MAX,
    ensures
        s@ == rep(last as nat, chunk_steps_item(k@, kstep as nat)),
{
    let mut s = String::new();
    for i in 0..last
        invariant
            s@ == rep(i as nat, chunk_steps_item(k@, kstep as nat)),
            last * kstep <= usize::MAX,
    {
        proof {
            assert((i + 1) * kstep <= last * kstep) by (nonlinear_arith)
                requires
                    i < last,
            ;
        }
        let off: usize = (i + 1) * kstep;
        s.append(chunk_step(k, i + 1, off).as_str());
    }
    s
}

/// The half that chunk `i` takes of its words.
pub open spec fn chunk_parity_text(v: Seq<char>, k: Seq<char>, i: nat) -> Seq<char> {
    " let "@ + v + dec(i) + " = (("@ + k + dec(i) + " & 1u) == 1u);\n"@
}

fn chunk_parity(v: &str, k: &str, i: usize) -> (s: String)
    ensures
        s@ == chunk_parity_text(v@, k@, i as nat),
{
    let mut s = lit(" let ");
    s.append(v);
    push_dec(&mut s, i);
    s.append(" = ((");
    s.append(k);
    push_dec(&mut s, i);
    s.append(" & 1u) == 1u);\n");
    s
}

/// The half selectors of all chunks.
pub open spec fn chunk_parities_item(v: Seq<char>, k: Seq<char>) -> spec_fn(nat) -> Seq<char> {
    |i: nat| chunk_parity_text(v, k, i)
}

fn chunk_parities(v: &str, k: &str, n: usize) -> (s: String)
    ensures
        s@ == rep(n as nat, chunk_parities_item(v@, k@)),
{
    let mut s = String::new();
    for i in 0..n
        invariant
            s@ == rep(i as nat, chunk_parities_item(v@, k@)),
    {
        s.append(chunk_parity(v, k, i).as_str());
    }
    s
}

/// Where the A chunks of a thread begin.
pub open spec fn chunk_origin_text(wgx: nat, aq: nat) -> Seq<char> {
    " let c0 = ty * "@
        + dec(wgx)
        + "u + tx;\n let crg = c0 % "@
        + dec(aq)
        + "u;\n let ck0 = c0 / "@
        + dec(aq)
        + "u;\n"@
}

fn chunk_origin(wgx: usize, aq: usize) -> (s: String)
    ensures
        s@ == chunk_origin_text(wgx as nat, aq as nat),
{
    let mut s = lit(" let c0 = ty * ");
    push_dec(&mut s, wgx);
    s.append("u + tx;\n let crg = c0 % ");
    push_dec(&mut s, aq);
    s.append("u;\n let ck0 = c0 / ");
    push_dec(&mut s, aq);
    s.append("u;\n");
    s
}

/// Where the B chunks of a thread begin, with the row group behind the bank permutation.
pub open spec fn chunk_origin_b_text(bq: nat) -> Seq<char> {
    "  let bop = c0 % "@
        + dec(bq)
        + "u;\n  let bk0 = c0 / "@
        + dec(bq)
        + "u;\n  let bog = ((bop >> 4u) << 3u) | (bop & 7u);\n  let bos = (bop >> 3u) & 1u;\n"@
}

fn chunk_origin_b(bq: usize) -> (s: String)
    ensures
        s@ == chunk_origin_b_text(bq as nat),
{
    let mut s = lit("  let bop = c0 % ");
    push_dec(&mut s, bq);
    s.append("u;\n  let bk0 = c0 / ");
    push_dec(&mut s, bq);
    s.append("u;\n  let bog = ((bop >> 4u) << 3u) | (bop & 7u);\n  let bos = (bop >> 3u) & 1u;\n");
    s
}

/// The offset of chunk `i` behind the first chunk of a thread.
pub open spec fn chunk_at_text(i: nat, cstep: nat) -> Seq<char> {
    if i == 0 {
        Seq::empty()
    } else {
        " + "@ + dec(i * cstep) + "u"@
    }
}

fn chunk_at(i: usize, cstep: usize) -> (s: String)
    requires
        i * cstep <= usize::MAX,
    ensures
        s@ == chunk_at_text(i as nat, cstep as nat),
{
    if i == 0 {
        String::new()
    } else {
        let mut s = lit(" + ");
        push_dec(&mut s, i * cstep);
        s.append("u");
        s
    }
}

/// The global word of row `e` of chunk `i`, at step `kx`.
pub open spec fn chunk_word_text(row: Seq<char>, e: nat, kx: Seq<char>, k: Seq<char>, i: nat) -> Seq<char> {
    row + dec(e) + "u) * kk + ("@ + kx + " + "@ + k + dec(i) + ") / 2u]"@
}

fn chunk_word(row: &str, e: usize, kx: &str, k: &str, i: usize) -> (s: String)
    ensures
        s@ == chunk_word_text(row@, e as nat, kx@, k@, i as nat),
{
    let mut s = lit(row);
    push_dec(&mut s, e);
    s.append("u) * kk + (");
    s.append(kx);
    s.append(" + ");
    s.append(k);
    push_dec(&mut s, i);
    s.append(") / 2u]");
    s
}

/// One component of a chunk, read from global memory.
pub open spec fn chunk_comp_text(row: Seq<char>, e: nat, kx: Seq<char>, k: Seq<char>, v: Seq<char>, i: nat) -> Seq<char> {
    "  halve("@ + chunk_word_text(row, e, kx, k, i) + ", "@ + v + dec(i) + "),"@
}

fn chunk_comp(row: &str, e: usize, kx: &str, k: &str, v: &str, i: usize) -> (s: String)
    ensures
        s@ == chunk_comp_text(row@, e as nat, kx@, k@, v@, i as nat),
{
    let mut s = lit("  halve(");
    s.append(chunk_word(row, e, kx, k, i).as_str());
    s.append(", ");
    s.append(v);
    push_dec(&mut s, i);
    s.append("),");
    s
}

/// The components of chunk `i`.
pub open spec fn chunk_comps_item(row: Seq<char>, kx: Seq<char>, k: Seq<char>, v: Seq<char>, i: nat) -> spec_fn(nat) -> Seq<char> {
    |e: nat| chunk_comp_text(row, e, kx, k, v, i)
}

fn chunk_comps(row: &str, kx: &str, k: &str, v: &str, i: usize, n: usize) -> (s: String)
    ensures
        s@ == rep(n as nat, chunk_comps_item(row@, kx@, k@, v@, i as nat)),
{
    let mut s = String::new();
    for e in 0..n
        invariant
            s@ == rep(e as nat, chunk_comps_item(row@, kx@, k@, v@, i as nat)),
    {
        s.append(chunk_comp(row, e, kx, k, v, i).as_str());
    }
    s
}

/// Loads chunk `i` from global into shared memory.
pub open spec fn chunk_load_text(
    tile: Seq<char>,
    row: Seq<char>,
    kx: Seq<char>,
    k: Seq<char>,
    v: Seq<char>,
    i: nat,
    cstep: nat,
) -> Seq<char> {
    "  "@ + tile + "[c0"@ + chunk_at_text(i, cstep) + "] = vec4<f32>("@ + rep(
        4,
        chunk_comps_item(row, kx, k, v, i),
    ) + ");\n"@
}

fn chunk_load(tile: &str, row: &str, kx: &str, k: &str, v: &str, i: usize, cstep: usize) -> (s: String)
    requires
        i * cstep <= usize::MAX,
    ensures
        s@ == chunk_load_text(tile@, row@, kx@, k@, v@, i as nat, cstep as nat),
{
    let mut s = lit("  ");
    s.append(tile);
    s.append("[c0");
    s.append(chunk_at(i, cstep).as_str());
    s.append("] = vec4<f32>(");
    s.append(chunk_comps(row, kx, k, v, i, 4).as_str());
    s.append(");\n");
    s
}

/// Loads every chunk of a thread.
pub open spec fn chunk_loads_item(tile: Seq<char>, row: Seq<char>, kx: Seq<char>, k: Seq<char>, v: Seq<char>, cstep: nat) -> spec_fn(nat) -> Seq<char> {
    |i: nat| chunk_load_text(tile, row, kx, k, v, i, cstep)
}

fn chunk_loads(tile: &str, row: &str, kx: &str, k: &str, v: &str, cstep: usize, n: usize) -> (s: String)
    requires
        n * cstep <= usize::MAX,
    ensures
        s@ == rep(n as nat, chunk_loads_item(tile@, row@, kx@, k@, v@, cstep as nat)),
{
    let mut s = String::new();
    for i in 0..n
        invariant
            s@ == rep(i as nat, chunk_loads_item(tile@, row@, kx@, k@, v@, cstep as nat)),
            n * cstep <= usize::MAX,
    {
        proof {
            assert(i * cstep <= n * cstep) by (nonlinear_arith)
                requires
                    i < n,
            ;
        }
        s.append(chunk_load(tile, row, kx, k, v, i, cstep).as_str());
    }
    s
}

/// Prefetches the word of row `e` of chunk `i` into register `reg`.
pub open spec fn chunk_fetch_text(pf: Seq<char>, reg: nat, row: Seq<char>, e: nat, kx: Seq<char>, k: Seq<char>, i: nat) -> Seq<char> {
    "   "@ + pf + dec(reg) + " = "@ + chunk_word_text(row, e, kx, k, i) + ";\n"@
}

fn chunk_fetch(pf: &str, reg: usize, row: &str, e: usize, kx: &str, k: &str, i: usize) -> (s: String)
    ensures
        s@ == chunk_fetch_text(pf@, reg as nat, row@, e as nat, kx@, k@, i as nat),
{
    let mut s = lit("   ");
    s.append(pf);
    push_dec(&mut s, reg);
    s.append(" = ");
    s.append(chunk_word(row, e, kx, k, i).as_str());
    s.append(";\n");
    s
}

/// Prefetches chunk `i`.
pub open spec fn chunk_fetch_rows_item(pf: Seq<char>, row: Seq<char>, kx: Seq<char>, k: Seq<char>, i: nat) -> spec_fn(nat) -> Seq<char> {
    |e: nat| chunk_fetch_text(pf, i * 4 + e, row, e, kx, k, i)
}

fn chunk_fetch_rows(pf: &str, row: &str, kx: &str, k: &str, i: usize, four: usize) -> (s: String)
    requires
        i * 4 + four <= usize::MAX,
    ensures
        s@ == rep(four as nat, chunk_fetch_rows_item(pf@, row@, kx@, k@, i as nat)),
{
    let mut s = String::new();
    for e in 0..four
        invariant
            s@ == rep(e as nat, chunk_fetch_rows_item(pf@, row@, kx@, k@, i as nat)),
            i * 4 + four <= usize::MAX,
    {
        let reg: usize = i * 4 + e;
        s.append(chunk_fetch(pf, reg, row, e, kx, k, i).as_str());
    }
    s
}

/// Prefetches every chunk of a thread.
pub open spec fn chunk_fetches_item(pf: Seq<char>, row: Seq<char>, kx: Seq<char>, k: Seq<char>) -> spec_fn(nat) -> Seq<char> {
    |i: nat| rep(4, chunk_fetch_rows_item(pf, row, kx, k, i))
}

fn chunk_fetches(pf: &str, row: &str, kx: &str, k: &str, n: usize) -> (s: String)
    requires
        n * 4 <= usize::MAX,
    ensures
        s@ == rep(n as nat, chunk_fetches_item(pf@, row@, kx@, k@)),
{
    let mut s = String::new();
    for i in 0..n
        invariant
            s@ == rep(i as nat, chunk_fetches_item(pf@, row@, kx@, k@)),
            n * 4 <= usize::MAX,
    {
        s.append(chunk_fetch_rows(pf, row, kx, k, i, 4).as_str());
    }
    s
}

/// One component of a chunk, taken from a prefetch register.
pub open spec fn chunk_unpack_text(pf: Seq<char>, reg: nat, v: Seq<char>, i: nat) -> Seq<char> {
    "  halve("@ + pf + dec(reg) + ", "@ + v + dec(i) + "),"@
}

fn chunk_unpack(pf: &str, reg: usize, v: &str, i: usize) -> (s: String)
    ensures
        s@ == chunk_unpack_text(pf@, reg as nat, v@, i as nat),
{
    let mut s = lit("  halve(");
    s.append(pf);
    push_dec(&mut s, reg);
    s.append(", ");
    s.append(v);
    push_dec(&mut s, i);
    s.append("),");
    s
}

/// The components of prefetched chunk `i`.
pub open spec fn chunk_unpacks_item(pf: Seq<char>, v: Seq<char>, i: nat) -> spec_fn(nat) -> Seq<char> {
    |e: nat| chunk_unpack_text(pf, i * 4 + e, v, i)
}

fn chunk_unpacks(pf: &str, v: &str, i: usize, four: usize) -> (s: String)
    requires
        i * 4 + four <= usize::MAX,
    ensures
        s@ == rep(four as nat, chunk_unpacks_item(pf@, v@, i as nat)),
{
    let mut s = String::new();
    for e in 0..four
        invariant
            s@ == rep(e as nat, chunk_unpacks_item(pf@, v@, i as nat)),
            i * 4 + four <= usize::MAX,
    {
        let reg: usize = i * 4 + e;
        s.append(chunk_unpack(pf, reg, v, i).as_str());
    }
    s
}

/// Stores prefetched chunk `i` into shared memory.
pub open spec fn chunk_store_text(tile: Seq<char>, pf: Seq<char>, v: Seq<char>, i: nat, cstep: nat) -> Seq<char> {
    "   "@ + tile + "[c0"@ + chunk_at_text(i, cstep) + "] = vec4<f32>("@ + rep(4, chunk_unpacks_item(pf, v, i))
        + ");\n"@
}

fn chunk_store(tile: &str, pf: &str, v: &str, i: usize, cstep: usize) -> (s: String)
    requires
        i * cstep <= usize::MAX,
        i * 4 + 4 <= usize::MAX,
    ensures
        s@ == chunk_store_text(tile@, pf@, v@, i as nat, cstep as nat),
{
    let mut s = lit("   ");
    s.append(tile);
    s.append("[c0");
    s.append(chunk_at(i, cstep).as_str());
    s.append("] = vec4<f32>(");
    s.append(chunk_unpacks(pf, v, i, 4).as_str());
    s.append(");\n");
    s
}

/// Stores every prefetched chunk of a thread.
pub open spec fn chunk_stores_item(tile: Seq<char>, pf: Seq<char>, v: Seq<char>, cstep: nat) -> spec_fn(nat) -> Seq<char> {
    |i: nat| chunk_store_text(tile, pf, v, i, cstep)
}

fn chunk_stores(tile: &str, pf: &str, v: &str, cstep: usize, n: usize) -> (s: String)
    requires
        n * cstep <= usize::MAX,
        n * 4 <= usize::MAX,
    ensures
        s@ == rep(n as nat, chunk_stores_item(tile@, pf@, v@, cstep as nat)),
{
    let mut s = String::new();
    for i in 0..n
        invariant
            s@ == rep(i as nat, chunk_stores_item(tile@, pf@, v@, cstep as nat)),
            n * cstep <= usize::MAX,
            n * 4 <= usize::MAX,
    {
        proof {
            assert(i * cstep <= n * cstep) by (nonlinear_arith)
                requires
                    i < n,
            ;
        }
        s.append(chunk_store(tile, pf, v, i, cstep).as_str());
    }
    s
}

/// The tile row of a thread, `off` rows down.
pub open spec fn word_slot_text(off: nat) -> Seq<char> {
    "(ty + "@ + dec(off) + "u)"@
}

fn word_slot(off: usize) -> (s: String)
    ensures
        s@ == word_slot_text(off as nat),
{
    let mut s = lit("(ty + ");
    push_dec(&mut s, off);
    s.append("u)");
    s
}

/// The slot of tile row `ty + off` of B. With `permb`, row `tn * x + j` lies in
/// slot `16 * j + x`, which spreads the lanes of a warp over the banks.
pub open spec fn b_slot_text(off: nat, tn: nat, permb: bool) -> Seq<char> {
    if permb {
        "(16u * ("@ + word_slot_text(off) + " % "@ + dec(tn) + "u) + "@ + word_slot_text(off) + " / "@ + dec(tn)
            + "u)"@
    } else {
        word_slot_text(off)
    }
}

fn b_slot(off: usize, tn: usize, permb: bool) -> (s: String)
    ensures
        s@ == b_slot_text(off as nat, tn as nat, permb),
{
    if permb {
        let mut s = lit("(16u * (");
        s.append(word_slot(off).as_str());
        s.append(" % ");
        push_dec(&mut s, tn);
        s.append("u) + ");
        s.append(word_slot(off).as_str());
        s.append(" / ");
        push_dec(&mut s, tn);
        s.append("u)");
        s
    } else {
        word_slot(off)
    }
}

/// Loads one A word of a thread into shared memory.
pub open spec fn word_load_a_text(kx: Seq<char>, off: nat) -> Seq<char> {
    "  As[(ty + "@
        + dec(off)
        + "u) * PAD + tx] = halve(A[(m0 + ty + "@
        + dec(off)
        + "u) * kk + ("@
        + kx
        + " + tx) / 2u], (tx & 1u) == 1u);\n"@
}

fn word_load_a(kx: &str, off: usize) -> (s: String)
    ensures
        s@ == word_load_a_text(kx@, off as nat),
{
    let mut s = lit("  As[(ty + ");
    push_dec(&mut s, off);
    s.append("u) * PAD + tx] = halve(A[(m0 + ty + ");
    push_dec(&mut s, off);
    s.append("u) * kk + (");
    s.append(kx);
    s.append(" + tx) / 2u], (tx & 1u) == 1u);\n");
    s
}

/// Loads the A words of a thread.
pub open spec fn word_loads_a_item(kx: Seq<char>) -> spec_fn(nat) -> Seq<char> {
    |e: nat| word_load_a_text(kx, e * 16)
}

fn word_loads_a(kx: &str, n: usize) -> (s: String)
    requires
        n * 16 <= usize::MAX,
    ensures
        s@ == rep(n as nat, word_loads_a_item(kx@)),
{
    let mut s = String::new();
    for e in 0..n
        invariant
            s@ == rep(e as nat, word_loads_a_item(kx@)),
            n * 16 <= usize::MAX,
    {
        let off: usize = e * 16;
        s.append(word_load_a(kx, off).as_str());
    }
    s
}

/// Loads one B word of a thread into shared memory.
pub open spec fn word_load_b_text(kx: Seq<char>, off: nat, tn: nat, permb: bool) -> Seq<char> {
    "  Bs["@
        + b_slot_text(off, tn, permb)
        + " * PAD + tx] = halve(W[(n0 + ty + "@
        + dec(off)
        + "u) * kk + ("@
        + kx
        + " + tx) / 2u], (tx & 1u) == 1u);\n"@
}

fn word_load_b(kx: &str, off: usize, tn: usize, permb: bool) -> (s: String)
    ensures
        s@ == word_load_b_text(kx@, off as nat, tn as nat, permb),
{
    let mut s = lit("  Bs[");
    s.append(b_slot(off, tn, permb).as_str());
    s.append(" * PAD + tx] = halve(W[(n0 + ty + ");
    push_dec(&mut s, off);
    s.append("u) * kk + (");
    s.append(kx);
    s.append(" + tx) / 2u], (tx & 1u) == 1u);\n");
    s
}

/// Loads the B words of a thread.
pub open spec fn word_loads_b_item(kx: Seq<char>, tn: nat, permb: bool) -> spec_fn(nat) -> Seq<char> {
    |e: nat| word_load_b_text(kx, e * 16, tn, permb)
}

fn word_loads_b(kx: &str, tn: usize, permb: bool, n: usize) -> (s: String)
    requires
        n * 16 <= usize::MAX,
    ensures
        s@ == rep(n as nat, word_loads_b_item(kx@, tn as nat, permb)),
{
    let mut s = String::new();
    for e in 0..n
        invariant
            s@ == rep(e as nat, word_loads_b_item(kx@, tn as nat, permb)),
            n * 16 <= usize::MAX,
    {
        let off: usize = e * 16;
        s.append(word_load_b(kx, off, tn, permb).as_str());
    }
    s
}

/// Prefetches one word of a thread.
pub open spec fn word_fetch_text(pf: Seq<char>, e: nat, row: Seq<char>, off: nat, kx: Seq<char>) -> Seq<char> {
    "   "@
        + pf
        + dec(e)
        + " = "@
        + row
        + dec(off)
        + "u) * kk + ("@
        + kx
        + " + tx) / 2u];\n"@
}

fn word_fetch(pf: &str, e: usize, row: &str, off: usize, kx: &str) -> (s: String)
    ensures
        s@ == word_fetch_text(pf@, e as nat, row@, off as nat, kx@),
{
    let mut s = lit("   ");
    s.append(pf);
    push_dec(&mut s, e);
    s.append(" = ");
    s.append(row);
    push_dec(&mut s, off);
    s.append("u) * kk + (");
    s.append(kx);
    s.append(" + tx) / 2u];\n");
    s
}

/// Prefetches the words of a thread.
pub open spec fn word_fetches_item(pf: Seq<char>, row: Seq<char>, kx: Seq<char>) -> spec_fn(nat) -> Seq<char> {
    |e: nat| word_fetch_text(pf, e, row, e * 16, kx)
}

fn word_fetches(pf: &str, row: &str, kx: &str, n: usize) -> (s: String)
    requires
        n * 16 <= usize::MAX,
    ensures
        s@ == rep(n as nat, word_fetches_item(pf@, row@, kx@)),
{
    let mut s = String::new();
    for e in 0..n
        invariant
            s@ == rep(e as nat, word_fetches_item(pf@, row@, kx@)),
            n * 16 <= usize::MAX,
    {
        let off: usize = e * 16;
        s.append(word_fetch(pf, e, row, off, kx).as_str());
    }
    s
}

/// One prefetch register.
pub open spec fn fetch_decl_text(pf: Seq<char>, e: nat) -> Seq<char> {
    "  var "@ + pf + dec(e) + ": u32 = 0u;\n"@
}

fn fetch_decl(pf: &str, e: usize) -> (s: String)
    ensures
        s@ == fetch_decl_text(pf@, e as nat),
{
    let mut s = lit("  var ");
    s.append(pf);
    push_dec(&mut s, e);
    s.append(": u32 = 0u;\n");
    s
}

/// The prefetch registers of one operand.
pub open spec fn fetch_decls_item(pf: Seq<char>) -> spec_fn(nat) -> Seq<char> {
    |e: nat| fetch_decl_text(pf, e)
}

fn fetch_decls(pf: &str, n: usize) -> (s: String)
    ensures
        s@ == rep(n as nat, fetch_decls_item(pf@)),
{
    let mut s = String::new();
    for e in 0..n
        invariant
            s@ == rep(e as nat, fetch_decls_item(pf@)),
    {
        s.append(fetch_decl(pf, e).as_str());
    }
    s
}

/// Stores one prefetched A word.
pub open spec fn word_store_a_text(e: nat, off: nat) -> Seq<char> {
    "   As[(ty + "@
        + dec(off)
        + "u) * PAD + tx] = halve(pfa"@
        + dec(e)
        + ", (tx & 1u) == 1u);\n"@
}

fn word_store_a(e: usize, off: usize) -> (s: String)
    ensures
        s@ == word_store_a_text(e as nat, off as nat),
{
    let mut s = lit("   As[(ty + ");
    push_dec(&mut s, off);
    s.append("u) * PAD + tx] = halve(pfa");
    push_dec(&mut s, e);
    s.append(", (tx & 1u) == 1u);\n");
    s
}

/// Stores the prefetched A words.
pub open spec fn word_stores_a_item() -> spec_fn(nat) -> Seq<char> {
    |e: nat| word_store_a_text(e, e * 16)
}

fn word_stores_a(n: usize) -> (s: String)
    requires
        n * 16 <= usize::MAX,
    ensures
        s@ == rep(n as nat, word_stores_a_item()),
{
    let mut s = String::new();
    for e in 0..n
        invariant
            s@ == rep(e as nat, word_stores_a_item()),
            n * 16 <= usize::MAX,
    {
        let off: usize = e * 16;
        s.append(word_store_a(e, off).as_str());
    }
    s
}

/// Stores one prefetched B word.
pub open spec fn word_store_b_text(e: nat, off: nat, tn: nat, permb: bool) -> Seq<char> {
    "   Bs["@
        + b_slot_text(off, tn, permb)
        + " * PAD + tx] = halve(pfb"@
        + dec(e)
        + ", (tx & 1u) == 1u);\n"@
}

fn word_store_b(e: usize, off: usize, tn: usize, permb: bool) -> (s: String)
    ensures
        s@ == word_store_b_text(e as nat, off as nat, tn as nat, permb),
{
    let mut s = lit("   Bs[");
    s.append(b_slot(off, tn, permb).as_str());
    s.append(" * PAD + tx] = halve(pfb");
    push_dec(&mut s, e);
    s.append(", (tx & 1u) == 1u);\n");
    s
}

/// Stores the prefetched B words.
pub open spec fn word_stores_b_item(tn: nat, permb: bool) -> spec_fn(nat) -> Seq<char> {
    |e: nat| word_store_b_text(e, e * 16, tn, permb)
}

fn word_stores_b(tn: usize, permb: bool, n: usize) -> (s: String)
    requires
        n * 16 <= usize::MAX,
    ensures
        s@ == rep(n as nat, word_stores_b_item(tn as nat, permb)),
{
    let mut s = String::new();
    for e in 0..n
        invariant
            s@ == rep(e as nat, word_stores_b_item(tn as nat, permb)),
            n * 16 <= usize::MAX,
    {
        let off: usize = e * 16;
        s.append(word_store_b(e, off, tn, permb).as_str());
    }
    s
}

/// Reads A chunk `i` at depth `q`.
pub open spec fn chunk_read_text(i: nat, tag: Seq<char>, q: Seq<char>, groups: nat) -> Seq<char> {
    "   let av"@
        + dec(i)
        + tag
        + " = A4["@
        + q
        + " * AQ + ty * "@
        + dec(groups)
        + "u + "@
        + dec(i)
        + "u];\n"@
}

fn chunk_read(i: usize, tag: &str, q: &str, groups: usize) -> (s: String)
    ensures
        s@ == chunk_read_text(i as nat, tag@, q@, groups as nat),
{
    let mut s = lit("   let av");
    push_dec(&mut s, i);
    s.append(tag);
    s.append(" = A4[");
    s.append(q);
    s.append(" * AQ + ty * ");
    push_dec(&mut s, groups);
    s.append("u + ");
    push_dec(&mut s, i);
    s.append("u];\n");
    s
}

/// Reads the A chunks of a thread at depth `q`.
pub open spec fn chunk_reads_item(tag: Seq<char>, q: Seq<char>, groups: nat) -> spec_fn(nat) -> Seq<char> {
    |i: nat| chunk_read_text(i, tag, q, groups)
}

fn chunk_reads(tag: &str, q: &str, groups: usize, n: usize) -> (s: String)
    ensures
        s@ == rep(n as nat, chunk_reads_item(tag@, q@, groups as nat)),
{
    let mut s = String::new();
    for i in 0..n
        invariant
            s@ == rep(i as nat, chunk_reads_item(tag@, q@, groups as nat)),
    {
        s.append(chunk_read(i, tag, q, groups).as_str());
    }
    s
}

/// Reads the two permuted B chunks of a thread at depth `q`.
pub open spec fn chunk_reads_b_text(tag: Seq<char>, q: Seq<char>) -> Seq<char> {
    "   let bv"@
        + tag
        + " = B4["@
        + q
        + " * BQ + (tx & 7u) + 16u * (tx >> 3u)];\n   let bw"@
        + tag
        + " = B4["@
        + q
        + " * BQ + (tx & 7u) + 8u + 16u * (tx >> 3u)];\n"@
}

fn chunk_reads_b(tag: &str, q: &str) -> (s: String)
    ensures
        s@ == chunk_reads_b_text(tag@, q@),
{
    let mut s = lit("   let bv");
    s.append(tag);
    s.append(" = B4[");
    s.append(q);
    s.append(" * BQ + (tx & 7u) + 16u * (tx >> 3u)];\n   let bw");
    s.append(tag);
    s.append(" = B4[");
    s.append(q);
    s.append(" * BQ + (tx & 7u) + 8u + 16u * (tx >> 3u)];\n");
    s
}

/// Reads A row `i` at depth `q`.
pub open spec fn word_read_a_text(i: nat, tag: Seq<char>, q: Seq<char>, tm: nat) -> Seq<char> {
    "   let a"@
        + dec(i)
        + tag
        + " = As[(ty * "@
        + dec(tm)
        + "u + "@
        + dec(i)
        + "u) * PAD + "@
        + q
        + "];\n"@
}

fn word_read_a(i: usize, tag: &str, q: &str, tm: usize) -> (s: String)
    ensures
        s@ == word_read_a_text(i as nat, tag@, q@, tm as nat),
{
    let mut s = lit("   let a");
    push_dec(&mut s, i);
    s.append(tag);
    s.append(" = As[(ty * ");
    push_dec(&mut s, tm);
    s.append("u + ");
    push_dec(&mut s, i);
    s.append("u) * PAD + ");
    s.append(q);
    s.append("];\n");
    s
}

/// Reads the A rows of a thread at depth `q`.
pub open spec fn word_reads_a_item(tag: Seq<char>, q: Seq<char>, tm: nat) -> spec_fn(nat) -> Seq<char> {
    |i: nat| word_read_a_text(i, tag, q, tm)
}

fn word_reads_a(tag: &str, q: &str, tm: usize, n: usize) -> (s: String)
    ensures
        s@ == rep(n as nat, word_reads_a_item(tag@, q@, tm as nat)),
{
    let mut s = String::new();
    for i in 0..n
        invariant
            s@ == rep(i as nat, word_reads_a_item(tag@, q@, tm as nat)),
    {
        s.append(word_read_a(i, tag, q, tm).as_str());
    }
    s
}

/// The slot that column `j` of thread `tx` is read from.
pub open spec fn b_read_slot_text(j: nat, tn: nat, permb: bool) -> Seq<char> {
    if permb {
        "(16u * "@ + dec(j) + "u + tx)"@
    } else {
        "(tx * "@ + dec(tn) + "u + "@ + dec(j) + "u)"@
    }
}

fn b_read_slot(j: usize, tn: usize, permb: bool) -> (s: String)
    ensures
        s@ == b_read_slot_text(j as nat, tn as nat, permb),
{
    if permb {
        let mut s = lit("(16u * ");
        push_dec(&mut s, j);
        s.append("u + tx)");
        s
    } else {
        let mut s = lit("(tx * ");
        push_dec(&mut s, tn);
        s.append("u + ");
        push_dec(&mut s, j);
        s.append("u)");
        s
    }
}

/// Reads B column `j` at depth `q`.
pub open spec fn word_read_b_text(j: nat, tag: Seq<char>, q: Seq<char>, tn: nat, permb: bool) -> Seq<char> {
    "   let b"@
        + dec(j)
        + tag
        + " = Bs["@
        + b_read_slot_text(j, tn, permb)
        + " * PAD + "@
        + q
        + "];\n"@
}

fn word_read_b(j: usize, tag: &str, q: &str, tn: usize, permb: bool) -> (s: String)
    ensures
        s@ == word_read_b_text(j as nat, tag@, q@, tn as nat, permb),
{
    let mut s = lit("   let b");
    push_dec(&mut s, j);
    s.append(tag);
    s.append(" = Bs[");
    s.append(b_read_slot(j, tn, permb).as_str());
    s.append(" * PAD + ");
    s.append(q);
    s.append("];\n");
    s
}

/// Reads the B columns of a thread at depth `q`.
pub open spec fn word_reads_b_item(tag: Seq<char>, q: Seq<char>, tn: nat, permb: bool) -> spec_fn(nat) -> Seq<char> {
    |j: nat| word_read_b_text(j, tag, q, tn, permb)
}

fn word_reads_b(tag: &str, q: &str, tn: usize, permb: bool, n: usize) -> (s: String)
    ensures
        s@ == rep(n as nat, word_reads_b_item(tag@, q@, tn as nat, permb)),
{
    let mut s = String::new();
    for j in 0..n
        invariant
            s@ == rep(j as nat, word_reads_b_item(tag@, q@, tn as nat, permb)),
    {
        s.append(word_read_b(j, tag, q, tn, permb).as_str());
    }
    s
}

/// The shared-memory reads of one depth step.
pub open spec fn reads_text(tm: nat, tn: nat, permb: bool, v4: bool, q: Seq<char>, tag: Seq<char>) -> Seq<char> {
    if v4 {
        rep(tm / 4, chunk_reads_item(tag, q, tm / 4)) + chunk_reads_b_text(tag, q)
    } else {
        rep(tm, word_reads_a_item(tag, q, tm)) + rep(tn, word_reads_b_item(tag, q, tn, permb))
    }
}

fn reads(tm: usize, tn: usize, permb: bool, v4: bool, q: &str, tag: &str) -> (s: String)
    ensures
        s@ == reads_text(tm as nat, tn as nat, permb, v4, q@, tag@),
{
    if v4 {
        let mut s = chunk_reads(tag, q, tm / 4, tm / 4);
        s.append(chunk_reads_b(tag, q).as_str());
        s
    } else {
        let mut s = word_reads_a(tag, q, tm, tm);
        s.append(word_reads_b(tag, q, tn, permb, tn).as_str());
        s
    }
}

/// The register that holds A row `i`.
pub open spec fn a_reg_text(i: nat, v4: bool, tag: Seq<char>) -> Seq<char> {
    if v4 {
        "av"@ + dec(i / 4) + tag + "["@ + dec(i % 4) + "]"@
    } else {
        "a"@ + dec(i) + tag
    }
}

fn a_reg(i: usize, v4: bool, tag: &str) -> (s: String)
    ensures
        s@ == a_reg_text(i as nat, v4, tag@),
{
    if v4 {
        let mut s = lit("av");
        push_dec(&mut s, i / 4);
        s.append(tag);
        s.append("[");
        push_dec(&mut s, i % 4);
        s.append("]");
        s
    } else {
        let mut s = lit("a");
        push_dec(&mut s, i);
        s.append(tag);
        s
    }
}

/// The register that holds B column `j`.
pub open spec fn b_reg_text(j: nat, v4: bool, tag: Seq<char>) -> Seq<char> {
    if v4 && j < 4 {
        "bv"@ + tag + "["@ + dec(j) + "]"@
    } else if v4 {
        "bw"@ + tag + "["@ + dec((j - 4) as nat) + "]"@
    } else {
        "b"@ + dec(j) + tag
    }
}

fn b_reg(j: usize, v4: bool, tag: &str) -> (s: String)
    ensures
        s@ == b_reg_text(j as nat, v4, tag@),
{
    if v4 && j < 4 {
        let mut s = lit("bv");
        s.append(tag);
        s.append("[");
        push_dec(&mut s, j);
        s.append("]");
        s
    } else if v4 {
        let mut s = lit("bw");
        s.append(tag);
        s.append("[");
        push_dec(&mut s, j - 4);
        s.append("]");
        s
    } else {
        let mut s = lit("b");
        push_dec(&mut s, j);
        s.append(tag);
        s
    }
}

/// One multiply-accumulate.
pub open spec fn mul_add_text(i: nat, j: nat, v4: bool, tag: Seq<char>) -> Seq<char> {
    "   c"@
        + dec(i)
        + dec(j)
        + " = c"@
        + dec(i)
        + dec(j)
        + " + "@
        + a_reg_text(i, v4, tag)
        + " * "@
        + b_reg_text(j, v4, tag)
        + ";\n"@
}

fn mul_add(i: usize, j: usize, v4: bool, tag: &str) -> (s: String)
    ensures
        s@ == mul_add_text(i as nat, j as nat, v4, tag@),
{
    let mut s = lit("   c");
    push_dec(&mut s, i);
    push_dec(&mut s, j);
    s.append(" = c");
    push_dec(&mut s, i);
    push_dec(&mut s, j);
    s.append(" + ");
    s.append(a_reg(i, v4, tag).as_str());
    s.append(" * ");
    s.append(b_reg(j, v4, tag).as_str());
    s.append(";\n");
    s
}

/// The multiply-accumulates of row `i`.
pub open spec fn mul_add_row_item(i: nat, v4: bool, tag: Seq<char>) -> spec_fn(nat) -> Seq<char> {
    |j: nat| mul_add_text(i, j, v4, tag)
}

fn mul_add_row(i: usize, v4: bool, tag: &str, tn: usize) -> (s: String)
    ensures
        s@ == rep(tn as nat, mul_add_row_item(i as nat, v4, tag@)),
{
    let mut s = String::new();
    for j in 0..tn
        invariant
            s@ == rep(j as nat, mul_add_row_item(i as nat, v4, tag@)),
    {
        s.append(mul_add(i, j, v4, tag).as_str());
    }
    s
}

/// The multiply-accumulates of one depth step.
pub open spec fn mul_adds_item(tn: nat, v4: bool, tag: Seq<char>) -> spec_fn(nat) -> Seq<char> {
    |i: nat| rep(tn, mul_add_row_item(i, v4, tag))
}

fn mul_adds(tn: usize, v4: bool, tag: &str, tm: usize) -> (s: String)
    ensures
        s@ == rep(tm as nat, mul_adds_item(tn as nat, v4, tag@)),
{
    let mut s = String::new();
    for i in 0..tm
        invariant
            s@ == rep(i as nat, mul_adds_item(tn as nat, v4, tag@)),
    {
        s.append(mul_add_row(i, v4, tag, tn).as_str());
    }
    s
}

/// One depth step: the reads at depth `q`, then the multiply-accumulates.
pub open spec fn step_text(tm: nat, tn: nat, permb: bool, v4: bool, q: Seq<char>, tag: Seq<char>) -> Seq<char> {
    reads_text(tm, tn, permb, v4, q, tag) + rep(tm, mul_adds_item(tn, v4, tag))
}

fn step(tm: usize, tn: usize, permb: bool, v4: bool, q: &str, tag: &str) -> (s: String)
    ensures
        s@ == step_text(tm as nat, tn as nat, permb, v4, q@, tag@),
{
    let mut s = reads(tm, tn, permb, v4, q, tag);
    s.append(mul_adds(tn, v4, tag, tm).as_str());
    s
}

/// Register suffix of unrolled step `u`.
pub open spec fn tag_of_text(u: nat) -> Seq<char> {
    "_"@ + dec(u)
}

fn tag_of(u: usize) -> (s: String)
    ensures
        s@ == tag_of_text(u as nat),
{
    let mut s = lit("_");
    push_dec(&mut s, u);
    s
}

/// Constant depth `u`.
pub open spec fn depth_const_text(u: nat) -> Seq<char> {
    dec(u) + "u"@
}

fn depth_const(u: usize) -> (s: String)
    ensures
        s@ == depth_const_text(u as nat),
{
    let mut s = number(u);
    s.append("u");
    s
}

/// Depth `u` past the loop counter.
pub open spec fn depth_from_text(u: nat) -> Seq<char> {
    "(q0 + "@ + dec(u) + "u)"@
}

fn depth_from(u: usize) -> (s: String)
    ensures
        s@ == depth_from_text(u as nat),
{
    let mut s = lit("(q0 + ");
    push_dec(&mut s, u);
    s.append("u)");
    s
}

/// The steps of a fully unrolled walk.
pub open spec fn unrolled_all_item(tm: nat, tn: nat, permb: bool, v4: bool) -> spec_fn(nat) -> Seq<char> {
    |u: nat| step_text(tm, tn, permb, v4, depth_const_text(u), tag_of_text(u))
}

fn unrolled_all(tm: usize, tn: usize, permb: bool, v4: bool, n: usize) -> (s: String)
    ensures
        s@ == rep(n as nat, unrolled_all_item(tm as nat, tn as nat, permb, v4)),
{
    let mut s = String::new();
    for u in 0..n
        invariant
            s@ == rep(u as nat, unrolled_all_item(tm as nat, tn as nat, permb, v4)),
    {
        let q = depth_const(u);
        let tag = tag_of(u);
        s.append(step(tm, tn, permb, v4, q.as_str(), tag.as_str()).as_str());
    }
    s
}

/// The steps of one round of a partly unrolled walk.
pub open spec fn unrolled_part_item(tm: nat, tn: nat, permb: bool, v4: bool) -> spec_fn(nat) -> Seq<char> {
    |u: nat| step_text(tm, tn, permb, v4, depth_from_text(u), tag_of_text(u))
}

fn unrolled_part(tm: usize, tn: usize, permb: bool, v4: bool, n: usize) -> (s: String)
    ensures
        s@ == rep(n as nat, unrolled_part_item(tm as nat, tn as nat, permb, v4)),
{
    let mut s = String::new();
    for u in 0..n
        invariant
            s@ == rep(u as nat, unrolled_part_item(tm as nat, tn as nat, permb, v4)),
    {
        let q = depth_from(u);
        let tag = tag_of(u);
        s.append(step(tm, tn, permb, v4, q.as_str(), tag.as_str()).as_str());
    }
    s
}

/// The walk over the depth of one tile: rolled, fully unrolled or in rounds of
/// `unroll_q` steps.
pub open spec fn compute_text(tm: nat, tn: nat, unroll_q: nat, permb: bool, v4: bool) -> Seq<char> {
    if unroll_q == 0 {
        "  var q: u32 = 0u;\n  loop {\n   if (q >= BK) { break; }\n"@ + step_text(tm, tn, permb, v4, "q"@, ""@)
            + "   q = q + 1u;\n  }\n"@
    } else if unroll_q >= BK {
        rep(BK as nat, unrolled_all_item(tm, tn, permb, v4))
    } else {
        "  var q0: u32 = 0u;\n  loop {\n   if (q0 >= BK) { break; }\n"@ + rep(
            unroll_q,
            unrolled_part_item(tm, tn, permb, v4),
        ) + "   q0 = q0 + "@ + dec(unroll_q) + "u;\n  }\n"@
    }
}

fn compute(tm: usize, tn: usize, unroll_q: usize, permb: bool, v4: bool) -> (s: String)
    ensures
        s@ == compute_text(tm as nat, tn as nat, unroll_q as nat, permb, v4),
{
    if unroll_q == 0 {
        let mut s = lit("  var q: u32 = 0u;\n  loop {\n   if (q >= BK) { break; }\n");
        s.append(step(tm, tn, permb, v4, "q", "").as_str());
        s.append("   q = q + 1u;\n  }\n");
        s
    } else if unroll_q >= BK {
        unrolled_all(tm, tn, permb, v4, BK)
    } else {
        let mut s = lit("  var q0: u32 = 0u;\n  loop {\n   if (q0 >= BK) { break; }\n");
        s.append(unrolled_part(tm, tn, permb, v4, unroll_q).as_str());
        s.append("   q0 = q0 + ");
        push_dec(&mut s, unroll_q);
        s.append("u;\n  }\n");
        s
    }
}

/// The global row of accumulator row `i`.
pub open spec fn row_decl_text(i: nat, tm: nat) -> Seq<char> {
    "let row"@ + dec(i) + " = m0 + ty * "@ + dec(tm) + "u + "@ + dec(i) + "u;\n"@
}

fn row_decl(i: usize, tm: usize) -> (s: String)
    ensures
        s@ == row_decl_text(i as nat, tm as nat),
{
    let mut s = lit("let row");
    push_dec(&mut s, i);
    s.append(" = m0 + ty * ");
    push_dec(&mut s, tm);
    s.append("u + ");
    push_dec(&mut s, i);
    s.append("u;\n");
    s
}

/// The global rows of all accumulator rows.
pub open spec fn row_decls_item(tm: nat) -> spec_fn(nat) -> Seq<char> {
    |i: nat| row_decl_text(i, tm)
}

fn row_decls(tm: usize, n: usize) -> (s: String)
    ensures
        s@ == rep(n as nat, row_decls_item(tm as nat)),
{
    let mut s = String::new();
    for i in 0..n
        invariant
            s@ == rep(i as nat, row_decls_item(tm as nat)),
    {
        s.append(row_decl(i, tm).as_str());
    }
    s
}

/// Stores accumulators `je` and `jo` of row `i` as word `e`.
pub open spec fn pair_store_text(i: nat, e: nat, tn: nat, je: nat, jo: nat) -> Seq<char> {
    "let we"@
        + dec(i)
        + "_"@
        + dec(e)
        + " = (row"@
        + dec(i)
        + " * gd.n + n0 + tx * "@
        + dec(tn)
        + "u + "@
        + dec(je)
        + "u) / 2u;\nC[we"@
        + dec(i)
        + "_"@
        + dec(e)
        + "] = pack2x16float(vec2<f32>(c"@
        + dec(i)
        + dec(je)
        + ", c"@
        + dec(i)
        + dec(jo)
        + "));\n"@
}

fn pair_store(i: usize, e: usize, tn: usize, je: usize, jo: usize) -> (s: String)
    ensures
        s@ == pair_store_text(i as nat, e as nat, tn as nat, je as nat, jo as nat),
{
    let mut s = lit("let we");
    push_dec(&mut s, i);
    s.append("_");
    push_dec(&mut s, e);
    s.append(" = (row");
    push_dec(&mut s, i);
    s.append(" * gd.n + n0 + tx * ");
    push_dec(&mut s, tn);
    s.append("u + ");
    push_dec(&mut s, je);
    s.append("u) / 2u;\nC[we");
    push_dec(&mut s, i);
    s.append("_");
    push_dec(&mut s, e);
    s.append("] = pack2x16float(vec2<f32>(c");
    push_dec(&mut s, i);
    push_dec(&mut s, je);
    s.append(", c");
    push_dec(&mut s, i);
    push_dec(&mut s, jo);
    s.append("));\n");
    s
}

/// Stores row `i`.
pub open spec fn pair_stores_item(i: nat, tn: nat) -> spec_fn(nat) -> Seq<char> {
    |e: nat| pair_store_text(i, e, tn, 2 * e, 2 * e + 1)
}

fn pair_stores(i: usize, tn: usize, n: usize) -> (s: String)
    requires
        2 * n <= usize::MAX,
    ensures
        s@ == rep(n as nat, pair_stores_item(i as nat, tn as nat)),
{
    let mut s = String::new();
    for e in 0..n
        invariant
            s@ == rep(e as nat, pair_stores_item(i as nat, tn as nat)),
            2 * n <= usize::MAX,
    {
        let je: usize = 2 * e;
        s.append(pair_store(i, e, tn, je, je + 1).as_str());
    }
    s
}

/// Stores every row.
pub open spec fn store_rows_item(tn: nat) -> spec_fn(nat) -> Seq<char> {
    |i: nat| rep(tn / 2, pair_stores_item(i, tn))
}

fn store_rows(tn: usize, tm: usize) -> (s: String)
    ensures
        s@ == rep(tm as nat, store_rows_item(tn as nat)),
{
    let mut s = String::new();
    for i in 0..tm
        invariant
            s@ == rep(i as nat, store_rows_item(tn as nat)),
    {
        s.append(pair_stores(i, tn, tn / 2).as_str());
    }
    s
}

/// Loads one `k` step of both operands into shared memory.
pub open spec fn load_text(bm: nat, bn: nat, nthr: nat, tn: nat, permb: bool, v4: bool) -> Seq<char> {
    if v4 {
        rep(
            bm * 16 / 4 / nthr,
            chunk_loads_item("A4"@, "A[(m0 + 4u * crg + "@, "k0"@, "ck"@, "cv"@, nthr),
        ) + rep(
            bn * 16 / 4 / nthr,
            chunk_loads_item("B4"@, "W[(n0 + 8u * bog + 4u * bos + "@, "k0"@, "bk"@, "bv"@, nthr),
        )
    } else {
        rep(bm * 16 / nthr, word_loads_a_item("k0"@)) + rep(
            bn * 16 / nthr,
            word_loads_b_item("k0"@, tn, permb),
        )
    }
}

/// The counts that a walk over one operand of `rows` tile rows needs to fit.
pub open spec fn rows_fit(rows: nat, nthr: nat, v4: bool) -> bool {
    &&& nthr > 0
    &&& rows * 17 <= usize::MAX
    &&& !v4 ==> rows * 16 / nthr * 16 <= usize::MAX
}

proof fn lemma_chunk_counts(rows: nat, nthr: nat)
    requires
        nthr > 0,
    ensures
        rows * 16 / 4 / nthr * nthr <= rows * 16,
        rows * 16 / 4 / nthr * 4 <= rows * 16,
{
    let c = rows * 16 / 4 / nthr;
    assert(rows * 16 / 4 == rows * 4);
    assert(rows * 4 / nthr * nthr <= rows * 4) by (nonlinear_arith)
        requires
            nthr > 0,
    ;
    assert(rows * 4 / nthr <= rows * 4) by (nonlinear_arith)
        requires
            nthr > 0,
    ;
}

fn load(bm: usize, bn: usize, nthr: usize, tn: usize, permb: bool, v4: bool) -> (s: String)
    requires
        rows_fit(bm as nat, nthr as nat, v4),
        rows_fit(bn as nat, nthr as nat, v4),
    ensures
        s@ == load_text(bm as nat, bn as nat, nthr as nat, tn as nat, permb, v4),
{
    if v4 {
        proof {
            lemma_chunk_counts(bm as nat, nthr as nat);
            lemma_chunk_counts(bn as nat, nthr as nat);
        }
        let mut s = chunk_loads("A4", "A[(m0 + 4u * crg + ", "k0", "ck", "cv", nthr, bm * 16 / 4 / nthr);
        s.append(
            chunk_loads(
                "B4",
                "W[(n0 + 8u * bog + 4u * bos + ",
                "k0",
                "bk",
                "bv",
                nthr,
                bn * 16 / 4 / nthr,
            ).as_str(),
        );
        s
    } else {
        let mut s = word_loads_a("k0", bm * 16 / nthr);
        s.append(word_loads_b("k0", tn, permb, bn * 16 / nthr).as_str());
        s
    }
}

/// Prefetches the next `k` step of both operands into registers.
pub open spec fn fetch_text(bm: nat, bn: nat, nthr: nat, v4: bool) -> Seq<char> {
    if v4 {
        rep(bm * 16 / 4 / nthr, chunk_fetches_item("pfa"@, "A[(m0 + 4u * crg + "@, "kn"@, "ck"@)) + rep(
            bn * 16 / 4 / nthr,
            chunk_fetches_item("pfb"@, "W[(n0 + 8u * bog + 4u * bos + "@, "kn"@, "bk"@),
        )
    } else {
        rep(bm * 16 / nthr, word_fetches_item("pfa"@, "A[(m0 + ty + "@, "kn"@)) + rep(
            bn * 16 / nthr,
            word_fetches_item("pfb"@, "W[(n0 + ty + "@, "kn"@),
        )
    }
}

fn fetch(bm: usize, bn: usize, nthr: usize, v4: bool) -> (s: String)
    requires
        rows_fit(bm as nat, nthr as nat, v4),
        rows_fit(bn as nat, nthr as nat, v4),
    ensures
        s@ == fetch_text(bm as nat, bn as nat, nthr as nat, v4),
{
    if v4 {
        proof {
            lemma_chunk_counts(bm as nat, nthr as nat);
            lemma_chunk_counts(bn as nat, nthr as nat);
        }
        let mut s = chunk_fetches("pfa", "A[(m0 + 4u * crg + ", "kn", "ck", bm * 16 / 4 / nthr);
        s.append(
            chunk_fetches("pfb", "W[(n0 + 8u * bog + 4u * bos + ", "kn", "bk", bn * 16 / 4 / nthr).as_str(),
        );
        s
    } else {
        let mut s = word_fetches("pfa", "A[(m0 + ty + ", "kn", bm * 16 / nthr);
        s.append(word_fetches("pfb", "W[(n0 + ty + ", "kn", bn * 16 / nthr).as_str());
        s
    }
}

/// Stores the prefetched registers of both operands into shared memory.
pub open spec fn store_text(bm: nat, bn: nat, nthr: nat, tn: nat, permb: bool, v4: bool) -> Seq<char> {
    if v4 {
        rep(bm * 16 / 4 / nthr, chunk_stores_item("A4"@, "pfa"@, "cv"@, nthr)) + rep(
            bn * 16 / 4 / nthr,
            chunk_stores_item("B4"@, "pfb"@, "bv"@, nthr),
        )
    } else {
        rep(bm * 16 / nthr, word_stores_a_item()) + rep(bn * 16 / nthr, word_stores_b_item(tn, permb))
    }
}

fn store(bm: usize, bn: usize, nthr: usize, tn: usize, permb: bool, v4: bool) -> (s: String)
    requires
        rows_fit(bm as nat, nthr as nat, v4),
        rows_fit(bn as nat, nthr as nat, v4),
    ensures
        s@ == store_text(bm as nat, bn as nat, nthr as nat, tn as nat, permb, v4),
{
    if v4 {
        proof {
            lemma_chunk_counts(bm as nat, nthr as nat);
            lemma_chunk_counts(bn as nat, nthr as nat);
        }
        let mut s = chunk_stores("A4", "pfa", "cv", nthr, bm * 16 / 4 / nthr);
        s.append(chunk_stores("B4", "pfb", "bv", nthr, bn * 16 / 4 / nthr).as_str());
        s
    } else {
        let mut s = word_stores_a(bm * 16 / nthr);
        s.append(word_stores_b(tn, permb, bn * 16 / nthr).as_str());
        s
    }
}

/// The number of `k` index registers behind chunk 0's.
pub open spec fn later_chunks(chunks: nat) -> nat {
    if chunks == 0 {
        0
    } else {
        (chunks - 1) as nat
    }
}

/// The chunk index and half registers that the chunked paths are written in.
pub open spec fn chunk_setup_text(bm: nat, bn: nat, nthr: nat, wgx: nat, v4: bool) -> Seq<char> {
    if v4 {
        let nch_a = bm * 16 / 4 / nthr;
        let nch_b = bn * 16 / 4 / nthr;
        chunk_origin_text(wgx, bm / 4) + rep(
            later_chunks(nch_a),
            chunk_steps_item("ck"@, nthr / (bm / 4)),
        ) + rep(nch_a, chunk_parities_item("cv"@, "ck"@)) + chunk_origin_b_text(bn / 4) + rep(
            later_chunks(nch_b),
            chunk_steps_item("bk"@, nthr / (bn / 4)),
        ) + rep(nch_b, chunk_parities_item("bv"@, "bk"@))
    } else {
        Seq::empty()
    }
}

proof fn lemma_step_fits(rows: nat, nthr: nat)
    requires
        nthr > 0,
        rows / 4 > 0,
    ensures
        rows * 16 / 4 / nthr * (nthr / (rows / 4)) <= rows * 16,
{
    let c = rows * 16 / 4 / nthr;
    let k = nthr / (rows / 4);
    lemma_chunk_counts(rows, nthr);
    assert(k <= nthr) by (nonlinear_arith)
        requires
            k == nthr / (rows / 4),
            rows / 4 > 0,
    ;
    assert(c * k <= c * nthr) by (nonlinear_arith)
        requires
            k <= nthr,
    ;
}

fn later(chunks: usize) -> (n: usize)
    ensures
        n == later_chunks(chunks as nat),
{
    if chunks == 0 {
        0
    } else {
        chunks - 1
    }
}

fn chunk_setup(bm: usize, bn: usize, nthr: usize, wgx: usize, v4: bool) -> (s: String)
    requires
        rows_fit(bm as nat, nthr as nat, v4),
        rows_fit(bn as nat, nthr as nat, v4),
        bm / 4 > 0,
        bn / 4 > 0,
    ensures
        s@ == chunk_setup_text(bm as nat, bn as nat, nthr as nat, wgx as nat, v4),
{
    if v4 {
        let nch_a: usize = bm * 16 / 4 / nthr;
        let nch_b: usize = bn * 16 / 4 / nthr;
        let kstep_a: usize = nthr / (bm / 4);
        let kstep_b: usize = nthr / (bn / 4);
        proof {
            lemma_step_fits(bm as nat, nthr as nat);
            lemma_step_fits(bn as nat, nthr as nat);
            assert(later_chunks(nch_a as nat) * kstep_a <= nch_a * kstep_a) by (nonlinear_arith)
                requires
                    later_chunks(nch_a as nat) <= nch_a,
            ;
            assert(later_chunks(nch_b as nat) * kstep_b <= nch_b * kstep_b) by (nonlinear_arith)
                requires
                    later_chunks(nch_b as nat) <= nch_b,
            ;
        }
        let mut s = chunk_origin(wgx, bm / 4);
        s.append(chunk_steps("ck", kstep_a, later(nch_a)).as_str());
        s.append(chunk_parities("cv", "ck", nch_a).as_str());
        s.append(chunk_origin_b(bn / 4).as_str());
        s.append(chunk_steps("bk", kstep_b, later(nch_b)).as_str());
        s.append(chunk_parities("bv", "bk", nch_b).as_str());
        s
    } else {
        String::new()
    }
}

/// The walk over `k`: plain, or with the next step prefetched into registers
/// while the current one is computed (`double`).
pub open spec fn body_text(
    bm: nat,
    bn: nat,
    nthr: nat,
    tm: nat,
    tn: nat,
    double: bool,
    unroll_q: nat,
    permb: bool,
    v4: bool,
) -> Seq<char> {
    if !double {
        " var k0: u32 = 0u;\n loop {\n  if (k0 >= gd.k) { break; }\n"@ + load_text(bm, bn, nthr, tn, permb, v4)
            + "  workgroupBarrier();\n"@ + compute_text(tm, tn, unroll_q, permb, v4)
            + "  workgroupBarrier();\n  k0 = k0 + BK;\n }\n"@
    } else {
        " var k0: u32 = 0u;\n"@ + load_text(bm, bn, nthr, tn, permb, v4)
            + " workgroupBarrier();\n loop {\n  if (k0 >= gd.k) { break; }\n  let kn = k0 + BK;\n"@ + rep(
            bm * 16 / nthr,
            fetch_decls_item("pfa"@),
        ) + rep(bn * 16 / nthr, fetch_decls_item("pfb"@)) + "  if (kn < gd.k) {\n"@ + fetch_text(bm, bn, nthr, v4)
            + "  }\n"@ + compute_text(tm, tn, unroll_q, permb, v4) + "  workgroupBarrier();\n  if (kn < gd.k) {\n"@
            + store_text(bm, bn, nthr, tn, permb, v4) + "  }\n  workgroupBarrier();\n  k0 = kn;\n }\n"@
    }
}

fn body(
    bm: usize,
    bn: usize,
    nthr: usize,
    tm: usize,
    tn: usize,
    double: bool,
    unroll_q: usize,
    permb: bool,
    v4: bool,
) -> (s: String)
    requires
        rows_fit(bm as nat, nthr as nat, v4),
        rows_fit(bn as nat, nthr as nat, v4),
    ensures
        s@ == body_text(bm as nat, bn as nat, nthr as nat, tm as nat, tn as nat, double, unroll_q as nat, permb, v4),
{
    if !double {
        let mut s = lit(" var k0: u32 = 0u;\n loop {\n  if (k0 >= gd.k) { break; }\n");
        s.append(load(bm, bn, nthr, tn, permb, v4).as_str());
        s.append("  workgroupBarrier();\n");
        s.append(compute(tm, tn, unroll_q, permb, v4).as_str());
        s.append("  workgroupBarrier();\n  k0 = k0 + BK;\n }\n");
        s
    } else {
        let mut s = lit(" var k0: u32 = 0u;\n");
        s.append(load(bm, bn, nthr, tn, permb, v4).as_str());
        s.append(" workgroupBarrier();\n loop {\n  if (k0 >= gd.k) { break; }\n  let kn = k0 + BK;\n");
        s.append(fetch_decls("pfa", bm * 16 / nthr).as_str());
        s.append(fetch_decls("pfb", bn * 16 / nthr).as_str());
        s.append("  if (kn < gd.k) {\n");
        s.append(fetch(bm, bn, nthr, v4).as_str());
        s.append("  }\n");
        s.append(compute(tm, tn, unroll_q, permb, v4).as_str());
        s.append("  workgroupBarrier();\n  if (kn < gd.k) {\n");
        s.append(store(bm, bn, nthr, tn, permb, v4).as_str());
        s.append("  }\n  workgroupBarrier();\n  k0 = kn;\n }\n");
        s
    }
}

/// The shared tile declarations of the chosen layout.
pub open spec fn shared_text(bm: nat, bn: nat, v4: bool) -> Seq<char> {
    if v4 {
        shared_chunks_text(bm * 16 / 4, bn * 16 / 4)
    } else {
        shared_words_text(bm * 17, bn * 17)
    }
}

fn shared(bm: usize, bn: usize, v4: bool) -> (s: String)
    requires
        bm * 17 <= usize::MAX,
        bn * 17 <= usize::MAX,
    ensures
        s@ == shared_text(bm as nat, bn as nat, v4),
{
    if v4 {
        shared_chunks(bm * 16 / 4, bn * 16 / 4)
    } else {
        shared_words(bm * 17, bn * 17)
    }
}

/// Whether a kernel of this shape can be generated: the threads divide both
/// tiles and are divided by their row groups, and the chunked layout is asked
/// for only with the permuted eight-column tile it is derived for.
pub open spec fn shape_ok(tm: nat, tn: nat, wgx: nat, wgy: nat, permb: bool, v4: bool) -> bool {
    let nthr = wgx * wgy;
    let bm = wgy * tm;
    let bn = wgx * tn;
    &&& nthr <= usize::MAX
    &&& rows_fit(bm, nthr, v4)
    &&& rows_fit(bn, nthr, v4)
    &&& bm * 16 % nthr == 0
    &&& bn * 16 % nthr == 0
    &&& v4 ==> permb && tn == 8 && bm * 16 % (4 * nthr) == 0 && bn * 16 % (4 * nthr) == 0
    &&& bm / 4 > 0
    &&& bn / 4 > 0
    &&& nthr % (bm / 4) == 0
    &&& nthr % (bn / 4) == 0
}

/// The kernel source for one tile shape.
pub open spec fn gemm_shader_text(
    tm: nat,
    tn: nat,
    wgx: nat,
    wgy: nat,
    double: bool,
    unroll_q: nat,
    permb: bool,
    v4: bool,
) -> Seq<char> {
    let nthr = wgx * wgy;
    let bm = wgy * tm;
    let bn = wgx * tn;
    consts_text(bm, bn, tm, tn, bm / 4, bn / 4, nthr) + shared_text(bm, bn, v4) + entry_text(wgx, wgy) + rep(
        tm,
        acc_rows_item(tn),
    ) + chunk_setup_text(bm, bn, nthr, wgx, v4) + body_text(bm, bn, nthr, tm, tn, double, unroll_q, permb, v4) + rep(
        tm,
        row_decls_item(tm),
    ) + rep(tm, store_rows_item(tn)) + "}\n"@
}

/// Generates the kernel source for `wgx * wgy` threads of `tm * tn` outputs
/// each.
///
/// `double` prefetches the next `k` step, `unroll_q` unrolls the depth loop (0
/// leaves it rolled), `permb` permutes the B tile's rows and `v4` moves both
/// tiles in 16-byte chunks.
pub fn gemm_shader(
    tm: usize,
    tn: usize,
    wgx: usize,
    wgy: usize,
    double: bool,
    unroll_q: usize,
    permb: bool,
    v4: bool,
) -> (s: String)
    requires
        shape_ok(tm as nat, tn as nat, wgx as nat, wgy as nat, permb, v4),
    ensures
        s@ == gemm_shader_text(
            tm as nat,
            tn as nat,
            wgx as nat,
            wgy as nat,
            double,
            unroll_q as nat,
            permb,
            v4,
        ),
{
    let nthr: usize = wgx * wgy;
    let bm: usize = wgy * tm;
    let bn: usize = wgx * tn;
    let mut s = consts(bm, bn, tm, tn, bm / 4, bn / 4, nthr);
    s.append(shared(bm, bn, v4).as_str());
    s.append(entry(wgx, wgy).as_str());
    s.append(acc_rows(tn, tm).as_str());
    s.append(chunk_setup(bm, bn, nthr, wgx, v4).as_str());
    s.append(body(bm, bn, nthr, tm, tn, double, unroll_q, permb, v4).as_str());
    s.append(row_decls(tm, tm).as_str());
    s.append(store_rows(tn, tm).as_str());
    s.append("}\n");
    s
}

} // verus!
