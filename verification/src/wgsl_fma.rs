//! The arithmetic roof probe: multiply-add chains, with shared loads mixed in
//! at the ratio of the GEMM's inner loop.
use vstd::prelude::*;
use vstd::string::*;

use crate::text::{dec, lit, push_dec, rep};
use crate::wgsl_fma_laws::law_arm_counts;
use crate::wgsl_lines::picked;

verus! {

/// Loop iterations of one run.
pub const ITERS: u32 = 4096;

/// One chain.
pub open spec fn decl_line_text(i: nat) -> Seq<char> {
    "  var c"@ + dec(i) + " = 0.0;\n"@
}

fn decl_line(i: usize) -> (s: String)
    ensures
        s@ == decl_line_text(i as nat),
{
    let mut s = lit("  var c");
    push_dec(&mut s, i);
    s.append(" = 0.0;\n");
    s
}

/// The chains.
pub open spec fn decl_lines_item() -> spec_fn(nat) -> Seq<char> {
    |i: nat| decl_line_text(i)
}

fn decl_lines(n: usize) -> (s: String)
    ensures
        s@ == rep(n as nat, decl_lines_item()),
{
    let mut s = String::new();
    for i in 0..n
        invariant
            s@ == rep(i as nat, decl_lines_item()),
    {
        s.append(decl_line(i).as_str());
    }
    s
}

/// Seeds one chain.
pub open spec fn init_line_text(i: nat) -> Seq<char> {
    "  c"@ + dec(i) + " = f32(lid.x + "@ + dec(i) + "u) * 1e-9;\n"@
}

fn init_line(i: usize) -> (s: String)
    ensures
        s@ == init_line_text(i as nat),
{
    let mut s = lit("  c");
    push_dec(&mut s, i);
    s.append(" = f32(lid.x + ");
    push_dec(&mut s, i);
    s.append("u) * 1e-9;\n");
    s
}

/// Seeds the chains.
pub open spec fn init_lines_item() -> spec_fn(nat) -> Seq<char> {
    |i: nat| init_line_text(i)
}

fn init_lines(n: usize) -> (s: String)
    ensures
        s@ == rep(n as nat, init_lines_item()),
{
    let mut s = String::new();
    for i in 0..n
        invariant
            s@ == rep(i as nat, init_lines_item()),
    {
        s.append(init_line(i).as_str());
    }
    s
}

/// Folds one chain.
pub open spec fn sink_line_text(i: nat) -> Seq<char> {
    "  s = s + c"@ + dec(i) + ";\n"@
}

fn sink_line(i: usize) -> (s: String)
    ensures
        s@ == sink_line_text(i as nat),
{
    let mut s = lit("  s = s + c");
    push_dec(&mut s, i);
    s.append(";\n");
    s
}

/// Folds the chains.
pub open spec fn sink_lines_item() -> spec_fn(nat) -> Seq<char> {
    |i: nat| sink_line_text(i)
}

fn sink_lines(n: usize) -> (s: String)
    ensures
        s@ == rep(n as nat, sink_lines_item()),
{
    let mut s = String::new();
    for i in 0..n
        invariant
            s@ == rep(i as nat, sink_lines_item()),
    {
        s.append(sink_line(i).as_str());
    }
    s
}

/// Advances one chain.
pub open spec fn chain_line_text(i: nat) -> Seq<char> {
    "    c"@ + dec(i) + " = fma(c"@ + dec(i) + ", a, b);\n"@
}

fn chain_line(i: usize) -> (s: String)
    ensures
        s@ == chain_line_text(i as nat),
{
    let mut s = lit("    c");
    push_dec(&mut s, i);
    s.append(" = fma(c");
    push_dec(&mut s, i);
    s.append(", a, b);\n");
    s
}

/// Advances the chains.
pub open spec fn chain_lines_item() -> spec_fn(nat) -> Seq<char> {
    |i: nat| chain_line_text(i)
}

fn chain_lines(n: usize) -> (s: String)
    ensures
        s@ == rep(n as nat, chain_lines_item()),
{
    let mut s = String::new();
    for i in 0..n
        invariant
            s@ == rep(i as nat, chain_lines_item()),
    {
        s.append(chain_line(i).as_str());
    }
    s
}

/// Vector load `i` of round `r`.
pub open spec fn vec_load_text(r: nat, i: nat, off: nat) -> Seq<char> {
    "    let v"@
        + dec(r)
        + "_"@
        + dec(i)
        + " = tile[((idx * 4u + "@
        + dec(off)
        + "u + lid.x) & 511u)];\n"@
}

fn vec_load(r: usize, i: usize, off: usize) -> (s: String)
    ensures
        s@ == vec_load_text(r as nat, i as nat, off as nat),
{
    let mut s = lit("    let v");
    push_dec(&mut s, r);
    s.append("_");
    push_dec(&mut s, i);
    s.append(" = tile[((idx * 4u + ");
    push_dec(&mut s, off);
    s.append("u + lid.x) & 511u)];\n");
    s
}

/// The vector loads of round `r`.
pub open spec fn vec_loads_item(r: nat) -> spec_fn(nat) -> Seq<char> {
    |i: nat| vec_load_text(r, i, i * 128)
}

fn vec_loads(r: usize, n: usize) -> (s: String)
    requires
        n * 128 <= usize::MAX,
    ensures
        s@ == rep(n as nat, vec_loads_item(r as nat)),
{
    let mut s = String::new();
    for i in 0..n
        invariant
            s@ == rep(i as nat, vec_loads_item(r as nat)),
            n * 128 <= usize::MAX,
    {
        let off: usize = i * 128;
        s.append(vec_load(r, i, off).as_str());
    }
    s
}

/// Folds component `e` of vector load `i` into chain `k`.
pub open spec fn vec_use_text(k: nat, r: nat, i: nat, e: nat) -> Seq<char> {
    "    c"@
        + dec(k)
        + " = fma(c"@
        + dec(k)
        + ", v"@
        + dec(r)
        + "_"@
        + dec(i)
        + "["@
        + dec(e)
        + "], b);\n"@
}

fn vec_use(k: usize, r: usize, i: usize, e: usize) -> (s: String)
    ensures
        s@ == vec_use_text(k as nat, r as nat, i as nat, e as nat),
{
    let mut s = lit("    c");
    push_dec(&mut s, k);
    s.append(" = fma(c");
    push_dec(&mut s, k);
    s.append(", v");
    push_dec(&mut s, r);
    s.append("_");
    push_dec(&mut s, i);
    s.append("[");
    push_dec(&mut s, e);
    s.append("], b);\n");
    s
}

/// Folds vector load `i`.
pub open spec fn vec_use_row_item(r: nat, i: nat) -> spec_fn(nat) -> Seq<char> {
    |e: nat| vec_use_text(i * 4 + e, r, i, e)
}

fn vec_use_row(r: usize, i: usize, n: usize) -> (s: String)
    requires
        i * 4 + n <= usize::MAX,
    ensures
        s@ == rep(n as nat, vec_use_row_item(r as nat, i as nat)),
{
    let mut s = String::new();
    for e in 0..n
        invariant
            s@ == rep(e as nat, vec_use_row_item(r as nat, i as nat)),
            i * 4 + n <= usize::MAX,
    {
        let k: usize = i * 4 + e;
        s.append(vec_use(k, r, i, e).as_str());
    }
    s
}

/// Folds the vector loads of round `r`.
pub open spec fn vec_uses_item(r: nat) -> spec_fn(nat) -> Seq<char> {
    |i: nat| rep(4, vec_use_row_item(r, i))
}

fn vec_uses(r: usize, n: usize) -> (s: String)
    requires
        n * 4 <= usize::MAX,
    ensures
        s@ == rep(n as nat, vec_uses_item(r as nat)),
{
    let mut s = String::new();
    for i in 0..n
        invariant
            s@ == rep(i as nat, vec_uses_item(r as nat)),
            n * 4 <= usize::MAX,
    {
        s.append(vec_use_row(r, i, 4).as_str());
    }
    s
}

/// Scalar load `i` of round `r`.
pub open spec fn word_load_text(r: nat, i: nat) -> Seq<char> {
    "    let t"@
        + dec(r)
        + "_"@
        + dec(i)
        + " = tile[((idx * 16u + "@
        + dec(i)
        + "u) * 32u + lid.x) & 1023u];\n"@
}

fn word_load(r: usize, i: usize) -> (s: String)
    ensures
        s@ == word_load_text(r as nat, i as nat),
{
    let mut s = lit("    let t");
    push_dec(&mut s, r);
    s.append("_");
    push_dec(&mut s, i);
    s.append(" = tile[((idx * 16u + ");
    push_dec(&mut s, i);
    s.append("u) * 32u + lid.x) & 1023u];\n");
    s
}

/// The scalar loads of round `r`.
pub open spec fn word_loads_item(r: nat) -> spec_fn(nat) -> Seq<char> {
    |i: nat| word_load_text(r, i)
}

fn word_loads(r: usize, n: usize) -> (s: String)
    ensures
        s@ == rep(n as nat, word_loads_item(r as nat)),
{
    let mut s = String::new();
    for i in 0..n
        invariant
            s@ == rep(i as nat, word_loads_item(r as nat)),
    {
        s.append(word_load(r, i).as_str());
    }
    s
}

/// Folds scalar load `i` into chain `i`.
pub open spec fn word_use_text(i: nat, r: nat) -> Seq<char> {
    "    c"@ + dec(i) + " = fma(c"@ + dec(i) + ", t"@ + dec(r) + "_"@ + dec(i) + ", b);\n"@
}

fn word_use(i: usize, r: usize) -> (s: String)
    ensures
        s@ == word_use_text(i as nat, r as nat),
{
    let mut s = lit("    c");
    push_dec(&mut s, i);
    s.append(" = fma(c");
    push_dec(&mut s, i);
    s.append(", t");
    push_dec(&mut s, r);
    s.append("_");
    push_dec(&mut s, i);
    s.append(", b);\n");
    s
}

/// Folds the scalar loads of round `r`.
pub open spec fn word_uses_item(r: nat) -> spec_fn(nat) -> Seq<char> {
    |i: nat| word_use_text(i, r)
}

fn word_uses(r: usize, n: usize) -> (s: String)
    ensures
        s@ == rep(n as nat, word_uses_item(r as nat)),
{
    let mut s = String::new();
    for i in 0..n
        invariant
            s@ == rep(i as nat, word_uses_item(r as nat)),
    {
        s.append(word_use(i, r).as_str());
    }
    s
}

/// Broadcast vector load `i` of round `r`.
pub open spec fn split_vec_load_text(r: nat, i: nat, off: nat) -> Seq<char> {
    "    let w"@
        + dec(r)
        + "_"@
        + dec(i)
        + " = tileA[((idx * 2u + (lid.x >> 4u) + "@
        + dec(off)
        + "u) & 511u)];\n"@
}

fn split_vec_load(r: usize, i: usize, off: usize) -> (s: String)
    ensures
        s@ == split_vec_load_text(r as nat, i as nat, off as nat),
{
    let mut s = lit("    let w");
    push_dec(&mut s, r);
    s.append("_");
    push_dec(&mut s, i);
    s.append(" = tileA[((idx * 2u + (lid.x >> 4u) + ");
    push_dec(&mut s, off);
    s.append("u) & 511u)];\n");
    s
}

/// The broadcast vector loads of round `r`.
pub open spec fn split_vec_loads_item(r: nat) -> spec_fn(nat) -> Seq<char> {
    |i: nat| split_vec_load_text(r, i, i * 128)
}

fn split_vec_loads(r: usize, n: usize) -> (s: String)
    requires
        n * 128 <= usize::MAX,
    ensures
        s@ == rep(n as nat, split_vec_loads_item(r as nat)),
{
    let mut s = String::new();
    for i in 0..n
        invariant
            s@ == rep(i as nat, split_vec_loads_item(r as nat)),
            n * 128 <= usize::MAX,
    {
        let off: usize = i * 128;
        s.append(split_vec_load(r, i, off).as_str());
    }
    s
}

/// Scalar load `i` of the split round `r`.
pub open spec fn split_word_load_text(r: nat, i: nat) -> Seq<char> {
    "    let t"@
        + dec(r)
        + "_"@
        + dec(i)
        + " = tileB[((idx * 8u + "@
        + dec(i)
        + "u) * 32u + (lid.x & 15u)) & 1023u];\n"@
}

fn split_word_load(r: usize, i: usize) -> (s: String)
    ensures
        s@ == split_word_load_text(r as nat, i as nat),
{
    let mut s = lit("    let t");
    push_dec(&mut s, r);
    s.append("_");
    push_dec(&mut s, i);
    s.append(" = tileB[((idx * 8u + ");
    push_dec(&mut s, i);
    s.append("u) * 32u + (lid.x & 15u)) & 1023u];\n");
    s
}

/// The scalar loads of the split round `r`.
pub open spec fn split_word_loads_item(r: nat) -> spec_fn(nat) -> Seq<char> {
    |i: nat| split_word_load_text(r, i)
}

fn split_word_loads(r: usize, n: usize) -> (s: String)
    ensures
        s@ == rep(n as nat, split_word_loads_item(r as nat)),
{
    let mut s = String::new();
    for i in 0..n
        invariant
            s@ == rep(i as nat, split_word_loads_item(r as nat)),
    {
        s.append(split_word_load(r, i).as_str());
    }
    s
}

/// Folds component `i` of the first broadcast load.
pub open spec fn split_low_text(i: nat, r: nat) -> Seq<char> {
    "    c"@
        + dec(i)
        + " = fma(c"@
        + dec(i)
        + ", w"@
        + dec(r)
        + "_0["@
        + dec(i)
        + "], b);\n"@
}

fn split_low(i: usize, r: usize) -> (s: String)
    ensures
        s@ == split_low_text(i as nat, r as nat),
{
    let mut s = lit("    c");
    push_dec(&mut s, i);
    s.append(" = fma(c");
    push_dec(&mut s, i);
    s.append(", w");
    push_dec(&mut s, r);
    s.append("_0[");
    push_dec(&mut s, i);
    s.append("], b);\n");
    s
}

/// Folds the first broadcast load.
pub open spec fn split_lows_item(r: nat) -> spec_fn(nat) -> Seq<char> {
    |i: nat| split_low_text(i, r)
}

fn split_lows(r: usize, n: usize) -> (s: String)
    ensures
        s@ == rep(n as nat, split_lows_item(r as nat)),
{
    let mut s = String::new();
    for i in 0..n
        invariant
            s@ == rep(i as nat, split_lows_item(r as nat)),
    {
        s.append(split_low(i, r).as_str());
    }
    s
}

/// Folds component `i` of the second broadcast load into chain `ii`.
pub open spec fn split_high_text(ii: nat, r: nat, i: nat) -> Seq<char> {
    "    c"@
        + dec(ii)
        + " = fma(c"@
        + dec(ii)
        + ", w"@
        + dec(r)
        + "_1["@
        + dec(i)
        + "], b);\n"@
}

fn split_high(ii: usize, r: usize, i: usize) -> (s: String)
    ensures
        s@ == split_high_text(ii as nat, r as nat, i as nat),
{
    let mut s = lit("    c");
    push_dec(&mut s, ii);
    s.append(" = fma(c");
    push_dec(&mut s, ii);
    s.append(", w");
    push_dec(&mut s, r);
    s.append("_1[");
    push_dec(&mut s, i);
    s.append("], b);\n");
    s
}

/// Folds the second broadcast load.
pub open spec fn split_highs_item(r: nat) -> spec_fn(nat) -> Seq<char> {
    |i: nat| split_high_text(4 + i, r, i)
}

fn split_highs(r: usize, n: usize) -> (s: String)
    requires
        n + 4 <= usize::MAX,
    ensures
        s@ == rep(n as nat, split_highs_item(r as nat)),
{
    let mut s = String::new();
    for i in 0..n
        invariant
            s@ == rep(i as nat, split_highs_item(r as nat)),
            n + 4 <= usize::MAX,
    {
        s.append(split_high(4 + i, r, i).as_str());
    }
    s
}

/// Load `i` of round `r` at a loop-counter address.
pub open spec fn early_load_text(r: nat, i: nat, off: nat) -> Seq<char> {
    "    let t"@ + dec(r) + dec(i) + " = tile[((idx + "@ + dec(off) + "u) & 1023u)];\n"@
}

fn early_load(r: usize, i: usize, off: usize) -> (s: String)
    ensures
        s@ == early_load_text(r as nat, i as nat, off as nat),
{
    let mut s = lit("    let t");
    push_dec(&mut s, r);
    push_dec(&mut s, i);
    s.append(" = tile[((idx + ");
    push_dec(&mut s, off);
    s.append("u) & 1023u)];\n");
    s
}

/// The loads of round `r` at loop-counter addresses.
pub open spec fn early_loads_item(r: nat) -> spec_fn(nat) -> Seq<char> {
    |i: nat| early_load_text(r, i, r * 17 + i * 3)
}

fn early_loads(r: usize, n: usize) -> (s: String)
    requires
        r * 17 + n * 3 <= usize::MAX,
    ensures
        s@ == rep(n as nat, early_loads_item(r as nat)),
{
    let mut s = String::new();
    for i in 0..n
        invariant
            s@ == rep(i as nat, early_loads_item(r as nat)),
            r * 17 + n * 3 <= usize::MAX,
    {
        let off: usize = r * 17 + i * 3;
        s.append(early_load(r, i, off).as_str());
    }
    s
}

/// Folds load `i` of round `r` into chain `i`.
pub open spec fn early_use_text(r: nat, i: nat) -> Seq<char> {
    "    c"@ + dec(i) + " = fma(c"@ + dec(i) + ", t"@ + dec(r) + dec(i) + ", b);\n"@
}

fn early_use(r: usize, i: usize) -> (s: String)
    ensures
        s@ == early_use_text(r as nat, i as nat),
{
    let mut s = lit("    c");
    push_dec(&mut s, i);
    s.append(" = fma(c");
    push_dec(&mut s, i);
    s.append(", t");
    push_dec(&mut s, r);
    push_dec(&mut s, i);
    s.append(", b);\n");
    s
}

/// Folds the loads of round `r`.
pub open spec fn early_uses_item(r: nat) -> spec_fn(nat) -> Seq<char> {
    |i: nat| early_use_text(r, i)
}

fn early_uses(r: usize, n: usize) -> (s: String)
    ensures
        s@ == rep(n as nat, early_uses_item(r as nat)),
{
    let mut s = String::new();
    for i in 0..n
        invariant
            s@ == rep(i as nat, early_uses_item(r as nat)),
    {
        s.append(early_use(r, i).as_str());
    }
    s
}

/// Whether round `r` carries the loads of arm `mix`: the loop-counter loads go two
/// to a round, those of any other arm come once per iteration, in the first.
pub open spec fn carries(mix: nat, r: nat) -> bool {
    mix == 99 || r == 0
}

/// The shared loads of arm `mix` in round `r`, and what consumes them.
pub open spec fn arm_text(mix: nat, r: nat) -> Seq<char> {
    if mix == 4 {
        rep(4, vec_loads_item(r)) + rep(4, vec_uses_item(r))
    } else if mix == 16 {
        rep(16, word_loads_item(r)) + rep(16, word_uses_item(r))
    } else if mix == 8 {
        rep(2, split_vec_loads_item(r)) + rep(8, split_word_loads_item(r)) + rep(4, split_lows_item(r)) + rep(
            4,
            split_highs_item(r),
        ) + rep(8, word_uses_item(r))
    } else if mix == 99 {
        rep(2, early_loads_item(r)) + rep(2, early_uses_item(r))
    } else {
        Seq::empty()
    }
}

fn arm_lines(mix: usize, r: usize) -> (s: String)
    requires
        r < 4,
    ensures
        s@ == arm_text(mix as nat, r as nat),
{
    if mix == 4 {
        let mut s = vec_loads(r, 4);
        s.append(vec_uses(r, 4).as_str());
        s
    } else if mix == 16 {
        let mut s = word_loads(r, 16);
        s.append(word_uses(r, 16).as_str());
        s
    } else if mix == 8 {
        let mut s = split_vec_loads(r, 2);
        s.append(split_word_loads(r, 8).as_str());
        s.append(split_lows(r, 4).as_str());
        s.append(split_highs(r, 4).as_str());
        s.append(word_uses(r, 8).as_str());
        s
    } else if mix == 99 {
        let mut s = early_loads(r, 2);
        s.append(early_uses(r, 2).as_str());
        s
    } else {
        String::new()
    }
}

/// One round: every chain advances, then come the arm's own lines.
pub open spec fn rounds_item(mix: nat) -> spec_fn(nat) -> Seq<char> {
    |r: nat|
        rep(16, chain_lines_item()) + if carries(mix, r) {
            arm_text(mix, r)
        } else {
            Seq::empty()
        }
}

/// One iteration of the loop: four rounds.
pub open spec fn body_text(mix: nat) -> Seq<char> {
    rep(4, rounds_item(mix))
}

fn body(mix: usize) -> (s: String)
    ensures
        s@ == body_text(mix as nat),
{
    let mut s = String::new();
    for r in 0..4usize
        invariant
            s@ == rep(r as nat, rounds_item(mix as nat)),
    {
        let mut t = chain_lines(16);
        let more = if mix == 99 || r == 0 {
            arm_lines(mix, r)
        } else {
            String::new()
        };
        t.append(more.as_str());
        s.append(t.as_str());
    }
    s
}

/// The multiply-adds of one iteration: the lines that advance a chain.
pub open spec fn fma_lines(mix: nat) -> Seq<Seq<char>> {
    picked(body_text(mix), "    c"@)
}

/// The shared loads of one iteration: the lines that bind a value.
pub open spec fn load_lines(mix: nat) -> Seq<Seq<char>> {
    picked(body_text(mix), "    let "@)
}

/// The shared tiles of arm `mix`.
pub open spec fn tile_decl_text(mix: nat) -> Seq<char> {
    if mix == 0 {
        Seq::empty()
    } else if mix == 4 {
        "var<workgroup> tile: array<vec4<f32>, 512>;\n"@
    } else if mix == 8 {
        "var<workgroup> tileA: array<vec4<f32>, 512>;\nvar<workgroup> tileB: array<f32, 1024>;\n"@
    } else {
        "var<workgroup> tile: array<f32, 1024>;\n"@
    }
}

fn tile_decl(mix: usize) -> (s: String)
    ensures
        s@ == tile_decl_text(mix as nat),
{
    if mix == 0 {
        String::new()
    } else if mix == 4 {
        lit("var<workgroup> tile: array<vec4<f32>, 512>;\n")
    } else if mix == 8 {
        lit("var<workgroup> tileA: array<vec4<f32>, 512>;\nvar<workgroup> tileB: array<f32, 1024>;\n")
    } else {
        lit("var<workgroup> tile: array<f32, 1024>;\n")
    }
}

/// Fills one vector of a tile.
pub open spec fn vec_fill_text(name: Seq<char>, off: nat) -> Seq<char> {
    "  "@ + name + "[lid.x + "@ + dec(off) + "u] = vec4<f32>(f32(lid.x) * 1e-6);\n"@
}

fn vec_fill(name: &str, off: usize) -> (s: String)
    ensures
        s@ == vec_fill_text(name@, off as nat),
{
    let mut s = lit("  ");
    s.append(name);
    s.append("[lid.x + ");
    push_dec(&mut s, off);
    s.append("u] = vec4<f32>(f32(lid.x) * 1e-6);\n");
    s
}

/// Fills a vector tile.
pub open spec fn vec_fills_item(name: Seq<char>) -> spec_fn(nat) -> Seq<char> {
    |i: nat| vec_fill_text(name, i * 256)
}

fn vec_fills(name: &str, n: usize) -> (s: String)
    requires
        n * 256 <= usize::MAX,
    ensures
        s@ == rep(n as nat, vec_fills_item(name@)),
{
    let mut s = String::new();
    for i in 0..n
        invariant
            s@ == rep(i as nat, vec_fills_item(name@)),
            n * 256 <= usize::MAX,
    {
        let off: usize = i * 256;
        s.append(vec_fill(name, off).as_str());
    }
    s
}

/// Fills one word of a tile.
pub open spec fn word_fill_text(name: Seq<char>, off: nat) -> Seq<char> {
    "  "@ + name + "[lid.x + "@ + dec(off) + "u] = f32(lid.x) * 1e-6;\n"@
}

fn word_fill(name: &str, off: usize) -> (s: String)
    ensures
        s@ == word_fill_text(name@, off as nat),
{
    let mut s = lit("  ");
    s.append(name);
    s.append("[lid.x + ");
    push_dec(&mut s, off);
    s.append("u] = f32(lid.x) * 1e-6;\n");
    s
}

/// Fills a scalar tile.
pub open spec fn word_fills_item(name: Seq<char>) -> spec_fn(nat) -> Seq<char> {
    |i: nat| word_fill_text(name, i * 256)
}

fn word_fills(name: &str, n: usize) -> (s: String)
    requires
        n * 256 <= usize::MAX,
    ensures
        s@ == rep(n as nat, word_fills_item(name@)),
{
    let mut s = String::new();
    for i in 0..n
        invariant
            s@ == rep(i as nat, word_fills_item(name@)),
            n * 256 <= usize::MAX,
    {
        let off: usize = i * 256;
        s.append(word_fill(name, off).as_str());
    }
    s
}

/// Fills the shared tiles of arm `mix`.
pub open spec fn fill_text(mix: nat) -> Seq<char> {
    if mix == 0 {
        Seq::empty()
    } else if mix == 4 {
        rep(2, vec_fills_item("tile"@))
    } else if mix == 8 {
        rep(2, vec_fills_item("tileA"@)) + rep(4, word_fills_item("tileB"@))
    } else {
        rep(4, word_fills_item("tile"@))
    }
}

fn fill(mix: usize) -> (s: String)
    ensures
        s@ == fill_text(mix as nat),
{
    if mix == 0 {
        String::new()
    } else if mix == 4 {
        vec_fills("tile", 2)
    } else if mix == 8 {
        let mut s = vec_fills("tileA", 2);
        s.append(word_fills("tileB", 4).as_str());
        s
    } else {
        word_fills("tile", 4)
    }
}

/// The probe kernel of arm `mix`.
pub open spec fn shader_text(mix: nat) -> Seq<char> {
    "@group(0) @binding(0) var<storage, read_write> out: array<f32>;\n"@ + tile_decl_text(mix)
        + "\nconst ITERS: u32 = 4096u;\n\n@compute @workgroup_size(256)\nfn main(@builtin(local_invocation_id) lid: vec3<u32>,\n        @builtin(workgroup_id) wid: vec3<u32>) {\n"@
        + fill_text(mix) + rep(16, decl_lines_item()) + rep(16, init_lines_item())
        + "\n  let a = 1.0000001 + f32(wid.x) * 1e-12;\n  let b = 1.0000002 + f32(lid.x) * 1e-12;\n  var idx = 0u;\n  loop {\n    if (idx >= ITERS) { break; }\n"@
        + body_text(mix) + "    idx = idx + 1u;\n  }\n  var s = 0.0;\n"@ + rep(16, sink_lines_item())
        + "  if (s == 1.2345e30) { out[wid.x * 256u + lid.x] = s; }\n}\n"@
}

/// Generates the kernel of arm `mix`: 0 is arithmetic alone, 4 adds four vector
/// loads per iteration, 16 sixteen scalar loads, 8 the GEMM's own split of two
/// vector and eight scalar loads, 99 eight loads at loop-counter addresses.
pub fn shader(mix: usize) -> (s: String)
    ensures
        s@ == shader_text(mix as nat),
{
    let mut s = lit("@group(0) @binding(0) var<storage, read_write> out: array<f32>;\n");
    s.append(tile_decl(mix).as_str());
    s.append(
        "\nconst ITERS: u32 = 4096u;\n\n@compute @workgroup_size(256)\nfn main(@builtin(local_invocation_id) lid: vec3<u32>,\n        @builtin(workgroup_id) wid: vec3<u32>) {\n",
    );
    s.append(fill(mix).as_str());
    s.append(decl_lines(16).as_str());
    s.append(init_lines(16).as_str());
    s.append(
        "\n  let a = 1.0000001 + f32(wid.x) * 1e-12;\n  let b = 1.0000002 + f32(lid.x) * 1e-12;\n  var idx = 0u;\n  loop {\n    if (idx >= ITERS) { break; }\n",
    );
    s.append(body(mix).as_str());
    s.append("    idx = idx + 1u;\n  }\n  var s = 0.0;\n");
    s.append(sink_lines(16).as_str());
    s.append("  if (s == 1.2345e30) { out[wid.x * 256u + lid.x] = s; }\n}\n");
    s
}

/// Multiply-adds of one loop iteration of arm `mix`: the 64 of the chains plus
/// one for each loaded value.
pub fn fma_per_iter(mix: usize) -> (n: u32)
    ensures
        n == (if mix == 4 || mix == 8 || mix == 16 {
            80u32
        } else if mix == 99 {
            72u32
        } else {
            64u32
        }),
        n == fma_lines(mix as nat).len(),
{
    proof {
        law_arm_counts(mix as nat);
    }
    if mix == 4 || mix == 8 || mix == 16 {
        80
    } else if mix == 99 {
        72
    } else {
        64
    }
}

/// What arm `mix` measures, in words.
pub open spec fn arm_name(mix: nat) -> Seq<char> {
    if mix == 4 {
        "4 vec4 shared loads + 80 FMA per iteration"@
    } else if mix == 8 {
        "2 vec4 (A) + 8 scalar (B) shared loads + 80 FMA per iteration"@
    } else if mix == 16 {
        "16 scalar shared loads + 80 FMA per iteration"@
    } else if mix == 99 {
        "the original 8-load arm (address depends on c0 -- see below)"@
    } else {
        "pure FFMA, no memory, 16 chains x 4 rounds"@
    }
}

/// Names arm `mix` for the report.
pub fn arm(mix: usize) -> (s: String)
    ensures
        s@ == arm_name(mix as nat),
{
    if mix == 4 {
        lit("4 vec4 shared loads + 80 FMA per iteration")
    } else if mix == 8 {
        lit("2 vec4 (A) + 8 scalar (B) shared loads + 80 FMA per iteration")
    } else if mix == 16 {
        lit("16 scalar shared loads + 80 FMA per iteration")
    } else if mix == 99 {
        lit("the original 8-load arm (address depends on c0 -- see below)")
    } else {
        lit("pure FFMA, no memory, 16 chains x 4 rounds")
    }
}

} // verus!
