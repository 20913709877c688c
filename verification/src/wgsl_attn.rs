//! Generator of the split-attention stage-1 kernel variants that the attention
//! benchmark compares.
//!
//! Stage 1 takes one dot product of a key row with two query rows per thread.
//! The variants differ in how the sixteen loads of a key row are scheduled. The
//! depth of the loads leaves the arithmetic alone: the same operands are added in
//! the same order.
use vstd::prelude::*;
use vstd::string::*;

use crate::text::{dec, lit, push_dec, rep};

verus! {

/// Chunks (four words) of one key row.
pub const D4: usize = 16;

/// Threads of a workgroup.
pub const BS: usize = 256;

/// The component name of word `sub` of a chunk.
pub open spec fn lane_text(sub: nat) -> Seq<char> {
    if sub == 0 {
        "x"@
    } else if sub == 1 {
        "y"@
    } else if sub == 2 {
        "z"@
    } else {
        "w"@
    }
}

fn lane(sub: usize) -> (s: String)
    ensures
        s@ == lane_text(sub as nat),
{
    if sub == 0 {
        lit("x")
    } else if sub == 1 {
        lit("y")
    } else if sub == 2 {
        lit("z")
    } else {
        lit("w")
    }
}

/// One term of the dot product, on the operand `r`: `h = h + (r.x * k.x + r.y * k.y)`.
pub open spec fn term_text(h: Seq<char>, r: Seq<char>, p: nat, j: nat, sub: nat) -> Seq<char> {
    "            "@
        + h
        + " = "@
        + h
        + " + ("@
        + r
        + dec(p)
        + "_"@
        + dec(j)
        + "_"@
        + dec(sub)
        + ".x * k"@
        + dec(p)
        + "_"@
        + dec(j)
        + "_"@
        + dec(sub)
        + ".x + "@
        + r
        + dec(p)
        + "_"@
        + dec(j)
        + "_"@
        + dec(sub)
        + ".y * k"@
        + dec(p)
        + "_"@
        + dec(j)
        + "_"@
        + dec(sub)
        + ".y);\n"@
}

fn term_line(h: &str, r: &str, p: usize, j: usize, sub: usize) -> (s: String)
    ensures
        s@ == term_text(h@, r@, p as nat, j as nat, sub as nat),
{
    let mut s = lit("            ");
    s.append(h);
    s.append(" = ");
    s.append(h);
    s.append(" + (");
    s.append(r);
    push_dec(&mut s, p);
    s.append("_");
    push_dec(&mut s, j);
    s.append("_");
    push_dec(&mut s, sub);
    s.append(".x * k");
    push_dec(&mut s, p);
    s.append("_");
    push_dec(&mut s, j);
    s.append("_");
    push_dec(&mut s, sub);
    s.append(".x + ");
    s.append(r);
    push_dec(&mut s, p);
    s.append("_");
    push_dec(&mut s, j);
    s.append("_");
    push_dec(&mut s, sub);
    s.append(".y * k");
    push_dec(&mut s, p);
    s.append("_");
    push_dec(&mut s, j);
    s.append("_");
    push_dec(&mut s, sub);
    s.append(".y);\n");
    s
}

/// One term on the operand of the first query row.
pub fn add_line(h: &str, p: usize, j: usize, sub: usize) -> (s: String)
    ensures
        s@ == term_text(h@, "a"@, p as nat, j as nat, sub as nat),
{
    term_line(h, "a", p, j, sub)
}

/// Unpacks word `sub` of key chunk `j`.
pub open spec fn key_word_text(p: nat, j: nat, sub: nat) -> Seq<char> {
    "            let k"@
        + dec(p)
        + "_"@
        + dec(j)
        + "_"@
        + dec(sub)
        + " = unpack2x16float(kv"@
        + dec(p)
        + "_"@
        + dec(j)
        + "."@
        + lane_text(sub)
        + ");\n"@
}

fn key_word(p: usize, j: usize, sub: usize) -> (s: String)
    ensures
        s@ == key_word_text(p as nat, j as nat, sub as nat),
{
    let mut s = lit("            let k");
    push_dec(&mut s, p);
    s.append("_");
    push_dec(&mut s, j);
    s.append("_");
    push_dec(&mut s, sub);
    s.append(" = unpack2x16float(kv");
    push_dec(&mut s, p);
    s.append("_");
    push_dec(&mut s, j);
    s.append(".");
    s.append(lane(sub).as_str());
    s.append(");\n");
    s
}

/// Unpacks word `sub` of the chunk of query row `r`.
pub open spec fn query_word_text(r: Seq<char>, p: nat, j: nat, sub: nat) -> Seq<char> {
    "            let "@
        + r
        + dec(p)
        + "_"@
        + dec(j)
        + "_"@
        + dec(sub)
        + " = unpack2x16float(q"@
        + r
        + "."@
        + lane_text(sub)
        + ");\n"@
}

fn query_word(r: &str, p: usize, j: usize, sub: usize) -> (s: String)
    ensures
        s@ == query_word_text(r@, p as nat, j as nat, sub as nat),
{
    let mut s = lit("            let ");
    s.append(r);
    push_dec(&mut s, p);
    s.append("_");
    push_dec(&mut s, j);
    s.append("_");
    push_dec(&mut s, sub);
    s.append(" = unpack2x16float(q");
    s.append(r);
    s.append(".");
    s.append(lane(sub).as_str());
    s.append(");\n");
    s
}

/// Unpacks key chunk `j` and the first query chunk.
pub open spec fn key_lines_item(p: nat, j: nat) -> spec_fn(nat) -> Seq<char> {
    |sub: nat| key_word_text(p, j, sub) + query_word_text("a"@, p, j, sub)
}

fn key_lines(p: usize, j: usize, n: usize) -> (s: String)
    ensures
        s@ == rep(n as nat, key_lines_item(p as nat, j as nat)),
{
    let mut s = String::new();
    for sub in 0..n
        invariant
            s@ == rep(sub as nat, key_lines_item(p as nat, j as nat)),
    {
        let mut t = key_word(p, j, sub);
        t.append(query_word("a", p, j, sub).as_str());
        s.append(t.as_str());
    }
    s
}

/// The accumulator of row `p`.
pub open spec fn acc_name_text(pre: Seq<char>, p: nat) -> Seq<char> {
    pre + dec(p)
}

fn acc_name(pre: &str, p: usize) -> (s: String)
    ensures
        s@ == acc_name_text(pre@, p as nat),
{
    let mut s = lit(pre);
    push_dec(&mut s, p);
    s
}

/// The four terms of chunk `j` on the operand `r`.
pub open spec fn add_lines_item(h: Seq<char>, r: Seq<char>, p: nat, j: nat) -> spec_fn(nat) -> Seq<char> {
    |sub: nat| term_text(h, r, p, j, sub)
}

fn add_lines(h: &str, r: &str, p: usize, j: usize, n: usize) -> (s: String)
    ensures
        s@ == rep(n as nat, add_lines_item(h@, r@, p as nat, j as nat)),
{
    let mut s = String::new();
    for sub in 0..n
        invariant
            s@ == rep(sub as nat, add_lines_item(h@, r@, p as nat, j as nat)),
    {
        s.append(term_line(h, r, p, j, sub).as_str());
    }
    s
}

/// Unpacks the second query chunk.
pub open spec fn query_lines_item(p: nat, j: nat) -> spec_fn(nat) -> Seq<char> {
    |sub: nat| query_word_text("b"@, p, j, sub)
}

fn query_lines(p: usize, j: usize, n: usize) -> (s: String)
    ensures
        s@ == rep(n as nat, query_lines_item(p as nat, j as nat)),
{
    let mut s = String::new();
    for sub in 0..n
        invariant
            s@ == rep(sub as nat, query_lines_item(p as nat, j as nat)),
    {
        s.append(query_word("b", p, j, sub).as_str());
    }
    s
}

/// Consumes chunk `j` of key row `p`: the first accumulator takes the terms of the
/// first query row, the second those of the second.
pub open spec fn consume_row_text(p: nat, j: nat) -> Seq<char> {
    rep(4, key_lines_item(p, j)) + rep(4, add_lines_item(acc_name_text("da"@, p), "a"@, p, j)) + rep(
        4,
        query_lines_item(p, j),
    ) + rep(4, add_lines_item(acc_name_text("db"@, p), "b"@, p, j))
}

fn consume_row(p: usize, j: usize) -> (s: String)
    ensures
        s@ == consume_row_text(p as nat, j as nat),
{
    let da = acc_name("da", p);
    let db = acc_name("db", p);
    let mut s = key_lines(p, j, 4);
    s.append(add_lines(da.as_str(), "a", p, j, 4).as_str());
    s.append(query_lines(p, j, 4).as_str());
    s.append(add_lines(db.as_str(), "b", p, j, 4).as_str());
    s
}

/// What consuming chunk `j` of row `p` emits.
pub open spec fn consume_item(j: nat) -> spec_fn(nat) -> Seq<char> {
    |p: nat| consume_row_text(p, j)
}

/// Consumes chunk `j` of `pin` key rows.
pub fn consume(pin: usize, j: usize) -> (s: String)
    ensures
        s@ == rep(pin as nat, consume_item(j as nat)),
{
    let mut s = String::new();
    for p in 0..pin
        invariant
            s@ == rep(p as nat, consume_item(j as nat)),
    {
        s.append(consume_row(p, j).as_str());
    }
    s
}

/// The token offset of row `p` of a thread.
pub open spec fn row_off_text(p: nat) -> Seq<char> {
    if p == 0 {
        Seq::empty()
    } else {
        " + "@ + dec(p * 256) + "u"@
    }
}

fn row_off(p: usize) -> (s: String)
    requires
        p * 256 <= usize::MAX,
    ensures
        s@ == row_off_text(p as nat),
{
    if p == 0 {
        String::new()
    } else {
        let mut s = lit(" + ");
        push_dec(&mut s, p * 256);
        s.append("u");
        s
    }
}

/// An accumulator of row `p`, at zero.
pub open spec fn acc_decl_text(pre: Seq<char>, p: nat) -> Seq<char> {
    "        var "@ + pre + dec(p) + " = 0.0;\n"@
}

fn acc_decl(pre: &str, p: usize) -> (s: String)
    ensures
        s@ == acc_decl_text(pre@, p as nat),
{
    let mut s = lit("        var ");
    s.append(pre);
    push_dec(&mut s, p);
    s.append(" = 0.0;\n");
    s
}

/// The key row address of row `p`, aimed at key row 0.
pub open spec fn row_zero_text(p: nat) -> Seq<char> {
    "        let row4_"@ + dec(p) + " = 0u;\n"@
}

fn row_zero(p: usize) -> (s: String)
    ensures
        s@ == row_zero_text(p as nat),
{
    let mut s = lit("        let row4_");
    push_dec(&mut s, p);
    s.append(" = 0u;\n");
    s
}

/// The key row address of row `p`.
pub open spec fn row_real_text(p: nat) -> Seq<char> {
    "        let row4_"@ + dec(p) + " = (kbase + (t_start + t"@ + row_off_text(p) + ") * D2) >> 2u;\n"@
}

fn row_real(p: usize) -> (s: String)
    requires
        p * 256 <= usize::MAX,
    ensures
        s@ == row_real_text(p as nat),
{
    let mut s = lit("        let row4_");
    push_dec(&mut s, p);
    s.append(" = (kbase + (t_start + t");
    s.append(row_off(p).as_str());
    s.append(") * D2) >> 2u;\n");
    s
}

/// The accumulators and the key row address of row `p`.
pub open spec fn row_decl_text(p: nat, row0: bool) -> Seq<char> {
    acc_decl_text("da"@, p) + acc_decl_text("db"@, p) + if row0 {
        row_zero_text(p)
    } else {
        row_real_text(p)
    }
}

/// The accumulators and key row addresses of all rows.
pub open spec fn row_decls_item(row0: bool) -> spec_fn(nat) -> Seq<char> {
    |p: nat| row_decl_text(p, row0)
}

fn row_decls(row0: bool, pin: usize) -> (s: String)
    requires
        pin * 256 <= usize::MAX,
    ensures
        s@ == rep(pin as nat, row_decls_item(row0)),
{
    let mut s = String::new();
    for p in 0..pin
        invariant
            s@ == rep(p as nat, row_decls_item(row0)),
            pin * 256 <= usize::MAX,
    {
        let mut d = acc_decl("da", p);
        d.append(acc_decl("db", p).as_str());
        let at = if row0 {
            row_zero(p)
        } else {
            row_real(p)
        };
        d.append(at.as_str());
        s.append(d.as_str());
    }
    s
}

/// One coalesced load.
pub open spec fn stream_load_text(i: nat) -> Seq<char> {
    "            let kv0_"@ + dec(i) + " = KC4[wb + "@ + dec(i) + "u * 256u + lid.x];\n"@
}

fn stream_load(i: usize) -> (s: String)
    ensures
        s@ == stream_load_text(i as nat),
{
    let mut s = lit("            let kv0_");
    push_dec(&mut s, i);
    s.append(" = KC4[wb + ");
    push_dec(&mut s, i);
    s.append("u * 256u + lid.x];\n");
    s
}

/// The coalesced loads.
pub open spec fn stream_loads_item() -> spec_fn(nat) -> Seq<char> {
    |i: nat| stream_load_text(i)
}

fn stream_loads(n: usize) -> (s: String)
    ensures
        s@ == rep(n as nat, stream_loads_item()),
{
    let mut s = String::new();
    for i in 0..n
        invariant
            s@ == rep(i as nat, stream_loads_item()),
    {
        s.append(stream_load(i).as_str());
    }
    s
}

/// Folds one coalesced load.
pub open spec fn stream_add_text(i: nat) -> Seq<char> {
    "            da0 = da0 + f32(kv0_"@
        + dec(i)
        + ".x & 0xFFFFu) + f32(kv0_"@
        + dec(i)
        + ".y & 0xFFFFu);\n"@
}

fn stream_add(i: usize) -> (s: String)
    ensures
        s@ == stream_add_text(i as nat),
{
    let mut s = lit("            da0 = da0 + f32(kv0_");
    push_dec(&mut s, i);
    s.append(".x & 0xFFFFu) + f32(kv0_");
    push_dec(&mut s, i);
    s.append(".y & 0xFFFFu);\n");
    s
}

/// Folds the coalesced loads.
pub open spec fn stream_adds_item() -> spec_fn(nat) -> Seq<char> {
    |i: nat| stream_add_text(i)
}

fn stream_adds(n: usize) -> (s: String)
    ensures
        s@ == rep(n as nat, stream_adds_item()),
{
    let mut s = String::new();
    for i in 0..n
        invariant
            s@ == rep(i as nat, stream_adds_item()),
    {
        s.append(stream_add(i).as_str());
    }
    s
}

/// The coalesced variant: the same bytes, read in address order.
pub open spec fn stream_text() -> Seq<char> {
    "        let wb = kbase + t_start * D2;\n        {\n"@ + rep(16, stream_loads_item()) + rep(16, stream_adds_item())
        + "        }\n"@
}

fn stream_body() -> (s: String)
    ensures
        s@ == stream_text(),
{
    let mut s = lit("        let wb = kbase + t_start * D2;\n        {\n");
    s.append(stream_loads(D4).as_str());
    s.append(stream_adds(D4).as_str());
    s.append("        }\n");
    s
}

/// Unpacks word `sub` in the rolled loop.
pub open spec fn slack_key_text(sub: nat) -> Seq<char> {
    "            let k"@
        + dec(sub)
        + " = unpack2x16float(kv."@
        + lane_text(sub)
        + ");\n            let a"@
        + dec(sub)
        + " = unpack2x16float(qa."@
        + lane_text(sub)
        + ");\n"@
}

fn slack_key(sub: usize) -> (s: String)
    ensures
        s@ == slack_key_text(sub as nat),
{
    let mut s = lit("            let k");
    push_dec(&mut s, sub);
    s.append(" = unpack2x16float(kv.");
    s.append(lane(sub).as_str());
    s.append(");\n            let a");
    push_dec(&mut s, sub);
    s.append(" = unpack2x16float(qa.");
    s.append(lane(sub).as_str());
    s.append(");\n");
    s
}

/// Unpacks the key and first query chunk in the rolled loop.
pub open spec fn slack_keys_item() -> spec_fn(nat) -> Seq<char> {
    |sub: nat| slack_key_text(sub)
}

fn slack_keys(n: usize) -> (s: String)
    ensures
        s@ == rep(n as nat, slack_keys_item()),
{
    let mut s = String::new();
    for sub in 0..n
        invariant
            s@ == rep(sub as nat, slack_keys_item()),
    {
        s.append(slack_key(sub).as_str());
    }
    s
}

/// One term of the dot product in the rolled loop.
pub open spec fn slack_add_text(h: Seq<char>, r: Seq<char>, sub: nat) -> Seq<char> {
    "            "@
        + h
        + " = "@
        + h
        + " + ("@
        + r
        + dec(sub)
        + ".x * k"@
        + dec(sub)
        + ".x + "@
        + r
        + dec(sub)
        + ".y * k"@
        + dec(sub)
        + ".y);\n"@
}

fn slack_add(h: &str, r: &str, sub: usize) -> (s: String)
    ensures
        s@ == slack_add_text(h@, r@, sub as nat),
{
    let mut s = lit("            ");
    s.append(h);
    s.append(" = ");
    s.append(h);
    s.append(" + (");
    s.append(r);
    push_dec(&mut s, sub);
    s.append(".x * k");
    push_dec(&mut s, sub);
    s.append(".x + ");
    s.append(r);
    push_dec(&mut s, sub);
    s.append(".y * k");
    push_dec(&mut s, sub);
    s.append(".y);\n");
    s
}

/// The four terms in the rolled loop.
pub open spec fn slack_adds_item(h: Seq<char>, r: Seq<char>) -> spec_fn(nat) -> Seq<char> {
    |sub: nat| slack_add_text(h, r, sub)
}

fn slack_adds(h: &str, r: &str, n: usize) -> (s: String)
    ensures
        s@ == rep(n as nat, slack_adds_item(h@, r@)),
{
    let mut s = String::new();
    for sub in 0..n
        invariant
            s@ == rep(sub as nat, slack_adds_item(h@, r@)),
    {
        s.append(slack_add(h, r, sub).as_str());
    }
    s
}

/// Unpacks word `sub` of the second query chunk in the rolled loop.
pub open spec fn slack_query_text(sub: nat) -> Seq<char> {
    "            let b"@ + dec(sub) + " = unpack2x16float(qb."@ + lane_text(sub) + ");\n"@
}

fn slack_query(sub: usize) -> (s: String)
    ensures
        s@ == slack_query_text(sub as nat),
{
    let mut s = lit("            let b");
    push_dec(&mut s, sub);
    s.append(" = unpack2x16float(qb.");
    s.append(lane(sub).as_str());
    s.append(");\n");
    s
}

/// Unpacks the second query chunk in the rolled loop.
pub open spec fn slack_queries_item() -> spec_fn(nat) -> Seq<char> {
    |sub: nat| slack_query_text(sub)
}

fn slack_queries(n: usize) -> (s: String)
    ensures
        s@ == rep(n as nat, slack_queries_item()),
{
    let mut s = String::new();
    for sub in 0..n
        invariant
            s@ == rep(sub as nat, slack_queries_item()),
    {
        s.append(slack_query(sub).as_str());
    }
    s
}

/// The rolled loop that holds one iteration of slack in registers.
pub open spec fn slack_text() -> Seq<char> {
    "        var kp = KC4[row4_0];\n        var qap = Q4[qa4];\n        var qbp = Q4[qb4];\n        for (var j4 = 0u; j4 < 16u; j4 = j4 + 1u) {\n            let kv = kp;\n            let qa = qap;\n            let qb = qbp;\n            let jn = min(j4 + 1u, 15u);\n            kp = KC4[row4_0 + jn];\n            qap = Q4[qa4 + jn];\n            qbp = Q4[qb4 + jn];\n"@
        + rep(4, slack_keys_item()) + rep(4, slack_adds_item("da0"@, "a"@)) + rep(4, slack_queries_item()) + rep(
        4,
        slack_adds_item("db0"@, "b"@),
    ) + "        }\n"@
}

fn slack_body() -> (s: String)
    ensures
        s@ == slack_text(),
{
    let mut s = lit(
        "        var kp = KC4[row4_0];\n        var qap = Q4[qa4];\n        var qbp = Q4[qb4];\n        for (var j4 = 0u; j4 < 16u; j4 = j4 + 1u) {\n            let kv = kp;\n            let qa = qap;\n            let qb = qbp;\n            let jn = min(j4 + 1u, 15u);\n            kp = KC4[row4_0 + jn];\n            qap = Q4[qa4 + jn];\n            qbp = Q4[qb4 + jn];\n",
    );
    s.append(slack_keys(4).as_str());
    s.append(slack_adds("da0", "a", 4).as_str());
    s.append(slack_queries(4).as_str());
    s.append(slack_adds("db0", "b", 4).as_str());
    s.append("        }\n");
    s
}

/// Loads key chunk `j` of row `p`.
pub open spec fn key_load_text(p: nat, j: nat) -> Seq<char> {
    "            let kv"@
        + dec(p)
        + "_"@
        + dec(j)
        + " = KC4[row4_"@
        + dec(p)
        + " + "@
        + dec(j)
        + "u];\n"@
}

fn key_load(p: usize, j: usize) -> (s: String)
    ensures
        s@ == key_load_text(p as nat, j as nat),
{
    let mut s = lit("            let kv");
    push_dec(&mut s, p);
    s.append("_");
    push_dec(&mut s, j);
    s.append(" = KC4[row4_");
    push_dec(&mut s, p);
    s.append(" + ");
    push_dec(&mut s, j);
    s.append("u];\n");
    s
}

/// Loads key chunk `j` of all rows.
pub open spec fn key_loads_item(j: nat) -> spec_fn(nat) -> Seq<char> {
    |p: nat| key_load_text(p, j)
}

fn key_loads(j: usize, pin: usize) -> (s: String)
    ensures
        s@ == rep(pin as nat, key_loads_item(j as nat)),
{
    let mut s = String::new();
    for p in 0..pin
        invariant
            s@ == rep(p as nat, key_loads_item(j as nat)),
    {
        s.append(key_load(p, j).as_str());
    }
    s
}

/// Loads query chunk `j` of query row `r`.
pub open spec fn query_load_text(r: Seq<char>, j: nat) -> Seq<char> {
    "            let q"@ + r + " = Q4[q"@ + r + "4 + "@ + dec(j) + "u];\n"@
}

fn query_load(r: &str, j: usize) -> (s: String)
    ensures
        s@ == query_load_text(r@, j as nat),
{
    let mut s = lit("            let q");
    s.append(r);
    s.append(" = Q4[q");
    s.append(r);
    s.append("4 + ");
    push_dec(&mut s, j);
    s.append("u];\n");
    s
}

/// Loads query chunk `j` of both query rows.
pub open spec fn query_loads_text(j: nat) -> Seq<char> {
    query_load_text("a"@, j) + query_load_text("b"@, j)
}

fn query_loads(j: usize) -> (s: String)
    ensures
        s@ == query_loads_text(j as nat),
{
    let mut s = query_load("a", j);
    s.append(query_load("b", j).as_str());
    s
}

/// One interleaved step: load chunk `j`, consume it.
pub open spec fn interleave_text(pin: nat, j: nat) -> Seq<char> {
    "        {\n"@ + rep(pin, key_loads_item(j)) + query_loads_text(j) + rep(pin, consume_item(j)) + "        }\n"@
}

fn interleave(pin: usize, j: usize) -> (s: String)
    ensures
        s@ == interleave_text(pin as nat, j as nat),
{
    let mut s = lit("        {\n");
    s.append(key_loads(j, pin).as_str());
    s.append(query_loads(j).as_str());
    s.append(consume(pin, j).as_str());
    s.append("        }\n");
    s
}

/// The interleaved steps.
pub open spec fn interleaves_item(pin: nat) -> spec_fn(nat) -> Seq<char> {
    |j: nat| interleave_text(pin, j)
}

fn interleaves(pin: usize, n: usize) -> (s: String)
    ensures
        s@ == rep(n as nat, interleaves_item(pin as nat)),
{
    let mut s = String::new();
    for j in 0..n
        invariant
            s@ == rep(j as nat, interleaves_item(pin as nat)),
    {
        s.append(interleave(pin, j).as_str());
    }
    s
}

/// Loads the chunks of a window of row `p`.
pub open spec fn window_loads_item(p: nat, j0: nat) -> spec_fn(nat) -> Seq<char> {
    |k: nat| key_load_text(p, j0 + k)
}

fn window_loads(p: usize, j0: usize, d: usize) -> (s: String)
    requires
        j0 + d <= usize::MAX,
    ensures
        s@ == rep(d as nat, window_loads_item(p as nat, j0 as nat)),
{
    let mut s = String::new();
    for k in 0..d
        invariant
            s@ == rep(k as nat, window_loads_item(p as nat, j0 as nat)),
            j0 + d <= usize::MAX,
    {
        s.append(key_load(p, j0 + k).as_str());
    }
    s
}

/// Loads the chunks of a window of all rows.
pub open spec fn window_rows_item(j0: nat, d: nat) -> spec_fn(nat) -> Seq<char> {
    |p: nat| rep(d, window_loads_item(p, j0))
}

fn window_rows(j0: usize, d: usize, pin: usize) -> (s: String)
    requires
        j0 + d <= usize::MAX,
    ensures
        s@ == rep(pin as nat, window_rows_item(j0 as nat, d as nat)),
{
    let mut s = String::new();
    for p in 0..pin
        invariant
            s@ == rep(p as nat, window_rows_item(j0 as nat, d as nat)),
            j0 + d <= usize::MAX,
    {
        s.append(window_loads(p, j0, d).as_str());
    }
    s
}

/// Consumes one chunk of a window.
pub open spec fn window_use_text(pin: nat, j: nat) -> Seq<char> {
    "            {\n"@ + query_loads_text(j) + rep(pin, consume_item(j)) + "            }\n"@
}

fn window_use(pin: usize, j: usize) -> (s: String)
    ensures
        s@ == window_use_text(pin as nat, j as nat),
{
    let mut s = lit("            {\n");
    s.append(query_loads(j).as_str());
    s.append(consume(pin, j).as_str());
    s.append("            }\n");
    s
}

/// Consumes the chunks of a window.
pub open spec fn window_uses_item(pin: nat, j0: nat) -> spec_fn(nat) -> Seq<char> {
    |k: nat| window_use_text(pin, j0 + k)
}

fn window_uses(pin: usize, j0: usize, d: usize) -> (s: String)
    requires
        j0 + d <= usize::MAX,
    ensures
        s@ == rep(d as nat, window_uses_item(pin as nat, j0 as nat)),
{
    let mut s = String::new();
    for k in 0..d
        invariant
            s@ == rep(k as nat, window_uses_item(pin as nat, j0 as nat)),
            j0 + d <= usize::MAX,
    {
        s.append(window_use(pin, j0 + k).as_str());
    }
    s
}

/// The number of windows of `depth` chunks that cover a key row.
pub open spec fn windows(depth: nat) -> nat {
    if depth >= 16 {
        1
    } else {
        (15 + depth) / depth
    }
}

/// The number of chunks in the window that begins at chunk `j0`.
pub open spec fn window_len(depth: nat, j0: nat) -> nat {
    if depth <= 16 - j0 {
        depth
    } else {
        (16 - j0) as nat
    }
}

/// One window: load its chunks, then consume them.
pub open spec fn window_text(pin: nat, j0: nat, d: nat) -> Seq<char> {
    "        {\n"@ + rep(pin, window_rows_item(j0, d)) + rep(d, window_uses_item(pin, j0)) + "        }\n"@
}

fn window(pin: usize, j0: usize, d: usize) -> (s: String)
    requires
        j0 + d <= usize::MAX,
    ensures
        s@ == window_text(pin as nat, j0 as nat, d as nat),
{
    let mut s = lit("        {\n");
    s.append(window_rows(j0, d, pin).as_str());
    s.append(window_uses(pin, j0, d).as_str());
    s.append("        }\n");
    s
}

/// What window `w` emits.
pub open spec fn windowed_item(pin: nat, depth: nat) -> spec_fn(nat) -> Seq<char> {
    |w: nat| window_text(pin, w * depth, window_len(depth, w * depth))
}

fn windowed(pin: usize, depth: usize) -> (s: String)
    requires
        depth > 0,
    ensures
        s@ == rep(windows(depth as nat), windowed_item(pin as nat, depth as nat)),
{
    let mut s = String::new();
    let mut j0: usize = 0;
    let mut w: usize = 0;
    proof {
        if depth < 16 {
            assert(1 <= (15 + depth) / (depth as int) <= 15 + depth) by (nonlinear_arith)
                requires
                    depth > 0,
            ;
        }
    }
    while j0 < D4
        invariant
            depth > 0,
            w <= windows(depth as nat),
            windows(depth as nat) <= 31,
            w < windows(depth as nat) ==> j0 == w * depth && j0 < 16,
            w == windows(depth as nat) ==> j0 == 16,
            s@ == rep(w as nat, windowed_item(pin as nat, depth as nat)),
        decreases 16 - j0,
    {
        let d: usize = if depth < D4 - j0 {
            depth
        } else {
            D4 - j0
        };
        s.append(window(pin, j0, d).as_str());
        proof {
            let n = windows(depth as nat);
            if depth < 16 {
                assert((w + 1) * depth == w * depth + depth) by (nonlinear_arith);
                assert(n == (15 + depth) / (depth as int));
                assert(n * depth >= 16 && (n - 1) * depth < 16) by (nonlinear_arith)
                    requires
                        n == (15 + depth) / (depth as int),
                        0 < depth < 16,
                ;
                if w + 1 < n {
                    assert((w + 1) * depth <= (n - 1) * depth) by (nonlinear_arith)
                        requires
                            w + 1 <= n - 1,
                    ;
                } else {
                    assert((w + 1) * depth >= 16);
                }
            } else {
                assert(w == 0);
                assert(0 * depth == 0) by (nonlinear_arith);
            }
        }
        j0 = j0 + d;
        w = w + 1;
    }
    s
}

/// The stage-1 schedule that the arguments select.
pub open spec fn schedule_text(pin: nat, depth: nat, pf: bool, stream: bool) -> Seq<char> {
    if stream {
        stream_text()
    } else if pf {
        slack_text()
    } else if depth == 0 {
        rep(16, interleaves_item(pin))
    } else {
        rep(windows(depth), windowed_item(pin, depth))
    }
}

fn schedule(pin: usize, depth: usize, pf: bool, stream: bool) -> (s: String)
    ensures
        s@ == schedule_text(pin as nat, depth as nat, pf, stream),
{
    if stream {
        stream_body()
    } else if pf {
        slack_body()
    } else if depth == 0 {
        interleaves(pin, D4)
    } else {
        windowed(pin, depth)
    }
}

/// Stores the score of row `p` against query row `r`.
pub open spec fn score_text(r: Seq<char>, p: nat) -> Seq<char> {
    "        sc_"@ + r + "[t"@ + row_off_text(p) + "] = d"@ + r + dec(p) + " * cfg.scale;\n"@
}

fn score(r: &str, p: usize) -> (s: String)
    requires
        p * 256 <= usize::MAX,
    ensures
        s@ == score_text(r@, p as nat),
{
    let mut s = lit("        sc_");
    s.append(r);
    s.append("[t");
    s.append(row_off(p).as_str());
    s.append("] = d");
    s.append(r);
    push_dec(&mut s, p);
    s.append(" * cfg.scale;\n");
    s
}

/// Stores the two scores of row `p`.
pub open spec fn score_store_text(p: nat) -> Seq<char> {
    score_text("a"@, p) + score_text("b"@, p)
}

fn score_store(p: usize) -> (s: String)
    requires
        p * 256 <= usize::MAX,
    ensures
        s@ == score_store_text(p as nat),
{
    let mut s = score("a", p);
    s.append(score("b", p).as_str());
    s
}

/// Stores the scores of all rows.
pub open spec fn score_stores_item() -> spec_fn(nat) -> Seq<char> {
    |p: nat| score_store_text(p)
}

fn score_stores(pin: usize) -> (s: String)
    requires
        pin * 256 <= usize::MAX,
    ensures
        s@ == rep(pin as nat, score_stores_item()),
{
    let mut s = String::new();
    for p in 0..pin
        invariant
            s@ == rep(p as nat, score_stores_item()),
            pin * 256 <= usize::MAX,
    {
        s.append(score_store(p).as_str());
    }
    s
}

/// The loop header over the tokens of a chunk, `pin` rows per thread.
pub open spec fn token_loop_text(pin: nat) -> Seq<char> {
    if pin == 1 {
        "    for (var t = lid.x; t < chunk_len; t = t + BS) {\n"@
    } else {
        "    for (var t = lid.x; t + 256u < chunk_len; t = t + "@ + dec(256 * pin) + "u) {\n"@
    }
}

fn token_loop(pin: usize) -> (s: String)
    requires
        pin * 256 <= usize::MAX,
    ensures
        s@ == token_loop_text(pin as nat),
{
    if pin == 1 {
        lit("    for (var t = lid.x; t < chunk_len; t = t + BS) {\n")
    } else {
        let mut s = lit("    for (var t = lid.x; t + 256u < chunk_len; t = t + ");
        push_dec(&mut s, BS * pin);
        s.append("u) {\n");
        s
    }
}

/// The stage-1 body.
pub open spec fn stage1_text(pin: nat, depth: nat, pf: bool, row0: bool, stream: bool) -> Seq<char> {
    token_loop_text(pin) + rep(pin, row_decls_item(row0)) + schedule_text(pin, depth, pf, stream) + rep(
        pin,
        score_stores_item(),
    ) + "    }\n"@
}

/// Generates the stage-1 body for `pin` key rows per thread.
///
/// `stream` reads the keys in address order, `pf` keeps the loop rolled with one
/// iteration of slack, `depth == 0` interleaves loads and arithmetic and any
/// other `depth` issues that many loads before consuming any of them. `row0`
/// aims every read at key row 0.
pub fn stage1(pin: usize, depth: usize, pf: bool, row0: bool, stream: bool) -> (s: String)
    requires
        pin * 256 <= usize::MAX,
    ensures
        s@ == stage1_text(pin as nat, depth as nat, pf, row0, stream),
{
    let mut s = token_loop(pin);
    s.append(row_decls(row0, pin).as_str());
    s.append(schedule(pin, depth, pf, stream).as_str());
    s.append(score_stores(pin).as_str());
    s.append("    }\n");
    s
}

/// Everything before the stage-1 body.
pub open spec fn kernel_head_text(chunk: nat) -> Seq<char> {
    "struct Cfg { cur_len: u32, max_seq: u32, scale: f32, n_chunks: u32 };\n\n@group(0) @binding(0) var<storage, read>       Q4:   array<vec4<u32>>;\n@group(0) @binding(1) var<storage, read>       KC4:  array<vec4<u32>>;\n@group(0) @binding(2) var<storage, read_write> Out:  array<f32>;\n@group(0) @binding(3) var<uniform>             cfg:  Cfg;\n\nconst D2: u32 = 64u;\nconst CHUNK: u32 = "@
        + dec(chunk)
        + "u;\nconst BS: u32 = 256u;\n\nvar<workgroup> sc_a: array<f32, "@
        + dec(chunk)
        + "u>;\nvar<workgroup> sc_b: array<f32, "@
        + dec(chunk)
        + "u>;\n\n@compute @workgroup_size(256)\nfn gqa_split_p1_pair(@builtin(workgroup_id) wgid: vec3<u32>,\n                     @builtin(local_invocation_id) lid: vec3<u32>) {\n    let kh = wgid.x;\n    let by = wgid.y;\n    let qa4 = (kh * 2u) * D2 >> 2u;\n    let qb4 = (kh * 2u + 1u) * D2 >> 2u;\n    // Replica `wgid.z` reads its own 8-head slab, so `mult` buys genuine\n    // parallel work over fresh bytes instead of L2 reuse of the same slab.\n    let kbase = (kh + wgid.z * 8u) * cfg.max_seq * D2;\n    let t_start = by * CHUNK;\n    if (t_start >= cfg.cur_len) { return; }\n    let chunk_len = min(CHUNK, cfg.cur_len - t_start);\n\n"@
}

fn kernel_head(chunk: usize) -> (s: String)
    ensures
        s@ == kernel_head_text(chunk as nat),
{
    let mut s = lit("struct Cfg { cur_len: u32, max_seq: u32, scale: f32, n_chunks: u32 };\n\n@group(0) @binding(0) var<storage, read>       Q4:   array<vec4<u32>>;\n@group(0) @binding(1) var<storage, read>       KC4:  array<vec4<u32>>;\n@group(0) @binding(2) var<storage, read_write> Out:  array<f32>;\n@group(0) @binding(3) var<uniform>             cfg:  Cfg;\n\nconst D2: u32 = 64u;\nconst CHUNK: u32 = ");
    push_dec(&mut s, chunk);
    s.append("u;\nconst BS: u32 = 256u;\n\nvar<workgroup> sc_a: array<f32, ");
    push_dec(&mut s, chunk);
    s.append("u>;\nvar<workgroup> sc_b: array<f32, ");
    push_dec(&mut s, chunk);
    s.append("u>;\n\n@compute @workgroup_size(256)\nfn gqa_split_p1_pair(@builtin(workgroup_id) wgid: vec3<u32>,\n                     @builtin(local_invocation_id) lid: vec3<u32>) {\n    let kh = wgid.x;\n    let by = wgid.y;\n    let qa4 = (kh * 2u) * D2 >> 2u;\n    let qb4 = (kh * 2u + 1u) * D2 >> 2u;\n    // Replica `wgid.z` reads its own 8-head slab, so `mult` buys genuine\n    // parallel work over fresh bytes instead of L2 reuse of the same slab.\n    let kbase = (kh + wgid.z * 8u) * cfg.max_seq * D2;\n    let t_start = by * CHUNK;\n    if (t_start >= cfg.cur_len) { return; }\n    let chunk_len = min(CHUNK, cfg.cur_len - t_start);\n\n");
    s
}

/// Everything behind the stage-1 body.
pub open spec fn kernel_tail_text() -> Seq<char> {
    "\n    // One broadcast load, so `Q4` stays in the layout for the `stream` variant\n    // (which reads K with coalesced addresses only and never touches Q).\n    let qmark = f32(Q4[0u].x & 1u);\n    workgroupBarrier();\n    // Parallel write-out.  A single-thread serial fold over `sc_a`/`sc_b` would\n    // add ~5 us of latency per workgroup and swamp every variant equally.\n    if (lid.x < chunk_len) {\n        let ob = ((kh * 16u + by) * 2048u) + wgid.z * 32768u;\n        Out[ob + lid.x] = sc_a[lid.x] + qmark;\n        Out[ob + 1024u + lid.x] = sc_b[lid.x];\n    }\n}\n"@
}

/// The kernel source.
pub open spec fn source_text(chunk: nat, pin: nat, depth: nat, pf: bool, row0: bool, stream: bool) -> Seq<char> {
    kernel_head_text(chunk) + stage1_text(pin, depth, pf, row0, stream) + kernel_tail_text()
}

/// Generates the kernel for chunks of `chunk` tokens; see [`stage1`].
pub fn source(chunk: usize, pin: usize, depth: usize, pf: bool, row0: bool, stream: bool) -> (s: String)
    requires
        pin * 256 <= usize::MAX,
    ensures
        s@ == source_text(chunk as nat, pin as nat, depth as nat, pf, row0, stream),
{
    let mut s = kernel_head(chunk);
    s.append(stage1(pin, depth, pf, row0, stream).as_str());
    s.append(
        "\n    // One broadcast load, so `Q4` stays in the layout for the `stream` variant\n    // (which reads K with coalesced addresses only and never touches Q).\n    let qmark = f32(Q4[0u].x & 1u);\n    workgroupBarrier();\n    // Parallel write-out.  A single-thread serial fold over `sc_a`/`sc_b` would\n    // add ~5 us of latency per workgroup and swamp every variant equally.\n    if (lid.x < chunk_len) {\n        let ob = ((kh * 16u + by) * 2048u) + wgid.z * 32768u;\n        Out[ob + lid.x] = sc_a[lid.x] + qmark;\n        Out[ob + 1024u + lid.x] = sc_b[lid.x];\n    }\n}\n",
    );
    s
}

} // verus!
