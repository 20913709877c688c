//! The shared-memory roof probe: loads and multiply-adds in a chosen ratio.
use vstd::prelude::*;
use vstd::string::*;

use crate::text::{dec, lit, push_dec, rep};

verus! {

/// One shared load.
pub open spec fn load_line_text(i: nat) -> Seq<char> {
    "    let b"@ + dec(i) + " = bs[((q + "@ + dec(i) + "u) & 255u) * PAD + tx];\n"@
}

fn load_line(i: usize) -> (s: String)
    ensures
        s@ == load_line_text(i as nat),
{
    let mut s = lit("    let b");
    push_dec(&mut s, i);
    s.append(" = bs[((q + ");
    push_dec(&mut s, i);
    s.append("u) & 255u) * PAD + tx];\n");
    s
}

/// The shared loads of one iteration.
pub open spec fn load_lines_item() -> spec_fn(nat) -> Seq<char> {
    |i: nat| load_line_text(i)
}

fn load_lines(n: usize) -> (s: String)
    ensures
        s@ == rep(n as nat, load_lines_item()),
{
    let mut s = String::new();
    for i in 0..n
        invariant
            s@ == rep(i as nat, load_lines_item()),
    {
        s.append(load_line(i).as_str());
    }
    s
}

/// One multiply-add into accumulator `c`.
pub open spec fn mul_line_text(c: nat, i: nat) -> Seq<char> {
    "    c"@ + dec(c) + " = fma(a, b"@ + dec(i) + ", c"@ + dec(c) + ");\n"@
}

fn mul_line(c: usize, i: usize) -> (s: String)
    ensures
        s@ == mul_line_text(c as nat, i as nat),
{
    let mut s = lit("    c");
    push_dec(&mut s, c);
    s.append(" = fma(a, b");
    push_dec(&mut s, i);
    s.append(", c");
    push_dec(&mut s, c);
    s.append(");\n");
    s
}

/// The multiply-adds of one iteration, round-robin over `r` accumulators.
pub open spec fn mul_lines_item(r: nat) -> spec_fn(nat) -> Seq<char> {
    |i: nat| mul_line_text(i % r, i)
}

fn mul_lines(r: usize, n: usize) -> (s: String)
    requires
        n > 0 ==> r > 0,
    ensures
        s@ == rep(n as nat, mul_lines_item(r as nat)),
{
    let mut s = String::new();
    for i in 0..n
        invariant
            s@ == rep(i as nat, mul_lines_item(r as nat)),
            n > 0 ==> r > 0,
    {
        let c: usize = i % r;
        s.append(mul_line(c, i).as_str());
    }
    s
}

/// One accumulator.
pub open spec fn decl_line_text(i: nat) -> Seq<char> {
    "  var c"@ + dec(i) + " = 0.0;\n"@
}

fn decl_line(i: usize) -> (s: String)
    ensures
        s@ == decl_line_text(i as nat),
{
    let mut s = lit("  var c");
    push_dec(&mut s, i);
    s.append(" = 0.0;\n");
    s
}

/// The accumulators.
pub open spec fn decl_lines_item() -> spec_fn(nat) -> Seq<char> {
    |i: nat| decl_line_text(i)
}

fn decl_lines(n: usize) -> (s: String)
    ensures
        s@ == rep(n as nat, decl_lines_item()),
{
    let mut s = String::new();
    for i in 0..n
        invariant
            s@ == rep(i as nat, decl_lines_item()),
    {
        s.append(decl_line(i).as_str());
    }
    s
}

/// One term of the final sum.
pub open spec fn term_text(i: nat) -> Seq<char> {
    if i == 0 {
        "c"@ + dec(i)
    } else {
        " + c"@ + dec(i)
    }
}

fn term(i: usize) -> (s: String)
    ensures
        s@ == term_text(i as nat),
{
    if i == 0 {
        let mut s = lit("c");
        push_dec(&mut s, i);
        s
    } else {
        let mut s = lit(" + c");
        push_dec(&mut s, i);
        s
    }
}

/// The accumulators joined by ` + `.
pub open spec fn terms_item() -> spec_fn(nat) -> Seq<char> {
    |i: nat| term_text(i)
}

fn terms(n: usize) -> (s: String)
    ensures
        s@ == rep(n as nat, terms_item()),
{
    let mut s = String::new();
    for i in 0..n
        invariant
            s@ == rep(i as nat, terms_item()),
    {
        s.append(term(i).as_str());
    }
    s
}

/// Everything before the accumulators.
pub open spec fn head_text(l: nat) -> Seq<char> {
    "const PAD: u32 = 260u;\nconst LOADS: u32 = "@
        + dec(l)
        + "u;\nconst REPS: u32 = 512u;\n\n@group(0) @binding(0) var<storage, read>       bs_in: array<f32>;\n@group(0) @binding(1) var<storage, read_write> out:   array<f32>;\n\nvar<workgroup> bs: array<f32, 256 * 260>;\n\n@compute @workgroup_size(256)\nfn roof(@builtin(local_invocation_id) lid: vec3<u32>,\n        @builtin(workgroup_id) wid: vec3<u32>) {\n  let tx = lid.x;\n  // fill the shared tile once (not measured)\n  var f = tx;\n  loop {\n    if (f >= 256u * 256u) { break; }\n    bs[(f / 256u) * PAD + (f % 256u)] = bs_in[f % 4096u];\n    f = f + 256u;\n  }\n  workgroupBarrier();\n  let a = 1.0000001;\n"@
}

fn head(l: usize) -> (s: String)
    ensures
        s@ == head_text(l as nat),
{
    let mut s = lit("const PAD: u32 = 260u;\nconst LOADS: u32 = ");
    push_dec(&mut s, l);
    s.append("u;\nconst REPS: u32 = 512u;\n\n@group(0) @binding(0) var<storage, read>       bs_in: array<f32>;\n@group(0) @binding(1) var<storage, read_write> out:   array<f32>;\n\nvar<workgroup> bs: array<f32, 256 * 260>;\n\n@compute @workgroup_size(256)\nfn roof(@builtin(local_invocation_id) lid: vec3<u32>,\n        @builtin(workgroup_id) wid: vec3<u32>) {\n  let tx = lid.x;\n  // fill the shared tile once (not measured)\n  var f = tx;\n  loop {\n    if (f >= 256u * 256u) { break; }\n    bs[(f / 256u) * PAD + (f % 256u)] = bs_in[f % 4096u];\n    f = f + 256u;\n  }\n  workgroupBarrier();\n  let a = 1.0000001;\n");
    s
}

/// The probe kernel: `l` loads and `l` multiply-adds over `r` accumulators.
pub open spec fn kernel_text(l: nat, r: nat) -> Seq<char> {
    head_text(l) + rep(r, decl_lines_item()) + "  var q = 0u;\n  loop {\n    if (q >= REPS) { break; }\n"@ + rep(
        l,
        load_lines_item(),
    ) + rep(l, mul_lines_item(r)) + "    q = q + 1u;\n  }\n  out[wid.x * 256u + tx] = "@ + rep(
        r,
        terms_item(),
    ) + ";\n}\n"@
}

/// Generates the probe kernel.
pub fn kernel(l: usize, r: usize) -> (s: String)
    requires
        l > 0 ==> r > 0,
    ensures
        s@ == kernel_text(l as nat, r as nat),
{
    let mut s = head(l);
    s.append(decl_lines(r).as_str());
    s.append("  var q = 0u;\n  loop {\n    if (q >= REPS) { break; }\n");
    s.append(load_lines(l).as_str());
    s.append(mul_lines(r, l).as_str());
    s.append("    q = q + 1u;\n  }\n  out[wid.x * 256u + tx] = ");
    s.append(terms(r).as_str());
    s.append(";\n}\n");
    s
}

} // verus!
