//! The grid-wide barrier probe: its kernel and the reading of its report.
use vstd::prelude::*;
use vstd::string::*;

use crate::text::{dec, lit, push_dec};

verus! {

/// Barrier rounds of one run.
pub const ROUNDS: u32 = 64;

/// The kernel of a grid of `n_wg` workgroups.
pub open spec fn shader_for_text(n_wg: nat) -> Seq<char> {
    "@group(0) @binding(0) var<storage, read_write> bar: array<atomic<u32>>;\n@group(0) @binding(1) var<storage, read_write> slots: array<u32>;\n@group(0) @binding(2) var<storage, read_write> report: array<u32>;\n\nconst N_WG: u32 = "@
        + dec(n_wg)
        + "u;\nconst ROUNDS: u32 = 64u;\nconst MAX_SPIN: u32 = 200000000u;\n\nfn grid_barrier(g: u32, tid: u32) -> u32 {\n  // One atomic add per workgroup, then every thread spins.  `g` is the sense:\n  // the target is (g+1)*N_WG, so a straggler from the previous round cannot\n  // release the next one.\n  if (tid == 0u) {\n    atomicAdd(&bar[0], 1u);\n  }\n  workgroupBarrier();\n  let goal = (g + 1u) * N_WG;\n  var spins = 0u;\n  loop {\n    if (atomicLoad(&bar[0]) >= goal) { break; }\n    spins = spins + 1u;\n    if (spins > MAX_SPIN) { return 0u; }\n  }\n  workgroupBarrier();\n  return 1u;\n}\n\n@compute @workgroup_size(256)\nfn main(@builtin(workgroup_id) wgid: vec3<u32>,\n        @builtin(local_invocation_id) lid: vec3<u32>) {\n  let tid = lid.x;\n  // A little work, so the barrier is not the only thing being measured.\n  var acc = f32(wgid.x) * 1e-6;\n  for (var i = 0u; i < 256u; i = i + 1u) {\n    acc = fma(acc, 1.0000001, 0.5);\n  }\n  if (acc == 1.2345e30) { slots[wgid.x] = u32(acc); }\n\n  for (var g = 0u; g < ROUNDS; g = g + 1u) {\n    // Publish this round's arrival, then synchronise, then check that every\n    // other workgroup has published too.\n    if (tid == 0u) {\n      slots[wgid.x] = g * N_WG + wgid.x + 1u;\n    }\n    let ok = grid_barrier(g, tid);\n    if (ok == 0u) {\n      if (tid == 0u) { report[0] = 1u; }   // timeout\n      return;\n    }\n    if (tid == 0u) {\n      // Every slot must have been written this round (or a later one).\n      let base = g * N_WG;\n      for (var w = 0u; w < N_WG; w = w + 1u) {\n        if (slots[w] <= base) {\n          report[1] = 1u;                    // barrier did not synchronise\n        }\n      }\n    }\n  }\n  if (tid == 0u) { report[2] = report[2] + 1u; }\n}\n"@
}

/// Generates the kernel of a grid of `n_wg` workgroups.
pub fn shader_for(n_wg: usize) -> (s: String)
    ensures
        s@ == shader_for_text(n_wg as nat),
{
    let mut s = lit("@group(0) @binding(0) var<storage, read_write> bar: array<atomic<u32>>;\n@group(0) @binding(1) var<storage, read_write> slots: array<u32>;\n@group(0) @binding(2) var<storage, read_write> report: array<u32>;\n\nconst N_WG: u32 = ");
    push_dec(&mut s, n_wg);
    s.append("u;\nconst ROUNDS: u32 = 64u;\nconst MAX_SPIN: u32 = 200000000u;\n\nfn grid_barrier(g: u32, tid: u32) -> u32 {\n  // One atomic add per workgroup, then every thread spins.  `g` is the sense:\n  // the target is (g+1)*N_WG, so a straggler from the previous round cannot\n  // release the next one.\n  if (tid == 0u) {\n    atomicAdd(&bar[0], 1u);\n  }\n  workgroupBarrier();\n  let goal = (g + 1u) * N_WG;\n  var spins = 0u;\n  loop {\n    if (atomicLoad(&bar[0]) >= goal) { break; }\n    spins = spins + 1u;\n    if (spins > MAX_SPIN) { return 0u; }\n  }\n  workgroupBarrier();\n  return 1u;\n}\n\n@compute @workgroup_size(256)\nfn main(@builtin(workgroup_id) wgid: vec3<u32>,\n        @builtin(local_invocation_id) lid: vec3<u32>) {\n  let tid = lid.x;\n  // A little work, so the barrier is not the only thing being measured.\n  var acc = f32(wgid.x) * 1e-6;\n  for (var i = 0u; i < 256u; i = i + 1u) {\n    acc = fma(acc, 1.0000001, 0.5);\n  }\n  if (acc == 1.2345e30) { slots[wgid.x] = u32(acc); }\n\n  for (var g = 0u; g < ROUNDS; g = g + 1u) {\n    // Publish this round's arrival, then synchronise, then check that every\n    // other workgroup has published too.\n    if (tid == 0u) {\n      slots[wgid.x] = g * N_WG + wgid.x + 1u;\n    }\n    let ok = grid_barrier(g, tid);\n    if (ok == 0u) {\n      if (tid == 0u) { report[0] = 1u; }   // timeout\n      return;\n    }\n    if (tid == 0u) {\n      // Every slot must have been written this round (or a later one).\n      let base = g * N_WG;\n      for (var w = 0u; w < N_WG; w = w + 1u) {\n        if (slots[w] <= base) {\n          report[1] = 1u;                    // barrier did not synchronise\n        }\n      }\n    }\n  }\n  if (tid == 0u) { report[2] = report[2] + 1u; }\n}\n");
    s
}

/// The kernel before a grid size is chosen.
pub fn shader() -> (s: String)
    ensures
        s@ == shader_for_text(0),
{
    shader_for(0)
}

/// What the three report words say of a run of `n_wg` workgroups: word 0 is set
/// by a timeout, word 1 by a missed arrival, word 2 counts the workgroups that
/// finished.
pub open spec fn verdict_text(timeout: u32, missed: u32, finished: u32, n_wg: u32) -> Seq<char> {
    if timeout == 1 {
        "TIMEOUT (grid not co-resident)"@
    } else if missed == 1 {
        "UNSYNCHRONISED"@
    } else if finished == n_wg {
        "ok"@
    } else {
        "incomplete: "@ + dec(finished as nat) + " of "@ + dec(n_wg as nat) + " workgroups finished"@
    }
}

/// Reads the report words of a run.
pub fn verdict(timeout: u32, missed: u32, finished: u32, n_wg: u32) -> (s: String)
    ensures
        s@ == verdict_text(timeout, missed, finished, n_wg),
{
    if timeout == 1 {
        lit("TIMEOUT (grid not co-resident)")
    } else if missed == 1 {
        lit("UNSYNCHRONISED")
    } else if finished == n_wg {
        lit("ok")
    } else {
        let mut s = lit("incomplete: ");
        push_dec(&mut s, finished as usize);
        s.append(" of ");
        push_dec(&mut s, n_wg as usize);
        s.append(" workgroups finished");
        s
    }
}

} // verus!
