use qwen3_asr_wgpu::{wgsl_barrier, wgsl_roof};

const ROUNDS: u32 = 64;

fn spelled() -> String {
    format!(
        "@group(0) @binding(0) var<storage, read_write> bar: array<atomic<u32>>;
@group(0) @binding(1) var<storage, read_write> slots: array<u32>;
@group(0) @binding(2) var<storage, read_write> report: array<u32>;

const N_WG: u32 = {ng}u;
const ROUNDS: u32 = {rounds}u;
const MAX_SPIN: u32 = 200000000u;

fn grid_barrier(g: u32, tid: u32) -> u32 {{
  // One atomic add per workgroup, then every thread spins.  `g` is the sense:
  // the target is (g+1)*N_WG, so a straggler from the previous round cannot
  // release the next one.
  if (tid == 0u) {{
    atomicAdd(&bar[0], 1u);
  }}
  workgroupBarrier();
  let goal = (g + 1u) * N_WG;
  var spins = 0u;
  loop {{
    if (atomicLoad(&bar[0]) >= goal) {{ break; }}
    spins = spins + 1u;
    if (spins > MAX_SPIN) {{ return 0u; }}
  }}
  workgroupBarrier();
  return 1u;
}}

@compute @workgroup_size(256)
fn main(@builtin(workgroup_id) wgid: vec3<u32>,
        @builtin(local_invocation_id) lid: vec3<u32>) {{
  let tid = lid.x;
  // A little work, so the barrier is not the only thing being measured.
  var acc = f32(wgid.x) * 1e-6;
  for (var i = 0u; i < 256u; i = i + 1u) {{
    acc = fma(acc, 1.0000001, 0.5);
  }}
  if (acc == 1.2345e30) {{ slots[wgid.x] = u32(acc); }}

  for (var g = 0u; g < ROUNDS; g = g + 1u) {{
    // Publish this round's arrival, then synchronise, then check that every
    // other workgroup has published too.
    if (tid == 0u) {{
      slots[wgid.x] = g * N_WG + wgid.x + 1u;
    }}
    let ok = grid_barrier(g, tid);
    if (ok == 0u) {{
      if (tid == 0u) {{ report[0] = 1u; }}   // timeout
      return;
    }}
    if (tid == 0u) {{
      // Every slot must have been written this round (or a later one).
      let base = g * N_WG;
      for (var w = 0u; w < N_WG; w = w + 1u) {{
        if (slots[w] <= base) {{
          report[1] = 1u;                    // barrier did not synchronise
        }}
      }}
    }}
  }}
  if (tid == 0u) {{ report[2] = report[2] + 1u; }}
}}
",
        ng = 0,
        rounds = ROUNDS
    )
}

fn spelled_kernel(l: usize, r: usize) -> String {
    let loads = (0..l)
        .map(|i| format!("    let b{i} = bs[((q + {i}u) & 255u) * PAD + tx];\n"))
        .collect::<String>();
    let mut fmas = String::new();
    for i in 0..l {
        fmas.push_str(&format!("    c{} = fma(a, b{i}, c{});\n", i % r, i % r));
    }
    let decls = (0..r).map(|i| format!("  var c{i} = 0.0;\n")).collect::<String>();
    let finals = (0..r).map(|i| format!("c{i}")).collect::<Vec<_>>().join(" + ");
    format!(
        "const PAD: u32 = 260u;
const LOADS: u32 = {l}u;
const REPS: u32 = 512u;

@group(0) @binding(0) var<storage, read>       bs_in: array<f32>;
@group(0) @binding(1) var<storage, read_write> out:   array<f32>;

var<workgroup> bs: array<f32, 256 * 260>;

@compute @workgroup_size(256)
fn roof(@builtin(local_invocation_id) lid: vec3<u32>,
        @builtin(workgroup_id) wid: vec3<u32>) {{
  let tx = lid.x;
  // fill the shared tile once (not measured)
  var f = tx;
  loop {{
    if (f >= 256u * 256u) {{ break; }}
    bs[(f / 256u) * PAD + (f % 256u)] = bs_in[f % 4096u];
    f = f + 256u;
  }}
  workgroupBarrier();
  let a = 1.0000001;
{decls}  var q = 0u;
  loop {{
    if (q >= REPS) {{ break; }}
{loads}{fmas}    q = q + 1u;
  }}
  out[wid.x * 256u + tx] = {finals};
}}
"
    )
}

#[test]
fn barrier_source() {
    assert_eq!(wgsl_barrier::shader(), spelled());
    let n = 120;
    assert_eq!(
        wgsl_barrier::shader_for(n),
        spelled().replace("const N_WG: u32 = 0u;", &format!("const N_WG: u32 = {n}u;"))
    );
}

#[test]
fn barrier_verdicts() {
    assert_eq!(wgsl_barrier::verdict(1, 0, 3, 30), "TIMEOUT (grid not co-resident)");
    assert_eq!(wgsl_barrier::verdict(0, 1, 3, 30), "UNSYNCHRONISED");
    assert_eq!(wgsl_barrier::verdict(0, 0, 30, 30), "ok");
    assert_eq!(wgsl_barrier::verdict(0, 0, 3, 30), "incomplete: 3 of 30 workgroups finished");
}

#[test]
fn roof_sources() {
    for (l, r) in [(16usize, 16usize), (16, 64), (8, 64), (16, 32)] {
        assert_eq!(wgsl_roof::kernel(l, r), spelled_kernel(l, r));
    }
}
