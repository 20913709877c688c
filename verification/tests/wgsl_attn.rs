use qwen3_asr_wgpu::wgsl_attn::{add_line, consume, source, stage1};

const D4: usize = 16;
const BS: usize = 256;

fn spelled_add_line(h: &str, r: &str, p: usize, j: usize, s: usize) -> String {
    format!(
        "            {h} = {h} + ({r}{p}_{j}_{s}.x * k{p}_{j}_{s}.x + {r}{p}_{j}_{s}.y * k{p}_{j}_{s}.y);\n"
    )
}

fn spelled_consume(pin: usize, j: usize) -> String {
    let mut s = String::new();
    for p in 0..pin {
        for sub in 0..4 {
            let w = ["x", "y", "z", "w"][sub];
            s.push_str(&format!(
                "            let k{p}_{j}_{sub} = unpack2x16float(kv{p}_{j}.{w});\n"
            ));
            s.push_str(&format!("            let a{p}_{j}_{sub} = unpack2x16float(qa.{w});\n"));
        }
        for sub in 0..4 {
            s.push_str(&spelled_add_line(&format!("da{p}"), "a", p, j, sub));
        }
        for sub in 0..4 {
            let w = ["x", "y", "z", "w"][sub];
            s.push_str(&format!("            let b{p}_{j}_{sub} = unpack2x16float(qb.{w});\n"));
        }
        for sub in 0..4 {
            s.push_str(&spelled_add_line(&format!("db{p}"), "b", p, j, sub));
        }
    }
    s
}

fn spelled_stage1(pin: usize, depth: usize, pf: bool, row0: bool, stream: bool) -> String {
    let mut s = String::new();
    let stride = BS * pin;
    if pin == 1 {
        s.push_str("    for (var t = lid.x; t < chunk_len; t = t + BS) {\n");
    } else {
        s.push_str(&format!(
            "    for (var t = lid.x; t + {BS}u < chunk_len; t = t + {stride}u) {{\n"
        ));
    }
    for p in 0..pin {
        let off = if p == 0 { String::new() } else { format!(" + {}u", p * BS) };
        s.push_str(&format!("        var da{p} = 0.0;\n        var db{p} = 0.0;\n"));
        if row0 {
            s.push_str(&format!("        let row4_{p} = 0u;\n"));
        } else {
            s.push_str(&format!(
                "        let row4_{p} = (kbase + (t_start + t{off}) * D2) >> 2u;\n"
            ));
        }
    }
    if stream {
        s.push_str("        let wb = kbase + t_start * D2;\n");
        s.push_str("        {\n");
        for i in 0..D4 {
            s.push_str(&format!(
                "            let kv0_{i} = KC4[wb + {i}u * 256u + lid.x];\n"
            ));
        }
        for i in 0..D4 {
            s.push_str(&format!(
                "            da0 = da0 + f32(kv0_{i}.x & 0xFFFFu) + f32(kv0_{i}.y & 0xFFFFu);\n"
            ));
        }
        s.push_str("        }\n");
    } else if pf {
        s.push_str(
            "        var kp = KC4[row4_0];\n\
             \x20       var qap = Q4[qa4];\n\
             \x20       var qbp = Q4[qb4];\n\
             \x20       for (var j4 = 0u; j4 < 16u; j4 = j4 + 1u) {\n\
             \x20           let kv = kp;\n\
             \x20           let qa = qap;\n\
             \x20           let qb = qbp;\n\
             \x20           let jn = min(j4 + 1u, 15u);\n\
             \x20           kp = KC4[row4_0 + jn];\n\
             \x20           qap = Q4[qa4 + jn];\n\
             \x20           qbp = Q4[qb4 + jn];\n",
        );
        for sub in 0..4 {
            let w = ["x", "y", "z", "w"][sub];
            s.push_str(&format!(
                "            let k{sub} = unpack2x16float(kv.{w});\n\
                 \x20           let a{sub} = unpack2x16float(qa.{w});\n"
            ));
        }
        for sub in 0..4 {
            s.push_str(&format!(
                "            da0 = da0 + (a{sub}.x * k{sub}.x + a{sub}.y * k{sub}.y);\n"
            ));
        }
        for sub in 0..4 {
            let w = ["x", "y", "z", "w"][sub];
            s.push_str(&format!("            let b{sub} = unpack2x16float(qb.{w});\n"));
        }
        for sub in 0..4 {
            s.push_str(&format!(
                "            db0 = db0 + (b{sub}.x * k{sub}.x + b{sub}.y * k{sub}.y);\n"
            ));
        }
        s.push_str("        }\n");
    } else if depth == 0 {
        for j in 0..D4 {
            s.push_str("        {\n");
            for p in 0..pin {
                s.push_str(&format!("            let kv{p}_{j} = KC4[row4_{p} + {j}u];\n"));
            }
            s.push_str(&format!("            let qa = Q4[qa4 + {j}u];\n"));
            s.push_str(&format!("            let qb = Q4[qb4 + {j}u];\n"));
            s.push_str(&spelled_consume(pin, j));
            s.push_str("        }\n");
        }
    } else {
        let mut j0 = 0usize;
        while j0 < D4 {
            let d = depth.min(D4 - j0);
            s.push_str("        {\n");
            for p in 0..pin {
                for k in 0..d {
                    let j = j0 + k;
                    s.push_str(&format!("            let kv{p}_{j} = KC4[row4_{p} + {j}u];\n"));
                }
            }
            for k in 0..d {
                let j = j0 + k;
                s.push_str("            {\n");
                s.push_str(&format!("            let qa = Q4[qa4 + {j}u];\n"));
                s.push_str(&format!("            let qb = Q4[qb4 + {j}u];\n"));
                s.push_str(&spelled_consume(pin, j));
                s.push_str("            }\n");
            }
            s.push_str("        }\n");
            j0 += d;
        }
    }
    for p in 0..pin {
        let off = if p == 0 { String::new() } else { format!(" + {}u", p * BS) };
        s.push_str(&format!("        sc_a[t{off}] = da{p} * cfg.scale;\n"));
        s.push_str(&format!("        sc_b[t{off}] = db{p} * cfg.scale;\n"));
    }
    s.push_str("    }\n");
    s
}

fn spelled_source(chunk: usize, pin: usize, depth: usize, pf: bool, row0: bool, stream: bool) -> String {
    format!(
        "\
struct Cfg {{ cur_len: u32, max_seq: u32, scale: f32, n_chunks: u32 }};

@group(0) @binding(0) var<storage, read>       Q4:   array<vec4<u32>>;
@group(0) @binding(1) var<storage, read>       KC4:  array<vec4<u32>>;
@group(0) @binding(2) var<storage, read_write> Out:  array<f32>;
@group(0) @binding(3) var<uniform>             cfg:  Cfg;

const D2: u32 = 64u;
const CHUNK: u32 = {chunk}u;
const BS: u32 = 256u;

var<workgroup> sc_a: array<f32, {chunk}u>;
var<workgroup> sc_b: array<f32, {chunk}u>;

@compute @workgroup_size(256)
fn gqa_split_p1_pair(@builtin(workgroup_id) wgid: vec3<u32>,
                     @builtin(local_invocation_id) lid: vec3<u32>) {{
    let kh = wgid.x;
    let by = wgid.y;
    let qa4 = (kh * 2u) * D2 >> 2u;
    let qb4 = (kh * 2u + 1u) * D2 >> 2u;
    // Replica `wgid.z` reads its own 8-head slab, so `mult` buys genuine
    // parallel work over fresh bytes instead of L2 reuse of the same slab.
    let kbase = (kh + wgid.z * 8u) * cfg.max_seq * D2;
    let t_start = by * CHUNK;
    if (t_start >= cfg.cur_len) {{ return; }}
    let chunk_len = min(CHUNK, cfg.cur_len - t_start);

{body}
    // One broadcast load, so `Q4` stays in the layout for the `stream` variant
    // (which reads K with coalesced addresses only and never touches Q).
    let qmark = f32(Q4[0u].x & 1u);
    workgroupBarrier();
    // Parallel write-out.  A single-thread serial fold over `sc_a`/`sc_b` would
    // add ~5 us of latency per workgroup and swamp every variant equally.
    if (lid.x < chunk_len) {{
        let ob = ((kh * 16u + by) * 2048u) + wgid.z * 32768u;
        Out[ob + lid.x] = sc_a[lid.x] + qmark;
        Out[ob + 1024u + lid.x] = sc_b[lid.x];
    }}
}}
",
        chunk = chunk,
        body = spelled_stage1(pin, depth, pf, row0, stream),
    )
}

#[test]
fn attention_lines() {
    assert_eq!(
        add_line("dot0", 0, 3, 2),
        "            dot0 = dot0 + (a0_3_2.x * k0_3_2.x + a0_3_2.y * k0_3_2.y);\n"
    );
    assert_eq!(consume(2, 5), spelled_consume(2, 5));
}

#[test]
fn attention_schedules() {
    for pin in [1usize, 2] {
        for depth in [0usize, 1, 2, 4, 8, 16, 5] {
            assert_eq!(stage1(pin, depth, false, false, false), spelled_stage1(pin, depth, false, false, false));
        }
        assert_eq!(stage1(pin, 4, false, true, false), spelled_stage1(pin, 4, false, true, false));
    }
}

#[test]
fn attention_sources() {
    assert_eq!(source(256, 1, 99, true, false, false), spelled_source(256, 1, 99, true, false, false));
    assert_eq!(source(256, 1, 4, false, false, true), spelled_source(256, 1, 4, false, false, true));
    assert_eq!(source(512, 2, 4, false, true, false), spelled_source(512, 2, 4, false, true, false));
}

fn sums(src: &str) -> Vec<&str> {
    src.lines().filter(|l| l.starts_with("            d")).collect()
}

#[test]
fn depth_keeps_the_sums() {
    for pin in [1usize, 2] {
        let flat = stage1(pin, 0, false, false, false);
        let want = sums(&flat);
        assert_eq!(want.len(), 16 * pin * 8);
        assert_eq!(want[0], "            da0 = da0 + (a0_0_0.x * k0_0_0.x + a0_0_0.y * k0_0_0.y);");
        assert_eq!(want[4], "            db0 = db0 + (b0_0_0.x * k0_0_0.x + b0_0_0.y * k0_0_0.y);");
        for depth in [1usize, 3, 4, 16, 40] {
            let deep = stage1(pin, depth, false, false, false);
            assert_eq!(sums(&deep), want);
        }
    }
}
