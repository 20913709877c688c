use qwen3_asr_wgpu::wgsl_fma::{arm, fma_per_iter, shader};

const ITERS: u32 = 4096;

fn spelled(mix: usize) -> String {
    let decl: String = (0..16).map(|i| format!("  var c{i} = 0.0;\n")).collect();
    let init: String = (0..16)
        .map(|i| format!("  c{i} = f32(lid.x + {i}u) * 1e-9;\n"))
        .collect();
    let sink: String = (0..16).map(|i| format!("  s = s + c{i};\n")).collect();

    let mut body = String::new();
    for r in 0..4 {
        for i in 0..16 {
            body.push_str(&format!("    c{i} = fma(c{i}, a, b);\n"));
        }
        match mix {
            4 if r == 0 => {
                for i in 0..4 {
                    body.push_str(&format!(
                        "    let v{r}_{i} = tile[((idx * 4u + {o}u + lid.x) & 511u)];\n",
                        o = i * 128
                    ));
                }
                for i in 0..4 {
                    for e in 0..4 {
                        let k = i * 4 + e;
                        body.push_str(&format!(
                            "    c{k} = fma(c{k}, v{r}_{i}[{e}], b);\n"
                        ));
                    }
                }
            }
            16 if r == 0 => {
                for i in 0..16 {
                    body.push_str(&format!(
                        "    let t{r}_{i} = tile[((idx * 16u + {u}u) * 32u + lid.x) & 1023u];\n",
                        u = i
                    ));
                }
                for i in 0..16 {
                    body.push_str(&format!(
                        "    c{i} = fma(c{i}, t{r}_{i}, b);\n"
                    ));
                }
            }
            8 if r == 0 => {
                for i in 0..2 {
                    body.push_str(&format!(
                        "    let w{r}_{i} = tileA[((idx * 2u + (lid.x >> 4u) + {o}u) & 511u)];\n",
                        o = i * 128
                    ));
                }
                for i in 0..8 {
                    body.push_str(&format!(
                        "    let t{r}_{i} = tileB[((idx * 8u + {u}u) * 32u + (lid.x & 15u)) & 1023u];\n",
                        u = i
                    ));
                }
                for i in 0..4 {
                    body.push_str(&format!(
                        "    c{i} = fma(c{i}, w{r}_0[{i}], b);\n"
                    ));
                }
                for i in 0..4 {
                    body.push_str(&format!(
                        "    c{ii} = fma(c{ii}, w{r}_1[{i}], b);\n",
                        ii = 4 + i
                    ));
                }
                for i in 0..8 {
                    body.push_str(&format!("    c{i} = fma(c{i}, t{r}_{i}, b);\n"));
                }
            }
            99 => {
                for i in 0..2 {
                    body.push_str(&format!(
                        "    let t{r}{i} = tile[((idx + {o}u) & 1023u)];\n",
                        o = r * 17 + i * 3
                    ));
                }
                body.push_str(&format!(
                    "    c0 = fma(c0, t{r}0, b);\n    c1 = fma(c1, t{r}1, b);\n"
                ));
            }
            _ => {}
        }
    }

    let tile_decl = match mix {
        0 => String::new(),
        4 => "var<workgroup> tile: array<vec4<f32>, 512>;\n".to_string(),
        8 => "var<workgroup> tileA: array<vec4<f32>, 512>;\nvar<workgroup> tileB: array<f32, 1024>;\n"
            .to_string(),
        _ => "var<workgroup> tile: array<f32, 1024>;\n".to_string(),
    };
    let fill_vec = |name: &str| -> String {
        (0..2)
            .map(|i| {
                format!(
                    "  {name}[lid.x + {o}u] = vec4<f32>(f32(lid.x) * 1e-6);\n",
                    o = i * 256
                )
            })
            .collect()
    };
    let fill = match mix {
        0 => String::new(),
        4 => fill_vec("tile"),
        8 => {
            fill_vec("tileA")
                + &(0..4)
                    .map(|i| {
                        format!("  tileB[lid.x + {o}u] = f32(lid.x) * 1e-6;\n", o = i * 256)
                    })
                    .collect::<String>()
        }
        _ => (0..4)
            .map(|i| format!("  tile[lid.x + {o}u] = f32(lid.x) * 1e-6;\n", o = i * 256))
            .collect(),
    };

    format!(
        "@group(0) @binding(0) var<storage, read_write> out: array<f32>;
{tile_decl}
const ITERS: u32 = {ITERS}u;

@compute @workgroup_size(256)
fn main(@builtin(local_invocation_id) lid: vec3<u32>,
        @builtin(workgroup_id) wid: vec3<u32>) {{
{fill}{decl}{init}
  let a = 1.0000001 + f32(wid.x) * 1e-12;
  let b = 1.0000002 + f32(lid.x) * 1e-12;
  var idx = 0u;
  loop {{
    if (idx >= ITERS) {{ break; }}
{body}    idx = idx + 1u;
  }}
  var s = 0.0;
{sink}  if (s == 1.2345e30) {{ out[wid.x * 256u + lid.x] = s; }}
}}
"
    )
}

#[test]
fn fma_sources() {
    for mix in [0usize, 4, 8, 16, 99] {
        assert_eq!(shader(mix), spelled(mix));
    }
}

#[test]
fn fma_arms() {
    for (mix, loads) in [(0usize, 0usize), (4, 4), (8, 10), (16, 16), (99, 8)] {
        let src = shader(mix);
        let fmas = src.lines().filter(|l| l.contains(" = fma(")).count();
        assert_eq!(fmas, fma_per_iter(mix) as usize);
        assert_eq!(src.lines().filter(|l| l.contains("= tile")).count(), loads);
    }
    assert_eq!(fma_per_iter(0), 64);
    assert_eq!(fma_per_iter(4), 80);
    assert_eq!(fma_per_iter(16), 80);
    assert_eq!(fma_per_iter(99), 72);
    assert_eq!(arm(0), "pure FFMA, no memory, 16 chains x 4 rounds");
    assert_eq!(arm(16), "16 scalar shared loads + 80 FMA per iteration");
}
