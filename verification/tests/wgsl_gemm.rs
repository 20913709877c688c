use qwen3_asr_wgpu::wgsl_gemm::gemm_shader;

const BK: usize = 16;

fn spelled(
    tm: usize,
    tn: usize,
    wgx: usize,
    wgy: usize,
    double: bool,
    unroll_q: usize,
    permb: bool,
    v4: bool,
) -> String {
    let nthr = wgx * wgy;
    let bm = wgy * tm;
    let bn = wgx * tn;
    let pad = BK + 1;
    let n_as = bm * BK / nthr;
    let n_bs = bn * BK / nthr;
    assert_eq!(bm * BK % nthr, 0);
    assert_eq!(bn * BK % nthr, 0);
    if v4 {
        assert_eq!(permb, true, "the vec4 B layout *is* the permutation");
        assert_eq!(tn, 8, "the v4 B read is derived for a 4-row group per thread");
        assert_eq!(bm * BK % (4 * nthr), 0, "A chunks must divide evenly");
        assert_eq!(bn * BK % (4 * nthr), 0, "B chunks must divide evenly");
    }
    let (aq, bq) = (bm / 4, bn / 4);
    let nch_a = bm * BK / 4 / nthr;
    let nch_b = bn * BK / 4 / nthr;
    let cstep = nthr;

    let mut s = String::new();
    s.push_str(
        "struct GDims { m: u32, n: u32, k: u32, _p: u32 };\n\
         @group(0) @binding(0) var<storage, read>       A: array<u32>;\n\
         @group(0) @binding(1) var<storage, read>       W: array<u32>;\n\
         @group(0) @binding(2) var<storage, read_write> C: array<u32>;\n\
         @group(0) @binding(3) var<uniform>             gd: GDims;\n",
    );
    s.push_str(&format!(
        "const BM: u32 = {bm}u;\nconst BN: u32 = {bn}u;\nconst BK: u32 = {BK}u;\n\
         const PAD: u32 = {pad}u;\nconst TM: u32 = {tm}u;\nconst TN: u32 = {tn}u;\nconst AQ: u32 = {aq}u;\nconst BQ: u32 = {bq}u;\nconst CSTEP: u32 = {cstep}u;\n"
    ));
    if v4 {
        s.push_str(&format!("var<workgroup> A4: array<vec4<f32>, {}>;\n", bm * BK / 4));
        s.push_str(&format!("var<workgroup> B4: array<vec4<f32>, {}>;\n", bn * BK / 4));
    } else {
        s.push_str(&format!("var<workgroup> As: array<f32, {}>;\n", bm * pad));
        s.push_str(&format!("var<workgroup> Bs: array<f32, {}>;\n", bn * pad));
    }
    s.push_str(
        "fn halve(w: u32, odd: bool) -> f32 {\n\
         \x20 let p = unpack2x16float(w);\n\
         \x20 return select(p.x, p.y, odd);\n\
         }\n",
    );
    s.push_str(&format!("@compute @workgroup_size({wgx}, {wgy})\n"));
    s.push_str(
        "fn gemm(@builtin(workgroup_id) wid: vec3<u32>,\n\
                 @builtin(local_invocation_id) lid: vec3<u32>) {\n\
         let tx = lid.x;\n let ty = lid.y;\n\
         let m0 = wid.y * BM;\n let n0 = wid.x * BN;\n let kk = gd.k / 2u;\n",
    );

    for i in 0..tm {
        for j in 0..tn {
            s.push_str(&format!("var c{i}{j} = 0.0;\n"));
        }
    }

    let (kstep_a, kstep_b) = (nthr / aq, nthr / bq);
    assert_eq!(nthr % aq, 0, "AQ must divide the thread count");
    assert_eq!(nthr % bq, 0, "BQ must divide the thread count");
    let kn = |base: &str, i: usize| -> String { format!("{base}{i}") };
    let v4_setup = || -> String {
        let mut t = String::from(
            " let c0 = ty * {wgx}u + tx;\n let crg = c0 % {aq}u;\n let ck0 = c0 / {aq}u;\n"
                .replace("{wgx}", &wgx.to_string())
                .replace("{aq}", &aq.to_string())
                .as_str(),
        );
        for i in 1..nch_a {
            t.push_str(&format!(" let ck{i} = ck0 + {}u;\n", i * kstep_a));
        }
        for i in 0..nch_a {
            let c = kn("ck", i);
            t.push_str(&format!(" let cv{i} = (({c} & 1u) == 1u);\n"));
        }
        t
    };
    let bv_decl = || -> String {
        let mut t = String::new();
        for i in 1..nch_b {
            t.push_str(&format!(" let bk{i} = bk0 + {}u;\n", i * kstep_b));
        }
        for i in 0..nch_b {
            let b = kn("bk", i);
            t.push_str(&format!(" let bv{i} = (({b} & 1u) == 1u);\n"));
        }
        t
    };
    let bog_decl = format!(
        "  let bop = c0 % {bq}u;\n\
         \x20 let bk0 = c0 / {bq}u;\n\
         \x20 let bog = ((bop >> 4u) << 3u) | (bop & 7u);\n\
         \x20 let bos = (bop >> 3u) & 1u;\n",
        bq = bq
    );
    let b_row = |e: usize| format!("8u * bog + 4u * bos + {e}u");
    let v4_read = |kx: &str, i: usize| -> String {
        let mut t = String::new();
        for e in 0..4 {
            let k = kn("ck", i);
            t.push_str(&format!(
                "   pfa{} = A[(m0 + 4u * crg + {e}u) * kk + ({kx} + {k}) / 2u];\n",
                i * 4 + e
            ));
        }
        t
    };
    let v4_read_b = |kx: &str, i: usize| -> String {
        let mut t = String::new();
        for e in 0..4 {
            let k = kn("bk", i);
            t.push_str(&format!(
                "   pfb{} = W[(n0 + {row}) * kk + ({kx} + {k}) / 2u];\n",
                i * 4 + e,
                row = b_row(e)
            ));
        }
        t
    };

    let load_as = |kx: &str, dst: &str| -> String {
        let mut t = String::new();
        if v4 {
            for i in 0..nch_a {
                let mut comps = String::new();
                for e in 0..4 {
                    comps.push_str(&format!(
                        "\x20 halve(A[(m0 + 4u * crg + {e}u) * kk + ({kx} + {k}) / 2u], cv{i}),",
                        k = kn("ck", i)
                    ));
                }
                t.push_str(&format!(
                    "  A4[c0{}] = vec4<f32>({comps});\n",
                    if i == 0 {
                        String::new()
                    } else {
                        format!(" + {}u", i * cstep)
                    }
                ));
            }
            return t;
        }
        for e in 0..n_as {
            t.push_str(&format!(
                "  {dst}[(ty + {}u) * PAD + tx] = halve(A[(m0 + ty + {}u) * kk + ({kx} + tx) / 2u], (tx & 1u) == 1u);\n",
                e * 16, e * 16
            ));
        }
        t
    };
    let bslot = |e: usize| -> String {
        if permb {
            let v = format!("(ty + {}u)", e * 16);
            format!("(16u * ({v} % {tn}u) + {v} / {tn}u)")
        } else {
            format!("(ty + {}u)", e * 16)
        }
    };
    let load_bs = |kx: &str, dst: &str| -> String {
        let mut t = String::new();
        if v4 {
            for i in 0..nch_b {
                let mut comps = String::new();
                for e in 0..4 {
                    comps.push_str(&format!(
                        "\x20 halve(W[(n0 + {row}) * kk + ({kx} + {k}) / 2u], bv{i}),",
                        k = kn("bk", i),
                        row = b_row(e)
                    ));
                }
                t.push_str(&format!(
                    "  B4[c0{}] = vec4<f32>({comps});\n",
                    if i == 0 {
                        String::new()
                    } else {
                        format!(" + {}u", i * cstep)
                    }
                ));
            }
            return t;
        }
        for e in 0..n_bs {
            t.push_str(&format!(
                "  {dst}[{} * PAD + tx] = halve(W[(n0 + ty + {}u) * kk + ({kx} + tx) / 2u], (tx & 1u) == 1u);\n",
                bslot(e), e * 16
            ));
        }
        t
    };
    let pf_as = |kx: &str| -> String {
        if v4 {
            let mut t = String::new();
            for i in 0..nch_a {
                t.push_str(&v4_read(kx, i));
            }
            return t;
        }
        let mut t = String::new();
        for e in 0..n_as {
            t.push_str(&format!(
                "   pfa{e} = A[(m0 + ty + {}u) * kk + ({kx} + tx) / 2u];\n", e * 16
            ));
        }
        t
    };
    let pf_bs = |kx: &str| -> String {
        if v4 {
            let mut t = String::new();
            for i in 0..nch_b {
                t.push_str(&v4_read_b(kx, i));
            }
            return t;
        }
        let mut t = String::new();
        for e in 0..n_bs {
            t.push_str(&format!(
                "   pfb{e} = W[(n0 + ty + {}u) * kk + ({kx} + tx) / 2u];\n", e * 16
            ));
        }
        t
    };
    let pf_decl = || {
        let mut t = String::new();
        for e in 0..n_as {
            t.push_str(&format!("  var pfa{e}: u32 = 0u;\n"));
        }
        for e in 0..n_bs {
            t.push_str(&format!("  var pfb{e}: u32 = 0u;\n"));
        }
        t
    };
    let store_as = || {
        let mut t = String::new();
        if v4 {
            for i in 0..nch_a {
                let mut comps = String::new();
                for e in 0..4 {
                    comps.push_str(&format!("\x20 halve(pfa{}, cv{i}),", i * 4 + e));
                }
                t.push_str(&format!(
                    "   A4[c0{}] = vec4<f32>({comps});\n",
                    if i == 0 {
                        String::new()
                    } else {
                        format!(" + {}u", i * cstep)
                    }
                ));
            }
            return t;
        }
        for e in 0..n_as {
            t.push_str(&format!(
                "   As[(ty + {}u) * PAD + tx] = halve(pfa{e}, (tx & 1u) == 1u);\n", e * 16
            ));
        }
        t
    };
    let store_bs = || {
        let mut t = String::new();
        if v4 {
            for i in 0..nch_b {
                let mut comps = String::new();
                for e in 0..4 {
                    comps.push_str(&format!("\x20 halve(pfb{}, bv{i}),", i * 4 + e));
                }
                t.push_str(&format!(
                    "   B4[c0{}] = vec4<f32>({comps});\n",
                    if i == 0 {
                        String::new()
                    } else {
                        format!(" + {}u", i * cstep)
                    }
                ));
            }
            return t;
        }
        for e in 0..n_bs {
            t.push_str(&format!(
                "   Bs[{} * PAD + tx] = halve(pfb{e}, (tx & 1u) == 1u);\n", bslot(e)
            ));
        }
        t
    };
    let compute = || {
        let mut t = String::new();
        let reads = |t: &mut String, q: &str, tag: &str| {
            if v4 {
                for s in 0..tm / 4 {
                    t.push_str(&format!(
                        "   let av{s}{tag} = A4[{q} * AQ + ty * {}u + {s}u];\n",
                        tm / 4
                    ));
                }
                t.push_str(&format!(
                    "   let bv{tag} = B4[{q} * BQ + (tx & 7u) + 16u * (tx >> 3u)];\n"
                ));
                t.push_str(&format!(
                    "   let bw{tag} = B4[{q} * BQ + (tx & 7u) + 8u + 16u * (tx >> 3u)];\n"
                ));
            } else {
                for i in 0..tm {
                    t.push_str(&format!(
                        "   let a{i}{tag} = As[(ty * {tm}u + {i}u) * PAD + {q}];\n"
                    ));
                }
                for j in 0..tn {
                    let idx = if permb {
                        format!("(16u * {j}u + tx)")
                    } else {
                        format!("(tx * {tn}u + {j}u)")
                    };
                    t.push_str(&format!("   let b{j}{tag} = Bs[{idx} * PAD + {q}];\n"));
                }
            }
        };
        let fma = |t: &mut String, tag: &str| {
            for i in 0..tm {
                for j in 0..tn {
                    let (a, b) = if v4 {
                        (
                            format!("av{}{tag}[{}]", i / 4, i % 4),
                            if j < 4 {
                                format!("bv{tag}[{j}]")
                            } else {
                                format!("bw{tag}[{}]", j - 4)
                            },
                        )
                    } else {
                        (format!("a{i}{tag}"), format!("b{j}{tag}"))
                    };
                    t.push_str(&format!("   c{i}{j} = c{i}{j} + {a} * {b};\n"));
                }
            }
        };
        if unroll_q == 0 {
            t.push_str("  var q: u32 = 0u;\n  loop {\n   if (q >= BK) { break; }\n");
            reads(&mut t, "q", "");
            fma(&mut t, "");
            t.push_str("   q = q + 1u;\n  }\n");
        } else if unroll_q >= BK {
            for q in 0..BK {
                reads(&mut t, &format!("{q}u"), &format!("_{q}"));
                fma(&mut t, &format!("_{q}"));
            }
        } else {
            t.push_str("  var q0: u32 = 0u;\n  loop {\n   if (q0 >= BK) { break; }\n");
            for u in 0..unroll_q {
                reads(&mut t, &format!("(q0 + {u}u)"), &format!("_{u}"));
                fma(&mut t, &format!("_{u}"));
            }
            t.push_str(&format!("   q0 = q0 + {unroll_q}u;\n  }}\n"));
        }
        t
    };

    if v4 {
        s.push_str(&v4_setup());
        s.push_str(&bog_decl);
        s.push_str(&bv_decl());
    }

    if !double {
        s.push_str(" var k0: u32 = 0u;\n loop {\n  if (k0 >= gd.k) { break; }\n");
        s.push_str(&load_as("k0", "As"));
        s.push_str(&load_bs("k0", "Bs"));
        s.push_str("  workgroupBarrier();\n");
        s.push_str(&compute());
        s.push_str("  workgroupBarrier();\n");
        s.push_str("  k0 = k0 + BK;\n }\n");
    } else {
        s.push_str(" var k0: u32 = 0u;\n");
        s.push_str(&load_as("k0", "As"));
        s.push_str(&load_bs("k0", "Bs"));
        s.push_str(" workgroupBarrier();\n");
        s.push_str(" loop {\n  if (k0 >= gd.k) { break; }\n");
        s.push_str("  let kn = k0 + BK;\n");
        s.push_str(&pf_decl());
        s.push_str("  if (kn < gd.k) {\n");
        s.push_str(&pf_as("kn"));
        s.push_str(&pf_bs("kn"));
        s.push_str("  }\n");
        s.push_str(&compute());
        s.push_str("  workgroupBarrier();\n");
        s.push_str("  if (kn < gd.k) {\n");
        s.push_str(&store_as());
        s.push_str(&store_bs());
        s.push_str("  }\n  workgroupBarrier();\n");
        s.push_str("  k0 = kn;\n }\n");
    }

    for i in 0..tm {
        s.push_str(&format!("let row{i} = m0 + ty * {tm}u + {i}u;\n"));
    }
    for i in 0..tm {
        for e in 0..tn / 2 {
            let je = 2 * e;
            let jo = je + 1;
            s.push_str(&format!(
                "let we{i}_{e} = (row{i} * gd.n + n0 + tx * {tn}u + {je}u) / 2u;\n"
            ));
            s.push_str(&format!(
                "C[we{i}_{e}] = pack2x16float(vec2<f32>(c{i}{je}, c{i}{jo}));\n"
            ));
        }
    }
    s.push_str("}\n");
    s
}

fn check(tm: usize, tn: usize, wgx: usize, wgy: usize, double: bool, unroll: usize, permb: bool, v4: bool) {
    let got = gemm_shader(tm, tn, wgx, wgy, double, unroll, permb, v4);
    assert_eq!(got, spelled(tm, tn, wgx, wgy, double, unroll, permb, v4));
}

#[test]
fn gemm_source_of_the_shipped_shapes() {
    check(8, 8, 16, 16, true, 0, true, false);
    check(8, 8, 16, 16, true, 4, true, false);
    check(8, 8, 16, 16, true, 4, true, true);
}

#[test]
fn gemm_source_of_the_wide_tiles() {
    check(16, 8, 16, 8, false, 4, true, true);
    check(16, 8, 16, 8, true, 4, true, true);
    check(8, 8, 16, 8, true, 4, true, true);
    check(16, 8, 16, 8, true, 0, true, true);
}

#[test]
fn gemm_source_unpermuted_and_unrolled() {
    check(4, 4, 8, 8, false, 0, false, false);
    check(4, 4, 8, 8, true, 16, false, false);
    check(8, 4, 16, 8, false, 2, true, false);
}
