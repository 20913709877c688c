use qwen3_asr_wgpu::cpu_decoder::{check_config, embed_fits, rope_partner, CpuError, CpuTextDecoder};
use qwen3_asr_wgpu::cpu_forward::{stages, HeadMove, Step};
use qwen3_asr_wgpu::decoder::{
    gqa_split_chunk, grow_target, pair_split_entry, slab_path, softmax_blocks, SlabMode, Switches, TextConfig,
    WgpuTextDecoder,
};
use qwen3_asr_wgpu::decoder_build::{caches, weight_fills, Form};
use qwen3_asr_wgpu::decoder_load::{
    check_embed, constants, joined, kv_bind_groups, layer_prefix, layer_weight_names, scratch,
};
use qwen3_asr_wgpu::decoder_ops::{Buf, Kernel, Op, Uniform};
use qwen3_asr_wgpu::decoder_prefill::{prefill_dims, PrefillError};
use qwen3_asr_wgpu::pipelines::{pipelines, subgroup_ok};

fn small() -> TextConfig {
    TextConfig {
        vocab_size: 151936,
        hidden_size: 1024,
        intermediate_size: 3072,
        num_hidden_layers: 28,
        num_attention_heads: 16,
        num_key_value_heads: 8,
        head_dim: 128,
        rms_norm_eps_bits: 1e-6f32.to_bits(),
    }
}

fn plain() -> Switches {
    Switches::read(&None, "", "", &None, "", "", &None, "", &None, String::new(), String::new())
}

fn dispatches(ops: &[Op]) -> usize {
    ops.iter().filter(|o| matches!(o, Op::Dispatch { .. })).count()
}

#[test]
fn widths() {
    let c = small();
    assert_eq!((c.q_dim(), c.kv_dim(), c.fused_qkv_cols()), (2048, 1024, 4096));
}

#[test]
fn switches_from_settings() {
    let s = plain();
    assert_eq!(s.gemv_rpw, 8);
    assert!(s.sg_reduce && s.gqa_pf && s.gqa_pair && !s.gqa_coop);
    assert_eq!(s.slab, SlabMode::Auto);
    let s = Switches::read(
        &Some("16".to_string()),
        "OFF",
        "force",
        &Some("4".to_string()),
        "yes",
        "0",
        &Some("128".to_string()),
        "no",
        &Some("64".to_string()),
        "a".to_string(),
        "b".to_string(),
    );
    assert_eq!((s.gemv_rpw, s.gqa_depth, s.gqa_chunk, s.sm_bs), (16, 4, 128, 64));
    assert!(!s.sg_reduce && !s.gqa_pf && !s.gqa_pair && s.gqa_coop);
    assert_eq!(s.slab, SlabMode::Always);
    let s = Switches::read(
        &Some("7".to_string()),
        "",
        "off",
        &Some("17".to_string()),
        "",
        "",
        &Some("300".to_string()),
        "",
        &Some("x".to_string()),
        String::new(),
        String::new(),
    );
    assert_eq!((s.gemv_rpw, s.gqa_depth, s.gqa_chunk, s.sm_bs), (8, 1, 0, 0));
    assert_eq!(s.slab, SlabMode::Never);
}

#[test]
fn attention_sizes() {
    assert_eq!(gqa_split_chunk(0, 2047), 256);
    assert_eq!(gqa_split_chunk(0, 2048), 512);
    assert_eq!(gqa_split_chunk(128, 4000), 128);
    assert_eq!(softmax_blocks(100, 0), (128, 128));
    assert_eq!(softmax_blocks(900, 0), (128, 1024));
    assert_eq!(softmax_blocks(900, 256), (256, 1024));
    assert_eq!(softmax_blocks(100, 64), (128, 128));
    assert_eq!(softmax_blocks(200, 64), (64, 256));
    assert_eq!(softmax_blocks(40, 64), (64, 64));
    assert_eq!(pair_split_entry(16, 8), "gqa_split_p1_pair");
    assert_eq!(pair_split_entry(16, 16), "gqa_split_p1");
    assert_eq!(pair_split_entry(5, 2), "gqa_split_p1");
    assert_eq!(pair_split_entry(4, 2), "gqa_split_p1_pair");
    assert!(slab_path(SlabMode::Always, 1));
    assert!(!slab_path(SlabMode::Never, 100000));
}

#[test]
fn caches_grow_in_steps() {
    assert_eq!(grow_target(300, 4096, 256), 512);
    assert_eq!(grow_target(10, 4096, 512), 512);
    assert_eq!(grow_target(5000, 4096, 512), 4096);
    let mut d = WgpuTextDecoder::new(small(), 4096);
    let before = d.cap;
    assert_eq!(d.ensure_capacity(before), before);
    let after = d.ensure_capacity(before + 1);
    assert_eq!(after, before + 256);
    assert_eq!(d.kv_bytes(), 8 * after as u64 * 128 * 2);
}

#[test]
fn one_step() {
    let mut d = WgpuTextDecoder::new(small(), 4096);
    d.pos = 100;
    assert_eq!(d.dispatches_per_step(101), 3 + 28 * 7);
    assert_eq!(d.dispatches_per_step(1024), 3 + 28 * 7);
    assert_eq!(d.dispatches_per_step(1025), 3 + 28 * 8);
    let sw = plain();
    let ops = d.step(&sw, 0);
    assert_eq!(dispatches(&ops), d.dispatches_per_step(101));
    assert!(ops.iter().any(|o| matches!(o, Op::CopyToken)));
    assert_eq!(d.stepped::<()>(Ok(5)), Ok(5));
    assert_eq!(d.pos, 101);
    assert_eq!(d.stepped::<u8>(Err(3)), Err(3));
    let layer = (4096 * 1024 + 1024 * 2048 + 2 * 3072 * 1024 + 1024 * 3072) * 2u64;
    assert_eq!(d.step_weight_bytes(), 28 * layer + 151936 * 1024 * 2);
}

#[test]
fn prefills() {
    let mut d = WgpuTextDecoder::new(small(), 4096);
    d.ensure_capacity(4096);
    let sw = plain();
    let s = 200;
    let plan = d.prefill(&sw, 0, s * 1024 * 2, s, 0, 1 << 30).unwrap();
    assert_eq!((plan.dims.s, plan.dims.cur, plan.dims.mp), (200, 200, 256));
    assert!(dispatches(&plan.ops) > 28);
    assert!(matches!(d.prefill(&sw, 0, 10, s, 0, 1 << 30), Err(PrefillError::HiddenSize)));
    assert!(matches!(
        d.prefill(&sw, 0, s * 1024 * 2, s, 0, 1000),
        Err(PrefillError::AttnScratch { .. } | PrefillError::SlabScratch { .. })
    ));
    assert_eq!(d.prefilled::<()>(&plan.dims, Ok(9)), Ok(9));
    assert_eq!(d.pos, 200);
    let dims = prefill_dims(129, 10, false);
    assert_eq!((dims.cur, dims.mp), (139, 256));
}

#[test]
fn loading() {
    let c = small();
    assert!(check_embed(&c, 151936, 1024).is_ok());
    let e = check_embed(&c, 10, 1024).unwrap_err();
    assert!(e.message().contains("151936"));
    assert_eq!(joined("a.b", ".c.weight"), "a.b.c.weight");
    assert_eq!(layer_prefix("thinker.model", 7), "thinker.model.layers.7");
    let names = layer_weight_names("m", 0);
    assert!(names.contains(&"m.layers.0.self_attn.q_proj.weight".to_string()));
    assert!(!scratch(&c, 4096, 4096).is_empty());
    assert!(!constants(&c).is_empty());
    for g in kv_bind_groups(3) {
        assert!(g.bindings().iter().any(|b| b.buf == Buf::KCache(3) || b.buf == Buf::VCache(3)));
    }
}

#[test]
fn pipelines_are_distinct() {
    let all = pipelines(&small(), &plain(), true);
    assert!(all.len() > 20);
    assert!(subgroup_ok(true, 32, 32));
    assert!(!subgroup_ok(true, 16, 32));
    assert!(!subgroup_ok(false, 32, 32));
}

#[test]
fn host_decoder() {
    let c = small();
    assert!(check_config(&c).is_ok());
    let bad = TextConfig { num_attention_heads: 15, ..c };
    let e = check_config(&bad).unwrap_err();
    assert_eq!(e.message(), "15 heads are not a multiple of 8 kv heads");
    assert_eq!(check_config(&TextConfig { vocab_size: 0, ..c }).unwrap_err(), CpuError::Degenerate);
    let none = check_config(&TextConfig { num_key_value_heads: 0, ..c }).unwrap_err();
    assert_eq!(none, CpuError::Heads { heads: 16, kv_heads: 0 });
    assert_eq!(none.message(), "16 heads are not a multiple of 0 kv heads");
    assert!(embed_fits(&c, &[151936, 1024]));
    assert!(!embed_fits(&c, &[151936, 1000]));
    let mut d = CpuTextDecoder::new(c, 1000);
    assert_eq!(d.prefill(100 * 1024 * 2 + 6, 100, 0), Ok(100 * 1024 * 2));
    assert_eq!(d.prefill(1, 100, 0).unwrap_err().message(), "prefill hidden size mismatch");
    assert_eq!(
        d.prefill(2000 * 1024 * 2, 2000, 0).unwrap_err(),
        CpuError::TooLong { need: 2000, max_seq: 1000 }
    );
    d.ensure_capacity(100);
    d.prefilled(100, 0, 42);
    assert_eq!(d.step(), Ok((42, 100)));
    d.ensure_capacity(1000);
    d.stepped(7);
    assert_eq!(d.pos, 101);
    assert_eq!(d.kv_head(5), 2);
    assert_eq!(d.visible(10), 11);
    assert_eq!(d.cache_len(), 28 * 8 * d.cap * 128);
    assert_eq!(d.kv_at(1, 2, 3), ((8 + 2) * d.cap + 3) * 128);
    d.pos = 1000;
    assert_eq!(d.step().unwrap_err().message(), "decode past max_seq 1000");
}

#[test]
fn rotary_partners() {
    assert_eq!(rope_partner(128, 3), (67, true));
    assert_eq!(rope_partner(128, 67), (3, false));
}

#[test]
fn host_passes() {
    let s = stages(2);
    assert_eq!(s.len(), 16);
    assert_eq!(s[0], (0, Step::Norm1));
    assert_eq!(s[3], (0, Step::Attend));
    assert_eq!(s[15], (1, Step::Down));
    let mut d = CpuTextDecoder::new(small(), 1000);
    d.ensure_capacity(300);
    let m = d.moves(2, 5, 3);
    assert_eq!(m.len(), 3 * 24);
    assert_eq!(m[0], HeadMove::Query { at: 0, pos: 5 });
    assert_eq!(m[17], HeadMove::Store { from: 128, to: d.kv_at(2, 1, 5), pos: 5 });
    assert_eq!(m[24], HeadMove::Query { at: 2048, pos: 6 });
    assert_eq!(m[71], HeadMove::Store { from: 2 * 1024 + 7 * 128, to: d.kv_at(2, 7, 7), pos: 7 });
}

#[test]
fn prefill_served() {
    let d = WgpuTextDecoder::new(small(), 4096);
    let plain = plain();
    assert!(d.serves_prefill(&plain, 100, 0));
    assert!(d.serves_prefill(&plain, 600, 0));
    let forced = |w: &str| {
        let w = Some(w.to_string());
        Switches::read(&None, "", "off", &None, "", "", &None, "", &w, String::new(), String::new())
    };
    assert!(d.serves_prefill(&forced("64"), 100, 0));
    assert!(!d.serves_prefill(&forced("32"), 100, 0));
    assert!(d.serves_prefill(&forced("64"), 200, 0));
    let mut deep = small();
    deep.num_hidden_layers = 40;
    let deep = WgpuTextDecoder::new(deep, 4096);
    assert!(!deep.serves_prefill(&forced("0"), 100, 0));
    assert!(deep.serves_prefill(&forced("0"), 512, 0));
}

#[test]
fn loads() {
    let c = small();
    let plan = WgpuTextDecoder::load(c, &plain(), true, "thinker.model", 4096, 4096, 151936, 1024).ok().unwrap();
    assert_eq!((plan.decoder.max_seq, plan.decoder.pos), (4096, 0));
    assert_eq!(plan.pipelines.len(), pipelines(&c, &plain(), true).len());
    assert_eq!(plan.allocs.len(), 25 + 2 * 28);
    assert_eq!(plan.allocs[25].buf, Buf::KCache(0));
    assert_eq!(plan.allocs[25].bytes, plan.decoder.kv_bytes());
    assert_eq!(plan.fills.len(), 2 + 8 * 28);
    assert_eq!(plan.writes.len(), 3);
    let mut bufs: Vec<Buf> = plan.allocs.iter().map(|a| a.buf).collect();
    bufs.extend(plan.fills.iter().map(|f| f.buf));
    for (i, b) in bufs.iter().enumerate() {
        assert!(!bufs[..i].contains(b), "{b:?} is made twice");
    }
    for op in plan.decoder.step(&plain(), 0) {
        if let Op::Bind(g) = op {
            assert!(g.bindings().iter().all(|b| bufs.contains(&b.buf)), "{g:?}");
        }
    }
    let wrong = WgpuTextDecoder::load(c, &plain(), true, "thinker.model", 4096, 4096, 151936, 1000).err().unwrap();
    assert_eq!(wrong.message(), "embed_tokens is [151936x1000], expected [151936x1024]");
}

#[test]
fn weights_by_buffer() {
    let f = weight_fills("m", 2);
    assert_eq!(f[0].names, vec!["m.embed_tokens.weight"]);
    assert_eq!((f[1].buf, f[1].form), (Buf::FinalNormW, Form::Vector));
    assert_eq!((f[10].buf, f[10].form), (Buf::QkvW(1), Form::Fused));
    assert_eq!(
        f[10].names,
        vec![
            "m.layers.1.self_attn.q_proj.weight",
            "m.layers.1.self_attn.k_proj.weight",
            "m.layers.1.self_attn.v_proj.weight",
        ]
    );
    assert_eq!(f[13].names, vec!["m.layers.1.mlp.down_proj.weight"]);
    let kv = caches(2, 64);
    let bufs: Vec<Buf> = kv.iter().map(|a| a.buf).collect();
    assert_eq!(bufs, vec![Buf::KCache(0), Buf::VCache(0), Buf::KCache(1), Buf::VCache(1)]);
    assert!(kv.iter().all(|a| a.bytes == 64 && !a.uniform));
}

#[test]
fn debug_plans() {
    let d = WgpuTextDecoder::new(small(), 4096);
    let sw = plain();
    assert_eq!(d.debug_dispatch_embed(), d.debug_encode_embed());
    assert_eq!(d.debug_dispatch_tail(), d.debug_encode_tail());
    let uniforms = d.debug_write_step_uniforms(&sw, 7, 3);
    assert_eq!(uniforms.len(), 5);
    let op = d.debug_encode_op(&sw, 7, 2, 3, 4);
    assert_eq!(op[..5], uniforms[..]);
    assert_eq!(op[5..], d.debug_dispatch_op(&sw, 2, 3, 4)[..]);
}

fn chunks_told(ops: &[Op]) -> Vec<u32> {
    ops.iter()
        .filter_map(|o| match o {
            Op::Write { data: Uniform::Split { n_chunks, .. }, .. } => Some(*n_chunks),
            Op::Write { data: Uniform::Merge { n_chunks }, .. } => Some(*n_chunks),
            _ => None,
        })
        .collect()
}

#[test]
fn chunk_counts_agree() {
    let chunk = |c: &str, pair: &str| {
        let c = Some(c.to_string());
        Switches::read(&None, "", "", &None, "", "", &c, pair, &None, String::new(), String::new())
    };
    let mut d = WgpuTextDecoder::new(small(), 4096);
    d.ensure_capacity(3000);
    d.pos = 2999;
    for (sw, kernel, n) in [
        (chunk("128", ""), Kernel::GqaSplitPair256, 12),
        (chunk("128", "off"), Kernel::GqaSplit128, 24),
        (chunk("512", ""), Kernel::GqaSplitPair512, 6),
    ] {
        let ops = d.step(&sw, 0);
        assert_eq!(chunks_told(&ops), vec![n, n]);
        let at = ops.iter().position(|o| *o == Op::Pipeline(kernel)).unwrap();
        assert!(matches!(ops[at + 2], Op::Dispatch { y, .. } if y == n));
    }
}
