use qwen3_asr_wgpu::bench::{
    attn_words, dump_variant, gemv_source, merge_plan, replace, runs, tiles_even, variants, Variant,
};
use qwen3_asr_wgpu::device::{Api, DeviceInfo, DeviceType};
use qwen3_asr_wgpu::lcg::{draws24, pack_pairs, unpack_pairs, Lcg};
use qwen3_asr_wgpu::probe::{
    corner_taps, entry_of, error_blocks, exp_plan, exp_words, feature_row, first_difference, first_line, gemm_plan,
    gemm_words, gemv_plan, immediate_limit, kernels_of, pattern, pick_adapter, rejection, requested, spike_codes,
    spikes, tile_list, with_enable, Caps, PickError,
};

fn adapter(name: &str, device_type: DeviceType) -> DeviceInfo {
    DeviceInfo {
        name: name.to_string(),
        backend: Api::Vulkan,
        device_type,
        driver: String::new(),
        driver_info: String::new(),
        max_binding_bytes: 0,
        max_workgroup_storage: 0,
        subgroup: false,
        subgroup_min: 0,
        subgroup_max: 0,
        timestamps: false,
        vendor_id: 0,
        device_id: 0,
    }
}

#[test]
fn the_generators_are_reproducible() {
    let mut g = Lcg { state: 0xDEB };
    let mut s: u64 = 0xDEB;
    for _ in 0..5 {
        s = s.wrapping_mul(6364136223846793005).wrapping_add(1442695040888963407);
        assert_eq!(g.next_u32(), (s >> 33) as u32);
    }
    let mut a = Lcg { state: 7 };
    let mut b = Lcg { state: 7 };
    let codes = a.codes(4);
    let draws = b.draws(4);
    for (c, d) in codes.iter().zip(&draws) {
        assert_eq!(*c, (d % 256) as u8 as i8);
    }
    assert_eq!(a.i8(), (b.next_u32() % 256) as u8 as i8);
    let mut seed = 42u32;
    let v = draws24(2, &mut seed);
    let one = 42u32.wrapping_mul(1664525).wrapping_add(1013904223);
    let two = one.wrapping_mul(1664525).wrapping_add(1013904223);
    assert_eq!(v, vec![one >> 8, two >> 8]);
    assert_eq!(seed, two);
}

#[test]
fn pairs_round_trip() {
    let h = vec![0x1234u16, 0xABCD, 0, 0xFFFF];
    assert_eq!(pack_pairs(&h), vec![0xABCD_1234, 0xFFFF_0000]);
    assert_eq!(unpack_pairs(&pack_pairs(&h)), h);
}

#[test]
fn adapters_are_picked() {
    let m = vec![
        adapter("Soft", DeviceType::Cpu),
        adapter("UHD Graphics", DeviceType::IntegratedGpu),
        adapter("GeForce", DeviceType::DiscreteGpu),
    ];
    assert!(matches!(pick_adapter(&m, None), Ok(2)));
    assert!(matches!(pick_adapter(&m, Some("uhd")), Ok(1)));
    assert!(matches!(pick_adapter(&m, Some("UHD g")), Ok(1)));
    assert!(matches!(pick_adapter(&m[..1].iter().map(|_| adapter("Soft", DeviceType::Cpu)).collect(), None), Ok(0)));
    assert!(matches!(pick_adapter(&m, Some("Radeon")), Err(PickError::NoMatch(w)) if w == "radeon"));
    assert!(matches!(pick_adapter(&Vec::new(), None), Err(PickError::NoAdapters)));
}

#[test]
fn capabilities() {
    let all = Caps { subgroup: true, subgroup_barrier: true, immediates: true };
    assert!(requested(&all).unwrap().immediates);
    assert!(requested(&Caps { subgroup: false, subgroup_barrier: true, immediates: false }).is_none());
    assert!(requested(&Caps { subgroup: false, subgroup_barrier: false, immediates: false }).is_some());
    assert_eq!(immediate_limit(&all, 256), 128);
    assert_eq!(immediate_limit(&all, 64), 64);
    assert_eq!(feature_row("SUBGROUP", true), format!("  {:<32} YES", "SUBGROUP"));
    assert_eq!(feature_row("X", false), format!("  {:<32} no", "X"));
}

#[test]
fn probe_sources_and_messages() {
    assert_eq!(entry_of("@compute fn reduce() {}"), "reduce");
    assert_eq!(entry_of("fn probe() {}"), "probe");
    assert_eq!(with_enable("x"), "enable subgroups;\nx");
    assert_eq!(rejection("the `subgroups` extension"), "confirms naga #5555");
    assert_eq!(rejection("Unimplemented"), "confirms naga #5555");
    assert_eq!(rejection("other"), "different error — read it");
    assert_eq!(first_line("one\r\ntwo"), "one");
    assert_eq!(first_line(""), "");
    let k = kernels_of("norm");
    assert!(k.norm && !k.gemv && !k.gemm);
    let k = kernels_of("all");
    assert!(k.norm && k.gemv && k.gemm);
}

#[test]
fn probe_plans() {
    let p = gemv_plan(64, 1024, false);
    let sizes: Vec<(&str, u64, u32)> = p.buffers.iter().map(|b| (b.label, b.size, b.binding)).collect();
    assert_eq!(sizes, vec![("w", 65536, 0), ("x", 2048, 1), ("y", 128, 2), ("s", 256, 3)]);
    assert_eq!(p.groups, (8, 1));
    assert_eq!(p.out_bytes, 128);
    assert_eq!(gemv_plan(64, 1024, true).buffers.len(), 5);
    let p = gemm_plan(128, 128, 1024, false);
    let sizes: Vec<(&str, u64, u32)> = p.buffers.iter().map(|b| (b.label, b.size, b.binding)).collect();
    assert_eq!(sizes, vec![("a", 262144, 0), ("w", 131072, 1), ("c", 32768, 2), ("s", 512, 4)]);
    assert_eq!(p.groups, (1, 1));
    assert_eq!(gemm_plan(128, 128, 1024, true).buffers[1].size, 262144);
    assert_eq!(gemm_words(128, 64, 1024), vec![128, 64, 1024, 64, 0, 0, 0, 0, 0, 1024]);
    let p = exp_plan(257);
    assert_eq!(p.groups, (2, 1));
    assert_eq!(p.out_bytes, 257 * 96);
    let w = exp_words(9);
    assert_eq!(w[0], 9);
    assert_eq!(f32::from_bits(w[2]), std::f32::consts::LOG2_E);
}

#[test]
fn spikes_and_patterns() {
    let c = spike_codes(128, 1024, &spikes());
    assert_eq!(c.len(), 128 * 1024);
    assert_eq!(c.iter().filter(|v| **v == 127).count(), 8);
    assert_eq!(c[4 * 1024 + 259], 127);
    assert_eq!(c[1], 0);
    let p = pattern(4, 0xDEAD_BEEF);
    assert_eq!(p, vec![0xDEAD_BEEF, 0xDEAD_BEEE, 0xDEAD_BEED, 0xDEAD_BEEC]);
    assert_eq!(corner_taps(50), vec![(4, 0), (5, 1), (7, 50), (8, 51)]);
}

#[test]
fn wrong_entries_by_block() {
    let (m, n) = (32usize, 64usize);
    let mut bad = vec![false; m * n];
    bad[0] = true;
    bad[15 * n + 31] = true;
    bad[16 * n + 32] = true;
    let (blocks, total) = error_blocks(&bad, m, n);
    assert_eq!(blocks, vec![2, 0, 0, 1]);
    assert_eq!(total, 3);
    assert_eq!(blocks.iter().sum::<u32>(), total);
}

#[test]
fn differences() {
    assert_eq!(first_difference(&vec![1, 2, 3], &vec![1, 2, 4], 3), Some(2));
    assert_eq!(first_difference(&vec![1, 2, 3], &vec![1, 2, 4], 2), None);
}

#[test]
fn bench_variants() {
    let v = variants();
    let titles: Vec<String> = v.iter().map(|x| x.title()).collect();
    assert_eq!(
        titles,
        vec!["8x8/16x16DP", "8x8/16x16DU4P", "8x8/16x16DU4PV", "16x8/16x8U4PV", "16x8/16x8DU4PV", "8x8/16x8DU4PV", "16x8/16x8DPV"]
    );
    let s = v[0].setup(1170, 2688, 896);
    assert_eq!((s.m, s.n, s.k), (1280, 2688, 896));
    assert_eq!(s.grid, (21, 10));
    assert_eq!(s.a_words, 1280 * 448);
    assert_eq!(s.c_words, 1280 * 2688 / 2);
    assert_eq!(s.words(), vec![1280, 2688, 896, 0]);
    assert_eq!(s.corner(), (256, 256));
    let t = Variant { tm: 1, tn: 1, wgx: 8, wgy: 8, double: false, unroll: 0, permuted: false, chunked: false };
    assert_eq!(t.title(), "1x1/8x8");
    assert_eq!(t.setup(64, 16, 2).corner(), (64, 16));
}

#[test]
fn dump_requests() {
    let v = dump_variant("8,8,4,1,0").unwrap();
    assert_eq!((v.tm, v.tn, v.unroll, v.permuted, v.chunked), (8, 8, 4, true, false));
    assert!(dump_variant("8,x,4,1,0").is_none());
    assert!(v.buildable());
    assert!(variants().iter().all(|v| v.buildable()));
    for spec in ["3,8,0,0,0", "0,8,0,0,0", "8,4,0,1,1", "8,8,0,0,1", "99999999999999999,8,0,0,0"] {
        assert!(!dump_variant(spec).unwrap().buildable(), "{spec}");
    }
}

#[test]
fn templates_are_filled_in() {
    assert_eq!(replace("aXbXXc", "X", "yy"), "aXbXXc".replace("X", "yy"));
    assert_eq!(replace("aaaa", "aa", "b"), "bb");
    assert_eq!(replace("", "a", "b"), "");
    assert_eq!(
        gemv_source("KG={kg}u T={tiles}u W={xw}u W2={xw2}u", 1024),
        "KG=128u T=4u W=128u W2=256u"
    );
    assert!(tiles_even(1024));
    assert!(!tiles_even(256));
    assert_eq!(merge_plan(1024, 2), (vec![512, 2], 2));
}

#[test]
fn attention_scenarios() {
    assert!(runs(256, 1, 0, false));
    assert!(!runs(256, 2, 0, false));
    assert!(runs(512, 2, 8, false));
    assert!(runs(256, 1, 99, true));
    assert!(!runs(256, 1, 8, true));
    assert!(!runs(512, 1, 4, true));
    assert_eq!(attn_words(2560, 2688, 0x3E00_0000, 256), vec![2560, 2688, 0x3E00_0000, 10]);
    assert_eq!(attn_words(2561, 2688, 0, 256)[3], 11);
}

#[test]
fn conv_tiles_to_time() {
    assert_eq!(tile_list(&None), vec![8]);
    assert_eq!(tile_list(&Some("8, 16,x,,32 ".to_string())), vec![8, 16, 32]);
    assert!(tile_list(&Some(String::new())).is_empty());
}
