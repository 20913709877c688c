use qwen3_asr_wgpu::checks::{
    agreement, baseline, by_label, device_text, dump_entry, layer_file, mark_labels, matches_baseline, mel_frames,
    op_name, required, seed_span, timed_parts, totals,
};
use qwen3_asr_wgpu::golden::{diff_f16, gap, Gap, Meta, Recorded, TensorLens};

fn words(s: &str) -> Vec<String> {
    s.split(' ').map(str::to_string).collect()
}

fn meta() -> Meta {
    Meta {
        model_dir: "m".to_string(),
        wav: "w".to_string(),
        tag: "q06_15s_en".to_string(),
        hidden_size: 8,
        intermediate_size: 16,
        num_hidden_layers: 2,
        num_attention_heads: 2,
        num_key_value_heads: 1,
        head_dim: 4,
        vocab_size: 10,
        rms_norm_eps: 0,
        rope_theta: 0,
        mrope_section: vec![1, 1],
        mrope_interleaved: true,
        audio_start_pos: 0,
        nat: 1,
        seq_len: 3,
        max_seq: 6,
        max_new_tokens: 3,
        first_token: 5,
        last_token: 9,
        n_decode: 2,
        n_dumped_step_logits: 1,
    }
}

fn lens() -> TensorLens {
    TensorLens { hidden: 24, cos: 24, k_cache: 24, v_cache: 24, step_logits: 10 }
}

#[test]
fn recordings_are_checked() {
    let m = meta();
    assert!(m.check_integrity(&lens()).is_ok());
    let short = TensorLens { k_cache: 23, ..lens() };
    let e = m.check_integrity(&short).unwrap_err();
    assert_eq!(e.what, Recorded::KCache);
    assert_eq!((e.got, e.want), (23, 24));
    assert!(m.describe_fault(&e).contains("23"));
    assert_eq!(m.layer_range(1), (12, 24));
    assert_eq!(m.expected_sequence(&vec![5, 6]), vec![5, 6, 9]);
}

#[test]
fn half_precision_differences() {
    let d = diff_f16(&[1, 2, 3], &[1, 5, 3]);
    assert_eq!((d.n_exact, d.n, d.first_bad), (2, 3, Some(1)));
    assert!(!d.exact());
    assert_eq!(d.max_abs, Gap::Units(3));
    assert_eq!(d, diff_f16(&[1, 5, 3], &[1, 2, 3]));
    assert!(diff_f16(&[1, 2], &[1, 2]).exact());
    let none = diff_f16(&[], &[7]);
    assert_eq!((none.max_abs, none.n, none.first_bad), (Gap::Units(0), 0, None));
}

#[test]
fn sequences_that_agree() {
    let a = agreement(&vec![1, 2, 3], &vec![1, 2, 3]);
    assert_eq!((a.len, a.mismatches, a.first), (3, 0, None));
    assert_eq!(a.sequence(&vec![1, 2, 3], &vec![1, 2, 3]), "  sequence: 3 ids, 0 mismatches — IDENTICAL");
    assert!(a.window(3).is_none());
    assert!(a.accepted(1, 1));
    assert!(!a.accepted(2, 1));
}

#[test]
fn sequences_that_differ() {
    let e = vec![1, 2, 3, 4, 5, 6, 7, 8, 9, 10, 11, 12, 13];
    let mut g = e.clone();
    g[4] = -7;
    g[6] = 0;
    g.pop();
    let a = agreement(&e, &g);
    assert_eq!((a.len, a.mismatches, a.first), (12, 2, Some(4)));
    assert_eq!(a.sequence(&e, &g), "  sequence: 12 ids, 2 mismatches (first at index 4: ref=5 got=-7)");
    assert_eq!(a.aligned(&e, &g), "  tokens: 10/12 aligned (first diff at 4: ref=5 got=-7)");
    assert_eq!(a.window(13), Some((2, 10)));
    assert_eq!(a.window(5), Some((2, 5)));
    assert!(!a.accepted(1, 1));
}

#[test]
fn caches_are_seeded_head_by_head() {
    let s = seed_span(2, 3, 4, 6);
    assert_eq!((s.from, s.to, s.offset), (24, 36, 96));
    let next = seed_span(3, 3, 4, 6);
    assert_eq!(next.from, s.to);
    assert!(s.offset + 3 * 4 * 2 <= next.offset);
}

#[test]
fn profile_marks() {
    let m = mark_labels(3, false);
    assert_eq!(m.len(), 30);
    assert_eq!(m[0], "start");
    assert_eq!(m[1], "embed");
    assert_eq!(m[2], "L0:rms1");
    assert_eq!(m[11], "rms1");
    assert_eq!(m[28], "L2:gemv_dp");
    assert_eq!(m[29], "tail_rms+lm+argmax");
    let skipped = mark_labels(3, true);
    assert_eq!(skipped[2], "skipped");
    assert_eq!(skipped[3], "L0:gemv_qkv");
    assert_eq!(op_name(3), "gqa");
    assert_eq!(op_name(8), "gemv_dp");
}

#[test]
fn profiles_add_up() {
    let labels = words("start b a b");
    let t = totals(&labels, &vec![100, 130, 131, 141]);
    let rows: Vec<(String, u64, usize)> = t.iter().map(|x| (x.name.clone(), x.nanos, x.count)).collect();
    assert_eq!(rows, vec![("b".to_string(), 40, 2), ("a".to_string(), 1, 1)]);
    assert_eq!(by_label(&t), vec![1, 0]);
    assert_eq!(t.iter().map(|x| x.nanos).sum::<u64>(), 41);
}

#[test]
fn names() {
    assert_eq!(layer_file(3, "norm1"), "L03_norm1");
    assert_eq!(layer_file(27, "h"), "L27_h");
    assert_eq!(timed_parts("q17_15s_en"), words("15"));
    assert_eq!(timed_parts("as_s_x"), vec!["a".to_string(), String::new()]);
    assert_eq!(dump_entry("gqa_pair_diag"), "gqa_split_p1_pair");
    assert_eq!(dump_entry("gqa_single"), "gqa");
    assert_eq!(dump_entry("gqa_split"), "gqa_split_p1");
    assert_eq!(dump_entry("extract"), "qkv_extract");
    assert_eq!(dump_entry("gemm"), "softmax");
}

#[test]
fn run_arguments() {
    let a = words("p --model m --adapter nv");
    assert_eq!(required(&a, "--model", "QASR_MODEL", &None), Ok("m".to_string()));
    assert_eq!(required(&a, "--wav", "QASR_WAV", &Some("w".to_string())), Ok("w".to_string()));
    assert_eq!(
        required(&a, "--wav", "QASR_WAV", &Some(String::new())),
        Err("--wav is required (or set QASR_WAV)".to_string())
    );
    assert_eq!(device_text(&a, &Some("x".to_string())), Some("nv".to_string()));
    assert_eq!(device_text(&words("p --cpu-dec --device d"), &None), Some("cpu".to_string()));
    assert_eq!(device_text(&words("p --adapter a --device d"), &None), Some("d".to_string()));
    assert_eq!(device_text(&words("p"), &Some("x".to_string())), Some("x".to_string()));
    assert_eq!(device_text(&words("p"), &Some(String::new())), None);
    assert_eq!(mel_frames(512 * 7), Some(7));
    assert_eq!(mel_frames(510), None);
    assert_eq!(mel_frames(516), None);
}

#[test]
fn baselines() {
    let raw = "elapsed\r\n\r\n hello there \r\n\r\nmore";
    assert_eq!(baseline(raw), "hello there");
    assert!(matches_baseline("hello there\n", raw));
    assert!(!matches_baseline("hello", raw));
    assert_eq!(baseline("only one"), "");
    assert_eq!(baseline("a\n\nb"), "b");
    assert_eq!(baseline("a\n\n\nb"), "b");
}

#[test]
fn gaps_between_halves() {
    let (zero, one, two, minus_one) = (0x0000u16, 0x3C00u16, 0x4000u16, 0xBC00u16);
    let (inf, minus_inf, nan, max) = (0x7C00u16, 0xFC00u16, 0x7E00u16, 0x7BFFu16);
    assert_eq!(gap(one, two), Gap::Units(1 << 24));
    assert_eq!(gap(minus_one, two), Gap::Units(3 << 24));
    assert_eq!(gap(0x0001, 0x8001), Gap::Units(2));
    assert_eq!(gap(zero, 0x8000), Gap::Units(0));
    assert_eq!(gap(max, zero), Gap::Units(65504 << 24));
    assert_eq!(gap(inf, one), Gap::Infinite);
    assert_eq!(gap(inf, minus_inf), Gap::Infinite);
    assert_eq!(gap(inf, inf), Gap::Units(0));
    assert_eq!(gap(nan, one), Gap::Units(0));
    assert_eq!(gap(nan, inf), Gap::Units(0));
    let d = diff_f16(&[one, two, nan], &[one, one, one]);
    assert_eq!((d.max_abs, d.n_exact, d.first_bad), (Gap::Units(1 << 24), 1, Some(1)));
    for bits in [0x0001u16, 0x03FF, 0x0400, 0x3555, 0x7BFF] {
        let x = half::f16::from_bits(bits).to_f64();
        assert_eq!(gap(bits, zero), Gap::Units((x * (1u64 << 24) as f64) as u64));
    }
}
