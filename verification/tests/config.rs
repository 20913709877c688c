use qwen3_asr_wgpu::config::{
    default_audio_end_token_id, default_audio_start_token_id, default_audio_token_id, AsrConfig, AsrConfigFile,
    AudioEncoderConfig, ConfigError, RopeParameters, RopeScaling, TextDecoderConfig, ThinkerConfig, EPS_BITS,
    THETA_BITS,
};
use serde_json::Value;

fn make_base_config() -> TextDecoderConfig {
    TextDecoderConfig {
        vocab_size: 151936,
        hidden_size: 1024,
        intermediate_size: 3072,
        num_hidden_layers: 28,
        num_attention_heads: 16,
        num_key_value_heads: 8,
        head_dim: 128,
        rms_norm_eps: 1e-6f64.to_bits(),
        rope_theta: 1_000_000.0f64.to_bits(),
        rope_scaling: None,
        rope_parameters: None,
    }
}

fn scaling(section: Vec<usize>, interleaved: bool, mrope_interleaved: bool) -> Option<RopeScaling> {
    Some(RopeScaling { rope_type: "mrope".to_string(), mrope_section: section, interleaved, mrope_interleaved })
}

#[test]
fn test_mrope_section_default_when_no_rope_scaling() {
    let cfg = make_base_config();
    assert_eq!(cfg.mrope_section(), vec![24, 20, 20]);
}

#[test]
fn test_mrope_section_custom() {
    let mut cfg = make_base_config();
    cfg.rope_scaling = scaling(vec![4, 4, 8], false, false);
    assert_eq!(cfg.mrope_section(), vec![4, 4, 8]);
}

#[test]
fn test_mrope_interleaved_default_true_when_no_rope_scaling() {
    let cfg = make_base_config();
    assert!(cfg.mrope_interleaved());
}

#[test]
fn test_mrope_interleaved_via_mrope_interleaved_flag() {
    let mut cfg = make_base_config();
    cfg.rope_scaling = scaling(vec![24, 20, 20], false, true);
    assert!(cfg.mrope_interleaved());
}

#[test]
fn test_mrope_interleaved_via_interleaved_flag() {
    let mut cfg = make_base_config();
    cfg.rope_scaling = scaling(vec![24, 20, 20], true, false);
    assert!(cfg.mrope_interleaved());
}

#[test]
fn test_mrope_interleaved_both_false() {
    let mut cfg = make_base_config();
    cfg.rope_scaling = scaling(vec![24, 20, 20], false, false);
    assert!(!cfg.mrope_interleaved());
}

fn size(v: &Value, name: &str) -> usize {
    v[name].as_u64().unwrap() as usize
}

fn audio_of(v: &Value) -> Option<AudioEncoderConfig> {
    v.as_object()?;
    Some(AudioEncoderConfig {
        d_model: size(v, "d_model"),
        encoder_layers: size(v, "encoder_layers"),
        encoder_attention_heads: size(v, "encoder_attention_heads"),
        encoder_ffn_dim: size(v, "encoder_ffn_dim"),
        num_mel_bins: size(v, "num_mel_bins"),
        max_source_positions: 1500,
        n_window: size(v, "n_window"),
        n_window_infer: size(v, "n_window_infer"),
        conv_chunksize: size(v, "conv_chunksize"),
        output_dim: size(v, "output_dim"),
    })
}

fn text_of(v: &Value) -> Option<TextDecoderConfig> {
    v.as_object()?;
    let p = &v["rope_parameters"];
    Some(TextDecoderConfig {
        vocab_size: size(v, "vocab_size"),
        hidden_size: size(v, "hidden_size"),
        intermediate_size: size(v, "intermediate_size"),
        num_hidden_layers: size(v, "num_hidden_layers"),
        num_attention_heads: size(v, "num_attention_heads"),
        num_key_value_heads: size(v, "num_key_value_heads"),
        head_dim: size(v, "head_dim"),
        rms_norm_eps: v["rms_norm_eps"].as_f64().unwrap().to_bits(),
        rope_theta: v["rope_theta"].as_f64().unwrap_or(1_000_000.0).to_bits(),
        rope_scaling: None,
        rope_parameters: p.as_object().map(|_| RopeParameters {
            rope_theta: p["rope_theta"].as_f64().map(f64::to_bits),
            rope_type: p["rope_type"].as_str().map(str::to_string),
            mrope_section: None,
        }),
    })
}

fn file_of(json: &str) -> AsrConfigFile {
    let v: Value = serde_json::from_str(json).unwrap();
    AsrConfigFile {
        thinker_config: None,
        audio_config: audio_of(&v["audio_config"]),
        text_config: text_of(&v["text_config"]),
        audio_token_id: v["audio_token_id"].as_i64(),
        audio_start_token_id: v["audio_start_token_id"].as_i64(),
        audio_end_token_id: v["audio_end_token_id"].as_i64(),
    }
}

const NATIVE: &str = r#"{
    "audio_config": {
        "d_model": 896,
        "encoder_layers": 18,
        "encoder_attention_heads": 14,
        "encoder_ffn_dim": 3584,
        "num_mel_bins": 128,
        "n_window": 50,
        "n_window_infer": 800,
        "conv_chunksize": 500,
        "output_dim": 1024
    },
    "audio_token_id": 151676,
    "text_config": {
        "vocab_size": 151936,
        "hidden_size": 1024,
        "intermediate_size": 3072,
        "num_hidden_layers": 28,
        "num_attention_heads": 16,
        "num_key_value_heads": 8,
        "head_dim": 128,
        "rms_norm_eps": 1e-6,
        "rope_parameters": { "rope_theta": 1000000, "rope_type": "default" }
    }
}"#;

#[test]
fn test_parse_hf_native_config_layout() {
    let raw = file_of(NATIVE);
    assert!(raw.thinker_config.is_none());
    assert_eq!(raw.audio_config.as_ref().unwrap().encoder_layers, 18);
    let theta = raw.text_config.as_ref().unwrap().rope_parameters.as_ref().unwrap().rope_theta.unwrap();
    assert_eq!(f64::from_bits(theta), 1_000_000.0);
    let cfg = AsrConfig::from_raw(raw).unwrap();
    assert_eq!(cfg.thinker_config.audio_config.encoder_layers, 18);
    assert_eq!(f64::from_bits(cfg.thinker_config.text_config.rope_theta), 1_000_000.0);
    assert_eq!(cfg.thinker_config.audio_token_id, 151676);
    assert_eq!(cfg.thinker_config.audio_start_token_id, 151669);
    assert_eq!(cfg.thinker_config.audio_end_token_id, 151670);
}

#[test]
fn missing_towers_are_named() {
    let mut f = file_of(NATIVE);
    f.audio_config = None;
    let e = AsrConfig::from_raw(f).unwrap_err();
    assert_eq!(e, ConfigError::NoAudioConfig);
    assert_eq!(e.message(), "missing thinker_config and audio_config");
    let mut f = file_of(NATIVE);
    f.text_config = None;
    let e = AsrConfig::from_raw(f).unwrap_err();
    assert_eq!(e, ConfigError::NoTextConfig);
    assert_eq!(e.message(), "missing thinker_config and text_config");
}

#[test]
fn both_layouts_settle_alike() {
    let flat = AsrConfig::from_raw(file_of(NATIVE)).unwrap();
    let mut f = file_of(NATIVE);
    f.thinker_config = Some(ThinkerConfig {
        audio_config: f.audio_config.take().unwrap(),
        text_config: f.text_config.take().unwrap(),
        audio_start_token_id: default_audio_start_token_id(),
        audio_end_token_id: default_audio_end_token_id(),
        audio_token_id: default_audio_token_id(),
    });
    let nested = AsrConfig::from_raw(f).unwrap();
    assert_eq!(format!("{flat:?}"), format!("{nested:?}"));
}

#[test]
fn default_bit_patterns() {
    assert_eq!(f64::from_bits(EPS_BITS), 1e-6);
    assert_eq!(f64::from_bits(THETA_BITS), 1_000_000.0);
}
