//! Model configuration: what `config.json` says, with its defaults, in either of
//! its two layouts.
//!
//! Numbers that the file holds as double-precision reals are kept as their bit
//! patterns.
use vstd::prelude::*;

verus! {

pub fn default_audio_start_token_id() -> (r: i64)
    ensures
        r == 151669,
{
    151669
}

pub fn default_audio_end_token_id() -> (r: i64)
    ensures
        r == 151670,
{
    151670
}

pub fn default_audio_token_id() -> (r: i64)
    ensures
        r == 151676,
{
    151676
}

pub fn default_d_model() -> (r: usize)
    ensures
        r == 896,
{
    896
}

pub fn default_encoder_layers() -> (r: usize)
    ensures
        r == 18,
{
    18
}

pub fn default_encoder_attention_heads() -> (r: usize)
    ensures
        r == 14,
{
    14
}

pub fn default_encoder_ffn_dim() -> (r: usize)
    ensures
        r == 3584,
{
    3584
}

pub fn default_num_mel_bins() -> (r: usize)
    ensures
        r == 128,
{
    128
}

pub fn default_max_source_positions() -> (r: usize)
    ensures
        r == 1500,
{
    1500
}

pub fn default_n_window() -> (r: usize)
    ensures
        r == 50,
{
    50
}

pub fn default_n_window_infer() -> (r: usize)
    ensures
        r == 800,
{
    800
}

pub fn default_conv_chunksize() -> (r: usize)
    ensures
        r == 500,
{
    500
}

pub fn default_output_dim() -> (r: usize)
    ensures
        r == 1024,
{
    1024
}

pub fn default_vocab_size() -> (r: usize)
    ensures
        r == 151936,
{
    151936
}

pub fn default_hidden_size() -> (r: usize)
    ensures
        r == 1024,
{
    1024
}

pub fn default_intermediate_size() -> (r: usize)
    ensures
        r == 3072,
{
    3072
}

pub fn default_num_hidden_layers() -> (r: usize)
    ensures
        r == 28,
{
    28
}

pub fn default_num_attention_heads() -> (r: usize)
    ensures
        r == 16,
{
    16
}

pub fn default_num_key_value_heads() -> (r: usize)
    ensures
        r == 8,
{
    8
}

pub fn default_head_dim() -> (r: usize)
    ensures
        r == 128,
{
    128
}

/// The bit pattern of `1e-6`.
pub const EPS_BITS: u64 = 0x3EB0_C6F7_A0B5_ED8D;

/// The bit pattern of `1000000.0`.
pub const THETA_BITS: u64 = 0x412E_8480_0000_0000;

pub fn default_rms_norm_eps() -> (r: u64)
    ensures
        r == EPS_BITS,
{
    EPS_BITS
}

pub fn default_rope_theta() -> (r: u64)
    ensures
        r == THETA_BITS,
{
    THETA_BITS
}

/// The default split of a head's dimensions over the three position axes.
pub open spec fn default_sections() -> Seq<usize> {
    seq![24usize, 20usize, 20usize]
}

pub fn default_mrope_section() -> (r: Vec<usize>)
    ensures
        r@ == default_sections(),
{
    vec![24, 20, 20]
}

/// The audio tower's hyper-parameters.
#[derive(Clone, Copy, Debug, PartialEq, Eq, Structural)]
pub struct AudioEncoderConfig {
    pub d_model: usize,
    pub encoder_layers: usize,
    pub encoder_attention_heads: usize,
    pub encoder_ffn_dim: usize,
    pub num_mel_bins: usize,
    pub max_source_positions: usize,
    pub n_window: usize,
    pub n_window_infer: usize,
    pub conv_chunksize: usize,
    pub output_dim: usize,
}

/// How rotary positions are scaled.
#[derive(Clone, Debug)]
pub struct RopeScaling {
    pub rope_type: String,
    pub mrope_section: Vec<usize>,
    pub interleaved: bool,
    pub mrope_interleaved: bool,
}

/// Rotary parameters as the second layout holds them. `rope_theta` is a bit
/// pattern.
#[derive(Clone, Debug)]
pub struct RopeParameters {
    pub rope_theta: Option<u64>,
    pub rope_type: Option<String>,
    pub mrope_section: Option<Vec<usize>>,
}

/// The text decoder's hyper-parameters. `rms_norm_eps` and `rope_theta` are bit
/// patterns.
#[derive(Clone, Debug)]
pub struct TextDecoderConfig {
    pub vocab_size: usize,
    pub hidden_size: usize,
    pub intermediate_size: usize,
    pub num_hidden_layers: usize,
    pub num_attention_heads: usize,
    pub num_key_value_heads: usize,
    pub head_dim: usize,
    pub rms_norm_eps: u64,
    pub rope_theta: u64,
    pub rope_scaling: Option<RopeScaling>,
    pub rope_parameters: Option<RopeParameters>,
}

/// Both towers and the tokens that frame audio.
#[derive(Clone, Debug)]
pub struct ThinkerConfig {
    pub audio_config: AudioEncoderConfig,
    pub text_config: TextDecoderConfig,
    pub audio_start_token_id: i64,
    pub audio_end_token_id: i64,
    pub audio_token_id: i64,
}

/// A model's configuration.
#[derive(Clone, Debug)]
pub struct AsrConfig {
    pub thinker_config: ThinkerConfig,
}

/// `config.json` as it is on disk: the towers under `thinker_config`, or side by
/// side at the top.
pub struct AsrConfigFile {
    pub thinker_config: Option<ThinkerConfig>,
    pub audio_config: Option<AudioEncoderConfig>,
    pub text_config: Option<TextDecoderConfig>,
    pub audio_token_id: Option<i64>,
    pub audio_start_token_id: Option<i64>,
    pub audio_end_token_id: Option<i64>,
}

/// What a file is missing.
#[derive(Clone, Copy, Debug, PartialEq, Eq, Structural)]
pub enum ConfigError {
    /// Neither `thinker_config` nor `audio_config`.
    NoAudioConfig,
    /// Neither `thinker_config` nor `text_config`.
    NoTextConfig,
}

impl ConfigError {
    /// The error in words.
    pub fn message(&self) -> (r: &'static str)
        ensures
            r@ == match *self {
                ConfigError::NoAudioConfig => "missing thinker_config and audio_config"@,
                ConfigError::NoTextConfig => "missing thinker_config and text_config"@,
            },
    {
        match *self {
            ConfigError::NoAudioConfig => "missing thinker_config and audio_config",
            ConfigError::NoTextConfig => "missing thinker_config and text_config",
        }
    }
}

/// The given number, or the default.
pub open spec fn id_or(v: Option<i64>, default: i64) -> i64 {
    match v {
        Some(n) => n,
        None => default,
    }
}

/// The rotary base to use: the one under `rope_parameters` where there is one.
pub open spec fn theta_of(t: TextDecoderConfig) -> u64 {
    match t.rope_parameters {
        Some(p) => match p.rope_theta {
            Some(b) => b,
            None => t.rope_theta,
        },
        None => t.rope_theta,
    }
}

/// The towers that a file names, before the rotary base is settled.
pub open spec fn named_thinker(f: AsrConfigFile) -> Result<ThinkerConfig, ConfigError> {
    match f.thinker_config {
        Some(t) => Ok(t),
        None => match f.audio_config {
            None => Err(ConfigError::NoAudioConfig),
            Some(a) => match f.text_config {
                None => Err(ConfigError::NoTextConfig),
                Some(t) => Ok(
                    ThinkerConfig {
                        audio_config: a,
                        text_config: t,
                        audio_start_token_id: id_or(f.audio_start_token_id, 151669),
                        audio_end_token_id: id_or(f.audio_end_token_id, 151670),
                        audio_token_id: id_or(f.audio_token_id, 151676),
                    },
                ),
            },
        },
    }
}

impl AsrConfig {
    /// Settles a file into a configuration: `thinker_config` wins over the
    /// towers at the top, and `rope_parameters` over `rope_theta`.
    pub fn from_raw(f: AsrConfigFile) -> (r: Result<AsrConfig, ConfigError>)
        ensures
            match named_thinker(f) {
                Err(e) => r is Err && r->Err_0 == e,
                Ok(t) => r is Ok && r->Ok_0.thinker_config == (ThinkerConfig {
                    text_config: TextDecoderConfig { rope_theta: theta_of(t.text_config), ..t.text_config },
                    ..t
                }),
            },
    {
        let mut thinker = match f.thinker_config {
            Some(t) => t,
            None => {
                let audio_config = match f.audio_config {
                    Some(a) => a,
                    None => {
                        return Err(ConfigError::NoAudioConfig);
                    },
                };
                let text_config = match f.text_config {
                    Some(t) => t,
                    None => {
                        return Err(ConfigError::NoTextConfig);
                    },
                };
                ThinkerConfig {
                    audio_config,
                    text_config,
                    audio_start_token_id: match f.audio_start_token_id {
                        Some(n) => n,
                        None => default_audio_start_token_id(),
                    },
                    audio_end_token_id: match f.audio_end_token_id {
                        Some(n) => n,
                        None => default_audio_end_token_id(),
                    },
                    audio_token_id: match f.audio_token_id {
                        Some(n) => n,
                        None => default_audio_token_id(),
                    },
                }
            },
        };
        let theta: u64 = match &thinker.text_config.rope_parameters {
            Some(p) => match p.rope_theta {
                Some(b) => b,
                None => thinker.text_config.rope_theta,
            },
            None => thinker.text_config.rope_theta,
        };
        thinker.text_config.rope_theta = theta;
        Ok(AsrConfig { thinker_config: thinker })
    }
}

impl TextDecoderConfig {
    /// The sections in force.
    pub open spec fn sections(self) -> Seq<usize> {
        match self.rope_scaling {
            Some(s) => s.mrope_section@,
            None => default_sections(),
        }
    }

    /// The split of a head's dimensions over the three position axes.
    pub fn mrope_section(&self) -> (r: Vec<usize>)
        ensures
            r@ == self.sections(),
    {
        match &self.rope_scaling {
            Some(s) => {
                let mut v: Vec<usize> = Vec::new();
                for i in 0..s.mrope_section.len()
                    invariant
                        v@ == s.mrope_section@.take(i as int),
                {
                    v.push(s.mrope_section[i]);
                }
                v
            },
            None => default_mrope_section(),
        }
    }

    /// Whether the sections are interleaved: either flag says so, and so does
    /// the absence of any scaling.
    pub fn mrope_interleaved(&self) -> (r: bool)
        ensures
            r == match self.rope_scaling {
                Some(s) => s.mrope_interleaved || s.interleaved,
                None => true,
            },
    {
        match &self.rope_scaling {
            Some(s) => s.mrope_interleaved || s.interleaved,
            None => true,
        }
    }
}

/// Both layouts of one model settle to one configuration: a file that names its
/// towers at the top reads as the file that names them, with the default token
/// ids, under `thinker_config`.
pub proof fn law_layouts_agree(a: AudioEncoderConfig, t: TextDecoderConfig)
    ensures
        named_thinker(
            AsrConfigFile {
                thinker_config: None,
                audio_config: Some(a),
                text_config: Some(t),
                audio_token_id: None,
                audio_start_token_id: None,
                audio_end_token_id: None,
            },
        ) == named_thinker(
            AsrConfigFile {
                thinker_config: Some(
                    ThinkerConfig {
                        audio_config: a,
                        text_config: t,
                        audio_start_token_id: 151669,
                        audio_end_token_id: 151670,
                        audio_token_id: 151676,
                    },
                ),
                audio_config: None,
                text_config: None,
                audio_token_id: None,
                audio_start_token_id: None,
                audio_end_token_id: None,
            },
        ),
{
}

/// Settling a configuration again changes nothing.
pub proof fn law_theta_settled(t: TextDecoderConfig)
    ensures
        theta_of(TextDecoderConfig { rope_theta: theta_of(t), ..t }) == theta_of(t),
{
}

} // verus!
