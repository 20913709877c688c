//! Planning core of a WGPU speech-recognition engine.

pub mod backend;
pub mod bench;
pub mod checks;
pub mod cli;
pub mod config;
pub mod cpu_decoder;
pub mod cpu_forward;
pub mod cpu_model;
pub mod cpu_move;
pub mod cpu_tensor;
pub mod cpu_tower;
pub mod decoder;
pub mod decoder_build;
pub mod decoder_laws;
pub mod decoder_load;
pub mod decoder_model;
pub mod decoder_ops;
pub mod decoder_prefill;
pub mod decoder_step;
pub mod decoder_uses;
pub mod device;
pub mod diagnostics;
pub mod device_list;
pub mod encoder;
pub mod encoder_build;
pub mod encoder_encode;
pub mod encoder_laws;
pub mod encoder_ops;
pub mod encoder_plan;
pub mod encoder_reads;
pub mod encoder_shots;
pub mod error;
pub mod geometry;
pub mod golden;
pub mod hazards;
pub mod hub;
pub mod hub_fetch;
pub mod layouts;
pub mod lcg;
pub mod le;
pub mod linear;
pub mod loaded;
pub mod machine;
pub mod manifest;
pub mod order;
pub mod pipelines;
pub mod prefill_model;
pub mod probe;
pub mod score;
pub mod sizes;
pub mod text;
pub mod tower_machine;
pub mod tower_model;
pub mod unicode;
pub mod wgsl_attn;
pub mod wgsl_attn_laws;
pub mod wgsl_barrier;
pub mod wgsl_fma;
pub mod wgsl_fma_laws;
pub mod wgsl_gemm;
pub mod wgsl_lines;
pub mod wgsl_roof;
pub mod weights;
