use qwen3_asr_wgpu::config::AudioEncoderConfig;
use qwen3_asr_wgpu::cpu_move::{pack_rows, swap_axes};
use qwen3_asr_wgpu::cpu_tensor::{gemv_chunk, linear_plan, CpuTensor};
use qwen3_asr_wgpu::cpu_tower::{im2col_3x3_s2p1, tiles, windows, CpuAudioEncoder, MatrixShape, TowerError};
use qwen3_asr_wgpu::diagnostics;
use qwen3_asr_wgpu::encoder::{EncoderError, GpuAudioEncoder, LayerShapes, LinearShape, TowerShapes};
use qwen3_asr_wgpu::encoder_build::{tower_weights, EncForm};
use qwen3_asr_wgpu::encoder_ops::{EncBuf, EncOp, Shot};
use qwen3_asr_wgpu::encoder_plan::pack_mel;
use qwen3_asr_wgpu::error::AsrError;
use qwen3_asr_wgpu::geometry::{
    align, block_for_reduction, conv_out_cols_16, conv_out_len, conv_taps, conv_tile, div_up, feo, feo_positions,
    grid_xy, pad_even, pad_k_tile, TAP_OOB,
};

fn config() -> AudioEncoderConfig {
    AudioEncoderConfig {
        d_model: 896,
        encoder_layers: 18,
        encoder_attention_heads: 14,
        encoder_ffn_dim: 3584,
        num_mel_bins: 128,
        max_source_positions: 1500,
        n_window: 50,
        n_window_infer: 800,
        conv_chunksize: 500,
        output_dim: 1024,
    }
}

fn linear(n: usize, k: usize) -> LinearShape {
    LinearShape { n, n_pad: align(n, 128), k }
}

fn shapes() -> TowerShapes {
    let layer = LayerShapes {
        qkv: linear(2688, 896),
        o: linear(896, 896),
        fc1: linear(3584, 896),
        fc2: linear(896, 3584),
    };
    TowerShapes {
        c1: linear(480, 16),
        c2: linear(480, 4320),
        c3: linear(480, 4320),
        conv_out: linear(896, 7680),
        layers: (0..18).map(|_| layer).collect(),
        proj1: linear(896, 896),
        proj2: linear(1024, 896),
    }
}

fn host() -> CpuAudioEncoder {
    CpuAudioEncoder {
        c1: MatrixShape { rows: 480, cols: 9 },
        c2: MatrixShape { rows: 480, cols: 4320 },
        c3: MatrixShape { rows: 480, cols: 4320 },
        conv_out: MatrixShape { rows: 896, cols: 7680 },
        layers: 18,
        config: config(),
    }
}

#[test]
fn sizes() {
    assert_eq!(div_up(7, 3), 3);
    assert_eq!(align(130, 128), 256);
    assert_eq!(pad_even(7), 8);
    assert_eq!(pad_k_tile(17), 32);
    assert_eq!(conv_out_cols_16(33), 2);
    assert_eq!(conv_out_len(100), 50);
    assert_eq!(conv_out_len(25), 13);
    assert_eq!(feo(100), 13);
    assert_eq!(feo_positions(128), 16);
    assert_eq!(grid_xy(0), (1, 1));
    assert_eq!(grid_xy(65536), (65535, 2));
    assert_eq!(block_for_reduction(33), 64);
    assert_eq!(block_for_reduction(5000), 1024);
    assert!(conv_tile() > 0);
}

#[test]
fn taps() {
    let (t, plane, h, w) = conv_taps(4, 4, 4);
    assert_eq!((plane, h, w), (4, 2, 2));
    assert_eq!(t.len(), 36);
    assert_eq!(t[0], u32::MAX);
    assert_eq!(t[4], 0);
    assert_eq!(t[8], 5);
}

#[test]
fn towers_load() {
    let e = GpuAudioEncoder::load(&config(), &shapes(), 800).unwrap();
    assert_eq!((e.d_model, e.hd, e.cs, e.tpc), (896, 64, 100, 13));
    assert_eq!(e.conv.len(), 3);
    let first = e.level(0);
    assert_eq!((first.h_in, first.w_in, first.h_out, first.w_out), (128, 100, 64, 50));
    let last = e.level(2);
    assert_eq!((last.h_out, last.w_out, last.c_out), (16, 13, 480));
}

#[test]
fn towers_that_do_not_fit() {
    let mut t = shapes();
    t.c1.k = 9;
    assert!(matches!(GpuAudioEncoder::load(&config(), &t, 800), Err(EncoderError::Conv1Depth { k: 9 })));
    let mut t = shapes();
    t.c2.k = 16;
    assert!(matches!(GpuAudioEncoder::load(&config(), &t, 800), Err(EncoderError::Conv2Depth { k: 16, c1: 480 })));
    let mut t = shapes();
    t.c3.k = 16;
    assert!(matches!(GpuAudioEncoder::load(&config(), &t, 800), Err(EncoderError::Conv3Depth { k: 16, c2: 480 })));
    let mut t = shapes();
    t.conv_out.k = 16;
    assert!(matches!(GpuAudioEncoder::load(&config(), &t, 800), Err(EncoderError::ConvOutDepth { k: 16, .. })));
    let mut t = shapes();
    t.conv_out = linear(128, t.conv_out.k);
    assert!(matches!(GpuAudioEncoder::load(&config(), &t, 800), Err(EncoderError::ConvOutWidth { n: 128, .. })));
    let mut t = shapes();
    t.layers[3].fc1.k = 16;
    assert!(matches!(GpuAudioEncoder::load(&config(), &t, 800), Err(EncoderError::LayerFc1 { layer: 3 })));
    let mut t = shapes();
    t.proj2 = linear(128, t.proj2.k);
    assert!(matches!(GpuAudioEncoder::load(&config(), &t, 800), Err(EncoderError::Projector)));
    let mut c = config();
    c.encoder_attention_heads = 13;
    assert!(matches!(GpuAudioEncoder::load(&c, &shapes(), 800), Err(EncoderError::HeadSplit { .. })));
}

#[test]
fn clips_are_planned() {
    let e = GpuAudioEncoder::load(&config(), &shapes(), 800).unwrap();
    let plan = e.encode(128, 250, 0).unwrap();
    assert_eq!(plan.clip.n_chunks, 3);
    assert_eq!(plan.clip.s, 13 + 13 + 7);
    assert_eq!(plan.clip.s_pad, 128);
    assert_eq!(plan.clip.wlen, 104);
    let reads = plan.ops.iter().filter(|o| matches!(o, EncOp::Read { .. })).count();
    assert_eq!(reads, 1);
    let embeds = EncOp::Read { buf: EncBuf::Out, bytes: 33 * 1024 * 2, shot: Shot::Embeds };
    assert_eq!(*plan.ops.last().unwrap(), embeds);
    let shots = e.encode_capture(128, 250, 0, true).unwrap();
    assert_eq!(*shots.ops.last().unwrap(), embeds);
    let more = shots.ops.iter().filter(|o| matches!(o, EncOp::Read { .. })).count();
    assert!(more > 18);
    assert!(matches!(e.encode(80, 250, 0), Err(EncoderError::MelBins { got: 80, want: 128 })));
    assert!(matches!(e.encode(128, 0, 0), Err(EncoderError::EmptyMel)));
}

#[test]
fn mels_are_packed_chunk_by_chunk() {
    let mel: Vec<i32> = (0..2 * 5).collect();
    let p = pack_mel(&mel, 2, 5, 3, 4, 2, -1);
    assert_eq!(p.len(), 2 * 2 * 4);
    assert_eq!(p[..8], [0, 1, 2, -1, 5, 6, 7, -1]);
    assert_eq!(p[8..], [3, 4, -1, -1, 8, 9, -1, -1]);
}

#[test]
fn host_tower() {
    let t = host();
    assert_eq!(t.conv_geometry(128), [480, 64, 50, 480, 32, 25, 480, 16, 13]);
    assert_eq!(t.conv_out_in_features(), 7680);
    assert!(t.check_conv_out(128).is_ok());
    assert!(matches!(t.check_conv_out(64), Err(TowerError::ConvOutDepth { .. })));
    assert_eq!(t.conv_level(2).unwrap(), MatrixShape { rows: 480, cols: 4320 });
    assert!(matches!(t.conv_level(4), Err(TowerError::Level { level: 4 })));
    assert!(matches!(t.check_layer(18), Err(TowerError::Layer { layer: 18 })));
    assert!(matches!(t.check_packed(1, 13), Err(TowerError::PackedTooShort)));
    let c = t.chunk_mel(&vec![1u8; 128 * 250], 128, 250, 0u8);
    assert_eq!(c.n_chunks, 3);
    assert_eq!(c.tokens, vec![13, 13, 7]);
    assert_eq!(c.n_total, 33);
    assert_eq!(t.window(), 104);
}

#[test]
fn cuts() {
    assert_eq!(tiles(10, 4), vec![(0, 4), (4, 4), (8, 2)]);
    assert_eq!(windows(10, None), vec![(0, 10)]);
    assert_eq!(windows(10, Some(6)), vec![(0, 6), (6, 4)]);
    assert_eq!(windows(10, Some(6)).iter().map(|w| w.1).sum::<usize>(), 10);
}

#[test]
fn columns_of_a_convolution() {
    let x: Vec<i32> = (1..=16).collect();
    let (cols, h, w) = im2col_3x3_s2p1(&x, 1, 1, 4, 4, 0);
    assert_eq!((h, w), (2, 2));
    assert_eq!(cols[..9], [0, 0, 0, 0, 1, 2, 0, 5, 6]);
    assert_eq!(cols[27..36], [6, 7, 8, 10, 11, 12, 14, 15, 16]);
}

#[test]
fn axes_swap_back() {
    let x: Vec<u16> = (0..2 * 3 * 4 * 5).collect();
    let y = swap_axes(&x, 2, 3, 4, 5);
    assert_eq!(y[5], x[4 * 5]);
    assert_eq!(swap_axes(&y, 2, 4, 3, 5), x);
    let packed = pack_rows(&[0u8, 1, 2, 3, 4, 5, 6, 7], &vec![1, 2], 2, 2);
    assert_eq!(packed, vec![0, 1, 4, 5, 6, 7]);
}

#[test]
fn diagnostics_pass_outcomes_on() {
    let lost = || AsrError::Inference("lost".to_string());
    assert!(matches!(diagnostics::transcribe_with_dump(Ok(()), Ok(3)), Ok(3)));
    assert!(diagnostics::transcribe_with_dump::<u8>(Err(lost()), Ok(3)).is_err());
    assert!(diagnostics::transcribe_with_dump_streaming::<u8>(Ok(()), Err("e".to_string())).is_err());
    assert!(diagnostics::diagnose_encoder(Ok(()), Ok(())).is_ok());
    assert_eq!(diagnostics::conv_geometry(Ok(()), &host(), 128).unwrap()[8], 13);
    assert!(diagnostics::conv_geometry(Err(lost()), &host(), 128).is_err());
    assert_eq!(diagnostics::conv_out_in_features(Ok(()), &host()), 7680);
}

#[test]
fn tower_weights_by_buffer() {
    let f = tower_weights("a", 2);
    assert_eq!(f.len(), 4 + 6 * 2 + 3);
    assert_eq!((f[0].w, f[0].b, f[0].form), (EncBuf::ConvW(0), Some(EncBuf::ConvB(0)), EncForm::Conv));
    assert_eq!(f[2].names, vec!["a.conv2d3"]);
    assert_eq!((f[3].w, f[3].b), (EncBuf::ConvOutW, None));
    assert_eq!((f[13].w, f[13].form), (EncBuf::QkvW(1), EncForm::Fused));
    assert_eq!(
        f[13].names,
        vec!["a.layers.1.self_attn.q_proj", "a.layers.1.self_attn.k_proj", "a.layers.1.self_attn.v_proj"]
    );
    assert_eq!(f[15].names, vec!["a.layers.1.fc2"]);
    assert_eq!((f[16].w, f[16].form), (EncBuf::LnPostW, EncForm::Norm));
    assert_eq!((f[18].w, f[18].b), (EncBuf::Proj2W, Some(EncBuf::Proj2B)));
    assert!(EncBuf::UIm(1).is_uniform() && EncBuf::UCp.is_uniform() && !EncBuf::Mel.is_uniform());
}

#[test]
fn linear_shapes() {
    let t = CpuTensor::new(vec![0.5f32; 24], vec![2, 3, 4]);
    assert_eq!(t.numel(), 24);
    let p = linear_plan(&t.shape, 10, 4);
    assert_eq!((p.m, p.n, p.k, p.single), (6, 10, 4, false));
    assert_eq!(p.out_shape, vec![2, 3, 10]);
    assert!(linear_plan(&[1, 1, 4], 10, 4).single);
    assert_eq!((gemv_chunk(1024, 8), gemv_chunk(151936, 8), gemv_chunk(6144, 8)), (64, 2048, 192));
}

#[test]
fn the_operand_follows_the_taps() {
    let (b, c_in, h, w) = (2usize, 3usize, 5usize, 4usize);
    let x: Vec<i32> = (1..=(b * c_in * h * w) as i32).collect();
    let (cols, ho, wo) = im2col_3x3_s2p1(&x, b, c_in, h, w, 0);
    let (off, plane, th, tw) = conv_taps(h, w, w);
    assert_eq!((ho, wo, plane), (th, tw, th * tw));
    for ib in 0..b {
        for p in 0..plane {
            for ic in 0..c_in {
                for t in 0..9 {
                    let o = off[p * 9 + t];
                    let want = if o == TAP_OOB { 0 } else { x[(ib * c_in + ic) * h * w + o as usize] };
                    assert_eq!(cols[(ib * plane + p) * 9 * c_in + ic * 9 + t], want);
                }
            }
        }
    }
}
