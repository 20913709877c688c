use bytes::Bytes;
use qwen3_asr_wgpu::le::{f16_bytes, read_f16, read_i32, read_u16, read_u32, read_words, u32_bytes};
use qwen3_asr_wgpu::linear::{finish, load, load_conv, load_fused, LinearError};
use qwen3_asr_wgpu::weights::{fuse, pad_k, pad_rows, total_bytes, DType, Fused, PackedWeight, RawTensor, WeightError};

fn tensor(bytes: Vec<u8>, shape: Vec<usize>, dtype: DType) -> RawTensor {
    RawTensor { data: Bytes::from(bytes), shape, dtype }
}

fn matrix(rows: usize, cols: usize) -> PackedWeight {
    PackedWeight { data: (0..rows * cols * 2).map(|i| (i % 251) as u8).collect(), rows, cols }
}

#[test]
fn words_round_trip() {
    let w = vec![1u32, 0x8040_2010, u32::MAX];
    assert_eq!(u32_bytes(&w)[4..8], [0x10, 0x20, 0x40, 0x80]);
    assert_eq!(read_words(&u32_bytes(&w)), w);
    let h = vec![0x3C00u16, 0x8001];
    assert_eq!(f16_bytes(&h), vec![0x00, 0x3C, 0x01, 0x80]);
    assert_eq!(read_f16(&f16_bytes(&h)), h);
    assert_eq!(read_i32(&u32_bytes(&[u32::MAX, 5])), vec![-1, 5]);
    assert_eq!(read_u16(&[9, 1, 2, 5], 1), 0x0502);
    assert_eq!(read_u32(&[9, 9, 9, 9, 1, 2, 3, 4], 1), 0x0403_0201);
}

#[test]
fn half_tensors_are_fused_as_they_are() {
    let a = tensor(vec![1, 2, 3, 4], vec![1, 2], DType::F16);
    let b = tensor(vec![5, 6, 7, 8, 9, 10, 11, 12], vec![2, 2], DType::F16);
    match fuse(&[&a, &b]).unwrap() {
        Fused::Pieces(p) => {
            assert_eq!(p.len(), 2);
            assert_eq!(p[0].0, 0);
            assert_eq!(&p[0].1[..], &[1, 2, 3, 4]);
            assert_eq!(p[1].0, 4);
            assert_eq!(&p[1].1[..], &[5, 6, 7, 8, 9, 10, 11, 12]);
        }
        Fused::Convert(_) => panic!("half precision was converted"),
    }
    assert_eq!(total_bytes(&[&a, &b]), Ok(12));
}

#[test]
fn other_tensors_are_converted() {
    let a = tensor(vec![0; 8], vec![1, 2], DType::F32);
    let b = tensor(vec![0; 4], vec![1, 2], DType::BF16);
    match fuse(&[&a, &b]).unwrap() {
        Fused::Convert(p) => {
            assert_eq!(p, vec![(0, 4), (4, 4)]);
        }
        Fused::Pieces(_) => panic!("single precision was taken as it is"),
    }
    let v = tensor(vec![0; 4], vec![2], DType::F32);
    assert_eq!(total_bytes(&[&a, &v]), Err(WeightError::NotMatrix(1)));
    assert_eq!(DType::F32.bytes(), 4);
    assert_eq!(DType::F16.bytes(), 2);
}

#[test]
fn padding_adds_zeros() {
    let w = matrix(3, 5);
    let p = pad_k(&w);
    assert_eq!(p.rows, 3);
    assert_eq!(p.cols, 16);
    assert_eq!(p.data.len(), 3 * 16 * 2);
    assert_eq!(p.data[..10], w.data[..10]);
    assert_eq!(p.data[10..32], [0u8; 22]);
    assert_eq!(p.data[32..42], w.data[10..20]);
    let r = pad_rows(&w, 4).unwrap();
    assert_eq!(r.data[..30], w.data[..]);
    assert_eq!(r.data[30..], [0u8; 10]);
    assert!(matches!(pad_rows(&w, 2), Err(WeightError::Shrink)));
}

#[test]
fn linears_are_padded_to_the_tile() {
    let l = load(&matrix(3, 16), Some(vec![7, 8, 9])).unwrap();
    assert_eq!((l.n, l.n_pad, l.k), (3, 128, 16));
    assert_eq!(l.bias.len(), 128);
    assert_eq!(l.bias[..4], [7, 8, 9, 0]);
    assert_eq!(load(&matrix(3, 16), None).unwrap().bias, vec![0u16; 128]);
    assert!(matches!(load(&matrix(3, 16), Some(vec![1])), Err(LinearError::BiasLen { got: 1, n: 3 })));
    assert!(matches!(finish(matrix(3, 16), None, 3, 32), Err(LinearError::WeightShape { .. })));
}

#[test]
fn convolutions_are_flattened() {
    let data = vec![0u8; 2 * 1 * 3 * 3 * 2];
    let l = load_conv(&[2, 1, 3, 3], data.clone(), vec![1, 2], &[2]).unwrap();
    assert_eq!(l.n, 2);
    assert!(matches!(load_conv(&[2, 9], data.clone(), vec![1, 2], &[2]), Err(LinearError::NotConv)));
    assert!(matches!(load_conv(&[2, 1, 3, 3], data, vec![1, 2], &[3]), Err(LinearError::BiasShape)));
}

#[test]
fn fused_linears_stack_their_rows() {
    let l = load_fused(&[matrix(2, 16), matrix(3, 16)], &[vec![1, 2], vec![3, 4, 5]]).unwrap();
    assert_eq!((l.n, l.k), (5, 16));
    assert_eq!(l.bias[..6], [1, 2, 3, 4, 5, 0]);
    assert_eq!(l.w.data[64..128], matrix(3, 16).data[..64]);
    let wrong = load_fused(&[matrix(2, 16), matrix(2, 32)], &[vec![1, 2], vec![3, 4]]);
    assert!(matches!(wrong, Err(LinearError::FusedCols)));
}
