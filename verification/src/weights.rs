//! Checkpoint tensors on their way to the device: half-precision conversion,
//! fusing, and padding to the GEMM's tiles.
use bytes::Bytes;
use vstd::prelude::*;

use crate::geometry::{align_up, lemma_align_bounds, pad_k_tile};

verus! {

/// `bytes::Bytes`: a shared, immutable run of bytes.
#[verifier::external_type_specification]
#[verifier::external_body]
pub struct ExBytes(Bytes);

/// The bytes that a `bytes::Bytes` holds.
pub uninterp spec fn bytes_of(b: Bytes) -> Seq<u8>;

/// `Bytes::len`: the number of bytes held.
#[verifier::external_body]
fn bytes_len(b: &Bytes) -> (n: usize)
    ensures
        n == bytes_of(*b).len(),
{
    b.len()
}

/// `Bytes::clone`: another handle on the same bytes.
#[verifier::external_body]
fn bytes_clone(b: &Bytes) -> (r: Bytes)
    ensures
        bytes_of(r) == bytes_of(*b),
{
    b.clone()
}

/// The element type of a tensor.
#[derive(Clone, Copy, Debug, PartialEq, Eq, Structural)]
pub enum DType {
    F16,
    BF16,
    F32,
    /// Anything else, by its element size; 0 stands for elements smaller than a
    /// byte.
    Other(usize),
}

/// A tensor as the checkpoint holds it.
pub struct RawTensor {
    pub data: Bytes,
    pub shape: Vec<usize>,
    pub dtype: DType,
}

/// Why a weight cannot be used.
#[derive(Clone, Copy, Debug, PartialEq, Eq, Structural)]
pub enum WeightError {
    /// Not a matrix where one is needed.
    NotMatrix(usize),
    /// Fewer rows asked for than there are.
    Shrink,
}

impl DType {
    /// Bytes of one element.
    pub open spec fn size(self) -> int {
        match self {
            DType::F32 => 4,
            DType::Other(n) => if n > 0 {
                n as int
            } else {
                1
            },
            _ => 2,
        }
    }

    /// Bytes of one element.
    pub fn bytes(&self) -> (n: usize)
        ensures
            n == self.size(),
            n > 0,
    {
        match *self {
            DType::F32 => 4,
            DType::Other(n) => if n > 0 {
                n
            } else {
                1
            },
            _ => 2,
        }
    }
}

impl RawTensor {
    /// The bytes of the tensor.
    pub open spec fn bytes(self) -> Seq<u8> {
        bytes_of(self.data)
    }

    /// The elements that the data holds.
    pub open spec fn elems(self) -> int {
        self.bytes().len() as int / self.dtype.size()
    }
}

/// Bytes of the first `k` tensors in half precision.
pub open spec fn half_offset(ts: Seq<&RawTensor>, k: int) -> int
    decreases k,
{
    if k <= 0 {
        0
    } else {
        half_offset(ts, k - 1) + ts[k - 1].elems() * 2
    }
}

/// Bytes of the first `k` tensors as they are.
pub open spec fn raw_offset(ts: Seq<&RawTensor>, k: int) -> int
    decreases k,
{
    if k <= 0 {
        0
    } else {
        raw_offset(ts, k - 1) + ts[k - 1].bytes().len()
    }
}

/// All tensors are in half precision already.
pub open spec fn all_half(ts: Seq<&RawTensor>) -> bool {
    forall|k: int| 0 <= k < ts.len() ==> (#[trigger] ts[k]).dtype == DType::F16
}

/// The elements of the first `k` matrices, by their shapes, at two bytes each.
pub open spec fn shape_bytes(ts: Seq<&RawTensor>, k: int) -> int
    decreases k,
{
    if k <= 0 {
        0
    } else {
        shape_bytes(ts, k - 1) + ts[k - 1].shape@[0] * ts[k - 1].shape@[1] * 2
    }
}

/// The first tensor that is not a matrix.
pub open spec fn first_non_matrix(ts: Seq<&RawTensor>, k: int) -> bool {
    &&& 0 <= k < ts.len()
    &&& ts[k].shape@.len() != 2
    &&& forall|i: int| 0 <= i < k ==> (#[trigger] ts[i]).shape@.len() == 2
}

/// Every shape is small enough for the byte count of all of them to fit.
pub open spec fn shapes_fit(ts: Seq<&RawTensor>) -> bool {
    &&& forall|k: int|
        0 <= k < ts.len() && (#[trigger] ts[k]).shape@.len() == 2 ==> ts[k].shape@[0] * ts[k].shape@[1] * 2 <= usize::MAX
    &&& forall|k: int| 0 <= k <= ts.len() ==> #[trigger] shape_bytes(ts, k) <= usize::MAX
}

/// Bytes of a list of matrices in half precision.
pub fn total_bytes(ts: &[&RawTensor]) -> (r: Result<usize, WeightError>)
    requires
        shapes_fit(ts@),
    ensures
        match r {
            Ok(n) => n == shape_bytes(ts@, ts@.len() as int) && forall|k: int|
                0 <= k < ts@.len() ==> (#[trigger] ts@[k]).shape@.len() == 2,
            Err(e) => e matches WeightError::NotMatrix(k) && first_non_matrix(ts@, k as int),
        },
{
    let mut total: usize = 0;
    for k in 0..ts.len()
        invariant
            shapes_fit(ts@),
            total == shape_bytes(ts@, k as int),
            forall|i: int| 0 <= i < k ==> (#[trigger] ts@[i]).shape@.len() == 2,
    {
        let t: &RawTensor = ts[k];
        if t.shape.len() != 2 {
            return Err(WeightError::NotMatrix(k));
        }
        proof {
            assert(ts@[k as int].shape@[0] * ts@[k as int].shape@[1] * 2 <= usize::MAX);
            assert(shape_bytes(ts@, k + 1) <= usize::MAX);
            assert(0 <= t.shape@[0] * t.shape@[1]) by (nonlinear_arith);
        }
        total = total + t.shape[0] * t.shape[1] * 2;
    }
    Ok(total)
}

/// How tensors are laid out one behind the other in one buffer.
pub enum Fused {
    /// Their own bytes, each at its offset.
    Pieces(Vec<(u64, Bytes)>),
    /// Where each goes once it is converted to half precision, as start and
    /// length, in a buffer that ends with the last.
    Convert(Vec<(usize, usize)>),
}

/// What fusing a list of tensors gives.
pub open spec fn fuses_to(ts: Seq<&RawTensor>, r: Result<Fused, WeightError>) -> bool {
    if all_half(ts) {
        &&& r matches Ok(Fused::Pieces(p))
        &&& p@.len() == ts.len()
        &&& forall|k: int|
            0 <= k < ts.len() ==> (#[trigger] p@[k]).0 == raw_offset(ts, k) && bytes_of(p@[k].1) == ts[k].bytes()
    } else if exists|k: int| first_non_matrix(ts, k) {
        r matches Err(e) && e matches WeightError::NotMatrix(k) && first_non_matrix(ts, k as int)
    } else {
        &&& r matches Ok(Fused::Convert(p))
        &&& p@.len() == ts.len()
        &&& forall|k: int|
            0 <= k < ts.len() ==> (#[trigger] p@[k]).0 == half_offset(ts, k) && p@[k].1 == ts[k].elems() * 2
    }
}

proof fn lemma_raw_offset_grows(ts: Seq<&RawTensor>, k: int, n: int)
    requires
        0 <= k <= n <= ts.len(),
    ensures
        0 <= raw_offset(ts, k) <= raw_offset(ts, n),
    decreases n,
{
    if k < n {
        lemma_raw_offset_grows(ts, k, n - 1);
    } else if k > 0 {
        lemma_raw_offset_grows(ts, k - 1, n - 1);
    }
}

proof fn lemma_half_offset_grows(ts: Seq<&RawTensor>, k: int, n: int)
    requires
        0 <= k <= n <= ts.len(),
    ensures
        0 <= half_offset(ts, k) <= half_offset(ts, n),
    decreases n,
{
    if k < n {
        lemma_half_offset_grows(ts, k, n - 1);
    } else if k > 0 {
        lemma_half_offset_grows(ts, k - 1, n - 1);
    }
}

/// Lays tensors out one behind the other for a single buffer. Tensors in half
/// precision contribute their own bytes; as soon as one is not, all are
/// converted into one run.
pub fn fuse(ts: &[&RawTensor]) -> (r: Result<Fused, WeightError>)
    requires
        shapes_fit(ts@),
        raw_offset(ts@, ts@.len() as int) <= u64::MAX,
        half_offset(ts@, ts@.len() as int) <= usize::MAX,
    ensures
        fuses_to(ts@, r),
{
    let mut half: bool = true;
    for k in 0..ts.len()
        invariant
            half <==> forall|i: int| 0 <= i < k ==> (#[trigger] ts@[i]).dtype == DType::F16,
    {
        if ts[k].dtype != DType::F16 {
            half = false;
        }
    }
    if half {
        let mut pieces: Vec<(u64, Bytes)> = Vec::new();
        let mut off: u64 = 0;
        for k in 0..ts.len()
            invariant
                raw_offset(ts@, ts@.len() as int) <= u64::MAX,
                off == raw_offset(ts@, k as int),
                pieces@.len() == k,
                forall|i: int|
                    0 <= i < k ==> (#[trigger] pieces@[i]).0 == raw_offset(ts@, i) && bytes_of(pieces@[i].1)
                        == ts@[i].bytes(),
        {
            proof {
                lemma_raw_offset_grows(ts@, k + 1, ts@.len() as int);
            }
            pieces.push((off, bytes_clone(&ts[k].data)));
            off = off + bytes_len(&ts[k].data) as u64;
        }
        return Ok(Fused::Pieces(pieces));
    }
    match total_bytes(ts) {
        Ok(_) => {},
        Err(e) => {
            return Err(e);
        },
    }
    assert(!(exists|k: int| first_non_matrix(ts@, k)));
    let mut spans: Vec<(usize, usize)> = Vec::new();
    let mut start: usize = 0;
    for k in 0..ts.len()
        invariant
            half_offset(ts@, ts@.len() as int) <= usize::MAX,
            start == half_offset(ts@, k as int),
            spans@.len() == k,
            forall|i: int|
                0 <= i < k ==> (#[trigger] spans@[i]).0 == half_offset(ts@, i) && spans@[i].1 == ts@[i].elems() * 2,
    {
        proof {
            lemma_half_offset_grows(ts@, k + 1, ts@.len() as int);
            lemma_half_offset_grows(ts@, k as int, k as int);
        }
        let len: usize = bytes_len(&ts[k].data) / ts[k].dtype.bytes() * 2;
        spans.push((start, len));
        start = start + len;
    }
    Ok(Fused::Convert(spans))
}

/// The pieces of a fused buffer neither overlap nor leave a gap, in either form.
pub proof fn law_fused_contiguous(ts: Seq<&RawTensor>, f: Fused, k: int)
    requires
        fuses_to(ts, Ok(f)),
        0 <= k,
        k + 1 < ts.len(),
    ensures
        match f {
            Fused::Pieces(p) => p@[k].0 + bytes_of(p@[k].1).len() == p@[k + 1].0 && p@[0].0 == 0,
            Fused::Convert(p) => p@[k].0 + p@[k].1 == p@[k + 1].0 && p@[0].0 == 0,
        },
{
    match f {
        Fused::Pieces(p) => {
            assert(p@[k].0 == raw_offset(ts, k));
            assert(p@[k + 1].0 == raw_offset(ts, k + 1));
            assert(p@[0].0 == raw_offset(ts, 0));
        },
        Fused::Convert(p) => {
            assert(p@[k].0 == half_offset(ts, k));
            assert(p@[k + 1].0 == half_offset(ts, k + 1));
            assert(p@[0].0 == half_offset(ts, 0));
        },
    }
}

/// A matrix of half-precision numbers, row-major, little-endian.
pub struct PackedWeight {
    pub data: Vec<u8>,
    pub rows: usize,
    pub cols: usize,
}

impl PackedWeight {
    /// The data fills the shape.
    pub open spec fn wf(self) -> bool {
        self.data@.len() == self.rows * self.cols * 2
    }

    /// Byte `b` of row `r`.
    pub open spec fn at(self, r: int, b: int) -> u8 {
        self.data@[r * (self.cols * 2) + b]
    }

    fn copy(&self) -> (w: PackedWeight)
        ensures
            w.data@ == self.data@,
            w.rows == self.rows,
            w.cols == self.cols,
    {
        let mut data: Vec<u8> = Vec::new();
        for i in 0..self.data.len()
            invariant
                data@ == self.data@.take(i as int),
        {
            data.push(self.data[i]);
        }
        PackedWeight { data, rows: self.rows, cols: self.cols }
    }
}

/// Byte `b` of row `r` of `w` with zeros behind its columns and rows.
pub open spec fn padded_at(w: PackedWeight, r: int, b: int) -> u8 {
    if r < w.rows && b < w.cols * 2 {
        w.at(r, b)
    } else {
        0
    }
}

/// Whether `p` is `w` with zeros behind its columns and rows, up to `cols` and
/// `rows`.
pub open spec fn padded(w: PackedWeight, p: PackedWeight, rows: int, cols: int) -> bool {
    &&& p.wf()
    &&& p.rows == rows
    &&& p.cols == cols
    &&& forall|r: int, b: int| 0 <= r < rows && 0 <= b < cols * 2 ==> #[trigger] p.at(r, b) == padded_at(w, r, b)
}

/// Pads every row with zeros to whole GEMM steps. The GEMM reads packed pairs
/// along the row, in whole steps, so what is behind the real columns has to be
/// zero.
pub fn pad_k(w: &PackedWeight) -> (p: PackedWeight)
    requires
        w.wf(),
        align_up(w.cols as int, 16) <= usize::MAX,
        align_up(w.cols as int, 16) * 2 <= usize::MAX,
    ensures
        padded(*w, p, w.rows as int, align_up(w.cols as int, 16)),
{
    let kw: usize = pad_k_tile(w.cols);
    proof {
        lemma_align_bounds(w.cols as int, 16);
    }
    if kw == w.cols {
        return w.copy();
    }
    let line: usize = w.cols * 2;
    let wide: usize = kw * 2;
    let mut data: Vec<u8> = Vec::new();
    assert(0 * wide == 0) by (nonlinear_arith);
    for r in 0..w.rows
        invariant
            w.wf(),
            kw == align_up(w.cols as int, 16),
            w.cols < kw,
            line == w.cols * 2,
            wide == kw * 2,
            data@.len() == r * wide,
            forall|q: int, b: int| 0 <= q < r && 0 <= b < wide ==> #[trigger] data@[q * wide + b] == padded_at(*w, q, b),
    {
        for b in 0..wide
            invariant
                w.wf(),
                r < w.rows,
                line == w.cols * 2,
                wide == kw * 2,
                line < wide,
                data@.len() == r * wide + b,
                forall|q: int, c: int|
                    0 <= q < r && 0 <= c < wide ==> #[trigger] data@[q * wide + c] == padded_at(*w, q, c),
                forall|c: int| 0 <= c < b ==> #[trigger] data@[r * wide + c] == padded_at(*w, r as int, c),
        {
            let ghost before = data@;
            let v: u8 = if b < line {
                proof {
                    assert(r * line + b < w.rows * w.cols * 2) by (nonlinear_arith)
                        requires
                            r < w.rows,
                            b < line,
                            line == w.cols * 2,
                    ;
                    assert(0 <= r * line) by (nonlinear_arith);
                    assert(r * line <= w.rows * w.cols * 2) by (nonlinear_arith)
                        requires
                            r < w.rows,
                            line == w.cols * 2,
                    ;
                }
                let _n: usize = w.data.len();
                w.data[r * line + b]
            } else {
                0
            };
            data.push(v);
            proof {
                assert forall|q: int, c: int| 0 <= q < r && 0 <= c < wide implies #[trigger] data@[q * wide + c]
                    == padded_at(*w, q, c) by {
                    assert(0 <= q * wide + c < r * wide) by (nonlinear_arith)
                        requires
                            0 <= q < r,
                            0 <= c < wide,
                    ;
                    assert(before[q * wide + c] == padded_at(*w, q, c));
                }
                assert forall|c: int| 0 <= c < b + 1 implies #[trigger] data@[r * wide + c] == padded_at(
                    *w,
                    r as int,
                    c,
                ) by {
                    if c < b {
                        assert(before[r * wide + c] == padded_at(*w, r as int, c));
                    }
                }
            }
        }
        proof {
            assert((r + 1) * wide == r * wide + wide) by (nonlinear_arith);
        }
    }
    let p = PackedWeight { data, rows: w.rows, cols: kw };
    proof {
        assert(w.rows * wide == w.rows * kw * 2) by (nonlinear_arith)
            requires
                wide == kw * 2,
        ;
        assert forall|r: int, b: int| 0 <= r < w.rows && 0 <= b < kw * 2 implies #[trigger] p.at(r, b) == padded_at(
            *w,
            r,
            b,
        ) by {
            assert(p.data@[r * wide + b] == padded_at(*w, r, b));
        }
    }
    p
}

/// Pads a matrix with zero rows.
pub fn pad_rows(w: &PackedWeight, new_rows: usize) -> (r: Result<PackedWeight, WeightError>)
    requires
        w.wf(),
        new_rows * w.cols * 2 <= usize::MAX,
    ensures
        match r {
            Ok(p) => new_rows >= w.rows && padded(*w, p, new_rows as int, w.cols as int),
            Err(e) => new_rows < w.rows && e == WeightError::Shrink,
        },
{
    if new_rows < w.rows {
        return Err(WeightError::Shrink);
    }
    let mut p = w.copy();
    let ghost have = w.data@;
    proof {
        assert(0 <= new_rows * w.cols) by (nonlinear_arith);
        assert(w.rows * w.cols <= new_rows * w.cols) by (nonlinear_arith)
            requires
                w.rows <= new_rows,
        ;
    }
    let want: usize = new_rows * w.cols * 2;
    let mut data = p.data;
    while data.len() < want
        invariant
            have.len() <= want,
            have.len() <= data@.len() <= want,
            data@.take(have.len() as int) == have,
            forall|i: int| have.len() <= i < data@.len() ==> #[trigger] data@[i] == 0,
        decreases want - data@.len(),
    {
        let ghost before = data@;
        data.push(0);
        assert(data@.take(have.len() as int) =~= before.take(have.len() as int));
    }
    p = PackedWeight { data, rows: new_rows, cols: w.cols };
    proof {
        let line = w.cols * 2;
        assert forall|r: int, b: int| 0 <= r < new_rows && 0 <= b < w.cols * 2 implies #[trigger] p.at(r, b)
            == padded_at(*w, r, b) by {
            assert(r * (w.cols * 2) + b < new_rows * w.cols * 2) by (nonlinear_arith)
                requires
                    0 <= r < new_rows,
                    0 <= b < w.cols * 2,
            ;
            assert(0 <= r * (w.cols * 2)) by (nonlinear_arith)
                requires
                    0 <= r,
            ;
            if r < w.rows {
                assert(r * (w.cols * 2) + b < w.rows * w.cols * 2) by (nonlinear_arith)
                    requires
                        0 <= r < w.rows,
                        0 <= b < w.cols * 2,
                ;
                assert(p.data@.take(have.len() as int)[r * (w.cols * 2) + b] == have[r * (w.cols * 2) + b]);
            } else {
                assert(r * (w.cols * 2) >= w.rows * w.cols * 2) by (nonlinear_arith)
                    requires
                        r >= w.rows,
                ;
            }
        }
    }
    Ok(p)
}

} // verus!
