//! Linear layers and convolutions of the audio tower, padded for the GEMM.
use vstd::prelude::*;

use crate::geometry::{align, align_up, lemma_align_bounds, pad_k_tile, GEMM_BM};
use crate::weights::{pad_k, pad_rows, padded, padded_at, PackedWeight};

verus! {

/// Why a linear layer cannot be built.
#[derive(Clone, Copy, Debug, PartialEq, Eq, Structural)]
pub enum LinearError {
    /// The bias has another length than the layer has outputs.
    BiasLen { got: usize, n: usize },
    /// The padded weight has another shape than the layer.
    WeightShape { rows: usize, cols: usize },
    /// A convolution kernel of fewer than two axes.
    NotDeep,
    /// A convolution kernel that is not `3x3`.
    NotConv,
    /// The kernel's data does not fill its shape.
    ElemCount,
    /// The convolution's bias is not one number per output channel.
    BiasShape,
    /// Fused layers of different input widths.
    FusedCols,
}

/// A linear layer ready for upload: `n` outputs padded to `n_pad` rows, `k`
/// inputs, and the bias padded with zeros.
pub struct GpuLinear {
    pub w: PackedWeight,
    pub bias: Vec<u16>,
    pub n: usize,
    pub n_pad: usize,
    pub k: usize,
}

/// `v` with zeros behind it, `len` in all.
pub open spec fn zero_padded(v: Seq<u16>, len: int) -> Seq<u16> {
    Seq::new(
        len as nat,
        |i: int|
            if i < v.len() {
                v[i]
            } else {
                0u16
            },
    )
}

/// `n` zeros.
pub open spec fn zeros(n: int) -> Seq<u16> {
    Seq::new(n as nat, |i: int| 0u16)
}

impl GpuLinear {
    /// Whole tiles and a bias for every padded row.
    pub open spec fn wf(self) -> bool {
        &&& self.w.wf()
        &&& self.w.rows == self.n_pad
        &&& self.w.cols == self.k
        &&& self.n_pad == align_up(self.n as int, 128)
        &&& self.bias@.len() == self.n_pad
        &&& forall|i: int| self.n <= i < self.n_pad ==> #[trigger] self.bias@[i] == 0
    }
}

fn pad_bias(v: &[u16], len: usize) -> (r: Vec<u16>)
    requires
        v@.len() <= len,
    ensures
        r@ == zero_padded(v@, len as int),
{
    let mut r: Vec<u16> = Vec::new();
    for i in 0..len
        invariant
            v@.len() <= len,
            r@ == zero_padded(v@, len as int).take(i as int),
    {
        r.push(
            if i < v.len() {
                v[i]
            } else {
                0
            },
        );
    }
    r
}

/// The bias to use: a missing one is zero.
pub open spec fn bias_or_zero(bias: Option<Vec<u16>>, n: int) -> Seq<u16> {
    match bias {
        Some(b) => b@,
        None => zeros(n),
    }
}

/// What building a layer of `n` outputs and `k` inputs from a padded weight
/// gives.
pub open spec fn finishes(w: PackedWeight, bias: Seq<u16>, n: usize, k: usize, r: Result<GpuLinear, LinearError>) -> bool {
    let n_pad = align_up(n as int, 128);
    if bias.len() != n {
        r is Err && r->Err_0 == (LinearError::BiasLen { got: bias.len() as usize, n })
    } else if w.rows != n_pad || w.cols != k {
        r is Err && r->Err_0 == (LinearError::WeightShape { rows: w.rows, cols: w.cols })
    } else {
        &&& r is Ok
        &&& r->Ok_0.w == w
        &&& r->Ok_0.bias@ == zero_padded(bias, n_pad)
        &&& r->Ok_0.n == n
        &&& r->Ok_0.n_pad == n_pad
        &&& r->Ok_0.k == k
    }
}

/// Builds a layer from a padded weight.
pub fn finish(w: PackedWeight, bias: Option<Vec<u16>>, n: usize, k: usize) -> (r: Result<GpuLinear, LinearError>)
    requires
        align_up(n as int, 128) <= usize::MAX,
    ensures
        finishes(w, bias_or_zero(bias, n as int), n, k, r),
        w.wf() && r is Ok ==> r->Ok_0.wf(),
{
    proof {
        lemma_align_bounds(n as int, 128);
    }
    let n_pad: usize = align(n, GEMM_BM);
    let host: Vec<u16> = match bias {
        Some(b) => b,
        None => {
            let e: Vec<u16> = Vec::new();
            let z = pad_bias(e.as_slice(), n);
            assert(z@ =~= zeros(n as int));
            z
        },
    };
    if host.len() != n {
        return Err(LinearError::BiasLen { got: host.len(), n });
    }
    if w.rows != n_pad || w.cols != k {
        return Err(LinearError::WeightShape { rows: w.rows, cols: w.cols });
    }
    let bias = pad_bias(host.as_slice(), n_pad);
    Ok(GpuLinear { w, bias, n, n_pad, k })
}

/// The sizes that padding an `n x k` weight needs to fit.
pub open spec fn pads_fit(n: int, k: int) -> bool {
    &&& align_up(n, 128) <= usize::MAX
    &&& align_up(k, 16) <= usize::MAX
    &&& align_up(k, 16) * 2 <= usize::MAX
    &&& align_up(n, 128) * k * 2 <= usize::MAX
    &&& align_up(n, 128) * align_up(k, 16) * 2 <= usize::MAX
}

/// The layer that an `n x k` weight becomes: rows in whole tiles, columns in
/// whole steps, zeros in between.
pub open spec fn loaded(w: PackedWeight, bias: Seq<u16>, r: Result<GpuLinear, LinearError>) -> bool {
    if bias.len() != w.rows {
        r is Err && r->Err_0 == (LinearError::BiasLen { got: bias.len() as usize, n: w.rows })
    } else {
        &&& r is Ok
        &&& r->Ok_0.wf()
        &&& r->Ok_0.n == w.rows
        &&& r->Ok_0.k == align_up(w.cols as int, 16)
        &&& padded(w, r->Ok_0.w, align_up(w.rows as int, 128), align_up(w.cols as int, 16))
        &&& r->Ok_0.bias@ == zero_padded(bias, align_up(w.rows as int, 128))
    }
}

proof fn lemma_padded_twice(w: PackedWeight, a: PackedWeight, b: PackedWeight, rows: int, cols: int)
    requires
        w.rows <= rows,
        w.cols <= cols,
        padded(w, a, rows, w.cols as int) && padded(a, b, rows, cols) || padded(w, a, w.rows as int, cols) && padded(
            a,
            b,
            rows,
            cols,
        ),
    ensures
        padded(w, b, rows, cols),
{
    assert forall|r: int, c: int| 0 <= r < rows && 0 <= c < cols * 2 implies #[trigger] b.at(r, c) == padded_at(
        w,
        r,
        c,
    ) by {
        assert(b.at(r, c) == padded_at(a, r, c));
        if r < a.rows && c < a.cols * 2 {
            assert(a.at(r, c) == padded_at(w, r, c));
        }
    }
}

/// Builds a linear layer from its weight and, where it has one, its bias.
pub fn load(w: &PackedWeight, bias: Option<Vec<u16>>) -> (r: Result<GpuLinear, LinearError>)
    requires
        w.wf(),
        pads_fit(w.rows as int, w.cols as int),
    ensures
        loaded(*w, bias_or_zero(bias, w.rows as int), r),
{
    let n: usize = w.rows;
    let k: usize = w.cols;
    proof {
        lemma_align_bounds(n as int, 128);
        lemma_align_bounds(k as int, 16);
    }
    let tall = match pad_rows(w, align(n, GEMM_BM)) {
        Ok(p) => p,
        Err(_) => {
            assert(false);
            return Err(LinearError::WeightShape { rows: n, cols: k });
        },
    };
    let full = pad_k(&tall);
    proof {
        lemma_padded_twice(*w, tall, full, align_up(n as int, 128), align_up(k as int, 16));
    }
    finish(full, bias, n, pad_k_tile(k))
}

/// The product of a list of sizes.
pub open spec fn product(s: Seq<usize>) -> int
    decreases s.len(),
{
    if s.len() == 0 {
        1
    } else {
        product(s.drop_last()) * s.last()
    }
}

/// Every prefix of a list has a product that fits.
pub open spec fn products_fit(s: Seq<usize>) -> bool {
    forall|i: int| 0 <= i <= s.len() ==> #[trigger] product(s.take(i)) <= usize::MAX
}

fn product_of(s: &[usize], from: usize) -> (r: usize)
    requires
        from <= s@.len(),
        products_fit(s@.skip(from as int)),
    ensures
        r == product(s@.skip(from as int)),
{
    let mut p: usize = 1;
    let ghost t = s@.skip(from as int);
    for i in from..s.len()
        invariant
            from <= s@.len(),
            t == s@.skip(from as int),
            products_fit(t),
            p == product(t.take(i - from)),
    {
        proof {
            assert(t.take(i - from + 1).drop_last() =~= t.take(i - from));
            assert(t.take(i - from + 1).last() == s@[i as int]);
            assert(product(t.take(i - from + 1)) <= usize::MAX);
        }
        p = p * s[i];
    }
    proof {
        assert(t.take(t.len() as int) =~= t);
    }
    p
}

/// The last two axes are 3 wide.
pub open spec fn is_conv(shape: Seq<usize>) -> bool {
    shape.len() >= 2 && shape[shape.len() - 1] == 3 && shape[shape.len() - 2] == 3
}

/// Builds a convolution as a linear layer: its kernel `[c_out, c_in, 3, 3]`
/// flattened behind the first axis is a matrix already.
pub fn load_conv(shape: &[usize], data: Vec<u8>, bias: Vec<u16>, bias_shape: &[usize]) -> (r: Result<
    GpuLinear,
    LinearError,
>)
    requires
        shape@.len() >= 2 ==> products_fit(shape@.skip(1)) && pads_fit(
            shape@[0] as int,
            product(shape@.skip(1)),
        ) && shape@[0] * product(shape@.skip(1)) * 2 <= usize::MAX && shape@[0] * align_up(
            product(shape@.skip(1)),
            16,
        ) * 2 <= usize::MAX,
    ensures
        if shape@.len() < 2 {
            r is Err && r->Err_0 == LinearError::NotDeep
        } else if !is_conv(shape@) {
            r is Err && r->Err_0 == LinearError::NotConv
        } else if data@.len() != shape@[0] * product(shape@.skip(1)) * 2 {
            r is Err && r->Err_0 == LinearError::ElemCount
        } else if bias_shape@.len() != 1 || bias_shape@[0] != shape@[0] {
            r is Err && r->Err_0 == LinearError::BiasShape
        } else {
            loaded(
                PackedWeight { data, rows: shape@[0], cols: product(shape@.skip(1)) as usize },
                bias@,
                r,
            )
        },
{
    if shape.len() < 2 {
        return Err(LinearError::NotDeep);
    }
    let n: usize = shape[0];
    let k: usize = product_of(shape, 1);
    if shape[shape.len() - 1] != 3 || shape[shape.len() - 2] != 3 {
        return Err(LinearError::NotConv);
    }
    proof {
        assert(0 <= n * k) by (nonlinear_arith);
    }
    if data.len() != n * k * 2 {
        return Err(LinearError::ElemCount);
    }
    if bias_shape.len() != 1 || bias_shape[0] != n {
        return Err(LinearError::BiasShape);
    }
    let w = PackedWeight { data, rows: n, cols: k };
    proof {
        lemma_align_bounds(n as int, 128);
        lemma_align_bounds(k as int, 16);
    }
    let wide = pad_k(&w);
    let full = match pad_rows(&wide, align(n, GEMM_BM)) {
        Ok(p) => p,
        Err(_) => {
            assert(false);
            return Err(LinearError::WeightShape { rows: n, cols: k });
        },
    };
    proof {
        lemma_padded_twice(w, wide, full, align_up(n as int, 128), align_up(k as int, 16));
    }
    finish(full, Some(bias), n, pad_k_tile(k))
}

/// The rows of the first `i` matrices.
pub open spec fn rows_before(m: Seq<PackedWeight>, i: int) -> int
    decreases i,
{
    if i <= 0 {
        0
    } else {
        rows_before(m, i - 1) + m[i - 1].rows
    }
}

/// The data of the first `i` matrices, one behind the other.
pub open spec fn stacked_data(m: Seq<PackedWeight>, i: int) -> Seq<u8>
    decreases i,
{
    if i <= 0 {
        Seq::empty()
    } else {
        stacked_data(m, i - 1) + m[i - 1].data@
    }
}

/// The numbers of the first `i` biases, one behind the other.
pub open spec fn stacked_bias(b: Seq<Vec<u16>>, i: int) -> Seq<u16>
    decreases i,
{
    if i <= 0 {
        Seq::empty()
    } else {
        stacked_bias(b, i - 1) + b[i - 1]@
    }
}

/// The matrices are filled and of the width of the first.
pub open spec fn same_cols(m: Seq<PackedWeight>) -> bool {
    forall|i: int| 0 <= i < m.len() ==> (#[trigger] m[i]).cols == m[0].cols
}

/// Stacking matrices of one width gives a matrix of that width.
pub proof fn law_stack_fills_shape(m: Seq<PackedWeight>, i: int)
    requires
        0 <= i <= m.len(),
        m.len() > 0,
        same_cols(m),
        forall|j: int| 0 <= j < m.len() ==> #[trigger] m[j].wf(),
    ensures
        stacked_data(m, i).len() == rows_before(m, i) * m[0].cols * 2,
        rows_before(m, i) >= 0,
    decreases i,
{
    if i > 0 {
        law_stack_fills_shape(m, i - 1);
        assert(m[i - 1].wf());
        let (a, b, c) = (rows_before(m, i - 1), m[i - 1].rows as int, m[0].cols as int);
        assert((a + b) * c * 2 == a * c * 2 + b * c * 2) by (nonlinear_arith);
    } else {
        assert(0 * m[0].cols == 0) by (nonlinear_arith);
    }
}

proof fn lemma_rows_grow(m: Seq<PackedWeight>, i: int, n: int)
    requires
        0 <= i <= n <= m.len(),
    ensures
        0 <= rows_before(m, i) <= rows_before(m, n),
    decreases n,
{
    if i < n {
        lemma_rows_grow(m, i, n - 1);
    } else if i > 0 {
        lemma_rows_grow(m, i - 1, n - 1);
    }
}

/// Builds one layer out of several of the same input width: their rows and
/// biases one behind the other. Unlike [`load`] this pads no columns, so a width
/// that is not in whole steps is refused.
pub fn load_fused(mats: &[PackedWeight], biases: &[Vec<u16>]) -> (r: Result<GpuLinear, LinearError>)
    requires
        mats@.len() > 0,
        forall|i: int| 0 <= i < mats@.len() ==> #[trigger] mats@[i].wf(),
        rows_before(mats@, mats@.len() as int) <= usize::MAX,
        pads_fit(rows_before(mats@, mats@.len() as int), mats@[0].cols as int),
    ensures
        ({
            let n = rows_before(mats@, mats@.len() as int);
            let k = mats@[0].cols;
            let bias = stacked_bias(biases@, biases@.len() as int);
            if !same_cols(mats@) {
                r is Err && r->Err_0 == LinearError::FusedCols
            } else if bias.len() != n {
                r is Err && r->Err_0 == (LinearError::BiasLen { got: bias.len() as usize, n: n as usize })
            } else if k % 16 != 0 {
                r is Err && r->Err_0 == (LinearError::WeightShape { rows: align_up(n, 128) as usize, cols: k })
            } else {
                &&& r is Ok
                &&& r->Ok_0.wf()
                &&& r->Ok_0.n == n
                &&& r->Ok_0.k == k
                &&& r->Ok_0.bias@ == zero_padded(bias, align_up(n, 128))
                &&& r->Ok_0.w.data@.len() >= stacked_data(mats@, mats@.len() as int).len()
                &&& r->Ok_0.w.data@.take(stacked_data(mats@, mats@.len() as int).len() as int) == stacked_data(
                    mats@,
                    mats@.len() as int,
                )
                &&& forall|i: int|
                    stacked_data(mats@, mats@.len() as int).len() <= i < r->Ok_0.w.data@.len()
                        ==> #[trigger] r->Ok_0.w.data@[i] == 0
            }
        }),
{
    let mut bias: Vec<u16> = Vec::new();
    for i in 0..biases.len()
        invariant
            bias@ == stacked_bias(biases@, i as int),
    {
        let b = &biases[i];
        let ghost before = bias@;
        for j in 0..b.len()
            invariant
                bias@ == before + b@.take(j as int),
        {
            bias.push(b[j]);
            assert(b@.take(j + 1) =~= b@.take(j as int).push(b@[j as int]));
        }
        assert(b@.take(b@.len() as int) =~= b@);
    }
    let k: usize = mats[0].cols;
    for i in 0..mats.len()
        invariant
            mats@.len() > 0,
            k == mats@[0].cols,
            forall|j: int| 0 <= j < i ==> (#[trigger] mats@[j]).cols == k,
    {
        if mats[i].cols != k {
            return Err(LinearError::FusedCols);
        }
    }
    let mut n: usize = 0;
    let mut data: Vec<u8> = Vec::new();
    for i in 0..mats.len()
        invariant
            rows_before(mats@, mats@.len() as int) <= usize::MAX,
            n == rows_before(mats@, i as int),
            data@ == stacked_data(mats@, i as int),
    {
        proof {
            lemma_rows_grow(mats@, i + 1, mats@.len() as int);
        }
        let m = &mats[i];
        let ghost before = data@;
        for j in 0..m.data.len()
            invariant
                data@ == before + m.data@.take(j as int),
        {
            data.push(m.data[j]);
            assert(m.data@.take(j + 1) =~= m.data@.take(j as int).push(m.data@[j as int]));
        }
        assert(m.data@.take(m.data@.len() as int) =~= m.data@);
        n = n + m.rows;
    }
    proof {
        law_stack_fills_shape(mats@, mats@.len() as int);
        lemma_align_bounds(n as int, 128);
        lemma_align_bounds(k as int, 16);
    }
    let w = PackedWeight { data, rows: n, cols: k };
    let full = match pad_rows(&w, align(n, GEMM_BM)) {
        Ok(p) => p,
        Err(_) => {
            assert(false);
            return Err(LinearError::FusedCols);
        },
    };
    proof {
        lemma_padded_rows_flat(w, full, align_up(n as int, 128));
    }
    finish(full, Some(bias), n, pad_k_tile(k))
}

/// Padding rows leaves the data in front and puts zeros behind it.
proof fn lemma_padded_rows_flat(w: PackedWeight, p: PackedWeight, rows: int)
    requires
        w.wf(),
        w.rows <= rows,
        padded(w, p, rows, w.cols as int),
    ensures
        p.data@.len() >= w.data@.len(),
        p.data@.take(w.data@.len() as int) == w.data@,
        forall|i: int| w.data@.len() <= i < p.data@.len() ==> #[trigger] p.data@[i] == 0,
{
    let line = w.cols * 2;
    assert(rows * w.cols >= w.rows * w.cols) by (nonlinear_arith)
        requires
            rows >= w.rows,
    ;
    assert forall|i: int| 0 <= i < p.data@.len() implies #[trigger] p.data@[i] == if i < w.data@.len() {
        w.data@[i]
    } else {
        0
    } by {
        if line == 0 {
            assert(rows * w.cols == 0) by (nonlinear_arith)
                requires
                    w.cols == 0,
            ;
        } else {
            let r = i / line;
            let b = i % line;
            vstd::arithmetic::div_mod::lemma_fundamental_div_mod(i, line);
            assert(i == r * line + b) by (nonlinear_arith)
                requires
                    i == line * r + b,
            ;
            assert(0 <= b < line);
            assert(0 <= r < rows) by (nonlinear_arith)
                requires
                    0 <= i < rows * w.cols * 2,
                    i == r * line + b,
                    0 <= b < line,
                    line == w.cols * 2,
                    r == i / line,
            ;
            assert(p.at(r, b) == padded_at(w, r, b));
            assert(r < w.rows <==> i < w.rows * w.cols * 2) by (nonlinear_arith)
                requires
                    i == r * line + b,
                    0 <= b < line,
                    line == w.cols * 2,
            ;
        }
    }
    assert(p.data@.take(w.data@.len() as int) =~= w.data@);
}

/// Row `r` of matrix `k` of a stack is the row behind all rows of the matrices
/// before it.
pub proof fn law_stack_keeps_rows(m: Seq<PackedWeight>, n: int, k: int, r: int, b: int)
    requires
        0 <= k < n <= m.len(),
        same_cols(m),
        forall|j: int| 0 <= j < m.len() ==> #[trigger] m[j].wf(),
        0 <= r < m[k].rows,
        0 <= b < m[0].cols * 2,
    ensures
        ({
            let at = (rows_before(m, k) + r) * (m[0].cols * 2) + b;
            0 <= at < stacked_data(m, n).len() && stacked_data(m, n)[at] == m[k].at(r, b)
        }),
    decreases n,
{
    let w = m[0].cols * 2;
    let a = rows_before(m, k);
    let at = (a + r) * w + b;
    law_stack_fills_shape(m, n);
    law_stack_fills_shape(m, n - 1);
    law_stack_fills_shape(m, k);
    lemma_rows_grow(m, k, n - 1);
    assert(m[k].wf() && m[n - 1].wf() && m[k].cols == m[0].cols);
    let rows = m[k].rows as int;
    assert(at == a * w + (r * w + b) && 0 <= r * w && r * w + b < rows * w && a * w >= 0) by (nonlinear_arith)
        requires
            at == (a + r) * w + b,
            0 <= r < rows,
            0 <= b < w,
            a >= 0,
    ;
    assert(a * m[0].cols * 2 == a * w) by (nonlinear_arith)
        requires
            w == m[0].cols * 2,
    ;
    assert(rows * m[k].cols * 2 == rows * w) by (nonlinear_arith)
        requires
            w == m[0].cols * 2,
            m[k].cols == m[0].cols,
    ;
    if k < n - 1 {
        law_stack_keeps_rows(m, n - 1, k, r, b);
    }
}

/// Number `i` of bias `k` of a stack is the one behind all numbers of the biases
/// before it.
pub proof fn law_stack_keeps_biases(v: Seq<Vec<u16>>, n: int, k: int, i: int)
    requires
        0 <= k < n <= v.len(),
        0 <= i < v[k]@.len(),
    ensures
        ({
            let at = stacked_bias(v, k).len() + i;
            at < stacked_bias(v, n).len() && stacked_bias(v, n)[at] == v[k]@[i]
        }),
    decreases n,
{
    if k < n - 1 {
        law_stack_keeps_biases(v, n - 1, k, i);
    }
}

} // verus!
