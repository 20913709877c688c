//! Dense tensors of the host models, and the shape of a linear layer over them.
use vstd::prelude::*;

use crate::linear::{product, products_fit};

verus! {

/// A dense tensor, the last axis contiguous.
pub struct CpuTensor<T> {
    pub data: Vec<T>,
    pub shape: Vec<usize>,
}

impl<T> CpuTensor<T> {
    /// There is one element for each index of the shape.
    pub open spec fn wf(self) -> bool {
        self.data@.len() == product(self.shape@)
    }

    /// A tensor of these elements.
    pub fn new(data: Vec<T>, shape: Vec<usize>) -> (r: CpuTensor<T>)
        requires
            data@.len() == product(shape@),
        ensures
            r.wf(),
            r.data@ == data@,
            r.shape@ == shape@,
    {
        CpuTensor { data, shape }
    }

    /// The number of elements.
    pub fn numel(&self) -> (r: usize)
        ensures
            r == self.data@.len(),
            self.wf() ==> r == product(self.shape@),
    {
        self.data.len()
    }
}

/// A linear layer over a tensor: `m` rows of `k` become rows of `n`.
pub struct LinearPlan {
    pub m: usize,
    pub n: usize,
    pub k: usize,
    /// One row only: a matrix-vector product.
    pub single: bool,
    pub out_shape: Vec<usize>,
}

/// The shape behind a linear layer of `n` outputs.
pub open spec fn projected(shape: Seq<usize>, n: usize) -> Seq<usize> {
    shape.drop_last().push(n)
}

/// Plans a linear layer of a `rows` by `cols` weight over a tensor of this shape.
pub fn linear_plan(shape: &[usize], rows: usize, cols: usize) -> (r: LinearPlan)
    requires
        shape@.len() > 0,
        shape@.last() == cols,
        products_fit(shape@.drop_last()),
    ensures
        r.m == product(shape@.drop_last()),
        r.n == rows,
        r.k == cols,
        r.single == (r.m == 1),
        r.out_shape@ == projected(shape@, rows),
{
    let nd: usize = shape.len();
    let mut m: usize = 1;
    let mut out_shape: Vec<usize> = Vec::new();
    let ghost lead = shape@.drop_last();
    for i in 0..(nd - 1)
        invariant
            nd == shape@.len(),
            nd > 0,
            lead == shape@.drop_last(),
            products_fit(lead),
            m == product(lead.take(i as int)),
            out_shape@ =~= lead.take(i as int),
    {
        proof {
            assert(lead.take(i + 1).drop_last() =~= lead.take(i as int));
            assert(lead.take(i + 1).last() == shape@[i as int]);
            assert(product(lead.take(i + 1)) <= usize::MAX);
        }
        m = m * shape[i];
        out_shape.push(shape[i]);
    }
    assert(lead.take(nd - 1) =~= lead);
    out_shape.push(rows);
    LinearPlan { m, n: rows, k: cols, single: m == 1, out_shape }
}

/// Rows that one task of a matrix-vector product takes, between 64 and 2048.
pub fn gemv_chunk(rows: usize, threads: usize) -> (r: usize)
    requires
        threads > 0,
        threads * 4 <= usize::MAX,
    ensures
        r == ({
            let share = rows as int / (threads * 4);
            if share < 64 {
                64
            } else if share > 2048 {
                2048
            } else {
                share
            }
        }),
{
    let share: usize = rows / (threads * 4);
    if share < 64 {
        64
    } else if share > 2048 {
        2048
    } else {
        share
    }
}

/// A linear layer keeps the rows and gives each `n` elements.
pub proof fn law_linear_len(shape: Seq<usize>, n: usize)
    requires
        shape.len() > 0,
    ensures
        product(projected(shape, n)) == product(shape.drop_last()) * n,
        product(shape) == product(shape.drop_last()) * shape.last(),
{
    assert(projected(shape, n).drop_last() =~= shape.drop_last());
}

} // verus!
