//! Moving blocks of elements between the host tower's layouts.
use vstd::prelude::*;

verus! {

/// Element `j` of `[b][n][m][d]`, taken from `[b][m][n][d]`.
pub open spec fn swapped_at<T>(x: Seq<T>, m: int, n: int, d: int, j: int) -> T {
    let block = j / d;
    let row = block / m;
    x[((row / n * m + block % m) * n + row % n) * d + j % d]
}

/// `[b][m][n][d]` with its middle axes swapped.
pub open spec fn swapped<T>(x: Seq<T>, b: int, m: int, n: int, d: int) -> Seq<T> {
    Seq::new((b * n * m * d) as nat, |j: int| swapped_at(x, m, n, d, j))
}

proof fn lemma_div_mod(q: int, d: int, r: int)
    requires
        0 <= r < d,
    ensures
        (q * d + r) / d == q,
        (q * d + r) % d == r,
{
    vstd::arithmetic::div_mod::lemma_fundamental_div_mod_converse(q * d + r, d, q, r);
}

proof fn lemma_source(b: int, m: int, n: int, d: int, ib: int, im: int, i_n: int, id: int)
    requires
        0 <= ib < b,
        0 <= im < m,
        0 <= i_n < n,
        0 <= id < d,
    ensures
        0 <= ib * m,
        ib * m + im < b * m,
        0 <= (ib * m + im) * n,
        (ib * m + im) * n + i_n < b * m * n,
        0 <= ((ib * m + im) * n + i_n) * d,
        ((ib * m + im) * n + i_n) * d + id < b * m * n * d,
        b * m <= b * m * n * d,
        b * m * n <= b * m * n * d,
{
    assert(0 <= ib * m && ib * m + m <= b * m) by (nonlinear_arith)
        requires
            0 <= ib < b,
            m >= 0,
    ;
    let u = ib * m + im;
    assert(0 <= u * n && u * n + n <= (b * m) * n) by (nonlinear_arith)
        requires
            0 <= u < b * m,
            n >= 0,
    ;
    let v = u * n + i_n;
    assert(0 <= v * d && v * d + d <= (b * m * n) * d) by (nonlinear_arith)
        requires
            0 <= v < b * m * n,
            d >= 0,
    ;
    assert(b * m <= b * m * n) by (nonlinear_arith)
        requires
            b * m >= 0,
            n >= 1,
    ;
    assert(b * m * n <= b * m * n * d) by (nonlinear_arith)
        requires
            b * m * n >= 0,
            d >= 1,
    ;
}

/// Swaps the middle axes of `[b][m][n][d]`. With `d == 1` this turns channel
/// planes into token rows; with a head's width as `d` it gathers the heads of
/// every token.
pub fn swap_axes<T: Copy>(x: &[T], b: usize, m: usize, n: usize, d: usize) -> (r: Vec<T>)
    requires
        m >= 1,
        n >= 1,
        d >= 1,
        x@.len() == b * m * n * d,
    ensures
        r@ == swapped(x@, b as int, m as int, n as int, d as int),
{
    let _len: usize = x.len();
    let mut out: Vec<T> = Vec::new();
    proof {
        assert(((0int * n) * m) * d == 0) by (nonlinear_arith);
    }
    for ib in 0..b
        invariant
            m >= 1,
            n >= 1,
            d >= 1,
            x@.len() == b * m * n * d,
            x@.len() <= usize::MAX,
            out@.len() == ((ib * n) * m) * d,
            forall|j: int|
                0 <= j < out@.len() ==> #[trigger] out@[j] == swapped_at(x@, m as int, n as int, d as int, j),
    {
        proof {
            assert(((ib * n + 0) * m) * d == ((ib * n) * m) * d) by (nonlinear_arith);
        }
        for i_n in 0..n
            invariant
                ib < b,
                m >= 1,
                n >= 1,
                d >= 1,
                x@.len() == b * m * n * d,
                x@.len() <= usize::MAX,
                out@.len() == ((ib * n + i_n) * m) * d,
                forall|j: int|
                    0 <= j < out@.len() ==> #[trigger] out@[j] == swapped_at(x@, m as int, n as int, d as int, j),
        {
            proof {
                assert(((ib * n + i_n) * m + 0) * d == ((ib * n + i_n) * m) * d) by (nonlinear_arith);
            }
            for im in 0..m
                invariant
                    ib < b,
                    i_n < n,
                    m >= 1,
                    n >= 1,
                    d >= 1,
                    x@.len() == b * m * n * d,
                    x@.len() <= usize::MAX,
                    out@.len() == ((ib * n + i_n) * m + im) * d,
                    forall|j: int|
                        0 <= j < out@.len() ==> #[trigger] out@[j] == swapped_at(x@, m as int, n as int, d as int, j),
            {
                for id in 0..d
                    invariant
                        ib < b,
                        i_n < n,
                        im < m,
                        m >= 1,
                        n >= 1,
                        d >= 1,
                        x@.len() == b * m * n * d,
                        x@.len() <= usize::MAX,
                        out@.len() == ((ib * n + i_n) * m + im) * d + id,
                        forall|j: int|
                            0 <= j < out@.len() ==> #[trigger] out@[j] == swapped_at(
                                x@,
                                m as int,
                                n as int,
                                d as int,
                                j,
                            ),
                {
                    proof {
                        lemma_source(
                            b as int,
                            m as int,
                            n as int,
                            d as int,
                            ib as int,
                            im as int,
                            i_n as int,
                            id as int,
                        );
                        lemma_div_mod((ib * n + i_n) * m + im, d as int, id as int);
                        lemma_div_mod(ib * n + i_n, m as int, im as int);
                        lemma_div_mod(ib as int, n as int, i_n as int);
                    }
                    out.push(x[((ib * m + im) * n + i_n) * d + id]);
                }
                proof {
                    assert(((ib * n + i_n) * m + im) * d + d == ((ib * n + i_n) * m + (im + 1)) * d)
                        by (nonlinear_arith);
                }
            }
            proof {
                assert((ib * n + i_n) * m + m == (ib * n + (i_n + 1)) * m) by (nonlinear_arith);
            }
        }
        proof {
            assert(ib * n + n == (ib + 1) * n) by (nonlinear_arith);
        }
    }
    out
}

/// Swapping the axes twice changes nothing.
pub proof fn law_swap_undoes_itself<T>(x: Seq<T>, b: int, m: int, n: int, d: int)
    requires
        b >= 0,
        m >= 1,
        n >= 1,
        d >= 1,
        x.len() == b * m * n * d,
    ensures
        swapped(swapped(x, b, m, n, d), b, n, m, d) == x,
{
    let y = swapped(x, b, m, n, d);
    let z = swapped(y, b, n, m, d);
    assert(b * m * n * d >= 0) by (nonlinear_arith)
        requires
            b >= 0,
            m >= 1,
            n >= 1,
            d >= 1,
    ;
    assert(b * n * m * d == b * m * n * d) by (nonlinear_arith);
    assert forall|j: int| 0 <= j < x.len() implies z[j] == x[j] by {
        let block = j / d;
        let id = j % d;
        let row = block / n;
        let i_n = block % n;
        let ib = row / m;
        let im = row % m;
        assert(j == block * d + id && 0 <= id < d && 0 <= block < b * m * n) by (nonlinear_arith)
            requires
                block == j / d,
                id == j % d,
                d >= 1,
                0 <= j < b * m * n * d,
        ;
        assert(block == row * n + i_n && 0 <= i_n < n && 0 <= row < b * m) by (nonlinear_arith)
            requires
                row == block / n,
                i_n == block % n,
                n >= 1,
                0 <= block < b * m * n,
        ;
        assert(row == ib * m + im && 0 <= im < m && 0 <= ib < b) by (nonlinear_arith)
            requires
                ib == row / m,
                im == row % m,
                m >= 1,
                0 <= row < b * m,
        ;
        let k = ((ib * n + i_n) * m + im) * d + id;
        lemma_source(b, n, m, d, ib, i_n, im, id);
        assert(z[j] == y[k]);
        lemma_div_mod((ib * n + i_n) * m + im, d, id);
        lemma_div_mod(ib * n + i_n, m, im);
        lemma_div_mod(ib, n, i_n);
        assert(y[k] == x[((ib * m + im) * n + i_n) * d + id]);
    }
    assert(z =~= x);
}

/// The leading rows of the first `k` chunks: `tokens[i]` rows of `d` elements out
/// of the `t` rows of chunk `i`.
pub open spec fn leading<T>(x: Seq<T>, tokens: Seq<usize>, t: int, d: int, k: nat) -> Seq<T>
    decreases k,
{
    if k == 0 {
        Seq::empty()
    } else {
        let i = k - 1;
        leading(x, tokens, t, d, i as nat) + x.subrange(i * t * d, i * t * d + tokens[i] * d)
    }
}

/// Packs the leading rows of every chunk.
pub fn pack_rows<T: Copy>(x: &[T], tokens: &Vec<usize>, t: usize, d: usize) -> (r: Vec<T>)
    requires
        d >= 1,
        x@.len() == tokens@.len() * t * d,
        forall|i: int| 0 <= i < tokens@.len() ==> #[trigger] tokens@[i] <= t,
    ensures
        r@ == leading(x@, tokens@, t as int, d as int, tokens@.len()),
{
    let _len: usize = x.len();
    let mut out: Vec<T> = Vec::new();
    for i in 0..tokens.len()
        invariant
            d >= 1,
            x@.len() == tokens@.len() * t * d,
            x@.len() <= usize::MAX,
            forall|i: int| 0 <= i < tokens@.len() ==> #[trigger] tokens@[i] <= t,
            out@ == leading(x@, tokens@, t as int, d as int, i as nat),
    {
        let ghost n = tokens@.len() as int;
        proof {
            assert(tokens@[i as int] <= t);
            lemma_chunk(n, t as int, d as int, i as int, tokens@[i as int] as int);
        }
        let from: usize = i * t * d;
        let len: usize = tokens[i] * d;
        let ghost before = out@;
        for j in 0..len
            invariant
                from + len <= x@.len(),
                x@.len() <= usize::MAX,
                out@ == before + x@.subrange(from as int, from + j),
        {
            out.push(x[from + j]);
            assert(out@ =~= before + x@.subrange(from as int, from + j + 1));
        }
    }
    out
}

proof fn lemma_chunk(n: int, t: int, d: int, i: int, v: int)
    requires
        0 <= i < n,
        0 <= v <= t,
        d >= 1,
    ensures
        0 <= i * t,
        0 <= i * t * d,
        0 <= v * d,
        i * t * d + v * d <= n * t * d,
        i * t <= n * t,
        i * t <= n * t * d,
{
    assert(0 <= i * t && i * t + t <= n * t) by (nonlinear_arith)
        requires
            0 <= i < n,
            t >= 0,
    ;
    assert(0 <= i * t * d) by (nonlinear_arith)
        requires
            0 <= i * t,
            d >= 0,
    ;
    assert(0 <= v * d && (i * t) * d + v * d <= (n * t) * d) by (nonlinear_arith)
        requires
            0 <= v,
            0 <= i * t,
            i * t + v <= n * t,
            d >= 0,
    ;
    assert(i * t <= n * t * d) by (nonlinear_arith)
        requires
            i * t <= n * t,
            0 <= i * t,
            d >= 1,
    ;
}

/// Swapping the middle axes moves the block at `(im, i_n)` to `(i_n, im)`, element
/// by element, within its batch.
pub proof fn law_swap_moves_blocks<T>(
    x: Seq<T>,
    b: int,
    m: int,
    n: int,
    d: int,
    ib: int,
    im: int,
    i_n: int,
    id: int,
)
    requires
        0 <= ib < b,
        0 <= im < m,
        0 <= i_n < n,
        0 <= id < d,
    ensures
        ({
            let at = ((ib * n + i_n) * m + im) * d + id;
            &&& 0 <= at < swapped(x, b, m, n, d).len()
            &&& swapped(x, b, m, n, d)[at] == x[((ib * m + im) * n + i_n) * d + id]
        }),
{
    lemma_source(b, n, m, d, ib, i_n, im, id);
    lemma_div_mod((ib * n + i_n) * m + im, d, id);
    lemma_div_mod(ib * n + i_n, m, im);
    lemma_div_mod(ib, n, i_n);
}

/// Rows of the first `k` chunks that are kept.
pub open spec fn kept_rows(tokens: Seq<usize>, k: nat) -> int
    decreases k,
{
    if k == 0 {
        0
    } else {
        kept_rows(tokens, (k - 1) as nat) + tokens[k - 1]
    }
}

/// Packing keeps the leading rows of every chunk in order: row `r` of chunk `i`
/// goes behind all kept rows of the chunks before it.
pub proof fn law_pack_keeps_rows<T>(x: Seq<T>, tokens: Seq<usize>, t: int, d: int, k: nat, i: int, r: int, e: int)
    requires
        d >= 1,
        t >= 0,
        x.len() == tokens.len() * t * d,
        forall|j: int| 0 <= j < tokens.len() ==> #[trigger] tokens[j] <= t,
        0 <= i < k <= tokens.len(),
        0 <= r < tokens[i],
        0 <= e < d,
    ensures
        ({
            let at = (kept_rows(tokens, i as nat) + r) * d + e;
            &&& 0 <= at < leading(x, tokens, t, d, k).len()
            &&& leading(x, tokens, t, d, k)[at] == x[(i * t + r) * d + e]
        }),
        leading(x, tokens, t, d, k).len() == kept_rows(tokens, k) * d,
    decreases k,
{
    let j = k - 1;
    let before = leading(x, tokens, t, d, j as nat);
    let v = tokens[j] as int;
    lemma_kept(x, tokens, t, d, j as nat);
    lemma_kept(x, tokens, t, d, k);
    lemma_chunk(tokens.len() as int, t, d, j, v);
    let a = kept_rows(tokens, i as nat);
    let at = (a + r) * d + e;
    if i < j {
        law_pack_keeps_rows(x, tokens, t, d, j as nat, i, r, e);
    } else {
        lemma_kept(x, tokens, t, d, i as nat);
        assert(at == a * d + (r * d + e) && 0 <= r * d && r * d + e < v * d) by (nonlinear_arith)
            requires
                at == (a + r) * d + e,
                0 <= r < v,
                0 <= e < d,
        ;
        assert((i * t + r) * d + e == i * t * d + (r * d + e)) by (nonlinear_arith);
    }
}

proof fn lemma_kept<T>(x: Seq<T>, tokens: Seq<usize>, t: int, d: int, k: nat)
    requires
        d >= 1,
        t >= 0,
        x.len() == tokens.len() * t * d,
        forall|j: int| 0 <= j < tokens.len() ==> #[trigger] tokens[j] <= t,
        k <= tokens.len(),
    ensures
        leading(x, tokens, t, d, k).len() == kept_rows(tokens, k) * d,
        kept_rows(tokens, k) >= 0,
        kept_rows(tokens, k) * d >= 0,
    decreases k,
{
    if k > 0 {
        let j = k - 1;
        lemma_kept(x, tokens, t, d, j as nat);
        assert(tokens[j] <= t);
        let v = tokens[j] as int;
        lemma_chunk(tokens.len() as int, t, d, j, v);
        let a = kept_rows(tokens, j as nat);
        assert((a + v) * d == a * d + v * d && v * d >= 0) by (nonlinear_arith)
            requires
                v >= 0,
                d >= 1,
        ;
    } else {
        assert(0 * d == 0) by (nonlinear_arith);
    }
}

} // verus!
