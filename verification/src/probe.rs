//! The kernel probes' host side: which adapter and features a probe takes, the
//! buffers, grid and patterns of each probe, and what is counted of its output.

use vstd::prelude::*;
use crate::device::{has_part, holds_part, DeviceInfo, DeviceType};
use crate::manifest::{lines, lines_of, pieces, split};
use crate::text::{chars_of, lit, parse_max, parse_value, str_eq, string_of};
use crate::unicode::{lowercase_text, lowercased, trim, trimmed};

verus! {

/// The first adapter whose lowercased name holds `want`, among the first `n`.
pub open spec fn named_at(infos: Seq<DeviceInfo>, want: Seq<char>, n: nat) -> Option<int>
    decreases n,
{
    if n == 0 {
        None
    } else {
        match named_at(infos, want, (n - 1) as nat) {
            Some(i) => Some(i),
            None => if holds_part(lowercase_text(infos[n - 1].name@), want) {
                Some(n - 1)
            } else {
                None
            },
        }
    }
}

/// The first discrete adapter among the first `n`.
pub open spec fn discrete_at(infos: Seq<DeviceInfo>, n: nat) -> Option<int>
    decreases n,
{
    if n == 0 {
        None
    } else {
        match discrete_at(infos, (n - 1) as nat) {
            Some(i) => Some(i),
            None => if infos[n - 1].device_type == DeviceType::DiscreteGpu {
                Some(n - 1)
            } else {
                None
            },
        }
    }
}

/// The adapter that a probe runs on: the first that the wanted name fits, or
/// without one the first discrete card, or else the first adapter.
pub open spec fn picked(infos: Seq<DeviceInfo>, prefer: Option<Seq<char>>) -> Option<int> {
    match prefer {
        Some(w) => named_at(infos, lowercase_text(w), infos.len()),
        None => if infos.len() == 0 {
            None
        } else {
            match discrete_at(infos, infos.len()) {
                Some(i) => Some(i),
                None => Some(0),
            }
        },
    }
}

/// Why no adapter was picked.
pub enum PickError {
    /// There is none at all.
    NoAdapters,
    /// None has the wanted name, given in lower case.
    NoMatch(String),
}

proof fn lemma_named_bound(infos: Seq<DeviceInfo>, want: Seq<char>, n: nat)
    ensures
        named_at(infos, want, n) matches Some(i) ==> 0 <= i < n,
    decreases n,
{
    if n > 0 {
        lemma_named_bound(infos, want, (n - 1) as nat);
    }
}

proof fn lemma_named_keeps(infos: Seq<DeviceInfo>, want: Seq<char>, m: nat, n: nat)
    requires
        m <= n,
        named_at(infos, want, m) is Some,
    ensures
        named_at(infos, want, n) == named_at(infos, want, m),
    decreases n,
{
    if m < n {
        lemma_named_keeps(infos, want, m, (n - 1) as nat);
    }
}

proof fn lemma_discrete_keeps(infos: Seq<DeviceInfo>, m: nat, n: nat)
    requires
        m <= n,
        discrete_at(infos, m) is Some,
    ensures
        discrete_at(infos, n) == discrete_at(infos, m),
    decreases n,
{
    if m < n {
        lemma_discrete_keeps(infos, m, (n - 1) as nat);
    }
}

/// Picks a probe's adapter.
pub fn pick_adapter(infos: &Vec<DeviceInfo>, prefer: Option<&str>) -> (r: Result<usize, PickError>)
    ensures
        infos@.len() == 0 <==> (r matches Err(PickError::NoAdapters)),
        r matches Ok(i) ==> picked(infos@, match prefer { Some(w) => Some(w@), None => None }) == Some(i as int),
        r matches Err(PickError::NoMatch(w)) ==> prefer is Some && w@ == lowercase_text(prefer->0@)
            && named_at(infos@, w@, infos@.len()) is None,
{
    let n: usize = infos.len();
    if n == 0 {
        return Err(PickError::NoAdapters);
    }
    match prefer {
        Some(p) => {
            let want = lowercased(p);
            for i in 0..n
                invariant
                    n == infos@.len(),
                    n > 0,
                    prefer matches Some(q) && q@ == p@,
                    want@ == lowercase_text(p@),
                    named_at(infos@, want@, i as nat) is None,
            {
                let name = lowercased(infos[i].name.as_str());
                if has_part(name.as_str(), want.as_str()) {
                    proof {
                        assert(named_at(infos@, want@, (i + 1) as nat) == Some(i as int));
                        lemma_named_keeps(infos@, want@, (i + 1) as nat, n as nat);
                    }
                    return Ok(i);
                }
            }
            Err(PickError::NoMatch(want))
        },
        None => {
            for i in 0..n
                invariant
                    n == infos@.len(),
                    prefer is None,
                    discrete_at(infos@, i as nat) is None,
            {
                if matches!(infos[i].device_type, DeviceType::DiscreteGpu) {
                    proof {
                        assert(discrete_at(infos@, (i + 1) as nat) == Some(i as int));
                        lemma_discrete_keeps(infos@, (i + 1) as nat, n as nat);
                    }
                    return Ok(i);
                }
            }
            Ok(0)
        },
    }
}

/// What the adapter can do of what the probe asks after.
pub struct Caps {
    pub subgroup: bool,
    pub subgroup_barrier: bool,
    pub immediates: bool,
}

/// The capabilities to ask of the device: those of the three that the adapter
/// has; `None` where it has some but no subgroups.
pub fn requested(have: &Caps) -> (r: Option<Caps>)
    ensures
        r is None <==> !have.subgroup && (have.subgroup_barrier || have.immediates),
        r matches Some(c) ==> c == *have,
{
    if !have.subgroup && (have.subgroup_barrier || have.immediates) {
        return None;
    }
    Some(Caps { subgroup: have.subgroup, subgroup_barrier: have.subgroup_barrier, immediates: have.immediates })
}

/// The immediate-data limit to ask for: the adapter's own, no more than 128 where
/// the device is to have immediates.
pub fn immediate_limit(have: &Caps, limit: u32) -> (r: u32)
    ensures
        r == if have.immediates && limit > 128 { 128 } else { limit },
{
    if have.immediates && limit > 128 {
        128
    } else {
        limit
    }
}

/// The line that reports one capability.
pub fn feature_row(name: &str, has: bool) -> (r: String)
    ensures
        r@ == "  "@ + name@ + padding((32 - name@.len()) as int) + " "@ + (if has { "YES"@ } else { "no"@ }),
{
    let mut r = lit("  ");
    r.append(name);
    let n: usize = crate::text::chars_of(name).len();
    if n < 32 {
        let pad = spaces(32 - n);
        r.append(pad.as_str());
    }
    r.append(" ");
    r.append(if has { "YES" } else { "no" });
    assert(r@ =~= "  "@ + name@ + padding((32 - name@.len()) as int) + " "@ + (if has { "YES"@ } else { "no"@ }));
    r
}

/// That many spaces; none for a negative number.
pub open spec fn padding(n: int) -> Seq<char> {
    Seq::new(if n > 0 { n as nat } else { 0 }, |i: int| ' ')
}

fn spaces(n: usize) -> (r: String)
    ensures
        r@ == padding(n as int),
{
    let mut v: Vec<char> = Vec::new();
    for i in 0..n
        invariant
            v@ =~= padding(i as int),
    {
        v.push(' ');
    }
    string_of(v.as_slice())
}

/// The entry point of a probe's shader: `reduce` where it defines one, else `probe`.
pub fn entry_of(src: &str) -> (r: &'static str)
    ensures
        r@ == if holds_part(src@, "fn reduce"@) { "reduce"@ } else { "probe"@ },
{
    if has_part(src, "fn reduce") {
        "reduce"
    } else {
        "probe"
    }
}

/// A shader with the directive that turns subgroups on.
pub fn with_enable(src: &str) -> (r: String)
    ensures
        r@ == "enable subgroups;\n"@ + src@,
{
    let mut r = lit("enable subgroups;\n");
    r.append(src);
    r
}

/// What the rejection of that directive shows.
pub fn rejection(message: &str) -> (r: &'static str)
    ensures
        r@ == if holds_part(message@, "subgroups"@) || holds_part(message@, "Unimplemented"@) {
            "confirms naga #5555"@
        } else {
            "different error — read it"@
        },
{
    if has_part(message, "subgroups") || has_part(message, "Unimplemented") {
        "confirms naga #5555"
    } else {
        "different error — read it"
    }
}

/// The first line of a message, empty where it has none.
pub fn first_line(message: &str) -> (r: String)
    ensures
        r@ == if lines_of(message@).len() > 0 { lines_of(message@)[0] } else { Seq::<char>::empty() },
{
    let l = lines(message);
    if l.len() > 0 {
        string_of(l[0].as_slice())
    } else {
        let v: Vec<char> = Vec::new();
        string_of(v.as_slice())
    }
}

/// Which kernels a run of the quantised-weight probe tries.
pub struct Kernels {
    pub gemv: bool,
    pub norm: bool,
    pub gemm: bool,
}

/// The kernels that a name asks for: one of them, or `all`.
pub fn kernels_of(which: &str) -> (r: Kernels)
    ensures
        r.gemv == (which@ == "gemv"@ || which@ == "all"@),
        r.norm == (which@ == "norm"@ || which@ == "all"@),
        r.gemm == (which@ == "gemm"@ || which@ == "all"@),
{
    let all = str_eq(which, "all");
    Kernels {
        gemv: str_eq(which, "gemv") || all,
        norm: str_eq(which, "norm") || all,
        gemm: str_eq(which, "gemm") || all,
    }
}

/// One buffer of a probe: its label, its size in bytes and where it is bound.
pub struct ProbeBuf {
    pub label: &'static str,
    pub size: u64,
    pub binding: u32,
}

/// The same in mathematical terms.
pub open spec fn slots(b: Seq<ProbeBuf>) -> Seq<(Seq<char>, int, int)> {
    Seq::new(b.len(), |i: int| (b[i].label@, b[i].size as int, b[i].binding as int))
}

/// What a probe allocates and dispatches.
pub struct ProbePlan {
    pub buffers: Vec<ProbeBuf>,
    pub groups: (u32, u32),
    /// The bytes of output that are read back.
    pub out_bytes: u64,
}

/// The buffers of the matrix-vector probe on a quantised `rows` by `k` matrix:
/// the codes, the input, the output, the normalising weights where the kernel
/// normalises, and the scales.
pub open spec fn gemv_slots(rows: int, k: int, norm: bool) -> Seq<(Seq<char>, int, int)> {
    let first = seq![("w"@, rows * k, 0int), ("x"@, k * 2, 1int), ("y"@, rows * 2, 2int)];
    if norm {
        first + seq![("n"@, k * 2, 3int), ("s"@, rows * 4, 4int)]
    } else {
        first + seq![("s"@, rows * 4, 3int)]
    }
}

/// Plans the matrix-vector probe; one workgroup does eight rows.
pub fn gemv_plan(rows: u32, k: u32, norm: bool) -> (r: ProbePlan)
    ensures
        slots(r.buffers@) == gemv_slots(rows as int, k as int, norm),
        r.groups == (rows / 8, 1u32),
        r.out_bytes == rows * 2,
{
    let rows64: u64 = rows as u64;
    let k64: u64 = k as u64;
    assert(rows64 * k64 <= 0xFFFF_FFFF * 0xFFFF_FFFF) by (nonlinear_arith)
        requires
            rows64 <= 0xFFFF_FFFF,
            k64 <= 0xFFFF_FFFF,
    ;
    let mut b: Vec<ProbeBuf> = Vec::new();
    b.push(ProbeBuf { label: "w", size: rows64 * k64, binding: 0 });
    b.push(ProbeBuf { label: "x", size: k64 * 2, binding: 1 });
    b.push(ProbeBuf { label: "y", size: rows64 * 2, binding: 2 });
    if norm {
        b.push(ProbeBuf { label: "n", size: k64 * 2, binding: 3 });
        b.push(ProbeBuf { label: "s", size: rows64 * 4, binding: 4 });
    } else {
        b.push(ProbeBuf { label: "s", size: rows64 * 4, binding: 3 });
    }
    assert(slots(b@) =~= gemv_slots(rows as int, k as int, norm));
    ProbePlan { buffers: b, groups: (rows / 8, 1), out_bytes: rows64 * 2 }
}

/// The buffers of the matrix-matrix probe; the scales are bound only where the
/// weights are quantised.  Binding 3 is the uniform.
pub open spec fn gemm_slots(m: int, n: int, k: int, half: bool) -> Seq<(Seq<char>, int, int)> {
    let first = seq![
        ("a"@, m * k * 2, 0int),
        ("w"@, if half { n * k * 2 } else { n * k }, 1int),
        ("c"@, m * n * 2, 2int),
    ];
    if half {
        first
    } else {
        first + seq![("s"@, n * 4, 4int)]
    }
}

/// Plans the matrix-matrix probe; one workgroup does a tile of 128 by 128.
pub fn gemm_plan(m: u32, n: u32, k: u32, half: bool) -> (r: ProbePlan)
    requires
        m <= 0xFFFF,
        n <= 0xFFFF,
        k <= 0xFFFF,
    ensures
        slots(r.buffers@) == gemm_slots(m as int, n as int, k as int, half),
        r.groups == (n / 128, m / 128),
        r.out_bytes == m * n * 2,
{
    let m64: u64 = m as u64;
    let n64: u64 = n as u64;
    let k64: u64 = k as u64;
    assert(m64 * k64 <= 0xFFFF * 0xFFFF && n64 * k64 <= 0xFFFF * 0xFFFF && m64 * n64 <= 0xFFFF * 0xFFFF) by (nonlinear_arith)
        requires
            m64 <= 0xFFFF,
            n64 <= 0xFFFF,
            k64 <= 0xFFFF,
    ;
    let mut b: Vec<ProbeBuf> = Vec::new();
    b.push(ProbeBuf { label: "a", size: m64 * k64 * 2, binding: 0 });
    b.push(ProbeBuf { label: "w", size: if half { n64 * k64 * 2 } else { n64 * k64 }, binding: 1 });
    b.push(ProbeBuf { label: "c", size: m64 * n64 * 2, binding: 2 });
    if !half {
        b.push(ProbeBuf { label: "s", size: n64 * 4, binding: 4 });
    }
    assert(slots(b@) =~= gemm_slots(m as int, n as int, k as int, half));
    ProbePlan { buffers: b, groups: (n / 128, m / 128), out_bytes: m64 * n64 * 2 }
}

/// The matrix-matrix probe's uniform: the sizes, the leading dimensions counted
/// in half-precision elements, no batch strides and no accumulation.
pub fn gemm_words(m: u32, n: u32, k: u32) -> (r: Vec<u32>)
    ensures
        r@ == seq![m, n, k, n, 0u32, 0u32, 0u32, 0u32, 0u32, k],
{
    vec![m, n, k, n, 0u32, 0u32, 0u32, 0u32, 0u32, k]
}

/// One of the first `c` spikes stands at `at` in an array of rows of length `k`.
pub open spec fn spiked(spikes: Seq<(usize, usize)>, k: int, at: int, c: int) -> bool {
    exists|i: int| 0 <= i < c && at == (#[trigger] spikes[i]).0 * k + spikes[i].1
}

/// The positions, as row and column, of the spikes of the matrix-matrix probe.
pub fn spikes() -> (r: Vec<(usize, usize)>)
    ensures
        r@ == seq![(0usize, 0usize), (1, 1), (2, 5), (3, 17), (4, 259), (5, 1000), (100, 512), (127, 1023)],
{
    vec![
        (0usize, 0usize),
        (1usize, 1usize),
        (2usize, 5usize),
        (3usize, 17usize),
        (4usize, 259usize),
        (5usize, 1000usize),
        (100usize, 512usize),
        (127usize, 1023usize),
    ]
}

/// Codes that are 127 at the spikes and zero elsewhere.
pub fn spike_codes(n: usize, k: usize, at: &Vec<(usize, usize)>) -> (r: Vec<i8>)
    requires
        n * k <= usize::MAX,
        forall|i: int| 0 <= i < at@.len() ==> (#[trigger] at@[i]).0 < n && at@[i].1 < k,
    ensures
        r@.len() == n * k,
        forall|j: int| 0 <= j < n * k ==> r@[j] == if spiked(at@, k as int, j, at@.len() as int) { 127i8 } else { 0i8 },
{
    let total: usize = n * k;
    let mut r: Vec<i8> = Vec::new();
    for j in 0..total
        invariant
            r@.len() == j,
            forall|i: int| 0 <= i < j ==> r@[i] == 0,
    {
        r.push(0);
    }
    let c: usize = at.len();
    for i in 0..c
        invariant
            c == at@.len(),
            total == n * k,
            r@.len() == total,
            forall|i: int| 0 <= i < at@.len() ==> (#[trigger] at@[i]).0 < n && at@[i].1 < k,
            forall|j: int| 0 <= j < total ==> r@[j] == if spiked(at@, k as int, j, i as int) { 127i8 } else { 0i8 },
    {
        let (row, col) = at[i];
        assert(row * k + col < n * k) by (nonlinear_arith)
            requires
                row < n,
                col < k,
        ;
        assert(0 <= row * k <= row * k + col) by (nonlinear_arith)
            requires
                row >= 0,
                k >= 0,
                col >= 0,
        ;
        let ghost before = r@;
        let j0: usize = row * k + col;
        r.set(j0, 127);
        proof {
            assert(at@[i as int].0 == row && at@[i as int].1 == col);
            assert forall|j: int| 0 <= j < total implies r@[j] == if spiked(at@, k as int, j, i + 1) { 127i8 } else { 0i8 } by {
                if j == j0 {
                    assert(spiked(at@, k as int, j, i + 1));
                } else {
                    assert(r@[j] == before[j]);
                    if spiked(at@, k as int, j, i + 1) {
                        let t = choose|t: int| 0 <= t < i + 1 && j == (#[trigger] at@[t]).0 * k + at@[t].1;
                        assert(t < i);
                        assert(spiked(at@, k as int, j, i as int));
                    }
                    if spiked(at@, k as int, j, i as int) {
                        let t = choose|t: int| 0 <= t < i && j == (#[trigger] at@[t]).0 * k + at@[t].1;
                        assert(spiked(at@, k as int, j, i + 1));
                    }
                }
            }
        }
    }
    r
}

/// The 16-row by 32-column block in which the entry at `i` of an array of rows of
/// length `n` stands.
pub open spec fn block_of(i: int, n: int) -> int {
    (i / n / 16) * (n / 32) + (i % n) / 32
}

/// How many of the first `c` entries are set and stand in block `b`.
pub open spec fn set_in(bad: Seq<bool>, n: int, b: int, c: nat) -> nat
    decreases c,
{
    if c == 0 {
        0
    } else {
        set_in(bad, n, b, (c - 1) as nat) + if bad[c - 1] && block_of(c - 1, n) == b { 1nat } else { 0 }
    }
}

/// How many of the first `c` entries are set.
pub open spec fn set_count(bad: Seq<bool>, c: nat) -> nat
    decreases c,
{
    if c == 0 {
        0
    } else {
        set_count(bad, (c - 1) as nat) + if bad[c - 1] { 1nat } else { 0 }
    }
}

proof fn lemma_block_inside(i: int, m: int, n: int)
    requires
        0 <= i < m * n,
        m % 16 == 0,
        n % 32 == 0,
        m >= 0,
        n > 0,
    ensures
        0 <= block_of(i, n) < (m / 16) * (n / 32),
{
    let row = i / n;
    let col = i % n;
    assert(row * n + col == i && 0 <= col < n) by (nonlinear_arith)
        requires
            n > 0,
            row == i / n,
            col == i % n,
    ;
    assert(0 <= row < m) by (nonlinear_arith)
        requires
            row * n + col == i,
            0 <= col < n,
            0 <= i < m * n,
            n > 0,
    ;
    let a = row / 16;
    let b = col / 32;
    let w = n / 32;
    let h = m / 16;
    assert(0 <= a && a + 1 <= h && 0 <= b && b < w);
    assert(0 <= a * w && a * w + w <= h * w) by (nonlinear_arith)
        requires
            0 <= a,
            a + 1 <= h,
            0 <= w,
    ;
}

/// Counts the wrong entries of an `m` by `n` product, block by block and in all.
pub fn error_blocks(bad: &Vec<bool>, m: usize, n: usize) -> (r: (Vec<u32>, u32))
    requires
        bad@.len() == m * n,
        bad@.len() <= u32::MAX,
        m % 16 == 0,
        n % 32 == 0,
        n > 0,
    ensures
        r.0@.len() == (m / 16) * (n / 32),
        forall|b: int| 0 <= b < r.0@.len() ==> r.0@[b] == set_in(bad@, n as int, b, bad@.len()),
        r.1 == set_count(bad@, bad@.len()),
{
    let total: usize = bad.len();
    let w: usize = n / 32;
    assert((m / 16) * w <= m * n) by (nonlinear_arith)
        requires
            w <= n,
            m >= 0,
    ;
    let nb: usize = (m / 16) * w;
    let mut counts: Vec<u32> = Vec::new();
    for b in 0..nb
        invariant
            counts@.len() == b,
            forall|i: int| 0 <= i < b ==> counts@[i] == 0,
    {
        counts.push(0);
    }
    let mut all: u32 = 0;
    for i in 0..total
        invariant
            total == bad@.len(),
            total == m * n,
            total <= u32::MAX,
            w == n / 32,
            m % 16 == 0,
            n % 32 == 0,
            n > 0,
            counts@.len() == (m / 16) * (n / 32),
            counts@.len() == nb,
            all <= i,
            all == set_count(bad@, i as nat),
            forall|b: int| 0 <= b < counts@.len() ==> counts@[b] == set_in(bad@, n as int, b, i as nat) && counts@[b] <= i,
    {
        if bad[i] {
            proof {
                lemma_block_inside(i as int, m as int, n as int);
            }
            let row: usize = i / n / 16;
            let col: usize = (i % n) / 32;
            assert(row * w + col == block_of(i as int, n as int));
            assert(0 <= row * w <= block_of(i as int, n as int)) by {
                assert(row * w >= 0) by (nonlinear_arith)
                    requires
                        row >= 0,
                        w >= 0,
                ;
            }
            let b: usize = row * w + col;
            let was: u32 = counts[b];
            counts.set(b, was + 1);
            all = all + 1;
        }
    }
    (counts, all)
}

/// The sum of the first `c` of some numbers.
pub open spec fn sum(v: Seq<nat>, c: nat) -> nat
    decreases c,
{
    if c == 0 {
        0
    } else {
        sum(v, (c - 1) as nat) + v[c - 1]
    }
}

proof fn lemma_sum_step(a: Seq<nat>, b: Seq<nat>, at: int, c: nat)
    requires
        a.len() == b.len(),
        c <= a.len(),
        forall|i: int| 0 <= i < a.len() ==> b[i] == a[i] + if i == at { 1nat } else { 0 },
    ensures
        sum(b, c) == sum(a, c) + if 0 <= at < c { 1nat } else { 0 },
    decreases c,
{
    if c > 0 {
        lemma_sum_step(a, b, at, (c - 1) as nat);
    }
}

proof fn lemma_sum_same(a: Seq<nat>, b: Seq<nat>, c: nat)
    requires
        c <= a.len(),
        a.len() == b.len(),
        forall|i: int| 0 <= i < a.len() ==> a[i] == b[i],
    ensures
        sum(a, c) == sum(b, c),
    decreases c,
{
    if c > 0 {
        lemma_sum_same(a, b, (c - 1) as nat);
    }
}

/// The counts of all blocks.
pub open spec fn block_counts(bad: Seq<bool>, m: int, n: int, c: nat) -> Seq<nat> {
    Seq::new(((m / 16) * (n / 32)) as nat, |b: int| set_in(bad, n, b, c))
}

/// No wrong entry is lost between the blocks: their counts add up to the total.
pub proof fn law_blocks_add_up(bad: Seq<bool>, m: int, n: int, c: nat)
    requires
        m >= 0,
        n > 0,
        m % 16 == 0,
        n % 32 == 0,
        bad.len() == m * n,
        c <= bad.len(),
    ensures
        sum(block_counts(bad, m, n, c), block_counts(bad, m, n, c).len()) == set_count(bad, c),
    decreases c,
{
    assert((m / 16) * (n / 32) >= 0) by (nonlinear_arith)
        requires
            m >= 0,
            n > 0,
    ;
    let now = block_counts(bad, m, n, c);
    if c == 0 {
        lemma_sum_zero(now, now.len());
    } else {
        law_blocks_add_up(bad, m, n, (c - 1) as nat);
        let was = block_counts(bad, m, n, (c - 1) as nat);
        lemma_block_inside(c - 1, m, n);
        if bad[c - 1] {
            lemma_sum_step(was, now, block_of(c - 1, n), now.len());
        } else {
            lemma_sum_same(was, now, now.len());
        }
    }
}

proof fn lemma_sum_zero(v: Seq<nat>, c: nat)
    requires
        c <= v.len(),
        forall|i: int| 0 <= i < v.len() ==> v[i] == 0,
    ensures
        sum(v, c) == 0,
    decreases c,
{
    if c > 0 {
        lemma_sum_zero(v, (c - 1) as nat);
    }
}

/// The first words of the probe of one exponential: its length and the three
/// constants, as bit patterns, that its range reduction multiplies by.
pub fn exp_words(n: u32) -> (r: Vec<u32>)
    ensures
        r@ == seq![n, 0x3BBB989Du32, 0x3FB8AA3Bu32, 0x32A57060u32],
{
    vec![n, 0x3BBB989Du32, 0x3FB8AA3Bu32, 0x32A57060u32]
}

/// Plans the probe of the exponential over `n` inputs: three arrays of words in,
/// 24 words out for each, 256 inputs to a workgroup.
pub fn exp_plan(n: u32) -> (r: ProbePlan)
    ensures
        slots(r.buffers@) == seq![
            ("x"@, n * 4, 0int),
            ("y"@, n * 4, 1int),
            ("z"@, n * 4, 2int),
            ("out"@, n * 24 * 4, 3int),
            ("cfg"@, 16int, 4int),
        ],
        r.groups == ((if n % 256 == 0 { n / 256 } else { (n / 256 + 1) as u32 }), 1u32),
        r.out_bytes == n * 24 * 4,
{
    let n64: u64 = n as u64;
    let mut b: Vec<ProbeBuf> = Vec::new();
    b.push(ProbeBuf { label: "x", size: n64 * 4, binding: 0 });
    b.push(ProbeBuf { label: "y", size: n64 * 4, binding: 1 });
    b.push(ProbeBuf { label: "z", size: n64 * 4, binding: 2 });
    b.push(ProbeBuf { label: "out", size: n64 * 24 * 4, binding: 3 });
    b.push(ProbeBuf { label: "cfg", size: 16, binding: 4 });
    let groups: u32 = if n % 256 == 0 { n / 256 } else { n / 256 + 1 };
    assert(slots(b@) =~= seq![
        ("x"@, n * 4, 0int),
        ("y"@, n * 4, 1int),
        ("z"@, n * 4, 2int),
        ("out"@, n * 24 * 4, 3int),
        ("cfg"@, 16int, 4int),
    ]);
    ProbePlan { buffers: b, groups: (groups, 1), out_bytes: n64 * 24 * 4 }
}

/// `words` numbers counted up from zero, each combined with `key` by exclusive or.
pub fn pattern(words: u32, key: u32) -> (r: Vec<u32>)
    ensures
        r@.len() == words,
        forall|i: int| 0 <= i < words ==> r@[i] == (i as u32) ^ key,
{
    let mut r: Vec<u32> = Vec::new();
    for i in 0..words
        invariant
            r@.len() == i,
            forall|j: int| 0 <= j < i ==> r@[j] == (j as u32) ^ key,
    {
        r.push(i ^ key);
    }
    r
}

/// A pattern's first word is its key.
pub proof fn law_pattern_starts_with_key(key: u32)
    ensures
        0u32 ^ key == key,
{
    assert(0u32 ^ key == key) by (bit_vector);
}

/// Whether tap `t` of a 3 by 3 window, laid one step up and left of the corner,
/// reads inside the image.
pub open spec fn corner_tap(t: int) -> bool {
    t / 3 >= 1 && t % 3 >= 1
}

/// The taps that the first output of a strided 3 by 3 convolution reads, each
/// with the place in the image that it reads.
pub fn corner_taps(width: usize) -> (r: Vec<(usize, usize)>)
    requires
        width < usize::MAX,
    ensures
        r@ == seq![(4usize, 0usize), (5usize, 1usize), (7usize, width), (8usize, (width + 1) as usize)],
        forall|t: int| 0 <= t < 9 ==> (corner_tap(t) <==> t == 4 || t == 5 || t == 7 || t == 8),
{
    let mut r: Vec<(usize, usize)> = Vec::new();
    r.push((4, 0));
    r.push((5, 1));
    r.push((7, width));
    r.push((8, width + 1));
    r
}

/// The numbers among the first `n` pieces, each read without the white space
/// around it.
pub open spec fn numbers(p: Seq<Seq<char>>, n: nat) -> Seq<usize>
    decreases n,
{
    if n == 0 {
        Seq::empty()
    } else {
        match parse_value(trimmed(p[n - 1]), usize::MAX as nat) {
            Some(v) => numbers(p, (n - 1) as nat).push(v as usize),
            None => numbers(p, (n - 1) as nat),
        }
    }
}

/// The conv tiles to time: those that a comma-separated setting names, or eight.
pub fn tile_list(setting: &Option<String>) -> (r: Vec<usize>)
    ensures
        r@ == match *setting {
            Some(s) => numbers(pieces(s@, ','), pieces(s@, ',').len()),
            None => seq![8usize],
        },
{
    match setting {
        None => vec![8usize],
        Some(s) => {
            let c = chars_of(s.as_str());
            let p = split(c.as_slice(), ',');
            let ghost all = pieces(s@, ',');
            let n: usize = p.len();
            let mut r: Vec<usize> = Vec::new();
            for i in 0..n
                invariant
                    n == p@.len(),
                    n == all.len(),
                    forall|k: int| 0 <= k < n ==> (#[trigger] p@[k])@ == all[k],
                    r@ == numbers(all, i as nat),
            {
                let t = trim(p[i].as_slice());
                match parse_max(t.as_slice(), usize::MAX as u64) {
                    Some(v) => r.push(v as usize),
                    None => {},
                }
            }
            r
        },
    }
}

/// The first place where two arrays differ.
pub fn first_difference(a: &Vec<u32>, b: &Vec<u32>, n: usize) -> (r: Option<usize>)
    requires
        n <= a@.len(),
        n <= b@.len(),
    ensures
        r is None <==> a@.take(n as int) == b@.take(n as int),
        r matches Some(i) ==> i < n && a@[i as int] != b@[i as int] && a@.take(i as int) == b@.take(i as int),
{
    for i in 0..n
        invariant
            n <= a@.len(),
            n <= b@.len(),
            a@.take(i as int) == b@.take(i as int),
    {
        if a[i] != b[i] {
            assert(a@.take(n as int)[i as int] != b@.take(n as int)[i as int]);
            return Some(i);
        }
        assert(a@.take(i + 1) =~= a@.take(i as int).push(a@[i as int]));
        assert(b@.take(i + 1) =~= b@.take(i as int).push(b@[i as int]));
    }
    None
}

/// Two entries stand in one block if and only if their rows are in one band of 16
/// and their columns in one band of 32.
pub proof fn law_blocks_are_bands(r1: int, c1: int, r2: int, c2: int, n: int)
    requires
        n > 0,
        n % 32 == 0,
        0 <= r1,
        0 <= r2,
        0 <= c1 < n,
        0 <= c2 < n,
    ensures
        block_of(r1 * n + c1, n) == block_of(r2 * n + c2, n) <==> r1 / 16 == r2 / 16 && c1 / 32 == c2 / 32,
{
    vstd::arithmetic::div_mod::lemma_fundamental_div_mod_converse(r1 * n + c1, n, r1, c1);
    vstd::arithmetic::div_mod::lemma_fundamental_div_mod_converse(r2 * n + c2, n, r2, c2);
    let w = n / 32;
    let (a, b, x, y) = (r1 / 16, r2 / 16, c1 / 32, c2 / 32);
    assert(0 <= x < w && 0 <= y < w);
    if a * w + x == b * w + y {
        vstd::arithmetic::div_mod::lemma_fundamental_div_mod_converse(a * w + x, w, a, x);
        vstd::arithmetic::div_mod::lemma_fundamental_div_mod_converse(b * w + y, w, b, y);
    }
}

} // verus!
