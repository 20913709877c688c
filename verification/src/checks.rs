//! What a run is held against: how two token sequences agree, where a recorded cache
//! goes, what a profiled step is made of, and what a run's arguments ask for.

use vstd::prelude::*;
use crate::bench::{replace, replaced};
use crate::cli::{arg, flag, value_of};
use crate::manifest::{pieces, split};
use crate::order::{in_order, keys, sorted, Key};
use crate::score::texts;
use crate::text::{chars_eq, chars_of, dec, lit, push_dec, push_dec64, str_eq, string_of};
use crate::unicode::{trim, trimmed};

verus! {

/// How many of the first `n` places hold different tokens.
pub open spec fn differing(a: Seq<i32>, b: Seq<i32>, n: nat) -> nat
    decreases n,
{
    if n == 0 {
        0
    } else {
        differing(a, b, (n - 1) as nat) + if a[n - 1] != b[n - 1] { 1nat } else { 0 }
    }
}

/// How two token sequences agree over the length of the shorter.
#[derive(Clone, Copy, Debug)]
pub struct Agreement {
    pub len: usize,
    pub mismatches: usize,
    pub first: Option<usize>,
}

/// The length of the shorter.
pub open spec fn shared(a: Seq<i32>, b: Seq<i32>) -> nat {
    if a.len() < b.len() {
        a.len()
    } else {
        b.len()
    }
}

/// Compares what was decoded with what was expected.
pub fn agreement(expected: &Vec<i32>, got: &Vec<i32>) -> (r: Agreement)
    ensures
        r.len == shared(expected@, got@),
        r.mismatches == differing(expected@, got@, r.len as nat),
        r.first is None <==> r.mismatches == 0,
        r.first matches Some(i) ==> i < r.len && expected@[i as int] != got@[i as int]
            && expected@.take(i as int) == got@.take(i as int),
{
    let n: usize = if expected.len() < got.len() { expected.len() } else { got.len() };
    let mut count: usize = 0;
    let mut first: Option<usize> = None;
    for i in 0..n
        invariant
            n <= expected@.len(),
            n <= got@.len(),
            count <= i,
            count == differing(expected@, got@, i as nat),
            first is None <==> count == 0,
            first is None ==> expected@.take(i as int) == got@.take(i as int),
            first matches Some(j) ==> j < i && expected@[j as int] != got@[j as int]
                && expected@.take(j as int) == got@.take(j as int),
    {
        if expected[i] != got[i] {
            count = count + 1;
            if first.is_none() {
                first = Some(i);
            }
        } else {
            assert(expected@.take(i + 1) =~= expected@.take(i as int).push(expected@[i as int]));
            assert(got@.take(i + 1) =~= got@.take(i as int).push(got@[i as int]));
        }
    }
    Agreement { len: n, mismatches: count, first }
}

/// No mismatches means that the sequences are the same as far as both go.
pub proof fn law_no_mismatch_means_same(a: Seq<i32>, b: Seq<i32>, n: nat)
    requires
        n <= a.len(),
        n <= b.len(),
    ensures
        differing(a, b, n) == 0 <==> a.take(n as int) == b.take(n as int),
    decreases n,
{
    if n == 0 {
        assert(a.take(0) =~= b.take(0));
    } else {
        law_no_mismatch_means_same(a, b, (n - 1) as nat);
        let x = a.take(n as int);
        let y = b.take(n as int);
        assert(x =~= a.take(n - 1).push(a[n - 1]));
        assert(y =~= b.take(n - 1).push(b[n - 1]));
        if x == y {
            assert(x.drop_last() =~= a.take(n - 1));
            assert(y.drop_last() =~= b.take(n - 1));
            assert(x.last() == y.last());
        }
    }
}

/// The decimal rendering of a signed number.
pub open spec fn signed_dec(n: int) -> Seq<char> {
    if n < 0 {
        "-"@ + dec((-n) as nat)
    } else {
        dec(n as nat)
    }
}

fn push_signed(out: &mut String, n: i32)
    ensures
        final(out)@ == old(out)@ + signed_dec(n as int),
{
    let ghost was = out@;
    let wide: i64 = n as i64;
    if wide < 0 {
        out.append("-");
        push_dec64(out, (-wide) as u64);
        assert(out@ =~= was + signed_dec(n as int));
    } else {
        push_dec64(out, wide as u64);
    }
}

/// The line on a whole decoded sequence.
pub open spec fn sequence_text(a: Agreement, expected: Seq<i32>, got: Seq<i32>) -> Seq<char> {
    "  sequence: "@ + dec(a.len as nat) + " ids, "@ + dec(a.mismatches as nat) + " mismatches"@ + match a.first {
        Some(i) => " (first at index "@ + dec(i as nat) + ": ref="@ + signed_dec(expected[i as int] as int) + " got="@
            + signed_dec(got[i as int] as int) + ")"@,
        None => " — IDENTICAL"@,
    }
}

/// The line on a continuation after a prefill.
pub open spec fn aligned_text(a: Agreement, expected: Seq<i32>, got: Seq<i32>) -> Seq<char> {
    "  tokens: "@ + dec((a.len - a.mismatches) as nat) + "/"@ + dec(a.len as nat) + " aligned"@ + match a.first {
        Some(i) => " (first diff at "@ + dec(i as nat) + ": ref="@ + signed_dec(expected[i as int] as int) + " got="@
            + signed_dec(got[i as int] as int) + ")"@,
        None => " — IDENTICAL"@,
    }
}

impl Agreement {
    /// Says how a decoded sequence agrees.
    pub fn sequence(&self, expected: &Vec<i32>, got: &Vec<i32>) -> (r: String)
        requires
            self.first matches Some(i) ==> i < expected@.len() && i < got@.len(),
        ensures
            r@ == sequence_text(*self, expected@, got@),
    {
        let mut r = lit("  sequence: ");
        push_dec(&mut r, self.len);
        r.append(" ids, ");
        push_dec(&mut r, self.mismatches);
        r.append(" mismatches");
        let ghost head = r@;
        let mut tail = lit("");
        match self.first {
            Some(i) => {
                tail = lit(" (first at index ");
                push_dec(&mut tail, i);
                tail.append(": ref=");
                push_signed(&mut tail, expected[i]);
                tail.append(" got=");
                push_signed(&mut tail, got[i]);
                tail.append(")");
            },
            None => {
                tail = lit(" — IDENTICAL");
            },
        }
        r.append(tail.as_str());
        r
    }

    /// Says how a continuation agrees.
    pub fn aligned(&self, expected: &Vec<i32>, got: &Vec<i32>) -> (r: String)
        requires
            self.mismatches <= self.len,
            self.first matches Some(i) ==> i < expected@.len() && i < got@.len(),
        ensures
            r@ == aligned_text(*self, expected@, got@),
    {
        let mut r = lit("  tokens: ");
        push_dec(&mut r, self.len - self.mismatches);
        r.append("/");
        push_dec(&mut r, self.len);
        r.append(" aligned");
        let mut tail = lit("");
        match self.first {
            Some(i) => {
                tail = lit(" (first diff at ");
                push_dec(&mut tail, i);
                tail.append(": ref=");
                push_signed(&mut tail, expected[i]);
                tail.append(" got=");
                push_signed(&mut tail, got[i]);
                tail.append(")");
            },
            None => {
                tail = lit(" — IDENTICAL");
            },
        }
        r.append(tail.as_str());
        r
    }

    /// The stretch around the first mismatch that is shown: from two places before
    /// it, eight places at most.
    pub fn window(&self, len: usize) -> (r: Option<(usize, usize)>)
        ensures
            self.first is None <==> r is None,
            self.first matches Some(i) ==> r == Some(shown_around(i as int, len as int)),
    {
        match self.first {
            Some(i) => {
                let lo: usize = if i >= 2 { i - 2 } else { 0 };
                let hi: usize = if lo < len && len - lo > 8 { lo + 8 } else { len };
                Some((lo, hi))
            },
            None => None,
        }
    }

    /// Whether a prefill is accepted: the first token is right and so is all that
    /// follows it.
    pub fn accepted(&self, first: i32, expected_first: i32) -> (r: bool)
        ensures
            r == (self.mismatches == 0 && first == expected_first),
    {
        self.mismatches == 0 && first == expected_first
    }
}

/// The stretch around place `i` of a sequence of that length.
pub open spec fn shown_around(i: int, len: int) -> (usize, usize) {
    let lo = if i >= 2 { i - 2 } else { 0 };
    (lo as usize, (if lo + 8 < len { lo + 8 } else { len }) as usize)
}

/// Where one head of a recorded cache comes from and goes to: the range of values
/// within the layer's recording, and the byte offset in the layer's cache.
#[derive(Clone, Copy, Debug, PartialEq, Eq, Structural)]
pub struct SeedSpan {
    pub from: usize,
    pub to: usize,
    pub offset: u64,
}

/// The place of head `h`, where a recording holds `seq_len` positions of
/// `head_dim` values and the cache has room for `max_seq`.
pub fn seed_span(h: usize, seq_len: usize, head_dim: usize, max_seq: usize) -> (r: SeedSpan)
    requires
        (h + 1) * (seq_len * head_dim) <= usize::MAX,
        h * (max_seq * head_dim) * 2 <= u64::MAX,
        max_seq * head_dim <= u64::MAX,
        h * (max_seq * head_dim) <= u64::MAX,
        seq_len * head_dim <= usize::MAX,
    ensures
        r.from == h * (seq_len * head_dim),
        r.to == (h + 1) * (seq_len * head_dim),
        r.offset == h * (max_seq * head_dim) * 2,
{
    let per: usize = seq_len * head_dim;
    assert(h * per + per == (h + 1) * per && 0 <= h * per) by (nonlinear_arith)
        requires
            h >= 0,
            per >= 0,
    ;
    let from: usize = h * per;
    let room: u64 = max_seq as u64 * head_dim as u64;
    let offset: u64 = h as u64 * room * 2;
    SeedSpan { from, to: from + per, offset }
}

/// The heads of a recording follow one another without a gap, and the caches of
/// two heads do not run into each other.
pub proof fn law_seed_spans_apart(h: int, seq_len: int, head_dim: int, max_seq: int)
    requires
        h >= 0,
        head_dim >= 0,
        0 <= seq_len <= max_seq,
    ensures
        (h + 1) * (seq_len * head_dim) == h * (seq_len * head_dim) + seq_len * head_dim,
        h * (max_seq * head_dim) * 2 + seq_len * head_dim * 2 <= (h + 1) * (max_seq * head_dim) * 2,
{
    let per = seq_len * head_dim;
    let room = max_seq * head_dim;
    assert((h + 1) * per == h * per + per) by (nonlinear_arith);
    assert((h + 1) * room == h * room + room) by (nonlinear_arith);
    assert(per <= room) by (nonlinear_arith)
        requires
            per == seq_len * head_dim,
            room == max_seq * head_dim,
            0 <= seq_len <= max_seq,
            head_dim >= 0,
    ;
}

/// The nine operations of a layer, in order.
pub fn op_name(op: usize) -> (r: &'static str)
    requires
        op < 9,
    ensures
        r@ == op_text(op as int),
{
    match op {
        0 => "rms1",
        1 => "gemv_qkv",
        2 => "extract",
        3 => "gqa",
        4 => "gemv_o",
        5 => "rms2",
        6 => "gemv_gu",
        7 => "silu",
        _ => "gemv_dp",
    }
}

/// The name of operation `op`.
pub open spec fn op_text(op: int) -> Seq<char> {
    if op == 0 {
        "rms1"@
    } else if op == 1 {
        "gemv_qkv"@
    } else if op == 2 {
        "extract"@
    } else if op == 3 {
        "gqa"@
    } else if op == 4 {
        "gemv_o"@
    } else if op == 5 {
        "rms2"@
    } else if op == 6 {
        "gemv_gu"@
    } else if op == 7 {
        "silu"@
    } else {
        "gemv_dp"@
    }
}

/// The operations that the ablation leaves out: those that move little data.
pub open spec fn micro(op: int) -> bool {
    op == 0 || op == 2 || op == 5 || op == 7
}

/// The label of the mark behind operation `op` of layer `l`: the first and the
/// last layer are told apart, and an operation that was left out says so.
pub open spec fn mark_text(l: int, op: int, layers: int, skip: bool) -> Seq<char> {
    if skip && micro(op) {
        "skipped"@
    } else if l == 0 || l == layers - 1 {
        "L"@ + dec(l as nat) + ":"@ + op_text(op)
    } else {
        op_text(op)
    }
}

/// The labels of all marks of a profiled step.
pub open spec fn mark_texts(layers: nat, skip: bool) -> Seq<Seq<char>> {
    Seq::new(layers * 9 + 3, |i: int| {
        if i == 0 {
            "start"@
        } else if i == 1 {
            "embed"@
        } else if i == layers * 9 + 2 {
            "tail_rms+lm+argmax"@
        } else {
            mark_text((i - 2) / 9, (i - 2) % 9, layers as int, skip)
        }
    })
}

fn mark_label(l: usize, op: usize, layers: usize, skip: bool) -> (r: String)
    requires
        op < 9,
        l < layers,
    ensures
        r@ == mark_text(l as int, op as int, layers as int, skip),
{
    if skip && (op == 0 || op == 2 || op == 5 || op == 7) {
        lit("skipped")
    } else if l == 0 || l == layers - 1 {
        let mut r = lit("L");
        push_dec(&mut r, l);
        r.append(":");
        r.append(op_name(op));
        r
    } else {
        lit(op_name(op))
    }
}

/// Labels the marks of a profiled step.
pub fn mark_labels(layers: usize, skip: bool) -> (r: Vec<String>)
    requires
        layers * 9 + 3 <= usize::MAX,
    ensures
        r@.len() == layers * 9 + 3,
        forall|i: int| 0 <= i < r@.len() ==> (#[trigger] r@[i])@ == mark_texts(layers as nat, skip)[i],
{
    let total: usize = layers * 9 + 2;
    let mut r: Vec<String> = Vec::new();
    r.push(lit("start"));
    r.push(lit("embed"));
    for i in 2..total
        invariant
            total == layers * 9 + 2,
            r@.len() == i,
            forall|j: int| 0 <= j < i ==> (#[trigger] r@[j])@ == mark_texts(layers as nat, skip)[j],
    {
        let l: usize = (i - 2) / 9;
        let op: usize = (i - 2) % 9;
        r.push(mark_label(l, op, layers, skip));
    }
    r.push(lit("tail_rms+lm+argmax"));
    r
}

/// The time of one label in a profile.
pub struct OpTotal {
    pub name: String,
    pub nanos: u64,
    pub count: usize,
}

/// The time between mark `i` and the mark before it.
pub open spec fn delta(marks: Seq<u64>, i: int) -> int {
    marks[i] - marks[i - 1]
}

/// The time spent under a label, over the first `c` marks.
pub open spec fn spent(labels: Seq<Seq<char>>, marks: Seq<u64>, name: Seq<char>, c: nat) -> int
    decreases c,
{
    if c <= 1 {
        0
    } else {
        spent(labels, marks, name, (c - 1) as nat) + if labels[c - 1] == name { delta(marks, c - 1) } else { 0 }
    }
}

/// How often a label occurs behind the first of `c` marks.
pub open spec fn occurrences(labels: Seq<Seq<char>>, name: Seq<char>, c: nat) -> nat
    decreases c,
{
    if c <= 1 {
        0
    } else {
        occurrences(labels, name, (c - 1) as nat) + if labels[c - 1] == name { 1nat } else { 0 }
    }
}

/// Marks that never go back.
pub open spec fn ascending(marks: Seq<u64>) -> bool {
    forall|i: int, j: int| 0 <= i <= j < marks.len() ==> marks[i] <= marks[j]
}

proof fn lemma_spent_bounds(labels: Seq<Seq<char>>, marks: Seq<u64>, name: Seq<char>, c: nat)
    requires
        ascending(marks),
        c <= marks.len(),
        marks.len() > 0,
    ensures
        0 <= spent(labels, marks, name, c),
        c > 0 ==> spent(labels, marks, name, c) <= marks[c - 1] - marks[0],
        occurrences(labels, name, c) <= c,
    decreases c,
{
    if c > 1 {
        lemma_spent_bounds(labels, marks, name, (c - 1) as nat);
    }
}

proof fn lemma_unseen(labels: Seq<Seq<char>>, marks: Seq<u64>, name: Seq<char>, c: nat)
    requires
        forall|i: int| 1 <= i < c ==> labels[i] != name,
    ensures
        spent(labels, marks, name, c) == 0,
        occurrences(labels, name, c) == 0,
    decreases c,
{
    if c > 1 {
        lemma_unseen(labels, marks, name, (c - 1) as nat);
    }
}

/// `v` holds one entry for each label behind the first of `c` marks, and no other,
/// with the time spent under it and how often it occurs.
#[verifier::opaque]
pub open spec fn totals_of(v: Seq<OpTotal>, labels: Seq<Seq<char>>, marks: Seq<u64>, c: nat) -> bool {
    &&& forall|p: int| 0 <= p < v.len() ==> (#[trigger] v[p]).nanos == spent(labels, marks, v[p].name@, c)
        && v[p].count == occurrences(labels, v[p].name@, c)
    &&& forall|p: int, q: int| 0 <= p < q < v.len() ==> (#[trigger] v[p]).name@ != (#[trigger] v[q]).name@
    &&& forall|i: int| 1 <= i < c ==> listed(v, #[trigger] labels[i])
    &&& forall|p: int| 0 <= p < v.len() ==> (#[trigger] v[p]).count > 0
}

/// Some entry carries that name.
pub open spec fn listed(v: Seq<OpTotal>, name: Seq<char>) -> bool {
    exists|p: int| 0 <= p < v.len() && (#[trigger] v[p]).name@ == name
}

proof fn lemma_bumped(was: Seq<OpTotal>, now: Seq<OpTotal>, names: Seq<Seq<char>>, marks: Seq<u64>, i: int, at: int)
    requires
        totals_of(was, names, marks, i as nat),
        1 <= i,
        0 <= at < was.len(),
        now.len() == was.len(),
        was[at].name@ == names[i],
        forall|p: int| 0 <= p < was.len() && p != at ==> #[trigger] now[p] == was[p],
        now[at].name@ == was[at].name@,
        now[at].nanos == was[at].nanos + delta(marks, i),
        now[at].count == was[at].count + 1,
    ensures
        totals_of(now, names, marks, (i + 1) as nat),
{
    reveal(totals_of);
    let c = (i + 1) as nat;
    assert forall|p: int| 0 <= p < now.len() implies (#[trigger] now[p]).name@ == was[p].name@ by {}
    assert forall|p: int| 0 <= p < now.len() implies (#[trigger] now[p]).nanos == spent(names, marks, now[p].name@, c)
        && now[p].count == occurrences(names, now[p].name@, c) by {
        assert(was[p].nanos == spent(names, marks, was[p].name@, i as nat));
        if p < at {
            assert(was[p].name@ != was[at].name@);
        }
        if p > at {
            assert(was[at].name@ != was[p].name@);
        }
    }
    assert forall|p: int, q: int| 0 <= p < q < now.len() implies (#[trigger] now[p]).name@ != (#[trigger] now[q]).name@ by {
        assert(was[p].name@ != was[q].name@);
    }
    assert forall|j: int| 1 <= j < c implies listed(now, #[trigger] names[j]) by {
        if j == i {
            assert(now[at].name@ == names[j]);
        } else {
            assert(listed(was, names[j]));
            let p = choose|p: int| 0 <= p < was.len() && (#[trigger] was[p]).name@ == names[j];
            assert(now[p].name@ == names[j]);
        }
    }
}

proof fn lemma_added(was: Seq<OpTotal>, now: Seq<OpTotal>, names: Seq<Seq<char>>, marks: Seq<u64>, i: int)
    requires
        totals_of(was, names, marks, i as nat),
        1 <= i,
        now.len() == was.len() + 1,
        forall|p: int| 0 <= p < was.len() ==> (#[trigger] was[p]).name@ != names[i],
        forall|p: int| 0 <= p < was.len() ==> #[trigger] now[p] == was[p],
        now[was.len() as int].name@ == names[i],
        now[was.len() as int].nanos == delta(marks, i),
        now[was.len() as int].count == 1,
    ensures
        totals_of(now, names, marks, (i + 1) as nat),
{
    reveal(totals_of);
    let c = (i + 1) as nat;
    assert forall|j: int| 1 <= j < i implies names[j] != names[i] by {
        assert(listed(was, names[j]));
        let p = choose|p: int| 0 <= p < was.len() && (#[trigger] was[p]).name@ == names[j];
        assert(was[p].name@ != names[i]);
    }
    lemma_unseen(names, marks, names[i], i as nat);
    assert forall|p: int| 0 <= p < now.len() implies (#[trigger] now[p]).nanos == spent(names, marks, now[p].name@, c)
        && now[p].count == occurrences(names, now[p].name@, c) by {
        if p < was.len() {
            assert(now[p] == was[p]);
            assert(was[p].nanos == spent(names, marks, was[p].name@, i as nat));
        }
    }
    assert forall|p: int, q: int| 0 <= p < q < now.len() implies (#[trigger] now[p]).name@ != (#[trigger] now[q]).name@ by {
        assert(now[p] == was[p]);
        if q < was.len() {
            assert(now[q] == was[q]);
            assert(was[p].name@ != was[q].name@);
        }
    }
    assert forall|j: int| 1 <= j < c implies listed(now, #[trigger] names[j]) by {
        if j == i {
            assert(now[was.len() as int].name@ == names[j]);
        } else {
            assert(listed(was, names[j]));
            let p = choose|p: int| 0 <= p < was.len() && (#[trigger] was[p]).name@ == names[j];
            assert(now[p] == was[p]);
        }
    }
}

/// Adds up a profile: one entry for each label, in order of first appearance, with
/// the time between the marks that carry it and those before them.
pub fn totals(labels: &Vec<String>, marks: &Vec<u64>) -> (r: Vec<OpTotal>)
    requires
        labels@.len() == marks@.len(),
        ascending(marks@),
        labels@.len() > 0,
    ensures
        totals_of(r@, texts(labels@), marks@, marks@.len()),
{
    let n: usize = marks.len();
    let ghost names = texts(labels@);
    let mut r: Vec<OpTotal> = Vec::new();
    assert(totals_of(r@, names, marks@, 1)) by {
        reveal(totals_of);
    }
    for i in 1..n
        invariant
            n == marks@.len(),
            n == labels@.len(),
            names == texts(labels@),
            ascending(marks@),
            totals_of(r@, names, marks@, i as nat),
    {
        assert(marks@[i - 1] <= marks@[i as int]);
        let dt: u64 = marks[i] - marks[i - 1];
        let mut at: usize = 0;
        let count: usize = r.len();
        while at < count && !str_eq(r[at].name.as_str(), labels[i].as_str())
            invariant
                count == r@.len(),
                at <= count,
                i < labels@.len(),
                forall|p: int| 0 <= p < at ==> (#[trigger] r@[p]).name@ != labels@[i as int]@,
            decreases count - at,
        {
            at = at + 1;
        }
        let ghost was = r@;
        let ghost name = labels@[i as int]@;
        assert(names[i as int] == name);
        assert(delta(marks@, i as int) == dt);
        if at < count {
            proof {
                reveal(totals_of);
                lemma_spent_bounds(names, marks@, was[at as int].name@, i as nat);
            }
            let total = OpTotal { name: lit(labels[i].as_str()), nanos: r[at].nanos + dt, count: r[at].count + 1 };
            r.set(at, total);
            proof {
                lemma_bumped(was, r@, names, marks@, i as int, at as int);
            }
        } else {
            let total = OpTotal { name: lit(labels[i].as_str()), nanos: dt, count: 1 };
            r.push(total);
            proof {
                lemma_added(was, r@, names, marks@, i as int);
            }
        }
    }
    r
}

/// The keys by which a profile is listed.
pub open spec fn total_keys(v: Seq<OpTotal>) -> Seq<(int, Seq<char>)> {
    Seq::new(v.len(), |p: int| (0int, v[p].name@))
}

/// The order in which a profile is listed: by label.
pub fn by_label(v: &Vec<OpTotal>) -> (r: Vec<usize>)
    ensures
        in_order(total_keys(v@), r@),
{
    let n: usize = v.len();
    let mut k: Vec<Key> = Vec::new();
    for i in 0..n
        invariant
            n == v@.len(),
            k@.len() == i,
            forall|p: int| 0 <= p < i ==> (#[trigger] k@[p]).rank == 0 && k@[p].name@ == v@[p].name@,
    {
        k.push(Key { rank: 0, name: chars_of(v[i].name.as_str()) });
    }
    assert(keys(k@) =~= total_keys(v@));
    sorted(&k)
}

/// A layer number on at least two digits.
pub open spec fn two_digits(l: nat) -> Seq<char> {
    if l < 10 {
        "0"@ + dec(l)
    } else {
        dec(l)
    }
}

/// The name under which a layer's tensor is saved.
pub fn layer_file(l: usize, name: &str) -> (r: String)
    ensures
        r@ == "L"@ + two_digits(l as nat) + "_"@ + name@,
{
    let mut r = lit("L");
    if l < 10 {
        r.append("0");
    }
    push_dec(&mut r, l);
    assert(r@ =~= "L"@ + two_digits(l as nat));
    r.append("_");
    r.append(name);
    r
}

/// The parts of a recording's tag that may name its length: those between
/// underscores that end in `s`, without it.
pub open spec fn timed(p: Seq<Seq<char>>, n: nat) -> Seq<Seq<char>>
    decreases n,
{
    if n == 0 {
        Seq::empty()
    } else if p[n - 1].len() > 0 && p[n - 1].last() == 's' {
        timed(p, (n - 1) as nat).push(p[n - 1].drop_last())
    } else {
        timed(p, (n - 1) as nat)
    }
}

/// Finds those parts.
pub fn timed_parts(tag: &str) -> (r: Vec<String>)
    ensures
        texts(r@) == timed(pieces(tag@, '_'), pieces(tag@, '_').len()),
{
    let c = chars_of(tag);
    let p = split(c.as_slice(), '_');
    let ghost all = pieces(tag@, '_');
    let n: usize = p.len();
    let mut r: Vec<String> = Vec::new();
    assert(texts(r@) =~= timed(all, 0));
    for i in 0..n
        invariant
            n == p@.len(),
            n == all.len(),
            forall|k: int| 0 <= k < n ==> (#[trigger] p@[k])@ == all[k],
            texts(r@) == timed(all, i as nat),
    {
        let ghost was = texts(r@);
        let w: usize = p[i].len();
        if w > 0 && p[i][w - 1] == 's' {
            let mut part: Vec<char> = Vec::new();
            for k in 0..(w - 1)
                invariant
                    w == p@[i as int]@.len(),
                    w > 0,
                    i < p@.len(),
                    part@ =~= p@[i as int]@.take(k as int),
            {
                part.push(p[i][k]);
            }
            assert(part@ =~= all[i as int].drop_last());
            r.push(string_of(part.as_slice()));
            assert(texts(r@) =~= was.push(part@));
        }
    }
    r
}

/// A value that is given as an argument or, failing that, by a setting that is
/// not empty.
pub open spec fn given(args: Seq<Seq<char>>, name: Seq<char>, setting: Option<Seq<char>>) -> Option<Seq<char>> {
    match value_of(args, name) {
        Some(v) => Some(v),
        None => match setting {
            Some(s) => if s.len() > 0 {
                Some(s)
            } else {
                None
            },
            None => None,
        },
    }
}

/// A setting as a value.
pub open spec fn setting_of(s: Option<String>) -> Option<Seq<char>> {
    match s {
        Some(t) => Some(t@),
        None => None,
    }
}

fn set_text(setting: &Option<String>) -> (r: Option<String>)
    ensures
        match r {
            Some(s) => setting matches Some(t) && t@ == s@ && s@.len() > 0,
            None => setting matches Some(t) ==> t@.len() == 0,
        },
{
    match setting {
        Some(s) => {
            let c = chars_of(s.as_str());
            if c.len() > 0 {
                Some(lit(s.as_str()))
            } else {
                None
            }
        },
        None => None,
    }
}

/// Reads a value that a run cannot do without; where it is missing, says so.
pub fn required(args: &[String], name: &str, env: &str, setting: &Option<String>) -> (r: Result<String, String>)
    ensures
        match r {
            Ok(v) => given(texts(args@), name@, setting_of(*setting)) == Some(v@),
            Err(e) => given(texts(args@), name@, setting_of(*setting)) is None && e@ == name@ + " is required (or set "@ + env@ + ")"@,
        },
{
    match arg(args, name) {
        Some(v) => Ok(v),
        None => match set_text(setting) {
            Some(s) => Ok(s),
            None => {
                let mut e = lit(name);
                e.append(" is required (or set ");
                e.append(env);
                e.append(")");
                Err(e)
            },
        },
    }
}

/// The device that a run asks for: the host where it wants its decoder there,
/// else `--device`, else `--adapter`, else the setting.
pub open spec fn device_of(args: Seq<Seq<char>>, setting: Option<Seq<char>>) -> Option<Seq<char>> {
    if args.contains("--cpu-dec"@) {
        Some("cpu"@)
    } else {
        match value_of(args, "--device"@) {
            Some(v) => Some(v),
            None => given(args, "--adapter"@, setting),
        }
    }
}

/// Reads it.
pub fn device_text(args: &[String], setting: &Option<String>) -> (r: Option<String>)
    ensures
        match r {
            Some(v) => device_of(texts(args@), setting_of(*setting)) == Some(v@),
            None => device_of(texts(args@), setting_of(*setting)) is None,
        },
{
    if flag(args, "--cpu-dec") {
        return Some(lit("cpu"));
    }
    match arg(args, "--device") {
        Some(v) => Some(v),
        None => match arg(args, "--adapter") {
            Some(v) => Some(v),
            None => set_text(setting),
        },
    }
}

/// The frames of a spectrogram of `bytes` bytes with 128 bands of four-byte
/// values; `None` where the bytes do not make whole values or whole frames.
pub fn mel_frames(bytes: usize) -> (r: Option<usize>)
    ensures
        r is Some <==> bytes % 4 == 0 && (bytes / 4) % 128 == 0,
        r matches Some(n) ==> n * 512 == bytes,
{
    if bytes % 4 != 0 || (bytes / 4) % 128 != 0 {
        None
    } else {
        Some(bytes / 512)
    }
}

/// The transcript in a baseline file: its second paragraph, trimmed, after line
/// endings are made one character; empty where there is none.
pub open spec fn baseline_text(raw: Seq<char>) -> Seq<char> {
    let p = paragraphs(replaced(raw, "\r\n"@, "\n"@));
    if p.len() > 1 {
        trimmed(p[1])
    } else {
        Seq::empty()
    }
}

/// The paragraphs of a text: what stands between blank lines, from the left.
pub open spec fn paragraphs(s: Seq<char>) -> Seq<Seq<char>> {
    paragraphs_from(s, 0)
}

/// The paragraphs of a text whose first `at` characters belong to the first.
pub open spec fn paragraphs_from(s: Seq<char>, at: nat) -> Seq<Seq<char>>
    decreases s.len(), s.len() - at,
{
    if at + 2 > s.len() {
        seq![s]
    } else if s[at as int] == '\n' && s[(at + 1) as int] == '\n' {
        seq![s.take(at as int)] + paragraphs_from(s.skip((at + 2) as int), 0)
    } else {
        paragraphs_from(s, at + 1)
    }
}

/// Finds the first blank line at or behind `from`.
fn blank_at(c: &[char], from: usize) -> (r: Option<usize>)
    requires
        from <= c@.len(),
    ensures
        match r {
            Some(i) => from <= i && i + 2 <= c@.len() && paragraphs_from(c@.skip(from as int), 0)
                == seq![c@.subrange(from as int, i as int)] + paragraphs_from(c@.skip(i + 2), 0),
            None => paragraphs_from(c@.skip(from as int), 0) == seq![c@.skip(from as int)],
        },
{
    let n: usize = c.len();
    let ghost s = c@.skip(from as int);
    let mut i: usize = from;
    while i < n && n - i >= 2
        invariant
            n == c@.len(),
            from <= i <= n,
            s == c@.skip(from as int),
            paragraphs_from(s, 0) == paragraphs_from(s, (i - from) as nat),
        decreases n - i,
    {
        if c[i] == '\n' && c[i + 1] == '\n' {
            assert(s.take(i - from) =~= c@.subrange(from as int, i as int));
            assert(s.skip(i - from + 2) =~= c@.skip(i + 2));
            return Some(i);
        }
        i = i + 1;
    }
    None
}

/// Reads the transcript in a baseline file.
pub fn baseline(raw: &str) -> (r: String)
    ensures
        r@ == baseline_text(raw@),
{
    proof {
        reveal_strlit("\r\n");
    }
    let text = replace(raw, "\r\n", "\n");
    let c = chars_of(text.as_str());
    let total: usize = c.len();
    let ghost s = c@;
    assert(s.skip(0) =~= s);
    let empty: Vec<char> = Vec::new();
    match blank_at(c.as_slice(), 0) {
        None => string_of(empty.as_slice()),
        Some(i) => {
            let from: usize = i + 2;
            let to: usize = match blank_at(c.as_slice(), from) {
                Some(j) => j,
                None => c.len(),
            };
            let mut part: Vec<char> = Vec::new();
            for k in from..to
                invariant
                    to <= c@.len(),
                    from <= to,
                    part@ =~= c@.subrange(from as int, k as int),
            {
                part.push(c[k]);
            }
            assert(part@ =~= c@.subrange(from as int, to as int));
            assert(to == c@.len() ==> c@.subrange(from as int, to as int) =~= c@.skip(from as int));
            let t = trim(part.as_slice());
            string_of(t.as_slice())
        },
    }
}

/// Whether a transcript is the one in a baseline file.
pub fn matches_baseline(text: &str, raw: &str) -> (r: bool)
    ensures
        r == (trimmed(text@) == baseline_text(raw@)),
{
    let want = baseline(raw);
    let c = chars_of(text);
    let t = trim(c.as_slice());
    chars_eq(t.as_slice(), chars_of(want.as_str()).as_slice())
}

/// The entry point of a printed shader.
pub open spec fn dump_entry_text(name: Seq<char>) -> Seq<char> {
    if name.len() >= 3 && name.take(3) == "gqa"@ {
        if name == "gqa_merge"@ {
            "gqa_merge"@
        } else if name == "gqa_single"@ {
            "gqa"@
        } else if name == "gqa_pair"@ || name == "gqa_pair_diag"@ {
            "gqa_split_p1_pair"@
        } else {
            "gqa_split_p1"@
        }
    } else if name == "extract"@ {
        "qkv_extract"@
    } else if name == "repeat_kv"@ {
        "repeat_kv"@
    } else {
        "softmax"@
    }
}

/// Finds it.
pub fn dump_entry(name: &str) -> (r: &'static str)
    ensures
        r@ == dump_entry_text(name@),
{
    proof {
        reveal_strlit("gqa");
    }
    let c = chars_of(name);
    let gqa = c.len() >= 3 && c[0] == 'g' && c[1] == 'q' && c[2] == 'a';
    assert(gqa == (name@.len() >= 3 && name@.take(3) == "gqa"@)) by {
        if gqa {
            assert(name@.take(3) =~= "gqa"@);
        } else if name@.len() >= 3 && name@.take(3) == "gqa"@ {
            assert(name@.take(3)[0] == 'g' && name@.take(3)[1] == 'q' && name@.take(3)[2] == 'a');
        }
    }
    if gqa {
        if str_eq(name, "gqa_merge") {
            "gqa_merge"
        } else if str_eq(name, "gqa_single") {
            "gqa"
        } else if str_eq(name, "gqa_pair") || str_eq(name, "gqa_pair_diag") {
            "gqa_split_p1_pair"
        } else {
            "gqa_split_p1"
        }
    } else if str_eq(name, "extract") {
        "qkv_extract"
    } else if str_eq(name, "repeat_kv") {
        "repeat_kv"
    } else {
        "softmax"
    }
}

} // verus!
