//! Error rates: what is compared, and how far apart two transcripts are.
use vstd::prelude::*;

use crate::text::{chars_eq, chars_of, string_of};
use crate::unicode::{fold, folded, law_split_undoes_join, lemma_words, spaced, split_whitespace, trim, trimmed, white, words};

verus! {

/// The unit of an error rate.
#[derive(Clone, Copy, Debug, PartialEq, Eq, Structural)]
pub enum Mode {
    /// Words.
    Wer,
    /// Characters that are not white space.
    Cer,
}

/// Lowercase, every character that is neither letter nor digit a space, the
/// spaces collapsed and trimmed.
pub fn normalize(s: &str) -> (r: String)
    ensures
        r@ == spaced(words(folded(s@))),
{
    let f = fold(s);
    let w = split_whitespace(f.as_slice());
    let ghost want = words(folded(s@));
    let mut out: Vec<char> = Vec::new();
    for i in 0..w.len()
        invariant
            w@.len() == want.len(),
            forall|k: int| 0 <= k < w@.len() ==> (#[trigger] w@[k])@ == want[k],
            out@ == spaced(want.take(i as int)),
    {
        if i > 0 {
            out.push(' ');
        }
        let len: usize = w[i].len();
        for j in 0..len
            invariant
                i < w@.len(),
                len == want[i as int].len(),
                w@.len() == want.len(),
                w@[i as int]@ == want[i as int],
                out@ == (if i > 0 {
                    spaced(want.take(i as int)).push(' ')
                } else {
                    Seq::empty()
                }) + want[i as int].take(j as int),
        {
            out.push(w[i][j]);
            assert(want[i as int].take(j + 1) =~= want[i as int].take(j as int).push(want[i as int][j as int]));
        }
        proof {
            let t = want.take(i + 1);
            assert(t.drop_last() =~= want.take(i as int));
            assert(want[i as int].take(want[i as int].len() as int) =~= want[i as int]);
            assert(out@ =~= spaced(t));
        }
    }
    assert(want.take(want.len() as int) =~= want);
    string_of(out.as_slice())
}

/// The texts of a list of strings.
pub open spec fn texts(v: Seq<String>) -> Seq<Seq<char>> {
    v.map_values(|s: String| s@)
}

pub proof fn lemma_texts_push(v: Seq<String>, s: String)
    ensures
        texts(v.push(s)) == texts(v).push(s@),
{
    assert(texts(v.push(s)) =~= texts(v).push(s@));
}

/// The units of a text.
pub open spec fn units_of(s: Seq<char>, mode: Mode) -> Seq<Seq<char>> {
    match mode {
        Mode::Wer => words(s),
        Mode::Cer => letters(s),
    }
}

/// The characters that are not white space, one by one.
pub open spec fn letters(s: Seq<char>) -> Seq<Seq<char>>
    decreases s.len(),
{
    if s.len() == 0 {
        Seq::empty()
    } else if white(s.last()) {
        letters(s.drop_last())
    } else {
        letters(s.drop_last()).push(seq![s.last()])
    }
}

/// The units of a text.
pub fn units(s: &str, mode: Mode) -> (r: Vec<String>)
    ensures
        texts(r@) == units_of(s@, mode),
{
    let c = chars_of(s);
    let mut out: Vec<String> = Vec::new();
    match mode {
        Mode::Wer => {
            let w = split_whitespace(c.as_slice());
            for i in 0..w.len()
                invariant
                    w@.len() == words(s@).len(),
                    forall|k: int| 0 <= k < w@.len() ==> (#[trigger] w@[k])@ == words(s@)[k],
                    texts(out@) == words(s@).take(i as int),
            {
                let ghost before = out@;
                let word = string_of(w[i].as_slice());
                out.push(word);
                proof {
                    lemma_texts_push(before, word);
                    assert(words(s@).take(i + 1) =~= words(s@).take(i as int).push(words(s@)[i as int]));
                }
            }
            assert(words(s@).take(words(s@).len() as int) =~= words(s@));
        },
        Mode::Cer => {
            for i in 0..c.len()
                invariant
                    c@ == s@,
                    texts(out@) == letters(s@.take(i as int)),
            {
                let ghost t = s@.take(i + 1);
                assert(t.drop_last() =~= s@.take(i as int));
                if !c[i].is_whitespace() {
                    let one: Vec<char> = vec![c[i]];
                    let ghost before = out@;
                    let unit = string_of(one.as_slice());
                    out.push(unit);
                    proof {
                        lemma_texts_push(before, unit);
                        assert(one@ =~= seq![t.last()]);
                    }
                }
            }
            assert(s@.take(s@.len() as int) =~= s@);
        },
    }
    out
}

/// Normalizing keeps the words: the words of a normalized text are those of the
/// folded one.
pub proof fn law_normalized_words(s: Seq<char>)
    ensures
        units_of(spaced(words(folded(s))), Mode::Wer) == words(folded(s)),
{
    lemma_words(folded(s));
    law_split_undoes_join(words(folded(s)));
}

/// Edits by kind.
#[derive(Clone, Copy, Debug, PartialEq, Eq, Structural)]
pub struct Edits {
    pub sub: usize,
    pub del: usize,
    pub ins: usize,
}

impl Edits {
    /// No edits.
    pub fn none() -> (r: Edits)
        ensures
            r == (Edits { sub: 0, del: 0, ins: 0 }),
    {
        Edits { sub: 0, del: 0, ins: 0 }
    }

    /// All edits together.
    pub fn total(&self) -> (r: usize)
        requires
            self.sub + self.del + self.ins <= usize::MAX,
        ensures
            r == self.sub + self.del + self.ins,
    {
        self.sub + self.del + self.ins
    }

    /// The edits of two texts together.
    pub fn plus(&self, e: &Edits) -> (r: Edits)
        requires
            self.sub + e.sub <= usize::MAX,
            self.del + e.del <= usize::MAX,
            self.ins + e.ins <= usize::MAX,
        ensures
            r == (Edits {
                sub: (self.sub + e.sub) as usize,
                del: (self.del + e.del) as usize,
                ins: (self.ins + e.ins) as usize,
            }),
    {
        Edits { sub: self.sub + e.sub, del: self.del + e.del, ins: self.ins + e.ins }
    }
}

spec fn min(a: int, b: int) -> int {
    if a <= b {
        a
    } else {
        b
    }
}

/// The Levenshtein distance of the first `i` units of `a` and the first `j` of
/// `b`.
pub closed spec fn prefix_distance<T>(a: Seq<T>, b: Seq<T>, i: nat, j: nat) -> int
    decreases i + j,
{
    if i == 0 {
        j as int
    } else if j == 0 {
        i as int
    } else {
        let x = (i - 1) as nat;
        let y = (j - 1) as nat;
        let cost = if a[x as int] == b[y as int] {
            0int
        } else {
            1int
        };
        min(
            min(prefix_distance(a, b, x, y) + cost, prefix_distance(a, b, x, j) + 1),
            prefix_distance(a, b, i, y) + 1,
        )
    }
}

/// The Levenshtein distance of `a` and `b`.
pub open spec fn distance<T>(a: Seq<T>, b: Seq<T>) -> int {
    prefix_distance(a, b, a.len(), b.len())
}

/// One step of an edit script, read from the ends of the texts.
pub enum Edit {
    Keep,
    Sub,
    Del,
    Ins,
}

/// The script turns the first `i` units of `a` into the first `j` of `b`.
pub open spec fn turns<T>(a: Seq<T>, b: Seq<T>, i: int, j: int, script: Seq<Edit>) -> bool
    decreases script.len(),
{
    if script.len() == 0 {
        i == 0 && j == 0
    } else {
        let rest = script.drop_last();
        match script.last() {
            Edit::Keep => i > 0 && j > 0 && a[i - 1] == b[j - 1] && turns(a, b, i - 1, j - 1, rest),
            Edit::Sub => i > 0 && j > 0 && turns(a, b, i - 1, j - 1, rest),
            Edit::Del => i > 0 && turns(a, b, i - 1, j, rest),
            Edit::Ins => j > 0 && turns(a, b, i, j - 1, rest),
        }
    }
}

/// The steps of a script that change something.
pub open spec fn cost(script: Seq<Edit>) -> int
    decreases script.len(),
{
    if script.len() == 0 {
        0
    } else {
        cost(script.drop_last()) + if script.last() is Keep {
            0int
        } else {
            1int
        }
    }
}

proof fn lemma_script_costs<T>(a: Seq<T>, b: Seq<T>, i: int, j: int, script: Seq<Edit>)
    requires
        0 <= i <= a.len(),
        0 <= j <= b.len(),
        turns(a, b, i, j, script),
    ensures
        cost(script) >= prefix_distance(a, b, i as nat, j as nat),
    decreases script.len(),
{
    if script.len() > 0 {
        let rest = script.drop_last();
        match script.last() {
            Edit::Keep => lemma_script_costs(a, b, i - 1, j - 1, rest),
            Edit::Sub => lemma_script_costs(a, b, i - 1, j - 1, rest),
            Edit::Del => lemma_script_costs(a, b, i - 1, j, rest),
            Edit::Ins => lemma_script_costs(a, b, i, j - 1, rest),
        }
        lemma_edge(a, b, i as nat, j as nat);
    }
}

/// A distance to nothing is a length.
proof fn lemma_edge<T>(a: Seq<T>, b: Seq<T>, i: nat, j: nat)
    ensures
        prefix_distance(a, b, i, 0) == i,
        prefix_distance(a, b, 0, j) == j,
        prefix_distance(a, b, i, j) >= 0,
        j > 0 && i == 0 ==> prefix_distance(a, b, i, (j - 1) as nat) == j - 1,
        i > 0 && j == 0 ==> prefix_distance(a, b, (i - 1) as nat, j) == i - 1,
    decreases i + j,
{
    if i > 0 && j > 0 {
        lemma_edge(a, b, (i - 1) as nat, (j - 1) as nat);
        lemma_edge(a, b, (i - 1) as nat, j);
        lemma_edge(a, b, i, (j - 1) as nat);
    }
}

proof fn lemma_script_exists<T>(a: Seq<T>, b: Seq<T>, i: nat, j: nat) -> (script: Seq<Edit>)
    requires
        i <= a.len(),
        j <= b.len(),
    ensures
        turns(a, b, i as int, j as int, script),
        cost(script) == prefix_distance(a, b, i, j),
    decreases i + j,
{
    if i == 0 && j == 0 {
        Seq::empty()
    } else {
        let d = prefix_distance(a, b, i, j);
        let (rest, last) = if i == 0 {
            (lemma_script_exists(a, b, i, (j - 1) as nat), Edit::Ins)
        } else if j == 0 {
            (lemma_script_exists(a, b, (i - 1) as nat, j), Edit::Del)
        } else if a[i - 1] == b[j - 1] && d == prefix_distance(a, b, (i - 1) as nat, (j - 1) as nat) {
            (lemma_script_exists(a, b, (i - 1) as nat, (j - 1) as nat), Edit::Keep)
        } else if d == prefix_distance(a, b, (i - 1) as nat, j) + 1 {
            (lemma_script_exists(a, b, (i - 1) as nat, j), Edit::Del)
        } else if d == prefix_distance(a, b, i, (j - 1) as nat) + 1 {
            (lemma_script_exists(a, b, i, (j - 1) as nat), Edit::Ins)
        } else {
            (lemma_script_exists(a, b, (i - 1) as nat, (j - 1) as nat), Edit::Sub)
        };
        lemma_edge(a, b, i, j);
        let script = rest.push(last);
        assert(script.drop_last() =~= rest);
        script
    }
}

/// The distance is the least number of changes that turn one text into the
/// other: no script makes do with fewer, and one needs no more.
pub proof fn law_distance_is_least<T>(a: Seq<T>, b: Seq<T>)
    ensures
        forall|s: Seq<Edit>| turns(a, b, a.len() as int, b.len() as int, s) ==> #[trigger] cost(s) >= distance(a, b),
        exists|s: Seq<Edit>| turns(a, b, a.len() as int, b.len() as int, s) && #[trigger] cost(s) == distance(a, b),
{
    assert forall|s: Seq<Edit>| turns(a, b, a.len() as int, b.len() as int, s) implies #[trigger] cost(s) >= distance(
        a,
        b,
    ) by {
        lemma_script_costs(a, b, a.len() as int, b.len() as int, s);
    }
    let s = lemma_script_exists(a, b, a.len(), b.len());
    assert(turns(a, b, a.len() as int, b.len() as int, s) && cost(s) == distance(a, b));
}

/// Neighbouring prefixes are at most one edit apart.
proof fn lemma_neighbours<T>(a: Seq<T>, b: Seq<T>, i: nat, j: nat)
    ensures
        i > 0 ==> prefix_distance(a, b, i, j) <= prefix_distance(a, b, (i - 1) as nat, j) + 1,
        i > 0 ==> prefix_distance(a, b, (i - 1) as nat, j) <= prefix_distance(a, b, i, j) + 1,
        j > 0 ==> prefix_distance(a, b, i, j) <= prefix_distance(a, b, i, (j - 1) as nat) + 1,
        j > 0 ==> prefix_distance(a, b, i, (j - 1) as nat) <= prefix_distance(a, b, i, j) + 1,
    decreases i + j,
{
    lemma_edge(a, b, i, j);
    if i > 0 && j > 0 {
        lemma_neighbours(a, b, (i - 1) as nat, j);
        lemma_neighbours(a, b, i, (j - 1) as nat);
        lemma_neighbours(a, b, (i - 1) as nat, (j - 1) as nat);
    } else if i > 0 {
        lemma_edge(a, b, (i - 1) as nat, j);
        lemma_neighbours(a, b, (i - 1) as nat, j);
    } else if j > 0 {
        lemma_edge(a, b, i, (j - 1) as nat);
        lemma_neighbours(a, b, i, (j - 1) as nat);
    }
}

/// Equal last units cost nothing.
proof fn lemma_equal_last<T>(a: Seq<T>, b: Seq<T>, i: nat, j: nat)
    requires
        i > 0,
        j > 0,
        a[i - 1] == b[j - 1],
    ensures
        prefix_distance(a, b, i, j) == prefix_distance(a, b, (i - 1) as nat, (j - 1) as nat),
{
    lemma_neighbours(a, b, (i - 1) as nat, j);
    lemma_neighbours(a, b, i, (j - 1) as nat);
}

/// The edits of a shortest script, read from the ends: equal units are kept,
/// then a substitution is preferred to a deletion and that to an insertion.
pub open spec fn traced<T>(a: Seq<T>, b: Seq<T>, i: nat, j: nat) -> (int, int, int)
    decreases i + j,
{
    if i == 0 && j == 0 {
        (0, 0, 0)
    } else if i > 0 && j > 0 && a[i - 1] == b[j - 1] {
        traced(a, b, (i - 1) as nat, (j - 1) as nat)
    } else if i > 0 && j > 0 && prefix_distance(a, b, i, j) == prefix_distance(
        a,
        b,
        (i - 1) as nat,
        (j - 1) as nat,
    ) + 1 {
        let e = traced(a, b, (i - 1) as nat, (j - 1) as nat);
        (e.0 + 1, e.1, e.2)
    } else if i > 0 && prefix_distance(a, b, i, j) == prefix_distance(a, b, (i - 1) as nat, j) + 1 {
        let e = traced(a, b, (i - 1) as nat, j);
        (e.0, e.1 + 1, e.2)
    } else if j > 0 {
        let e = traced(a, b, i, (j - 1) as nat);
        (e.0, e.1, e.2 + 1)
    } else {
        (0, 0, 0)
    }
}

proof fn lemma_traced<T>(a: Seq<T>, b: Seq<T>, i: nat, j: nat)
    ensures
        ({
            let e = traced(a, b, i, j);
            &&& e.0 >= 0 && e.1 >= 0 && e.2 >= 0
            &&& e.0 + e.1 + e.2 == prefix_distance(a, b, i, j)
            &&& i - e.1 + e.2 == j
            &&& e.0 + e.1 <= i
            &&& e.0 + e.2 <= j
        }),
    decreases i + j,
{
    lemma_edge(a, b, i, j);
    if i == 0 && j == 0 {
    } else if i > 0 && j > 0 && a[i - 1] == b[j - 1] {
        lemma_equal_last(a, b, i, j);
        lemma_traced(a, b, (i - 1) as nat, (j - 1) as nat);
    } else if i > 0 && j > 0 && prefix_distance(a, b, i, j) == prefix_distance(
        a,
        b,
        (i - 1) as nat,
        (j - 1) as nat,
    ) + 1 {
        lemma_traced(a, b, (i - 1) as nat, (j - 1) as nat);
    } else if i > 0 && prefix_distance(a, b, i, j) == prefix_distance(a, b, (i - 1) as nat, j) + 1 {
        lemma_traced(a, b, (i - 1) as nat, j);
    } else {
        if j == 0 {
            lemma_edge(a, b, (i - 1) as nat, 0);
        }
        lemma_traced(a, b, i, (j - 1) as nat);
    }
}

/// The counted edits are a shortest script: together they are the distance, and
/// the reference less its deletions plus the insertions is as long as the
/// hypothesis.
pub proof fn law_edits_make_the_distance<T>(a: Seq<T>, b: Seq<T>)
    ensures
        ({
            let e = traced(a, b, a.len(), b.len());
            &&& e.0 >= 0 && e.1 >= 0 && e.2 >= 0
            &&& e.0 + e.1 + e.2 == distance(a, b)
            &&& a.len() - e.1 + e.2 == b.len()
            &&& e.0 + e.1 <= a.len()
        }),
{
    lemma_traced(a, b, a.len(), b.len());
}

/// Texts are equal exactly where their distance is 0.
pub proof fn law_distance_zero<T>(a: Seq<T>, b: Seq<T>)
    ensures
        distance(a, b) == 0 <==> a == b,
{
    if distance(a, b) == 0 {
        let s = lemma_script_exists(a, b, a.len(), b.len());
        lemma_kept(a, b, a.len() as int, b.len() as int, s);
        assert(a =~= b);
    }
    if a == b {
        lemma_same(a, a.len());
    }
}

proof fn lemma_kept<T>(a: Seq<T>, b: Seq<T>, i: int, j: int, s: Seq<Edit>)
    requires
        turns(a, b, i, j, s),
        cost(s) == 0,
    ensures
        i == j,
        forall|k: int| 0 <= k < i ==> a[k] == b[k],
    decreases s.len(),
{
    if s.len() > 0 {
        lemma_cost_nonneg(s.drop_last());
        lemma_kept(a, b, i - 1, j - 1, s.drop_last());
    }
}

proof fn lemma_cost_nonneg(s: Seq<Edit>)
    ensures
        cost(s) >= 0,
    decreases s.len(),
{
    if s.len() > 0 {
        lemma_cost_nonneg(s.drop_last());
    }
}

proof fn lemma_same<T>(a: Seq<T>, n: nat)
    requires
        n <= a.len(),
    ensures
        prefix_distance(a, a, n, n) == 0,
    decreases n,
{
    if n > 0 {
        lemma_same(a, (n - 1) as nat);
        lemma_equal_last(a, a, n, n);
    }
}

/// The table of all prefix distances, row by row.
fn distances(a: &Vec<Vec<char>>, b: &Vec<Vec<char>>, Ghost(x): Ghost<Seq<Seq<char>>>, Ghost(y): Ghost<Seq<Seq<char>>>)
    -> (r: Vec<usize>)
    requires
        (a@.len() + 1) * (b@.len() + 1) <= usize::MAX,
        a@.len() + b@.len() < usize::MAX,
        x.len() == a@.len(),
        y.len() == b@.len(),
        forall|k: int| 0 <= k < a@.len() ==> (#[trigger] a@[k])@ == x[k],
        forall|k: int| 0 <= k < b@.len() ==> (#[trigger] b@[k])@ == y[k],
    ensures
        r@.len() == (a@.len() + 1) * (b@.len() + 1),
        forall|i: int, j: int|
            0 <= i <= a@.len() && 0 <= j <= b@.len() ==> #[trigger] cell(r@, b@.len() as int, i, j) == prefix_distance(
                x,
                y,
                i as nat,
                j as nat,
            ),
{
    let n: usize = a.len();
    let m: usize = b.len();
    let mut d: Vec<usize> = Vec::new();
    proof {
        assert(0 * (m + 1) == 0) by (nonlinear_arith);
    }
    for i in 0..n + 1
        invariant
            n == a@.len(),
            m == b@.len(),
            x.len() == n,
            y.len() == m,
            n + m < usize::MAX,
            (n + 1) * (m + 1) <= usize::MAX,
            forall|k: int| 0 <= k < a@.len() ==> (#[trigger] a@[k])@ == x[k],
            forall|k: int| 0 <= k < b@.len() ==> (#[trigger] b@[k])@ == y[k],
            d@.len() == i * (m + 1),
            forall|p: int, q: int|
                0 <= p < i && 0 <= q <= m ==> #[trigger] cell(d@, m as int, p, q) == prefix_distance(
                    x,
                    y,
                    p as nat,
                    q as nat,
                ),
    {
        for j in 0..m + 1
            invariant
                i <= n,
                n == a@.len(),
                m == b@.len(),
                x.len() == n,
                y.len() == m,
                n + m < usize::MAX,
                (n + 1) * (m + 1) <= usize::MAX,
                forall|k: int| 0 <= k < a@.len() ==> (#[trigger] a@[k])@ == x[k],
                forall|k: int| 0 <= k < b@.len() ==> (#[trigger] b@[k])@ == y[k],
                d@.len() == i * (m + 1) + j,
                forall|p: int, q: int|
                    0 <= p <= i && 0 <= q <= m && (p < i || q < j) ==> #[trigger] cell(d@, m as int, p, q)
                        == prefix_distance(x, y, p as nat, q as nat),
        {
            let ghost before = d@;
            let v: usize = if i == 0 {
                j
            } else if j == 0 {
                i
            } else {
                let cost: usize = if chars_eq(a[i - 1].as_slice(), b[j - 1].as_slice()) {
                    0
                } else {
                    1
                };
                proof {
                    lemma_cell(n as int, m as int, i as int, j as int);
                    lemma_distance_bound(x, y, (i - 1) as nat, (j - 1) as nat);
                    lemma_distance_bound(x, y, (i - 1) as nat, j as nat);
                    lemma_distance_bound(x, y, i as nat, (j - 1) as nat);
                    assert(cell(d@, m as int, i - 1, j - 1) == prefix_distance(x, y, (i - 1) as nat, (j - 1) as nat));
                    assert(cell(d@, m as int, i - 1, j as int) == prefix_distance(x, y, (i - 1) as nat, j as nat));
                    assert(cell(d@, m as int, i as int, j - 1) == prefix_distance(x, y, i as nat, (j - 1) as nat));
                }
                let up: usize = d[(i - 1) * (m + 1) + j] + 1;
                let left: usize = d[i * (m + 1) + (j - 1)] + 1;
                let diagonal: usize = d[(i - 1) * (m + 1) + (j - 1)] + cost;
                let best: usize = if diagonal <= up {
                    diagonal
                } else {
                    up
                };
                if best <= left {
                    best
                } else {
                    left
                }
            };
            d.push(v);
            proof {
                lemma_edge(x, y, i as nat, j as nat);
                assert(v == prefix_distance(x, y, i as nat, j as nat));
                assert forall|p: int, q: int| 0 <= p <= i && 0 <= q <= m && (p < i || q < j + 1) implies #[trigger] cell(
                    d@,
                    m as int,
                    p,
                    q,
                ) == prefix_distance(x, y, p as nat, q as nat) by {
                    lemma_cell_before(m as int, i as int, j as int, p, q);
                    if p < i || q < j {
                        assert(cell(before, m as int, p, q) == cell(d@, m as int, p, q));
                    }
                }
            }
        }
        proof {
            assert(i * (m + 1) + (m + 1) == (i + 1) * (m + 1)) by (nonlinear_arith);
        }
    }
    d
}

/// Cell `(i, j)` of a table with `m + 1` columns.
pub open spec fn cell(d: Seq<usize>, m: int, i: int, j: int) -> int {
    d[i * (m + 1) + j] as int
}

proof fn lemma_cell(n: int, m: int, i: int, j: int)
    requires
        1 <= i <= n,
        1 <= j <= m,
    ensures
        0 <= (i - 1) * (m + 1),
        (i - 1) * (m + 1) + j < i * (m + 1) + j,
        i * (m + 1) + j < (n + 1) * (m + 1),
        (i - 1) * (m + 1) + m + 1 == i * (m + 1),
{
    assert((i - 1) * (m + 1) + m + 1 == i * (m + 1)) by (nonlinear_arith);
    assert(0 <= (i - 1) * (m + 1)) by (nonlinear_arith)
        requires
            i >= 1,
            m >= 0,
    ;
    assert(i * (m + 1) + (m + 1) <= (n + 1) * (m + 1)) by (nonlinear_arith)
        requires
            i <= n,
            m >= 0,
    ;
}

proof fn lemma_cell_before(m: int, i: int, j: int, p: int, q: int)
    requires
        0 <= p <= i,
        0 <= q <= m,
        0 <= j <= m,
        p < i || q < j + 1,
    ensures
        0 <= p * (m + 1) + q,
        p < i || q < j ==> p * (m + 1) + q < i * (m + 1) + j,
        p == i && q == j ==> p * (m + 1) + q == i * (m + 1) + j,
{
    assert(0 <= p * (m + 1)) by (nonlinear_arith)
        requires
            p >= 0,
            m >= 0,
    ;
    if p < i {
        assert(p * (m + 1) + (m + 1) <= i * (m + 1)) by (nonlinear_arith)
            requires
                p + 1 <= i,
                m >= 0,
        ;
    }
}

proof fn lemma_distance_bound<T>(a: Seq<T>, b: Seq<T>, i: nat, j: nat)
    ensures
        0 <= prefix_distance(a, b, i, j) <= i + j,
    decreases i + j,
{
    lemma_edge(a, b, i, j);
    if i > 0 && j > 0 {
        lemma_distance_bound(a, b, (i - 1) as nat, j);
    }
}

fn unit_chars(v: &[String]) -> (r: Vec<Vec<char>>)
    ensures
        r@.len() == v@.len(),
        forall|k: int| 0 <= k < r@.len() ==> (#[trigger] r@[k])@ == texts(v@)[k],
{
    let mut r: Vec<Vec<char>> = Vec::new();
    for i in 0..v.len()
        invariant
            r@.len() == i,
            forall|k: int| 0 <= k < r@.len() ==> (#[trigger] r@[k])@ == texts(v@)[k],
    {
        r.push(chars_of(v[i].as_str()));
    }
    r
}

/// The edits of a shortest script from the reference to the hypothesis.
pub fn edit_counts(reference: &[String], hypothesis: &[String]) -> (r: Edits)
    requires
        (reference@.len() + 1) * (hypothesis@.len() + 1) <= usize::MAX,
        reference@.len() + hypothesis@.len() < usize::MAX,
    ensures
        (r.sub as int, r.del as int, r.ins as int) == traced(
            texts(reference@),
            texts(hypothesis@),
            reference@.len(),
            hypothesis@.len(),
        ),
        r.sub + r.del + r.ins == distance(texts(reference@), texts(hypothesis@)),
{
    let ghost x = texts(reference@);
    let ghost y = texts(hypothesis@);
    let a = unit_chars(reference);
    let b = unit_chars(hypothesis);
    let n: usize = a.len();
    let m: usize = b.len();
    let d = distances(&a, &b, Ghost(x), Ghost(y));
    let mut i: usize = n;
    let mut j: usize = m;
    let mut e = Edits::none();
    proof {
        lemma_traced(x, y, n as nat, m as nat);
    }
    while i > 0 || j > 0
        invariant
            i <= n,
            j <= m,
            n == a@.len(),
            m == b@.len(),
            x.len() == n,
            y.len() == m,
            n + m < usize::MAX,
            (n + 1) * (m + 1) <= usize::MAX,
            d@.len() == (n + 1) * (m + 1),
            forall|k: int| 0 <= k < a@.len() ==> (#[trigger] a@[k])@ == x[k],
            forall|k: int| 0 <= k < b@.len() ==> (#[trigger] b@[k])@ == y[k],
            forall|p: int, q: int|
                0 <= p <= n && 0 <= q <= m ==> #[trigger] cell(d@, m as int, p, q) == prefix_distance(
                    x,
                    y,
                    p as nat,
                    q as nat,
                ),
            ({
                let t = traced(x, y, n as nat, m as nat);
                let u = traced(x, y, i as nat, j as nat);
                &&& t.0 == e.sub + u.0
                &&& t.1 == e.del + u.1
                &&& t.2 == e.ins + u.2
                &&& t.0 + t.1 <= n
                &&& t.2 <= m
                &&& u.0 >= 0 && u.1 >= 0 && u.2 >= 0
            }),
        decreases i + j,
    {
        proof {
            if i > 0 && j > 0 {
                lemma_cell(n as int, m as int, i as int, j as int);
                assert(cell(d@, m as int, i - 1, j - 1) == prefix_distance(x, y, (i - 1) as nat, (j - 1) as nat));
            }
            if i > 0 {
                lemma_column(n as int, m as int, i as int, j as int);
                assert(cell(d@, m as int, i - 1, j as int) == prefix_distance(x, y, (i - 1) as nat, j as nat));
            }
            assert(cell(d@, m as int, i as int, j as int) == prefix_distance(x, y, i as nat, j as nat));
            lemma_cell_inside(n as int, m as int, i as int, j as int);
            lemma_edge(x, y, i as nat, j as nat);
            lemma_distance_bound(x, y, i as nat, j as nat);
            if i > 0 {
                lemma_distance_bound(x, y, (i - 1) as nat, j as nat);
                lemma_traced(x, y, (i - 1) as nat, j as nat);
            }
            if j > 0 {
                lemma_traced(x, y, i as nat, (j - 1) as nat);
            }
            if i > 0 && j > 0 {
                lemma_distance_bound(x, y, (i - 1) as nat, (j - 1) as nat);
                lemma_traced(x, y, (i - 1) as nat, (j - 1) as nat);
            }
        }
        let w: usize = m + 1;
        if i > 0 && j > 0 && chars_eq(a[i - 1].as_slice(), b[j - 1].as_slice()) {
            i = i - 1;
            j = j - 1;
        } else if i > 0 && j > 0 && d[i * w + j] == d[(i - 1) * w + (j - 1)] + 1 {
            e.sub = e.sub + 1;
            i = i - 1;
            j = j - 1;
        } else if i > 0 && d[i * w + j] == d[(i - 1) * w + j] + 1 {
            e.del = e.del + 1;
            i = i - 1;
        } else {
            e.ins = e.ins + 1;
            j = j - 1;
        }
    }
    e
}

proof fn lemma_column(n: int, m: int, i: int, j: int)
    requires
        1 <= i <= n,
        0 <= j <= m,
    ensures
        0 <= (i - 1) * (m + 1),
        (i - 1) * (m + 1) + j < (n + 1) * (m + 1),
        i * (m + 1) + j < (n + 1) * (m + 1),
{
    assert(0 <= (i - 1) * (m + 1)) by (nonlinear_arith)
        requires
            i >= 1,
            m >= 0,
    ;
    assert(i * (m + 1) + (m + 1) <= (n + 1) * (m + 1)) by (nonlinear_arith)
        requires
            i <= n,
            m >= 0,
    ;
    assert((i - 1) * (m + 1) + m + 1 == i * (m + 1)) by (nonlinear_arith);
}

proof fn lemma_cell_inside(n: int, m: int, i: int, j: int)
    requires
        0 <= i <= n,
        0 <= j <= m,
    ensures
        0 <= i * (m + 1),
        i * (m + 1) + j < (n + 1) * (m + 1),
{
    assert(0 <= i * (m + 1)) by (nonlinear_arith)
        requires
            i >= 0,
            m >= 0,
    ;
    assert(i * (m + 1) + (m + 1) <= (n + 1) * (m + 1)) by (nonlinear_arith)
        requires
            i <= n,
            m >= 0,
    ;
}

/// A preview: trimmed, and cut to `max` characters and an ellipsis.
pub fn truncate(s: &str, max: usize) -> (r: String)
    ensures
        r@ == if trimmed(s@).len() <= max {
            trimmed(s@)
        } else {
            trimmed(s@).take(max as int).push('\u{2026}')
        },
{
    let c = chars_of(s);
    let t = trim(c.as_slice());
    if t.len() <= max {
        return string_of(t.as_slice());
    }
    let mut out: Vec<char> = Vec::new();
    for i in 0..max
        invariant
            max < t@.len(),
            out@ == t@.take(i as int),
    {
        out.push(t[i]);
    }
    out.push('\u{2026}');
    string_of(out.as_slice())
}

} // verus!
