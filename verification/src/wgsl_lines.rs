//! Kernel sources line by line: the lines of a text that begin alike, and how they
//! follow from the pieces that the text is put together from.
use vstd::prelude::*;

use crate::text::{dec, is_digit, lemma_dec_digits, rep};

verus! {

/// Characters before the first line end.
pub open spec fn first_line(t: Seq<char>) -> nat
    decreases t.len(),
{
    if t.len() == 0 || t[0] == '\n' {
        0
    } else {
        1 + first_line(t.drop_first())
    }
}

/// `line` begins with `head`.
pub open spec fn begins(line: Seq<char>, head: Seq<char>) -> bool {
    head.len() <= line.len() && line.take(head.len() as int) == head
}

/// The lines of `t` that begin with `head`, in order, without their line ends.
pub open spec fn picked(t: Seq<char>, head: Seq<char>) -> Seq<Seq<char>>
    decreases t.len(),
{
    if t.len() == 0 {
        Seq::empty()
    } else {
        let n = first_line(t) as int;
        let line = t.take(n);
        let rest = if n < t.len() {
            t.skip(n + 1)
        } else {
            Seq::empty()
        };
        (if begins(line, head) {
            seq![line]
        } else {
            Seq::empty()
        }) + picked(rest, head)
    }
}

/// `g(0) + g(1) + .. + g(n - 1)`.
pub open spec fn joined(n: nat, g: spec_fn(nat) -> Seq<Seq<char>>) -> Seq<Seq<char>>
    decreases n,
{
    if n == 0 {
        Seq::empty()
    } else {
        joined((n - 1) as nat, g) + g((n - 1) as nat)
    }
}

/// Whatever follows `x`, it contributes the lines `l`.
#[verifier::opaque]
pub open spec fn yields(x: Seq<char>, head: Seq<char>, l: Seq<Seq<char>>) -> bool {
    forall|rest: Seq<char>| #[trigger] picked(x + rest, head) == l + picked(rest, head)
}

/// Whatever follows `x`, it contributes no line.
pub open spec fn quiet(x: Seq<char>, head: Seq<char>) -> bool {
    yields(x, head, Seq::empty())
}

/// No line ends in `s`.
#[verifier::opaque]
pub open spec fn plain(s: Seq<char>) -> bool {
    forall|i: int| 0 <= i < s.len() ==> #[trigger] s[i] != '\n'
}

/// One whole line, line end included.
#[verifier::opaque]
pub open spec fn one_line(s: Seq<char>) -> bool {
    s.len() > 0 && s.last() == '\n' && forall|i: int| 0 <= i < s.len() - 1 ==> #[trigger] s[i] != '\n'
}

/// `x` has the character `c` at place `i`.
#[verifier::opaque]
pub open spec fn mark(x: Seq<char>, i: int, c: char) -> bool {
    0 <= i < x.len() && x[i] == c
}

/// `x` begins with `head` and goes on.
#[verifier::opaque]
pub open spec fn starts(x: Seq<char>, head: Seq<char>) -> bool {
    head.len() < x.len() && x.take(head.len() as int) == head
}

/// What lines are made of.
pub proof fn lemma_pieces()
    ensures
        forall|a: Seq<char>, b: Seq<char>| plain(a) && plain(b) ==> #[trigger] plain(a + b),
        forall|a: Seq<char>, b: Seq<char>| plain(a) && one_line(b) ==> #[trigger] one_line(a + b),
        forall|a: Seq<char>, b: Seq<char>, i: int, c: char| mark(a, i, c) ==> #[trigger] mark(a + b, i, c),
        forall|a: Seq<char>, b: Seq<char>, h: Seq<char>| starts(a, h) ==> #[trigger] starts(a + b, h),
        forall|n: nat| #[trigger] plain(dec(n)),
        plain(Seq::<char>::empty()),
{
    reveal(plain);
    reveal(one_line);
    reveal(mark);
    assert forall|n: nat| #[trigger] plain(dec(n)) by {
        lemma_dec_digits(n);
        assert forall|i: int| 0 <= i < dec(n).len() implies #[trigger] dec(n)[i] != '\n' by {
            assert(is_digit(dec(n)[i]));
        }
    }
    assert forall|a: Seq<char>, b: Seq<char>, h: Seq<char>| starts(a, h) implies #[trigger] starts(a + b, h) by {
        reveal(starts);
        assert((a + b).take(h.len() as int) =~= a.take(h.len() as int));
    }
}

proof fn lemma_first_line(l: Seq<char>, rest: Seq<char>)
    requires
        plain(l),
    ensures
        first_line(l + seq!['\n'] + rest) == l.len(),
    decreases l.len(),
{
    reveal(plain);
    let t = l + seq!['\n'] + rest;
    if l.len() > 0 {
        let m = l.drop_first();
        assert(t[0] == l[0]);
        assert forall|i: int| 0 <= i < m.len() implies #[trigger] m[i] != '\n' by {
            assert(m[i] == l[i + 1]);
        }
        lemma_first_line(m, rest);
        assert(t.drop_first() =~= m + seq!['\n'] + rest);
    } else {
        assert(t[0] == '\n');
    }
}

/// A line contributes itself or nothing.
pub proof fn lemma_line(x: Seq<char>, head: Seq<char>)
    requires
        one_line(x),
    ensures
        yields(
            x,
            head,
            if begins(x.drop_last(), head) {
                seq![x.drop_last()]
            } else {
                Seq::empty()
            },
        ),
{
    reveal(one_line);
    reveal(plain);
    reveal(yields);
    let l = x.drop_last();
    let own = if begins(l, head) {
        seq![l]
    } else {
        Seq::empty()
    };
    assert forall|rest: Seq<char>| #[trigger] picked(x + rest, head) == own + picked(rest, head) by {
        let t = x + rest;
        assert forall|i: int| 0 <= i < l.len() implies #[trigger] l[i] != '\n' by {
            assert(l[i] == x[i]);
        }
        assert(t =~= l + seq!['\n'] + rest);
        lemma_first_line(l, rest);
        assert(t.take(l.len() as int) =~= l);
        assert(t.skip(l.len() as int + 1) =~= rest);
    }
}

/// A line that departs from `head` contributes nothing.
pub proof fn lemma_quiet(x: Seq<char>, head: Seq<char>, i: int, c: char)
    requires
        one_line(x),
        mark(x, i, c),
        i < head.len(),
        head[i] != c,
    ensures
        quiet(x, head),
{
    reveal(mark);
    lemma_line(x, head);
    let l = x.drop_last();
    if begins(l, head) {
        assert(l.take(head.len() as int)[i] == l[i]);
    }
}

/// A line that begins with `head` contributes itself.
pub proof fn lemma_heard(x: Seq<char>, head: Seq<char>)
    requires
        one_line(x),
        starts(x, head),
    ensures
        yields(x, head, seq![x.drop_last()]),
{
    reveal(starts);
    lemma_line(x, head);
    assert(x.drop_last().take(head.len() as int) =~= x.take(head.len() as int));
}

/// Two texts, one behind the other.
pub proof fn lemma_behind(x: Seq<char>, y: Seq<char>, head: Seq<char>, l: Seq<Seq<char>>, m: Seq<Seq<char>>)
    requires
        yields(x, head, l),
        yields(y, head, m),
    ensures
        yields(x + y, head, l + m),
{
    reveal(yields);
    assert forall|rest: Seq<char>| #[trigger] picked((x + y) + rest, head) == (l + m) + picked(rest, head) by {
        assert((x + y) + rest =~= x + (y + rest));
        assert(picked(x + (y + rest), head) == l + picked(y + rest, head));
        assert(l + (m + picked(rest, head)) =~= (l + m) + picked(rest, head));
    }
}

/// Two quiet texts, one behind the other.
pub proof fn lemma_quiet_behind(x: Seq<char>, y: Seq<char>, head: Seq<char>)
    requires
        quiet(x, head),
        quiet(y, head),
    ensures
        quiet(x + y, head),
{
    let none = Seq::<Seq<char>>::empty();
    lemma_behind(x, y, head, none, none);
    assert(none + none =~= none);
}

/// A quiet text in front or behind changes nothing.
pub proof fn lemma_quiet_around(x: Seq<char>, y: Seq<char>, head: Seq<char>, l: Seq<Seq<char>>)
    ensures
        quiet(x, head) && yields(y, head, l) ==> yields(x + y, head, l),
        yields(x, head, l) && quiet(y, head) ==> yields(x + y, head, l),
{
    let none = Seq::<Seq<char>>::empty();
    assert(none + l =~= l && l + none =~= l);
    if quiet(x, head) && yields(y, head, l) {
        lemma_behind(x, y, head, none, l);
    }
    if yields(x, head, l) && quiet(y, head) {
        lemma_behind(x, y, head, l, none);
    }
}

/// Repeated texts.
pub proof fn lemma_repeated(
    n: nat,
    f: spec_fn(nat) -> Seq<char>,
    head: Seq<char>,
    g: spec_fn(nat) -> Seq<Seq<char>>,
)
    requires
        forall|i: nat| i < n ==> yields(#[trigger] f(i), head, g(i)),
    ensures
        yields(rep(n, f), head, joined(n, g)),
    decreases n,
{
    if n == 0 {
        lemma_nothing(head);
    } else {
        let m = (n - 1) as nat;
        lemma_repeated(m, f, head, g);
        lemma_behind(rep(m, f), f(m), head, joined(m, g), g(m));
    }
}

/// No text, no lines.
pub proof fn lemma_nothing(head: Seq<char>)
    ensures
        quiet(Seq::<char>::empty(), head),
{
    reveal(yields);
    assert forall|rest: Seq<char>| #[trigger] picked(Seq::<char>::empty() + rest, head) == Seq::<Seq<char>>::empty()
        + picked(rest, head) by {
        assert(Seq::<char>::empty() + rest =~= rest);
        assert(Seq::<Seq<char>>::empty() + picked(rest, head) =~= picked(rest, head));
    }
}

/// Repeated quiet texts.
pub proof fn lemma_quiet_repeated(n: nat, f: spec_fn(nat) -> Seq<char>, head: Seq<char>)
    requires
        forall|i: nat| i < n ==> quiet(#[trigger] f(i), head),
    ensures
        quiet(rep(n, f), head),
    decreases n,
{
    if n == 0 {
        lemma_nothing(head);
    } else {
        let m = (n - 1) as nat;
        lemma_quiet_repeated(m, f, head);
        lemma_quiet_behind(rep(m, f), f(m), head);
    }
}

/// The lines of a text that contributes `l` are `l`.
pub proof fn lemma_alone(x: Seq<char>, head: Seq<char>, l: Seq<Seq<char>>)
    requires
        yields(x, head, l),
    ensures
        picked(x, head) == l,
{
    reveal(yields);
    let none = Seq::<char>::empty();
    assert(x + none =~= x);
    assert(picked(x + none, head) == l + picked(none, head));
    assert(l + picked(none, head) =~= l);
}

/// Whatever follows `x`, it contributes `n` lines.
#[verifier::opaque]
pub open spec fn tally(x: Seq<char>, head: Seq<char>, n: nat) -> bool {
    forall|rest: Seq<char>| (#[trigger] picked(x + rest, head)).len() == n + picked(rest, head).len()
}

/// A text that contributes `l` contributes as many lines.
pub proof fn lemma_tally(x: Seq<char>, head: Seq<char>, l: Seq<Seq<char>>)
    requires
        yields(x, head, l),
    ensures
        tally(x, head, l.len()),
{
    reveal(yields);
    reveal(tally);
}

/// Counts of two texts add up.
pub proof fn lemma_tally_behind(x: Seq<char>, y: Seq<char>, head: Seq<char>, m: nat, n: nat)
    requires
        tally(x, head, m),
        tally(y, head, n),
    ensures
        tally(x + y, head, m + n),
{
    reveal(tally);
    assert forall|rest: Seq<char>| (#[trigger] picked((x + y) + rest, head)).len() == m + n + picked(
        rest,
        head,
    ).len() by {
        assert((x + y) + rest =~= x + (y + rest));
        assert(picked(x + (y + rest), head).len() == m + picked(y + rest, head).len());
    }
}

/// Repeated texts of `k` lines each.
pub proof fn lemma_tally_repeated(n: nat, f: spec_fn(nat) -> Seq<char>, head: Seq<char>, k: nat)
    requires
        forall|i: nat| i < n ==> tally(#[trigger] f(i), head, k),
    ensures
        tally(rep(n, f), head, n * k),
    decreases n,
{
    if n == 0 {
        lemma_nothing(head);
        lemma_tally(Seq::empty(), head, Seq::empty());
        assert(0 * k == 0) by (nonlinear_arith);
    } else {
        let m = (n - 1) as nat;
        lemma_tally_repeated(m, f, head, k);
        lemma_tally_behind(rep(m, f), f(m), head, m * k, k);
        assert(n * k == m * k + k) by (nonlinear_arith)
            requires
                n == m + 1,
        ;
    }
}

/// The count of a whole text.
pub proof fn lemma_tally_alone(x: Seq<char>, head: Seq<char>, n: nat)
    requires
        tally(x, head, n),
    ensures
        picked(x, head).len() == n,
{
    reveal(tally);
    let none = Seq::<char>::empty();
    assert(x + none =~= x);
    assert(picked(x + none, head).len() == n + picked(none, head).len());
}

/// Where pieces of `k` lines each stand when they are joined.
pub proof fn lemma_joined_place(n: nat, g: spec_fn(nat) -> Seq<Seq<char>>, k: nat)
    requires
        forall|i: nat| i < n ==> (#[trigger] g(i)).len() == k,
    ensures
        joined(n, g).len() == n * k,
        forall|i: nat, r: nat| i < n && r < k ==> joined(n, g)[(i * k + r) as int] == #[trigger] g(i)[r as int],
    decreases n,
{
    if n == 0 {
        assert(0 * k == 0) by (nonlinear_arith);
    } else {
        let m = (n - 1) as nat;
        lemma_joined_place(m, g, k);
        assert(g(m).len() == k);
        assert(n * k == m * k + k) by (nonlinear_arith)
            requires
                n == m + 1,
        ;
        assert forall|i: nat, r: nat| i < n && r < k implies joined(n, g)[(i * k + r) as int] == #[trigger] g(i)[r as int] by {
            if i < m {
                assert(i * k + r < m * k) by (nonlinear_arith)
                    requires
                        i < m,
                        r < k,
                ;
                assert(0 <= i * k) by (nonlinear_arith);
                assert(joined(n, g)[(i * k + r) as int] == joined(m, g)[(i * k + r) as int]);
            } else {
                assert(i == m);
                assert(joined(n, g)[(m * k + r) as int] == g(m)[r as int]);
            }
        }
    }
}

/// Joining in two runs.
pub proof fn lemma_joined_split(a: nat, b: nat, g: spec_fn(nat) -> Seq<Seq<char>>, h: spec_fn(nat) -> Seq<Seq<char>>)
    requires
        forall|k: nat| k < b ==> #[trigger] h(k) == g(a + k),
    ensures
        joined(a + b, g) == joined(a, g) + joined(b, h),
    decreases b,
{
    if b == 0 {
        assert(joined(a, g) + joined(0, h) =~= joined(a, g));
    } else {
        let m = (b - 1) as nat;
        lemma_joined_split(a, m, g, h);
        assert(h(m) == g(a + m));
        assert((a + b - 1) as nat == a + m);
        assert(joined(a, g) + (joined(m, h) + h(m)) =~= (joined(a, g) + joined(m, h)) + h(m));
    }
}

} // verus!
