//! Sorting by a number, then by name, keeping the order of equals.
use vstd::prelude::*;

verus! {

/// What an item is sorted by.
#[derive(Debug)]
pub struct Key {
    pub rank: u64,
    pub name: Vec<char>,
}

/// A key as a value.
pub open spec fn key(k: Key) -> (int, Seq<char>) {
    (k.rank as int, k.name@)
}

/// The order of texts: by their first difference, a prefix before what it
/// begins.
pub open spec fn text_before(a: Seq<char>, b: Seq<char>) -> bool
    decreases a.len(),
{
    if b.len() == 0 {
        false
    } else if a.len() == 0 {
        true
    } else if a[0] != b[0] {
        a[0] < b[0]
    } else {
        text_before(a.skip(1), b.skip(1))
    }
}

/// The order of keys.
pub open spec fn key_before(a: (int, Seq<char>), b: (int, Seq<char>)) -> bool {
    a.0 < b.0 || (a.0 == b.0 && text_before(a.1, b.1))
}

/// Two texts are equal, or one of them comes first.
pub proof fn lemma_text_total(a: Seq<char>, b: Seq<char>)
    ensures
        a == b ==> !text_before(a, b) && !text_before(b, a),
        a != b ==> text_before(a, b) != text_before(b, a),
    decreases a.len(),
{
    if a.len() > 0 && b.len() > 0 {
        lemma_text_total(a.skip(1), b.skip(1));
        if a[0] == b[0] && a.skip(1) == b.skip(1) {
            assert(a =~= seq![a[0]] + a.skip(1));
            assert(b =~= seq![b[0]] + b.skip(1));
        }
    } else if a.len() == 0 && b.len() == 0 {
        assert(a =~= b);
    }
}

pub proof fn lemma_text_transitive(a: Seq<char>, b: Seq<char>, c: Seq<char>)
    requires
        text_before(a, b),
        text_before(b, c),
    ensures
        text_before(a, c),
    decreases a.len(),
{
    if a.len() > 0 && b.len() > 0 && c.len() > 0 && a[0] == b[0] && b[0] == c[0] {
        lemma_text_transitive(a.skip(1), b.skip(1), c.skip(1));
    }
}

/// A list of keys as values.
pub open spec fn keys(k: Seq<Key>) -> Seq<(int, Seq<char>)> {
    k.map_values(|x: Key| key(x))
}

/// Item `i` stands before item `j`: by key, and equals by position.
pub open spec fn stands_before(k: Seq<(int, Seq<char>)>, i: int, j: int) -> bool {
    key_before(k[i], k[j]) || (k[i] == k[j] && i < j)
}

proof fn lemma_stands_transitive(k: Seq<(int, Seq<char>)>, a: int, b: int, c: int)
    requires
        stands_before(k, a, b),
        stands_before(k, b, c),
    ensures
        stands_before(k, a, c),
{
    if k[a].0 == k[b].0 && k[b].0 == k[c].0 && text_before(k[a].1, k[b].1) && text_before(k[b].1, k[c].1) {
        lemma_text_transitive(k[a].1, k[b].1, k[c].1);
    }
}

/// `r` lists the items of `k` in order: every item once, each behind those that
/// stand before it.
pub open spec fn in_order(k: Seq<(int, Seq<char>)>, r: Seq<usize>) -> bool {
    &&& r.len() == k.len()
    &&& forall|p: int| 0 <= p < r.len() ==> #[trigger] r[p] < k.len()
    &&& forall|p: int, q: int| 0 <= p < q < r.len() ==> stands_before(k, #[trigger] r[p] as int, #[trigger] r[q] as int)
}

fn name_before(a: &Vec<char>, b: &Vec<char>) -> (r: bool)
    ensures
        r == text_before(a@, b@),
{
    let mut i: usize = 0;
    assert(a@.skip(0) =~= a@);
    assert(b@.skip(0) =~= b@);
    while i < a.len() && i < b.len() && a[i] == b[i]
        invariant
            i <= a@.len(),
            i <= b@.len(),
            text_before(a@, b@) == text_before(a@.skip(i as int), b@.skip(i as int)),
        decreases a@.len() - i,
    {
        assert(a@.skip(i as int).skip(1) =~= a@.skip(i + 1));
        assert(b@.skip(i as int).skip(1) =~= b@.skip(i + 1));
        i = i + 1;
    }
    if i >= b.len() {
        false
    } else if i >= a.len() {
        true
    } else {
        a[i] < b[i]
    }
}

fn comes_first(a: &Key, b: &Key) -> (r: bool)
    ensures
        r == key_before(key(*a), key(*b)),
{
    a.rank < b.rank || (a.rank == b.rank && name_before(&a.name, &b.name))
}

/// The items of `k` in order, by their positions.
pub open spec fn ordered(k: Seq<(int, Seq<char>)>) -> Seq<usize> {
    choose|r: Seq<usize>| in_order(k, r)
}

/// The items in order, by their positions.
pub fn sorted(items: &Vec<Key>) -> (r: Vec<usize>)
    ensures
        in_order(keys(items@), r@),
        r@ == ordered(keys(items@)),
{
    let ghost k = keys(items@);
    let mut r: Vec<usize> = Vec::new();
    for i in 0..items.len()
        invariant
            r@.len() == i,
            i <= items@.len(),
            k == keys(items@),
            forall|p: int| 0 <= p < r@.len() ==> #[trigger] r@[p] < i,
            forall|p: int, q: int|
                0 <= p < q < r@.len() ==> stands_before(k, #[trigger] r@[p] as int, #[trigger] r@[q] as int),
    {
        let mut at: usize = 0;
        while at < r.len() && !comes_first(&items[i], &items[r[at]])
            invariant
                i < items@.len(),
                k == keys(items@),
                at <= r@.len(),
                r@.len() == i,
                forall|p: int| 0 <= p < r@.len() ==> #[trigger] r@[p] < i,
                forall|p: int| 0 <= p < at ==> stands_before(k, #[trigger] r@[p] as int, i as int),
            decreases r@.len() - at,
        {
            proof {
                let e = r@[at as int] as int;
                lemma_text_total(k[i as int].1, k[e].1);
                assert(k[e] == key(items@[e]));
                assert(k[i as int] == key(items@[i as int]));
                assert(stands_before(k, e, i as int));
            }
            at = at + 1;
        }
        proof {
            if at < r@.len() {
                let e = r@[at as int] as int;
                assert(k[e] == key(items@[e]));
                assert(k[i as int] == key(items@[i as int]));
            }
        }
        let ghost before = r@;
        r.insert(at, i);
        proof {
            assert forall|p: int, q: int| 0 <= p < q < r@.len() implies stands_before(
                k,
                #[trigger] r@[p] as int,
                #[trigger] r@[q] as int,
            ) by {
                if p < at && q < at {
                    assert(r@[p] == before[p] && r@[q] == before[q]);
                } else if p < at && q == at {
                    assert(r@[p] == before[p]);
                } else if p < at {
                    assert(r@[p] == before[p] && r@[q] == before[q - 1]);
                } else if p == at {
                    assert(r@[q] == before[q - 1]);
                    if q - 1 > at {
                        let e = before[at as int] as int;
                        assert(stands_before(k, i as int, e));
                        assert(stands_before(k, before[at as int] as int, before[q - 1] as int));
                        lemma_stands_transitive(k, i as int, e, before[q - 1] as int);
                    }
                } else {
                    assert(r@[p] == before[p - 1] && r@[q] == before[q - 1]);
                }
            }
            assert forall|p: int| 0 <= p < r@.len() implies #[trigger] r@[p] < i + 1 by {
                if p < at {
                    assert(r@[p] == before[p]);
                } else if p > at {
                    assert(r@[p] == before[p - 1]);
                }
            }
        }
    }
    proof {
        assert(in_order(k, r@));
        law_order_unique(k, r@, ordered(k));
    }
    r
}

/// The first `n` items in order.
spec fn ordered_below(k: Seq<(int, Seq<char>)>, r: Seq<usize>, n: int) -> bool {
    &&& r.len() == n
    &&& forall|p: int| 0 <= p < r.len() ==> #[trigger] r[p] < n
    &&& forall|p: int, q: int| 0 <= p < q < r.len() ==> stands_before(k, #[trigger] r[p] as int, #[trigger] r[q] as int)
}

proof fn lemma_insert(k: Seq<(int, Seq<char>)>, r: Seq<usize>, i: int, at: int) -> (s: Seq<usize>)
    requires
        ordered_below(k, r, i),
        0 <= i < k.len() <= usize::MAX,
        0 <= at <= r.len(),
        forall|p: int| at <= p < r.len() ==> stands_before(k, i, #[trigger] r[p] as int),
    ensures
        ordered_below(k, s, i + 1),
    decreases at,
{
    if at > 0 && !stands_before(k, r[at - 1] as int, i) {
        lemma_text_total(k[r[at - 1] as int].1, k[i].1);
        lemma_insert(k, r, i, at - 1)
    } else {
        let s = r.insert(at, i as usize);
        assert forall|p: int, q: int| 0 <= p < q < s.len() implies stands_before(
            k,
            #[trigger] s[p] as int,
            #[trigger] s[q] as int,
        ) by {
            if q == at && p < at - 1 {
                assert(stands_before(k, r[p] as int, r[at - 1] as int));
                lemma_stands_transitive(k, r[p] as int, r[at - 1] as int, i);
            }
        }
        s
    }
}

proof fn lemma_order_below(k: Seq<(int, Seq<char>)>, n: nat) -> (r: Seq<usize>)
    requires
        n <= k.len() <= usize::MAX,
    ensures
        ordered_below(k, r, n as int),
    decreases n,
{
    if n == 0 {
        Seq::empty()
    } else {
        let r = lemma_order_below(k, (n - 1) as nat);
        lemma_insert(k, r, n - 1, r.len() as int)
    }
}

/// There is an order.
pub proof fn law_order_exists(k: Seq<(int, Seq<char>)>)
    requires
        k.len() <= usize::MAX,
    ensures
        in_order(k, ordered(k)),
{
    let r = lemma_order_below(k, k.len());
    assert(in_order(k, r));
}

/// There is one order.
pub proof fn law_order_unique(k: Seq<(int, Seq<char>)>, a: Seq<usize>, b: Seq<usize>)
    requires
        in_order(k, a),
        in_order(k, b),
    ensures
        a == b,
{
    law_in_order_complete(k, a);
    law_in_order_complete(k, b);
    assert forall|p: int| 0 <= p < a.len() implies a[p] == b[p] by {
        lemma_same_at(k, a, b, p);
    }
    assert(a =~= b);
}

proof fn lemma_same_at(k: Seq<(int, Seq<char>)>, a: Seq<usize>, b: Seq<usize>, p: int)
    requires
        in_order(k, a),
        in_order(k, b),
        a.no_duplicates(),
        b.no_duplicates(),
        forall|i: usize| i < k.len() ==> #[trigger] a.contains(i),
        forall|i: usize| i < k.len() ==> #[trigger] b.contains(i),
        0 <= p < a.len(),
    ensures
        a[p] == b[p],
    decreases p,
{
    if a[p] != b[p] {
        assert(b.contains(a[p]));
        assert(a.contains(b[p]));
        let q = choose|q: int| 0 <= q < b.len() && b[q] == a[p];
        let r = choose|r: int| 0 <= r < a.len() && a[r] == b[p];
        if q < p {
            lemma_same_at(k, a, b, q);
            assert(a[q] == a[p]);
        }
        if r < p {
            lemma_same_at(k, a, b, r);
            assert(b[r] == b[p]);
        }
        assert(stands_before(k, b[p] as int, b[q] as int));
        assert(stands_before(k, a[p] as int, a[r] as int));
        lemma_text_total(k[a[p] as int].1, k[b[p] as int].1);
    }
}

/// A list in order has every item: its entries are as many as the items, within
/// them and pairwise different.
pub proof fn law_in_order_complete(k: Seq<(int, Seq<char>)>, r: Seq<usize>)
    requires
        in_order(k, r),
    ensures
        r.no_duplicates(),
        forall|i: usize| i < k.len() ==> #[trigger] r.contains(i),
{
    assert forall|p: int, q: int| 0 <= p < r.len() && 0 <= q < r.len() && p != q implies r[p] != r[q] by {
        if p < q {
            assert(stands_before(k, r[p] as int, r[q] as int));
            lemma_text_total(k[r[p] as int].1, k[r[q] as int].1);
        } else {
            assert(stands_before(k, r[q] as int, r[p] as int));
            lemma_text_total(k[r[p] as int].1, k[r[q] as int].1);
        }
    }
    lemma_covers(r, k.len());
}

/// `n` different numbers below `n` are all of them.
proof fn lemma_covers(r: Seq<usize>, n: nat)
    requires
        r.len() == n,
        r.no_duplicates(),
        forall|p: int| 0 <= p < r.len() ==> #[trigger] r[p] < n,
    ensures
        forall|i: usize| i < n ==> #[trigger] r.contains(i),
    decreases n,
{
    if n > 0 {
        let m = (n - 1) as nat;
        if r.contains(m as usize) {
            let p = choose|p: int| 0 <= p < r.len() && r[p] == m as usize;
            let s = r.remove(p);
            assert forall|q: int| 0 <= q < s.len() implies #[trigger] s[q] < m by {
                if q < p {
                    assert(s[q] == r[q]);
                } else {
                    assert(s[q] == r[q + 1]);
                }
            }
            assert(s.no_duplicates());
            lemma_covers(s, m);
            assert forall|i: usize| i < n implies #[trigger] r.contains(i) by {
                if i < m {
                    assert(s.contains(i));
                    let q = choose|q: int| 0 <= q < s.len() && s[q] == i;
                    if q < p {
                        assert(r[q] == i);
                    } else {
                        assert(r[q + 1] == i);
                    }
                }
            }
        } else {
            assert forall|q: int| 0 <= q < r.len() implies #[trigger] r[q] < m by {
                if r[q] == m {
                    assert(r.contains(m as usize));
                }
            }
            lemma_pigeons(r, m);
        }
    }
}

/// Different numbers below `m` are at most `m`.
proof fn lemma_pigeons(r: Seq<usize>, m: nat)
    requires
        r.no_duplicates(),
        forall|p: int| 0 <= p < r.len() ==> #[trigger] r[p] < m,
    ensures
        r.len() <= m,
    decreases m,
{
    if r.len() > 0 {
        assert(r[0] < m);
        let k = (m - 1) as nat;
        if exists|p: int| 0 <= p < r.len() && r[p] == k as usize {
            let p = choose|p: int| 0 <= p < r.len() && r[p] == k as usize;
            let s = r.remove(p);
            assert forall|q: int| 0 <= q < s.len() implies #[trigger] s[q] < k by {
                if q < p {
                    assert(s[q] == r[q]);
                } else {
                    assert(s[q] == r[q + 1]);
                }
            }
            assert(s.no_duplicates());
            lemma_pigeons(s, k);
        } else {
            lemma_pigeons(r, k);
        }
    }
}

} // verus!
