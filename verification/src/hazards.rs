//! Deferred writes.
//!
//! A queued buffer write lands when the next submission starts, before any of
//! its dispatches. So if two writes to one place are queued before one
//! submission, every dispatch of it reads the second. A command list is
//! *steady* if that never changes what a dispatch reads: whatever is written to
//! a place between two submissions is one value.
use vstd::prelude::*;

verus! {

/// What a command means to the queued writes.
pub enum Event<K, D> {
    /// Queues `data` for the place `key`.
    Write { key: K, data: D },
    /// Submits: everything queued lands.
    Flush,
    /// Neither.
    Other,
}

/// The writes that are queued behind `e`, starting from `m`.
pub open spec fn queued<K, D>(m: Map<K, D>, e: Seq<Event<K, D>>) -> Map<K, D>
    decreases e.len(),
{
    if e.len() == 0 {
        m
    } else {
        let p = queued(m, e.drop_last());
        match e.last() {
            Event::Write { key, data } => p.insert(key, data),
            Event::Flush => Map::empty(),
            Event::Other => p,
        }
    }
}

/// No write in `e` changes a value that is queued already.
pub open spec fn steady<K, D>(m: Map<K, D>, e: Seq<Event<K, D>>) -> bool
    decreases e.len(),
{
    if e.len() == 0 {
        true
    } else {
        let p = queued(m, e.drop_last());
        &&& steady(m, e.drop_last())
        &&& match e.last() {
            Event::Write { key, data } => p.contains_key(key) ==> p[key] == data,
            _ => true,
        }
    }
}

/// Running one list behind another.
pub proof fn lemma_concat<K, D>(m: Map<K, D>, a: Seq<Event<K, D>>, b: Seq<Event<K, D>>)
    ensures
        queued(m, a + b) == queued(queued(m, a), b),
        steady(m, a + b) == (steady(m, a) && steady(queued(m, a), b)),
    decreases b.len(),
{
    if b.len() == 0 {
        assert(a + b =~= a);
    } else {
        lemma_concat(m, a, b.drop_last());
        assert((a + b).drop_last() =~= a + b.drop_last());
        assert((a + b).last() == b.last());
    }
}

/// A list that writes nothing and submits nothing.
pub open spec fn quiet<K, D>(e: Seq<Event<K, D>>) -> bool {
    forall|i: int| 0 <= i < e.len() ==> #[trigger] e[i] is Other
}

pub proof fn lemma_quiet<K, D>(m: Map<K, D>, e: Seq<Event<K, D>>)
    requires
        quiet(e),
    ensures
        queued(m, e) == m,
        steady(m, e),
    decreases e.len(),
{
    if e.len() > 0 {
        assert(quiet(e.drop_last())) by {
            assert forall|i: int| 0 <= i < e.drop_last().len() implies #[trigger] e.drop_last()[i] is Other by {
                assert(e[i] is Other);
            }
        }
        lemma_quiet(m, e.drop_last());
        assert(e[e.len() - 1] is Other);
    }
}

/// A list of one write.
pub proof fn lemma_write<K, D>(m: Map<K, D>, key: K, data: D)
    ensures
        queued(m, seq![Event::Write { key, data }]) == m.insert(key, data),
        steady(m, seq![Event::Write { key, data }]) == (m.contains_key(key) ==> m[key] == data),
{
    let e = seq![Event::Write { key, data }];
    assert(e.drop_last() =~= Seq::<Event<K, D>>::empty());
    assert(queued(m, e.drop_last()) == m);
    assert(steady(m, e.drop_last()));
}

/// A list of one submission.
pub proof fn lemma_flush<K, D>(m: Map<K, D>)
    ensures
        queued(m, seq![Event::<K, D>::Flush]) == Map::<K, D>::empty(),
        steady(m, seq![Event::<K, D>::Flush]),
{
    let e = seq![Event::<K, D>::Flush];
    assert(e.drop_last() =~= Seq::<Event<K, D>>::empty());
    assert(steady(m, e.drop_last()));
}

/// In a steady list, what is queued for a place when the list ends is what any
/// write to it since the last submission queued.
pub proof fn law_steady_means_last_write<K, D>(
    m: Map<K, D>,
    a: Seq<Event<K, D>>,
    key: K,
    data: D,
    b: Seq<Event<K, D>>,
)
    requires
        steady(m, a + seq![Event::Write { key, data }] + b),
        forall|i: int| 0 <= i < b.len() ==> !(#[trigger] b[i] is Flush),
    ensures
        queued(m, a + seq![Event::Write { key, data }] + b).contains_pair(key, data),
    decreases b.len(),
{
    let w = seq![Event::Write { key, data }];
    if b.len() == 0 {
        assert(a + w + b =~= a + w);
        lemma_concat(m, a, w);
        lemma_write(queued(m, a), key, data);
    } else {
        let c = b.drop_last();
        assert((a + w + b).drop_last() =~= a + w + c);
        assert((a + w + b).last() == b.last());
        assert forall|i: int| 0 <= i < c.len() implies !(#[trigger] c[i] is Flush) by {
            assert(!(b[i] is Flush));
        }
        law_steady_means_last_write(m, a, key, data, c);
        assert(!(b[b.len() - 1] is Flush));
    }
}

} // verus!
