//! The two linear congruential generators that fill the kernel probes' inputs,
//! so that two runs of a probe are comparable.

use vstd::prelude::*;

verus! {

/// The 64-bit generator's next state.
pub open spec fn step64(s: u64) -> u64 {
    ((s * 6364136223846793005 + 1442695040888963407) % 0x1_0000_0000_0000_0000) as u64
}

/// The 64-bit generator's state after `n` steps.
pub open spec fn state64(s: u64, n: nat) -> u64
    decreases n,
{
    if n == 0 {
        s
    } else {
        step64(state64(s, (n - 1) as nat))
    }
}

/// What the 64-bit generator hands out in a state: its 31 top bits.
pub open spec fn top31(s: u64) -> u32 {
    (s / 0x2_0000_0000) as u32
}

/// A byte read as a signed number.
pub open spec fn signed(b: int) -> i8 {
    if b < 128 {
        b as i8
    } else {
        (b - 256) as i8
    }
}

/// A pseudo-random source with 64 bits of state.
pub struct Lcg {
    pub state: u64,
}

impl Lcg {
    /// The next number, below 2 to the 31.
    pub fn next_u32(&mut self) -> (r: u32)
        ensures
            final(self).state == step64(old(self).state),
            r == top31(final(self).state),
    {
        let ghost s = self.state;
        let a: u64 = self.state.wrapping_mul(6364136223846793005);
        self.state = a.wrapping_add(1442695040888963407);
        proof {
            let p: int = s * 6364136223846793005;
            let m: int = 0x1_0000_0000_0000_0000;
            assert(a == p % m);
            assert((p % m + 1442695040888963407) % m == (p + 1442695040888963407) % m);
        }
        let x: u64 = self.state;
        assert(x >> 33 == x / 0x2_0000_0000) by (bit_vector);
        assert(x / 0x2_0000_0000 < 0x8000_0000) by (bit_vector);
        (x >> 33) as u32
    }

    /// The next signed byte.
    pub fn i8(&mut self) -> (r: i8)
        ensures
            final(self).state == step64(old(self).state),
            r == signed((top31(final(self).state) % 256) as int),
    {
        let w: u32 = self.next_u32() % 256;
        if w < 128 {
            w as i8
        } else {
            (w as i32 - 256) as i8
        }
    }

    /// The next `n` signed bytes.
    pub fn codes(&mut self, n: usize) -> (r: Vec<i8>)
        ensures
            final(self).state == state64(old(self).state, n as nat),
            r@.len() == n,
            forall|i: int| 0 <= i < n ==> r@[i] == signed((top31(state64(old(self).state, (i + 1) as nat)) % 256) as int),
    {
        let ghost s = self.state;
        let mut r: Vec<i8> = Vec::new();
        for k in 0..n
            invariant
                self.state == state64(s, k as nat),
                r@.len() == k,
                forall|i: int| 0 <= i < k ==> r@[i] == signed((top31(state64(s, (i + 1) as nat)) % 256) as int),
        {
            let c = self.i8();
            r.push(c);
        }
        r
    }

    /// The next `n` numbers.
    pub fn draws(&mut self, n: usize) -> (r: Vec<u32>)
        ensures
            final(self).state == state64(old(self).state, n as nat),
            r@.len() == n,
            forall|i: int| 0 <= i < n ==> r@[i] == top31(state64(old(self).state, (i + 1) as nat)),
    {
        let ghost s = self.state;
        let mut r: Vec<u32> = Vec::new();
        for k in 0..n
            invariant
                self.state == state64(s, k as nat),
                r@.len() == k,
                forall|i: int| 0 <= i < k ==> r@[i] == top31(state64(s, (i + 1) as nat)),
        {
            let c = self.next_u32();
            r.push(c);
        }
        r
    }
}

/// The 32-bit generator's next state.
pub open spec fn step32(s: u32) -> u32 {
    ((s * 1664525 + 1013904223) % 0x1_0000_0000) as u32
}

/// The 32-bit generator's state after `n` steps.
pub open spec fn state32(s: u32, n: nat) -> u32
    decreases n,
{
    if n == 0 {
        s
    } else {
        step32(state32(s, (n - 1) as nat))
    }
}

/// The next `n` numbers of the 32-bit generator, each its 24 top bits.
pub fn draws24(n: usize, seed: &mut u32) -> (r: Vec<u32>)
    ensures
        *final(seed) == state32(*old(seed), n as nat),
        r@.len() == n,
        forall|i: int| 0 <= i < n ==> r@[i] == state32(*old(seed), (i + 1) as nat) / 256,
{
    let ghost s = *seed;
    let mut r: Vec<u32> = Vec::new();
    for k in 0..n
        invariant
            *seed == state32(s, k as nat),
            r@.len() == k,
            forall|i: int| 0 <= i < k ==> r@[i] == state32(s, (i + 1) as nat) / 256,
    {
        let ghost prev = *seed;
        let a: u32 = seed.wrapping_mul(1664525);
        *seed = a.wrapping_add(1013904223);
        proof {
            let p: int = prev * 1664525;
            let m: int = 0x1_0000_0000;
            assert(a == p % m);
            assert((p % m + 1013904223) % m == (p + 1013904223) % m);
            assert(*seed == step32(prev));
        }
        let x: u32 = *seed;
        assert(x >> 8 == x / 256) by (bit_vector);
        r.push(x >> 8);
    }
    r
}

/// Two half-precision values in one word, the first in the low half.
pub open spec fn pair_word(lo: u16, hi: u16) -> u32 {
    (lo + hi * 65536) as u32
}

/// Packs values two to a word; `v` has an even length.
pub fn pack_pairs(v: &[u16]) -> (r: Vec<u32>)
    requires
        v@.len() % 2 == 0,
    ensures
        r@.len() == v@.len() / 2,
        forall|i: int| 0 <= i < r@.len() ==> r@[i] == pair_word(#[trigger] v@[2 * i], v@[2 * i + 1]),
{
    let total: usize = v.len();
    let n: usize = total / 2;
    let mut r: Vec<u32> = Vec::new();
    for k in 0..n
        invariant
            total == v@.len(),
            n == total / 2,
            r@.len() == k,
            forall|i: int| 0 <= i < k ==> r@[i] == pair_word(#[trigger] v@[2 * i], v@[2 * i + 1]),
    {
        let lo: u16 = v[2 * k];
        let hi: u16 = v[2 * k + 1];
        r.push(lo as u32 + hi as u32 * 65536);
    }
    r
}

/// The two halves of each word, low half first.
pub fn unpack_pairs(w: &[u32]) -> (r: Vec<u16>)
    requires
        w@.len() <= usize::MAX / 2,
    ensures
        r@.len() == 2 * w@.len(),
        forall|i: int| 0 <= i < w@.len() ==> pair_word(#[trigger] r@[2 * i], r@[2 * i + 1]) == w@[i],
{
    let n: usize = w.len();
    let mut r: Vec<u16> = Vec::new();
    for k in 0..n
        invariant
            n == w@.len(),
            r@.len() == 2 * k,
            forall|i: int| 0 <= i < k ==> pair_word(#[trigger] r@[2 * i], r@[2 * i + 1]) == w@[i],
    {
        let x: u32 = w[k];
        r.push((x % 65536) as u16);
        r.push((x / 65536) as u16);
    }
    r
}

/// Unpacking undoes packing: the words that `pack_pairs` makes of `a` are those
/// that it makes of `b` only where the two are the same.
pub proof fn law_pairs_round_trip(a: Seq<u16>, b: Seq<u16>)
    requires
        a.len() == b.len(),
        a.len() % 2 == 0,
        forall|i: int| 0 <= i < a.len() / 2 ==> pair_word(#[trigger] a[2 * i], a[2 * i + 1]) == pair_word(b[2 * i], b[2 * i + 1]),
    ensures
        a == b,
{
    assert forall|j: int| 0 <= j < a.len() implies a[j] == b[j] by {
        let i = j / 2;
        assert(pair_word(a[2 * i], a[2 * i + 1]) == pair_word(b[2 * i], b[2 * i + 1]));
        assert(j == 2 * i || j == 2 * i + 1);
    }
    assert(a =~= b);
}

/// What is drawn in two goes is what would be drawn in one.
pub proof fn law_draws_continue(s: u64, a: nat, b: nat)
    ensures
        state64(state64(s, a), b) == state64(s, a + b),
    decreases b,
{
    if b > 0 {
        law_draws_continue(s, a, (b - 1) as nat);
    }
}

} // verus!
