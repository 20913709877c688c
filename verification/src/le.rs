//! Little-endian bytes: how dumps, checkpoints and uniforms hold numbers.
use vstd::prelude::*;

verus! {

/// Byte `k` of `x`, the least significant first.
pub open spec fn byte32(x: u32, k: int) -> u8 {
    if k == 0 {
        (x % 256) as u8
    } else if k == 1 {
        (x / 256 % 256) as u8
    } else if k == 2 {
        (x / 65536 % 256) as u8
    } else {
        (x / 16777216) as u8
    }
}

/// The 16-bit number at bytes `2 * i` and on.
pub open spec fn word16(s: Seq<u8>, i: int) -> u16 {
    (s[2 * i] + 256 * s[2 * i + 1]) as u16
}

/// The 32-bit number at bytes `4 * i` and on.
pub open spec fn word32(s: Seq<u8>, i: int) -> u32 {
    (s[4 * i] + 256 * s[4 * i + 1] + 65536 * s[4 * i + 2] + 16777216 * s[4 * i + 3]) as u32
}

/// The bytes of a list of 32-bit numbers.
pub open spec fn bytes32(v: Seq<u32>) -> Seq<u8> {
    Seq::new(v.len() * 4, |i: int| byte32(v[i / 4], i % 4))
}

/// The bytes of a list of 16-bit numbers.
pub open spec fn bytes16(v: Seq<u16>) -> Seq<u8> {
    Seq::new(
        v.len() * 2,
        |i: int|
            if i % 2 == 0 {
                (v[i / 2] % 256) as u8
            } else {
                (v[i / 2] / 256) as u8
            },
    )
}

/// The 16-bit numbers that `s` holds; an odd byte at the end is dropped.
pub open spec fn words16(s: Seq<u8>) -> Seq<u16> {
    Seq::new(s.len() / 2, |i: int| word16(s, i))
}

/// The 32-bit numbers that `s` holds; up to three bytes at the end are dropped.
pub open spec fn words32(s: Seq<u8>) -> Seq<u32> {
    Seq::new(s.len() / 4, |i: int| word32(s, i))
}

/// The bytes of `v`, four per number.
pub fn u32_bytes(v: &[u32]) -> (r: Vec<u8>)
    ensures
        r@ == bytes32(v@),
{
    let mut r: Vec<u8> = Vec::new();
    for i in 0..v.len()
        invariant
            r@ == bytes32(v@).take(4 * i),
    {
        let x: u32 = v[i];
        r.push((x % 256) as u8);
        r.push((x / 256 % 256) as u8);
        r.push((x / 65536 % 256) as u8);
        r.push((x / 16777216) as u8);
        proof {
            assert(r@ =~= bytes32(v@).take(4 * (i + 1)));
        }
    }
    proof {
        assert(bytes32(v@).take(4 * v@.len() as int) =~= bytes32(v@));
    }
    r
}

/// The bytes of `v`, two per number.
pub fn f16_bytes(v: &[u16]) -> (r: Vec<u8>)
    ensures
        r@ == bytes16(v@),
{
    let mut r: Vec<u8> = Vec::new();
    for i in 0..v.len()
        invariant
            r@ == bytes16(v@).take(2 * i),
    {
        let x: u16 = v[i];
        r.push((x % 256) as u8);
        r.push((x / 256) as u8);
        proof {
            assert(r@ =~= bytes16(v@).take(2 * (i + 1)));
        }
    }
    proof {
        assert(bytes16(v@).take(2 * v@.len() as int) =~= bytes16(v@));
    }
    r
}

/// The 16-bit number at bytes `2 * i` and on.
pub fn read_u16(s: &[u8], i: usize) -> (r: u16)
    requires
        2 * i + 1 < s@.len(),
    ensures
        r == word16(s@, i as int),
{
    let _n: usize = s.len();
    s[2 * i] as u16 + 256 * (s[2 * i + 1] as u16)
}

/// The 32-bit number at bytes `4 * i` and on.
pub fn read_u32(s: &[u8], i: usize) -> (r: u32)
    requires
        4 * i + 3 < s@.len(),
    ensures
        r == word32(s@, i as int),
{
    let _n: usize = s.len();
    s[4 * i] as u32 + 256 * (s[4 * i + 1] as u32) + 65536 * (s[4 * i + 2] as u32) + 16777216 * (s[4 * i + 3] as u32)
}

/// Decodes a dump of half-precision numbers into their bit patterns.
pub fn read_f16(s: &[u8]) -> (r: Vec<u16>)
    ensures
        r@ == words16(s@),
{
    let n: usize = s.len() / 2;
    let mut r: Vec<u16> = Vec::new();
    for i in 0..n
        invariant
            n == s@.len() / 2,
            r@ == words16(s@).take(i as int),
    {
        r.push(read_u16(s, i));
    }
    r
}

/// Decodes a dump of 32-bit numbers.
pub fn read_words(s: &[u8]) -> (r: Vec<u32>)
    ensures
        r@ == words32(s@),
{
    let n: usize = s.len() / 4;
    let mut r: Vec<u32> = Vec::new();
    for i in 0..n
        invariant
            n == s@.len() / 4,
            r@ == words32(s@).take(i as int),
    {
        r.push(read_u32(s, i));
    }
    r
}

/// Decodes a dump of signed 32-bit numbers.
pub fn read_i32(s: &[u8]) -> (r: Vec<i32>)
    ensures
        r@ == words32(s@).map_values(|w: u32| w as i32),
{
    let n: usize = s.len() / 4;
    let mut r: Vec<i32> = Vec::new();
    for i in 0..n
        invariant
            n == s@.len() / 4,
            r@ == words32(s@).map_values(|w: u32| w as i32).take(i as int),
    {
        r.push(read_u32(s, i) as i32);
    }
    r
}

/// Writing 32-bit numbers and reading them back gives the same numbers.
pub proof fn law_words32_round_trip(v: Seq<u32>)
    ensures
        words32(bytes32(v)) == v,
{
    assert forall|i: int| 0 <= i < v.len() implies #[trigger] words32(bytes32(v))[i] == v[i] by {
        let s = bytes32(v);
        let x = v[i];
        assert((4 * i) / 4 == i && (4 * i + 1) / 4 == i && (4 * i + 2) / 4 == i && (4 * i + 3) / 4 == i);
        assert(s[4 * i] == byte32(x, 0));
        assert(s[4 * i + 1] == byte32(x, 1));
        assert(s[4 * i + 2] == byte32(x, 2));
        assert(s[4 * i + 3] == byte32(x, 3));
    }
    assert(words32(bytes32(v)) =~= v);
}

/// Writing 16-bit numbers and reading them back gives the same numbers.
pub proof fn law_words16_round_trip(v: Seq<u16>)
    ensures
        words16(bytes16(v)) == v,
{
    assert forall|i: int| 0 <= i < v.len() implies #[trigger] words16(bytes16(v))[i] == v[i] by {
        let s = bytes16(v);
        assert((2 * i) / 2 == i && (2 * i + 1) / 2 == i);
        assert(s[2 * i] == (v[i] % 256) as u8);
        assert(s[2 * i + 1] == (v[i] / 256) as u8);
    }
    assert(words16(bytes16(v)) =~= v);
}

} // verus!
