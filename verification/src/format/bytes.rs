//! Numbers as bytes.
use vstd::prelude::*;

verus! {

/// 256 to the power `n`.
pub open spec fn pow256(n: int) -> int
    decreases n,
{
    if n <= 0 {
        1
    } else {
        256 * pow256(n - 1)
    }
}

/// The number that bytes make up, the lowest first.
pub open spec fn le_value(s: Seq<u8>) -> int
    decreases s.len(),
{
    if s.len() == 0 {
        0
    } else {
        s[0] + 256 * le_value(s.skip(1))
    }
}

/// The number that bytes make up, the highest first.
pub open spec fn be_value(s: Seq<u8>) -> int
    decreases s.len(),
{
    if s.len() == 0 {
        0
    } else {
        256 * be_value(s.drop_last()) + s.last()
    }
}

/// The `n` bytes of a number, the lowest first.
pub open spec fn le_bytes(v: int, n: nat) -> Seq<u8>
    decreases n,
{
    if n == 0 {
        Seq::empty()
    } else {
        seq![(v % 256) as u8] + le_bytes(v / 256, (n - 1) as nat)
    }
}

/// The `n` bytes of a number, the highest first.
pub open spec fn be_bytes(v: int, n: nat) -> Seq<u8>
    decreases n,
{
    if n == 0 {
        Seq::empty()
    } else {
        be_bytes(v / 256, (n - 1) as nat).push((v % 256) as u8)
    }
}

/// Bytes make up a number that they can hold.
pub proof fn lemma_value_bounds(s: Seq<u8>)
    ensures
        0 <= le_value(s) < pow256(s.len() as int),
        0 <= be_value(s) < pow256(s.len() as int),
    decreases s.len(),
{
    if s.len() > 0 {
        lemma_value_bounds(s.skip(1));
        lemma_value_bounds(s.drop_last());
    }
}

/// The first powers of 256.
pub proof fn lemma_pow256()
    ensures
        pow256(0) == 1,
        pow256(1) == 0x100,
        pow256(2) == 0x1_0000,
        pow256(4) == 0x1_0000_0000,
        pow256(8) == 0x1_0000_0000_0000_0000,
{
    reveal_with_fuel(pow256, 9);
}

proof fn lemma_pow256_grows(a: int, b: int)
    requires
        0 <= a <= b,
    ensures
        1 <= pow256(a) <= pow256(b),
    decreases b,
{
    if a < b {
        lemma_pow256_grows(a, b - 1);
    } else if a > 0 {
        lemma_pow256_grows(a - 1, b - 1);
    }
}

/// The bytes of a number make up the number again, in either order.
pub proof fn law_bytes_give_back_number(v: int, n: nat)
    requires
        0 <= v < pow256(n as int),
    ensures
        le_bytes(v, n).len() == n,
        be_bytes(v, n).len() == n,
        le_value(le_bytes(v, n)) == v,
        be_value(be_bytes(v, n)) == v,
    decreases n,
{
    if n > 0 {
        law_bytes_give_back_number(v / 256, (n - 1) as nat);
        let a = le_bytes(v, n);
        let b = be_bytes(v, n);
        assert(a.skip(1) =~= le_bytes(v / 256, (n - 1) as nat));
        assert(b.drop_last() =~= be_bytes(v / 256, (n - 1) as nat));
    }
}

/// The number that up to eight bytes make up, the lowest first.
pub fn le_number(s: &[u8]) -> (r: u64)
    requires
        s@.len() <= 8,
    ensures
        r == le_value(s@),
        r < pow256(s@.len() as int),
{
    let mut r: u64 = 0;
    let mut i: usize = s.len();
    assert(s@.skip(s@.len() as int) =~= Seq::<u8>::empty());
    while i > 0
        invariant
            i <= s@.len() <= 8,
            r == le_value(s@.skip(i as int)),
        decreases i,
    {
        i -= 1;
        proof {
            assert(s@.skip(i as int).skip(1) =~= s@.skip(i + 1));
            lemma_value_bounds(s@.skip(i + 1));
            lemma_pow256_grows(s@.len() - i - 1, 7);
            assert(pow256(7) == 0x100_0000_0000_0000) by {
                reveal_with_fuel(pow256, 8);
            }
        }
        r = r * 256 + s[i] as u64;
    }
    proof {
        assert(s@.skip(0) =~= s@);
        lemma_value_bounds(s@);
    }
    r
}

/// The number that up to eight bytes make up, the highest first.
pub fn be_number(s: &[u8]) -> (r: u64)
    requires
        s@.len() <= 8,
    ensures
        r == be_value(s@),
        r < pow256(s@.len() as int),
{
    let mut r: u64 = 0;
    let mut i: usize = 0;
    assert(s@.take(0) =~= Seq::<u8>::empty());
    while i < s.len()
        invariant
            i <= s@.len() <= 8,
            r == be_value(s@.take(i as int)),
        decreases s@.len() - i,
    {
        proof {
            assert(s@.take(i + 1).drop_last() =~= s@.take(i as int));
            lemma_value_bounds(s@.take(i as int));
            lemma_pow256_grows(i as int, 7);
            assert(pow256(7) == 0x100_0000_0000_0000) by {
                reveal_with_fuel(pow256, 8);
            }
        }
        r = r * 256 + s[i] as u64;
        i += 1;
    }
    proof {
        assert(s@.take(i as int) =~= s@);
        lemma_value_bounds(s@);
    }
    r
}

/// The bytes of a number, the lowest first.
pub fn to_le(v: u64, n: usize) -> (r: Vec<u8>)
    ensures
        r@ == le_bytes(v as int, n as nat),
{
    let mut r: Vec<u8> = Vec::new();
    let mut left: u64 = v;
    let mut i: usize = 0;
    assert(r@ + le_bytes(v as int, n as nat) =~= le_bytes(v as int, n as nat));
    while i < n
        invariant
            i <= n,
            r@ + le_bytes(left as int, (n - i) as nat) == le_bytes(v as int, n as nat),
        decreases n - i,
    {
        let b = (left % 256) as u8;
        proof {
            let rest = le_bytes(left as int / 256, (n - i - 1) as nat);
            assert(r@ + (seq![b] + rest) =~= r@.push(b) + rest);
        }
        r.push(b);
        left = left / 256;
        i += 1;
    }
    assert(r@ + Seq::<u8>::empty() =~= r@);
    r
}

/// The bytes of a number, the highest first.
pub fn to_be(v: u64, n: usize) -> (r: Vec<u8>)
    ensures
        r@ == be_bytes(v as int, n as nat),
    decreases n,
{
    if n == 0 {
        Vec::new()
    } else {
        let mut r = to_be(v / 256, n - 1);
        r.push((v % 256) as u8);
        r
    }
}

} // verus!
