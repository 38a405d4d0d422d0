//! Positional byte codec: the mathematical model of little- and big-endian
//! byte strings, and verified executable conversions between unsigned
//! integers and byte vectors.
//!
//! A byte string is read as a base-256 numeral.  In the little-endian
//! reading the first byte is the least significant digit; in the big-endian
//! reading it is the most significant one.

use vstd::prelude::*;

verus! {

/// 256 raised to the n-th power: the weight of the n-th byte position.
pub open spec fn pow256(n: nat) -> int
    decreases n,
{
    if n == 0 {
        1
    } else {
        256 * pow256((n - 1) as nat)
    }
}

/// The value of a byte string read as a little-endian numeral:
/// the first byte is the least significant digit.
pub open spec fn le_value(s: Seq<u8>) -> int
    decreases s.len(),
{
    if s.len() == 0 {
        0
    } else {
        s[0] + 256 * le_value(s.drop_first())
    }
}

/// The value of a byte string read as a big-endian numeral:
/// the last byte is the least significant digit.
pub open spec fn be_value(s: Seq<u8>) -> int
    decreases s.len(),
{
    if s.len() == 0 {
        0
    } else {
        256 * be_value(s.drop_last()) + s.last()
    }
}

/// The n low-order base-256 digits of v, least significant first.
pub open spec fn le_bytes_of(v: int, n: nat) -> Seq<u8>
    decreases n,
{
    if n == 0 {
        Seq::empty()
    } else {
        seq![(v % 256) as u8] + le_bytes_of(v / 256, (n - 1) as nat)
    }
}

/// The n low-order base-256 digits of v, most significant first.
pub open spec fn be_bytes_of(v: int, n: nat) -> Seq<u8>
    decreases n,
{
    if n == 0 {
        Seq::empty()
    } else {
        be_bytes_of(v / 256, (n - 1) as nat) + seq![(v % 256) as u8]
    }
}

pub proof fn lemma_pow256_pos(n: nat)
    ensures
        pow256(n) >= 1,
    decreases n,
{
    if n > 0 {
        lemma_pow256_pos((n - 1) as nat);
    }
}

pub proof fn lemma_pow256_increases(a: nat, b: nat)
    requires
        a <= b,
    ensures
        pow256(a) <= pow256(b),
    decreases b,
{
    if a < b {
        lemma_pow256_increases(a, (b - 1) as nat);
        lemma_pow256_pos((b - 1) as nat);
    }
}

/// The powers of 256 that the fixed-width conversions rely on.
pub proof fn lemma_pow256_values()
    ensures
        pow256(0) == 1,
        pow256(1) == 0x100,
        pow256(2) == 0x1_0000,
        pow256(4) == 0x1_0000_0000,
        pow256(7) == 0x100_0000_0000_0000,
        pow256(8) == 0x1_0000_0000_0000_0000,
{
    assert(pow256(0) == 1);
    assert(pow256(1) == 0x100);
    assert(pow256(2) == 0x1_0000);
    assert(pow256(3) == 0x100_0000);
    assert(pow256(4) == 0x1_0000_0000);
    assert(pow256(5) == 0x100_0000_0000);
    assert(pow256(6) == 0x1_0000_0000_0000);
    assert(pow256(7) == 0x100_0000_0000_0000);
    assert(pow256(8) == 0x1_0000_0000_0000_0000);
}

pub proof fn lemma_le_bytes_of_len(v: int, n: nat)
    ensures
        le_bytes_of(v, n).len() == n,
    decreases n,
{
    if n > 0 {
        lemma_le_bytes_of_len(v / 256, (n - 1) as nat);
    }
}

pub proof fn lemma_be_bytes_of_len(v: int, n: nat)
    ensures
        be_bytes_of(v, n).len() == n,
    decreases n,
{
    if n > 0 {
        lemma_be_bytes_of_len(v / 256, (n - 1) as nat);
    }
}

/// A little-endian numeral of n digits denotes a value below 256^n.
pub proof fn lemma_le_value_bound(s: Seq<u8>)
    ensures
        0 <= le_value(s) < pow256(s.len()),
    decreases s.len(),
{
    if s.len() > 0 {
        lemma_le_value_bound(s.drop_first());
    }
}

/// A big-endian numeral of n digits denotes a value below 256^n.
pub proof fn lemma_be_value_bound(s: Seq<u8>)
    ensures
        0 <= be_value(s) < pow256(s.len()),
    decreases s.len(),
{
    if s.len() > 0 {
        lemma_be_value_bound(s.drop_last());
    }
}

/// Round trip: reading back the little-endian digits of a representable
/// value yields that value.
pub proof fn lemma_le_round_trip(v: int, n: nat)
    requires
        0 <= v < pow256(n),
    ensures
        le_value(le_bytes_of(v, n)) == v,
    decreases n,
{
    if n > 0 {
        let s = le_bytes_of(v, n);
        lemma_le_bytes_of_len(v / 256, (n - 1) as nat);
        assert(s.drop_first() =~= le_bytes_of(v / 256, (n - 1) as nat));
        assert(v / 256 < pow256((n - 1) as nat)) by {
            lemma_pow256_pos((n - 1) as nat);
        }
        lemma_le_round_trip(v / 256, (n - 1) as nat);
    }
}

/// Round trip: reading back the big-endian digits of a representable
/// value yields that value.
pub proof fn lemma_be_round_trip(v: int, n: nat)
    requires
        0 <= v < pow256(n),
    ensures
        be_value(be_bytes_of(v, n)) == v,
    decreases n,
{
    if n > 0 {
        let s = be_bytes_of(v, n);
        lemma_be_bytes_of_len(v / 256, (n - 1) as nat);
        assert(s.drop_last() =~= be_bytes_of(v / 256, (n - 1) as nat));
        assert(s.last() == (v % 256) as u8);
        assert(v / 256 < pow256((n - 1) as nat)) by {
            lemma_pow256_pos((n - 1) as nat);
        }
        lemma_be_round_trip(v / 256, (n - 1) as nat);
    }
}

/// The big-endian digit string of a value is the little-endian one mirrored.
pub proof fn lemma_be_le_mirror(v: int, n: nat)
    ensures
        forall|j: int| 0 <= j < n ==> be_bytes_of(v, n)[j] == le_bytes_of(v, n)[n - 1 - j],
    decreases n,
{
    if n > 0 {
        lemma_be_le_mirror(v / 256, (n - 1) as nat);
        lemma_be_bytes_of_len(v / 256, (n - 1) as nat);
        lemma_le_bytes_of_len(v / 256, (n - 1) as nat);
        assert forall|j: int| 0 <= j < n implies be_bytes_of(v, n)[j] == le_bytes_of(v, n)[n - 1
            - j] by {
            if j < n - 1 {
                assert(be_bytes_of(v, n)[j] == be_bytes_of(v / 256, (n - 1) as nat)[j]);
                assert(le_bytes_of(v, n)[n - 1 - j] == le_bytes_of(v / 256, (n - 1) as nat)[n - 2
                    - j]);
            } else {
                assert(be_bytes_of(v, n)[j] == (v % 256) as u8);
                assert(le_bytes_of(v, n)[0] == (v % 256) as u8);
            }
        }
    }
}

/// Peeling the first digit off a little-endian numeral.
pub proof fn lemma_le_value_step(s: Seq<u8>, i: int)
    requires
        0 <= i < s.len(),
    ensures
        le_value(s.subrange(i, s.len() as int)) == s[i] + 256 * le_value(
            s.subrange(i + 1, s.len() as int),
        ),
{
    let t = s.subrange(i, s.len() as int);
    assert(t.drop_first() =~= s.subrange(i + 1, s.len() as int));
    assert(t[0] == s[i]);
}

/// Appending one digit to a big-endian numeral.
pub proof fn lemma_be_value_step(s: Seq<u8>, i: int)
    requires
        0 <= i < s.len(),
    ensures
        be_value(s.subrange(0, i + 1)) == 256 * be_value(s.subrange(0, i)) + s[i],
{
    let t = s.subrange(0, i + 1);
    assert(t.drop_last() =~= s.subrange(0, i));
    assert(t.last() == s[i]);
}

/// Reads a little-endian value from at most eight bytes.
pub fn le_decode(bytes: &[u8]) -> (r: u64)
    requires
        bytes@.len() <= 8,
    ensures
        r == le_value(bytes@),
{
    let n: usize = bytes.len();
    let mut acc: u64 = 0;
    let mut i: usize = n;
    proof {
        assert(bytes@.subrange(n as int, n as int) =~= Seq::<u8>::empty());
    }
    while i > 0
        invariant
            0 <= i <= n,
            n == bytes@.len(),
            n <= 8,
            acc == le_value(bytes@.subrange(i as int, n as int)),
            acc < pow256((n - i) as nat),
        decreases i,
    {
        i = i - 1;
        let b = bytes[i];
        proof {
            lemma_le_value_step(bytes@, i as int);
            lemma_pow256_increases((n - i - 1) as nat, 7);
            lemma_pow256_values();
            lemma_le_value_bound(bytes@.subrange(i as int, n as int));
        }
        acc = acc * 256 + (b as u64);
    }
    proof {
        assert(bytes@.subrange(0, n as int) =~= bytes@);
    }
    acc
}

/// Reads a big-endian value from at most eight bytes.
pub fn be_decode(bytes: &[u8]) -> (r: u64)
    requires
        bytes@.len() <= 8,
    ensures
        r == be_value(bytes@),
{
    let n: usize = bytes.len();
    let mut acc: u64 = 0;
    let mut i: usize = 0;
    proof {
        assert(bytes@.subrange(0, 0) =~= Seq::<u8>::empty());
    }
    while i < n
        invariant
            0 <= i <= n,
            n == bytes@.len(),
            n <= 8,
            acc == be_value(bytes@.subrange(0, i as int)),
            acc < pow256(i as nat),
        decreases n - i,
    {
        let b = bytes[i];
        proof {
            lemma_be_value_step(bytes@, i as int);
            lemma_pow256_increases(i as nat, 7);
            lemma_pow256_values();
            lemma_be_value_bound(bytes@.subrange(0, i as int + 1));
        }
        acc = acc * 256 + (b as u64);
        i = i + 1;
    }
    proof {
        assert(bytes@.subrange(0, n as int) =~= bytes@);
    }
    acc
}

/// Writes the n low-order little-endian bytes of a representable value.
pub fn le_encode(v: u64, n: usize) -> (r: Vec<u8>)
    requires
        n <= 8,
        v < pow256(n as nat),
    ensures
        r@ == le_bytes_of(v as int, n as nat),
        r@.len() == n,
{
    let mut r: Vec<u8> = Vec::new();
    let mut x = v;
    let mut i: usize = 0;
    proof {
        assert(Seq::<u8>::empty() + le_bytes_of(v as int, n as nat) =~= le_bytes_of(
            v as int,
            n as nat,
        ));
    }
    while i < n
        invariant
            0 <= i <= n,
            x < pow256((n - i) as nat),
            le_bytes_of(v as int, n as nat) == r@ + le_bytes_of(x as int, (n - i) as nat),
            r@.len() == i,
        decreases n - i,
    {
        let b = (x % 256) as u8;
        proof {
            lemma_pow256_pos((n - i - 1) as nat);
            assert(r@ + le_bytes_of(x as int, (n - i) as nat) =~= (r@ + seq![
                (x as int % 256) as u8,
            ]) + le_bytes_of(x as int / 256, (n - i - 1) as nat));
        }
        r.push(b);
        x = x / 256;
        i = i + 1;
    }
    proof {
        assert(r@ + le_bytes_of(x as int, 0) =~= r@);
    }
    r
}

/// Writes the n low-order big-endian bytes of a representable value.
pub fn be_encode(v: u64, n: usize) -> (r: Vec<u8>)
    requires
        n <= 8,
        v < pow256(n as nat),
    ensures
        r@ == be_bytes_of(v as int, n as nat),
        r@.len() == n,
{
    let le = le_encode(v, n);
    let mut r: Vec<u8> = Vec::new();
    let mut i: usize = 0;
    proof {
        lemma_le_bytes_of_len(v as int, n as nat);
        lemma_be_bytes_of_len(v as int, n as nat);
        lemma_be_le_mirror(v as int, n as nat);
    }
    while i < n
        invariant
            0 <= i <= n,
            n == le@.len(),
            le@ == le_bytes_of(v as int, n as nat),
            r@.len() == i,
            be_bytes_of(v as int, n as nat).len() == n,
            forall|j: int|
                0 <= j < n ==> be_bytes_of(v as int, n as nat)[j] == le_bytes_of(v as int, n as nat)[n - 1
                    - j],
            forall|j: int| 0 <= j < i ==> r@[j] == be_bytes_of(v as int, n as nat)[j],
        decreases n - i,
    {
        r.push(le[n - 1 - i]);
        i = i + 1;
    }
    proof {
        assert(r@ =~= be_bytes_of(v as int, n as nat));
    }
    r
}

} // verus!
