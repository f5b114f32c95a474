//! Byte-order primitives: pure conversions between byte slices and
//! fixed-width integers in little- and big-endian layouts.
//!
//! These are the leaves of the codec: everything multi-byte on the wire is
//! little-endian, independent of the host byte order, and the spec functions
//! [`le_bytes`] / [`le_value`] (and their big-endian counterparts) are the
//! single mathematical definition of that layout.

use vstd::prelude::*;

verus! {

/// 256 raised to the power `n`: the number of values `n` bytes can hold.
pub open spec fn pow256(n: nat) -> nat
    decreases n,
{
    if n == 0 {
        1
    } else {
        256 * pow256((n - 1) as nat)
    }
}

/// The `n`-byte little-endian layout of `v` (least significant byte first).
/// Only the low `n` bytes of `v` are represented.
pub open spec fn le_bytes(v: nat, n: nat) -> Seq<u8>
    decreases n,
{
    if n == 0 {
        Seq::empty()
    } else {
        seq![(v % 256) as u8] + le_bytes(v / 256, (n - 1) as nat)
    }
}

/// The value of a byte sequence read as a little-endian integer.
pub open spec fn le_value(s: Seq<u8>) -> nat
    decreases s.len(),
{
    if s.len() == 0 {
        0
    } else {
        (s[0] + 256 * le_value(s.skip(1))) as nat
    }
}

/// The `n`-byte big-endian layout of `v` (most significant byte first).
pub open spec fn be_bytes(v: nat, n: nat) -> Seq<u8>
    decreases n,
{
    if n == 0 {
        Seq::empty()
    } else {
        be_bytes(v / 256, (n - 1) as nat) + seq![(v % 256) as u8]
    }
}

/// The value of a byte sequence read as a big-endian integer.
pub open spec fn be_value(s: Seq<u8>) -> nat
    decreases s.len(),
{
    if s.len() == 0 {
        0
    } else {
        (256 * be_value(s.drop_last()) + s.last()) as nat
    }
}

/// A little-endian layout always has exactly the requested width.
pub proof fn lemma_le_bytes_len(v: nat, n: nat)
    ensures
        le_bytes(v, n).len() == n,
    decreases n,
{
    if n > 0 {
        lemma_le_bytes_len(v / 256, (n - 1) as nat);
    }
}

/// A big-endian layout always has exactly the requested width.
pub proof fn lemma_be_bytes_len(v: nat, n: nat)
    ensures
        be_bytes(v, n).len() == n,
    decreases n,
{
    if n > 0 {
        lemma_be_bytes_len(v / 256, (n - 1) as nat);
    }
}

/// An `n`-byte sequence holds a value below `pow256(n)`.
pub proof fn lemma_le_value_bound(s: Seq<u8>)
    ensures
        le_value(s) < pow256(s.len()),
    decreases s.len(),
{
    if s.len() > 0 {
        lemma_le_value_bound(s.skip(1));
    }
}

/// Reading back the little-endian layout of `v < pow256(n)` yields `v`:
/// the two spec functions are mutually inverse on in-range values.
pub proof fn lemma_le_value_of_le_bytes(v: nat, n: nat)
    requires
        v < pow256(n),
    ensures
        le_value(le_bytes(v, n)) == v,
    decreases n,
{
    if n > 0 {
        lemma_le_bytes_len(v / 256, (n - 1) as nat);
        assert(le_bytes(v, n).skip(1) =~= le_bytes(v / 256, (n - 1) as nat));
        lemma_le_value_of_le_bytes(v / 256, (n - 1) as nat);
    }
}

/// Laying out the value of an `n`-byte sequence reproduces the sequence:
/// the inverse direction of [`lemma_le_value_of_le_bytes`].
pub proof fn lemma_le_bytes_of_le_value(s: Seq<u8>)
    ensures
        le_bytes(le_value(s), s.len()) == s,
    decreases s.len(),
{
    if s.len() > 0 {
        lemma_le_bytes_of_le_value(s.skip(1));
        assert(le_bytes(le_value(s), s.len()) =~= s);
    }
}

/// An `n`-byte big-endian sequence holds a value below `pow256(n)`.
pub proof fn lemma_be_value_bound(s: Seq<u8>)
    ensures
        be_value(s) < pow256(s.len()),
    decreases s.len(),
{
    if s.len() > 0 {
        lemma_be_value_bound(s.drop_last());
    }
}

/// Reading back the big-endian layout of `v < pow256(n)` yields `v`.
pub proof fn lemma_be_value_of_be_bytes(v: nat, n: nat)
    requires
        v < pow256(n),
    ensures
        be_value(be_bytes(v, n)) == v,
    decreases n,
{
    if n > 0 {
        lemma_be_bytes_len(v / 256, (n - 1) as nat);
        assert(be_bytes(v, n).drop_last() =~= be_bytes(v / 256, (n - 1) as nat));
        assert(be_bytes(v, n).last() == (v % 256) as u8);
        lemma_be_value_of_be_bytes(v / 256, (n - 1) as nat);
    }
}

/// Read up to eight bytes of `s` as a little-endian integer.
fn read_le(s: &[u8]) -> (r: u64)
    requires
        s@.len() <= 8,
    ensures
        r == le_value(s@),
{
    let len = s.len();
    let mut r: u64 = 0;
    let mut i: usize = len;
    proof {
        assert(s@.skip(len as int) =~= Seq::<u8>::empty());
    }
    while i > 0
        invariant
            i <= len <= 8,
            len == s@.len(),
            r == le_value(s@.skip(i as int)),
        decreases i,
    {
        i = i - 1;
        let b = s[i];
        proof {
            lemma_le_value_bound(s@.skip(i as int + 1));
            lemma_pow256_monotone((len - i - 1) as nat, 7);
            lemma_pow256_values();
            assert(s@.skip(i as int)[0] == s@[i as int]);
            assert(s@.skip(i as int).skip(1) =~= s@.skip(i as int + 1));
        }
        r = (b as u64) + 256 * r;
    }
    proof {
        assert(s@.skip(0) =~= s@);
    }
    r
}

/// The concrete values of `pow256` for the widths the codec uses.
pub proof fn lemma_pow256_values()
    ensures
        pow256(0) == 1,
        pow256(1) == 0x100,
        pow256(2) == 0x10000,
        pow256(3) == 0x1000000,
        pow256(4) == 0x100000000,
        pow256(5) == 0x10000000000,
        pow256(6) == 0x1000000000000,
        pow256(7) == 0x100000000000000,
        pow256(8) == 0x10000000000000000,
{
    reveal_with_fuel(pow256, 9);
}

/// `pow256` grows with its argument.
proof fn lemma_pow256_monotone(a: nat, b: nat)
    requires
        a <= b,
    ensures
        pow256(a) <= pow256(b),
    decreases b,
{
    if a < b && b > 0 {
        lemma_pow256_monotone(a, (b - 1) as nat);
    }
}

/// Write the low `n` bytes of `v` in little-endian order.
fn write_le(v: u64, n: usize) -> (r: Vec<u8>)
    requires
        n <= 8,
    ensures
        r@ == le_bytes(v as nat, n as nat),
{
    let mut r: Vec<u8> = Vec::new();
    let mut cur: u64 = v;
    let mut i: usize = 0;
    while i < n
        invariant
            i <= n <= 8,
            r@.len() == i,
            le_bytes(v as nat, n as nat) == r@ + le_bytes(cur as nat, (n - i) as nat),
        decreases n - i,
    {
        let b: u8 = (cur % 256) as u8;
        proof {
            assert(le_bytes(cur as nat, (n - i) as nat) == seq![(cur as nat % 256) as u8]
                + le_bytes(cur as nat / 256, (n - i - 1) as nat));
            assert(r@ + le_bytes(cur as nat, (n - i) as nat) =~= r@.push(b) + le_bytes(
                cur as nat / 256,
                (n - i - 1) as nat,
            ));
        }
        r.push(b);
        cur = cur / 256;
        i = i + 1;
    }
    proof {
        assert(le_bytes(cur as nat, 0) =~= Seq::<u8>::empty());
        assert(r@ + le_bytes(cur as nat, 0) =~= r@);
    }
    r
}

/// Read two bytes as a little-endian `u16`.
pub fn slice_to_u16_le(slice: &[u8]) -> (r: u16)
    requires
        slice@.len() == 2,
    ensures
        r == le_value(slice@),
{
    let v = read_le(slice);
    proof {
        lemma_le_value_bound(slice@);
        lemma_pow256_values();
    }
    v as u16
}

/// Read four bytes as a little-endian `u32`.
pub fn slice_to_u32_le(slice: &[u8]) -> (r: u32)
    requires
        slice@.len() == 4,
    ensures
        r == le_value(slice@),
{
    let v = read_le(slice);
    proof {
        lemma_le_value_bound(slice@);
        lemma_pow256_values();
    }
    v as u32
}

/// Read eight bytes as a little-endian `u64`.
pub fn slice_to_u64_le(slice: &[u8]) -> (r: u64)
    requires
        slice@.len() == 8,
    ensures
        r == le_value(slice@),
{
    read_le(slice)
}

/// Read four bytes as a big-endian `u32`.
pub fn slice_to_u32_be(slice: &[u8]) -> (r: u32)
    requires
        slice@.len() == 4,
    ensures
        r == be_value(slice@),
{
    let mut r: u32 = 0;
    let mut i: usize = 0;
    proof {
        assert(slice@.take(0) =~= Seq::<u8>::empty());
    }
    while i < 4
        invariant
            i <= 4,
            slice@.len() == 4,
            r == be_value(slice@.take(i as int)),
            r < pow256(i as nat),
        decreases 4 - i,
    {
        let b = slice[i];
        proof {
            lemma_pow256_values();
            assert(slice@.take(i as int + 1).drop_last() =~= slice@.take(i as int));
            assert(slice@.take(i as int + 1).last() == slice@[i as int]);
        }
        r = 256 * r + (b as u32);
        i = i + 1;
    }
    proof {
        assert(slice@.take(4) =~= slice@);
    }
    r
}

/// Write a `u16` as two little-endian bytes.
pub fn u16_to_array_le(val: u16) -> (r: [u8; 2])
    ensures
        r@ == le_bytes(val as nat, 2),
{
    let v = write_le(val as u64, 2);
    proof {
        lemma_le_bytes_len(val as nat, 2);
    }
    let r: [u8; 2] = [*vstd::slice::slice_index_get(v.as_slice(), 0), *vstd::slice::slice_index_get(
        v.as_slice(),
        1,
    )];
    proof {
        assert(r@ =~= v@);
    }
    r
}

/// Write a `u32` as four little-endian bytes.
pub fn u32_to_array_le(val: u32) -> (r: [u8; 4])
    ensures
        r@ == le_bytes(val as nat, 4),
{
    let v = write_le(val as u64, 4);
    proof {
        lemma_le_bytes_len(val as nat, 4);
    }
    let s = v.as_slice();
    let r: [u8; 4] = [
        *vstd::slice::slice_index_get(s, 0),
        *vstd::slice::slice_index_get(s, 1),
        *vstd::slice::slice_index_get(s, 2),
        *vstd::slice::slice_index_get(s, 3),
    ];
    proof {
        assert(r@ =~= v@);
    }
    r
}

/// Write a `u64` as eight little-endian bytes.
pub fn u64_to_array_le(val: u64) -> (r: [u8; 8])
    ensures
        r@ == le_bytes(val as nat, 8),
{
    let v = write_le(val, 8);
    proof {
        lemma_le_bytes_len(val as nat, 8);
    }
    let s = v.as_slice();
    let r: [u8; 8] = [
        *vstd::slice::slice_index_get(s, 0),
        *vstd::slice::slice_index_get(s, 1),
        *vstd::slice::slice_index_get(s, 2),
        *vstd::slice::slice_index_get(s, 3),
        *vstd::slice::slice_index_get(s, 4),
        *vstd::slice::slice_index_get(s, 5),
        *vstd::slice::slice_index_get(s, 6),
        *vstd::slice::slice_index_get(s, 7),
    ];
    proof {
        assert(r@ =~= v@);
    }
    r
}

/// Write a `u32` as four big-endian bytes.
pub fn u32_to_array_be(val: u32) -> (r: [u8; 4])
    ensures
        r@ == be_bytes(val as nat, 4),
{
    let b3: u8 = (val % 256) as u8;
    let v1: u32 = val / 256;
    let b2: u8 = (v1 % 256) as u8;
    let v2: u32 = v1 / 256;
    let b1: u8 = (v2 % 256) as u8;
    let v3: u32 = v2 / 256;
    let b0: u8 = (v3 % 256) as u8;
    let r: [u8; 4] = [b0, b1, b2, b3];
    proof {
        reveal_with_fuel(be_bytes, 5);
        assert(r@ =~= be_bytes(val as nat, 4));
    }
    r
}

} // verus!
