//! Byte-level primitives shared by the codec, the hasher and the proof
//! checker: byte-vector equality and the big-endian encoding of `u64`.

use vstd::prelude::*;

verus! {

/// The views of a sequence of byte vectors.
pub open spec fn views_of(vectors: Seq<Vec<u8>>) -> Seq<Seq<u8>> {
    Seq::new(vectors.len(), |i: int| vectors[i]@)
}

/// The value of a byte sequence read as a big-endian unsigned integer.
pub open spec fn be_val(s: Seq<u8>) -> nat
    decreases s.len(),
{
    if s.len() == 0 {
        0
    } else {
        (be_val(s.drop_last()) * 256 + s.last()) as nat
    }
}

/// `256^n`, the number of byte sequences of length `n`.
pub open spec fn pow256(n: nat) -> nat
    decreases n,
{
    if n == 0 {
        1
    } else {
        256 * pow256((n - 1) as nat)
    }
}

/// The eight big-endian bytes of a `u64`.
pub open spec fn u64_be_spec(x: u64) -> Seq<u8> {
    Seq::new(8, |i: int| ((x >> (((7 - i) * 8) as u64)) & 0xff) as u8)
}

/// The 32-byte big-endian word of a `u64`: twenty-four zero bytes, then its
/// eight big-endian bytes.
pub open spec fn u64_word32_spec(x: u64) -> Seq<u8> {
    Seq::new(24, |i: int| 0u8) + u64_be_spec(x)
}

/// Builds the 32-byte big-endian word of `x`.
pub fn u64_to_word32(x: u64) -> (r: Vec<u8>)
    ensures
        r@ == u64_word32_spec(x),
        r@.len() == 32,
{
    let mut r = zero_bytes(24);
    let tail = u64_to_be(x);
    extend_bytes(&mut r, &tail);
    assert(r@ =~= u64_word32_spec(x));
    r
}

/// A big-endian reading is always below `256^len`.
pub proof fn lemma_be_val_bound(s: Seq<u8>)
    ensures
        be_val(s) < pow256(s.len()),
    decreases s.len(),
{
    if s.len() > 0 {
        lemma_be_val_bound(s.drop_last());
    }
}

/// Big-endian encoding and decoding of a `u64` are mutually inverse.
pub proof fn lemma_u64_be_round_trip(x: u64)
    ensures
        be_val(u64_be_spec(x)) == x,
{
    let s = u64_be_spec(x);
    let b0 = s[0];
    let b1 = s[1];
    let b2 = s[2];
    let b3 = s[3];
    let b4 = s[4];
    let b5 = s[5];
    let b6 = s[6];
    let b7 = s[7];
    let s1 = seq![b0];
    let s2 = seq![b0, b1];
    let s3 = seq![b0, b1, b2];
    let s4 = seq![b0, b1, b2, b3];
    let s5 = seq![b0, b1, b2, b3, b4];
    let s6 = seq![b0, b1, b2, b3, b4, b5];
    let s7 = seq![b0, b1, b2, b3, b4, b5, b6];
    let v1: int = b0 * 256 + b1;
    let v2: int = v1 * 256 + b2;
    let v3: int = v2 * 256 + b3;
    let v4: int = v3 * 256 + b4;
    let v5: int = v4 * 256 + b5;
    let v6: int = v5 * 256 + b6;
    let v7: int = v6 * 256 + b7;
    assert(s1.drop_last() =~= Seq::<u8>::empty());
    assert(be_val(Seq::<u8>::empty()) == 0);
    assert(be_val(s1) == b0);
    assert(s2.drop_last() =~= s1);
    assert(be_val(s2) == v1);
    assert(s3.drop_last() =~= s2);
    assert(be_val(s3) == v2);
    assert(s4.drop_last() =~= s3);
    assert(be_val(s4) == v3);
    assert(s5.drop_last() =~= s4);
    assert(be_val(s5) == v4);
    assert(s6.drop_last() =~= s5);
    assert(be_val(s6) == v5);
    assert(s7.drop_last() =~= s6);
    assert(be_val(s7) == v6);
    assert(s.drop_last() =~= s7);
    assert(s.last() == b7);
    assert(be_val(s) == v7);
    assert(b0 == ((x >> 56u64) & 0xff) as u8);
    assert(b1 == ((x >> 48u64) & 0xff) as u8);
    assert(b2 == ((x >> 40u64) & 0xff) as u8);
    assert(b3 == ((x >> 32u64) & 0xff) as u8);
    assert(b4 == ((x >> 24u64) & 0xff) as u8);
    assert(b5 == ((x >> 16u64) & 0xff) as u8);
    assert(b6 == ((x >> 8u64) & 0xff) as u8);
    assert(b7 == ((x >> 0u64) & 0xff) as u8);
    lemma_u64_be_sum(x, b0, b1, b2, b3, b4, b5, b6, b7);
}

/// The big-endian bytes of `x`, accumulated most significant first, give `x`.
proof fn lemma_u64_be_sum(x: u64, b0: u8, b1: u8, b2: u8, b3: u8, b4: u8, b5: u8, b6: u8, b7: u8)
    by (bit_vector)
    requires
        b0 == ((x >> 56u64) & 0xff) as u8,
        b1 == ((x >> 48u64) & 0xff) as u8,
        b2 == ((x >> 40u64) & 0xff) as u8,
        b3 == ((x >> 32u64) & 0xff) as u8,
        b4 == ((x >> 24u64) & 0xff) as u8,
        b5 == ((x >> 16u64) & 0xff) as u8,
        b6 == ((x >> 8u64) & 0xff) as u8,
        b7 == ((x >> 0u64) & 0xff) as u8,
    ensures
        b0 * 0x100000000000000 + b1 * 0x1000000000000 + b2 * 0x10000000000 + b3 * 0x100000000 + b4
            * 0x1000000 + b5 * 0x10000 + b6 * 0x100 + b7 == x,
{
}

/// True byte-for-byte equality of two byte vectors.
pub fn bytes_eq(a: &Vec<u8>, b: &Vec<u8>) -> (r: bool)
    ensures
        r == (a@ == b@),
{
    if a.len() != b.len() {
        assert(a@ != b@);
        return false;
    }
    let n = a.len();
    let mut i: usize = 0;
    while i < n
        invariant
            i <= n,
            n == a@.len(),
            n == b@.len(),
            forall|j: int| 0 <= j < i ==> a@[j] == b@[j],
        decreases n - i,
    {
        if a[i] != b[i] {
            return false;
        }
        i = i + 1;
    }
    assert(a@ =~= b@);
    true
}

/// The eight big-endian bytes of `x`, most significant first.
pub fn u64_to_be(x: u64) -> (r: Vec<u8>)
    ensures
        r@ == u64_be_spec(x),
        r@.len() == 8,
{
    let mut r: Vec<u8> = Vec::new();
    let mut i: usize = 0;
    while i < 8
        invariant
            i <= 8,
            r@.len() == i,
            forall|j: int| 0 <= j < i ==> r@[j] == u64_be_spec(x)[j],
        decreases 8 - i,
    {
        let sh: u64 = (7 - i as u64) * 8;
        let byte: u8 = ((x >> sh) & 0xff) as u8;
        r.push(byte);
        i = i + 1;
    }
    assert(r@ =~= u64_be_spec(x));
    r
}

/// Reads eight bytes of `v`, starting at `start`, as a big-endian `u64`.
pub fn u64_from_be(v: &Vec<u8>, start: usize) -> (r: u64)
    requires
        start + 8 <= v@.len(),
    ensures
        r == be_val(v@.subrange(start as int, start + 8)),
{
    let len = v.len();
    let mut val: u64 = 0;
    let mut i: usize = 0;
    while i < 8
        invariant
            i <= 8,
            len == v@.len(),
            start + 8 <= len,
            val == be_val(v@.subrange(start as int, start + i)),
            val < pow256(i as nat),
        decreases 8 - i,
    {
        proof {
            lemma_pow256_values();
            lemma_pow256_monotonic(i as nat, 7);
            assert(v@.subrange(start as int, start + i + 1).drop_last() =~= v@.subrange(
                start as int,
                start + i,
            ));
            assert(v@.subrange(start as int, start + i + 1).last() == v@[start + i]);
        }
        val = val * 256 + (v[start + i] as u64);
        i = i + 1;
    }
    assert(v@.subrange(start as int, start + 8) =~= v@.subrange(start as int, start + i));
    val
}

/// Reads up to eight bytes of `v`, starting at `start`, as a big-endian
/// unsigned value.
pub fn be_val_of(v: &Vec<u8>, start: usize, len: usize) -> (r: u64)
    requires
        start + len <= v@.len(),
        len <= 8,
    ensures
        r == be_val(v@.subrange(start as int, start + len)),
{
    let total = v.len();
    let mut val: u64 = 0;
    let mut i: usize = 0;
    while i < len
        invariant
            i <= len,
            len <= 8,
            total == v@.len(),
            start + len <= total,
            val == be_val(v@.subrange(start as int, start + i)),
            val < pow256(i as nat),
        decreases len - i,
    {
        proof {
            lemma_pow256_values();
            lemma_pow256_monotonic(i as nat, 7);
            assert(v@.subrange(start as int, start + i + 1).drop_last() =~= v@.subrange(
                start as int,
                start + i,
            ));
            assert(v@.subrange(start as int, start + i + 1).last() == v@[start + i]);
        }
        val = val * 256 + (v[start + i] as u64);
        i = i + 1;
    }
    val
}

/// A fresh vector holding `v[a..b]`.
pub fn copy_range(v: &Vec<u8>, a: usize, b: usize) -> (r: Vec<u8>)
    requires
        a <= b,
        b <= v@.len(),
    ensures
        r@ == v@.subrange(a as int, b as int),
{
    let mut r: Vec<u8> = Vec::new();
    let mut k: usize = a;
    while k < b
        invariant
            a <= k <= b,
            b <= v@.len(),
            r@ == v@.subrange(a as int, k as int),
        decreases b - k,
    {
        let ghost pre = r@;
        r.push(v[k]);
        proof {
            assert(pre.push(v@[k as int]) =~= v@.subrange(a as int, k + 1));
        }
        k = k + 1;
    }
    r
}

/// The concrete values of `pow256` up to eight bytes.
pub proof fn lemma_pow256_values()
    ensures
        pow256(7) == 0x100000000000000,
        pow256(8) == 0x10000000000000000,
{
    assert(pow256(0) == 1);
    assert(pow256(1) == 256);
    assert(pow256(2) == 0x10000);
    assert(pow256(3) == 0x1000000);
    assert(pow256(4) == 0x100000000);
    assert(pow256(5) == 0x10000000000);
    assert(pow256(6) == 0x1000000000000);
    assert(pow256(7) == 0x100000000000000);
    assert(pow256(8) == 0x10000000000000000);
}

/// `pow256` grows with its argument.
pub proof fn lemma_pow256_monotonic(m: nat, n: nat)
    requires
        m <= n,
    ensures
        pow256(m) <= pow256(n),
    decreases n,
{
    if m < n {
        lemma_pow256_monotonic(m, (n - 1) as nat);
        assert(pow256(n) == 256 * pow256((n - 1) as nat));
    }
}

/// A vector of `n` zero bytes.
pub fn zero_bytes(n: usize) -> (r: Vec<u8>)
    ensures
        r@.len() == n,
        forall|j: int| 0 <= j < n ==> r@[j] == 0u8,
{
    let mut r: Vec<u8> = Vec::new();
    let mut i: usize = 0;
    while i < n
        invariant
            i <= n,
            r@.len() == i,
            forall|j: int| 0 <= j < i ==> r@[j] == 0u8,
        decreases n - i,
    {
        r.push(0u8);
        i = i + 1;
    }
    r
}

/// A fresh vector with the same bytes as `v`.
pub fn clone_bytes(v: &Vec<u8>) -> (r: Vec<u8>)
    ensures
        r@ == v@,
{
    let n = v.len();
    let mut r: Vec<u8> = Vec::new();
    let mut i: usize = 0;
    while i < n
        invariant
            i <= n,
            n == v@.len(),
            r@ == v@.take(i as int),
        decreases n - i,
    {
        let ghost pre = r@;
        r.push(v[i]);
        proof {
            assert(pre + seq![v@[i as int]] =~= v@.take(i + 1));
        }
        i = i + 1;
    }
    assert(v@.take(n as int) =~= v@);
    r
}

/// Appends all of `src` to `dst`.
pub fn extend_bytes(dst: &mut Vec<u8>, src: &Vec<u8>)
    ensures
        final(dst)@ == old(dst)@ + src@,
{
    let n = src.len();
    let mut i: usize = 0;
    while i < n
        invariant
            i <= n,
            n == src@.len(),
            dst@ == old(dst)@ + src@.take(i as int),
        decreases n - i,
    {
        let ghost pre = dst@;
        dst.push(src[i]);
        proof {
            assert(pre + seq![src@[i as int]] =~= old(dst)@ + src@.take(i + 1));
        }
        i = i + 1;
    }
    assert(old(dst)@ + src@.take(n as int) =~= old(dst)@ + src@);
}

} // verus!
