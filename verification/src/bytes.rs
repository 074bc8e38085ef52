//! Big-endian byte strings read as natural numbers, and the comparisons and
//! encodings built on them.

use vstd::prelude::*;
use vstd::arithmetic::power::*;
use vstd::arithmetic::mul::*;

verus! {

/// The natural number a big-endian byte string encodes.
pub open spec fn be_nat(s: Seq<u8>) -> nat
    decreases s.len(),
{
    if s.len() == 0 {
        0
    } else {
        (s[0] as nat) * (pow(256, (s.len() - 1) as nat) as nat) + be_nat(s.drop_first())
    }
}

/// The big-endian encoding of `v` on exactly `len` bytes (high digits beyond
/// `len` bytes are dropped).
pub open spec fn nat_to_be(len: nat, v: nat) -> Seq<u8>
    decreases len,
{
    if len == 0 {
        Seq::<u8>::empty()
    } else {
        nat_to_be((len - 1) as nat, v / 256).push((v % 256) as u8)
    }
}

/// The four big-endian bytes of a `u32`.
pub open spec fn be_u32(v: u32) -> Seq<u8> {
    nat_to_be(4, v as nat)
}

/// The sixteen big-endian bytes of an `i128` in two's complement.
pub open spec fn be_i128(v: i128) -> Seq<u8> {
    nat_to_be(16, (if v < 0 { v + 0x1_0000_0000_0000_0000_0000_0000_0000_0000 } else { v as int }) as nat)
}

/// The byte string with the three flag bits of its first byte cleared.
pub open spec fn clear_flags(s: Seq<u8>) -> Seq<u8> {
    s.update(0, s[0] & 0x1f)
}

pub proof fn lemma_pow256_pos(n: nat)
    ensures
        pow(256, n) > 0,
{
    lemma_pow_positive(256, n);
}

/// `be_nat(s) < 256^len(s)`.
pub proof fn lemma_be_nat_bound(s: Seq<u8>)
    ensures
        be_nat(s) < pow(256, s.len()),
    decreases s.len(),
{
    if s.len() == 0 {
        reveal(pow);
    } else {
        let p = pow(256, (s.len() - 1) as nat);
        lemma_pow256_pos((s.len() - 1) as nat);
        lemma_be_nat_bound(s.drop_first());
        assert(pow(256, s.len()) == 256 * p) by {
            reveal(pow);
        }
        let h = s[0] as int;
        assert(h * p + be_nat(s.drop_first()) < 256 * p) by (nonlinear_arith)
            requires
                0 <= h <= 255,
                be_nat(s.drop_first()) < p,
                p > 0,
        ;
    }
}

/// `be_nat` of a string with one more low byte.
pub proof fn lemma_be_nat_push(s: Seq<u8>, b: u8)
    ensures
        be_nat(s.push(b)) == be_nat(s) * 256 + b,
    decreases s.len(),
{
    if s.len() == 0 {
        assert(s.push(b).drop_first() =~= Seq::<u8>::empty());
        assert(pow(256, 0) == 1) by {
            reveal(pow);
        }
        assert(be_nat(s.push(b)) == (b as nat) * 1 + be_nat(s.push(b).drop_first()));
    } else {
        let t = s.push(b);
        assert(t.drop_first() =~= s.drop_first().push(b));
        lemma_be_nat_push(s.drop_first(), b);
        assert(t[0] == s[0]);
        lemma_pow256_pos(s.len());
        lemma_pow256_pos((s.len() - 1) as nat);
        assert(be_nat(t) == (t[0] as nat) * (pow(256, s.len()) as nat) + be_nat(t.drop_first()));
        let p = pow(256, (s.len() - 1) as nat);
        assert(pow(256, s.len()) == 256 * p) by {
            reveal(pow);
        }
        let h = s[0] as int;
        let rest = be_nat(s.drop_first()) as int;
        assert(h * (256 * p) + (rest * 256 + b) == (h * p + rest) * 256 + b) by (nonlinear_arith);
    }
}

/// `nat_to_be` gives exactly `len` bytes.
pub proof fn lemma_nat_to_be_len(len: nat, v: nat)
    ensures
        nat_to_be(len, v).len() == len,
    decreases len,
{
    if len > 0 {
        lemma_nat_to_be_len((len - 1) as nat, v / 256);
    }
}

/// Encoding on `len` bytes and reading back gives the value modulo `256^len`.
pub proof fn lemma_be_nat_of_nat_to_be(len: nat, v: nat)
    ensures
        be_nat(nat_to_be(len, v)) == v % (pow(256, len) as nat),
        pow(256, len) > 0,
    decreases len,
{
    lemma_pow256_pos(len);
    if len == 0 {
        reveal(pow);
        assert(v % 1 == 0);
    } else {
        let q = v / 256;
        lemma_be_nat_of_nat_to_be((len - 1) as nat, q);
        lemma_be_nat_push(nat_to_be((len - 1) as nat, q), (v % 256) as u8);
        let m = pow(256, (len - 1) as nat);
        assert(pow(256, len) == 256 * m) by {
            reveal(pow);
        }
        vstd::arithmetic::div_mod::lemma_mod_breakdown(v as int, 256, m);
        assert((q % (m as nat)) * 256 + v % 256 == 256 * ((v as int / 256) % m) + v as int % 256);
    }
}

/// Zero encodes as zero bytes.
pub proof fn lemma_nat_to_be_zero(len: nat)
    ensures
        nat_to_be(len, 0) == Seq::new(len, |i: int| 0u8),
    decreases len,
{
    if len > 0 {
        lemma_nat_to_be_zero((len - 1) as nat);
        assert(nat_to_be(len, 0) =~= Seq::new(len, |i: int| 0u8));
    }
}

/// A value below `256^len` survives encoding on `len` bytes.
pub proof fn lemma_nat_to_be_roundtrip(len: nat, v: nat)
    requires
        v < pow(256, len),
    ensures
        be_nat(nat_to_be(len, v)) == v,
        nat_to_be(len, v).len() == len,
{
    lemma_be_nat_of_nat_to_be(len, v);
    lemma_nat_to_be_len(len, v);
    vstd::arithmetic::div_mod::lemma_small_mod(v, pow(256, len) as nat);
}

/// Two equally long byte strings whose first difference is at `i`, where `a` is
/// smaller, encode numbers in the same order.
pub proof fn lemma_be_nat_lex(a: Seq<u8>, b: Seq<u8>, i: int)
    requires
        a.len() == b.len(),
        0 <= i < a.len(),
        forall|j: int| 0 <= j < i ==> a[j] == b[j],
        a[i] < b[i],
    ensures
        be_nat(a) < be_nat(b),
    decreases i,
{
    let p = pow(256, (a.len() - 1) as nat);
    lemma_pow256_pos((a.len() - 1) as nat);
    if i == 0 {
        lemma_be_nat_bound(a.drop_first());
        let x = a[0] as int;
        let y = b[0] as int;
        let ra = be_nat(a.drop_first()) as int;
        let rb = be_nat(b.drop_first()) as int;
        assert(x * p + ra < y * p + rb) by (nonlinear_arith)
            requires
                x < y,
                0 <= ra < p,
                0 <= rb,
                p > 0,
        ;
    } else {
        assert forall|j: int| 0 <= j < i - 1 implies a.drop_first()[j] == b.drop_first()[j] by {
            assert(a[j + 1] == b[j + 1]);
        }
        lemma_be_nat_lex(a.drop_first(), b.drop_first(), i - 1);
        assert(a[0] == b[0]);
    }
}

/// Whether the `b.len()` bytes of `a` starting at `start` (with the flag bits of
/// the first one cleared when `mask_first`) encode a number below `b`.
pub fn be_less_at(a: &[u8], start: usize, b: &[u8], mask_first: bool) -> (r: bool)
    requires
        b@.len() >= 1,
        start + b@.len() <= a@.len(),
    ensures
        r == (be_nat(
            if mask_first {
                clear_flags(a@.subrange(start as int, start + b@.len()))
            } else {
                a@.subrange(start as int, start + b@.len())
            },
        ) < be_nat(b@)),
{
    let ghost lhs = if mask_first {
        clear_flags(a@.subrange(start as int, start + b@.len()))
    } else {
        a@.subrange(start as int, start + b@.len())
    };
    let n = b.len();
    let alen = a.len();
    let mut i: usize = 0;
    while i < n
        invariant
            n == b@.len(),
            alen == a@.len(),
            n >= 1,
            start + n <= a@.len(),
            i <= n,
            lhs.len() == n,
            lhs == (if mask_first {
                clear_flags(a@.subrange(start as int, start + n))
            } else {
                a@.subrange(start as int, start + n)
            }),
            forall|j: int| 0 <= j < i ==> lhs[j] == b@[j],
        decreases n - i,
    {
        let x = if i == 0 && mask_first {
            a[start] & 0x1f
        } else {
            a[start + i]
        };
        assert(x == lhs[i as int]);
        if x != b[i] {
            if x < b[i] {
                proof {
                    lemma_be_nat_lex(lhs, b@, i as int);
                }
                return true;
            } else {
                proof {
                    lemma_be_nat_lex(b@, lhs, i as int);
                }
                return false;
            }
        }
        i += 1;
    }
    assert(lhs =~= b@);
    false
}

/// The big-endian encoding of `x` on `len` bytes.
pub fn be_bytes(x: u128, len: usize) -> (r: Vec<u8>)
    ensures
        r@ == nat_to_be(len as nat, x as nat),
    decreases len,
{
    if len == 0 {
        Vec::new()
    } else {
        let mut v = be_bytes(x / 256, len - 1);
        v.push((x % 256) as u8);
        v
    }
}

/// The big-endian bytes of an `i128` in two's complement.
pub fn i128_be(x: i128) -> (r: Vec<u8>)
    ensures
        r@ == be_i128(x),
{
    let u: u128 = if x < 0 {
        ((x + i128::MAX + 1) as u128) + 0x8000_0000_0000_0000_0000_0000_0000_0000u128
    } else {
        x as u128
    };
    be_bytes(u, 16)
}

/// The big-endian bytes of a `u32`.
pub fn u32_be(x: u32) -> (r: Vec<u8>)
    ensures
        r@ == be_u32(x),
{
    be_bytes(x as u128, 4)
}

/// Byte-wise equality of two byte strings.
pub fn bytes_eq(a: &[u8], b: &[u8]) -> (r: bool)
    ensures
        r == (a@ == b@),
{
    if a.len() != b.len() {
        return false;
    }
    let n = a.len();
    let mut i: usize = 0;
    while i < n
        invariant
            n == a@.len(),
            n == b@.len(),
            i <= n,
            forall|j: int| 0 <= j < i ==> a@[j] == b@[j],
        decreases n - i,
    {
        if a[i] != b[i] {
            return false;
        }
        i += 1;
    }
    assert(a@ =~= b@);
    true
}

/// A fresh vector holding the same bytes.
pub fn bytes_to_vec(a: &[u8]) -> (r: Vec<u8>)
    ensures
        r@ == a@,
{
    let mut out: Vec<u8> = Vec::new();
    let n = a.len();
    let mut i: usize = 0;
    while i < n
        invariant
            n == a@.len(),
            i <= n,
            out@ == a@.subrange(0, i as int),
        decreases n - i,
    {
        out.push(a[i]);
        i += 1;
        assert(out@ =~= a@.subrange(0, i as int));
    }
    assert(a@.subrange(0, n as int) =~= a@);
    out
}

/// Append all bytes of `src` to `dst`.
pub fn append_bytes(dst: &mut Vec<u8>, src: &[u8])
    ensures
        final(dst)@ == old(dst)@ + src@,
{
    let n = src.len();
    let mut i: usize = 0;
    let ghost start = dst@;
    while i < n
        invariant
            n == src@.len(),
            i <= n,
            dst@ == start + src@.subrange(0, i as int),
        decreases n - i,
    {
        dst.push(src[i]);
        i += 1;
        assert(dst@ =~= start + src@.subrange(0, i as int));
    }
    assert(src@.subrange(0, n as int) =~= src@);
}

} // verus!
