//! Scalar-field helpers: canonicality of public inputs, small integers as
//! scalars, and the Fiat–Shamir transcript that derives batch coefficients.

use vstd::prelude::*;
use soroban_sdk::Env;
use crate::bytes::{append_bytes, be_less_at, bytes_eq, be_nat, be_u32, bytes_to_vec, lemma_be_nat_bound, lemma_be_nat_lex, lemma_nat_to_be_len, lemma_nat_to_be_roundtrip, nat_to_be, u32_be};
use vstd::arithmetic::power::pow;
use crate::zk::errors::Error;
use crate::zk::host::{sha256, sha256_digest};

verus! {

/// The scalar field order `r`, big-endian.
pub const FR_MODULUS_BE: [u8; 32] = [0x73, 0xed, 0xa7, 0x53, 0x29, 0x9d, 0x7d, 0x48, 0x33, 0x39, 0xd8, 0x08, 0x09, 0xa1, 0xd8, 0x05, 0x53, 0xbd, 0xa4, 0x02, 0xff, 0xfe, 0x5b, 0xfe, 0xff, 0xff, 0xff, 0xff, 0x00, 0x00, 0x00, 0x01];

/// Domain tag of every batch transcript.
pub const BATCH_DST: [u8; 37] = [0x53, 0x4f, 0x52, 0x4f, 0x4d, 0x49, 0x4e, 0x54, 0x2d, 0x5a, 0x4b, 0x2d, 0x4d, 0x45, 0x54, 0x41, 0x44, 0x41, 0x54, 0x41, 0x2d, 0x47, 0x52, 0x4f, 0x54, 0x48, 0x31, 0x36, 0x2d, 0x42, 0x41, 0x54, 0x43, 0x48, 0x2d, 0x56, 0x31];

/// Domain tag of verifying-key digests.
pub const VK_DIGEST_DST: [u8; 33] = [0x53, 0x4f, 0x52, 0x4f, 0x4d, 0x49, 0x4e, 0x54, 0x2d, 0x5a, 0x4b, 0x2d, 0x4d, 0x45, 0x54, 0x41, 0x44, 0x41, 0x54, 0x41, 0x2d, 0x56, 0x4b, 0x2d, 0x44, 0x49, 0x47, 0x45, 0x53, 0x54, 0x2d, 0x56, 0x31];

/// Domain tag of the issuer binding.
pub const ISSUER_DST: [u8; 30] = [0x53, 0x4f, 0x52, 0x4f, 0x4d, 0x49, 0x4e, 0x54, 0x2d, 0x5a, 0x4b, 0x2d, 0x4d, 0x45, 0x54, 0x41, 0x44, 0x41, 0x54, 0x41, 0x2d, 0x49, 0x53, 0x53, 0x55, 0x45, 0x52, 0x2d, 0x56, 0x31];

/// Separator between a transcript and a challenge index.
pub const CHALLENGE_SEP: [u8; 6] = [0x7c, 0x63, 0x68, 0x61, 0x6c, 0x7c];

/// The scalar field order.
pub open spec fn fr_r() -> nat {
    be_nat(FR_MODULUS_BE@)
}

/// A 32-byte big-endian scalar strictly below `r`.
pub open spec fn canonical(s: [u8; 32]) -> bool {
    be_nat(s@) < fr_r()
}

/// The 32-byte scalar encoding of a small integer.
pub open spec fn u32_scalar_seq(v: u32) -> Seq<u8> {
    Seq::new(28, |i: int| 0u8) + be_u32(v)
}

/// The scalar zero.
pub const SCALAR_ZERO: [u8; 32] = [
    0, 0, 0, 0, 0, 0, 0, 0, 0, 0, 0, 0, 0, 0, 0, 0, 0, 0, 0, 0, 0, 0, 0, 0, 0, 0, 0, 0, 0, 0, 0, 0,
];

/// The scalar one.
pub const SCALAR_ONE: [u8; 32] = [
    0, 0, 0, 0, 0, 0, 0, 0, 0, 0, 0, 0, 0, 0, 0, 0, 0, 0, 0, 0, 0, 0, 0, 0, 0, 0, 0, 0, 0, 0, 0, 1,
];

/// The byte strings of a sequence of scalars.
pub open spec fn scalar_views(s: Seq<[u8; 32]>) -> Seq<Seq<u8>> {
    s.map_values(|x: [u8; 32]| x@)
}

/// A value below `r` survives encoding on 32 bytes.
pub proof fn lemma_fr_roundtrip(v: nat)
    requires
        v < fr_r(),
    ensures
        be_nat(nat_to_be(32, v)) == v,
        nat_to_be(32, v).len() == 32,
{
    lemma_be_nat_bound(FR_MODULUS_BE@);
    lemma_nat_to_be_roundtrip(32, v);
}

/// `r` is positive and fits in 32 bytes.
pub proof fn lemma_fr_r_bounds()
    ensures
        0 < fr_r() < pow(256, 32),
{
    lemma_be_nat_bound(FR_MODULUS_BE@);
    lemma_be_nat_lex(SCALAR_ZERO@, FR_MODULUS_BE@, 0);
}

/// A digest with its top byte cleared.
pub open spec fn top_cleared(d: [u8; 32]) -> [u8; 32] {
    choose|q: [u8; 32]| q@ == d@.update(0, 0u8)
}

/// Challenge number `index` of a transcript holding `absorbed`.
pub open spec fn challenge_of(absorbed: Seq<u8>, index: u32) -> [u8; 32] {
    top_cleared(sha256_digest(absorbed + CHALLENGE_SEP@ + be_u32(index)))
}

/// Whether two 32-byte strings are equal.
pub fn digest_eq(a: &[u8; 32], b: &[u8; 32]) -> (r: bool)
    ensures
        r == (*a == *b),
{
    let r = bytes_eq(a.as_slice(), b.as_slice());
    if r {
        assert(*a =~= *b);
    }
    r
}

/// Whether a 32-byte big-endian string encodes a value strictly below `r`.
pub fn is_canonical(bytes: &[u8; 32]) -> (r: bool)
    ensures
        r == canonical(*bytes),
{
    assert(bytes@.subrange(0, 32) =~= bytes@);
    be_less_at(bytes.as_slice(), 0, FR_MODULUS_BE.as_slice(), false)
}

/// A public input as a scalar, refused unless canonical.
pub fn checked_scalar(bytes: &[u8; 32]) -> (r: Result<[u8; 32], Error>)
    ensures
        r == (if canonical(*bytes) { Ok::<[u8; 32], Error>(*bytes) } else { Err(Error::NonCanonicalScalar) }),
{
    if !is_canonical(bytes) {
        return Err(Error::NonCanonicalScalar);
    }
    Ok(*bytes)
}

/// The scalar zero.
pub fn scalar_zero() -> (r: [u8; 32])
    ensures
        r@ == Seq::new(32, |i: int| 0u8),
{
    let r = [0u8; 32];
    assert(r@ =~= Seq::new(32, |i: int| 0u8));
    r
}

/// The scalar one.
pub fn scalar_one() -> (r: [u8; 32])
    ensures
        r@ == Seq::new(31, |i: int| 0u8).push(1u8),
{
    let mut r = [0u8; 32];
    r[31] = 1;
    assert(r@ =~= Seq::new(31, |i: int| 0u8).push(1u8));
    r
}

/// A `u32` as a 32-byte big-endian scalar.
pub fn u32_to_scalar_bytes(value: u32) -> (r: [u8; 32])
    ensures
        r@ == u32_scalar_seq(value),
{
    let b = u32_be(value);
    proof {
        lemma_nat_to_be_len(4, value as nat);
    }
    let mut buf = [0u8; 32];
    buf[28] = b[0];
    buf[29] = b[1];
    buf[30] = b[2];
    buf[31] = b[3];
    assert(buf@ =~= u32_scalar_seq(value));
    buf
}

/// A digest with its top byte cleared: the result is below `2^248 < r`.
pub fn clear_top_byte(d: [u8; 32]) -> (r: [u8; 32])
    ensures
        r == top_cleared(d),
        r@ == d@.update(0, 0u8),
        canonical(r),
{
    let mut r = d;
    r[0] = 0;
    assert(r@ =~= d@.update(0, 0u8));
    proof {
        let q = top_cleared(d);
        assert(q@ == d@.update(0, 0u8));
        assert(q =~= r);
        lemma_be_nat_lex(r@, FR_MODULUS_BE@, 0);
    }
    r
}

/// A rolling transcript: everything absorbed so far, in order.
pub struct Transcript {
    buf: Vec<u8>,
}

impl View for Transcript {
    type V = Seq<u8>;

    closed spec fn view(&self) -> Seq<u8> {
        self.buf@
    }
}

impl Transcript {
    /// A transcript seeded with a domain tag.
    pub fn new(dst: &[u8]) -> (t: Transcript)
        ensures
            t@ == dst@,
    {
        Transcript { buf: bytes_to_vec(dst) }
    }

    /// Absorb raw bytes.
    pub fn absorb_bytes(&mut self, bytes: &[u8])
        ensures
            final(self)@ == old(self)@ + bytes@,
    {
        append_bytes(&mut self.buf, bytes);
    }

    /// Absorb a `u32`, big-endian.
    pub fn absorb_u32(&mut self, value: u32)
        ensures
            final(self)@ == old(self)@ + be_u32(value),
    {
        let b = u32_be(value);
        append_bytes(&mut self.buf, b.as_slice());
    }

    /// Challenge number `index`: SHA-256 of the transcript, the separator and
    /// the index, top byte cleared. The transcript itself is unchanged.
    pub fn challenge(&self, env: &Env, index: u32) -> (r: [u8; 32])
        ensures
            r == challenge_of(self@, index),
            canonical(r),
    {
        let mut material = bytes_to_vec(self.buf.as_slice());
        append_bytes(&mut material, CHALLENGE_SEP.as_slice());
        let b = u32_be(index);
        append_bytes(&mut material, b.as_slice());
        let digest = sha256(env, material.as_slice());
        clear_top_byte(digest)
    }

    /// The SHA-256 digest of the transcript.
    pub fn finalize(&self, env: &Env) -> (r: [u8; 32])
        ensures
            r == sha256_digest(self@),
    {
        sha256(env, self.buf.as_slice())
    }
}

} // verus!
