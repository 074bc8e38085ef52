//! Encodings of BLS12-381 points and what it takes for one to be usable.
//!
//! A point travels as its uncompressed encoding. Before any encoding reaches
//! the host's curve arithmetic it is checked here: flag bits, coordinate
//! range, and (through the host) subgroup membership. Curve membership itself
//! is not checked here: the host checks it while decoding and aborts the call
//! on a point that is off the curve, so the functions that hand points to the
//! host require it of their callers.

use vstd::prelude::*;
use soroban_sdk::Env;
use crate::bytes::{be_less_at, be_nat, clear_flags, nat_to_be};
use crate::zk::errors::Error;
use crate::zk::host::{g1_in_prime_subgroup, g1_in_subgroup, g2_in_prime_subgroup, g2_in_subgroup};

verus! {

/// The base field modulus `p`, big-endian.
pub const FP_MODULUS_BE: [u8; 48] = [
    0x1a, 0x01, 0x11, 0xea, 0x39, 0x7f, 0xe6, 0x9a, 0x4b, 0x1b, 0xa7, 0xb6, 0x43, 0x4b, 0xac, 0xd7, 0x64, 0x77, 0x4b, 0x84, 0xf3, 0x85, 0x12, 0xbf, 0x67, 0x30, 0xd2, 0xa0, 0xf6, 0xb0, 0xf6, 0x24, 0x1e, 0xab, 0xff, 0xfe, 0xb1, 0x53, 0xff, 0xff, 0xb9, 0xfe, 0xff, 0xff, 0xff, 0xff, 0xaa, 0xab,
];

/// Compression flag: must be clear.
pub const FLAG_COMPRESSION: u8 = 0x80;
/// Infinity flag.
pub const FLAG_INFINITY: u8 = 0x40;
/// Sort flag: must be clear.
pub const FLAG_SORT: u8 = 0x20;
/// The three flag bits.
pub const FLAG_MASK: u8 = 0xE0;

/// The base field modulus.
pub open spec fn fp_p() -> nat {
    be_nat(FP_MODULUS_BE@)
}

/// The value of a 48-byte coordinate limb, with the flag bits of its first
/// byte cleared when `masked`.
pub open spec fn limb_value(limb: Seq<u8>, masked: bool) -> nat {
    be_nat(if masked { clear_flags(limb) } else { limb })
}

/// The negation `p - y` of a coordinate limb, on 48 bytes; zero stays zero.
pub open spec fn fp_neg_limb(y: Seq<u8>) -> Seq<u8> {
    if be_nat(y) == 0 {
        y
    } else {
        nat_to_be(48, (fp_p() - be_nat(y)) as nat)
    }
}

/// Whether `a == b (mod p)`.
pub open spec fn fp_eq(a: int, b: int) -> bool {
    (a - b) % (fp_p() as int) == 0
}

// --- G1 ---------------------------------------------------------------------

pub open spec fn g1_flags(p: [u8; 96]) -> u8 {
    p@[0] & FLAG_MASK
}

/// The infinity flag is set.
pub open spec fn g1_is_inf(p: [u8; 96]) -> bool {
    p@[0] & FLAG_INFINITY != 0
}

/// The checks a G1 encoding passes before it is handed to the host: no
/// compression or sort flag; an infinity flag only with every other bit zero;
/// otherwise both coordinates below `p`.
pub open spec fn g1_encoding_ok(p: [u8; 96]) -> bool {
    let f = g1_flags(p);
    &&& f & FLAG_COMPRESSION == 0
    &&& f & FLAG_SORT == 0
    &&& if f & FLAG_INFINITY != 0 {
        &&& p@[0] & 0x1f == 0
        &&& forall|i: int| 1 <= i < 96 ==> p@[i] == 0
    } else {
        &&& limb_value(p@.subrange(0, 48), true) < fp_p()
        &&& limb_value(p@.subrange(48, 96), false) < fp_p()
    }
}

/// `y^2 = x^3 + 4` over the base field.
pub open spec fn g1_on_curve(p: [u8; 96]) -> bool {
    let x = limb_value(p@.subrange(0, 48), true) as int;
    let y = limb_value(p@.subrange(48, 96), false) as int;
    fp_eq(y * y, x * x * x + 4)
}

/// What the host needs of a G1 encoding not to abort: a well-formed encoding
/// that is infinity or on the curve.
pub open spec fn g1_curve_ok(p: [u8; 96]) -> bool {
    g1_encoding_ok(p) && !g1_is_inf(p) ==> g1_on_curve(p)
}

/// A usable G1 point: well formed, and infinity or a curve point of the
/// prime-order subgroup.
pub open spec fn g1_valid(p: [u8; 96]) -> bool {
    &&& g1_encoding_ok(p)
    &&& g1_is_inf(p) || (g1_on_curve(p) && g1_in_prime_subgroup(p))
}

/// `-P`: the same `X`, the negated `Y`.
pub open spec fn g1_negated(p: [u8; 96]) -> [u8; 96] {
    choose|q: [u8; 96]| q@ == p@.subrange(0, 48) + fp_neg_limb(p@.subrange(48, 96))
}

// --- G2 ---------------------------------------------------------------------

pub open spec fn g2_flags(p: [u8; 192]) -> u8 {
    p@[0] & FLAG_MASK
}

/// The infinity flag is set.
pub open spec fn g2_is_inf(p: [u8; 192]) -> bool {
    p@[0] & FLAG_INFINITY != 0
}

/// As for G1, over the four limbs `X.c1, X.c0, Y.c1, Y.c0`; only the first
/// carries flags.
pub open spec fn g2_encoding_ok(p: [u8; 192]) -> bool {
    let f = g2_flags(p);
    &&& f & FLAG_COMPRESSION == 0
    &&& f & FLAG_SORT == 0
    &&& if f & FLAG_INFINITY != 0 {
        &&& p@[0] & 0x1f == 0
        &&& forall|i: int| 1 <= i < 192 ==> p@[i] == 0
    } else {
        &&& limb_value(p@.subrange(0, 48), true) < fp_p()
        &&& limb_value(p@.subrange(48, 96), false) < fp_p()
        &&& limb_value(p@.subrange(96, 144), false) < fp_p()
        &&& limb_value(p@.subrange(144, 192), false) < fp_p()
    }
}

/// `y^2 = x^3 + 4(1 + u)` over `Fp2 = Fp[u] / (u^2 + 1)`, with
/// `x = a + b u` and `y = c + d u`.
pub open spec fn g2_on_curve(p: [u8; 192]) -> bool {
    let b = limb_value(p@.subrange(0, 48), true) as int;
    let a = limb_value(p@.subrange(48, 96), false) as int;
    let d = limb_value(p@.subrange(96, 144), false) as int;
    let c = limb_value(p@.subrange(144, 192), false) as int;
    &&& fp_eq(c * c - d * d, a * a * a - 3 * a * b * b + 4)
    &&& fp_eq(2 * c * d, 3 * a * a * b - b * b * b + 4)
}

/// What the host needs of a G2 encoding not to abort.
pub open spec fn g2_curve_ok(p: [u8; 192]) -> bool {
    g2_encoding_ok(p) && !g2_is_inf(p) ==> g2_on_curve(p)
}

/// A usable G2 point.
pub open spec fn g2_valid(p: [u8; 192]) -> bool {
    &&& g2_encoding_ok(p)
    &&& g2_is_inf(p) || (g2_on_curve(p) && g2_in_prime_subgroup(p))
}

// --- checks -----------------------------------------------------------------

/// Whether a 48-byte big-endian limb is below `p`, with the flag bits of its
/// first byte stripped first when `masked_first`.
pub fn fp_in_range(limb: &[u8], masked_first: bool) -> (r: bool)
    requires
        limb@.len() == 48,
    ensures
        r == (limb_value(limb@, masked_first) < fp_p()),
{
    assert(limb@.subrange(0, 48) =~= limb@);
    be_less_at(limb, 0, FP_MODULUS_BE.as_slice(), masked_first)
}

/// Whether a G1 encoding carries the infinity flag.
pub fn g1_is_infinity(bytes: &[u8; 96]) -> (r: bool)
    ensures
        r == g1_is_inf(*bytes),
{
    bytes[0] & FLAG_INFINITY != 0
}

/// Whether a G2 encoding carries the infinity flag.
pub fn g2_is_infinity(bytes: &[u8; 192]) -> (r: bool)
    ensures
        r == g2_is_inf(*bytes),
{
    bytes[0] & FLAG_INFINITY != 0
}

/// Whether bytes `from..to` of `a` are all zero.
fn all_zero(a: &[u8], from: usize) -> (r: bool)
    requires
        from <= a@.len(),
    ensures
        r == (forall|i: int| from <= i < a@.len() ==> a@[i] == 0),
{
    let n = a.len();
    let mut i = from;
    while i < n
        invariant
            n == a@.len(),
            from <= i <= n,
            forall|j: int| from <= j < i ==> a@[j] == 0,
        decreases n - i,
    {
        if a[i] != 0 {
            return false;
        }
        i += 1;
    }
    true
}

/// Structural validation of a G1 encoding: flags and coordinate range.
pub fn g1_wellformed(bytes: &[u8; 96]) -> (r: Result<(), Error>)
    ensures
        r == (if g1_encoding_ok(*bytes) { Ok::<(), Error>(()) } else { Err(Error::InvalidG1Point) }),
{
    let flags = bytes[0] & FLAG_MASK;
    if flags & FLAG_COMPRESSION != 0 || flags & FLAG_SORT != 0 {
        return Err(Error::InvalidG1Point);
    }
    if flags & FLAG_INFINITY != 0 {
        if bytes[0] & 0x1f != 0 {
            return Err(Error::InvalidG1Point);
        }
        if !all_zero(bytes.as_slice(), 1) {
            return Err(Error::InvalidG1Point);
        }
        return Ok(());
    }
    if !be_less_at(bytes.as_slice(), 0, FP_MODULUS_BE.as_slice(), true)
        || !be_less_at(bytes.as_slice(), 48, FP_MODULUS_BE.as_slice(), false)
    {
        return Err(Error::InvalidG1Point);
    }
    Ok(())
}

/// Structural validation of a G2 encoding.
pub fn g2_wellformed(bytes: &[u8; 192]) -> (r: Result<(), Error>)
    ensures
        r == (if g2_encoding_ok(*bytes) { Ok::<(), Error>(()) } else { Err(Error::InvalidG2Point) }),
{
    let flags = bytes[0] & FLAG_MASK;
    if flags & FLAG_COMPRESSION != 0 || flags & FLAG_SORT != 0 {
        return Err(Error::InvalidG2Point);
    }
    if flags & FLAG_INFINITY != 0 {
        if bytes[0] & 0x1f != 0 {
            return Err(Error::InvalidG2Point);
        }
        if !all_zero(bytes.as_slice(), 1) {
            return Err(Error::InvalidG2Point);
        }
        return Ok(());
    }
    if !be_less_at(bytes.as_slice(), 0, FP_MODULUS_BE.as_slice(), true)
        || !be_less_at(bytes.as_slice(), 48, FP_MODULUS_BE.as_slice(), false)
        || !be_less_at(bytes.as_slice(), 96, FP_MODULUS_BE.as_slice(), false)
        || !be_less_at(bytes.as_slice(), 144, FP_MODULUS_BE.as_slice(), false)
    {
        return Err(Error::InvalidG2Point);
    }
    Ok(())
}

/// How decoding a G1 encoding is answered.
pub open spec fn g1_decoded(p: [u8; 96], allow_infinity: bool) -> Result<[u8; 96], Error> {
    if !g1_encoding_ok(p) {
        Err(Error::InvalidG1Point)
    } else if g1_is_inf(p) && !allow_infinity {
        Err(Error::PointAtInfinity)
    } else if !g1_is_inf(p) && !g1_in_prime_subgroup(p) {
        Err(Error::InvalidG1Point)
    } else {
        Ok(p)
    }
}

/// How decoding a G2 encoding is answered.
pub open spec fn g2_decoded(p: [u8; 192], allow_infinity: bool) -> Result<[u8; 192], Error> {
    if !g2_encoding_ok(p) {
        Err(Error::InvalidG2Point)
    } else if g2_is_inf(p) && !allow_infinity {
        Err(Error::PointAtInfinity)
    } else if !g2_is_inf(p) && !g2_in_prime_subgroup(p) {
        Err(Error::InvalidG2Point)
    } else {
        Ok(p)
    }
}

/// Decode a G1 point with full validation, the subgroup check included.
/// `allow_infinity` accepts the identity, which proof elements may not be.
pub fn decode_g1(env: &Env, bytes: &[u8; 96], allow_infinity: bool) -> (r: Result<[u8; 96], Error>)
    requires
        g1_curve_ok(*bytes),
    ensures
        r == g1_decoded(*bytes, allow_infinity),
        r is Ok ==> g1_valid(*bytes),
{
    g1_wellformed(bytes)?;
    let infinity = g1_is_infinity(bytes);
    if infinity && !allow_infinity {
        return Err(Error::PointAtInfinity);
    }
    if !infinity && !g1_in_subgroup(env, bytes) {
        return Err(Error::InvalidG1Point);
    }
    Ok(*bytes)
}

/// Decode a G2 point with full validation, the subgroup check included.
pub fn decode_g2(env: &Env, bytes: &[u8; 192], allow_infinity: bool) -> (r: Result<[u8; 192], Error>)
    requires
        g2_curve_ok(*bytes),
    ensures
        r == g2_decoded(*bytes, allow_infinity),
        r is Ok ==> g2_valid(*bytes),
{
    g2_wellformed(bytes)?;
    let infinity = g2_is_infinity(bytes);
    if infinity && !allow_infinity {
        return Err(Error::PointAtInfinity);
    }
    if !infinity && !g2_in_subgroup(env, bytes) {
        return Err(Error::InvalidG2Point);
    }
    Ok(*bytes)
}

} // verus!
