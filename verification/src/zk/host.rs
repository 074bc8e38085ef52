//! The Soroban host's hashing and BLS12-381 arithmetic, as the verifier
//! calls them. Every item here is trusted: its contract is what the host's
//! source shows of the call, and nothing checks it but a reader.
//!
//! Common to all of them and not stated: every host call is charged against
//! the transaction's resource budget, and the host aborts the transaction
//! when that budget runs out.

use vstd::prelude::*;
use soroban_sdk::crypto::bls12_381::{Bls12381Fr, Bls12381G1Affine, Bls12381G2Affine};
use soroban_sdk::{Bytes, BytesN, Env};
use crate::bytes::{be_nat, nat_to_be};
use crate::zk::curve::{fp_neg_limb, g1_encoding_ok, g1_is_inf, g1_on_curve, g1_valid, g2_encoding_ok, g2_is_inf, g2_on_curve, g2_valid};
use crate::zk::field::{fr_r, scalar_views};

verus! {

/// The host environment, through which every host function is reached.
#[verifier::external_type_specification]
#[verifier::external_body]
pub struct ExEnv(Env);

/// The SHA-256 digest of `data`, as the host computes it.
pub uninterp spec fn sha256_digest(data: Seq<u8>) -> [u8; 32];

/// Whether the host finds a G1 point in the prime-order subgroup.
pub uninterp spec fn g1_in_prime_subgroup(p: [u8; 96]) -> bool;

/// Whether the host finds a G2 point in the prime-order subgroup.
pub uninterp spec fn g2_in_prime_subgroup(p: [u8; 192]) -> bool;

/// The encoding of `s · P` as the host's scalar multiplication returns it.
pub uninterp spec fn g1_scaled(p: [u8; 96], s: Seq<u8>) -> [u8; 96];

/// The encoding of `Σ s_i · P_i` as the host's multi-scalar multiplication
/// returns it.
pub uninterp spec fn g1_msm_of(bases: Seq<[u8; 96]>, scalars: Seq<Seq<u8>>) -> [u8; 96];

/// Whether the product of the pairings `e(g1_i, g2_i)` is the identity.
pub uninterp spec fn pairing_is_one(g1: Seq<[u8; 96]>, g2: Seq<[u8; 192]>) -> bool;

/// `env.crypto().sha256`: the digest of `data`, named and not restated.
#[verifier::external_body]
pub(crate) fn sha256(env: &Env, data: &[u8]) -> (r: [u8; 32])
    ensures
        r == sha256_digest(data@),
{
    env.crypto().sha256(&Bytes::from_slice(env, data)).to_array()
}

/// `bls12_381().fr_add` on two scalars read by `Fr::from_bytes` (which
/// reduces modulo `r`): the sum modulo `r`, as 32 big-endian bytes.
#[verifier::external_body]
pub(crate) fn fr_add(env: &Env, a: &[u8; 32], b: &[u8; 32]) -> (r: [u8; 32])
    ensures
        r@ == nat_to_be(32, (be_nat(a@) + be_nat(b@)) % fr_r()),
{
    let x = Bls12381Fr::from_bytes(BytesN::from_array(env, a));
    let y = Bls12381Fr::from_bytes(BytesN::from_array(env, b));
    env.crypto().bls12_381().fr_add(&x, &y).to_bytes().to_array()
}

/// `bls12_381().fr_mul`: the product modulo `r`, as 32 big-endian bytes.
#[verifier::external_body]
pub(crate) fn fr_mul(env: &Env, a: &[u8; 32], b: &[u8; 32]) -> (r: [u8; 32])
    ensures
        r@ == nat_to_be(32, (be_nat(a@) * be_nat(b@)) % fr_r()),
{
    let x = Bls12381Fr::from_bytes(BytesN::from_array(env, a));
    let y = Bls12381Fr::from_bytes(BytesN::from_array(env, b));
    env.crypto().bls12_381().fr_mul(&x, &y).to_bytes().to_array()
}

/// `bls12_381().g1_is_in_subgroup`. The host decodes the point first and
/// aborts on an encoding it refuses or a point off the curve.
#[verifier::external_body]
pub(crate) fn g1_in_subgroup(env: &Env, p: &[u8; 96]) -> (r: bool)
    requires
        g1_encoding_ok(*p),
        g1_is_inf(*p) || g1_on_curve(*p),
    ensures
        r == g1_in_prime_subgroup(*p),
{
    env.crypto().bls12_381().g1_is_in_subgroup(&Bls12381G1Affine::from_bytes(BytesN::from_array(env, p)))
}

/// `bls12_381().g2_is_in_subgroup`, under the same conditions.
#[verifier::external_body]
pub(crate) fn g2_in_subgroup(env: &Env, p: &[u8; 192]) -> (r: bool)
    requires
        g2_encoding_ok(*p),
        g2_is_inf(*p) || g2_on_curve(*p),
    ensures
        r == g2_in_prime_subgroup(*p),
{
    env.crypto().bls12_381().g2_is_in_subgroup(&Bls12381G2Affine::from_bytes(BytesN::from_array(env, p)))
}

/// `bls12_381().g1_mul`: the host decodes `p` with the on-curve and subgroup
/// checks (aborting otherwise) and answers a point of the subgroup.
#[verifier::external_body]
pub(crate) fn g1_mul(env: &Env, p: &[u8; 96], s: &[u8; 32]) -> (r: [u8; 96])
    requires
        g1_valid(*p),
    ensures
        r == g1_scaled(*p, s@),
        g1_valid(r),
{
    let point = Bls12381G1Affine::from_bytes(BytesN::from_array(env, p));
    let scalar = Bls12381Fr::from_bytes(BytesN::from_array(env, s));
    env.crypto().bls12_381().g1_mul(&point, &scalar).to_array()
}

/// `bls12_381().g1_msm`: the host aborts on vectors of unequal or zero length
/// and on any base that fails its on-curve and subgroup checks.
#[verifier::external_body]
pub(crate) fn g1_msm(env: &Env, bases: &Vec<[u8; 96]>, scalars: &Vec<[u8; 32]>) -> (r: [u8; 96])
    requires
        bases@.len() == scalars@.len(),
        bases@.len() > 0,
        forall|i: int| 0 <= i < bases@.len() ==> g1_valid(#[trigger] bases@[i]),
    ensures
        r == g1_msm_of(bases@, scalar_views(scalars@)),
        g1_valid(r),
{
    let mut vp = soroban_sdk::Vec::new(env);
    for b in bases.iter() {
        vp.push_back(Bls12381G1Affine::from_bytes(BytesN::from_array(env, b)));
    }
    let mut vs = soroban_sdk::Vec::new(env);
    for s in scalars.iter() {
        vs.push_back(Bls12381Fr::from_bytes(BytesN::from_array(env, s)));
    }
    env.crypto().bls12_381().g1_msm(vp, vs).to_array()
}

/// Point negation (`-P` on `Bls12381G1Affine`): `X` kept, `Y` replaced by
/// `p - Y` (zero kept). The SDK aborts when `Y` is not below `p`. The negation
/// of a subgroup point is one.
#[verifier::external_body]
pub(crate) fn g1_neg(env: &Env, p: &[u8; 96]) -> (r: [u8; 96])
    requires
        g1_encoding_ok(*p),
    ensures
        r@ == p@.subrange(0, 48) + fp_neg_limb(p@.subrange(48, 96)),
        g1_valid(*p) ==> g1_valid(r),
{
    (-Bls12381G1Affine::from_bytes(BytesN::from_array(env, p))).to_array()
}

/// `bls12_381().pairing_check`: whether `Π e(g1_i, g2_i)` is the identity.
/// The host aborts on vectors of unequal or zero length and on any point that
/// fails its on-curve and subgroup checks.
#[verifier::external_body]
pub(crate) fn pairing_check(env: &Env, g1: &Vec<[u8; 96]>, g2: &Vec<[u8; 192]>) -> (r: bool)
    requires
        g1@.len() == g2@.len(),
        g1@.len() > 0,
        forall|i: int| 0 <= i < g1@.len() ==> g1_valid(#[trigger] g1@[i]),
        forall|i: int| 0 <= i < g2@.len() ==> g2_valid(#[trigger] g2@[i]),
    ensures
        r == pairing_is_one(g1@, g2@),
{
    let mut vp1 = soroban_sdk::Vec::new(env);
    for p in g1.iter() {
        vp1.push_back(Bls12381G1Affine::from_bytes(BytesN::from_array(env, p)));
    }
    let mut vp2 = soroban_sdk::Vec::new(env);
    for q in g2.iter() {
        vp2.push_back(Bls12381G2Affine::from_bytes(BytesN::from_array(env, q)));
    }
    env.crypto().bls12_381().pairing_check(vp1, vp2)
}

} // verus!
