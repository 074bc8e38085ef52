//! Groth16 verification over BLS12-381 against the host's curve functions.
//!
//! A proof `(A, B, C)` for public inputs `x` verifies iff
//! `e(-A, B) · e(α, β) · e(L, γ) · e(C, δ) = 1` with `L = IC_0 + Σ x_j · IC_j`,
//! checked as one multi-pairing. Every point of the proof is decoded with the
//! full validation of `curve` first; the verifying key is validated once, when
//! it is registered.

use vstd::prelude::*;
use soroban_sdk::Env;
use crate::bytes::{be_nat, be_u32, nat_to_be};
use crate::zk::curve::{
    decode_g1, decode_g2, g1_curve_ok, g1_decoded, g1_is_inf, g1_negated, g1_valid, g2_curve_ok,
    g2_decoded, g2_is_inf, g2_valid, fp_neg_limb,
};
use crate::zk::errors::Error;
use crate::zk::field::{
    canonical, challenge_of, checked_scalar, fr_r, lemma_fr_r_bounds, lemma_fr_roundtrip, scalar_views, Transcript, BATCH_DST, SCALAR_ONE,
    SCALAR_ZERO, VK_DIGEST_DST,
};
use crate::zk::host::{
    fr_add, fr_mul, g1_msm, g1_msm_of, g1_mul, g1_neg, g1_scaled, pairing_check, pairing_is_one, sha256_digest,
};
use crate::zk::types::{Groth16Proof, VerifyingKey};

verus! {

/// Largest public-input arity a circuit can be registered with.
pub const MAX_PUBLIC_INPUTS: u32 = 32;

/// Largest batch the aggregate verifier accepts.
pub const MAX_BATCH_SIZE: u32 = 16;

/// The first refusal met decoding the first `k` bases of `ic`, identity allowed.
pub open spec fn ic_decoded(ic: Seq<[u8; 96]>, k: nat) -> Result<(), Error>
    decreases k,
{
    if k == 0 {
        Ok(())
    } else {
        match ic_decoded(ic, (k - 1) as nat) {
            Err(e) => Err(e),
            Ok(_) => match g1_decoded(ic[k - 1], true) {
                Err(e) => Err(e),
                Ok(_) => Ok(()),
            },
        }
    }
}

/// How the validation of a verifying key for `n` public inputs is answered.
pub open spec fn vk_check(vk: VerifyingKey, n: u32) -> Result<(), Error> {
    if n > MAX_PUBLIC_INPUTS {
        Err(Error::UnsupportedArity)
    } else if vk.ic@.len() != n + 1 {
        Err(Error::MalformedVerifyingKey)
    } else {
        match g1_decoded(vk.alpha_g1, false) {
            Err(e) => Err(e),
            Ok(_) => match g2_decoded(vk.beta_g2, false) {
                Err(e) => Err(e),
                Ok(_) => match g2_decoded(vk.gamma_g2, false) {
                    Err(e) => Err(e),
                    Ok(_) => match g2_decoded(vk.delta_g2, false) {
                        Err(e) => Err(e),
                        Ok(_) => ic_decoded(vk.ic@, vk.ic@.len()),
                    },
                },
            },
        }
    }
}

/// A validated key: α, β, γ, δ usable and not the identity, every IC base
/// usable, and at least the constant base.
pub open spec fn vk_valid(vk: VerifyingKey) -> bool {
    &&& g1_valid(vk.alpha_g1) && !g1_is_inf(vk.alpha_g1)
    &&& g2_valid(vk.beta_g2) && !g2_is_inf(vk.beta_g2)
    &&& g2_valid(vk.gamma_g2) && !g2_is_inf(vk.gamma_g2)
    &&& g2_valid(vk.delta_g2) && !g2_is_inf(vk.delta_g2)
    &&& vk.ic@.len() >= 1
    &&& forall|i: int| 0 <= i < vk.ic@.len() ==> g1_valid(#[trigger] vk.ic@[i])
}

/// What the host needs of a key's points not to abort while the key is
/// validated for `n` inputs, in the order they are decoded: once the arity
/// checks pass, α; β once α decodes; γ and δ likewise; and each IC base once
/// every earlier one decoded.
pub open spec fn vk_decode_curve_ok(vk: VerifyingKey, n: u32) -> bool {
    n <= MAX_PUBLIC_INPUTS && vk.ic@.len() == n + 1 ==> {
        &&& g1_curve_ok(vk.alpha_g1)
        &&& g1_decoded(vk.alpha_g1, false) is Ok ==> g2_curve_ok(vk.beta_g2)
        &&& g1_decoded(vk.alpha_g1, false) is Ok && g2_decoded(vk.beta_g2, false) is Ok ==> g2_curve_ok(vk.gamma_g2)
        &&& g1_decoded(vk.alpha_g1, false) is Ok && g2_decoded(vk.beta_g2, false) is Ok
            && g2_decoded(vk.gamma_g2, false) is Ok ==> g2_curve_ok(vk.delta_g2)
        &&& g1_decoded(vk.alpha_g1, false) is Ok && g2_decoded(vk.beta_g2, false) is Ok
            && g2_decoded(vk.gamma_g2, false) is Ok && g2_decoded(vk.delta_g2, false) is Ok
            ==> forall|i: int| 0 <= i < vk.ic@.len() && ic_decoded(vk.ic@, i as nat) is Ok
                ==> g1_curve_ok(#[trigger] vk.ic@[i])
    }
}

proof fn lemma_ic_decoded_valid(ic: Seq<[u8; 96]>, k: nat)
    requires
        k <= ic.len(),
        ic_decoded(ic, k) is Ok,
        forall|i: int| 0 <= i < ic.len() && ic_decoded(ic, i as nat) is Ok ==> g1_curve_ok(#[trigger] ic[i]),
    ensures
        forall|i: int| 0 <= i < k ==> g1_valid(#[trigger] ic[i]),
    decreases k,
{
    if k > 0 {
        lemma_ic_decoded_valid(ic, (k - 1) as nat);
        assert(g1_decoded(ic[k - 1], true) is Ok);
    }
}

/// Validate every point of a verifying key and its arity: `ic` must hold
/// exactly `num_public_inputs + 1` bases, α, β, γ, δ must not be the identity,
/// and IC bases may be.
pub fn validate_verifying_key(env: &Env, vk: &VerifyingKey, num_public_inputs: u32) -> (r: Result<(), Error>)
    requires
        vk_decode_curve_ok(*vk, num_public_inputs),
    ensures
        r == vk_check(*vk, num_public_inputs),
        r is Ok ==> vk_valid(*vk),
{
    if num_public_inputs > MAX_PUBLIC_INPUTS {
        return Err(Error::UnsupportedArity);
    }
    if vk.ic.len() != num_public_inputs as usize + 1 {
        return Err(Error::MalformedVerifyingKey);
    }
    decode_g1(env, &vk.alpha_g1, false)?;
    decode_g2(env, &vk.beta_g2, false)?;
    decode_g2(env, &vk.gamma_g2, false)?;
    decode_g2(env, &vk.delta_g2, false)?;
    let n = vk.ic.len();
    let mut i: usize = 0;
    while i < n
        invariant
            n == vk.ic@.len(),
            i <= n,
            forall|t: int| 0 <= t < vk.ic@.len() && ic_decoded(vk.ic@, t as nat) is Ok
                ==> g1_curve_ok(#[trigger] vk.ic@[t]),
            num_public_inputs <= MAX_PUBLIC_INPUTS,
            vk.ic@.len() == num_public_inputs + 1,
            g1_decoded(vk.alpha_g1, false) is Ok,
            g2_decoded(vk.beta_g2, false) is Ok,
            g2_decoded(vk.gamma_g2, false) is Ok,
            g2_decoded(vk.delta_g2, false) is Ok,
            g1_valid(vk.alpha_g1) && !g1_is_inf(vk.alpha_g1),
            g2_valid(vk.beta_g2) && !g2_is_inf(vk.beta_g2),
            g2_valid(vk.gamma_g2) && !g2_is_inf(vk.gamma_g2),
            g2_valid(vk.delta_g2) && !g2_is_inf(vk.delta_g2),
            ic_decoded(vk.ic@, i as nat) is Ok,
        decreases n - i,
    {
        let d = decode_g1(env, &vk.ic[i], true);
        match d {
            Err(e) => {
                assert(ic_decoded(vk.ic@, (i + 1) as nat) == Err::<(), Error>(e));
                proof {
                    lemma_ic_decoded_err_stays(vk.ic@, (i + 1) as nat, n as nat);
                }
                return Err(e);
            },
            Ok(_) => {},
        }
        i += 1;
    }
    proof {
        lemma_ic_decoded_valid(vk.ic@, n as nat);
    }
    Ok(())
}

proof fn lemma_ic_decoded_err_stays(ic: Seq<[u8; 96]>, k: nat, m: nat)
    requires
        k <= m,
        ic_decoded(ic, k) is Err,
    ensures
        ic_decoded(ic, m) == ic_decoded(ic, k),
    decreases m - k,
{
    if k < m {
        lemma_ic_decoded_err_stays(ic, k, (m - 1) as nat);
    }
}

/// The bytes of a sequence of G1 encodings, concatenated in order.
pub open spec fn concat_g1(s: Seq<[u8; 96]>) -> Seq<u8>
    decreases s.len(),
{
    if s.len() == 0 {
        Seq::<u8>::empty()
    } else {
        concat_g1(s.drop_last()) + s.last()@
    }
}

/// What the verifying-key digest hashes: the tag, the arity, every point of
/// the key in order, with the number of IC bases before them.
pub open spec fn vk_digest_material(vk: VerifyingKey, n: u32) -> Seq<u8> {
    VK_DIGEST_DST@ + be_u32(n) + vk.alpha_g1@ + vk.beta_g2@ + vk.gamma_g2@ + vk.delta_g2@
        + be_u32(vk.ic@.len() as u32) + concat_g1(vk.ic@)
}

/// SHA-256 fingerprint of a verifying key and its arity.
pub fn verifying_key_digest(env: &Env, vk: &VerifyingKey, num_public_inputs: u32) -> (r: [u8; 32])
    requires
        vk.ic@.len() <= u32::MAX,
    ensures
        r == sha256_digest(vk_digest_material(*vk, num_public_inputs)),
{
    let mut t = Transcript::new(VK_DIGEST_DST.as_slice());
    t.absorb_u32(num_public_inputs);
    t.absorb_bytes(vk.alpha_g1.as_slice());
    t.absorb_bytes(vk.beta_g2.as_slice());
    t.absorb_bytes(vk.gamma_g2.as_slice());
    t.absorb_bytes(vk.delta_g2.as_slice());
    let n = vk.ic.len();
    t.absorb_u32(n as u32);
    let ghost head = t@;
    let mut i: usize = 0;
    while i < n
        invariant
            n == vk.ic@.len(),
            i <= n,
            t@ == head + concat_g1(vk.ic@.subrange(0, i as int)),
        decreases n - i,
    {
        t.absorb_bytes(vk.ic[i].as_slice());
        proof {
            let s = vk.ic@.subrange(0, i + 1);
            assert(s.drop_last() =~= vk.ic@.subrange(0, i as int));
        }
        i += 1;
    }
    assert(vk.ic@.subrange(0, n as int) =~= vk.ic@);
    t.finalize(env)
}

/// Whether every scalar of `xs` is canonical.
pub open spec fn all_canonical(xs: Seq<[u8; 32]>) -> bool {
    forall|j: int| 0 <= j < xs.len() ==> canonical(#[trigger] xs[j])
}

/// How the commitment `L = IC_0 + Σ x_j · IC_j` to public inputs `xs` is
/// answered.
pub open spec fn commitment_of(vk: VerifyingKey, xs: Seq<[u8; 32]>) -> Result<[u8; 96], Error> {
    if vk.ic@.len() != xs.len() + 1 {
        Err(Error::PublicInputCountMismatch)
    } else if !all_canonical(xs) {
        Err(Error::NonCanonicalScalar)
    } else {
        Ok(g1_msm_of(vk.ic@, scalar_views(seq![SCALAR_ONE] + xs)))
    }
}

/// `L = IC_0 + Σ x_j · IC_j` in one host multi-scalar multiplication, the
/// constant base folded in with scalar one.
pub fn public_input_commitment(env: &Env, vk: &VerifyingKey, public_inputs: &Vec<[u8; 32]>) -> (r: Result<[u8; 96], Error>)
    requires
        vk_points_ok(*vk),
    ensures
        r == commitment_of(*vk, public_inputs@),
        r matches Ok(l) ==> g1_valid(l),
{
    let n = public_inputs.len();
    if vk.ic.len() == 0 || vk.ic.len() - 1 != n {
        return Err(Error::PublicInputCountMismatch);
    }
    let mut scalars: Vec<[u8; 32]> = Vec::new();
    scalars.push(SCALAR_ONE);
    let mut j: usize = 0;
    while j < n
        invariant
            n == public_inputs@.len(),
            vk.ic@.len() == n + 1,
            j <= n,
            scalars@ == seq![SCALAR_ONE] + public_inputs@.subrange(0, j as int),
            forall|k: int| 0 <= k < j ==> canonical(#[trigger] public_inputs@[k]),
        decreases n - j,
    {
        let x = match checked_scalar(&public_inputs[j]) {
            Ok(x) => x,
            Err(e) => {
                assert(!canonical(public_inputs@[j as int]));
                assert(!all_canonical(public_inputs@));
                return Err(e);
            },
        };
        scalars.push(x);
        j += 1;
        assert(scalars@ =~= seq![SCALAR_ONE] + public_inputs@.subrange(0, j as int));
    }
    assert(public_inputs@.subrange(0, n as int) =~= public_inputs@);
    Ok(g1_msm(env, &vk.ic, &scalars))
}

/// The negation the host computes is `g1_negated`.
proof fn lemma_negated(p: [u8; 96], q: [u8; 96])
    requires
        q@ == p@.subrange(0, 48) + fp_neg_limb(p@.subrange(48, 96)),
    ensures
        q == g1_negated(p),
{
    let c = g1_negated(p);
    assert(c@ == p@.subrange(0, 48) + fp_neg_limb(p@.subrange(48, 96)));
    assert(c =~= q);
}

/// How the verification of one proof is answered.
pub open spec fn proof_check(vk: VerifyingKey, proof: Groth16Proof, xs: Seq<[u8; 32]>) -> Result<(), Error> {
    match g1_decoded(proof.a, false) {
        Err(e) => Err(e),
        Ok(_) => match g2_decoded(proof.b, false) {
            Err(e) => Err(e),
            Ok(_) => match g1_decoded(proof.c, false) {
                Err(e) => Err(e),
                Ok(_) => match commitment_of(vk, xs) {
                    Err(e) => Err(e),
                    Ok(l) => if pairing_is_one(
                        seq![g1_negated(proof.a), vk.alpha_g1, l, proof.c],
                        seq![proof.b, vk.beta_g2, vk.gamma_g2, vk.delta_g2],
                    ) {
                        Ok(())
                    } else {
                        Err(Error::ProofVerificationFailed)
                    },
                },
            },
        },
    }
}

/// What the host needs of a proof's points not to abort, in the order they
/// are decoded: `A`; `B` once `A` decodes; `C` once `B` decodes too.
pub open spec fn member_curve_ok(p: Groth16Proof) -> bool {
    &&& g1_curve_ok(p.a)
    &&& g1_decoded(p.a, false) is Ok ==> g2_curve_ok(p.b)
    &&& g1_decoded(p.a, false) is Ok && g2_decoded(p.b, false) is Ok ==> g1_curve_ok(p.c)
}

/// All three points of a proof decode.
pub open spec fn member_decodes(p: Groth16Proof) -> bool {
    &&& g1_decoded(p.a, false) is Ok
    &&& g2_decoded(p.b, false) is Ok
    &&& g1_decoded(p.c, false) is Ok
}

/// What the host needs of a key's points not to abort: each one usable, the
/// identity allowed.
pub open spec fn vk_points_ok(vk: VerifyingKey) -> bool {
    &&& g1_valid(vk.alpha_g1)
    &&& g2_valid(vk.beta_g2)
    &&& g2_valid(vk.gamma_g2)
    &&& g2_valid(vk.delta_g2)
    &&& forall|i: int| 0 <= i < vk.ic@.len() ==> g1_valid(#[trigger] vk.ic@[i])
}

/// Verify one Groth16 proof against a validated key: `Ok` exactly when every
/// proof point decodes, the inputs fit the key and are canonical, and
/// `e(-A, B) · e(α, β) · e(L, γ) · e(C, δ) = 1`.
pub fn verify_proof(env: &Env, vk: &VerifyingKey, proof: &Groth16Proof, public_inputs: &Vec<[u8; 32]>) -> (r: Result<(), Error>)
    requires
        member_curve_ok(*proof),
        member_decodes(*proof) ==> vk_points_ok(*vk),
    ensures
        r == proof_check(*vk, *proof, public_inputs@),
{
    let a = decode_g1(env, &proof.a, false)?;
    let b = decode_g2(env, &proof.b, false)?;
    let c = decode_g1(env, &proof.c, false)?;
    let l = public_input_commitment(env, vk, public_inputs)?;
    let neg_a = g1_neg(env, &a);
    proof {
        lemma_negated(a, neg_a);
    }
    let g1: Vec<[u8; 96]> = vec![neg_a, vk.alpha_g1, l, c];
    let g2: Vec<[u8; 192]> = vec![b, vk.beta_g2, vk.gamma_g2, vk.delta_g2];
    assert(g1@ =~= seq![g1_negated(proof.a), vk.alpha_g1, l, proof.c]);
    assert(g2@ =~= seq![proof.b, vk.beta_g2, vk.gamma_g2, vk.delta_g2]);
    if pairing_check(env, &g1, &g2) {
        Ok(())
    } else {
        Err(Error::ProofVerificationFailed)
    }
}

/// Whether a proof verifies.
pub fn is_valid_proof(env: &Env, vk: &VerifyingKey, proof: &Groth16Proof, public_inputs: &Vec<[u8; 32]>) -> (r: bool)
    requires
        member_curve_ok(*proof),
        member_decodes(*proof) ==> vk_points_ok(*vk),
    ensures
        r == (proof_check(*vk, *proof, public_inputs@) is Ok),
{
    verify_proof(env, vk, proof, public_inputs).is_ok()
}

/// Indices of the proofs of a batch that fail verification on their own, in
/// order. Costs a full verification per member.
pub fn locate_batch_failures(
    env: &Env,
    vk: &VerifyingKey,
    proofs: &Vec<Groth16Proof>,
    inputs: &Vec<Vec<[u8; 32]>>,
) -> (r: Vec<u32>)
    requires
        proofs@.len() <= inputs@.len(),
        proofs@.len() <= u32::MAX,
        forall|i: int| 0 <= i < proofs@.len() ==> member_curve_ok(#[trigger] proofs@[i])
            && (member_decodes(proofs@[i]) ==> vk_points_ok(*vk)),
    ensures
        r@ == failing_members(*vk, proofs@, inputs@, proofs@.len()),
{
    let n = proofs.len();
    let mut failed: Vec<u32> = Vec::new();
    let mut i: usize = 0;
    while i < n
        invariant
            n == proofs@.len(),
            n <= inputs@.len(),
            n <= u32::MAX,
            i <= n,
            forall|k: int| 0 <= k < proofs@.len() ==> member_curve_ok(#[trigger] proofs@[k])
                && (member_decodes(proofs@[k]) ==> vk_points_ok(*vk)),
            failed@ == failing_members(*vk, proofs@, inputs@, i as nat),
        decreases n - i,
    {
        if !is_valid_proof(env, vk, &proofs[i], &inputs[i]) {
            failed.push(i as u32);
        }
        i += 1;
    }
    failed
}

/// Indices below `k` whose proof fails on its own, in order.
pub open spec fn failing_members(
    vk: VerifyingKey,
    proofs: Seq<Groth16Proof>,
    inputs: Seq<Vec<[u8; 32]>>,
    k: nat,
) -> Seq<u32>
    decreases k,
{
    if k == 0 {
        Seq::<u32>::empty()
    } else {
        let before = failing_members(vk, proofs, inputs, (k - 1) as nat);
        if proof_check(vk, proofs[k - 1], inputs[k - 1]@) is Ok {
            before
        } else {
            before.push((k - 1) as u32)
        }
    }
}

// ---------------------------------------------------------------------------
// Batch verification
// ---------------------------------------------------------------------------

/// The bytes of a row of scalars, concatenated in order.
pub open spec fn concat_scalars(s: Seq<[u8; 32]>) -> Seq<u8>
    decreases s.len(),
{
    if s.len() == 0 {
        Seq::<u8>::empty()
    } else {
        concat_scalars(s.drop_last()) + s.last()@
    }
}

/// What one member of a batch adds to the transcript.
pub open spec fn member_material(p: Groth16Proof, xs: Seq<[u8; 32]>) -> Seq<u8> {
    p.a@ + p.b@ + p.c@ + be_u32(xs.len() as u32) + concat_scalars(xs)
}

/// What the first `k` members of a batch add to the transcript.
pub open spec fn members_material(proofs: Seq<Groth16Proof>, inputs: Seq<Vec<[u8; 32]>>, k: nat) -> Seq<u8>
    decreases k,
{
    if k == 0 {
        Seq::<u8>::empty()
    } else {
        members_material(proofs, inputs, (k - 1) as nat) + member_material(proofs[k - 1], inputs[k - 1]@)
    }
}

/// The whole batch transcript: tag, key digest, batch size, then every
/// member's points and inputs in order.
pub open spec fn batch_material(vk_digest: [u8; 32], proofs: Seq<Groth16Proof>, inputs: Seq<Vec<[u8; 32]>>) -> Seq<u8> {
    BATCH_DST@ + vk_digest@ + be_u32(proofs.len() as u32) + members_material(proofs, inputs, proofs.len())
}

/// The batch coefficients `r_i`, one challenge per member.
pub open spec fn batch_challenges(vk_digest: [u8; 32], proofs: Seq<Groth16Proof>, inputs: Seq<Vec<[u8; 32]>>) -> Seq<[u8; 32]> {
    Seq::new(proofs.len(), |i: int| challenge_of(batch_material(vk_digest, proofs, inputs), i as u32))
}

/// Every one of the first `n` input rows has one scalar per non-constant base.
pub open spec fn inputs_fit(inputs: Seq<Vec<[u8; 32]>>, arity: nat, n: nat) -> bool {
    forall|i: int| 0 <= i < n ==> #[trigger] inputs[i]@.len() + 1 == arity
}

/// How one member's points and inputs are answered.
pub open spec fn member_check(p: Groth16Proof, xs: Seq<[u8; 32]>) -> Result<(), Error> {
    match g1_decoded(p.a, false) {
        Err(e) => Err(e),
        Ok(_) => match g2_decoded(p.b, false) {
            Err(e) => Err(e),
            Ok(_) => match g1_decoded(p.c, false) {
                Err(e) => Err(e),
                Ok(_) => if all_canonical(xs) {
                    Ok(())
                } else {
                    Err(Error::NonCanonicalScalar)
                },
            },
        },
    }
}

/// The first refusal among the first `k` members.
pub open spec fn members_check(proofs: Seq<Groth16Proof>, inputs: Seq<Vec<[u8; 32]>>, k: nat) -> Result<(), Error>
    decreases k,
{
    if k == 0 {
        Ok(())
    } else {
        match members_check(proofs, inputs, (k - 1) as nat) {
            Err(e) => Err(e),
            Ok(_) => member_check(proofs[k - 1], inputs[k - 1]@),
        }
    }
}

/// `Σ r_i` over the first `k` coefficients, accumulated modulo `r`.
pub open spec fn coeff_sum(rs: Seq<[u8; 32]>, k: nat) -> nat
    decreases k,
{
    if k == 0 {
        0
    } else {
        (coeff_sum(rs, (k - 1) as nat) + be_nat(rs[k - 1]@)) % fr_r()
    }
}

/// Folded coefficient of IC base `j` after `k` members, accumulated modulo
/// `r`: `Σ r_i` for the constant base, `Σ r_i · x_{i, j-1}` for the others.
pub open spec fn ic_fold(rs: Seq<[u8; 32]>, inputs: Seq<Vec<[u8; 32]>>, j: nat, k: nat) -> nat
    decreases k,
{
    if k == 0 {
        0
    } else if j == 0 {
        (ic_fold(rs, inputs, j, (k - 1) as nat) + be_nat(rs[k - 1]@)) % fr_r()
    } else {
        (ic_fold(rs, inputs, j, (k - 1) as nat) + (be_nat(rs[k - 1]@) * be_nat(inputs[k - 1]@[j - 1]@)) % fr_r()) % fr_r()
    }
}

/// The G1 side of the aggregated pairing check.
pub open spec fn batch_pairing_g1(
    vk: VerifyingKey,
    proofs: Seq<Groth16Proof>,
    inputs: Seq<Vec<[u8; 32]>>,
    rs: Seq<[u8; 32]>,
) -> Seq<[u8; 96]> {
    let n = proofs.len();
    Seq::new(n, |i: int| g1_negated(g1_scaled(proofs[i].a, rs[i]@))) + seq![
        g1_scaled(vk.alpha_g1, nat_to_be(32, coeff_sum(rs, n))),
        g1_msm_of(vk.ic@, Seq::new(vk.ic@.len(), |j: int| nat_to_be(32, ic_fold(rs, inputs, j as nat, n)))),
        g1_msm_of(Seq::new(n, |i: int| proofs[i].c), scalar_views(rs)),
    ]
}

/// The G2 side of the aggregated pairing check.
pub open spec fn batch_pairing_g2(vk: VerifyingKey, proofs: Seq<Groth16Proof>) -> Seq<[u8; 192]> {
    Seq::new(proofs.len(), |i: int| proofs[i].b) + seq![vk.beta_g2, vk.gamma_g2, vk.delta_g2]
}

/// What the host needs of a batch not to abort, along the order in which it
/// is checked: once the size and arity checks pass, each member's points as
/// soon as every earlier member passed, and the key's points once all did.
#[verifier::opaque]
pub open spec fn batch_curve_ok(
    vk: VerifyingKey,
    proofs: Seq<Groth16Proof>,
    inputs: Seq<Vec<[u8; 32]>>,
    max_batch: u32,
) -> bool {
    let n = proofs.len();
    0 < n <= max_batch && inputs.len() == n && inputs_fit(inputs, vk.ic@.len(), n) ==> {
        &&& forall|i: int| 0 <= i < n && members_check(proofs, inputs, i as nat) is Ok
            ==> member_curve_ok(#[trigger] proofs[i])
        &&& members_check(proofs, inputs, n) is Ok ==> vk_points_ok(vk)
    }
}

/// What `batch_curve_ok` yields once the size and arity checks passed: the
/// points of member `i` when every earlier member passed, and the key's
/// points when all did.
proof fn lemma_batch_curve_ok(vk: VerifyingKey, proofs: Seq<Groth16Proof>, inputs: Seq<Vec<[u8; 32]>>, max_batch: u32, i: int)
    requires
        batch_curve_ok(vk, proofs, inputs, max_batch),
        0 < proofs.len() <= max_batch,
        inputs.len() == proofs.len(),
        inputs_fit(inputs, vk.ic@.len(), proofs.len()),
    ensures
        0 <= i < proofs.len() && members_check(proofs, inputs, i as nat) is Ok ==> member_curve_ok(proofs[i]),
        members_check(proofs, inputs, proofs.len()) is Ok ==> vk_points_ok(vk),
{
    reveal(batch_curve_ok);
}

/// A batch whose every member's points and whose key's points the host can
/// take meets `batch_curve_ok`.
pub proof fn lemma_batch_curve_ok_of_all(vk: VerifyingKey, proofs: Seq<Groth16Proof>, inputs: Seq<Vec<[u8; 32]>>, max_batch: u32)
    requires
        vk_points_ok(vk),
        forall|i: int| 0 <= i < proofs.len() ==> member_curve_ok(#[trigger] proofs[i]),
    ensures
        batch_curve_ok(vk, proofs, inputs, max_batch),
{
    reveal(batch_curve_ok);
}

/// How the aggregate verification of a batch is answered.
pub open spec fn batch_check(
    vk: VerifyingKey,
    vk_digest: [u8; 32],
    proofs: Seq<Groth16Proof>,
    inputs: Seq<Vec<[u8; 32]>>,
    max_batch: u32,
) -> Result<(), Error> {
    let n = proofs.len();
    if n == 0 {
        Err(Error::EmptyBatch)
    } else if n > max_batch {
        Err(Error::BatchTooLarge)
    } else if inputs.len() != n {
        Err(Error::BatchLengthMismatch)
    } else if !inputs_fit(inputs, vk.ic@.len(), n) {
        Err(Error::PublicInputCountMismatch)
    } else {
        match members_check(proofs, inputs, n) {
            Err(e) => Err(e),
            Ok(_) => {
                let rs = batch_challenges(vk_digest, proofs, inputs);
                if pairing_is_one(batch_pairing_g1(vk, proofs, inputs, rs), batch_pairing_g2(vk, proofs)) {
                    Ok(())
                } else {
                    Err(Error::BatchVerificationFailed)
                }
            },
        }
    }
}

proof fn lemma_members_check_err_stays(proofs: Seq<Groth16Proof>, inputs: Seq<Vec<[u8; 32]>>, k: nat, m: nat)
    requires
        k <= m,
        members_check(proofs, inputs, k) is Err,
    ensures
        members_check(proofs, inputs, m) == members_check(proofs, inputs, k),
    decreases m - k,
{
    if k < m {
        lemma_members_check_err_stays(proofs, inputs, k, (m - 1) as nat);
    }
}

/// Absorb a row of scalars.
fn absorb_scalars(t: &mut Transcript, xs: &Vec<[u8; 32]>)
    ensures
        final(t)@ == old(t)@ + concat_scalars(xs@),
{
    let ghost start = t@;
    let n = xs.len();
    let mut j: usize = 0;
    while j < n
        invariant
            n == xs@.len(),
            j <= n,
            t@ == start + concat_scalars(xs@.subrange(0, j as int)),
        decreases n - j,
    {
        t.absorb_bytes(xs[j].as_slice());
        proof {
            assert(xs@.subrange(0, j + 1).drop_last() =~= xs@.subrange(0, j as int));
        }
        j += 1;
    }
    assert(xs@.subrange(0, n as int) =~= xs@);
}

/// The batch transcript, refused when some row of inputs does not fit the key.
fn batch_transcript(
    vk_digest: &[u8; 32],
    proofs: &Vec<Groth16Proof>,
    inputs: &Vec<Vec<[u8; 32]>>,
    arity: usize,
) -> (r: Result<Transcript, Error>)
    requires
        proofs@.len() == inputs@.len(),
        proofs@.len() <= u32::MAX,
        arity <= u32::MAX + 1,
    ensures
        r is Err ==> r == Err::<Transcript, Error>(Error::PublicInputCountMismatch)
            && !inputs_fit(inputs@, arity as nat, proofs@.len()),
        r matches Ok(t) ==> t@ == batch_material(*vk_digest, proofs@, inputs@)
            && inputs_fit(inputs@, arity as nat, proofs@.len()),
{
    let n = proofs.len();
    let mut t = Transcript::new(BATCH_DST.as_slice());
    t.absorb_bytes(vk_digest.as_slice());
    t.absorb_u32(n as u32);
    let ghost head = t@;
    let mut i: usize = 0;
    while i < n
        invariant
            n == proofs@.len(),
            n == inputs@.len(),
            arity <= u32::MAX + 1,
            i <= n,
            t@ == head + members_material(proofs@, inputs@, i as nat),
            inputs_fit(inputs@, arity as nat, i as nat),
        decreases n - i,
    {
        let p = &proofs[i];
        t.absorb_bytes(p.a.as_slice());
        t.absorb_bytes(p.b.as_slice());
        t.absorb_bytes(p.c.as_slice());
        let xs = &inputs[i];
        if arity == 0 || xs.len() != arity - 1 {
            assert(inputs@[i as int]@.len() + 1 != arity);
            return Err(Error::PublicInputCountMismatch);
        }
        t.absorb_u32(xs.len() as u32);
        absorb_scalars(&mut t, xs);
        proof {
            assert(t@ =~= head + members_material(proofs@, inputs@, (i + 1) as nat));
        }
        i += 1;
    }
    Ok(t)
}

/// Fold one member into the IC coefficients: `r` onto the constant base's,
/// `r · x_j` onto base `j + 1`'s; refused at the first non-canonical input.
fn fold_member(env: &Env, coeffs: &mut Vec<[u8; 32]>, r: &[u8; 32], xs: &Vec<[u8; 32]>) -> (res: Result<(), Error>)
    requires
        old(coeffs)@.len() == xs@.len() + 1,
    ensures
        res is Err ==> res == Err::<(), Error>(Error::NonCanonicalScalar) && !all_canonical(xs@),
        res is Ok ==> all_canonical(xs@)
            && final(coeffs)@.len() == old(coeffs)@.len()
            && final(coeffs)@[0]@ == nat_to_be(32, (be_nat(old(coeffs)@[0]@) + be_nat(r@)) % fr_r())
            && forall|j: int| 1 <= j < final(coeffs)@.len() ==> (#[trigger] final(coeffs)@[j])@ == nat_to_be(
                32,
                (be_nat(old(coeffs)@[j]@) + (be_nat(r@) * be_nat(xs@[j - 1]@)) % fr_r()) % fr_r(),
            ),
{
    let c0 = fr_add(env, &coeffs[0], r);
    coeffs.set(0, c0);
    let ghost first = coeffs@;
    let n = xs.len();
    let mut j: usize = 0;
    while j < n
        invariant
            n == xs@.len(),
            j <= n,
            coeffs@.len() == n + 1,
            coeffs@[0] == first[0],
            first.len() == n + 1,
            forall|k: int| j + 1 <= k < n + 1 ==> coeffs@[k] == first[k],
            forall|k: int| 0 <= k < j ==> canonical(#[trigger] xs@[k]),
            forall|k: int| 1 <= k < j + 1 ==> (#[trigger] coeffs@[k])@ == nat_to_be(
                32,
                (be_nat(first[k]@) + (be_nat(r@) * be_nat(xs@[k - 1]@)) % fr_r()) % fr_r(),
            ),
        decreases n - j,
    {
        let x = match checked_scalar(&xs[j]) {
            Ok(x) => x,
            Err(e) => {
                assert(!canonical(xs@[j as int]));
                return Err(e);
            },
        };
        let term = fr_mul(env, r, &x);
        let prev = coeffs[j + 1];
        let next = fr_add(env, &prev, &term);
        proof {
            assert(be_nat(term@) == (be_nat(r@) * be_nat(xs@[j as int]@)) % fr_r()) by {
                lemma_fr_r_bounds();
                lemma_fr_roundtrip((be_nat(r@) * be_nat(x@)) % fr_r());
            }
        }
        coeffs.set(j + 1, next);
        j += 1;
    }
    proof {
        assert forall|k: int| 1 <= k < coeffs@.len() implies (#[trigger] coeffs@[k])@ == nat_to_be(
            32,
            (be_nat(old(coeffs)@[k]@) + (be_nat(r@) * be_nat(xs@[k - 1]@)) % fr_r()) % fr_r(),
        ) by {
            assert(first[k] == old(coeffs)@[k]);
        }
    }
    Ok(())
}

/// Verify `n` proofs against one key with `n + 3` pairings instead of `4n`.
///
/// Member `i`'s equation is raised to a coefficient `r_i` squeezed from a
/// transcript of the whole batch, and the equations are multiplied together:
/// `Π e(-r_i·A_i, B_i) · e((Σ r_i)·α, β) · e(Σ r_i·L_i, γ) · e(Σ r_i·C_i, δ) = 1`,
/// where `Σ r_i·L_i` is one multi-scalar multiplication over the IC bases with
/// the folded coefficients `Σ_i r_i · x_{i,j}`.
pub fn verify_batch(
    env: &Env,
    vk: &VerifyingKey,
    vk_digest: &[u8; 32],
    proofs: &Vec<Groth16Proof>,
    inputs: &Vec<Vec<[u8; 32]>>,
    max_batch: u32,
) -> (r: Result<(), Error>)
    requires
        vk.ic@.len() <= u32::MAX,
        batch_curve_ok(*vk, proofs@, inputs@, max_batch),
    ensures
        r == batch_check(*vk, *vk_digest, proofs@, inputs@, max_batch),
{
    let n = proofs.len();
    if n == 0 {
        return Err(Error::EmptyBatch);
    }
    if n > max_batch as usize {
        return Err(Error::BatchTooLarge);
    }
    if inputs.len() != n {
        return Err(Error::BatchLengthMismatch);
    }
    let arity = vk.ic.len();
    let transcript = batch_transcript(vk_digest, proofs, inputs, arity)?;
    let ghost rs = batch_challenges(*vk_digest, proofs@, inputs@);
    proof {
        lemma_fr_r_bounds();
        assert(0 < n <= max_batch && inputs@.len() == n && inputs_fit(inputs@, vk.ic@.len(), n as nat));
    }

    let mut ic_coeffs: Vec<[u8; 32]> = Vec::new();
    let mut k: usize = 0;
    while k < arity
        invariant
            k <= arity,
            ic_coeffs@.len() == k,
            forall|j: int| 0 <= j < k ==> #[trigger] ic_coeffs@[j] == SCALAR_ZERO,
        decreases arity - k,
    {
        ic_coeffs.push(SCALAR_ZERO);
        k += 1;
    }
    proof {
        crate::bytes::lemma_nat_to_be_zero(32);
        assert(SCALAR_ZERO@ =~= nat_to_be(32, 0));
    }

    let mut pair_g1: Vec<[u8; 96]> = Vec::new();
    let mut pair_g2: Vec<[u8; 192]> = Vec::new();
    let mut c_bases: Vec<[u8; 96]> = Vec::new();
    let mut c_scalars: Vec<[u8; 32]> = Vec::new();
    let mut alpha_coeff = SCALAR_ZERO;
    let mut i: usize = 0;
    while i < n
        invariant
            n == proofs@.len(),
            n == inputs@.len(),
            0 < n <= max_batch,
            i <= n,
            arity == vk.ic@.len(),
            0 < fr_r(),
            batch_curve_ok(*vk, proofs@, inputs@, max_batch),
            inputs_fit(inputs@, arity as nat, n as nat),
            transcript@ == batch_material(*vk_digest, proofs@, inputs@),
            rs == batch_challenges(*vk_digest, proofs@, inputs@),
            members_check(proofs@, inputs@, i as nat) is Ok,
            pair_g1@ == Seq::new(i as nat, |t: int| g1_negated(g1_scaled(proofs@[t].a, rs[t]@))),
            pair_g2@ == Seq::new(i as nat, |t: int| proofs@[t].b),
            c_bases@ == Seq::new(i as nat, |t: int| proofs@[t].c),
            c_scalars@ == rs.subrange(0, i as int),
            forall|t: int| 0 <= t < i ==> g1_valid(#[trigger] pair_g1@[t]),
            forall|t: int| 0 <= t < i ==> g2_valid(#[trigger] pair_g2@[t]),
            forall|t: int| 0 <= t < i ==> g1_valid(#[trigger] c_bases@[t]),
            alpha_coeff@ == nat_to_be(32, coeff_sum(rs, i as nat)),
            coeff_sum(rs, i as nat) < fr_r(),
            ic_coeffs@.len() == arity,
            forall|j: int| 0 <= j < arity ==> (#[trigger] ic_coeffs@[j])@ == nat_to_be(32, ic_fold(rs, inputs@, j as nat, i as nat)),
            forall|j: int| 0 <= j < arity ==> #[trigger] ic_fold(rs, inputs@, j as nat, i as nat) < fr_r(),
        decreases n - i,
    {
        let proof = &proofs[i];
        proof {
            lemma_batch_curve_ok(*vk, proofs@, inputs@, max_batch, i as int);
        }
        let r = transcript.challenge(env, i as u32);
        assert(r == rs[i as int]);
        let a = match decode_g1(env, &proof.a, false) {
            Ok(a) => a,
            Err(e) => {
                assert(members_check(proofs@, inputs@, (i + 1) as nat) == Err::<(), Error>(e));
                proof { lemma_members_check_err_stays(proofs@, inputs@, (i + 1) as nat, n as nat); }
                return Err(e);
            },
        };
        let b = match decode_g2(env, &proof.b, false) {
            Ok(b) => b,
            Err(e) => {
                assert(members_check(proofs@, inputs@, (i + 1) as nat) == Err::<(), Error>(e));
                proof { lemma_members_check_err_stays(proofs@, inputs@, (i + 1) as nat, n as nat); }
                return Err(e);
            },
        };
        let c = match decode_g1(env, &proof.c, false) {
            Ok(c) => c,
            Err(e) => {
                assert(members_check(proofs@, inputs@, (i + 1) as nat) == Err::<(), Error>(e));
                proof { lemma_members_check_err_stays(proofs@, inputs@, (i + 1) as nat, n as nat); }
                return Err(e);
            },
        };
        let scaled = g1_mul(env, &a, &r);
        let neg = g1_neg(env, &scaled);
        proof {
            lemma_negated(scaled, neg);
        }
        pair_g1.push(neg);
        pair_g2.push(b);
        c_bases.push(c);
        c_scalars.push(r);

        let ghost old_alpha = alpha_coeff;
        alpha_coeff = fr_add(env, &alpha_coeff, &r);
        proof {
            lemma_fr_roundtrip(coeff_sum(rs, i as nat));
        }

        let ghost old_coeffs = ic_coeffs@;
        match fold_member(env, &mut ic_coeffs, &r, &inputs[i]) {
            Ok(()) => {},
            Err(e) => {
                assert(members_check(proofs@, inputs@, (i + 1) as nat) == Err::<(), Error>(e));
                proof { lemma_members_check_err_stays(proofs@, inputs@, (i + 1) as nat, n as nat); }
                return Err(e);
            },
        }
        proof {
            assert forall|j: int| 0 <= j < arity implies (#[trigger] ic_coeffs@[j])@ == nat_to_be(
                32,
                ic_fold(rs, inputs@, j as nat, (i + 1) as nat),
            ) && ic_fold(rs, inputs@, j as nat, (i + 1) as nat) < fr_r() by {
                lemma_fr_roundtrip(ic_fold(rs, inputs@, j as nat, i as nat));
            }
            assert(members_check(proofs@, inputs@, (i + 1) as nat) is Ok);
            assert(pair_g1@ =~= Seq::new((i + 1) as nat, |t: int| g1_negated(g1_scaled(proofs@[t].a, rs[t]@))));
            assert(pair_g2@ =~= Seq::new((i + 1) as nat, |t: int| proofs@[t].b));
            assert(c_bases@ =~= Seq::new((i + 1) as nat, |t: int| proofs@[t].c));
            assert(c_scalars@ =~= rs.subrange(0, (i + 1) as int));
        }
        i += 1;
    }

    proof {
        lemma_batch_curve_ok(*vk, proofs@, inputs@, max_batch, 0);
    }
    let folded_l = g1_msm(env, &vk.ic, &ic_coeffs);
    let alpha_term = g1_mul(env, &vk.alpha_g1, &alpha_coeff);
    let c_sum = g1_msm(env, &c_bases, &c_scalars);
    let ghost g1_members = pair_g1@;
    let ghost g2_members = pair_g2@;
    pair_g1.push(alpha_term);
    pair_g2.push(vk.beta_g2);
    pair_g1.push(folded_l);
    pair_g2.push(vk.gamma_g2);
    pair_g1.push(c_sum);
    pair_g2.push(vk.delta_g2);
    proof {
        assert(scalar_views(ic_coeffs@) =~= Seq::new(vk.ic@.len(), |j: int| nat_to_be(32, ic_fold(rs, inputs@, j as nat, n as nat))));
        assert(rs.subrange(0, n as int) =~= rs);
        assert(pair_g1@ =~= batch_pairing_g1(*vk, proofs@, inputs@, rs));
        assert(pair_g2@ =~= batch_pairing_g2(*vk, proofs@));
    }
    if pairing_check(env, &pair_g1, &pair_g2) {
        Ok(())
    } else {
        Err(Error::BatchVerificationFailed)
    }
}

} // verus!
