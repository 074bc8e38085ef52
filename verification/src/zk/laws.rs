//! Properties of the metadata verifier that hold across its operations.

use vstd::prelude::*;
use crate::bytes::be_nat;
use crate::zk::attestation::{attestation_expiry, issued_as};
use crate::zk::errors::Error;
use crate::zk::field::fr_r;
use crate::zk::groth16::{coeff_sum, ic_fold};
use crate::zk::policy::{issuer_binding, signals_check, VERDICT_SAFE};
use crate::zk::state::{counts_match, role_tag, ZkMetadataVerifier};
use crate::zk::types::{Attestation, AttestationStatus, Groth16Proof, MetadataSignals, Policy, Role};

verus! {

/// `Σ_{i<k} r_i · x_{i,j-1}` over the integers (`Σ_{i<k} r_i` for `j = 0`).
pub open spec fn folded_sum(rs: Seq<[u8; 32]>, inputs: Seq<Vec<[u8; 32]>>, j: nat, k: nat) -> int
    decreases k,
{
    if k == 0 {
        0
    } else if j == 0 {
        folded_sum(rs, inputs, j, (k - 1) as nat) + be_nat(rs[k - 1]@)
    } else {
        folded_sum(rs, inputs, j, (k - 1) as nat) + be_nat(rs[k - 1]@) * be_nat(inputs[k - 1]@[j - 1]@)
    }
}

/// The folded IC coefficients the batch verifier accumulates step by step,
/// reducing modulo `r` as it goes, are the sums `Σ_i r_i · x_{i,j}` taken
/// modulo `r` once: swapping the order of summation is sound.
pub proof fn law_folded_coefficients(rs: Seq<[u8; 32]>, inputs: Seq<Vec<[u8; 32]>>, j: nat, k: nat)
    ensures
        ic_fold(rs, inputs, j, k) == folded_sum(rs, inputs, j, k) % (fr_r() as int),
        j == 0 ==> coeff_sum(rs, k) == ic_fold(rs, inputs, j, k),
    decreases k,
{
    crate::zk::field::lemma_fr_r_bounds();
    let m = fr_r() as int;
    if k == 0 {
        assert(0int % m == 0) by {
            vstd::arithmetic::div_mod::lemma_small_mod(0, m as nat);
        }
    } else {
        law_folded_coefficients(rs, inputs, j, (k - 1) as nat);
        let prev = folded_sum(rs, inputs, j, (k - 1) as nat);
        let r = be_nat(rs[k - 1]@) as int;
        if j == 0 {
            vstd::arithmetic::div_mod::lemma_add_mod_noop(prev, r, m);
            vstd::arithmetic::div_mod::lemma_mod_twice(r, m);
            vstd::arithmetic::div_mod::lemma_add_mod_noop(prev % m, r, m);
            vstd::arithmetic::div_mod::lemma_mod_twice(prev, m);
        } else {
            let t = r * (be_nat(inputs[k - 1]@[j - 1]@) as int);
            vstd::arithmetic::div_mod::lemma_add_mod_noop(prev, t, m);
            vstd::arithmetic::div_mod::lemma_mod_twice(prev, m);
            vstd::arithmetic::div_mod::lemma_mod_twice(t, m);
            vstd::arithmetic::div_mod::lemma_add_mod_noop(prev % m, t % m, m);
        }
    }
}

/// The admin holds every role.
pub proof fn law_admin_holds_every_role(s: ZkMetadataVerifier, who: Seq<u8>, role: Role)
    requires
        s.admin_is(who) == Ok::<bool, Error>(true),
    ensures
        s.role_check(who, role) == Ok::<(), Error>(()),
{
}

/// A spent nullifier can never back another attestation.
pub proof fn law_nullifier_single_use(
    s: ZkMetadataVerifier,
    issuer: Seq<u8>,
    proof: Groth16Proof,
    signals: MetadataSignals,
    now: u32,
)
    requires
        s.nullifiers@.contains_key(signals.nullifier@),
    ensures
        s.metadata_check(issuer, proof, signals, now) is Err,
{
}

/// A consumed attestation cannot be consumed again.
pub proof fn law_attestation_consumed_once(s: ZkMetadataVerifier, commitment: Seq<u8>, issuer: Seq<u8>, now: u32)
    requires
        s.attestations@.contains_key(commitment),
        s.attestations@[commitment].consumed,
    ensures
        s.consume_check(commitment, issuer, now) == Err::<(), Error>(Error::AttestationAlreadyConsumed),
{
}

/// While paused, an initialized verifier verifies nothing and lets nothing
/// be consumed.
pub proof fn law_pause_blocks_verification(
    s: ZkMetadataVerifier,
    issuer: Seq<u8>,
    circuit_id: Seq<u8>,
    proof: Groth16Proof,
    xs: Seq<[u8; 32]>,
    proofs: Seq<Groth16Proof>,
    inputs: Seq<Vec<[u8; 32]>>,
    signals: MetadataSignals,
    commitment: Seq<u8>,
    now: u32,
)
    requires
        s.initialized,
        s.paused,
    ensures
        s.metadata_check(issuer, proof, signals, now) == Err::<(), Error>(Error::Paused),
        s.proof_request_check(circuit_id, proof, xs) == Err::<(), Error>(Error::Paused),
        s.batch_request_check(circuit_id, proofs, inputs, true) == Err::<(), Error>(Error::Paused),
        s.consume_request_check(issuer, commitment, issuer, now) == Err::<(), Error>(Error::Paused),
{
}

/// A rotation is finalized only once its timelock has run out, and never on
/// a frozen circuit; a frozen circuit gets no new proposal either.
pub proof fn law_rotation_guards(
    s: ZkMetadataVerifier,
    caller: Seq<u8>,
    circuit_id: Seq<u8>,
    vk: crate::zk::types::VerifyingKey,
    n: u32,
    now: u32,
)
    ensures
        s.finalize_check(caller, circuit_id, now) is Ok ==> now >= s.rotations@[circuit_id].eta
            && !s.circuits@[circuit_id].frozen,
        s.circuits@.contains_key(circuit_id) && s.circuits@[circuit_id].frozen ==> s.propose_check(
            caller,
            circuit_id,
            vk,
            n,
            now,
        ) is Err && s.finalize_check(caller, circuit_id, now) is Err,
{
}

/// Policy versions only move forward: a publication or activation that goes
/// through is for a version above the active one.
pub proof fn law_policy_versions_increase(
    s: ZkMetadataVerifier,
    caller: Seq<u8>,
    params: crate::zk::types::PolicyParams,
    version: u32,
)
    ensures
        s.publish_check(caller, params) is Ok ==> (s.active_policy matches Some(a) ==> params.version > a),
        s.activate_check(caller, version) is Ok ==> (s.active_policy matches Some(a) ==> version > a)
            && version > 0,
{
}

/// An attestation never outlives the proof it stands for, nor its lifetime.
pub proof fn law_attestation_expiry_bounded(expiry_ledger: u32, now: u32, ttl: u32)
    ensures
        attestation_expiry(expiry_ledger, now, ttl) <= expiry_ledger,
        attestation_expiry(expiry_ledger, now, ttl) <= now + ttl,
{
}

/// An attestation as issued reads back, at any later ledger, as existing,
/// unconsumed, with the issued score and policy version, and valid exactly
/// while that ledger is not past its expiry.
pub proof fn law_issued_attestation_reads_back(
    s: ZkMetadataVerifier,
    a: Attestation,
    signals: MetadataSignals,
    issuer: Seq<u8>,
    circuit_id: Seq<u8>,
    policy_version: u32,
    issued_at: u32,
    ttl: u32,
    later: u32,
)
    requires
        issued_as(a, signals, issuer, circuit_id, policy_version, issued_at, ttl),
        s.attestations@.contains_key(signals.metadata_commitment@),
        s.attestations@[signals.metadata_commitment@].same_as(a),
    ensures
        s.status_of(signals.metadata_commitment@, later) == (AttestationStatus {
            exists: true,
            valid: later <= a.expires_at,
            consumed: false,
            expired: later > a.expires_at,
            risk_score: signals.risk_score,
            policy_version,
        }),
{
}

/// A consumed attestation reads back as consumed and never as valid.
pub proof fn law_consumed_attestation_reads_consumed(s: ZkMetadataVerifier, commitment: Seq<u8>, later: u32)
    requires
        s.attestations@.contains_key(commitment),
        s.attestations@[commitment].consumed,
    ensures
        s.status_of(commitment, later).exists,
        s.status_of(commitment, later).consumed,
        !s.status_of(commitment, later).valid,
{
}

/// Signals that pass a policy carry the safe verdict, a risk score within
/// the policy, an expiry in the future within the policy's window, and the
/// issuer's binding.
pub proof fn law_accepted_signals(policy: Policy, s: MetadataSignals, issuer: Seq<u8>, now: u32)
    requires
        signals_check(policy, s, issuer, now) is Ok,
    ensures
        s.verdict == VERDICT_SAFE,
        s.risk_score <= policy.max_risk_score,
        now < s.expiry_ledger <= now + policy.max_validity_ledgers,
        s.policy_root == policy.policy_root,
        s.model_commitment == policy.model_commitment,
        s.issuer_hash == issuer_binding(issuer),
{
}

/// A role's recorded holder count is the number of addresses holding it.
pub proof fn law_role_count_is_holders(s: ZkMetadataVerifier, role: Role)
    requires
        s.wf(),
    ensures
        s.holders(role).finite(),
        s.role_count_of(role) as int == s.holders(role).len(),
{
    reveal(counts_match);
    s.roles.lemma_finite();
    s.roles@.dom().lemma_len_filter(|k: Seq<u8>| k.len() > 0 && k[0] == role_tag(role) && s.roles@[k]);
}

} // verus!
