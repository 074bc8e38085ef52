//! Wire types of the metadata verifier: curve points and scalars as their
//! canonical byte encodings, proofs and verifying keys.

use vstd::prelude::*;
use crate::address::Address;

verus! {

/// An uncompressed G1 point: `X || Y`, 48 big-endian bytes each, with the
/// three flag bits in the top of the first byte.
pub type G1Bytes = [u8; 96];
/// An uncompressed G2 point: `X.c1 || X.c0 || Y.c1 || Y.c0`.
pub type G2Bytes = [u8; 192];
/// A scalar-field element, 32 big-endian bytes.
pub type ScalarBytes = [u8; 32];
/// A SHA-256 digest, or any other 32-byte commitment.
pub type Digest = [u8; 32];

/// A Groth16 proof `(A, B, C)`.
#[derive(Clone, Copy, Debug, PartialEq, Eq)]
pub struct Groth16Proof {
    pub a: [u8; 96],
    pub b: [u8; 192],
    pub c: [u8; 96],
}

/// A Groth16 verifying key; `ic` holds one base per public input plus the
/// constant base in front.
#[derive(Clone, Debug, PartialEq, Eq)]
pub struct VerifyingKey {
    pub alpha_g1: [u8; 96],
    pub beta_g2: [u8; 192],
    pub gamma_g2: [u8; 192],
    pub delta_g2: [u8; 192],
    pub ic: Vec<[u8; 96]>,
}

/// A registered circuit.
pub struct CircuitRecord {
    pub circuit_id: Vec<u8>,
    pub vk: VerifyingKey,
    pub num_public_inputs: u32,
    pub vk_digest: [u8; 32],
    pub provenance: Vec<u8>,
    pub enabled: bool,
    pub frozen: bool,
    pub revision: u32,
    pub activated_at: u32,
    pub verifications: u64,
}

/// A proposed verifying-key rotation, waiting for its timelock.
pub struct PendingRotation {
    pub circuit_id: Vec<u8>,
    pub vk: VerifyingKey,
    pub num_public_inputs: u32,
    pub vk_digest: [u8; 32],
    pub eta: u32,
    pub proposer: Address,
}

/// A published screening policy.
pub struct Policy {
    pub version: u32,
    pub policy_root: [u8; 32],
    pub model_commitment: [u8; 32],
    pub max_risk_score: u32,
    pub risk_scale: u32,
    pub max_validity_ledgers: u32,
    pub circuit_id: Vec<u8>,
    pub activated_at: u32,
    pub rulebook_uri: Vec<u8>,
}

/// What a policy administrator publishes.
pub struct PolicyParams {
    pub version: u32,
    pub policy_root: [u8; 32],
    pub model_commitment: [u8; 32],
    pub max_risk_score: u32,
    pub risk_scale: u32,
    pub max_validity_ledgers: u32,
    pub circuit_id: Vec<u8>,
    pub rulebook_uri: Vec<u8>,
}

/// The public signals of the metadata-screening circuit.
#[derive(Clone, Copy, Debug, PartialEq, Eq)]
pub struct MetadataSignals {
    pub verdict: u32,
    pub risk_score: u32,
    pub policy_root: [u8; 32],
    pub model_commitment: [u8; 32],
    pub metadata_commitment: [u8; 32],
    pub issuer_hash: [u8; 32],
    pub nullifier: [u8; 32],
    pub expiry_ledger: u32,
}

/// A record that a metadata commitment passed screening.
pub struct Attestation {
    pub metadata_commitment: [u8; 32],
    pub issuer: Address,
    pub nullifier: [u8; 32],
    pub policy_version: u32,
    pub circuit_id: Vec<u8>,
    pub risk_score: u32,
    pub verified_at: u32,
    pub expires_at: u32,
    pub consumed: bool,
    pub consumer: Option<Address>,
    pub consumed_at: Option<u32>,
}

/// A read-only summary of an attestation.
#[derive(Clone, Copy, Debug, PartialEq, Eq, Structural)]
pub struct AttestationStatus {
    pub exists: bool,
    pub valid: bool,
    pub consumed: bool,
    pub expired: bool,
    pub risk_score: u32,
    pub policy_version: u32,
}

/// The roles of the access-control model. The admin holds every role.
#[derive(Clone, Copy, Debug, PartialEq, Eq, Structural)]
pub enum Role {
    Admin,
    PolicyAdmin,
    CircuitAdmin,
    Pauser,
    Consumer,
}

/// Tunable parameters.
#[derive(Clone, Copy, Debug, PartialEq, Eq, Structural)]
pub struct Config {
    pub rotation_timelock: u32,
    pub nullifier_ttl: u32,
    pub attestation_ttl: u32,
    pub max_batch_size: u32,
    pub require_issuer_auth: bool,
}

/// Counters of what the verifier has done.
#[derive(Clone, Copy, Debug, PartialEq, Eq, Structural)]
pub struct Stats {
    pub proofs_verified: u64,
    pub attestations_issued: u64,
    pub attestations_consumed: u64,
    pub nullifiers_spent: u64,
    pub batches_verified: u64,
}

impl Stats {
    /// All counters at zero.
    pub fn new() -> (s: Stats)
        ensures
            s == (Stats {
                proofs_verified: 0,
                attestations_issued: 0,
                attestations_consumed: 0,
                nullifiers_spent: 0,
                batches_verified: 0,
            }),
    {
        Stats { proofs_verified: 0, attestations_issued: 0, attestations_consumed: 0, nullifiers_spent: 0, batches_verified: 0 }
    }
}

impl Default for Stats {
    /// All counters at zero.
    fn default() -> (s: Stats)
        ensures
            s == (Stats {
                proofs_verified: 0,
                attestations_issued: 0,
                attestations_consumed: 0,
                nullifiers_spent: 0,
                batches_verified: 0,
            }),
    {
        Stats::new()
    }
}

/// The diagnosis of a batch: whether the aggregate check passed, and which
/// members fail on their own when it did not.
pub struct BatchOutcome {
    pub aggregate_ok: bool,
    pub size: u32,
    pub failed: Vec<u32>,
}

/// An outcome with no failing member listed.
pub fn empty_outcome(size: u32, aggregate_ok: bool) -> (r: BatchOutcome)
    ensures
        r.size == size,
        r.aggregate_ok == aggregate_ok,
        r.failed@.len() == 0,
{
    BatchOutcome { aggregate_ok, size, failed: Vec::new() }
}

} // verus!
