//! The verifier's entry points: lifecycle, configuration, verification and
//! the consumption of attestations by registered consumers.

use vstd::prelude::*;
use soroban_sdk::Env;
use crate::address::Address;
use crate::zk::attestation::{bump, issued_as};
use crate::zk::errors::Error;
use crate::zk::field::{canonical, is_canonical};
use crate::zk::groth16::{
    batch_check, batch_curve_ok, failing_members, lemma_batch_curve_ok_of_all, locate_batch_failures, member_curve_ok, proof_check,
    verify_batch as verify_batch_of,
    verify_proof as verify_proof_of, is_valid_proof, verifying_key_digest, vk_digest_material, MAX_BATCH_SIZE,
};
use crate::zk::host::sha256_digest;
use crate::zk::policy::{check_signals, issuer_binding, issuer_hash, signal_inputs, signals_check, signals_to_public_inputs, policy_key};
use crate::zk::state::ZkMetadataVerifier;
use crate::zk::types::{
    CircuitRecord,
    Attestation, AttestationStatus, BatchOutcome, Config, Groth16Proof, MetadataSignals, Role, Stats, VerifyingKey,
};

verus! {

/// Ledgers between a rotation's proposal and its earliest finalization.
pub const DEFAULT_ROTATION_TIMELOCK: u32 = 17_280;
/// Lifetime of a spent nullifier's record.
pub const DEFAULT_NULLIFIER_TTL: u32 = 518_400;
/// Lifetime of an attestation.
pub const DEFAULT_ATTESTATION_TTL: u32 = 120_960;

/// The configuration a fresh verifier starts with.
pub open spec fn default_config() -> Config {
    Config {
        rotation_timelock: DEFAULT_ROTATION_TIMELOCK,
        nullifier_ttl: DEFAULT_NULLIFIER_TTL,
        attestation_ttl: DEFAULT_ATTESTATION_TTL,
        max_batch_size: MAX_BATCH_SIZE,
        require_issuer_auth: true,
    }
}

/// `n` more, saturating.
pub open spec fn bump_by(x: u64, n: u64) -> u64 {
    if x + n > u64::MAX {
        u64::MAX
    } else {
        (x + n) as u64
    }
}

impl ZkMetadataVerifier {
    /// Take `admin` as the first admin, with the default configuration.
    pub fn initialize(&mut self, admin: Address) -> (r: Result<(), Error>)
        requires
            old(self).wf(),
        ensures
            final(self).wf(),
            old(self).initialized ==> r == Err::<(), Error>(Error::AlreadyInitialized) && *final(self) == *old(self),
            !old(self).initialized ==> r is Ok
                && final(self).initialized
                && final(self).admin == Some(admin)
                && final(self).config == Some(default_config())
                && final(self).stats == (Stats {
                    proofs_verified: 0,
                    attestations_issued: 0,
                    attestations_consumed: 0,
                    nullifiers_spent: 0,
                    batches_verified: 0,
                })
                && !final(self).paused
                && final(self).pending_admin == old(self).pending_admin
                && final(self).roles == old(self).roles
                && final(self).role_counts == old(self).role_counts
                && old(self).keeps_registry(&*final(self))
                && old(self).keeps_policies(&*final(self))
                && old(self).keeps_ledger(&*final(self)),
    {
        if self.initialized {
            return Err(Error::AlreadyInitialized);
        }
        self.admin = Some(admin);
        self.config = Some(Config {
            rotation_timelock: DEFAULT_ROTATION_TIMELOCK,
            nullifier_ttl: DEFAULT_NULLIFIER_TTL,
            attestation_ttl: DEFAULT_ATTESTATION_TTL,
            max_batch_size: MAX_BATCH_SIZE,
            require_issuer_auth: true,
        });
        self.stats = Stats::new();
        self.paused = false;
        self.initialized = true;
        Ok(())
    }

    /// How a configuration change is answered.
    pub open spec fn config_check(&self, caller: Seq<u8>, config: Config) -> Result<(), Error> {
        if !self.initialized {
            Err(Error::NotInitialized)
        } else {
            match self.admin_check(caller) {
                Err(e) => Err(e),
                Ok(_) => if config.max_batch_size == 0 || config.max_batch_size > MAX_BATCH_SIZE {
                    Err(Error::BatchTooLarge)
                } else if config.nullifier_ttl <= config.attestation_ttl {
                    Err(Error::InvalidPolicyParameters)
                } else {
                    Ok(())
                },
            }
        }
    }

    /// The admin replaces the configuration: a batch limit in `1..=16`, and
    /// nullifiers outliving attestations.
    pub fn set_config(&mut self, caller: &Address, config: Config) -> (r: Result<(), Error>)
        requires
            old(self).wf(),
        ensures
            final(self).wf(),
            r == old(self).config_check(caller@, config),
            r is Err ==> *final(self) == *old(self),
            r is Ok ==> final(self).config == Some(config)
                && final(self).initialized == old(self).initialized
                && final(self).paused == old(self).paused
                && final(self).stats == old(self).stats
                && old(self).keeps_access(&*final(self))
                && old(self).keeps_registry(&*final(self))
                && old(self).keeps_policies(&*final(self))
                && old(self).keeps_ledger(&*final(self)),
    {
        if let Err(e) = self.require_initialized() {
            return Err(e);
        }
        self.require_admin(caller)?;
        if config.max_batch_size == 0 || config.max_batch_size > MAX_BATCH_SIZE {
            return Err(Error::BatchTooLarge);
        }
        if config.nullifier_ttl <= config.attestation_ttl {
            return Err(Error::InvalidPolicyParameters);
        }
        self.config = Some(config);
        Ok(())
    }

    /// A pauser halts verification and consumption.
    pub fn pause(&mut self, caller: &Address) -> (r: Result<(), Error>)
        requires
            old(self).wf(),
        ensures
            final(self).wf(),
            r == (if !old(self).initialized {
                Err(Error::NotInitialized)
            } else {
                match old(self).role_check(caller@, Role::Pauser) {
                    Err(e) => Err(e),
                    Ok(_) => if old(self).paused {
                        Err(Error::Paused)
                    } else {
                        Ok(())
                    },
                }
            }),
            r is Err ==> *final(self) == *old(self),
            r is Ok ==> final(self).paused
                && final(self).initialized == old(self).initialized
                && final(self).config == old(self).config
                && final(self).stats == old(self).stats
                && old(self).keeps_access(&*final(self))
                && old(self).keeps_registry(&*final(self))
                && old(self).keeps_policies(&*final(self))
                && old(self).keeps_ledger(&*final(self)),
    {
        if let Err(e) = self.require_initialized() {
            return Err(e);
        }
        self.require_role(caller, Role::Pauser)?;
        if let Err(e) = self.require_not_paused() {
            return Err(e);
        }
        self.paused = true;
        Ok(())
    }

    /// The admin resumes a paused verifier.
    pub fn unpause(&mut self, caller: &Address) -> (r: Result<(), Error>)
        requires
            old(self).wf(),
        ensures
            final(self).wf(),
            r == (if !old(self).initialized {
                Err(Error::NotInitialized)
            } else {
                match old(self).admin_check(caller@) {
                    Err(e) => Err(e),
                    Ok(_) => if !old(self).paused {
                        Err(Error::NotPaused)
                    } else {
                        Ok(())
                    },
                }
            }),
            r is Err ==> *final(self) == *old(self),
            r is Ok ==> !final(self).paused
                && final(self).initialized == old(self).initialized
                && final(self).config == old(self).config
                && final(self).stats == old(self).stats
                && old(self).keeps_access(&*final(self))
                && old(self).keeps_registry(&*final(self))
                && old(self).keeps_policies(&*final(self))
                && old(self).keeps_ledger(&*final(self)),
    {
        if let Err(e) = self.require_initialized() {
            return Err(e);
        }
        self.require_admin(caller)?;
        if !self.paused {
            return Err(Error::NotPaused);
        }
        self.paused = false;
        Ok(())
    }

    /// The admin grants a role.
    pub fn grant_role(&mut self, caller: &Address, role: Role, who: &Address) -> (r: Result<(), Error>)
        requires
            old(self).wf(),
            old(self).role_count_of(role) < u32::MAX,
        ensures
            final(self).wf(),
            !old(self).initialized ==> r == Err::<(), Error>(Error::NotInitialized) && *final(self) == *old(self),
            old(self).initialized ==> r == (match old(self).admin_check(caller@) {
                Err(e) => Err(e),
                Ok(_) => if role == Role::Admin {
                    Err(Error::InvalidRoleTarget)
                } else {
                    Ok(())
                },
            }),
            r is Err ==> *final(self) == *old(self),
            r is Ok ==> final(self).granted(role, who@)
                && (forall|rl: Role, w: Seq<u8>| (rl != role || w != who@) ==>
                    (#[trigger] final(self).granted(rl, w) == old(self).granted(rl, w)))
                && final(self).admin == old(self).admin
                && final(self).pending_admin == old(self).pending_admin
                && old(self).keeps_settings(&*final(self))
                && old(self).keeps_registry(&*final(self))
                && old(self).keeps_policies(&*final(self))
                && old(self).keeps_ledger(&*final(self)),
    {
        if let Err(e) = self.require_initialized() {
            return Err(e);
        }
        self.grant(caller, role, who)
    }

    /// The admin withdraws a role.
    pub fn revoke_role(&mut self, caller: &Address, role: Role, who: &Address) -> (r: Result<(), Error>)
        requires
            old(self).wf(),
        ensures
            final(self).wf(),
            !old(self).initialized ==> r == Err::<(), Error>(Error::NotInitialized) && *final(self) == *old(self),
            old(self).initialized ==> r == (match old(self).admin_check(caller@) {
                Err(e) => Err(e),
                Ok(_) => if role == Role::Admin {
                    Err(Error::InvalidRoleTarget)
                } else {
                    Ok(())
                },
            }),
            r is Err ==> *final(self) == *old(self),
            r is Ok ==> !final(self).granted(role, who@)
                && (forall|rl: Role, w: Seq<u8>| (rl != role || w != who@) ==>
                    (#[trigger] final(self).granted(rl, w) == old(self).granted(rl, w)))
                && final(self).admin == old(self).admin
                && final(self).pending_admin == old(self).pending_admin
                && old(self).keeps_settings(&*final(self))
                && old(self).keeps_registry(&*final(self))
                && old(self).keeps_policies(&*final(self))
                && old(self).keeps_ledger(&*final(self)),
    {
        if let Err(e) = self.require_initialized() {
            return Err(e);
        }
        self.revoke(caller, role, who)
    }

    /// The admin registers a consumer of attestations.
    pub fn register_consumer(&mut self, caller: &Address, consumer: &Address) -> (r: Result<(), Error>)
        requires
            old(self).wf(),
            old(self).role_count_of(Role::Consumer) < u32::MAX,
        ensures
            final(self).wf(),
            r == (if !old(self).initialized {
                Err(Error::NotInitialized)
            } else {
                match old(self).admin_check(caller@) {
                    Err(e) => Err(e),
                    Ok(_) => if old(self).granted(Role::Consumer, consumer@) {
                        Err(Error::ConsumerAlreadyRegistered)
                    } else {
                        Ok(())
                    },
                }
            }),
            r is Err ==> *final(self) == *old(self),
            r is Ok ==> final(self).granted(Role::Consumer, consumer@)
                && (forall|rl: Role, w: Seq<u8>| (rl != Role::Consumer || w != consumer@) ==>
                    (#[trigger] final(self).granted(rl, w) == old(self).granted(rl, w)))
                && final(self).admin == old(self).admin
                && final(self).pending_admin == old(self).pending_admin
                && old(self).keeps_settings(&*final(self))
                && old(self).keeps_registry(&*final(self))
                && old(self).keeps_policies(&*final(self))
                && old(self).keeps_ledger(&*final(self)),
    {
        if let Err(e) = self.require_initialized() {
            return Err(e);
        }
        self.require_admin(caller)?;
        if self.has_granted_role(Role::Consumer, consumer) {
            return Err(Error::ConsumerAlreadyRegistered);
        }
        self.grant(caller, Role::Consumer, consumer)
    }

    /// How the verification of a proof against a registered circuit is answered.
    pub open spec fn proof_request_check(&self, circuit_id: Seq<u8>, proof: Groth16Proof, xs: Seq<[u8; 32]>) -> Result<(), Error> {
        if !self.initialized {
            Err(Error::NotInitialized)
        } else if self.paused {
            Err(Error::Paused)
        } else {
            match self.active_check(circuit_id) {
                Err(e) => Err(e),
                Ok(_) => if xs.len() != self.circuits@[circuit_id].num_public_inputs {
                    Err(Error::PublicInputCountMismatch)
                } else {
                    proof_check(self.circuits@[circuit_id].vk, proof, xs)
                },
            }
        }
    }

    /// Verify a proof against an enabled circuit. Changes nothing.
    pub fn verify_proof(&self, env: &Env, circuit_id: &[u8], proof: &Groth16Proof, public_inputs: &Vec<[u8; 32]>) -> (r: Result<bool, Error>)
        requires
            self.wf(),
            self.initialized && !self.paused && self.active_check(circuit_id@) is Ok
                && public_inputs@.len() == self.circuits@[circuit_id@].num_public_inputs ==> member_curve_ok(*proof),
        ensures
            r is Ok ==> r == Ok::<bool, Error>(true) && self.proof_request_check(circuit_id@, *proof, public_inputs@) is Ok,
            r is Err ==> self.proof_request_check(circuit_id@, *proof, public_inputs@) is Err
                && r->Err_0 == self.proof_request_check(circuit_id@, *proof, public_inputs@)->Err_0,
            self.proof_request_check(circuit_id@, *proof, public_inputs@) is Ok ==> r is Ok,
    {
        if let Err(e) = self.require_initialized() {
            return Err(e);
        }
        if let Err(e) = self.require_not_paused() {
            return Err(e);
        }
        let record = self.active_circuit(circuit_id)?;
        if public_inputs.len() != record.num_public_inputs as usize {
            return Err(Error::PublicInputCountMismatch);
        }
        verify_proof_of(env, &record.vk, proof, public_inputs)?;
        Ok(true)
    }

    /// Whether a proof verifies against an enabled circuit; never refuses.
    pub fn check_proof(&self, env: &Env, circuit_id: &[u8], proof: &Groth16Proof, public_inputs: &Vec<[u8; 32]>) -> (r: bool)
        requires
            self.wf(),
            self.active_check(circuit_id@) is Ok
                && public_inputs@.len() == self.circuits@[circuit_id@].num_public_inputs ==> member_curve_ok(*proof),
        ensures
            r == (self.active_check(circuit_id@) is Ok
                && public_inputs@.len() == self.circuits@[circuit_id@].num_public_inputs
                && proof_check(self.circuits@[circuit_id@].vk, *proof, public_inputs@) is Ok),
    {
        match self.active_circuit(circuit_id) {
            Ok(record) => {
                record.num_public_inputs as usize == public_inputs.len()
                    && is_valid_proof(env, &record.vk, proof, public_inputs)
            },
            Err(_) => false,
        }
    }

    /// How the screening of metadata is answered at ledger `now`.
    pub open spec fn metadata_check(&self, issuer: Seq<u8>, proof: Groth16Proof, s: MetadataSignals, now: u32) -> Result<(), Error> {
        if !self.initialized {
            Err(Error::NotInitialized)
        } else if self.paused {
            Err(Error::Paused)
        } else if self.config is None {
            Err(Error::NotInitialized)
        } else {
            match self.active_policy_check() {
                Err(e) => Err(e),
                Ok(_) => {
                    let policy = self.policies@[policy_key(self.active_policy->Some_0)];
                    match self.active_check(policy.circuit_id@) {
                        Err(e) => Err(e),
                        Ok(_) => match signals_check(policy, s, issuer, now) {
                            Err(e) => Err(e),
                            Ok(_) => if self.nullifiers@.contains_key(s.nullifier@) {
                                Err(Error::NullifierAlreadyUsed)
                            } else if 8 != self.circuits@[policy.circuit_id@].num_public_inputs {
                                Err(Error::PublicInputCountMismatch)
                            } else {
                                proof_check(self.circuits@[policy.circuit_id@].vk, proof, signal_inputs(s))
                            },
                        },
                    }
                },
            }
        }
    }

    /// Whether the screening of `s` by `issuer` at `now` gets as far as the
    /// proof: every check before it passes.
    pub open spec fn metadata_reaches_proof(&self, issuer: Seq<u8>, s: MetadataSignals, now: u32) -> bool {
        &&& self.initialized
        &&& !self.paused
        &&& self.config is Some
        &&& self.active_policy_check() is Ok
        &&& {
            let policy = self.policies@[policy_key(self.active_policy->Some_0)];
            &&& self.active_check(policy.circuit_id@) is Ok
            &&& signals_check(policy, s, issuer, now) is Ok
            &&& !self.nullifiers@.contains_key(s.nullifier@)
            &&& self.circuits@[policy.circuit_id@].num_public_inputs == 8
        }
    }

    /// Screen metadata: the signals must pass the active policy, the
    /// nullifier must be fresh, and the proof must verify against the policy's
    /// circuit. Then the nullifier is spent and an attestation issued, of which
    /// a copy is answered. Whether the issuer must have authorized the call is
    /// in the configuration (`require_issuer_auth`).
    pub fn verify_metadata(
        &mut self,
        env: &Env,
        issuer: &Address,
        proof: &Groth16Proof,
        signals: &MetadataSignals,
        now: u32,
    ) -> (r: Result<Attestation, Error>)
        requires
            old(self).wf(),
            old(self).metadata_reaches_proof(issuer@, *signals, now) ==> member_curve_ok(*proof),
        ensures
            final(self).wf(),
            r is Err ==> *final(self) == *old(self)
                && old(self).metadata_check(issuer@, *proof, *signals, now) is Err
                && r->Err_0 == old(self).metadata_check(issuer@, *proof, *signals, now)->Err_0,
            old(self).metadata_check(issuer@, *proof, *signals, now) is Err ==> r is Err,
            r matches Ok(a) ==> {
                let policy = old(self).policies@[policy_key(old(self).active_policy->Some_0)];
                &&& old(self).metadata_check(issuer@, *proof, *signals, now) is Ok
                &&& !old(self).nullifiers@.contains_key(signals.nullifier@)
                &&& final(self).nullifiers@ == old(self).nullifiers@.insert(signals.nullifier@, now)
                &&& issued_as(a, *signals, issuer@, policy.circuit_id@, policy.version,
                    now, old(self).config->Some_0.attestation_ttl)
                &&& final(self).attestations@ == old(self).attestations@.insert(
                    signals.metadata_commitment@,
                    final(self).attestations@[signals.metadata_commitment@],
                )
                &&& final(self).attestations@[signals.metadata_commitment@].same_as(a)
                &&& final(self).issuer_counts@ == old(self).issuer_counts@.insert(
                    issuer@,
                    bump(old(self).issuer_count_of(issuer@)),
                )
                &&& final(self).stats == (Stats {
                    proofs_verified: bump(old(self).stats.proofs_verified),
                    attestations_issued: bump(old(self).stats.attestations_issued),
                    nullifiers_spent: bump(old(self).stats.nullifiers_spent),
                    ..old(self).stats
                })
                &&& final(self).circuits@ == old(self).circuits@.insert(
                    policy.circuit_id@,
                    CircuitRecord {
                        verifications: bump(old(self).circuits@[policy.circuit_id@].verifications),
                        ..old(self).circuits@[policy.circuit_id@]
                    },
                )
                &&& final(self).circuit_index == old(self).circuit_index
                &&& final(self).rotations == old(self).rotations
                &&& final(self).initialized == old(self).initialized
                &&& final(self).config == old(self).config
                &&& final(self).paused == old(self).paused
                &&& old(self).keeps_access(&*final(self))
                &&& old(self).keeps_policies(&*final(self))
            },
    {
        if let Err(e) = self.require_initialized() {
            return Err(e);
        }
        if let Err(e) = self.require_not_paused() {
            return Err(e);
        }
        let ttl = match &self.config {
            None => return Err(Error::NotInitialized),
            Some(c) => c.attestation_ttl,
        };
        let policy = self.get_active_policy()?;
        let record = self.active_circuit(policy.circuit_id.as_slice())?;
        check_signals(env, policy, signals, issuer, now)?;
        self.require_unspent(&signals.nullifier)?;
        let public_inputs = signals_to_public_inputs(signals);
        if public_inputs.len() != record.num_public_inputs as usize {
            return Err(Error::PublicInputCountMismatch);
        }
        verify_proof_of(env, &record.vk, proof, &public_inputs)?;
        let circuit_id = crate::bytes::bytes_to_vec(policy.circuit_id.as_slice());
        let version = policy.version;
        self.spend(&signals.nullifier, now);
        let att = self.issue(signals, issuer, circuit_id.as_slice(), version, ttl, now);
        self.note_verification(circuit_id.as_slice());
        self.stats.proofs_verified = self.stats.proofs_verified.saturating_add(1);
        Ok(att)
    }

    /// How the aggregate verification of a batch against a circuit is answered.
    pub open spec fn batch_request_check(
        &self,
        circuit_id: Seq<u8>,
        proofs: Seq<Groth16Proof>,
        inputs: Seq<Vec<[u8; 32]>>,
        pause_blocks: bool,
    ) -> Result<(), Error> {
        if !self.initialized {
            Err(Error::NotInitialized)
        } else if pause_blocks && self.paused {
            Err(Error::Paused)
        } else if self.config is None {
            Err(Error::NotInitialized)
        } else {
            match self.active_check(circuit_id) {
                Err(e) => Err(e),
                Ok(_) => batch_check(
                    self.circuits@[circuit_id].vk,
                    self.circuits@[circuit_id].vk_digest,
                    proofs,
                    inputs,
                    self.config->Some_0.max_batch_size,
                ),
            }
        }
    }

    /// Verify a batch of proofs against an enabled circuit in one aggregated
    /// pairing check; counts the batch and its proofs.
    pub fn verify_batch(
        &mut self,
        env: &Env,
        circuit_id: &[u8],
        proofs: &Vec<Groth16Proof>,
        inputs: &Vec<Vec<[u8; 32]>>,
    ) -> (r: Result<bool, Error>)
        requires
            old(self).wf(),
            old(self).initialized && !old(self).paused && old(self).config is Some
                && old(self).active_check(circuit_id@) is Ok ==> batch_curve_ok(
                old(self).circuits@[circuit_id@].vk,
                proofs@,
                inputs@,
                old(self).config->Some_0.max_batch_size,
            ),
        ensures
            final(self).wf(),
            r is Err ==> *final(self) == *old(self)
                && old(self).batch_request_check(circuit_id@, proofs@, inputs@, true) is Err
                && r->Err_0 == old(self).batch_request_check(circuit_id@, proofs@, inputs@, true)->Err_0,
            old(self).batch_request_check(circuit_id@, proofs@, inputs@, true) is Err ==> r is Err,
            r is Ok ==> r == Ok::<bool, Error>(true)
                && old(self).batch_request_check(circuit_id@, proofs@, inputs@, true) is Ok
                && final(self).stats == (Stats {
                    batches_verified: bump(old(self).stats.batches_verified),
                    proofs_verified: bump_by(old(self).stats.proofs_verified, proofs@.len() as u64),
                    ..old(self).stats
                })
                && final(self).initialized == old(self).initialized
                && final(self).config == old(self).config
                && final(self).paused == old(self).paused
                && old(self).keeps_access(&*final(self))
                && old(self).keeps_registry(&*final(self))
                && old(self).keeps_policies(&*final(self))
                && old(self).keeps_ledger(&*final(self)),
    {
        if let Err(e) = self.require_initialized() {
            return Err(e);
        }
        if let Err(e) = self.require_not_paused() {
            return Err(e);
        }
        let max_batch = match &self.config {
            None => return Err(Error::NotInitialized),
            Some(c) => c.max_batch_size,
        };
        let record = self.active_circuit(circuit_id)?;
        verify_batch_of(env, &record.vk, &record.vk_digest, proofs, inputs, max_batch)?;
        let n = proofs.len() as u64;
        self.stats.batches_verified = self.stats.batches_verified.saturating_add(1);
        self.stats.proofs_verified = self.stats.proofs_verified.saturating_add(n);
        Ok(true)
    }

    /// Diagnose a batch without counting it: whether the aggregate check
    /// passes and, when it fails past the shape checks, which members fail on
    /// their own.
    pub fn diagnose_batch(
        &self,
        env: &Env,
        circuit_id: &[u8],
        proofs: &Vec<Groth16Proof>,
        inputs: &Vec<Vec<[u8; 32]>>,
    ) -> (r: Result<BatchOutcome, Error>)
        requires
            self.wf(),
            self.initialized && self.config is Some && self.active_check(circuit_id@) is Ok
                && 0 < proofs@.len() <= self.config->Some_0.max_batch_size && inputs@.len() == proofs@.len()
                ==> forall|i: int| 0 <= i < proofs@.len() ==> member_curve_ok(#[trigger] proofs@[i]),
        ensures
            ({
                let c = self.batch_request_check(circuit_id@, proofs@, inputs@, false);
                let shape = c == Err::<(), Error>(Error::EmptyBatch) || c == Err::<(), Error>(Error::BatchTooLarge)
                    || c == Err::<(), Error>(Error::BatchLengthMismatch);
                let early = !self.initialized || self.config is None || self.active_check(circuit_id@) is Err;
                &&& early ==> r is Err && c is Err && r->Err_0 == c->Err_0
                &&& !early && shape ==> r is Err && r->Err_0 == c->Err_0
                &&& !early && c is Ok ==> (r matches Ok(o) && o.aggregate_ok && o.size == proofs@.len()
                    && o.failed@.len() == 0)
                &&& !early && c is Err && !shape ==> (r matches Ok(o) && !o.aggregate_ok
                    && o.size == proofs@.len()
                    && o.failed@ == failing_members(self.circuits@[circuit_id@].vk, proofs@, inputs@, proofs@.len()))
            }),
    {
        if let Err(e) = self.require_initialized() {
            return Err(e);
        }
        let max_batch = match &self.config {
            None => return Err(Error::NotInitialized),
            Some(c) => c.max_batch_size,
        };
        let record = self.active_circuit(circuit_id)?;
        let size = proofs.len() as u32;
        proof {
            if 0 < proofs@.len() <= max_batch && inputs@.len() == proofs@.len() {
                lemma_batch_curve_ok_of_all(record.vk, proofs@, inputs@, max_batch);
            } else {
                reveal(batch_curve_ok);
            }
        }
        match verify_batch_of(env, &record.vk, &record.vk_digest, proofs, inputs, max_batch) {
            Ok(()) => Ok(crate::zk::types::empty_outcome(size, true)),
            Err(Error::EmptyBatch) => Err(Error::EmptyBatch),
            Err(Error::BatchTooLarge) => Err(Error::BatchTooLarge),
            Err(Error::BatchLengthMismatch) => Err(Error::BatchLengthMismatch),
            Err(_) => {
                let failed = locate_batch_failures(env, &record.vk, proofs, inputs);
                Ok(BatchOutcome { aggregate_ok: false, size, failed })
            },
        }
    }

    /// How a consumption request is answered.
    pub open spec fn consume_request_check(&self, consumer: Seq<u8>, commitment: Seq<u8>, issuer: Seq<u8>, now: u32) -> Result<(), Error> {
        if !self.initialized {
            Err(Error::NotInitialized)
        } else if self.paused {
            Err(Error::Paused)
        } else if !self.granted(Role::Consumer, consumer) {
            Err(Error::NotAuthorizedConsumer)
        } else {
            self.consume_check(commitment, issuer, now)
        }
    }

    /// A registered consumer consumes a usable attestation of `issuer`.
    pub fn consume_attestation(
        &mut self,
        consumer: &Address,
        metadata_commitment: &[u8; 32],
        issuer: &Address,
        now: u32,
    ) -> (r: Result<Attestation, Error>)
        requires
            old(self).wf(),
        ensures
            final(self).wf(),
            r is Err ==> *final(self) == *old(self)
                && old(self).consume_request_check(consumer@, metadata_commitment@, issuer@, now) is Err
                && r->Err_0 == old(self).consume_request_check(consumer@, metadata_commitment@, issuer@, now)->Err_0,
            old(self).consume_request_check(consumer@, metadata_commitment@, issuer@, now) is Err ==> r is Err,
            r matches Ok(a) ==> old(self).consume_request_check(consumer@, metadata_commitment@, issuer@, now) is Ok
                && final(self).attestations@ == old(self).attestations@.insert(
                    metadata_commitment@,
                    final(self).attestations@[metadata_commitment@],
                )
                && a.same_as(final(self).attestations@[metadata_commitment@])
                && final(self).attestations@[metadata_commitment@].consumed
                && (final(self).attestations@[metadata_commitment@].consumer matches Some(c) && c@ == consumer@)
                && final(self).attestations@[metadata_commitment@].consumed_at == Some(now)
                && final(self).nullifiers == old(self).nullifiers
                && old(self).keeps_access(&*final(self))
                && old(self).keeps_registry(&*final(self))
                && old(self).keeps_policies(&*final(self)),
    {
        if let Err(e) = self.require_initialized() {
            return Err(e);
        }
        if let Err(e) = self.require_not_paused() {
            return Err(e);
        }
        if !self.has_granted_role(Role::Consumer, consumer) {
            return Err(Error::NotAuthorizedConsumer);
        }
        self.consume(consumer, metadata_commitment, issuer, now)
    }

    /// A policy admin revokes an attestation; its nullifier stays spent.
    pub fn revoke_attestation(&mut self, caller: &Address, metadata_commitment: &[u8; 32]) -> (r: Result<(), Error>)
        requires
            old(self).wf(),
        ensures
            final(self).wf(),
            r == (if !old(self).initialized {
                Err(Error::NotInitialized)
            } else {
                match old(self).role_check(caller@, Role::PolicyAdmin) {
                    Err(e) => Err(e),
                    Ok(_) => if old(self).attestations@.contains_key(metadata_commitment@) {
                        Ok(())
                    } else {
                        Err(Error::AttestationNotFound)
                    },
                }
            }),
            r is Err ==> *final(self) == *old(self),
            r is Ok ==> final(self).attestations@ == old(self).attestations@.remove(metadata_commitment@)
                && final(self).nullifiers == old(self).nullifiers
                && old(self).keeps_settings(&*final(self))
                && old(self).keeps_access(&*final(self))
                && old(self).keeps_registry(&*final(self))
                && old(self).keeps_policies(&*final(self)),
    {
        if let Err(e) = self.require_initialized() {
            return Err(e);
        }
        self.require_role(caller, Role::PolicyAdmin)?;
        self.revoke_entry(metadata_commitment)
    }

    // --- views --------------------------------------------------------------

    /// The attestation of a commitment.
    pub fn get_attestation(&self, metadata_commitment: &[u8; 32]) -> (r: Result<&Attestation, Error>)
        requires
            self.wf(),
        ensures
            !self.attestations@.contains_key(metadata_commitment@) ==> r == Err::<&Attestation, Error>(Error::AttestationNotFound),
            self.attestations@.contains_key(metadata_commitment@) ==> (r matches Ok(a)
                && *a == self.attestations@[metadata_commitment@]),
    {
        match self.attestations.get(metadata_commitment.as_slice()) {
            None => Err(Error::AttestationNotFound),
            Some(a) => Ok(a),
        }
    }

    /// The status of the attestation of a commitment at ledger `now`.
    pub fn attestation_status(&self, metadata_commitment: &[u8; 32], now: u32) -> (r: AttestationStatus)
        requires
            self.wf(),
        ensures
            r == self.status_of(metadata_commitment@, now),
    {
        self.status(metadata_commitment, now)
    }

    /// Whether a nullifier was spent.
    pub fn is_nullifier_spent(&self, nullifier: &[u8; 32]) -> (r: bool)
        requires
            self.wf(),
        ensures
            r == self.nullifiers@.contains_key(nullifier@),
    {
        self.nullifiers.contains(nullifier.as_slice())
    }

    /// The registered circuit ids, in registration order.
    pub fn list_circuits(&self) -> (r: &Vec<Vec<u8>>)
        ensures
            *r == self.circuit_index,
    {
        &self.circuit_index
    }

    /// The published policy versions, in publication order.
    pub fn list_policies(&self) -> (r: &Vec<u32>)
        ensures
            *r == self.policy_index,
    {
        &self.policy_index
    }

    /// The configuration.
    pub fn get_config(&self) -> (r: Result<Config, Error>)
        ensures
            self.config matches Some(c) ==> r == Ok::<Config, Error>(c),
            self.config is None ==> r == Err::<Config, Error>(Error::NotInitialized),
    {
        match &self.config {
            Some(c) => Ok(*c),
            None => Err(Error::NotInitialized),
        }
    }

    /// The counters.
    pub fn get_stats(&self) -> (r: Stats)
        ensures
            r == self.stats,
    {
        self.stats
    }

    /// The admin.
    pub fn get_admin(&self) -> (r: Result<Address, Error>)
        ensures
            self.admin matches Some(a) ==> (r matches Ok(x) && x@ == a@),
            self.admin is None ==> r == Err::<Address, Error>(Error::NotInitialized),
    {
        match &self.admin {
            Some(a) => Ok(a.duplicate()),
            None => Err(Error::NotInitialized),
        }
    }

    /// Whether `who` holds `role`; the admin holds every role.
    pub fn has_role(&self, role: Role, who: &Address) -> (r: bool)
        requires
            self.wf(),
        ensures
            r == (self.admin_is(who@) == Ok::<bool, Error>(true) || self.granted(role, who@)),
    {
        self.check_role(who, role)
    }

    /// Whether verification is paused.
    pub fn is_paused(&self) -> (r: bool)
        ensures
            r == self.paused,
    {
        self.paused
    }

    /// The number of attestations issued to `issuer`.
    pub fn issuer_attestation_count(&self, issuer: &Address) -> (r: u64)
        requires
            self.wf(),
        ensures
            r == self.issuer_count_of(issuer@),
    {
        match self.issuer_counts.get(issuer.xdr.as_slice()) {
            Some(c) => *c,
            None => 0,
        }
    }
}

/// The issuer binding a proof must carry for `issuer`.
pub fn compute_issuer_hash(env: &Env, issuer: &Address) -> (r: [u8; 32])
    ensures
        r == issuer_binding(issuer@),
{
    issuer_hash(env, issuer)
}

/// The digest of a verifying key and its arity.
pub fn compute_vk_digest(env: &Env, vk: &VerifyingKey, num_public_inputs: u32) -> (r: [u8; 32])
    requires
        vk.ic@.len() <= u32::MAX,
    ensures
        r == sha256_digest(vk_digest_material(*vk, num_public_inputs)),
{
    verifying_key_digest(env, vk, num_public_inputs)
}

/// The public inputs a set of signals stands for.
pub fn encode_signals(signals: &MetadataSignals) -> (r: Vec<[u8; 32]>)
    ensures
        r@ == signal_inputs(*signals),
{
    signals_to_public_inputs(signals)
}

/// Whether a scalar is canonical.
pub fn is_canonical_scalar(scalar: &[u8; 32]) -> (r: bool)
    ensures
        r == canonical(*scalar),
{
    is_canonical(scalar)
}

} // verus!
