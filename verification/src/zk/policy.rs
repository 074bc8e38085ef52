//! Screening policies and the checks a proof's public signals must pass
//! against the active one.

use vstd::prelude::*;
use soroban_sdk::Env;
use crate::address::Address;
use crate::bytes::{append_bytes, be_u32, bytes_to_vec, u32_be};
use crate::zk::errors::Error;
use crate::zk::field::{clear_top_byte, digest_eq, top_cleared, u32_scalar_seq, u32_to_scalar_bytes, ISSUER_DST};
use crate::zk::host::{sha256, sha256_digest};
use crate::zk::state::ZkMetadataVerifier;
use crate::zk::types::{Config, MetadataSignals, Policy, PolicyParams, Role};

verus! {

/// The verdict a screening circuit gives safe metadata.
pub const VERDICT_SAFE: u32 = 1;

/// Largest risk scale a policy may declare.
pub const MAX_RISK_SCALE: u32 = 1_000_000;

/// Number of public signals of the metadata circuit.
pub const METADATA_ARITY: u32 = 8;

/// The storage key of a policy version.
pub open spec fn policy_key(version: u32) -> Seq<u8> {
    be_u32(version)
}

/// The scalar encoding of a small integer, as an array.
pub open spec fn u32_scalar(v: u32) -> [u8; 32] {
    choose|q: [u8; 32]| q@ == u32_scalar_seq(v)
}

proof fn lemma_u32_scalar(q: [u8; 32], v: u32)
    requires
        q@ == u32_scalar_seq(v),
    ensures
        q == u32_scalar(v),
{
    let c = u32_scalar(v);
    assert(c@ == u32_scalar_seq(v));
    assert(c =~= q);
}

/// How policy parameters are judged against the configuration.
pub open spec fn params_check(config: Option<Config>, p: PolicyParams) -> Result<(), Error> {
    if p.version == 0 {
        Err(Error::InvalidPolicyParameters)
    } else if p.risk_scale == 0 || p.risk_scale > MAX_RISK_SCALE {
        Err(Error::InvalidPolicyParameters)
    } else if p.max_risk_score > p.risk_scale {
        Err(Error::InvalidPolicyParameters)
    } else if p.max_validity_ledgers == 0 {
        Err(Error::InvalidPolicyParameters)
    } else {
        match config {
            None => Err(Error::NotInitialized),
            Some(c) => if p.max_validity_ledgers >= c.nullifier_ttl {
                Err(Error::InvalidPolicyParameters)
            } else {
                Ok(())
            },
        }
    }
}

/// The public inputs of the metadata circuit, in the circuit's order.
pub open spec fn signal_inputs(s: MetadataSignals) -> Seq<[u8; 32]> {
    seq![
        u32_scalar(s.verdict),
        u32_scalar(s.risk_score),
        s.policy_root,
        s.model_commitment,
        s.metadata_commitment,
        s.issuer_hash,
        s.nullifier,
        u32_scalar(s.expiry_ledger),
    ]
}

/// The issuer binding: SHA-256 over the tag and the issuer's encoding, top
/// byte cleared.
pub open spec fn issuer_binding(issuer: Seq<u8>) -> [u8; 32] {
    top_cleared(sha256_digest(ISSUER_DST@ + issuer))
}

/// How a proof's signals are judged against a policy at ledger `now`.
pub open spec fn signals_check(policy: Policy, s: MetadataSignals, issuer: Seq<u8>, now: u32) -> Result<(), Error> {
    if s.verdict != VERDICT_SAFE {
        Err(Error::VerdictRejected)
    } else if s.policy_root != policy.policy_root {
        Err(Error::PolicyRootMismatch)
    } else if s.model_commitment != policy.model_commitment {
        Err(Error::ModelCommitmentMismatch)
    } else if s.risk_score > policy.max_risk_score {
        Err(Error::RiskScoreTooHigh)
    } else if s.expiry_ledger <= now {
        Err(Error::ProofExpired)
    } else if s.expiry_ledger - now > policy.max_validity_ledgers {
        Err(Error::ExpiryTooDistant)
    } else if s.issuer_hash != issuer_binding(issuer) {
        Err(Error::IssuerBindingMismatch)
    } else {
        Ok(())
    }
}

/// The public inputs of the metadata circuit: verdict, risk score, policy
/// root, model commitment, metadata commitment, issuer hash, nullifier,
/// expiry ledger.
pub fn signals_to_public_inputs(signals: &MetadataSignals) -> (r: Vec<[u8; 32]>)
    ensures
        r@ == signal_inputs(*signals),
{
    let v = u32_to_scalar_bytes(signals.verdict);
    let k = u32_to_scalar_bytes(signals.risk_score);
    let e = u32_to_scalar_bytes(signals.expiry_ledger);
    proof {
        lemma_u32_scalar(v, signals.verdict);
        lemma_u32_scalar(k, signals.risk_score);
        lemma_u32_scalar(e, signals.expiry_ledger);
    }
    let r = vec![
        v,
        k,
        signals.policy_root,
        signals.model_commitment,
        signals.metadata_commitment,
        signals.issuer_hash,
        signals.nullifier,
        e,
    ];
    assert(r@ =~= signal_inputs(*signals));
    r
}

/// The issuer binding of `issuer`.
pub fn issuer_hash(env: &Env, issuer: &Address) -> (r: [u8; 32])
    ensures
        r == issuer_binding(issuer@),
{
    let mut buf = bytes_to_vec(ISSUER_DST.as_slice());
    append_bytes(&mut buf, issuer.xdr.as_slice());
    let digest = sha256(env, buf.as_slice());
    clear_top_byte(digest)
}

/// Judge a proof's signals against a policy at ledger `now`.
pub fn check_signals(env: &Env, policy: &Policy, signals: &MetadataSignals, issuer: &Address, now: u32) -> (r: Result<(), Error>)
    ensures
        r == signals_check(*policy, *signals, issuer@, now),
{
    if signals.verdict != VERDICT_SAFE {
        return Err(Error::VerdictRejected);
    }
    if !digest_eq(&signals.policy_root, &policy.policy_root) {
        return Err(Error::PolicyRootMismatch);
    }
    if !digest_eq(&signals.model_commitment, &policy.model_commitment) {
        return Err(Error::ModelCommitmentMismatch);
    }
    if signals.risk_score > policy.max_risk_score {
        return Err(Error::RiskScoreTooHigh);
    }
    if signals.expiry_ledger <= now {
        return Err(Error::ProofExpired);
    }
    if signals.expiry_ledger.saturating_sub(now) > policy.max_validity_ledgers {
        return Err(Error::ExpiryTooDistant);
    }
    let expected = issuer_hash(env, issuer);
    if !digest_eq(&signals.issuer_hash, &expected) {
        return Err(Error::IssuerBindingMismatch);
    }
    Ok(())
}

/// The storage key of a policy version.
pub fn policy_key_of(version: u32) -> (r: Vec<u8>)
    ensures
        r@ == policy_key(version),
{
    u32_be(version)
}

impl ZkMetadataVerifier {
    /// Judge policy parameters against the configuration.
    pub fn validate_params(&self, params: &PolicyParams) -> (r: Result<(), Error>)
        ensures
            r == params_check(self.config, *params),
    {
        if params.version == 0 {
            return Err(Error::InvalidPolicyParameters);
        }
        if params.risk_scale == 0 || params.risk_scale > MAX_RISK_SCALE {
            return Err(Error::InvalidPolicyParameters);
        }
        if params.max_risk_score > params.risk_scale {
            return Err(Error::InvalidPolicyParameters);
        }
        if params.max_validity_ledgers == 0 {
            return Err(Error::InvalidPolicyParameters);
        }
        let ttl = match &self.config {
            None => return Err(Error::NotInitialized),
            Some(c) => c.nullifier_ttl,
        };
        if params.max_validity_ledgers >= ttl {
            return Err(Error::InvalidPolicyParameters);
        }
        Ok(())
    }

    /// How a publication is answered.
    pub open spec fn publish_check(&self, caller: Seq<u8>, p: PolicyParams) -> Result<(), Error> {
        if !self.initialized {
            Err(Error::NotInitialized)
        } else {
            match self.role_check(caller, Role::PolicyAdmin) {
                Err(e) => Err(e),
                Ok(_) => match params_check(self.config, p) {
                    Err(e) => Err(e),
                    Ok(_) => match self.active_policy {
                        Some(a) => if p.version <= a {
                            Err(Error::PolicyVersionRegression)
                        } else {
                            Ok(())
                        },
                        None => Ok(()),
                    },
                },
            }
        }
    }

    /// Publish a policy under a version newer than the active one; it is not
    /// active until activated. Answers the version.
    pub fn publish_policy(&mut self, caller: &Address, params: PolicyParams) -> (r: Result<u32, Error>)
        requires
            old(self).wf(),
        ensures
            final(self).wf(),
            r is Err ==> *final(self) == *old(self)
                && r == Err::<u32, Error>(old(self).publish_check(caller@, params)->Err_0)
                && old(self).publish_check(caller@, params) is Err,
            old(self).publish_check(caller@, params) is Err ==> r is Err,
            r matches Ok(v) ==> old(self).publish_check(caller@, params) is Ok
                && v == params.version
                && final(self).policies@ == old(self).policies@.insert(policy_key(params.version), (Policy {
                    version: params.version,
                    policy_root: params.policy_root,
                    model_commitment: params.model_commitment,
                    max_risk_score: params.max_risk_score,
                    risk_scale: params.risk_scale,
                    max_validity_ledgers: params.max_validity_ledgers,
                    circuit_id: params.circuit_id,
                    activated_at: 0,
                    rulebook_uri: params.rulebook_uri,
                }))
                && final(self).policy_index@ == old(self).policy_index@.push(params.version)
                && final(self).active_policy == old(self).active_policy
                && old(self).keeps_settings(&*final(self))
                && old(self).keeps_access(&*final(self))
                && old(self).keeps_registry(&*final(self))
                && old(self).keeps_ledger(&*final(self)),
    {
        if let Err(e) = self.require_initialized() {
            return Err(e);
        }
        self.require_role(caller, Role::PolicyAdmin)?;
        self.validate_params(&params)?;
        match self.active_policy {
            Some(a) => {
                if params.version <= a {
                    return Err(Error::PolicyVersionRegression);
                }
            },
            None => {},
        }
        let version = params.version;
        let policy = Policy {
            version: params.version,
            policy_root: params.policy_root,
            model_commitment: params.model_commitment,
            max_risk_score: params.max_risk_score,
            risk_scale: params.risk_scale,
            max_validity_ledgers: params.max_validity_ledgers,
            circuit_id: params.circuit_id,
            activated_at: 0,
            rulebook_uri: params.rulebook_uri,
        };
        self.policies.insert(policy_key_of(version), policy);
        self.policy_index.push(version);
        Ok(version)
    }

    /// How an activation is answered.
    pub open spec fn activate_check(&self, caller: Seq<u8>, version: u32) -> Result<(), Error> {
        if !self.initialized {
            Err(Error::NotInitialized)
        } else {
            match self.role_check(caller, Role::PolicyAdmin) {
                Err(e) => Err(e),
                Ok(_) => if !self.policies@.contains_key(policy_key(version)) {
                    Err(Error::PolicyNotFound)
                } else {
                    match self.active_check(self.policies@[policy_key(version)].circuit_id@) {
                        Err(e) => Err(e),
                        Ok(_) => if version <= (match self.active_policy {
                            Some(a) => a,
                            None => 0,
                        }) {
                            Err(Error::PolicyVersionRegression)
                        } else {
                            Ok(())
                        },
                    }
                },
            }
        }
    }

    /// Activate a published policy newer than the active one, whose circuit is
    /// enabled; it is stamped with the activation ledger.
    pub fn activate_policy(&mut self, caller: &Address, version: u32, now: u32) -> (r: Result<(), Error>)
        requires
            old(self).wf(),
        ensures
            final(self).wf(),
            r == old(self).activate_check(caller@, version),
            r is Err ==> *final(self) == *old(self),
            r is Ok ==> final(self).policies@ == old(self).policies@.insert(
                    policy_key(version),
                    Policy { activated_at: now, ..old(self).policies@[policy_key(version)] },
                )
                && final(self).active_policy == Some(version)
                && final(self).policy_index == old(self).policy_index
                && old(self).keeps_settings(&*final(self))
                && old(self).keeps_access(&*final(self))
                && old(self).keeps_registry(&*final(self))
                && old(self).keeps_ledger(&*final(self)),
    {
        if let Err(e) = self.require_initialized() {
            return Err(e);
        }
        self.require_role(caller, Role::PolicyAdmin)?;
        let key = policy_key_of(version);
        match self.policies.get(key.as_slice()) {
            None => return Err(Error::PolicyNotFound),
            Some(p) => {
                self.active_circuit(p.circuit_id.as_slice())?;
            },
        }
        let previous = match self.active_policy {
            Some(a) => a,
            None => 0,
        };
        if version <= previous {
            return Err(Error::PolicyVersionRegression);
        }
        let mut policy = self.policies.take(key.as_slice()).unwrap();
        policy.activated_at = now;
        self.policies.insert(key, policy);
        self.active_policy = Some(version);
        assert(self.policies@ =~= old(self).policies@.insert(
            policy_key(version),
            Policy { activated_at: now, ..old(self).policies@[policy_key(version)] },
        ));
        Ok(())
    }

    /// How a lookup of the active policy is answered.
    pub open spec fn active_policy_check(&self) -> Result<(), Error> {
        match self.active_policy {
            None => Err(Error::PolicyNotFound),
            Some(v) => if self.policies@.contains_key(policy_key(v)) {
                Ok(())
            } else {
                Err(Error::PolicyNotFound)
            },
        }
    }

    /// The active policy.
    pub fn get_active_policy(&self) -> (r: Result<&Policy, Error>)
        requires
            self.wf(),
        ensures
            r is Err ==> r == Err::<&Policy, Error>(Error::PolicyNotFound) && self.active_policy_check() is Err,
            r matches Ok(p) ==> self.active_policy_check() is Ok
                && *p == self.policies@[policy_key(self.active_policy->Some_0)],
    {
        let v = match self.active_policy {
            None => return Err(Error::PolicyNotFound),
            Some(v) => v,
        };
        let key = policy_key_of(v);
        match self.policies.get(key.as_slice()) {
            None => Err(Error::PolicyNotFound),
            Some(p) => Ok(p),
        }
    }

    /// A published policy.
    pub fn get_policy(&self, version: u32) -> (r: Result<&Policy, Error>)
        requires
            self.wf(),
        ensures
            !self.policies@.contains_key(policy_key(version)) ==> r == Err::<&Policy, Error>(Error::PolicyNotFound),
            self.policies@.contains_key(policy_key(version)) ==> (r matches Ok(p)
                && *p == self.policies@[policy_key(version)]),
    {
        let key = policy_key_of(version);
        match self.policies.get(key.as_slice()) {
            None => Err(Error::PolicyNotFound),
            Some(p) => Ok(p),
        }
    }
}

} // verus!
