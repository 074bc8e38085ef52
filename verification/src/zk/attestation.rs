//! Nullifiers and attestations: a screened metadata commitment is attested
//! once per nullifier, and an attestation is consumed at most once.

use vstd::prelude::*;
use crate::address::Address;
use crate::bytes::bytes_to_vec;
use crate::zk::errors::Error;
use crate::zk::state::ZkMetadataVerifier;
use crate::zk::types::{Attestation, AttestationStatus, MetadataSignals, Stats};

verus! {

/// `o` holds an address with the encoding `a`, or both are absent.
pub open spec fn opt_same(o: Option<Address>, p: Option<Address>) -> bool {
    match (o, p) {
        (None, None) => true,
        (Some(x), Some(y)) => x@ == y@,
        _ => false,
    }
}

impl Attestation {
    /// Two attestations say the same.
    pub open spec fn same_as(&self, o: Attestation) -> bool {
        &&& self.metadata_commitment == o.metadata_commitment
        &&& self.issuer@ == o.issuer@
        &&& self.nullifier == o.nullifier
        &&& self.policy_version == o.policy_version
        &&& self.circuit_id@ == o.circuit_id@
        &&& self.risk_score == o.risk_score
        &&& self.verified_at == o.verified_at
        &&& self.expires_at == o.expires_at
        &&& self.consumed == o.consumed
        &&& opt_same(self.consumer, o.consumer)
        &&& self.consumed_at == o.consumed_at
    }

    /// An independent copy.
    pub fn duplicate(&self) -> (r: Attestation)
        ensures
            r.same_as(*self),
    {
        Attestation {
            metadata_commitment: self.metadata_commitment,
            issuer: self.issuer.duplicate(),
            nullifier: self.nullifier,
            policy_version: self.policy_version,
            circuit_id: bytes_to_vec(self.circuit_id.as_slice()),
            risk_score: self.risk_score,
            verified_at: self.verified_at,
            expires_at: self.expires_at,
            consumed: self.consumed,
            consumer: match &self.consumer {
                Some(c) => Some(c.duplicate()),
                None => None,
            },
            consumed_at: self.consumed_at,
        }
    }
}

/// The expiry of an attestation issued at `now`: the proof's own expiry or
/// the attestation lifetime, whichever comes first.
pub open spec fn attestation_expiry(expiry_ledger: u32, now: u32, ttl: u32) -> u32 {
    let bound = if now + ttl > u32::MAX { u32::MAX } else { (now + ttl) as u32 };
    if expiry_ledger < bound {
        expiry_ledger
    } else {
        bound
    }
}

/// The attestation issued for `signals` at `now`.
pub open spec fn issued_as(
    a: Attestation,
    signals: MetadataSignals,
    issuer: Seq<u8>,
    circuit_id: Seq<u8>,
    policy_version: u32,
    now: u32,
    ttl: u32,
) -> bool {
    &&& a.metadata_commitment == signals.metadata_commitment
    &&& a.issuer@ == issuer
    &&& a.nullifier == signals.nullifier
    &&& a.policy_version == policy_version
    &&& a.circuit_id@ == circuit_id
    &&& a.risk_score == signals.risk_score
    &&& a.verified_at == now
    &&& a.expires_at == attestation_expiry(signals.expiry_ledger, now, ttl)
    &&& !a.consumed
    &&& a.consumer is None
    &&& a.consumed_at is None
}

/// A counter one up, saturating.
pub open spec fn bump(x: u64) -> u64 {
    if x == u64::MAX {
        u64::MAX
    } else {
        (x + 1) as u64
    }
}

impl ZkMetadataVerifier {
    /// Refuse a nullifier that was spent before.
    pub fn require_unspent(&self, nullifier: &[u8; 32]) -> (r: Result<(), Error>)
        requires
            self.wf(),
        ensures
            r == (if self.nullifiers@.contains_key(nullifier@) {
                Err(Error::NullifierAlreadyUsed)
            } else {
                Ok(())
            }),
    {
        if self.nullifiers.contains(nullifier.as_slice()) {
            return Err(Error::NullifierAlreadyUsed);
        }
        Ok(())
    }

    /// Mark a nullifier spent at ledger `now`.
    pub fn spend(&mut self, nullifier: &[u8; 32], now: u32)
        requires
            old(self).wf(),
        ensures
            final(self).wf(),
            final(self).nullifiers@ == old(self).nullifiers@.insert(nullifier@, now),
            final(self).stats == (Stats { nullifiers_spent: bump(old(self).stats.nullifiers_spent), ..old(self).stats }),
            final(self).attestations == old(self).attestations,
            final(self).issuer_counts == old(self).issuer_counts,
            final(self).initialized == old(self).initialized,
            final(self).config == old(self).config,
            final(self).paused == old(self).paused,
            old(self).keeps_access(&*final(self)),
            old(self).keeps_registry(&*final(self)),
            old(self).keeps_policies(&*final(self)),
    {
        self.nullifiers.insert(bytes_to_vec(nullifier.as_slice()), now);
        self.stats.nullifiers_spent = self.stats.nullifiers_spent.saturating_add(1);
    }

    /// The number of attestations issued to `issuer`.
    pub open spec fn issuer_count_of(&self, issuer: Seq<u8>) -> u64 {
        if self.issuer_counts@.contains_key(issuer) {
            self.issuer_counts@[issuer]
        } else {
            0
        }
    }

    /// Store the attestation for screened `signals`, expiring at the proof's
    /// expiry or after `attestation_ttl` ledgers, whichever is first; count it
    /// for the issuer. Answers a copy.
    pub fn issue(
        &mut self,
        signals: &MetadataSignals,
        issuer: &Address,
        circuit_id: &[u8],
        policy_version: u32,
        attestation_ttl: u32,
        now: u32,
    ) -> (r: Attestation)
        requires
            old(self).wf(),
        ensures
            final(self).wf(),
            issued_as(r, *signals, issuer@, circuit_id@, policy_version, now, attestation_ttl),
            final(self).attestations@ == old(self).attestations@.insert(
                signals.metadata_commitment@,
                final(self).attestations@[signals.metadata_commitment@],
            ),
            issued_as(
                final(self).attestations@[signals.metadata_commitment@],
                *signals,
                issuer@,
                circuit_id@,
                policy_version,
                now,
                attestation_ttl,
            ),
            final(self).issuer_counts@ == old(self).issuer_counts@.insert(issuer@, bump(old(self).issuer_count_of(issuer@))),
            final(self).stats == (Stats { attestations_issued: bump(old(self).stats.attestations_issued), ..old(self).stats }),
            final(self).nullifiers == old(self).nullifiers,
            final(self).initialized == old(self).initialized,
            final(self).config == old(self).config,
            final(self).paused == old(self).paused,
            old(self).keeps_access(&*final(self)),
            old(self).keeps_registry(&*final(self)),
            old(self).keeps_policies(&*final(self)),
    {
        let ttl_bound = now.saturating_add(attestation_ttl);
        let expires_at = if signals.expiry_ledger < ttl_bound {
            signals.expiry_ledger
        } else {
            ttl_bound
        };
        let attestation = Attestation {
            metadata_commitment: signals.metadata_commitment,
            issuer: issuer.duplicate(),
            nullifier: signals.nullifier,
            policy_version,
            circuit_id: bytes_to_vec(circuit_id),
            risk_score: signals.risk_score,
            verified_at: now,
            expires_at,
            consumed: false,
            consumer: None,
            consumed_at: None,
        };
        let copy = attestation.duplicate();
        self.attestations.insert(bytes_to_vec(signals.metadata_commitment.as_slice()), attestation);
        let count = match self.issuer_counts.get(issuer.xdr.as_slice()) {
            Some(c) => *c,
            None => 0,
        };
        self.issuer_counts.insert(issuer.duplicate().xdr, count.saturating_add(1));
        self.stats.attestations_issued = self.stats.attestations_issued.saturating_add(1);
        copy
    }

    /// How the lookup of a usable attestation at `now` is answered.
    pub open spec fn valid_check(&self, commitment: Seq<u8>, now: u32) -> Result<(), Error> {
        if !self.attestations@.contains_key(commitment) {
            Err(Error::AttestationNotFound)
        } else if self.attestations@[commitment].consumed {
            Err(Error::AttestationAlreadyConsumed)
        } else if now > self.attestations@[commitment].expires_at {
            Err(Error::AttestationExpired)
        } else {
            Ok(())
        }
    }

    /// An attestation that exists, is unconsumed and has not expired at `now`.
    pub fn require_valid(&self, commitment: &[u8; 32], now: u32) -> (r: Result<&Attestation, Error>)
        requires
            self.wf(),
        ensures
            r is Err ==> self.valid_check(commitment@, now) is Err
                && r == Err::<&Attestation, Error>(self.valid_check(commitment@, now)->Err_0),
            r matches Ok(a) ==> self.valid_check(commitment@, now) is Ok && *a == self.attestations@[commitment@],
    {
        let a = match self.attestations.get(commitment.as_slice()) {
            None => return Err(Error::AttestationNotFound),
            Some(a) => a,
        };
        if a.consumed {
            return Err(Error::AttestationAlreadyConsumed);
        }
        if now > a.expires_at {
            return Err(Error::AttestationExpired);
        }
        Ok(a)
    }

    /// How the consumption of an attestation is answered.
    pub open spec fn consume_check(&self, commitment: Seq<u8>, expected_issuer: Seq<u8>, now: u32) -> Result<(), Error> {
        match self.valid_check(commitment, now) {
            Err(e) => Err(e),
            Ok(_) => if self.attestations@[commitment].issuer@ != expected_issuer {
                Err(Error::IssuerBindingMismatch)
            } else if self.config is None {
                Err(Error::NotInitialized)
            } else {
                Ok(())
            },
        }
    }

    /// Consume a usable attestation of `expected_issuer` on behalf of
    /// `consumer`; answers a copy of the consumed attestation.
    pub fn consume(&mut self, consumer: &Address, commitment: &[u8; 32], expected_issuer: &Address, now: u32) -> (r: Result<Attestation, Error>)
        requires
            old(self).wf(),
        ensures
            final(self).wf(),
            r is Err ==> *final(self) == *old(self)
                && old(self).consume_check(commitment@, expected_issuer@, now) is Err
                && r->Err_0 == old(self).consume_check(commitment@, expected_issuer@, now)->Err_0,
            old(self).consume_check(commitment@, expected_issuer@, now) is Err ==> r is Err,
            r matches Ok(a) ==> old(self).consume_check(commitment@, expected_issuer@, now) is Ok
                && final(self).attestations@ == old(self).attestations@.insert(commitment@, final(self).attestations@[commitment@])
                && a.same_as(final(self).attestations@[commitment@])
                && final(self).attestations@[commitment@].same_as(Attestation {
                    consumed: true,
                    consumer: Some(*consumer),
                    consumed_at: Some(now),
                    ..old(self).attestations@[commitment@]
                })
                && final(self).stats == (Stats { attestations_consumed: bump(old(self).stats.attestations_consumed), ..old(self).stats })
                && final(self).nullifiers == old(self).nullifiers
                && final(self).issuer_counts == old(self).issuer_counts
                && final(self).initialized == old(self).initialized
                && final(self).config == old(self).config
                && final(self).paused == old(self).paused
                && old(self).keeps_access(&*final(self))
                && old(self).keeps_registry(&*final(self))
                && old(self).keeps_policies(&*final(self)),
    {
        let a = self.require_valid(commitment, now)?;
        if !a.issuer.same(expected_issuer) {
            return Err(Error::IssuerBindingMismatch);
        }
        if self.config.is_none() {
            return Err(Error::NotInitialized);
        }
        let mut att = self.attestations.take(commitment.as_slice()).unwrap();
        att.consumed = true;
        att.consumer = Some(consumer.duplicate());
        att.consumed_at = Some(now);
        let copy = att.duplicate();
        self.attestations.insert(bytes_to_vec(commitment.as_slice()), att);
        self.stats.attestations_consumed = self.stats.attestations_consumed.saturating_add(1);
        Ok(copy)
    }

    /// Drop an attestation. Its nullifier stays spent.
    pub fn revoke_entry(&mut self, commitment: &[u8; 32]) -> (r: Result<(), Error>)
        requires
            old(self).wf(),
        ensures
            final(self).wf(),
            r == (if old(self).attestations@.contains_key(commitment@) {
                Ok::<(), Error>(())
            } else {
                Err(Error::AttestationNotFound)
            }),
            r is Err ==> *final(self) == *old(self),
            r is Ok ==> final(self).attestations@ == old(self).attestations@.remove(commitment@)
                && final(self).nullifiers == old(self).nullifiers
                && final(self).issuer_counts == old(self).issuer_counts
                && old(self).keeps_settings(&*final(self))
                && old(self).keeps_access(&*final(self))
                && old(self).keeps_registry(&*final(self))
                && old(self).keeps_policies(&*final(self)),
    {
        if !self.attestations.contains(commitment.as_slice()) {
            return Err(Error::AttestationNotFound);
        }
        self.attestations.remove(commitment.as_slice());
        Ok(())
    }

    /// The status of the attestation of `commitment` at ledger `now`.
    pub open spec fn status_of(&self, commitment: Seq<u8>, now: u32) -> AttestationStatus {
        if !self.attestations@.contains_key(commitment) {
            AttestationStatus { exists: false, valid: false, consumed: false, expired: false, risk_score: 0, policy_version: 0 }
        } else {
            let a = self.attestations@[commitment];
            let expired = now > a.expires_at;
            AttestationStatus {
                exists: true,
                valid: !a.consumed && !expired,
                consumed: a.consumed,
                expired,
                risk_score: a.risk_score,
                policy_version: a.policy_version,
            }
        }
    }

    /// The status of the attestation of `commitment` at ledger `now`.
    pub fn status(&self, commitment: &[u8; 32], now: u32) -> (r: AttestationStatus)
        requires
            self.wf(),
        ensures
            r == self.status_of(commitment@, now),
    {
        match self.attestations.get(commitment.as_slice()) {
            None => AttestationStatus { exists: false, valid: false, consumed: false, expired: false, risk_score: 0, policy_version: 0 },
            Some(a) => {
                let expired = now > a.expires_at;
                AttestationStatus {
                    exists: true,
                    valid: !a.consumed && !expired,
                    consumed: a.consumed,
                    expired,
                    risk_score: a.risk_score,
                    policy_version: a.policy_version,
                }
            },
        }
    }
}

} // verus!
