//! The circuit registry: registration, timelocked key rotation, enabling and
//! freezing.

use vstd::prelude::*;
use soroban_sdk::Env;
use crate::address::Address;
use crate::bytes::bytes_to_vec;
use crate::zk::errors::Error;
use crate::zk::groth16::{validate_verifying_key, verifying_key_digest, vk_check, vk_decode_curve_ok, vk_digest_material};
use crate::zk::field::digest_eq;
use crate::zk::host::sha256_digest;
use crate::zk::state::{circuit_ok, ZkMetadataVerifier};
use crate::zk::types::{CircuitRecord, PendingRotation, Role, VerifyingKey};

verus! {

impl ZkMetadataVerifier {
    /// How the registration of a circuit is answered.
    pub open spec fn register_check(&self, caller: Seq<u8>, circuit_id: Seq<u8>, vk: VerifyingKey, n: u32) -> Result<(), Error> {
        if !self.initialized {
            Err(Error::NotInitialized)
        } else {
            match self.role_check(caller, Role::CircuitAdmin) {
                Err(e) => Err(e),
                Ok(_) => if self.circuits@.contains_key(circuit_id) {
                    Err(Error::CircuitAlreadyExists)
                } else {
                    vk_check(vk, n)
                },
            }
        }
    }

    /// Register a circuit under a fresh id with a validated key; answers the
    /// key's digest.
    pub fn register_circuit(
        &mut self,
        env: &Env,
        caller: &Address,
        circuit_id: Vec<u8>,
        vk: VerifyingKey,
        num_public_inputs: u32,
        provenance: Vec<u8>,
        now: u32,
    ) -> (r: Result<[u8; 32], Error>)
        requires
            old(self).wf(),
            old(self).initialized && old(self).role_check(caller@, Role::CircuitAdmin) is Ok
                && !old(self).circuits@.contains_key(circuit_id@) ==> vk_decode_curve_ok(vk, num_public_inputs),
            vk.ic@.len() <= u32::MAX,
        ensures
            final(self).wf(),
            r is Err ==> *final(self) == *old(self)
                && r == Err::<[u8; 32], Error>(old(self).register_check(caller@, circuit_id@, vk, num_public_inputs)->Err_0)
                && old(self).register_check(caller@, circuit_id@, vk, num_public_inputs) is Err,
            old(self).register_check(caller@, circuit_id@, vk, num_public_inputs) is Err ==> r is Err,
            r matches Ok(d) ==> old(self).register_check(caller@, circuit_id@, vk, num_public_inputs) is Ok
                && d == sha256_digest(vk_digest_material(vk, num_public_inputs))
                && final(self).circuits@ == old(self).circuits@.insert(circuit_id@, (CircuitRecord {
                    circuit_id,
                    vk,
                    num_public_inputs,
                    vk_digest: d,
                    provenance,
                    enabled: true,
                    frozen: false,
                    revision: 0,
                    activated_at: now,
                    verifications: 0,
                }))
                && final(self).circuit_index@.len() == old(self).circuit_index@.len() + 1
                && final(self).circuit_index@.last()@ == circuit_id@
                && final(self).circuit_index@.drop_last() == old(self).circuit_index@
                && final(self).rotations == old(self).rotations
                && old(self).keeps_settings(&*final(self))
                && old(self).keeps_access(&*final(self))
                && old(self).keeps_policies(&*final(self))
                && old(self).keeps_ledger(&*final(self)),
    {
        if let Err(e) = self.require_initialized() {
            return Err(e);
        }
        self.require_role(caller, Role::CircuitAdmin)?;
        if self.circuits.contains(circuit_id.as_slice()) {
            return Err(Error::CircuitAlreadyExists);
        }
        validate_verifying_key(env, &vk, num_public_inputs)?;
        let vk_digest = verifying_key_digest(env, &vk, num_public_inputs);
        let id_copy = bytes_to_vec(circuit_id.as_slice());
        let key = bytes_to_vec(circuit_id.as_slice());
        let record = CircuitRecord {
            circuit_id,
            vk,
            num_public_inputs,
            vk_digest,
            provenance,
            enabled: true,
            frozen: false,
            revision: 0,
            activated_at: now,
            verifications: 0,
        };
        assert(circuit_ok(record));
        self.circuits.insert(key, record);
        let ghost old_index = self.circuit_index@;
        self.circuit_index.push(id_copy);
        assert(self.circuit_index@.drop_last() =~= old_index);
        Ok(vk_digest)
    }

    /// How a rotation proposal is answered, and the timelock's end.
    pub open spec fn propose_check(&self, caller: Seq<u8>, circuit_id: Seq<u8>, vk: VerifyingKey, n: u32, now: u32) -> Result<u32, Error> {
        if !self.initialized {
            Err(Error::NotInitialized)
        } else {
            match self.role_check(caller, Role::CircuitAdmin) {
                Err(e) => Err(e),
                Ok(_) => if !self.circuits@.contains_key(circuit_id) {
                    Err(Error::CircuitNotFound)
                } else if self.circuits@[circuit_id].frozen {
                    Err(Error::CircuitFrozen)
                } else {
                    match vk_check(vk, n) {
                        Err(e) => Err(e),
                        Ok(_) => if sha256_digest(vk_digest_material(vk, n)) == self.circuits@[circuit_id].vk_digest {
                            Err(Error::VerifyingKeyUnchanged)
                        } else {
                            match self.config {
                                None => Err(Error::NotInitialized),
                                Some(c) => Ok(
                                    if now + c.rotation_timelock > u32::MAX { u32::MAX } else { (now + c.rotation_timelock) as u32 },
                                ),
                            }
                        },
                    }
                },
            }
        }
    }

    /// Propose a new key for an unfrozen circuit; it can be finalized once the
    /// timelock has passed. Answers the ledger from which it can.
    pub fn propose_rotation(
        &mut self,
        env: &Env,
        caller: &Address,
        circuit_id: &[u8],
        vk: VerifyingKey,
        num_public_inputs: u32,
        now: u32,
    ) -> (r: Result<u32, Error>)
        requires
            old(self).wf(),
            old(self).initialized && old(self).role_check(caller@, Role::CircuitAdmin) is Ok
                && old(self).circuits@.contains_key(circuit_id@) && !old(self).circuits@[circuit_id@].frozen
                ==> vk_decode_curve_ok(vk, num_public_inputs),
            vk.ic@.len() <= u32::MAX,
        ensures
            final(self).wf(),
            r == old(self).propose_check(caller@, circuit_id@, vk, num_public_inputs, now),
            r is Err ==> *final(self) == *old(self),
            r matches Ok(eta) ==> final(self).rotations@ == old(self).rotations@.insert(circuit_id@, final(self).rotations@[circuit_id@])
                && final(self).rotations@[circuit_id@].vk == vk
                && final(self).rotations@[circuit_id@].num_public_inputs == num_public_inputs
                && final(self).rotations@[circuit_id@].vk_digest == sha256_digest(vk_digest_material(vk, num_public_inputs))
                && final(self).rotations@[circuit_id@].eta == eta
                && final(self).rotations@[circuit_id@].circuit_id@ == circuit_id@
                && final(self).rotations@[circuit_id@].proposer@ == caller@
                && final(self).circuits == old(self).circuits
                && final(self).circuit_index == old(self).circuit_index
                && old(self).keeps_settings(&*final(self))
                && old(self).keeps_access(&*final(self))
                && old(self).keeps_policies(&*final(self))
                && old(self).keeps_ledger(&*final(self)),
    {
        if let Err(e) = self.require_initialized() {
            return Err(e);
        }
        self.require_role(caller, Role::CircuitAdmin)?;
        let current_digest = match self.circuits.get(circuit_id) {
            None => return Err(Error::CircuitNotFound),
            Some(rec) => {
                if rec.frozen {
                    return Err(Error::CircuitFrozen);
                }
                rec.vk_digest
            },
        };
        validate_verifying_key(env, &vk, num_public_inputs)?;
        let vk_digest = verifying_key_digest(env, &vk, num_public_inputs);
        if digest_eq(&vk_digest, &current_digest) {
            return Err(Error::VerifyingKeyUnchanged);
        }
        let timelock = match &self.config {
            None => return Err(Error::NotInitialized),
            Some(c) => c.rotation_timelock,
        };
        let eta = now.saturating_add(timelock);
        let rotation = PendingRotation {
            circuit_id: bytes_to_vec(circuit_id),
            vk,
            num_public_inputs,
            vk_digest,
            eta,
            proposer: caller.duplicate(),
        };
        self.rotations.insert(bytes_to_vec(circuit_id), rotation);
        Ok(eta)
    }

    /// Withdraw a pending rotation.
    pub fn cancel_rotation(&mut self, caller: &Address, circuit_id: &[u8]) -> (r: Result<(), Error>)
        requires
            old(self).wf(),
        ensures
            final(self).wf(),
            r == (if !old(self).initialized {
                Err(Error::NotInitialized)
            } else {
                match old(self).role_check(caller@, Role::CircuitAdmin) {
                    Err(e) => Err(e),
                    Ok(_) => if !old(self).rotations@.contains_key(circuit_id@) {
                        Err(Error::NoPendingRotation)
                    } else {
                        Ok(())
                    },
                }
            }),
            r is Err ==> *final(self) == *old(self),
            r is Ok ==> final(self).rotations@ == old(self).rotations@.remove(circuit_id@)
                && final(self).circuits == old(self).circuits
                && final(self).circuit_index == old(self).circuit_index
                && old(self).keeps_settings(&*final(self))
                && old(self).keeps_access(&*final(self))
                && old(self).keeps_policies(&*final(self))
                && old(self).keeps_ledger(&*final(self)),
    {
        if let Err(e) = self.require_initialized() {
            return Err(e);
        }
        self.require_role(caller, Role::CircuitAdmin)?;
        if !self.rotations.contains(circuit_id) {
            return Err(Error::NoPendingRotation);
        }
        self.rotations.remove(circuit_id);
        Ok(())
    }

    /// How the finalization of a rotation is answered.
    pub open spec fn finalize_check(&self, caller: Seq<u8>, circuit_id: Seq<u8>, now: u32) -> Result<(), Error> {
        if !self.initialized {
            Err(Error::NotInitialized)
        } else {
            match self.role_check(caller, Role::CircuitAdmin) {
                Err(e) => Err(e),
                Ok(_) => if !self.rotations@.contains_key(circuit_id) {
                    Err(Error::NoPendingRotation)
                } else if now < self.rotations@[circuit_id].eta {
                    Err(Error::RotationTimelockActive)
                } else if !self.circuits@.contains_key(circuit_id) {
                    Err(Error::CircuitNotFound)
                } else if self.circuits@[circuit_id].frozen {
                    Err(Error::CircuitFrozen)
                } else {
                    Ok(())
                },
            }
        }
    }

    /// The record after a rotation to `p` at ledger `now`.
    pub open spec fn rotated(c: CircuitRecord, p: PendingRotation, now: u32) -> CircuitRecord {
        CircuitRecord {
            vk: p.vk,
            num_public_inputs: p.num_public_inputs,
            vk_digest: p.vk_digest,
            revision: if c.revision == u32::MAX { u32::MAX } else { (c.revision + 1) as u32 },
            activated_at: now,
            ..c
        }
    }

    /// Install the pending key once its timelock has passed; answers the new
    /// key's digest.
    pub fn finalize_rotation(&mut self, caller: &Address, circuit_id: &[u8], now: u32) -> (r: Result<[u8; 32], Error>)
        requires
            old(self).wf(),
        ensures
            final(self).wf(),
            r is Err ==> *final(self) == *old(self)
                && r == Err::<[u8; 32], Error>(old(self).finalize_check(caller@, circuit_id@, now)->Err_0)
                && old(self).finalize_check(caller@, circuit_id@, now) is Err,
            old(self).finalize_check(caller@, circuit_id@, now) is Err ==> r is Err,
            r matches Ok(d) ==> old(self).finalize_check(caller@, circuit_id@, now) is Ok
                && d == old(self).rotations@[circuit_id@].vk_digest
                && final(self).circuits@ == old(self).circuits@.insert(
                    circuit_id@,
                    Self::rotated(old(self).circuits@[circuit_id@], old(self).rotations@[circuit_id@], now),
                )
                && final(self).rotations@ == old(self).rotations@.remove(circuit_id@)
                && final(self).circuit_index == old(self).circuit_index
                && old(self).keeps_settings(&*final(self))
                && old(self).keeps_access(&*final(self))
                && old(self).keeps_policies(&*final(self))
                && old(self).keeps_ledger(&*final(self)),
    {
        if let Err(e) = self.require_initialized() {
            return Err(e);
        }
        self.require_role(caller, Role::CircuitAdmin)?;
        match self.rotations.get(circuit_id) {
            None => return Err(Error::NoPendingRotation),
            Some(p) => {
                if now < p.eta {
                    return Err(Error::RotationTimelockActive);
                }
            },
        }
        match self.circuits.get(circuit_id) {
            None => return Err(Error::CircuitNotFound),
            Some(c) => {
                if c.frozen {
                    return Err(Error::CircuitFrozen);
                }
            },
        }
        let rotation = self.rotations.take(circuit_id).unwrap();
        let mut record = self.circuits.take(circuit_id).unwrap();
        let digest = rotation.vk_digest;
        record.vk = rotation.vk;
        record.num_public_inputs = rotation.num_public_inputs;
        record.vk_digest = rotation.vk_digest;
        record.revision = record.revision.saturating_add(1);
        record.activated_at = now;
        self.circuits.insert(bytes_to_vec(circuit_id), record);
        assert(self.circuits@ =~= old(self).circuits@.insert(
            circuit_id@,
            Self::rotated(old(self).circuits@[circuit_id@], old(self).rotations@[circuit_id@], now),
        ));
        Ok(digest)
    }

    /// How a change to a circuit that needs `role` is answered.
    pub open spec fn circuit_change_check(&self, caller: Seq<u8>, circuit_id: Seq<u8>, admin_only: bool) -> Result<(), Error> {
        if !self.initialized {
            Err(Error::NotInitialized)
        } else {
            match (if admin_only { self.admin_check(caller) } else { self.role_check(caller, Role::CircuitAdmin) }) {
                Err(e) => Err(e),
                Ok(_) => if !self.circuits@.contains_key(circuit_id) {
                    Err(Error::CircuitNotFound)
                } else {
                    Ok(())
                },
            }
        }
    }

    /// Enable or disable a circuit for verification.
    pub fn set_circuit_enabled(&mut self, caller: &Address, circuit_id: &[u8], enabled: bool) -> (r: Result<(), Error>)
        requires
            old(self).wf(),
        ensures
            final(self).wf(),
            r == old(self).circuit_change_check(caller@, circuit_id@, false),
            r is Err ==> *final(self) == *old(self),
            r is Ok ==> final(self).circuits@ == old(self).circuits@.insert(
                    circuit_id@,
                    CircuitRecord { enabled, ..old(self).circuits@[circuit_id@] },
                )
                && final(self).rotations == old(self).rotations
                && final(self).circuit_index == old(self).circuit_index
                && old(self).keeps_settings(&*final(self))
                && old(self).keeps_access(&*final(self))
                && old(self).keeps_policies(&*final(self))
                && old(self).keeps_ledger(&*final(self)),
    {
        if let Err(e) = self.require_initialized() {
            return Err(e);
        }
        self.require_role(caller, Role::CircuitAdmin)?;
        let mut record = match self.circuits.take(circuit_id) {
            None => return Err(Error::CircuitNotFound),
            Some(c) => c,
        };
        record.enabled = enabled;
        self.circuits.insert(bytes_to_vec(circuit_id), record);
        assert(self.circuits@ =~= old(self).circuits@.insert(
            circuit_id@,
            CircuitRecord { enabled, ..old(self).circuits@[circuit_id@] },
        ));
        Ok(())
    }

    /// Freeze a circuit for good: no rotation can be proposed or finalized,
    /// and a pending one is dropped. Admin only.
    pub fn freeze_circuit(&mut self, caller: &Address, circuit_id: &[u8]) -> (r: Result<(), Error>)
        requires
            old(self).wf(),
        ensures
            final(self).wf(),
            r == old(self).circuit_change_check(caller@, circuit_id@, true),
            r is Err ==> *final(self) == *old(self),
            r is Ok ==> final(self).circuits@ == old(self).circuits@.insert(
                    circuit_id@,
                    CircuitRecord { frozen: true, ..old(self).circuits@[circuit_id@] },
                )
                && final(self).rotations@ == old(self).rotations@.remove(circuit_id@)
                && final(self).circuit_index == old(self).circuit_index
                && old(self).keeps_settings(&*final(self))
                && old(self).keeps_access(&*final(self))
                && old(self).keeps_policies(&*final(self))
                && old(self).keeps_ledger(&*final(self)),
    {
        if let Err(e) = self.require_initialized() {
            return Err(e);
        }
        self.require_admin(caller)?;
        let mut record = match self.circuits.take(circuit_id) {
            None => return Err(Error::CircuitNotFound),
            Some(c) => c,
        };
        record.frozen = true;
        self.circuits.insert(bytes_to_vec(circuit_id), record);
        self.rotations.remove(circuit_id);
        assert(self.circuits@ =~= old(self).circuits@.insert(
            circuit_id@,
            CircuitRecord { frozen: true, ..old(self).circuits@[circuit_id@] },
        ));
        Ok(())
    }

    /// How a lookup of an enabled circuit is answered.
    pub open spec fn active_check(&self, circuit_id: Seq<u8>) -> Result<(), Error> {
        if !self.circuits@.contains_key(circuit_id) {
            Err(Error::CircuitNotFound)
        } else if !self.circuits@[circuit_id].enabled {
            Err(Error::CircuitDisabled)
        } else {
            Ok(())
        }
    }

    /// The record of an enabled circuit.
    pub fn active_circuit(&self, circuit_id: &[u8]) -> (r: Result<&CircuitRecord, Error>)
        requires
            self.wf(),
        ensures
            r is Err ==> r == Err::<&CircuitRecord, Error>(self.active_check(circuit_id@)->Err_0)
                && self.active_check(circuit_id@) is Err,
            r matches Ok(c) ==> self.active_check(circuit_id@) is Ok && *c == self.circuits@[circuit_id@]
                && circuit_ok(*c),
    {
        match self.circuits.get(circuit_id) {
            None => Err(Error::CircuitNotFound),
            Some(c) => {
                if !c.enabled {
                    return Err(Error::CircuitDisabled);
                }
                Ok(c)
            },
        }
    }

    /// The record of a circuit.
    pub fn get_circuit(&self, circuit_id: &[u8]) -> (r: Result<&CircuitRecord, Error>)
        requires
            self.wf(),
        ensures
            !self.circuits@.contains_key(circuit_id@) ==> r == Err::<&CircuitRecord, Error>(Error::CircuitNotFound),
            r matches Ok(c) ==> self.circuits@.contains_key(circuit_id@) && *c == self.circuits@[circuit_id@],
            self.circuits@.contains_key(circuit_id@) ==> r is Ok,
    {
        match self.circuits.get(circuit_id) {
            None => Err(Error::CircuitNotFound),
            Some(c) => Ok(c),
        }
    }

    /// The pending rotation of a circuit.
    pub fn get_rotation(&self, circuit_id: &[u8]) -> (r: Result<&PendingRotation, Error>)
        requires
            self.wf(),
        ensures
            !self.rotations@.contains_key(circuit_id@) ==> r == Err::<&PendingRotation, Error>(Error::NoPendingRotation),
            r matches Ok(p) ==> self.rotations@.contains_key(circuit_id@) && *p == self.rotations@[circuit_id@],
            self.rotations@.contains_key(circuit_id@) ==> r is Ok,
    {
        match self.rotations.get(circuit_id) {
            None => Err(Error::NoPendingRotation),
            Some(p) => Ok(p),
        }
    }

    /// Count one more verification against a circuit.
    pub fn note_verification(&mut self, circuit_id: &[u8])
        requires
            old(self).wf(),
        ensures
            final(self).wf(),
            old(self).circuits@.contains_key(circuit_id@) ==> final(self).circuits@ == old(self).circuits@.insert(
                circuit_id@,
                CircuitRecord {
                    verifications: if old(self).circuits@[circuit_id@].verifications == u64::MAX {
                        u64::MAX
                    } else {
                        (old(self).circuits@[circuit_id@].verifications + 1) as u64
                    },
                    ..old(self).circuits@[circuit_id@]
                },
            ),
            !old(self).circuits@.contains_key(circuit_id@) ==> final(self).circuits == old(self).circuits,
            final(self).rotations == old(self).rotations,
            final(self).circuit_index == old(self).circuit_index,
            old(self).keeps_settings(&*final(self)),
            old(self).keeps_access(&*final(self)),
            old(self).keeps_policies(&*final(self)),
            old(self).keeps_ledger(&*final(self)),
    {
        if !self.circuits.contains(circuit_id) {
            return;
        }
        let mut record = self.circuits.take(circuit_id).unwrap();
        record.verifications = record.verifications.saturating_add(1);
        self.circuits.insert(bytes_to_vec(circuit_id), record);
        assert(self.circuits@ =~= old(self).circuits@.insert(
            circuit_id@,
            CircuitRecord {
                verifications: if old(self).circuits@[circuit_id@].verifications == u64::MAX {
                    u64::MAX
                } else {
                    (old(self).circuits@[circuit_id@].verifications + 1) as u64
                },
                ..old(self).circuits@[circuit_id@]
            },
        ));
    }
}

} // verus!
