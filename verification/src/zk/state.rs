//! The metadata verifier's state and its access control.
//!
//! Authentication (`require_auth`) is the host's: the caller handed to these
//! functions has already authenticated. What is decided here is whether that
//! caller may do what it asks.

use vstd::prelude::*;
use crate::address::Address;
use crate::table::Table;
use crate::zk::errors::Error;
use crate::zk::groth16::{vk_valid, MAX_PUBLIC_INPUTS};
use crate::zk::types::{Attestation, CircuitRecord, Config, PendingRotation, Policy, Role, Stats};

verus! {

/// The verifier contract's storage.
pub struct ZkMetadataVerifier {
    pub initialized: bool,
    pub config: Option<Config>,
    pub paused: bool,
    pub stats: Stats,
    pub admin: Option<Address>,
    pub pending_admin: Option<Address>,
    /// Role grants, keyed by `role_key(role, who)`.
    pub roles: Table<bool>,
    /// Holders per role, keyed by `role_tag_key(role)`.
    pub role_counts: Table<u32>,
    /// Circuits, keyed by id.
    pub circuits: Table<CircuitRecord>,
    pub circuit_index: Vec<Vec<u8>>,
    /// Pending rotations, keyed by circuit id.
    pub rotations: Table<PendingRotation>,
    /// Policies, keyed by `be_u32(version)`.
    pub policies: Table<Policy>,
    pub active_policy: Option<u32>,
    pub policy_index: Vec<u32>,
    /// Spent nullifiers and the ledger they were spent at.
    pub nullifiers: Table<u32>,
    /// Attestations, keyed by metadata commitment.
    pub attestations: Table<Attestation>,
    /// Attestations issued per issuer, keyed by the issuer's encoding.
    pub issuer_counts: Table<u64>,
}

/// The tag byte of a role.
pub open spec fn role_tag(role: Role) -> u8 {
    match role {
        Role::Admin => 0,
        Role::PolicyAdmin => 1,
        Role::CircuitAdmin => 2,
        Role::Pauser => 3,
        Role::Consumer => 4,
    }
}

/// The key of a role grant.
pub open spec fn role_key(role: Role, who: Seq<u8>) -> Seq<u8> {
    seq![role_tag(role)] + who
}

/// The key of a role's holder count.
pub open spec fn role_tag_key(role: Role) -> Seq<u8> {
    seq![role_tag(role)]
}

/// The tag byte of a role.
pub fn role_tag_of(role: Role) -> (r: u8)
    ensures
        r == role_tag(role),
{
    match role {
        Role::Admin => 0,
        Role::PolicyAdmin => 1,
        Role::CircuitAdmin => 2,
        Role::Pauser => 3,
        Role::Consumer => 4,
    }
}

/// The key of a role grant.
pub fn role_key_of(role: Role, who: &Address) -> (r: Vec<u8>)
    ensures
        r@ == role_key(role, who@),
{
    let mut k = Vec::new();
    k.push(role_tag_of(role));
    crate::bytes::append_bytes(&mut k, who.xdr.as_slice());
    assert(k@ =~= role_key(role, who@));
    k
}

/// A stored circuit is usable for verification: a validated key with one
/// base per public input plus the constant one.
pub open spec fn circuit_ok(c: CircuitRecord) -> bool {
    &&& vk_valid(c.vk)
    &&& c.num_public_inputs <= MAX_PUBLIC_INPUTS
    &&& c.vk.ic@.len() == c.num_public_inputs + 1
}

/// A pending rotation carries a validated key.
pub open spec fn rotation_ok(p: PendingRotation) -> bool {
    &&& vk_valid(p.vk)
    &&& p.num_public_inputs <= MAX_PUBLIC_INPUTS
    &&& p.vk.ic@.len() == p.num_public_inputs + 1
}

/// The grants recorded in `roles` under the tag of `role`.
pub open spec fn role_holders(roles: Map<Seq<u8>, bool>, role: Role) -> Set<Seq<u8>> {
    roles.dom().filter(|k: Seq<u8>| k.len() > 0 && k[0] == role_tag(role) && roles[k])
}

/// The count recorded in `counts` for `role`.
pub open spec fn count_in(counts: Map<Seq<u8>, u32>, role: Role) -> u32 {
    if counts.contains_key(role_tag_key(role)) {
        counts[role_tag_key(role)]
    } else {
        0
    }
}

/// Every role's recorded count is its number of holders.
#[verifier::opaque]
pub open spec fn counts_match(roles: Map<Seq<u8>, bool>, counts: Map<Seq<u8>, u32>) -> bool {
    forall|role: Role| #[trigger] count_in(counts, role) as int == role_holders(roles, role).len()
}

/// Distinct roles have distinct tags.
proof fn lemma_role_tag_injective(a: Role, b: Role)
    ensures
        role_tag(a) == role_tag(b) ==> a == b,
{
}

/// The holders after `who` is granted `role`, which it did not hold.
proof fn lemma_holders_after_grant(before: ZkMetadataVerifier, after: ZkMetadataVerifier, role: Role, who: Seq<u8>, r: Role)
    requires
        before.roles@.dom().finite(),
        !before.granted(role, who),
        after.roles@ == before.roles@.insert(role_key(role, who), true),
    ensures
        before.holders(r).finite(),
        r == role ==> !before.holders(role).contains(role_key(role, who))
            && after.holders(r) == before.holders(role).insert(role_key(role, who)),
        r != role ==> after.holders(r) == before.holders(r),
{
    let f = |k: Seq<u8>| k.len() > 0 && k[0] == role_tag(r) && before.roles@[k];
    before.roles@.dom().lemma_len_filter(f);
    let rk = role_key(role, who);
    assert(rk.len() > 0 && rk[0] == role_tag(role));
    lemma_role_tag_injective(r, role);
    if r == role {
        assert(after.holders(r) =~= before.holders(role).insert(rk));
    } else {
        assert(after.holders(r) =~= before.holders(r));
    }
}

/// The holders after `who` loses `role`, which it held.
proof fn lemma_holders_after_revoke(before: ZkMetadataVerifier, after: ZkMetadataVerifier, role: Role, who: Seq<u8>, r: Role)
    requires
        before.roles@.dom().finite(),
        before.granted(role, who),
        after.roles@ == before.roles@.remove(role_key(role, who)),
    ensures
        before.holders(r).finite(),
        r == role ==> before.holders(role).contains(role_key(role, who))
            && after.holders(r) == before.holders(role).remove(role_key(role, who)),
        r != role ==> after.holders(r) == before.holders(r),
{
    let f = |k: Seq<u8>| k.len() > 0 && k[0] == role_tag(r) && before.roles@[k];
    before.roles@.dom().lemma_len_filter(f);
    let rk = role_key(role, who);
    assert(rk.len() > 0 && rk[0] == role_tag(role));
    lemma_role_tag_injective(r, role);
    if r == role {
        assert(after.holders(r) =~= before.holders(role).remove(rk));
    } else {
        assert(after.holders(r) =~= before.holders(r));
    }
}

impl ZkMetadataVerifier {
    /// Internal consistency.
    pub open spec fn wf(&self) -> bool {
        &&& self.roles.wf()
        &&& self.role_counts.wf()
        &&& self.circuits.wf()
        &&& self.rotations.wf()
        &&& self.policies.wf()
        &&& self.nullifiers.wf()
        &&& self.attestations.wf()
        &&& self.issuer_counts.wf()
        &&& counts_match(self.roles@, self.role_counts@)
        &&& forall|k: Seq<u8>| #[trigger] self.circuits@.contains_key(k) ==> circuit_ok(self.circuits@[k])
        &&& forall|k: Seq<u8>| #[trigger] self.rotations@.contains_key(k) ==> rotation_ok(self.rotations@[k])
    }

    /// The holders of `role`: the grants recorded under its tag.
    pub open spec fn holders(&self, role: Role) -> Set<Seq<u8>> {
        role_holders(self.roles@, role)
    }

    /// A verifier with nothing stored.
    pub fn new() -> (s: ZkMetadataVerifier)
        ensures
            s.wf(),
            !s.initialized,
            !s.paused,
            s.admin is None,
            s.pending_admin is None,
            s.config is None,
            s.stats == (Stats {
                proofs_verified: 0,
                attestations_issued: 0,
                attestations_consumed: 0,
                nullifiers_spent: 0,
                batches_verified: 0,
            }),
            s.roles@ == Map::<Seq<u8>, bool>::empty(),
            s.role_counts@ == Map::<Seq<u8>, u32>::empty(),
            s.circuits@ == Map::<Seq<u8>, CircuitRecord>::empty(),
            s.circuit_index@.len() == 0,
            s.rotations@ == Map::<Seq<u8>, PendingRotation>::empty(),
            s.policies@ == Map::<Seq<u8>, Policy>::empty(),
            s.active_policy is None,
            s.policy_index@.len() == 0,
            s.nullifiers@ == Map::<Seq<u8>, u32>::empty(),
            s.attestations@ == Map::<Seq<u8>, Attestation>::empty(),
            s.issuer_counts@ == Map::<Seq<u8>, u64>::empty(),
    {
        let s = ZkMetadataVerifier {
            initialized: false,
            config: None,
            paused: false,
            stats: Stats::new(),
            admin: None,
            pending_admin: None,
            roles: Table::new(),
            role_counts: Table::new(),
            circuits: Table::new(),
            circuit_index: Vec::new(),
            rotations: Table::new(),
            policies: Table::new(),
            active_policy: None,
            policy_index: Vec::new(),
            nullifiers: Table::new(),
            attestations: Table::new(),
            issuer_counts: Table::new(),
        };
        proof {
            reveal(counts_match);
            assert forall|r: Role| #[trigger] count_in(s.role_counts@, r) as int == role_holders(s.roles@, r).len() by {
                assert(s.holders(r) =~= Set::<Seq<u8>>::empty());
            }
        }
        s
    }

    /// `NotInitialized` until the contract is initialized.
    pub fn require_initialized(&self) -> (r: Result<(), Error>)
        ensures
            self.initialized ==> r is Ok,
            !self.initialized ==> r == Err::<(), Error>(Error::NotInitialized),
    {
        if self.initialized {
            Ok(())
        } else {
            Err(Error::NotInitialized)
        }
    }

    /// `Paused` while the contract is paused.
    pub fn require_not_paused(&self) -> (r: Result<(), Error>)
        ensures
            !self.paused ==> r is Ok,
            self.paused ==> r == Err::<(), Error>(Error::Paused),
    {
        if self.paused {
            Err(Error::Paused)
        } else {
            Ok(())
        }
    }

    // --- frames -------------------------------------------------------------

    /// Same initialization flag, configuration, pause flag and counters.
    pub open spec fn keeps_settings(&self, o: &ZkMetadataVerifier) -> bool {
        &&& o.initialized == self.initialized
        &&& o.config == self.config
        &&& o.paused == self.paused
        &&& o.stats == self.stats
    }

    /// Same admin, pending admin and role grants.
    pub open spec fn keeps_access(&self, o: &ZkMetadataVerifier) -> bool {
        &&& o.admin == self.admin
        &&& o.pending_admin == self.pending_admin
        &&& o.roles == self.roles
        &&& o.role_counts == self.role_counts
    }

    /// Same circuits, index and rotations.
    pub open spec fn keeps_registry(&self, o: &ZkMetadataVerifier) -> bool {
        &&& o.circuits == self.circuits
        &&& o.circuit_index == self.circuit_index
        &&& o.rotations == self.rotations
    }

    /// Same policies.
    pub open spec fn keeps_policies(&self, o: &ZkMetadataVerifier) -> bool {
        &&& o.policies == self.policies
        &&& o.active_policy == self.active_policy
        &&& o.policy_index == self.policy_index
    }

    /// Same nullifiers, attestations and issuer counts.
    pub open spec fn keeps_ledger(&self, o: &ZkMetadataVerifier) -> bool {
        &&& o.nullifiers == self.nullifiers
        &&& o.attestations == self.attestations
        &&& o.issuer_counts == self.issuer_counts
    }

    // --- access -------------------------------------------------------------

    /// Whether `who` is the admin; refused before initialization.
    pub open spec fn admin_is(&self, who: Seq<u8>) -> Result<bool, Error> {
        match self.admin {
            None => Err(Error::NotInitialized),
            Some(a) => Ok(a@ == who),
        }
    }

    /// Whether `who` was granted `role`.
    pub open spec fn granted(&self, role: Role, who: Seq<u8>) -> bool {
        self.roles@.contains_key(role_key(role, who)) && self.roles@[role_key(role, who)]
    }

    /// The number of holders recorded for `role`.
    pub open spec fn role_count_of(&self, role: Role) -> u32 {
        count_in(self.role_counts@, role)
    }

    /// How a demand for `role` by `caller` is answered: the admin holds every role.
    pub open spec fn role_check(&self, caller: Seq<u8>, role: Role) -> Result<(), Error> {
        match self.admin_is(caller) {
            Err(e) => Err(e),
            Ok(true) => Ok(()),
            Ok(false) => if self.granted(role, caller) {
                Ok(())
            } else {
                Err(Error::Unauthorized)
            },
        }
    }

    /// How a demand for the admin by `caller` is answered.
    pub open spec fn admin_check(&self, caller: Seq<u8>) -> Result<(), Error> {
        match self.admin_is(caller) {
            Err(e) => Err(e),
            Ok(true) => Ok(()),
            Ok(false) => Err(Error::Unauthorized),
        }
    }

    /// Whether `who` is the admin.
    pub fn is_admin(&self, who: &Address) -> (r: Result<bool, Error>)
        ensures
            r == self.admin_is(who@),
    {
        match &self.admin {
            None => Err(Error::NotInitialized),
            Some(a) => Ok(a.same(who)),
        }
    }

    /// Whether `who` was granted `role`.
    pub fn has_granted_role(&self, role: Role, who: &Address) -> (r: bool)
        requires
            self.wf(),
        ensures
            r == self.granted(role, who@),
    {
        let k = role_key_of(role, who);
        match self.roles.get(k.as_slice()) {
            Some(b) => *b,
            None => false,
        }
    }

    /// The number of holders recorded for `role`.
    pub fn role_count(&self, role: Role) -> (r: u32)
        requires
            self.wf(),
        ensures
            r == self.role_count_of(role),
    {
        let k = vec![role_tag_of(role)];
        assert(k@ =~= role_tag_key(role));
        match self.role_counts.get(k.as_slice()) {
            Some(c) => *c,
            None => 0,
        }
    }

    /// Whether `who` holds `role`, the admin holding every role.
    pub fn check_role(&self, who: &Address, role: Role) -> (r: bool)
        requires
            self.wf(),
        ensures
            r == (self.admin_is(who@) == Ok::<bool, Error>(true) || self.granted(role, who@)),
    {
        match self.is_admin(who) {
            Ok(true) => true,
            _ => self.has_granted_role(role, who),
        }
    }

    /// Refuse `caller` unless it holds `role`.
    pub fn require_role(&self, caller: &Address, role: Role) -> (r: Result<(), Error>)
        requires
            self.wf(),
        ensures
            r == self.role_check(caller@, role),
    {
        if self.is_admin(caller)? || self.has_granted_role(role, caller) {
            Ok(())
        } else {
            Err(Error::Unauthorized)
        }
    }

    /// Refuse `caller` unless it is the admin.
    pub fn require_admin(&self, caller: &Address) -> (r: Result<(), Error>)
        ensures
            r == self.admin_check(caller@),
    {
        if self.is_admin(caller)? {
            Ok(())
        } else {
            Err(Error::Unauthorized)
        }
    }

    /// Record a grant of `role` to `who`, counting a new holder once.
    pub fn grant_role_entry(&mut self, role: Role, who: &Address)
        requires
            old(self).wf(),
            old(self).role_count_of(role) < u32::MAX,
        ensures
            final(self).wf(),
            old(self).keeps_settings(&*final(self)),
            old(self).keeps_registry(&*final(self)),
            old(self).keeps_policies(&*final(self)),
            old(self).keeps_ledger(&*final(self)),
            final(self).admin == old(self).admin,
            final(self).pending_admin == old(self).pending_admin,
            old(self).granted(role, who@) ==> final(self).roles == old(self).roles
                && final(self).role_counts == old(self).role_counts,
            !old(self).granted(role, who@) ==> final(self).roles@ == old(self).roles@.insert(role_key(role, who@), true)
                && final(self).role_counts@ == old(self).role_counts@.insert(
                    role_tag_key(role),
                    (old(self).role_count_of(role) + 1) as u32,
                ),
    {
        if self.has_granted_role(role, who) {
            return;
        }
        let ghost before = *self;
        let count = self.role_count(role);
        self.roles.insert(role_key_of(role, who), true);
        let k = vec![role_tag_of(role)];
        assert(k@ =~= role_tag_key(role));
        self.role_counts.insert(k, count + 1);
        proof {
            reveal(counts_match);
            before.roles.lemma_finite();
            assert forall|r: Role| #[trigger] count_in(self.role_counts@, r) as int == role_holders(self.roles@, r).len() by {
                lemma_holders_after_grant(before, *self, role, who@, r);
                lemma_role_tag_injective(r, role);
                assert(count_in(before.role_counts@, r) as int == role_holders(before.roles@, r).len());
                if r != role {
                    assert(role_tag_key(r) != role_tag_key(role)) by {
                        assert(role_tag_key(r)[0] != role_tag_key(role)[0]);
                    }
                }
            }
        }
    }

    /// Withdraw a grant of `role` from `who`, counting a holder less once.
    pub fn revoke_role_entry(&mut self, role: Role, who: &Address)
        requires
            old(self).wf(),
        ensures
            final(self).wf(),
            old(self).keeps_settings(&*final(self)),
            old(self).keeps_registry(&*final(self)),
            old(self).keeps_policies(&*final(self)),
            old(self).keeps_ledger(&*final(self)),
            final(self).admin == old(self).admin,
            final(self).pending_admin == old(self).pending_admin,
            !old(self).granted(role, who@) ==> final(self).roles == old(self).roles
                && final(self).role_counts == old(self).role_counts,
            old(self).granted(role, who@) ==> final(self).roles@ == old(self).roles@.remove(role_key(role, who@))
                && final(self).role_counts@ == old(self).role_counts@.insert(
                    role_tag_key(role),
                    (if old(self).role_count_of(role) > 0 { old(self).role_count_of(role) - 1 } else { 0 }) as u32,
                ),
    {
        if !self.has_granted_role(role, who) {
            return;
        }
        let ghost before = *self;
        let count = self.role_count(role);
        let k = role_key_of(role, who);
        self.roles.remove(k.as_slice());
        let t = vec![role_tag_of(role)];
        assert(t@ =~= role_tag_key(role));
        self.role_counts.insert(t, count.saturating_sub(1));
        proof {
            reveal(counts_match);
            before.roles.lemma_finite();
            assert forall|r: Role| #[trigger] count_in(self.role_counts@, r) as int == role_holders(self.roles@, r).len() by {
                lemma_holders_after_revoke(before, *self, role, who@, r);
                lemma_role_tag_injective(r, role);
                assert(count_in(before.role_counts@, r) as int == role_holders(before.roles@, r).len());
                if r != role {
                    assert(role_tag_key(r) != role_tag_key(role)) by {
                        assert(role_tag_key(r)[0] != role_tag_key(role)[0]);
                    }
                }
            }
        }
    }

    /// The admin grants `role` (never the admin role) to `who`.
    pub fn grant(&mut self, caller: &Address, role: Role, who: &Address) -> (r: Result<(), Error>)
        requires
            old(self).wf(),
            old(self).role_count_of(role) < u32::MAX,
        ensures
            final(self).wf(),
            r == (match old(self).admin_check(caller@) {
                Err(e) => Err(e),
                Ok(_) => if role == Role::Admin {
                    Err(Error::InvalidRoleTarget)
                } else {
                    Ok(())
                },
            }),
            r is Err ==> *final(self) == *old(self),
            r is Ok ==> final(self).granted(role, who@)
                && (forall|rl: Role, w: Seq<u8>| (rl != role || w != who@) ==>
                    (#[trigger] final(self).granted(rl, w) == old(self).granted(rl, w)))
                && final(self).admin == old(self).admin
                && final(self).pending_admin == old(self).pending_admin
                && old(self).keeps_settings(&*final(self))
                && old(self).keeps_registry(&*final(self))
                && old(self).keeps_policies(&*final(self))
                && old(self).keeps_ledger(&*final(self)),
    {
        self.require_admin(caller)?;
        if role == Role::Admin {
            return Err(Error::InvalidRoleTarget);
        }
        self.grant_role_entry(role, who);
        proof {
            assert forall|rl: Role, w: Seq<u8>| (rl != role || w != who@) implies
                (#[trigger] self.granted(rl, w) == old(self).granted(rl, w)) by {
                if role_key(rl, w) == role_key(role, who@) {
                    assert(role_key(rl, w)[0] == role_key(role, who@)[0]);
                    assert(w =~= role_key(rl, w).subrange(1, role_key(rl, w).len() as int));
                    assert(who@ =~= role_key(role, who@).subrange(1, role_key(role, who@).len() as int));
                }
            }
        }
        Ok(())
    }

    /// The admin withdraws `role` (never the admin role) from `who`.
    pub fn revoke(&mut self, caller: &Address, role: Role, who: &Address) -> (r: Result<(), Error>)
        requires
            old(self).wf(),
        ensures
            final(self).wf(),
            r == (match old(self).admin_check(caller@) {
                Err(e) => Err(e),
                Ok(_) => if role == Role::Admin {
                    Err(Error::InvalidRoleTarget)
                } else {
                    Ok(())
                },
            }),
            r is Err ==> *final(self) == *old(self),
            r is Ok ==> !final(self).granted(role, who@)
                && (forall|rl: Role, w: Seq<u8>| (rl != role || w != who@) ==>
                    (#[trigger] final(self).granted(rl, w) == old(self).granted(rl, w)))
                && final(self).admin == old(self).admin
                && final(self).pending_admin == old(self).pending_admin
                && old(self).keeps_settings(&*final(self))
                && old(self).keeps_registry(&*final(self))
                && old(self).keeps_policies(&*final(self))
                && old(self).keeps_ledger(&*final(self)),
    {
        self.require_admin(caller)?;
        if role == Role::Admin {
            return Err(Error::InvalidRoleTarget);
        }
        self.revoke_role_entry(role, who);
        proof {
            assert forall|rl: Role, w: Seq<u8>| (rl != role || w != who@) implies
                (#[trigger] self.granted(rl, w) == old(self).granted(rl, w)) by {
                if role_key(rl, w) == role_key(role, who@) {
                    assert(role_key(rl, w)[0] == role_key(role, who@)[0]);
                    assert(w =~= role_key(rl, w).subrange(1, role_key(rl, w).len() as int));
                    assert(who@ =~= role_key(role, who@).subrange(1, role_key(role, who@).len() as int));
                }
            }
        }
        Ok(())
    }

    /// The admin names a successor, who becomes admin only by accepting.
    pub fn transfer_admin(&mut self, caller: &Address, new_admin: &Address) -> (r: Result<(), Error>)
        requires
            old(self).wf(),
        ensures
            final(self).wf(),
            r == (if !old(self).initialized {
                Err(Error::NotInitialized)
            } else {
                match old(self).admin_check(caller@) {
                    Err(e) => Err(e),
                    Ok(_) => if new_admin@ == caller@ {
                        Err(Error::InvalidRoleTarget)
                    } else {
                        Ok(())
                    },
                }
            }),
            r is Err ==> *final(self) == *old(self),
            r is Ok ==> (final(self).pending_admin matches Some(p) && p@ == new_admin@)
                && final(self).admin == old(self).admin
                && final(self).roles == old(self).roles
                && final(self).role_counts == old(self).role_counts
                && old(self).keeps_settings(&*final(self))
                && old(self).keeps_registry(&*final(self))
                && old(self).keeps_policies(&*final(self))
                && old(self).keeps_ledger(&*final(self)),
    {
        if let Err(e) = self.require_initialized() {
            return Err(e);
        }
        self.require_admin(caller)?;
        if new_admin.same(caller) {
            return Err(Error::InvalidRoleTarget);
        }
        self.pending_admin = Some(new_admin.duplicate());
        Ok(())
    }

    /// The named successor takes over as admin.
    pub fn accept_admin(&mut self, caller: &Address) -> (r: Result<(), Error>)
        requires
            old(self).wf(),
        ensures
            final(self).wf(),
            r == (if !old(self).initialized {
                Err(Error::NotInitialized)
            } else {
                match old(self).pending_admin {
                    None => Err(Error::NoPendingTransfer),
                    Some(p) => if p@ != caller@ {
                        Err(Error::NoPendingTransfer)
                    } else if old(self).admin is None {
                        Err(Error::NotInitialized)
                    } else {
                        Ok(())
                    },
                }
            }),
            r is Err ==> *final(self) == *old(self),
            r is Ok ==> (final(self).admin matches Some(a) && a@ == caller@)
                && final(self).pending_admin is None
                && final(self).roles == old(self).roles
                && final(self).role_counts == old(self).role_counts
                && old(self).keeps_settings(&*final(self))
                && old(self).keeps_registry(&*final(self))
                && old(self).keeps_policies(&*final(self))
                && old(self).keeps_ledger(&*final(self)),
    {
        if let Err(e) = self.require_initialized() {
            return Err(e);
        }
        let matches = match &self.pending_admin {
            None => false,
            Some(p) => p.same(caller),
        };
        if !matches {
            return Err(Error::NoPendingTransfer);
        }
        if self.admin.is_none() {
            return Err(Error::NotInitialized);
        }
        self.admin = Some(caller.duplicate());
        self.pending_admin = None;
        Ok(())
    }

    /// The admin withdraws a pending transfer.
    pub fn cancel_admin_transfer(&mut self, caller: &Address) -> (r: Result<(), Error>)
        requires
            old(self).wf(),
        ensures
            final(self).wf(),
            r == (if !old(self).initialized {
                Err(Error::NotInitialized)
            } else {
                match old(self).admin_check(caller@) {
                    Err(e) => Err(e),
                    Ok(_) => if old(self).pending_admin is None {
                        Err(Error::NoPendingTransfer)
                    } else {
                        Ok(())
                    },
                }
            }),
            r is Err ==> *final(self) == *old(self),
            r is Ok ==> final(self).pending_admin is None
                && final(self).admin == old(self).admin
                && final(self).roles == old(self).roles
                && final(self).role_counts == old(self).role_counts
                && old(self).keeps_settings(&*final(self))
                && old(self).keeps_registry(&*final(self))
                && old(self).keeps_policies(&*final(self))
                && old(self).keeps_ledger(&*final(self)),
    {
        if let Err(e) = self.require_initialized() {
            return Err(e);
        }
        self.require_admin(caller)?;
        if self.pending_admin.is_none() {
            return Err(Error::NoPendingTransfer);
        }
        self.pending_admin = None;
        Ok(())
    }
}

} // verus!
