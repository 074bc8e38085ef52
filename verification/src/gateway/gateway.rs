//! The mint gateway: a token is created only under a metadata commitment that
//! binds the issuer and every declared parameter, within the issuer's quota,
//! and minted only up to its declared supply cap.
//!
//! Creation spans a call into the verifier contract, which consumes the
//! attestation of the commitment. `create_token` runs everything before that
//! call; `record_token` stores the token with what the verifier answered.

use vstd::prelude::*;
use soroban_sdk::xdr::ToXdr;
use soroban_sdk::Env;
use crate::address::Address;
use crate::bytes::{append_bytes, be_i128, be_u32, bytes_to_vec, i128_be, u32_be};
use crate::gateway::errors::Error;
use crate::gateway::types::{GatewayConfig, IssuerQuota, PendingCreation, TokenParams, TokenRecord};
use crate::table::Table;
use crate::zk::field::{clear_top_byte, digest_eq, top_cleared};
use crate::zk::host::{sha256, sha256_digest};

verus! {

/// Domain tag of token commitments.
pub const COMMITMENT_DST: [u8; 29] = [
    0x53, 0x4f, 0x52, 0x4f, 0x4d, 0x49, 0x4e, 0x54, 0x2d, 0x5a, 0x4b, 0x2d, 0x54, 0x4f, 0x4b, 0x45,
    0x4e, 0x2d, 0x4d, 0x45, 0x54, 0x41, 0x44, 0x41, 0x54, 0x41, 0x2d, 0x56, 0x31,
];

/// Default creations per issuer and window.
pub const DEFAULT_TOKENS_PER_WINDOW: u32 = 5;
/// Default window length, in ledgers.
pub const DEFAULT_WINDOW_LEDGERS: u32 = 17_280;

/// The XDR encoding of a string value with these bytes: the value's type tag
/// (14, a big-endian `i32`), the length as a big-endian `u32`, the bytes, and
/// zero bytes up to a multiple of four.
pub open spec fn string_xdr(s: Seq<u8>) -> Seq<u8> {
    seq![0u8, 0u8, 0u8, 14u8] + be_u32(s.len() as u32) + s + Seq::new(((4 - s.len() % 4) % 4) as nat, |i: int| 0u8)
}

/// `String::from_bytes(..).to_xdr(..)`: the host serializes the string value
/// as `string_xdr` states; a length beyond `u32::MAX` cannot be written.
#[verifier::external_body]
fn string_to_xdr(env: &Env, s: &[u8]) -> (r: Vec<u8>)
    requires
        s@.len() <= u32::MAX,
    ensures
        r@ == string_xdr(s@),
{
    let bytes = soroban_sdk::String::from_bytes(env, s).to_xdr(env);
    let mut out = Vec::new();
    for b in bytes.iter() {
        out.push(b);
    }
    out
}

/// A length-prefixed field.
pub open spec fn field(f: Seq<u8>) -> Seq<u8> {
    be_u32(f.len() as u32) + f
}

/// What a token commitment hashes: the tag, then the issuer, name, symbol,
/// decimals, supply cap and metadata URI.
pub open spec fn commitment_material(issuer: Seq<u8>, p: TokenParams) -> Seq<u8> {
    COMMITMENT_DST@ + field(issuer) + field(string_xdr(p.name@)) + field(string_xdr(p.symbol@))
        + be_u32(p.decimals) + be_i128(p.supply_cap) + field(string_xdr(p.metadata_uri@))
}

/// The commitment to a token's declaration by an issuer.
pub open spec fn commitment_of(issuer: Seq<u8>, p: TokenParams) -> [u8; 32] {
    top_cleared(sha256_digest(commitment_material(issuer, p)))
}

fn append_field(buf: &mut Vec<u8>, f: &[u8])
    ensures
        final(buf)@ == old(buf)@ + field(f@),
{
    let len = u32_be(f.len() as u32);
    append_bytes(buf, len.as_slice());
    append_bytes(buf, f);
    assert(final(buf)@ =~= old(buf)@ + field(f@));
}

/// The commitment to a token's declaration by `issuer`.
pub fn compute_commitment(env: &Env, issuer: &Address, params: &TokenParams) -> (r: [u8; 32])
    requires
        params.name@.len() <= u32::MAX,
        params.symbol@.len() <= u32::MAX,
        params.metadata_uri@.len() <= u32::MAX,
    ensures
        r == commitment_of(issuer@, *params),
{
    let mut buf = bytes_to_vec(COMMITMENT_DST.as_slice());
    append_field(&mut buf, issuer.xdr.as_slice());
    let name = string_to_xdr(env, params.name.as_slice());
    append_field(&mut buf, name.as_slice());
    let symbol = string_to_xdr(env, params.symbol.as_slice());
    append_field(&mut buf, symbol.as_slice());
    let d = u32_be(params.decimals);
    append_bytes(&mut buf, d.as_slice());
    let cap = i128_be(params.supply_cap);
    append_bytes(&mut buf, cap.as_slice());
    let uri = string_to_xdr(env, params.metadata_uri.as_slice());
    append_field(&mut buf, uri.as_slice());
    assert(buf@ =~= commitment_material(issuer@, *params));
    let digest = sha256(env, buf.as_slice());
    clear_top_byte(digest)
}

/// How declared parameters are judged.
pub open spec fn params_check(p: TokenParams) -> Result<(), Error> {
    if p.name@.len() == 0 || p.symbol@.len() == 0 {
        Err(Error::InvalidTokenParams)
    } else if p.decimals > 18 {
        Err(Error::InvalidTokenParams)
    } else if p.supply_cap <= 0 {
        Err(Error::InvalidTokenParams)
    } else {
        Ok(())
    }
}

/// Judge declared parameters: non-empty name and symbol, at most eighteen
/// decimals, a positive supply cap.
pub fn validate_params(params: &TokenParams) -> (r: Result<(), Error>)
    ensures
        r == params_check(*params),
{
    if params.name.len() == 0 || params.symbol.len() == 0 {
        return Err(Error::InvalidTokenParams);
    }
    if params.decimals > 18 {
        return Err(Error::InvalidTokenParams);
    }
    if params.supply_cap <= 0 {
        return Err(Error::InvalidTokenParams);
    }
    Ok(())
}

/// An issuer's quota after one more creation at ledger `now`: the window
/// restarts once `window_ledgers` have passed since it began.
pub open spec fn quota_charged(q: Option<IssuerQuota>, now: u32, per_window: u32, window: u32) -> Result<IssuerQuota, Error> {
    let start = match q {
        Some(x) => x,
        None => IssuerQuota { window_start: now, used: 0 },
    };
    let elapsed = if now >= start.window_start { now - start.window_start } else { 0 };
    let current = if elapsed >= window { IssuerQuota { window_start: now, used: 0 } } else { start };
    if current.used >= per_window {
        Err(Error::QuotaExceeded)
    } else {
        Ok(IssuerQuota { used: (current.used + 1) as u32, ..current })
    }
}

/// The gateway contract's storage.
pub struct ZkMintGateway {
    pub initialized: bool,
    pub admin: Option<Address>,
    pub config: Option<GatewayConfig>,
    pub paused: bool,
    /// Tokens, keyed by metadata commitment.
    pub tokens: Table<TokenRecord>,
    pub token_index: Vec<[u8; 32]>,
    /// Quotas, keyed by the issuer's encoding.
    pub quotas: Table<IssuerQuota>,
}

impl ZkMintGateway {
    /// Internal consistency: sound tables, and no token minted past its cap.
    pub open spec fn wf(&self) -> bool {
        &&& self.tokens.wf()
        &&& self.quotas.wf()
        &&& forall|k: Seq<u8>| #[trigger] self.tokens@.contains_key(k) ==>
            0 <= self.tokens@[k].minted <= self.tokens@[k].params.supply_cap
    }

    /// A gateway with nothing stored.
    pub fn new() -> (g: ZkMintGateway)
        ensures
            g.wf(),
            !g.initialized,
            !g.paused,
            g.admin is None,
            g.config is None,
            g.tokens@ == Map::<Seq<u8>, TokenRecord>::empty(),
            g.token_index@.len() == 0,
            g.quotas@ == Map::<Seq<u8>, IssuerQuota>::empty(),
    {
        ZkMintGateway {
            initialized: false,
            admin: None,
            config: None,
            paused: false,
            tokens: Table::new(),
            token_index: Vec::new(),
            quotas: Table::new(),
        }
    }

    /// `NotInitialized` until the contract is initialized.
    pub fn require_initialized(&self) -> (r: Result<(), Error>)
        ensures
            self.initialized ==> r is Ok,
            !self.initialized ==> r == Err::<(), Error>(Error::NotInitialized),
    {
        if self.initialized {
            Ok(())
        } else {
            Err(Error::NotInitialized)
        }
    }

    /// `Paused` while the contract is paused.
    pub fn require_not_paused(&self) -> (r: Result<(), Error>)
        ensures
            !self.paused ==> r is Ok,
            self.paused ==> r == Err::<(), Error>(Error::Paused),
    {
        if self.paused {
            Err(Error::Paused)
        } else {
            Ok(())
        }
    }

    /// Same tokens, index and quotas.
    pub open spec fn keeps_tokens(&self, o: &ZkMintGateway) -> bool {
        &&& o.tokens == self.tokens
        &&& o.token_index == self.token_index
        &&& o.quotas == self.quotas
    }

    /// How a demand for the admin by `caller` is answered.
    pub open spec fn admin_check(&self, caller: Seq<u8>) -> Result<(), Error> {
        match self.admin {
            None => Err(Error::NotInitialized),
            Some(a) => if a@ == caller {
                Ok(())
            } else {
                Err(Error::Unauthorized)
            },
        }
    }

    /// Refuse `caller` unless it is the admin.
    pub fn require_admin(&self, caller: &Address) -> (r: Result<(), Error>)
        ensures
            r == self.admin_check(caller@),
    {
        match &self.admin {
            None => Err(Error::NotInitialized),
            Some(a) => if a.same(caller) {
                Ok(())
            } else {
                Err(Error::Unauthorized)
            },
        }
    }

    /// Take `admin` as admin and `verifier` as the attestation source, with
    /// the default quota.
    pub fn initialize(&mut self, admin: Address, verifier: Address) -> (r: Result<(), Error>)
        requires
            old(self).wf(),
        ensures
            final(self).wf(),
            old(self).initialized ==> r == Err::<(), Error>(Error::AlreadyInitialized) && *final(self) == *old(self),
            !old(self).initialized ==> r is Ok
                && final(self).initialized
                && final(self).admin == Some(admin)
                && final(self).config == Some(GatewayConfig {
                    verifier,
                    tokens_per_window: DEFAULT_TOKENS_PER_WINDOW,
                    window_ledgers: DEFAULT_WINDOW_LEDGERS,
                })
                && !final(self).paused
                && old(self).keeps_tokens(&*final(self)),
    {
        if self.initialized {
            return Err(Error::AlreadyInitialized);
        }
        self.admin = Some(admin);
        self.config = Some(GatewayConfig {
            verifier,
            tokens_per_window: DEFAULT_TOKENS_PER_WINDOW,
            window_ledgers: DEFAULT_WINDOW_LEDGERS,
        });
        self.paused = false;
        self.initialized = true;
        Ok(())
    }

    /// The admin replaces the configuration; a window must last a ledger at least.
    pub fn set_config(&mut self, caller: &Address, config: GatewayConfig) -> (r: Result<(), Error>)
        requires
            old(self).wf(),
        ensures
            final(self).wf(),
            r == (if !old(self).initialized {
                Err(Error::NotInitialized)
            } else {
                match old(self).admin_check(caller@) {
                    Err(e) => Err(e),
                    Ok(_) => if config.window_ledgers == 0 {
                        Err(Error::InvalidTokenParams)
                    } else {
                        Ok(())
                    },
                }
            }),
            r is Err ==> *final(self) == *old(self),
            r is Ok ==> final(self).config == Some(config)
                && final(self).initialized == old(self).initialized
                && final(self).admin == old(self).admin
                && final(self).paused == old(self).paused
                && old(self).keeps_tokens(&*final(self)),
    {
        if let Err(e) = self.require_initialized() {
            return Err(e);
        }
        self.require_admin(caller)?;
        if config.window_ledgers == 0 {
            return Err(Error::InvalidTokenParams);
        }
        self.config = Some(config);
        Ok(())
    }

    /// The admin halts creation and minting.
    pub fn pause(&mut self, caller: &Address) -> (r: Result<(), Error>)
        requires
            old(self).wf(),
        ensures
            final(self).wf(),
            r == (if !old(self).initialized {
                Err(Error::NotInitialized)
            } else {
                match old(self).admin_check(caller@) {
                    Err(e) => Err(e),
                    Ok(_) => if old(self).paused {
                        Err(Error::Paused)
                    } else {
                        Ok(())
                    },
                }
            }),
            r is Err ==> *final(self) == *old(self),
            r is Ok ==> final(self).paused
                && final(self).initialized == old(self).initialized
                && final(self).admin == old(self).admin
                && final(self).config == old(self).config
                && old(self).keeps_tokens(&*final(self)),
    {
        if let Err(e) = self.require_initialized() {
            return Err(e);
        }
        self.require_admin(caller)?;
        if let Err(e) = self.require_not_paused() {
            return Err(e);
        }
        self.paused = true;
        Ok(())
    }

    /// The admin resumes a paused gateway.
    pub fn unpause(&mut self, caller: &Address) -> (r: Result<(), Error>)
        requires
            old(self).wf(),
        ensures
            final(self).wf(),
            r == (if !old(self).initialized {
                Err(Error::NotInitialized)
            } else {
                match old(self).admin_check(caller@) {
                    Err(e) => Err(e),
                    Ok(_) => if !old(self).paused {
                        Err(Error::NotPaused)
                    } else {
                        Ok(())
                    },
                }
            }),
            r is Err ==> *final(self) == *old(self),
            r is Ok ==> !final(self).paused
                && final(self).initialized == old(self).initialized
                && final(self).admin == old(self).admin
                && final(self).config == old(self).config
                && old(self).keeps_tokens(&*final(self)),
    {
        if let Err(e) = self.require_initialized() {
            return Err(e);
        }
        self.require_admin(caller)?;
        if !self.paused {
            return Err(Error::NotPaused);
        }
        self.paused = false;
        Ok(())
    }

    /// The quota recorded for an issuer.
    pub open spec fn quota_of(&self, issuer: Seq<u8>) -> Option<IssuerQuota> {
        if self.quotas@.contains_key(issuer) {
            Some(self.quotas@[issuer])
        } else {
            None
        }
    }

    /// Charge one creation to `issuer`'s quota at ledger `now`.
    pub fn charge_quota(&mut self, issuer: &Address, now: u32) -> (r: Result<(), Error>)
        requires
            old(self).wf(),
            old(self).config is Some,
        ensures
            final(self).wf(),
            ({
                let c = old(self).config->Some_0;
                let q = quota_charged(old(self).quota_of(issuer@), now, c.tokens_per_window, c.window_ledgers);
                &&& q is Err ==> r == Err::<(), Error>(q->Err_0) && *final(self) == *old(self)
                &&& q is Ok ==> r == Ok::<(), Error>(()) && final(self).quotas@ == old(self).quotas@.insert(issuer@, q->Ok_0)
            }),
            r is Ok ==> final(self).tokens == old(self).tokens
                && final(self).token_index == old(self).token_index
                && final(self).initialized == old(self).initialized
                && final(self).admin == old(self).admin
                && final(self).config == old(self).config
                && final(self).paused == old(self).paused,
    {
        let (per_window, window) = match &self.config {
            Some(c) => (c.tokens_per_window, c.window_ledgers),
            None => (0, 0),
        };
        let mut quota = match self.quotas.get(issuer.xdr.as_slice()) {
            Some(q) => *q,
            None => IssuerQuota { window_start: now, used: 0 },
        };
        if now.saturating_sub(quota.window_start) >= window {
            quota.window_start = now;
            quota.used = 0;
        }
        if quota.used >= per_window {
            return Err(Error::QuotaExceeded);
        }
        quota.used = quota.used + 1;
        self.quotas.insert(issuer.duplicate().xdr, quota);
        Ok(())
    }

    /// How the part of a creation before the verifier call is answered.
    pub open spec fn create_check(&self, issuer: Seq<u8>, params: TokenParams, commitment: [u8; 32], now: u32) -> Result<(), Error> {
        if !self.initialized {
            Err(Error::NotInitialized)
        } else if self.paused {
            Err(Error::Paused)
        } else {
            match params_check(params) {
                Err(e) => Err(e),
                Ok(_) => if commitment_of(issuer, params) != commitment {
                    Err(Error::CommitmentMismatch)
                } else if self.tokens@.contains_key(commitment@) {
                    Err(Error::TokenAlreadyCreated)
                } else {
                    match self.config {
                        None => Err(Error::NotInitialized),
                        Some(c) => match quota_charged(self.quota_of(issuer), now, c.tokens_per_window, c.window_ledgers) {
                            Err(e) => Err(e),
                            Ok(_) => Ok(()),
                        },
                    }
                },
            }
        }
    }

    /// Everything a creation does before the verifier consumes the
    /// attestation of `commitment`: the gateway (at `gateway`) must run, the
    /// parameters must be sound and be what `commitment` commits to for
    /// `issuer`, the token must be new, and the issuer's quota is charged.
    /// Answers the consume request to hand to the verifier, on behalf of
    /// `gateway`, for `commitment` and `issuer`.
    pub fn create_token(
        &mut self,
        env: &Env,
        gateway: &Address,
        issuer: &Address,
        params: &TokenParams,
        commitment: &[u8; 32],
        now: u32,
    ) -> (r: Result<PendingCreation, Error>)
        requires
            old(self).wf(),
            params.name@.len() <= u32::MAX,
            params.symbol@.len() <= u32::MAX,
            params.metadata_uri@.len() <= u32::MAX,
        ensures
            final(self).wf(),
            r is Err ==> *final(self) == *old(self)
                && old(self).create_check(issuer@, *params, *commitment, now) is Err
                && r->Err_0 == old(self).create_check(issuer@, *params, *commitment, now)->Err_0,
            old(self).create_check(issuer@, *params, *commitment, now) is Ok ==> r is Ok,
            r is Ok ==> old(self).create_check(issuer@, *params, *commitment, now) is Ok,
            r matches Ok(p) ==> p.consumer@ == gateway@
                && p.issuer@ == issuer@
                && p.metadata_commitment == *commitment
                && p.created_at == now,
            r is Ok ==> final(self).quotas@ == old(self).quotas@.insert(
                    issuer@,
                    quota_charged(
                        old(self).quota_of(issuer@),
                        now,
                        old(self).config->Some_0.tokens_per_window,
                        old(self).config->Some_0.window_ledgers,
                    )->Ok_0,
                )
                && final(self).tokens == old(self).tokens
                && final(self).token_index == old(self).token_index
                && final(self).initialized == old(self).initialized
                && final(self).admin == old(self).admin
                && final(self).config == old(self).config
                && final(self).paused == old(self).paused,
    {
        if let Err(e) = self.require_initialized() {
            return Err(e);
        }
        if let Err(e) = self.require_not_paused() {
            return Err(e);
        }
        validate_params(params)?;
        let expected = compute_commitment(env, issuer, params);
        if !digest_eq(&expected, commitment) {
            return Err(Error::CommitmentMismatch);
        }
        if self.tokens.contains(commitment.as_slice()) {
            return Err(Error::TokenAlreadyCreated);
        }
        if self.config.is_none() {
            return Err(Error::NotInitialized);
        }
        self.charge_quota(issuer, now)?;
        Ok(PendingCreation {
            consumer: gateway.duplicate(),
            issuer: issuer.duplicate(),
            metadata_commitment: *commitment,
            created_at: now,
        })
    }

    /// Store the token of a creation the verifier let through, with `params`
    /// and the policy version and risk score of the attestation it consumed;
    /// answers the stored record.
    pub fn record_token(
        &mut self,
        pending: &PendingCreation,
        params: TokenParams,
        policy_version: u32,
        risk_score: u32,
    ) -> (r: TokenRecord)
        requires
            old(self).wf(),
            params.supply_cap >= 0,
            !old(self).tokens@.contains_key(pending.metadata_commitment@),
        ensures
            final(self).wf(),
            r.metadata_commitment == pending.metadata_commitment,
            r.issuer@ == pending.issuer@,
            r.params.same_as(params),
            r.minted == 0,
            r.created_at == pending.created_at,
            r.policy_version == policy_version,
            r.risk_score == risk_score,
            !r.frozen,
            final(self).tokens@ == old(self).tokens@.insert(pending.metadata_commitment@, final(self).tokens@[pending.metadata_commitment@]),
            final(self).tokens@[pending.metadata_commitment@].metadata_commitment == r.metadata_commitment,
            final(self).tokens@[pending.metadata_commitment@].issuer@ == r.issuer@,
            final(self).tokens@[pending.metadata_commitment@].params == params,
            final(self).tokens@[pending.metadata_commitment@].minted == 0,
            final(self).tokens@[pending.metadata_commitment@].created_at == r.created_at,
            final(self).tokens@[pending.metadata_commitment@].policy_version == policy_version,
            final(self).tokens@[pending.metadata_commitment@].risk_score == risk_score,
            !final(self).tokens@[pending.metadata_commitment@].frozen,
            final(self).token_index@ == old(self).token_index@.push(pending.metadata_commitment),
            final(self).quotas == old(self).quotas,
            final(self).initialized == old(self).initialized,
            final(self).admin == old(self).admin,
            final(self).config == old(self).config,
            final(self).paused == old(self).paused,
    {
        let copy = TokenParams {
            name: bytes_to_vec(params.name.as_slice()),
            symbol: bytes_to_vec(params.symbol.as_slice()),
            decimals: params.decimals,
            supply_cap: params.supply_cap,
            metadata_uri: bytes_to_vec(params.metadata_uri.as_slice()),
        };
        let stored = TokenRecord {
            metadata_commitment: pending.metadata_commitment,
            issuer: pending.issuer.duplicate(),
            params,
            minted: 0,
            created_at: pending.created_at,
            policy_version,
            risk_score,
            frozen: false,
        };
        self.tokens.insert(bytes_to_vec(pending.metadata_commitment.as_slice()), stored);
        self.token_index.push(pending.metadata_commitment);
        TokenRecord {
            metadata_commitment: pending.metadata_commitment,
            issuer: pending.issuer.duplicate(),
            params: copy,
            minted: 0,
            created_at: pending.created_at,
            policy_version,
            risk_score,
            frozen: false,
        }
    }

    /// How a mint is answered.
    pub open spec fn mint_check(&self, issuer: Seq<u8>, commitment: Seq<u8>, amount: i128) -> Result<i128, Error> {
        if !self.initialized {
            Err(Error::NotInitialized)
        } else if self.paused {
            Err(Error::Paused)
        } else if amount <= 0 {
            Err(Error::InvalidAmount)
        } else if !self.tokens@.contains_key(commitment) {
            Err(Error::TokenNotFound)
        } else {
            let t = self.tokens@[commitment];
            if t.issuer@ != issuer {
                Err(Error::NotTokenIssuer)
            } else if t.frozen {
                Err(Error::TokenFrozen)
            } else if t.minted + amount > i128::MAX || t.minted + amount > t.params.supply_cap {
                Err(Error::SupplyCapExceeded)
            } else {
                Ok((t.minted + amount) as i128)
            }
        }
    }

    /// The token's issuer mints `amount` more, up to the supply cap; answers
    /// the new total.
    pub fn mint(&mut self, issuer: &Address, commitment: &[u8; 32], amount: i128) -> (r: Result<i128, Error>)
        requires
            old(self).wf(),
        ensures
            final(self).wf(),
            r == old(self).mint_check(issuer@, commitment@, amount),
            r is Err ==> *final(self) == *old(self),
            r matches Ok(total) ==> final(self).tokens@ == old(self).tokens@.insert(
                    commitment@,
                    TokenRecord { minted: total, ..old(self).tokens@[commitment@] },
                )
                && final(self).token_index == old(self).token_index
                && final(self).quotas == old(self).quotas
                && final(self).initialized == old(self).initialized
                && final(self).admin == old(self).admin
                && final(self).config == old(self).config
                && final(self).paused == old(self).paused,
    {
        if let Err(e) = self.require_initialized() {
            return Err(e);
        }
        if let Err(e) = self.require_not_paused() {
            return Err(e);
        }
        if amount <= 0 {
            return Err(Error::InvalidAmount);
        }
        let total = match self.tokens.get(commitment.as_slice()) {
            None => return Err(Error::TokenNotFound),
            Some(t) => {
                if !t.issuer.same(issuer) {
                    return Err(Error::NotTokenIssuer);
                }
                if t.frozen {
                    return Err(Error::TokenFrozen);
                }
                let total = match t.minted.checked_add(amount) {
                    Some(x) => x,
                    None => return Err(Error::SupplyCapExceeded),
                };
                if total > t.params.supply_cap {
                    return Err(Error::SupplyCapExceeded);
                }
                total
            },
        };
        let mut record = self.tokens.take(commitment.as_slice()).unwrap();
        record.minted = total;
        self.tokens.insert(bytes_to_vec(commitment.as_slice()), record);
        assert(self.tokens@ =~= old(self).tokens@.insert(
            commitment@,
            TokenRecord { minted: total, ..old(self).tokens@[commitment@] },
        ));
        Ok(total)
    }

    /// The admin freezes or thaws a token.
    pub fn set_token_frozen(&mut self, caller: &Address, commitment: &[u8; 32], frozen: bool) -> (r: Result<(), Error>)
        requires
            old(self).wf(),
        ensures
            final(self).wf(),
            r == (if !old(self).initialized {
                Err(Error::NotInitialized)
            } else {
                match old(self).admin_check(caller@) {
                    Err(e) => Err(e),
                    Ok(_) => if old(self).tokens@.contains_key(commitment@) {
                        Ok(())
                    } else {
                        Err(Error::TokenNotFound)
                    },
                }
            }),
            r is Err ==> *final(self) == *old(self),
            r is Ok ==> final(self).tokens@ == old(self).tokens@.insert(
                    commitment@,
                    TokenRecord { frozen, ..old(self).tokens@[commitment@] },
                )
                && final(self).token_index == old(self).token_index
                && final(self).quotas == old(self).quotas
                && final(self).initialized == old(self).initialized
                && final(self).admin == old(self).admin
                && final(self).config == old(self).config
                && final(self).paused == old(self).paused,
    {
        if let Err(e) = self.require_initialized() {
            return Err(e);
        }
        self.require_admin(caller)?;
        let mut record = match self.tokens.take(commitment.as_slice()) {
            None => return Err(Error::TokenNotFound),
            Some(t) => t,
        };
        record.frozen = frozen;
        self.tokens.insert(bytes_to_vec(commitment.as_slice()), record);
        assert(self.tokens@ =~= old(self).tokens@.insert(
            commitment@,
            TokenRecord { frozen, ..old(self).tokens@[commitment@] },
        ));
        Ok(())
    }

    /// A created token.
    pub fn get_token(&self, commitment: &[u8; 32]) -> (r: Result<&TokenRecord, Error>)
        requires
            self.wf(),
        ensures
            !self.tokens@.contains_key(commitment@) ==> r == Err::<&TokenRecord, Error>(Error::TokenNotFound),
            self.tokens@.contains_key(commitment@) ==> (r matches Ok(t) && *t == self.tokens@[commitment@]),
    {
        match self.tokens.get(commitment.as_slice()) {
            None => Err(Error::TokenNotFound),
            Some(t) => Ok(t),
        }
    }

    /// The commitments of created tokens, in creation order.
    pub fn list_tokens(&self) -> (r: &Vec<[u8; 32]>)
        ensures
            *r == self.token_index,
    {
        &self.token_index
    }

    /// The configuration.
    pub fn get_config(&self) -> (r: Result<&GatewayConfig, Error>)
        ensures
            self.config matches Some(c) ==> (r matches Ok(x) && *x == c),
            self.config is None ==> r == Err::<&GatewayConfig, Error>(Error::NotInitialized),
    {
        match &self.config {
            Some(c) => Ok(c),
            None => Err(Error::NotInitialized),
        }
    }

    /// The admin.
    pub fn get_admin(&self) -> (r: Result<Address, Error>)
        ensures
            self.admin matches Some(a) ==> (r matches Ok(x) && x@ == a@),
            self.admin is None ==> r == Err::<Address, Error>(Error::NotInitialized),
    {
        match &self.admin {
            Some(a) => Ok(a.duplicate()),
            None => Err(Error::NotInitialized),
        }
    }

    /// Whether the gateway is paused.
    pub fn is_paused(&self) -> (r: bool)
        ensures
            r == self.paused,
    {
        self.paused
    }

    /// An issuer's quota.
    pub fn get_quota(&self, issuer: &Address) -> (r: Option<IssuerQuota>)
        requires
            self.wf(),
        ensures
            r == self.quota_of(issuer@),
    {
        match self.quotas.get(issuer.xdr.as_slice()) {
            Some(q) => Some(*q),
            None => None,
        }
    }
}

} // verus!
