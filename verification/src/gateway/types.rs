//! The gateway's records.

use vstd::prelude::*;
use crate::address::Address;

verus! {

/// What an issuer declares for a token; strings as their UTF-8 bytes.
pub struct TokenParams {
    pub name: Vec<u8>,
    pub symbol: Vec<u8>,
    pub decimals: u32,
    pub supply_cap: i128,
    pub metadata_uri: Vec<u8>,
}

impl TokenParams {
    /// The same declaration, field by field.
    pub open spec fn same_as(&self, o: TokenParams) -> bool {
        &&& self.name@ == o.name@
        &&& self.symbol@ == o.symbol@
        &&& self.decimals == o.decimals
        &&& self.supply_cap == o.supply_cap
        &&& self.metadata_uri@ == o.metadata_uri@
    }
}

/// A created token.
pub struct TokenRecord {
    pub metadata_commitment: [u8; 32],
    pub issuer: Address,
    pub params: TokenParams,
    pub minted: i128,
    pub created_at: u32,
    pub policy_version: u32,
    pub risk_score: u32,
    pub frozen: bool,
}

/// A creation that passed the gateway's own checks and now waits for the
/// verifier to consume the attestation of `metadata_commitment`, on a request
/// by `consumer` (the gateway itself) naming `issuer`.
pub struct PendingCreation {
    pub consumer: Address,
    pub issuer: Address,
    pub metadata_commitment: [u8; 32],
    pub created_at: u32,
}

/// An issuer's use of its creation quota in the current window.
#[derive(Clone, Copy, Debug, PartialEq, Eq, Structural)]
pub struct IssuerQuota {
    pub window_start: u32,
    pub used: u32,
}

/// The gateway's configuration.
pub struct GatewayConfig {
    pub verifier: Address,
    pub tokens_per_window: u32,
    pub window_ledgers: u32,
}

} // verus!
