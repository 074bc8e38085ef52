//! Properties of the mint gateway that hold across its operations.

use vstd::prelude::*;
use crate::gateway::errors::Error;
use crate::gateway::gateway::{commitment_of, quota_charged, ZkMintGateway};
use crate::gateway::types::{IssuerQuota, TokenParams};

verus! {

/// A granted creation leaves the issuer's window within its quota.
pub proof fn law_quota_bounded(q: Option<IssuerQuota>, now: u32, per_window: u32, window: u32)
    ensures
        quota_charged(q, now, per_window, window) matches Ok(n) ==> 1 <= n.used <= per_window,
{
}

/// A mint that goes through adds exactly the amount and stays within the
/// supply cap.
pub proof fn law_mint_within_cap(g: ZkMintGateway, issuer: Seq<u8>, commitment: Seq<u8>, amount: i128)
    requires
        g.wf(),
        g.mint_check(issuer, commitment, amount) is Ok,
    ensures
        g.mint_check(issuer, commitment, amount) matches Ok(total)
            && total == g.tokens@[commitment].minted + amount
            && total <= g.tokens@[commitment].params.supply_cap
            && g.tokens@[commitment].issuer@ == issuer,
{
}

/// A creation goes through only under the commitment the issuer and the
/// declared parameters yield, and only for a token not yet created.
pub proof fn law_creation_bound_to_commitment(
    g: ZkMintGateway,
    issuer: Seq<u8>,
    params: TokenParams,
    commitment: [u8; 32],
    now: u32,
)
    requires
        g.create_check(issuer, params, commitment, now) is Ok,
    ensures
        commitment == commitment_of(issuer, params),
        !g.tokens@.contains_key(commitment@),
        params.supply_cap > 0,
{
}

/// While paused, an initialized gateway neither creates nor mints.
pub proof fn law_pause_blocks_minting(
    g: ZkMintGateway,
    issuer: Seq<u8>,
    params: TokenParams,
    commitment: [u8; 32],
    amount: i128,
    now: u32,
)
    requires
        g.initialized,
        g.paused,
    ensures
        g.create_check(issuer, params, commitment, now) == Err::<(), Error>(Error::Paused),
        g.mint_check(issuer, commitment@, amount) == Err::<i128, Error>(Error::Paused),
{
}

/// The window a granted creation is counted in is current: it began at or
/// before `now` and less than `window` ledgers ago, so no more than
/// `per_window` creations are granted within any `window` ledgers.
pub proof fn law_quota_window_is_current(q: Option<IssuerQuota>, now: u32, per_window: u32, window: u32)
    requires
        window > 0,
        q matches Some(x) ==> x.window_start <= now,
    ensures
        quota_charged(q, now, per_window, window) matches Ok(n) ==> n.window_start <= now
            && now - n.window_start < window
            && 1 <= n.used <= per_window,
{
}

/// Within a current window an issuer under its quota is granted one more
/// creation, counted in the same window; once the window has run out the
/// count starts again at one, from `now`.
pub proof fn law_quota_counts_within_window(q: IssuerQuota, now: u32, per_window: u32, window: u32)
    requires
        q.window_start <= now,
    ensures
        now - q.window_start < window && q.used < per_window ==> quota_charged(Some(q), now, per_window, window)
            == Ok::<IssuerQuota, Error>(IssuerQuota { window_start: q.window_start, used: (q.used + 1) as u32 }),
        now - q.window_start < window && q.used >= per_window ==> quota_charged(Some(q), now, per_window, window)
            == Err::<IssuerQuota, Error>(Error::QuotaExceeded),
        now - q.window_start >= window && per_window > 0 ==> quota_charged(Some(q), now, per_window, window)
            == Ok::<IssuerQuota, Error>(IssuerQuota { window_start: now, used: 1 }),
{
}

} // verus!
