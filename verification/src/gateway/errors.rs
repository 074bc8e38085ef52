//! Why the mint gateway refuses a request.

use vstd::prelude::*;

verus! {

/// The gateway's refusals; its state is left as it was.
#[derive(Clone, Copy, Debug, PartialEq, Eq, Structural)]
pub enum Error {
    AlreadyInitialized,
    NotInitialized,
    Unauthorized,
    Paused,
    NotPaused,
    CommitmentMismatch,
    TokenAlreadyCreated,
    TokenNotFound,
    NotTokenIssuer,
    SupplyCapExceeded,
    QuotaExceeded,
    InvalidTokenParams,
    InvalidAmount,
    TokenFrozen,
}

} // verus!
