//! Why the metadata verifier refuses a request.

use vstd::prelude::*;

verus! {

/// The verifier's refusals. Each one is answered to the caller as a contract
/// error; the contract's state is left as it was.
#[derive(Clone, Copy, Debug, PartialEq, Eq, Structural)]
pub enum Error {
    AlreadyInitialized,
    NotInitialized,
    Unauthorized,
    Paused,
    NotPaused,
    InvalidRoleTarget,
    LastAdmin,
    NoPendingTransfer,
    CircuitNotFound,
    CircuitAlreadyExists,
    CircuitFrozen,
    CircuitDisabled,
    MalformedVerifyingKey,
    UnsupportedArity,
    VerifyingKeyUnchanged,
    RotationTimelockActive,
    NoPendingRotation,
    InvalidG1Point,
    InvalidG2Point,
    NonCanonicalScalar,
    PublicInputCountMismatch,
    ProofVerificationFailed,
    PointAtInfinity,
    PolicyNotFound,
    PolicyNotActive,
    PolicyRootMismatch,
    ModelCommitmentMismatch,
    RiskScoreTooHigh,
    VerdictRejected,
    ProofExpired,
    ExpiryTooDistant,
    IssuerBindingMismatch,
    InvalidPolicyParameters,
    PolicyVersionRegression,
    NullifierAlreadyUsed,
    AttestationNotFound,
    AttestationAlreadyConsumed,
    AttestationExpired,
    NotAuthorizedConsumer,
    ConsumerAlreadyRegistered,
    CommitmentMismatch,
    EmptyBatch,
    BatchTooLarge,
    BatchLengthMismatch,
    BatchVerificationFailed,
}

} // verus!
