use vstd::prelude::*;

verus! {

/// Why an entry point refused to act. Every validation failure surfaces as one
/// of these; no partial state mutation is retained when one is returned.
#[derive(Clone, Copy, Debug, PartialEq, Eq, Structural)]
pub enum Error {
    /// Wrong caller for an owner-only or registry-gated method.
    Unauthorized,
    /// A text argument exceeds 10,000 characters.
    InputTooLarge,
    /// A proposal was submitted before any manifesto was published.
    ManifestoUnset,
    /// A verdict's manifesto or proposal digest does not match the current one.
    HashMismatch,
    /// A verdict names a proposal id with no pending record.
    ProposalNotFound,
    /// The continuation token was already resumed, or never existed.
    AlreadyResolved,
    /// The attestation quote could not be verified.
    AttestationInvalid,
    /// The attested report is not bound to the calling account.
    IdentityMismatch,
    /// The code-identity manifest does not resolve the measurement.
    CodehashResolutionFailed,
    /// A resolved code identity is not on the owner's allowlist.
    CodehashNotApproved,
    /// No worker record exists for the account.
    WorkerNotFound,
    /// A verdict payload carries an unrecognized result value.
    InvalidVote,
    /// No verdict arrived before the external deadline.
    TimedOut,
}

} // verus!
