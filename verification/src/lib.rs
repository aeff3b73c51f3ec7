//! Governance core of an autonomous-agent decision contract: an owner-curated
//! manifesto bound by its content digest, a proposal lifecycle driven through
//! single-shot continuations, and an attestation-gated registry of agent
//! accounts that may submit verdicts.

pub mod attest;
pub mod dao;
pub mod errors;
pub mod hashing;
pub mod laws;
pub mod registry;
pub mod state;
pub mod types;

pub use errors::Error;
pub use hashing::hash;
pub use state::Contract;
pub use types::AiResponse;
pub use types::Continuation;
pub use types::DaoResponse;
pub use types::FinalizedProposal;
pub use types::Manifesto;
pub use types::ProposalRequest;
pub use types::ProposalResult;
pub use types::StorageKey;
pub use types::Worker;
