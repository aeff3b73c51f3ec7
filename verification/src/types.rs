use vstd::prelude::*;

verus! {

/// Labels of the contract's persistent collections.
#[derive(Clone, Copy, Debug)]
pub enum StorageKey {
    ApprovedCodehashes,
    WorkerByAccountId,
    PendingProposals,
    FinalizedProposals,
}

/// A registered, attested worker account: the checksum it reported and the
/// code-identity hash its attestation resolved to.
#[derive(Clone, Debug)]
pub struct Worker {
    pub checksum: String,
    pub codehash: String,
}

/// The single current policy document: its text and the content digest that
/// binds it. Both empty means "unset" (the bootstrap state).
#[derive(Clone, Debug)]
pub struct Manifesto {
    pub manifesto_text: String,
    pub manifesto_hash: String,
}

/// A pending proposal: the opaque 32-byte continuation token recorded at
/// creation, and the submitted text.
#[derive(Debug)]
pub struct ProposalRequest {
    pub yield_id: Vec<u8>,
    pub proposal_text: String,
}

/// An archived, immutable verdict on a proposal.
#[derive(Clone, Debug)]
pub struct FinalizedProposal {
    pub proposal_text: String,
    pub proposal_result: ProposalResult,
    pub reasoning: String,
}

/// The external agent's decision on a proposal.
#[derive(Clone, Copy, Debug, PartialEq, Eq, Structural)]
pub enum ProposalResult {
    Approved,
    Rejected,
}

/// The external agent's verdict payload. Untrusted input: every field is
/// validated before use.
#[derive(Clone, Debug)]
pub struct AiResponse {
    pub proposal_id: u32,
    pub proposal_hash: String,
    pub manifesto_hash: String,
    pub vote: ProposalResult,
    pub reasoning: String,
}

/// What the original caller receives when its proposal is finalized.
#[derive(Clone, Debug)]
pub struct DaoResponse {
    pub vote: ProposalResult,
    pub reasoning: String,
}

/// One single-shot continuation: the token handed out by the execution
/// environment, the payload recorded at creation, and whether the token has
/// already been resumed.
#[derive(Debug)]
pub struct Continuation {
    pub token: Vec<u8>,
    pub proposal_id: u32,
    pub proposal_text: String,
    pub resolved: bool,
}

} // verus!
