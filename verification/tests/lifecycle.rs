use agent_dao::hash;
use agent_dao::AiResponse;
use agent_dao::Contract;
use agent_dao::DaoResponse;
use agent_dao::Error;
use agent_dao::ProposalResult;
use agent_dao::Worker;

fn token(b: u8) -> Vec<u8> {
    vec![b; 32]
}

fn measurement() -> String {
    "a".repeat(96)
}

fn api_image() -> String {
    "1".repeat(64)
}

fn app_image() -> String {
    "2".repeat(64)
}

fn manifest() -> String {
    format!("{}{}{}", measurement(), api_image(), app_image())
}

/// Registers `caller` as a worker through the verified post-attestation
/// step, with a report bound to the caller's own account name.
fn register_worker(c: &mut Contract, caller: &str) {
    let owner = "owner".to_string();
    c.approve_codehash(&owner, api_image()).unwrap();
    c.approve_codehash(&owner, app_image()).unwrap();
    let rd: Vec<u8> = caller.as_bytes().to_vec();
    let r = c.register_with_report(
        &caller.to_string(),
        "checksum-1".to_string(),
        &manifest(),
        &rd,
        &measurement(),
    );
    assert_eq!(r, Ok(true));
}

fn fresh() -> Contract {
    Contract::init("owner".to_string())
}

#[test]
fn hash_matches_known_vectors() {
    assert_eq!(
        hash("abc"),
        "ba7816bf8f01cfea414140de5dae2223b00361a396177a9cb410ff61f20015ad"
    );
    assert_eq!(
        hash(""),
        "e3b0c44298fc1c149afbf4c8996fb92427ae41e4649b934ca495991b7852b855"
    );
}

#[test]
fn hash_is_deterministic() {
    assert_eq!(hash("policy-v1"), hash("policy-v1"));
    assert_ne!(hash("policy-v1"), hash("policy-v2"));
}

#[test]
fn set_then_get_manifesto_round_trips() {
    let mut c = fresh();
    let owner = "owner".to_string();
    assert_eq!(c.set_manifesto(&owner, "policy-v1".to_string()), Ok(()));
    assert_eq!(c.get_manifesto(), "policy-v1");
    assert_eq!(c.manifesto.manifesto_hash, hash("policy-v1"));
}

#[test]
fn set_manifesto_rejects_non_owner() {
    let mut c = fresh();
    let intruder = "intruder".to_string();
    assert_eq!(
        c.set_manifesto(&intruder, "policy-v1".to_string()),
        Err(Error::Unauthorized)
    );
    assert_eq!(c.get_manifesto(), "");
}

#[test]
fn set_manifesto_rejects_oversized_text() {
    let mut c = fresh();
    let owner = "owner".to_string();
    let long = "x".repeat(10001);
    assert_eq!(c.set_manifesto(&owner, long), Err(Error::InputTooLarge));
    let edge = "x".repeat(10000);
    assert_eq!(c.set_manifesto(&owner, edge), Ok(()));
}

#[test]
fn create_proposal_before_manifesto_fails() {
    let mut c = fresh();
    assert_eq!(
        c.create_proposal("fund X".to_string(), token(1)),
        Err(Error::ManifestoUnset)
    );
    assert!(c.get_pending_proposals(&None, &None).is_empty());
}

#[test]
fn create_proposal_rejects_oversized_text() {
    let mut c = fresh();
    let owner = "owner".to_string();
    c.set_manifesto(&owner, "policy-v1".to_string()).unwrap();
    assert_eq!(
        c.create_proposal("x".repeat(10001), token(1)),
        Err(Error::InputTooLarge)
    );
}

#[test]
fn create_proposal_allocates_ascending_ids() {
    let mut c = fresh();
    let owner = "owner".to_string();
    c.set_manifesto(&owner, "policy-v1".to_string()).unwrap();
    assert_eq!(c.create_proposal("p1".to_string(), token(1)), Ok(1));
    assert_eq!(c.create_proposal("p2".to_string(), token(2)), Ok(2));
    let pending = c.get_pending_proposals(&None, &None);
    assert_eq!(pending.len(), 2);
    assert_eq!(pending[0].0, 1);
    assert_eq!(pending[0].1.proposal_text, "p1");
    assert_eq!(pending[1].0, 2);
    assert_eq!(pending[1].1.proposal_text, "p2");
}

#[test]
fn stale_manifesto_hash_is_rejected() {
    let mut c = fresh();
    let owner = "owner".to_string();
    c.set_manifesto(&owner, "policy-v1".to_string()).unwrap();
    let old_hash = hash("policy-v1");
    c.create_proposal("fund X".to_string(), token(1)).unwrap();
    register_worker(&mut c, "agent.near");
    // The manifesto changes between proposal creation and the verdict.
    c.set_manifesto(&owner, "policy-v2".to_string()).unwrap();
    let resp = AiResponse {
        proposal_id: 1,
        proposal_hash: hash("fund X"),
        manifesto_hash: old_hash,
        vote: ProposalResult::Approved,
        reasoning: "meets criteria".to_string(),
    };
    assert_eq!(
        c.agent_vote(&"agent.near".to_string(), &token(1), &resp),
        Err(Error::HashMismatch)
    );
    // The pending record is untouched.
    let pending = c.get_pending_proposals(&None, &None);
    assert_eq!(pending.len(), 1);
    assert_eq!(pending[0].0, 1);
}

#[test]
fn wrong_proposal_hash_is_rejected() {
    let mut c = fresh();
    let owner = "owner".to_string();
    c.set_manifesto(&owner, "policy-v1".to_string()).unwrap();
    c.create_proposal("fund X".to_string(), token(1)).unwrap();
    register_worker(&mut c, "agent.near");
    let resp = AiResponse {
        proposal_id: 1,
        proposal_hash: hash("fund Y"),
        manifesto_hash: hash("policy-v1"),
        vote: ProposalResult::Approved,
        reasoning: "ok".to_string(),
    };
    assert_eq!(
        c.agent_vote(&"agent.near".to_string(), &token(1), &resp),
        Err(Error::HashMismatch)
    );
}

#[test]
fn vote_for_unknown_proposal_fails() {
    let mut c = fresh();
    let owner = "owner".to_string();
    c.set_manifesto(&owner, "policy-v1".to_string()).unwrap();
    register_worker(&mut c, "agent.near");
    let resp = AiResponse {
        proposal_id: 7,
        proposal_hash: hash("anything"),
        manifesto_hash: hash("policy-v1"),
        vote: ProposalResult::Approved,
        reasoning: "ok".to_string(),
    };
    assert_eq!(
        c.agent_vote(&"agent.near".to_string(), &token(9), &resp),
        Err(Error::ProposalNotFound)
    );
}

#[test]
fn vote_from_unregistered_account_fails() {
    let mut c = fresh();
    let owner = "owner".to_string();
    c.set_manifesto(&owner, "policy-v1".to_string()).unwrap();
    c.create_proposal("fund X".to_string(), token(1)).unwrap();
    let resp = AiResponse {
        proposal_id: 1,
        proposal_hash: hash("fund X"),
        manifesto_hash: hash("policy-v1"),
        vote: ProposalResult::Approved,
        reasoning: "ok".to_string(),
    };
    assert_eq!(
        c.agent_vote(&"stranger".to_string(), &token(1), &resp),
        Err(Error::Unauthorized)
    );
}

#[test]
fn vote_with_oversized_reasoning_fails() {
    let mut c = fresh();
    let owner = "owner".to_string();
    c.set_manifesto(&owner, "policy-v1".to_string()).unwrap();
    c.create_proposal("fund X".to_string(), token(1)).unwrap();
    register_worker(&mut c, "agent.near");
    let resp = AiResponse {
        proposal_id: 1,
        proposal_hash: hash("fund X"),
        manifesto_hash: hash("policy-v1"),
        vote: ProposalResult::Approved,
        reasoning: "x".repeat(10001),
    };
    assert_eq!(
        c.agent_vote(&"agent.near".to_string(), &token(1), &resp),
        Err(Error::InputTooLarge)
    );
}

#[test]
fn accepted_vote_finalizes_the_proposal() {
    // Owner publishes "policy-v1"; a caller submits "fund X"; the registered
    // agent approves it; the bridge delivers the callback.
    let mut c = fresh();
    let owner = "owner".to_string();
    c.set_manifesto(&owner, "policy-v1".to_string()).unwrap();
    let id = c.create_proposal("fund X".to_string(), token(1)).unwrap();
    assert_eq!(id, 1);
    register_worker(&mut c, "agent.near");
    let resp = AiResponse {
        proposal_id: 1,
        proposal_hash: hash("fund X"),
        manifesto_hash: hash("policy-v1"),
        vote: ProposalResult::Approved,
        reasoning: "meets criteria".to_string(),
    };
    assert_eq!(
        c.agent_vote(&"agent.near".to_string(), &token(1), &resp),
        Ok(())
    );
    let d: DaoResponse = c
        .return_external_response(1, "fund X".to_string(), Some(resp))
        .unwrap();
    assert_eq!(d.vote, ProposalResult::Approved);
    assert_eq!(d.reasoning, "meets criteria");
    let finalized = c.get_finalized_proposals(&None, &None);
    assert_eq!(finalized.len(), 1);
    assert_eq!(finalized[0].0, 1);
    assert_eq!(finalized[0].1.proposal_text, "fund X");
    assert_eq!(finalized[0].1.proposal_result, ProposalResult::Approved);
    assert_eq!(finalized[0].1.reasoning, "meets criteria");
    assert!(c.get_pending_proposals(&None, &None).is_empty());
}

#[test]
fn second_vote_on_same_token_fails() {
    let mut c = fresh();
    let owner = "owner".to_string();
    c.set_manifesto(&owner, "policy-v1".to_string()).unwrap();
    c.create_proposal("fund X".to_string(), token(1)).unwrap();
    register_worker(&mut c, "agent.near");
    let resp = AiResponse {
        proposal_id: 1,
        proposal_hash: hash("fund X"),
        manifesto_hash: hash("policy-v1"),
        vote: ProposalResult::Approved,
        reasoning: "ok".to_string(),
    };
    assert_eq!(
        c.agent_vote(&"agent.near".to_string(), &token(1), &resp),
        Ok(())
    );
    // A racing second verdict before the callback runs: the single-shot
    // resume refuses it.
    assert_eq!(
        c.agent_vote(&"agent.near".to_string(), &token(1), &resp),
        Err(Error::AlreadyResolved)
    );
    // After the callback, the pending record is gone as well.
    c.return_external_response(1, "fund X".to_string(), Some(resp))
        .unwrap();
    let resp2 = AiResponse {
        proposal_id: 1,
        proposal_hash: hash("fund X"),
        manifesto_hash: hash("policy-v1"),
        vote: ProposalResult::Rejected,
        reasoning: "late".to_string(),
    };
    assert_eq!(
        c.agent_vote(&"agent.near".to_string(), &token(1), &resp2),
        Err(Error::ProposalNotFound)
    );
}

#[test]
fn vote_with_unknown_token_fails() {
    let mut c = fresh();
    let owner = "owner".to_string();
    c.set_manifesto(&owner, "policy-v1".to_string()).unwrap();
    c.create_proposal("fund X".to_string(), token(1)).unwrap();
    register_worker(&mut c, "agent.near");
    let resp = AiResponse {
        proposal_id: 1,
        proposal_hash: hash("fund X"),
        manifesto_hash: hash("policy-v1"),
        vote: ProposalResult::Approved,
        reasoning: "ok".to_string(),
    };
    assert_eq!(
        c.agent_vote(&"agent.near".to_string(), &token(99), &resp),
        Err(Error::AlreadyResolved)
    );
}

#[test]
fn timeout_drops_pending_without_archiving() {
    let mut c = fresh();
    let owner = "owner".to_string();
    c.set_manifesto(&owner, "policy-v1".to_string()).unwrap();
    c.create_proposal("p1".to_string(), token(1)).unwrap();
    let id2 = c.create_proposal("p2".to_string(), token(2)).unwrap();
    assert_eq!(id2, 2);
    // No verdict arrives for proposal 2; the deadline passes and the bridge
    // delivers the timeout.
    assert!(matches!(
        c.return_external_response(2, "p2".to_string(), None),
        Err(Error::TimedOut)
    ));
    let finalized = c.get_finalized_proposals(&None, &None);
    assert!(finalized.iter().all(|(id, _)| *id != 2));
    let pending = c.get_pending_proposals(&None, &None);
    assert!(pending.iter().all(|(id, _)| *id != 2));
    assert_eq!(pending.len(), 1);
}

#[test]
fn fail_on_timeout_always_fails() {
    let c = fresh();
    assert!(matches!(c.fail_on_timeout(), Err(Error::TimedOut)));
}

#[test]
fn pagination_filters_and_truncates() {
    let mut c = fresh();
    let owner = "owner".to_string();
    c.set_manifesto(&owner, "policy-v1".to_string()).unwrap();
    c.create_proposal("p1".to_string(), token(1)).unwrap();
    c.create_proposal("p2".to_string(), token(2)).unwrap();
    c.create_proposal("p3".to_string(), token(3)).unwrap();
    let from2 = c.get_pending_proposals(&Some(2), &None);
    assert_eq!(from2.iter().map(|e| e.0).collect::<Vec<_>>(), vec![2, 3]);
    let first = c.get_pending_proposals(&None, &Some(1));
    assert_eq!(first.iter().map(|e| e.0).collect::<Vec<_>>(), vec![1]);
    let mid = c.get_pending_proposals(&Some(2), &Some(1));
    assert_eq!(mid.iter().map(|e| e.0).collect::<Vec<_>>(), vec![2]);
    let none = c.get_pending_proposals(&Some(9), &None);
    assert!(none.is_empty());
}

#[test]
fn parse_vote_recognizes_the_two_values() {
    assert_eq!(
        agent_dao::dao::parse_vote(&"Approved".to_string()),
        Ok(ProposalResult::Approved)
    );
    assert_eq!(
        agent_dao::dao::parse_vote(&"Rejected".to_string()),
        Ok(ProposalResult::Rejected)
    );
    assert_eq!(
        agent_dao::dao::parse_vote(&"Maybe".to_string()),
        Err(Error::InvalidVote)
    );
}

#[test]
fn get_agent_returns_registered_worker() {
    let mut c = fresh();
    register_worker(&mut c, "agent.near");
    let w: Worker = c.get_agent(&"agent.near".to_string()).unwrap();
    assert_eq!(w.checksum, "checksum-1");
    assert_eq!(w.codehash, app_image());
    assert!(matches!(
        c.get_agent(&"other.near".to_string()),
        Err(Error::WorkerNotFound)
    ));
}
