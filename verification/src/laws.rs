//! The library's cross-cutting guarantees, stated once and proved from the
//! entry points' own contracts.

use vstd::prelude::*;
use crate::attest::lossy_of;
use crate::attest::resolve_manifest;
use crate::dao::create_outcome;
use crate::dao::finalizes;
use crate::dao::resolves;
use crate::dao::vote_outcome;
use crate::errors::Error;
use crate::hashing::digest_of;
use crate::registry::registration_outcome;
use crate::state::Contract;
use crate::state::MAX_TEXT_LEN;
use crate::types::AiResponse;

verus! {

/// In any well-formed state with a manifesto published, the stored digest is
/// exactly the digest of the stored text.
pub proof fn lemma_manifesto_bound(c: Contract)
    requires
        c.wf(),
        c.manifesto_set(),
    ensures
        c.manifesto.manifesto_hash@ == digest_of(c.manifesto.manifesto_text@),
{
}

/// Before any manifesto is published, creating a proposal fails with
/// ManifestoUnset, whatever the text.
pub proof fn lemma_create_before_manifesto(pre: Contract, text: Seq<char>)
    requires
        !pre.manifesto_set(),
    ensures
        create_outcome(pre, text) == Err::<u32, Error>(Error::ManifestoUnset),
{
}

/// A verdict from an authorized worker that names a manifesto digest other
/// than the current one — because the manifesto changed in between — is
/// refused with HashMismatch; a refused vote changes no state at all.
pub proof fn lemma_stale_manifesto_vote(
    pre: Contract,
    caller: Seq<char>,
    token: Seq<u8>,
    resp: AiResponse,
)
    requires
        pre.caller_approved(caller),
        resp.reasoning@.len() <= MAX_TEXT_LEN,
        resp.manifesto_hash@ != pre.manifesto.manifesto_hash@,
    ensures
        vote_outcome(pre, caller, token, resp) == Err::<(), Error>(Error::HashMismatch),
{
}

/// A verdict from an authorized worker within the length bound, naming the
/// current manifesto digest, a pending proposal, and that proposal's own
/// digest, on a token not yet resumed, is accepted: success is owed.
pub proof fn lemma_valid_vote_accepted(
    pre: Contract,
    caller: Seq<char>,
    token: Seq<u8>,
    resp: AiResponse,
)
    requires
        pre.caller_approved(caller),
        resp.reasoning@.len() <= MAX_TEXT_LEN,
        resp.manifesto_hash@ == pre.manifesto.manifesto_hash@,
        pre.pending_has(resp.proposal_id),
        resp.proposal_hash@ == digest_of(pre.pending_at(resp.proposal_id).proposal_text@),
        pre.token_live(token),
    ensures
        vote_outcome(pre, caller, token, resp) == Ok::<(), Error>(()),
{
}

/// In any well-formed state, no proposal id is in the pending and the
/// finalized map at the same time.
pub proof fn lemma_pending_finalized_disjoint(c: Contract, id: u32)
    requires
        c.wf(),
    ensures
        !(c.pending_has(id) && c.finalized_has(id)),
{
    if c.pending_has(id) && c.finalized_has(id) {
        let i = choose|i: int|
            0 <= i < c.pending_proposals@.len() && (#[trigger] c.pending_proposals@[i]).0 == id;
        let j = choose|j: int|
            0 <= j < c.finalized_proposals@.len() && (#[trigger] c.finalized_proposals@[j]).0
                == id;
        assert(c.pending_proposals@[i].0 != c.finalized_proposals@[j].0);
    }
}

/// A verdict accepted against the current manifesto and proposal digests,
/// once delivered by the bridge, archives exactly the submitted result and
/// reasoning under the proposal's id and clears its pending entry.
pub proof fn lemma_accepted_vote_finalizes(
    s0: Contract,
    s1: Contract,
    s2: Contract,
    caller: Seq<char>,
    token: Seq<u8>,
    resp: AiResponse,
    text: String,
)
    requires
        vote_outcome(s0, caller, token, resp) == Ok::<(), Error>(()),
        resolves(s0, s1, token),
        finalizes(s1, s2, resp.proposal_id, text, resp),
    ensures
        !s2.pending_has(resp.proposal_id),
        s2.finalized_has(resp.proposal_id),
        s2.finalized_at(resp.proposal_id).proposal_text == text,
        s2.finalized_at(resp.proposal_id).proposal_result == resp.vote,
        s2.finalized_at(resp.proposal_id).reasoning == resp.reasoning,
{
}

/// Once one verdict has resumed a continuation, no second verdict naming the
/// same token can succeed: the resume is single-shot.
pub proof fn lemma_second_vote_fails(
    s0: Contract,
    s1: Contract,
    caller1: Seq<char>,
    caller2: Seq<char>,
    token: Seq<u8>,
    resp1: AiResponse,
    resp2: AiResponse,
)
    requires
        s0.tokens_unique(),
        vote_outcome(s0, caller1, token, resp1) == Ok::<(), Error>(()),
        resolves(s0, s1, token),
    ensures
        !(vote_outcome(s1, caller2, token, resp2) is Ok),
{
    let i = s0.token_index(token);
    assert(0 <= i < s0.continuations@.len() && s0.continuations@[i].token@ == token);
    assert forall|a: int, b: int|
        0 <= a < b < s1.continuations@.len() implies (#[trigger] s1.continuations@[a]).token@ != (
    #[trigger] s1.continuations@[b]).token@ by {
        assert(s1.continuations@[a].token@ == s0.continuations@[a].token@);
        assert(s1.continuations@[b].token@ == s0.continuations@[b].token@);
    }
    s1.lemma_token_index_is(token, i);
    assert(s1.token_at(token).resolved);
}

/// A registration that is bound to its caller and resolved by the manifest,
/// but whose code identities were never approved, fails with
/// CodehashNotApproved.
pub proof fn lemma_unapproved_codehash(
    pre: Contract,
    caller: Seq<char>,
    tcb: Seq<char>,
    rd: Seq<u8>,
    mr: Seq<char>,
)
    requires
        lossy_of(rd) == caller,
        resolve_manifest(tcb, mr) matches Some(pair) && !(pre.approved_has(pair.0)
            && pre.approved_has(pair.1)),
    ensures
        registration_outcome(pre, caller, tcb, rd, mr) == Err::<bool, Error>(
            Error::CodehashNotApproved,
        ),
{
}

} // verus!

