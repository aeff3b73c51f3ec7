//! The proposal lifecycle: manifesto publication, proposal creation through
//! single-shot continuations, verdict submission, and finalization.

use vstd::prelude::*;
use vstd::string::StrSliceExecFns;
use crate::errors::Error;
use crate::hashing::digest_of;
use crate::hashing::hash;
use crate::state::bytes_clone;
use crate::state::Contract;
use crate::state::MAX_TEXT_LEN;
use crate::types::AiResponse;
use crate::types::Continuation;
use crate::types::DaoResponse;
use crate::types::FinalizedProposal;
use crate::types::Manifesto;
use crate::types::ProposalRequest;
use crate::types::ProposalResult;

verus! {

/// What `create_proposal` decides, as a function of the prior state and the
/// submitted text.
pub open spec fn create_outcome(pre: Contract, text: Seq<char>) -> Result<u32, Error> {
    if !pre.manifesto_set() {
        Err(Error::ManifestoUnset)
    } else if text.len() > MAX_TEXT_LEN {
        Err(Error::InputTooLarge)
    } else {
        Ok(((pre.current_proposal_id + 1) as u32))
    }
}

/// What `agent_vote` decides, as a function of the prior state, the calling
/// account, the token to resume, and the verdict payload. Checks run in this
/// order; the first to fail names the error.
pub open spec fn vote_outcome(
    pre: Contract,
    caller: Seq<char>,
    token: Seq<u8>,
    resp: AiResponse,
) -> Result<(), Error> {
    if !pre.caller_approved(caller) {
        Err(Error::Unauthorized)
    } else if resp.reasoning@.len() > MAX_TEXT_LEN {
        Err(Error::InputTooLarge)
    } else if resp.manifesto_hash@ != pre.manifesto.manifesto_hash@ {
        Err(Error::HashMismatch)
    } else if !pre.pending_has(resp.proposal_id) {
        Err(Error::ProposalNotFound)
    } else if resp.proposal_hash@ != digest_of(pre.pending_at(resp.proposal_id).proposal_text@) {
        Err(Error::HashMismatch)
    } else if !pre.token_live(token) {
        Err(Error::AlreadyResolved)
    } else {
        Ok(())
    }
}

/// The state change of a successful `agent_vote`: the continuation carrying
/// `token` is marked resumed; everything else, the pending map included, is
/// untouched.
pub open spec fn resolves(pre: Contract, post: Contract, token: Seq<u8>) -> bool {
    let i = pre.token_index(token);
    &&& pre.token_has(token)
    &&& post.continuations@.len() == pre.continuations@.len()
    &&& post.continuations@[i].token@ == token
    &&& post.continuations@[i].resolved
    &&& post.continuations@[i].proposal_id == pre.token_at(token).proposal_id
    &&& post.continuations@[i].proposal_text == pre.token_at(token).proposal_text
    &&& forall|k: int|
        0 <= k < pre.continuations@.len() && k != i ==> post.continuations@[k]
            == pre.continuations@[k]
    &&& post.owner_id == pre.owner_id
    &&& post.approved_codehashes == pre.approved_codehashes
    &&& post.worker_by_account_id == pre.worker_by_account_id
    &&& post.manifesto == pre.manifesto
    &&& post.pending_proposals == pre.pending_proposals
    &&& post.finalized_proposals == pre.finalized_proposals
    &&& post.current_proposal_id == pre.current_proposal_id
}

/// The state change of a successful finalization: the pending entry for `id`
/// is gone, the archive holds exactly the submitted verdict under `id`, and
/// nothing else moved.
pub open spec fn finalizes(
    pre: Contract,
    post: Contract,
    id: u32,
    text: String,
    resp: AiResponse,
) -> bool {
    &&& !post.pending_has(id)
    &&& forall|j: u32| j != id ==> (post.pending_has(j) <==> pre.pending_has(j))
    &&& forall|j: u32|
        j != id && pre.pending_has(j) ==> post.pending_at(j) == pre.pending_at(j)
    &&& post.finalized_has(id)
    &&& post.finalized_at(id) == (FinalizedProposal {
        proposal_text: text,
        proposal_result: resp.vote,
        reasoning: resp.reasoning,
    })
    &&& forall|j: u32| j != id ==> (post.finalized_has(j) <==> pre.finalized_has(j))
    &&& forall|j: u32|
        j != id && pre.finalized_has(j) ==> post.finalized_at(j) == pre.finalized_at(j)
    &&& post.owner_id == pre.owner_id
    &&& post.approved_codehashes == pre.approved_codehashes
    &&& post.worker_by_account_id == pre.worker_by_account_id
    &&& post.manifesto == pre.manifesto
    &&& post.current_proposal_id == pre.current_proposal_id
    &&& post.continuations == pre.continuations
}

/// The state change of a timed-out finalization: the pending entry for `id`
/// is gone and nothing else moved — in particular, nothing is archived.
pub open spec fn drops_pending(pre: Contract, post: Contract, id: u32) -> bool {
    &&& !post.pending_has(id)
    &&& forall|j: u32| j != id ==> (post.pending_has(j) <==> pre.pending_has(j))
    &&& forall|j: u32|
        j != id && pre.pending_has(j) ==> post.pending_at(j) == pre.pending_at(j)
    &&& post.owner_id == pre.owner_id
    &&& post.approved_codehashes == pre.approved_codehashes
    &&& post.worker_by_account_id == pre.worker_by_account_id
    &&& post.manifesto == pre.manifesto
    &&& post.finalized_proposals == pre.finalized_proposals
    &&& post.current_proposal_id == pre.current_proposal_id
    &&& post.continuations == pre.continuations
}

/// One page of an id-keyed listing: the entries whose id is at least `from`,
/// in order, truncated to `limit` of them.
pub open spec fn page<T>(s: Seq<(u32, T)>, from: u32, limit: nat) -> Seq<(u32, T)>
    decreases s.len(),
{
    if s.len() == 0 || limit == 0 {
        Seq::empty()
    } else if s[0].0 >= from {
        seq![s[0]] + page(s.drop_first(), from, (limit - 1) as nat)
    } else {
        page(s.drop_first(), from, limit)
    }
}

/// The start index a listing call asked for; zero when left out.
pub open spec fn from_eff(from_index: Option<u32>) -> u32 {
    match from_index {
        Some(f) => f,
        None => 0,
    }
}

/// The page size a listing call asked for; the whole count when left out.
pub open spec fn limit_eff(limit: Option<u32>, n: nat) -> nat {
    match limit {
        Some(l) => l as nat,
        None => n,
    }
}

/// A pending entry reduced to plain values: id, token bytes, text.
pub open spec fn req_model(e: (u32, ProposalRequest)) -> (u32, (Seq<u8>, Seq<char>)) {
    (e.0, (e.1.yield_id@, e.1.proposal_text@))
}

/// A pending listing reduced to plain values, entry by entry.
pub open spec fn pending_model(s: Seq<(u32, ProposalRequest)>) -> Seq<(u32, (Seq<u8>, Seq<char>))> {
    s.map_values(|e: (u32, ProposalRequest)| req_model(e))
}

/// The tagged result value a verdict payload may carry.
pub open spec fn vote_of(s: Seq<char>) -> Result<ProposalResult, Error> {
    if s == "Approved"@ {
        Ok(ProposalResult::Approved)
    } else if s == "Rejected"@ {
        Ok(ProposalResult::Rejected)
    } else {
        Err(Error::InvalidVote)
    }
}

/// Decode a verdict's result tag; anything but the two known values is
/// rejected before use.
pub fn parse_vote(value: &String) -> (r: Result<ProposalResult, Error>)
    ensures
        r == vote_of(value@),
{
    let approved: String = "Approved".to_owned();
    let rejected: String = "Rejected".to_owned();
    if *value == approved {
        Ok(ProposalResult::Approved)
    } else if *value == rejected {
        Ok(ProposalResult::Rejected)
    } else {
        Err(Error::InvalidVote)
    }
}

impl Contract {
    /// Whether the calling account is the contract owner.
    pub(crate) fn require_owner(&self, caller: &String) -> (r: bool)
        ensures
            r == (caller@ == self.owner_id@),
    {
        *caller == self.owner_id
    }

    /// Whether the calling account holds a worker record whose code identity
    /// is still on the allowlist.
    pub(crate) fn require_approved_codehash(&self, caller: &String) -> (r: bool)
        requires
            self.workers_unique(),
        ensures
            r == self.caller_approved(caller@),
    {
        match self.find_worker(caller) {
            None => false,
            Some(i) => self.contains_codehash(&self.worker_by_account_id[i].1.codehash),
        }
    }

    /// Replace the manifesto with a new text and its digest. Owner only;
    /// texts over the length bound are rejected.
    pub fn set_manifesto(&mut self, caller: &String, manifesto_text: String) -> (r: Result<
        (),
        Error,
    >)
        requires
            old(self).wf(),
        ensures
            final(self).wf(),
            caller@ != old(self).owner_id@ ==> r == Err::<(), Error>(Error::Unauthorized)
                && *final(self) == *old(self),
            caller@ == old(self).owner_id@ && manifesto_text@.len() > MAX_TEXT_LEN ==> r
                == Err::<(), Error>(Error::InputTooLarge) && *final(self) == *old(self),
            caller@ == old(self).owner_id@ && manifesto_text@.len() <= MAX_TEXT_LEN ==> {
                &&& r == Ok::<(), Error>(())
                &&& final(self).manifesto.manifesto_text == manifesto_text
                &&& final(self).manifesto.manifesto_hash@ == digest_of(manifesto_text@)
                &&& final(self).manifesto_set()
                &&& final(self).owner_id == old(self).owner_id
                &&& final(self).approved_codehashes == old(self).approved_codehashes
                &&& final(self).worker_by_account_id == old(self).worker_by_account_id
                &&& final(self).pending_proposals == old(self).pending_proposals
                &&& final(self).finalized_proposals == old(self).finalized_proposals
                &&& final(self).current_proposal_id == old(self).current_proposal_id
                &&& final(self).continuations == old(self).continuations
            },
    {
        if !self.require_owner(caller) {
            return Err(Error::Unauthorized);
        }
        if manifesto_text.as_str().unicode_len() > MAX_TEXT_LEN {
            return Err(Error::InputTooLarge);
        }
        let manifesto_hash = hash(manifesto_text.as_str());
        self.manifesto = Manifesto { manifesto_text, manifesto_hash };
        Ok(())
    }

    /// The current manifesto text; empty until one is published.
    pub fn get_manifesto(&self) -> (r: String)
        ensures
            r@ == self.manifesto.manifesto_text@,
    {
        self.manifesto.manifesto_text.clone()
    }

    /// Create a proposal: allocate the next id, record the continuation the
    /// environment handed out for it, and file the pending request. The token
    /// is fresh by the environment's own guarantee.
    pub fn create_proposal(&mut self, proposal_text: String, yield_id: Vec<u8>) -> (r: Result<
        u32,
        Error,
    >)
        requires
            old(self).wf(),
            yield_id@.len() == 32,
            !old(self).token_has(yield_id@),
            old(self).current_proposal_id < u32::MAX,
        ensures
            final(self).wf(),
            r == create_outcome(*old(self), proposal_text@),
            r is Err ==> *final(self) == *old(self),
            r matches Ok(id) ==> {
                &&& id == old(self).current_proposal_id + 1
                &&& final(self).current_proposal_id == id
                &&& final(self).pending_proposals@.len() == old(self).pending_proposals@.len() + 1
                &&& final(self).pending_proposals@.drop_last() == old(self).pending_proposals@
                &&& final(self).pending_proposals@.last().0 == id
                &&& final(self).pending_proposals@.last().1.proposal_text == proposal_text
                &&& final(self).pending_proposals@.last().1.yield_id@ == yield_id@
                &&& final(self).pending_has(id)
                &&& final(self).pending_at(id).proposal_text == proposal_text
                &&& final(self).continuations@.len() == old(self).continuations@.len() + 1
                &&& final(self).continuations@.drop_last() == old(self).continuations@
                &&& final(self).continuations@.last().token@ == yield_id@
                &&& final(self).continuations@.last().proposal_id == id
                &&& final(self).continuations@.last().proposal_text@ == proposal_text@
                &&& !final(self).continuations@.last().resolved
                &&& final(self).token_live(yield_id@)
                &&& final(self).owner_id == old(self).owner_id
                &&& final(self).manifesto == old(self).manifesto
                &&& final(self).approved_codehashes == old(self).approved_codehashes
                &&& final(self).worker_by_account_id == old(self).worker_by_account_id
                &&& final(self).finalized_proposals == old(self).finalized_proposals
            },
    {
        if self.manifesto.manifesto_hash.as_str().is_empty() {
            return Err(Error::ManifestoUnset);
        }
        if proposal_text.as_str().unicode_len() > MAX_TEXT_LEN {
            return Err(Error::InputTooLarge);
        }
        let id = self.current_proposal_id + 1;
        self.current_proposal_id = id;
        let token_copy = bytes_clone(&yield_id);
        let text_copy = proposal_text.clone();
        self.continuations.push(
            Continuation {
                token: yield_id,
                proposal_id: id,
                proposal_text: text_copy,
                resolved: false,
            },
        );
        self.pending_proposals.push((id, ProposalRequest { yield_id: token_copy, proposal_text }));
        proof {
            assert(self.pending_proposals@.drop_last() =~= old(self).pending_proposals@);
            assert(self.continuations@.drop_last() =~= old(self).continuations@);
            self.lemma_pending_index_is(id, self.pending_proposals@.len() - 1);
            self.lemma_token_index_is(yield_id@, self.continuations@.len() - 1);
            assert forall|k: int| 0 <= k < self.continuations@.len() implies (
            #[trigger] self.continuations@[k]).proposal_id <= self.current_proposal_id by {
                if k < self.continuations@.len() - 1 {
                    assert(self.continuations@[k] == old(self).continuations@[k]);
                }
            }
            assert forall|a: int, b: int|
                0 <= a < self.pending_proposals@.len() && 0 <= b
                    < self.finalized_proposals@.len() implies (
            #[trigger] self.pending_proposals@[a]).0 != (
            #[trigger] self.finalized_proposals@[b]).0 by {
                if a == self.pending_proposals@.len() - 1 {
                    assert(old(self).finalized_proposals@[b].0 <= old(self).current_proposal_id);
                } else {
                    assert(self.pending_proposals@[a] == old(self).pending_proposals@[a]);
                }
            }
        }
        Ok(id)
    }

    /// Accept a verdict from a registered worker account holding an
    /// approved code identity. The verdict must name the current manifesto
    /// digest and the pending proposal's own digest; the continuation is then
    /// resumed, once — the pending record itself is untouched until the
    /// bridge delivers the callback.
    pub fn agent_vote(&mut self, caller: &String, yield_id: &Vec<u8>, response: &AiResponse) -> (r:
        Result<(), Error>)
        requires
            old(self).wf(),
        ensures
            final(self).wf(),
            r == vote_outcome(*old(self), caller@, yield_id@, *response),
            r is Err ==> *final(self) == *old(self),
            r is Ok ==> resolves(*old(self), *final(self), yield_id@),
    {
        if !self.require_approved_codehash(caller) {
            return Err(Error::Unauthorized);
        }
        if response.reasoning.as_str().unicode_len() > MAX_TEXT_LEN {
            return Err(Error::InputTooLarge);
        }
        if response.manifesto_hash != self.manifesto.manifesto_hash {
            return Err(Error::HashMismatch);
        }
        let pi = match self.find_pending(response.proposal_id) {
            None => {
                return Err(Error::ProposalNotFound);
            },
            Some(pi) => pi,
        };
        let expected = hash(self.pending_proposals[pi].1.proposal_text.as_str());
        if response.proposal_hash != expected {
            return Err(Error::HashMismatch);
        }
        let ti = match self.find_token(yield_id) {
            None => {
                return Err(Error::AlreadyResolved);
            },
            Some(ti) => ti,
        };
        if self.continuations[ti].resolved {
            return Err(Error::AlreadyResolved);
        }
        let resumed = Continuation {
            token: bytes_clone(&self.continuations[ti].token),
            proposal_id: self.continuations[ti].proposal_id,
            proposal_text: self.continuations[ti].proposal_text.clone(),
            resolved: true,
        };
        self.continuations[ti] = resumed;
        proof {
            assert forall|k: int| 0 <= k < self.continuations@.len() implies (
            #[trigger] self.continuations@[k]).proposal_id <= self.current_proposal_id by {
                if k != ti {
                    assert(self.continuations@[k] == old(self).continuations@[k]);
                }
            }
        }
        Ok(())
    }

    /// The terminal step of a timed-out proposal: a guaranteed failure, so
    /// the original suspended caller observes a hard error rather than an
    /// ambiguous empty success.
    pub fn fail_on_timeout(&self) -> (r: Result<DaoResponse, Error>)
        ensures
            r == Err::<DaoResponse, Error>(Error::TimedOut),
    {
        Err(Error::TimedOut)
    }

    /// Archive a verdict under `id`, keeping the archive sorted by id.
    fn insert_finalized(&mut self, id: u32, fp: FinalizedProposal)
        requires
            old(self).finalized_ids_ascending(),
        ensures
            final(self).finalized_ids_ascending(),
            final(self).finalized_has(id),
            final(self).finalized_at(id) == fp,
            forall|j: u32|
                j != id ==> (final(self).finalized_has(j) <==> old(self).finalized_has(j)),
            forall|j: u32|
                j != id && old(self).finalized_has(j) ==> final(self).finalized_at(j) == old(
                    self,
                ).finalized_at(j),
            final(self).owner_id == old(self).owner_id,
            final(self).approved_codehashes == old(self).approved_codehashes,
            final(self).worker_by_account_id == old(self).worker_by_account_id,
            final(self).manifesto == old(self).manifesto,
            final(self).pending_proposals == old(self).pending_proposals,
            final(self).current_proposal_id == old(self).current_proposal_id,
            final(self).continuations == old(self).continuations,
    {
        let ghost pre = *self;
        let n = self.finalized_proposals.len();
        let mut p: usize = 0;
        while p < n && self.finalized_proposals[p].0 < id
            invariant
                n == self.finalized_proposals@.len(),
                p <= n,
                *self == pre,
                forall|k: int| 0 <= k < p ==> (#[trigger] self.finalized_proposals@[k]).0 < id,
            decreases n - p,
        {
            p += 1;
        }
        if p < n && self.finalized_proposals[p].0 == id {
            self.finalized_proposals[p] = (id, fp);
            proof {
                assert forall|j: u32| j != id implies (self.finalized_has(j) <==> pre.finalized_has(
                    j,
                )) by {
                    assert forall|k: int|
                        0 <= k < self.finalized_proposals@.len() && k != p ==> (
                        self.finalized_proposals@[k]) == pre.finalized_proposals@[k] by {};
                    if pre.finalized_has(j) {
                        let k = pre.finalized_index(j);
                        assert(self.finalized_proposals@[k].0 == j);
                    }
                    if self.finalized_has(j) {
                        let k = self.finalized_index(j);
                        assert(pre.finalized_proposals@[k].0 == j);
                    }
                }
                assert forall|j: u32| j != id && pre.finalized_has(j) implies self.finalized_at(j)
                    == pre.finalized_at(j) by {
                    let k = pre.finalized_index(j);
                    pre.lemma_finalized_index_is(j, k);
                    self.lemma_finalized_index_is(j, k);
                }
                self.lemma_finalized_index_is(id, p as int);
            }
        } else {
            self.finalized_proposals.insert(p, (id, fp));
            proof {
                let post = self.finalized_proposals@;
                let prev = pre.finalized_proposals@;
                assert(post == prev.insert(p as int, (id, fp)));
                assert forall|k: int| 0 <= k < p implies post[k] == prev[k] by {}
                assert(post[p as int] == (id, fp));
                assert forall|k: int| p < k < post.len() implies post[k] == prev[k - 1] by {}
                assert forall|k: int| p <= k < prev.len() implies (#[trigger] prev[k]).0 > id by {
                    if prev[k].0 < id {
                        assert(pre.finalized_ids_ascending());
                        assert(k > p);
                        assert(prev[p as int].0 < prev[k].0);
                    }
                }
                assert forall|i: int, j: int| 0 <= i < j < post.len() implies post[i].0 < post[j].0
                    by {
                    if i < p && j == p {
                    } else if i == p && j > p {
                    } else if i < p && j > p {
                        assert(prev[i].0 < id);
                        assert(prev[j - 1].0 > id);
                    }
                }
                self.lemma_finalized_index_is(id, p as int);
                assert forall|j: u32| j != id implies (self.finalized_has(j) <==> pre.finalized_has(
                    j,
                )) by {
                    if pre.finalized_has(j) {
                        let k = pre.finalized_index(j);
                        if k < p {
                            assert(post[k].0 == j);
                        } else {
                            assert(post[k + 1].0 == j);
                        }
                    }
                    if self.finalized_has(j) {
                        let k = self.finalized_index(j);
                        assert(post[k].0 == j);
                        if k < p {
                            assert(prev[k].0 == j);
                        } else {
                            assert(k != p);
                            assert(prev[k - 1].0 == j);
                        }
                    }
                }
                assert forall|j: u32| j != id && pre.finalized_has(j) implies self.finalized_at(j)
                    == pre.finalized_at(j) by {
                    let k = pre.finalized_index(j);
                    pre.lemma_finalized_index_is(j, k);
                    if k < p {
                        self.lemma_finalized_index_is(j, k);
                    } else {
                        self.lemma_finalized_index_is(j, k + 1);
                    }
                }
            }
        }
    }

    /// Deliver the bridge's callback for a proposal: the pending entry is
    /// removed unconditionally first; a verdict is archived and returned to
    /// the original caller, a timeout routes to the guaranteed-fail step.
    /// The bridge fires this exactly once per proposal, so the id names a
    /// recorded continuation and was never archived before.
    pub fn return_external_response(
        &mut self,
        proposal_id: u32,
        proposal_text: String,
        response: Option<AiResponse>,
    ) -> (r: Result<DaoResponse, Error>)
        requires
            old(self).wf(),
            old(self).cont_for_id(proposal_id),
            !old(self).finalized_has(proposal_id),
        ensures
            final(self).wf(),
            response matches Some(ai) ==> {
                &&& finalizes(*old(self), *final(self), proposal_id, proposal_text, ai)
                &&& r matches Ok(d) && d.vote == ai.vote && d.reasoning == ai.reasoning
            },
            response is None ==> drops_pending(*old(self), *final(self), proposal_id)
                && r == Err::<DaoResponse, Error>(Error::TimedOut),
    {
        let ghost pre = *self;
        match self.find_pending(proposal_id) {
            Some(i) => {
                self.pending_proposals.remove(i);
                proof {
                    let post = self.pending_proposals@;
                    let prev = pre.pending_proposals@;
                    assert forall|a: int, b: int| 0 <= a < b < post.len() implies post[a].0
                        < post[b].0 by {
                        if b < i {
                        } else if a < i {
                            assert(post[b] == prev[b + 1]);
                        } else {
                            assert(post[a] == prev[a + 1]);
                            assert(post[b] == prev[b + 1]);
                        }
                    }
                    assert forall|j: u32| j != proposal_id implies (self.pending_has(j)
                        <==> pre.pending_has(j)) by {
                        if pre.pending_has(j) {
                            let k = pre.pending_index(j);
                            pre.lemma_pending_index_is(j, k);
                            assert(k != i);
                            if k < i {
                                assert(post[k].0 == j);
                            } else {
                                assert(post[k - 1].0 == j);
                            }
                        }
                        if self.pending_has(j) {
                            let k = self.pending_index(j);
                            if k < i {
                                assert(prev[k].0 == j);
                            } else {
                                assert(prev[k + 1].0 == j);
                            }
                        }
                    }
                    assert forall|j: u32| j != proposal_id && pre.pending_has(j) implies
                        self.pending_at(j) == pre.pending_at(j) by {
                        let k = pre.pending_index(j);
                        pre.lemma_pending_index_is(j, k);
                        if k < i {
                            self.lemma_pending_index_is(j, k);
                        } else {
                            self.lemma_pending_index_is(j, k - 1);
                        }
                    }
                    if self.pending_has(proposal_id) {
                        let k = self.pending_index(proposal_id);
                        if k < i {
                            assert(prev[k].0 == proposal_id);
                            pre.lemma_pending_index_is(proposal_id, k);
                        } else {
                            assert(prev[k + 1].0 == proposal_id);
                            pre.lemma_pending_index_is(proposal_id, k + 1);
                        }
                    }
                    assert forall|k: int| 0 <= k < post.len() implies (#[trigger] post[k]).0
                        <= pre.current_proposal_id by {
                        if k < i {
                            assert(post[k] == prev[k]);
                        } else {
                            assert(post[k] == prev[k + 1]);
                        }
                    }
                }
            },
            None => {},
        }
        match response {
            Some(ai) => {
                let fp = FinalizedProposal {
                    proposal_text,
                    proposal_result: ai.vote,
                    reasoning: ai.reasoning.clone(),
                };
                self.insert_finalized(proposal_id, fp);
                proof {
                    let ci = choose|ci: int|
                        0 <= ci < pre.continuations@.len() && (
                        #[trigger] pre.continuations@[ci]).proposal_id == proposal_id;
                    assert(proposal_id <= pre.current_proposal_id);
                    assert forall|k: int|
                        0 <= k < self.finalized_proposals@.len() implies (
                    #[trigger] self.finalized_proposals@[k]).0 <= self.current_proposal_id by {
                        let j = self.finalized_proposals@[k].0;
                        assert(self.finalized_has(j));
                        if j != proposal_id {
                            assert(pre.finalized_has(j));
                            let m = choose|m: int|
                                0 <= m < pre.finalized_proposals@.len() && (
                                #[trigger] pre.finalized_proposals@[m]).0 == j;
                            assert(pre.finalized_proposals@[m].0 <= pre.current_proposal_id);
                        }
                    }
                    assert forall|a: int, b: int|
                        0 <= a < self.pending_proposals@.len() && 0 <= b
                            < self.finalized_proposals@.len() implies (
                    #[trigger] self.pending_proposals@[a]).0 != (
                    #[trigger] self.finalized_proposals@[b]).0 by {
                        let pid = self.pending_proposals@[a].0;
                        let fid = self.finalized_proposals@[b].0;
                        assert(self.pending_has(pid));
                        assert(self.finalized_has(fid));
                        if pid == fid {
                            assert(pid != proposal_id);
                            assert(pre.pending_has(pid));
                            assert(pre.finalized_has(pid));
                            let ia = choose|ia: int|
                                0 <= ia < pre.pending_proposals@.len() && (
                                #[trigger] pre.pending_proposals@[ia]).0 == pid;
                            let ib = choose|ib: int|
                                0 <= ib < pre.finalized_proposals@.len() && (
                                #[trigger] pre.finalized_proposals@[ib]).0 == pid;
                            assert(pre.pending_proposals@[ia].0
                                != pre.finalized_proposals@[ib].0);
                        }
                    }
                }
                Ok(DaoResponse { vote: ai.vote, reasoning: ai.reasoning })
            },
            None => {
                proof {
                    assert forall|a: int, b: int|
                        0 <= a < self.pending_proposals@.len() && 0 <= b
                            < self.finalized_proposals@.len() implies (
                    #[trigger] self.pending_proposals@[a]).0 != (
                    #[trigger] self.finalized_proposals@[b]).0 by {
                        let pid = self.pending_proposals@[a].0;
                        assert(self.pending_has(pid));
                        if pid == self.finalized_proposals@[b].0 {
                            assert(pid != proposal_id);
                            assert(pre.pending_has(pid));
                            let ia = choose|ia: int|
                                0 <= ia < pre.pending_proposals@.len() && (
                                #[trigger] pre.pending_proposals@[ia]).0 == pid;
                            assert(pre.pending_proposals@[ia].0
                                != pre.finalized_proposals@[b].0);
                        }
                    }
                }
                self.fail_on_timeout()
            },
        }
    }

    /// List pending proposals by ascending id, starting at `from_index`
    /// (default 0), at most `limit` entries (default all).
    pub fn get_pending_proposals(&self, from_index: &Option<u32>, limit: &Option<u32>) -> (r: Vec<
        (u32, ProposalRequest),
    >)
        ensures
            pending_model(r@) == page(
                pending_model(self.pending_proposals@),
                from_eff(*from_index),
                limit_eff(*limit, self.pending_proposals@.len()),
            ),
    {
        let from: u32 = match from_index {
            Some(f) => *f,
            None => 0,
        };
        let n = self.pending_proposals.len();
        let max: usize = match limit {
            Some(l) => *l as usize,
            None => n,
        };
        let ghost s = pending_model(self.pending_proposals@);
        let ghost lim = limit_eff(*limit, n as nat);
        let mut r: Vec<(u32, ProposalRequest)> = Vec::new();
        let mut i: usize = 0;
        proof {
            assert(s.subrange(0, n as int) =~= s);
            assert(pending_model(r@) =~= Seq::empty());
        }
        while i < n && r.len() < max
            invariant
                n == s.len(),
                n == self.pending_proposals@.len(),
                i <= n,
                r@.len() <= lim,
                max as nat == lim,
                s == pending_model(self.pending_proposals@),
                page(s, from, lim) == pending_model(r@) + page(
                    s.subrange(i as int, n as int),
                    from,
                    (lim - r@.len()) as nat,
                ),
                r@.len() == pending_model(r@).len(),
            decreases n - i,
        {
            let ghost sub = s.subrange(i as int, n as int);
            proof {
                assert(sub.drop_first() =~= s.subrange(i + 1, n as int));
                assert(sub[0] == s[i as int]);
            }
            let e = &self.pending_proposals[i];
            if e.0 >= from {
                let ghost before = r@;
                r.push(
                    (
                        e.0,
                        ProposalRequest {
                            yield_id: bytes_clone(&e.1.yield_id),
                            proposal_text: e.1.proposal_text.clone(),
                        },
                    ),
                );
                proof {
                    assert(req_model(r@.last()) == s[i as int]);
                    assert(pending_model(r@) =~= pending_model(before).push(s[i as int]));
                    assert(pending_model(before) + (seq![sub[0]] + page(
                        sub.drop_first(),
                        from,
                        (lim - before.len() - 1) as nat,
                    )) =~= pending_model(r@) + page(
                        s.subrange(i + 1, n as int),
                        from,
                        (lim - r@.len()) as nat,
                    ));
                }
            }
            i += 1;
        }
        proof {
            if i == n {
                assert(s.subrange(n as int, n as int) =~= Seq::<
                    (u32, (Seq<u8>, Seq<char>)),
                >::empty());
            }
            assert(pending_model(r@) + Seq::<(u32, (Seq<u8>, Seq<char>))>::empty() =~= pending_model(
                r@,
            ));
        }
        r
    }

    /// List finalized proposals by ascending id, starting at `from_index`
    /// (default 0), at most `limit` entries (default all).
    pub fn get_finalized_proposals(&self, from_index: &Option<u32>, limit: &Option<u32>) -> (r: Vec<
        (u32, FinalizedProposal),
    >)
        ensures
            r@ == page(
                self.finalized_proposals@,
                from_eff(*from_index),
                limit_eff(*limit, self.finalized_proposals@.len()),
            ),
    {
        let from: u32 = match from_index {
            Some(f) => *f,
            None => 0,
        };
        let n = self.finalized_proposals.len();
        let max: usize = match limit {
            Some(l) => *l as usize,
            None => n,
        };
        let ghost s = self.finalized_proposals@;
        let ghost lim = limit_eff(*limit, n as nat);
        let mut r: Vec<(u32, FinalizedProposal)> = Vec::new();
        let mut i: usize = 0;
        proof {
            assert(s.subrange(0, n as int) =~= s);
        }
        while i < n && r.len() < max
            invariant
                n == s.len(),
                n == self.finalized_proposals@.len(),
                i <= n,
                r@.len() <= lim,
                max as nat == lim,
                s == self.finalized_proposals@,
                page(s, from, lim) == r@ + page(
                    s.subrange(i as int, n as int),
                    from,
                    (lim - r@.len()) as nat,
                ),
            decreases n - i,
        {
            let ghost sub = s.subrange(i as int, n as int);
            proof {
                assert(sub.drop_first() =~= s.subrange(i + 1, n as int));
                assert(sub[0] == s[i as int]);
            }
            let e = &self.finalized_proposals[i];
            if e.0 >= from {
                let ghost before = r@;
                r.push(
                    (
                        e.0,
                        FinalizedProposal {
                            proposal_text: e.1.proposal_text.clone(),
                            proposal_result: e.1.proposal_result,
                            reasoning: e.1.reasoning.clone(),
                        },
                    ),
                );
                proof {
                    assert(r@.last() == s[i as int]);
                    assert(before + (seq![sub[0]] + page(
                        sub.drop_first(),
                        from,
                        (lim - before.len() - 1) as nat,
                    )) =~= r@ + page(s.subrange(i + 1, n as int), from, (lim - r@.len()) as nat));
                }
            }
            i += 1;
        }
        proof {
            if i == n {
                assert(s.subrange(n as int, n as int) =~= Seq::<(u32, FinalizedProposal)>::empty());
            }
            assert(r@ + Seq::<(u32, FinalizedProposal)>::empty() =~= r@);
        }
        r
    }
}

} // verus!

