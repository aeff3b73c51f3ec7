//! The contract's persistent state and its well-formedness invariant, with
//! the spec-level views and the lookup helpers the entry points build on.

use vstd::prelude::*;
use crate::hashing::digest_of;
use crate::types::Continuation;
use crate::types::FinalizedProposal;
use crate::types::Manifesto;
use crate::types::ProposalRequest;
use crate::types::Worker;

verus! {

/// Texts handled by the contract are bounded to this many characters.
pub const MAX_TEXT_LEN: usize = 10000;

/// The whole persistent state, constructed once at initialization and passed
/// explicitly to every operation.
pub struct Contract {
    pub owner_id: String,
    pub approved_codehashes: Vec<String>,
    pub worker_by_account_id: Vec<(String, Worker)>,
    pub manifesto: Manifesto,
    pub pending_proposals: Vec<(u32, ProposalRequest)>,
    pub finalized_proposals: Vec<(u32, FinalizedProposal)>,
    pub current_proposal_id: u32,
    pub continuations: Vec<Continuation>,
}

impl Contract {
    /// The manifesto is either the bootstrap "unset" state (both strings
    /// empty) or a text of bounded length bound by its own digest.
    pub open spec fn manifesto_ok(self) -> bool {
        ||| (self.manifesto.manifesto_text@.len() == 0 && self.manifesto.manifesto_hash@.len()
            == 0)
        ||| (self.manifesto.manifesto_hash@ == digest_of(self.manifesto.manifesto_text@)
            && self.manifesto.manifesto_hash@.len() == 64 && self.manifesto.manifesto_text@.len()
            <= MAX_TEXT_LEN)
    }

    /// Whether a manifesto has been published.
    pub open spec fn manifesto_set(self) -> bool {
        self.manifesto.manifesto_hash@.len() != 0
    }

    pub open spec fn pending_ids_ascending(self) -> bool {
        forall|i: int, j: int|
            0 <= i < j < self.pending_proposals@.len() ==> (#[trigger] self.pending_proposals@[i]).0
                < (#[trigger] self.pending_proposals@[j]).0
    }

    pub open spec fn finalized_ids_ascending(self) -> bool {
        forall|i: int, j: int|
            0 <= i < j < self.finalized_proposals@.len()
                ==> (#[trigger] self.finalized_proposals@[i]).0
                < (#[trigger] self.finalized_proposals@[j]).0
    }

    /// Every pending id was handed out by the counter: it is at most the
    /// counter's current value.
    pub open spec fn ids_bounded(self) -> bool {
        forall|i: int|
            0 <= i < self.pending_proposals@.len() ==> (#[trigger] self.pending_proposals@[i]).0
                <= self.current_proposal_id
    }

    /// Every finalized id was handed out by the counter.
    pub open spec fn finalized_ids_bounded(self) -> bool {
        forall|i: int|
            0 <= i < self.finalized_proposals@.len()
                ==> (#[trigger] self.finalized_proposals@[i]).0 <= self.current_proposal_id
    }

    /// Every recorded continuation's id was handed out by the counter.
    pub open spec fn cont_ids_bounded(self) -> bool {
        forall|i: int|
            0 <= i < self.continuations@.len() ==> (#[trigger] self.continuations@[i]).proposal_id
                <= self.current_proposal_id
    }

    /// No proposal id sits in the pending and the finalized map at once.
    pub open spec fn pending_finalized_disjoint(self) -> bool {
        forall|i: int, j: int|
            0 <= i < self.pending_proposals@.len() && 0 <= j < self.finalized_proposals@.len()
                ==> (#[trigger] self.pending_proposals@[i]).0 != (
            #[trigger] self.finalized_proposals@[j]).0
    }

    /// Continuation tokens are pairwise distinct: the environment never hands
    /// the same token out twice.
    pub open spec fn tokens_unique(self) -> bool {
        forall|i: int, j: int|
            0 <= i < j < self.continuations@.len() ==> (#[trigger] self.continuations@[i]).token@
                != (#[trigger] self.continuations@[j]).token@
    }

    /// Worker records are keyed by account: no account appears twice.
    pub open spec fn workers_unique(self) -> bool {
        forall|i: int, j: int|
            0 <= i < j < self.worker_by_account_id@.len()
                ==> (#[trigger] self.worker_by_account_id@[i]).0@
                != (#[trigger] self.worker_by_account_id@[j]).0@
    }

    /// Well-formedness: established by `init`, preserved by every operation.
    pub open spec fn wf(self) -> bool {
        &&& self.manifesto_ok()
        &&& self.pending_ids_ascending()
        &&& self.finalized_ids_ascending()
        &&& self.ids_bounded()
        &&& self.finalized_ids_bounded()
        &&& self.cont_ids_bounded()
        &&& self.pending_finalized_disjoint()
        &&& self.tokens_unique()
        &&& self.workers_unique()
    }

    // Spec views of the keyed collections.

    pub open spec fn pending_has(self, id: u32) -> bool {
        exists|i: int|
            0 <= i < self.pending_proposals@.len() && (#[trigger] self.pending_proposals@[i]).0
                == id
    }

    pub open spec fn pending_index(self, id: u32) -> int {
        choose|i: int|
            0 <= i < self.pending_proposals@.len() && (#[trigger] self.pending_proposals@[i]).0
                == id
    }

    pub open spec fn pending_at(self, id: u32) -> ProposalRequest {
        self.pending_proposals@[self.pending_index(id)].1
    }

    pub open spec fn finalized_has(self, id: u32) -> bool {
        exists|i: int|
            0 <= i < self.finalized_proposals@.len() && (#[trigger] self.finalized_proposals@[i]).0
                == id
    }

    pub open spec fn finalized_index(self, id: u32) -> int {
        choose|i: int|
            0 <= i < self.finalized_proposals@.len() && (#[trigger] self.finalized_proposals@[i]).0
                == id
    }

    pub open spec fn finalized_at(self, id: u32) -> FinalizedProposal {
        self.finalized_proposals@[self.finalized_index(id)].1
    }

    pub open spec fn worker_has(self, account: Seq<char>) -> bool {
        exists|i: int|
            0 <= i < self.worker_by_account_id@.len()
                && (#[trigger] self.worker_by_account_id@[i]).0@ == account
    }

    pub open spec fn worker_index(self, account: Seq<char>) -> int {
        choose|i: int|
            0 <= i < self.worker_by_account_id@.len()
                && (#[trigger] self.worker_by_account_id@[i]).0@ == account
    }

    pub open spec fn worker_at(self, account: Seq<char>) -> Worker {
        self.worker_by_account_id@[self.worker_index(account)].1
    }

    pub open spec fn approved_has(self, codehash: Seq<char>) -> bool {
        exists|i: int|
            0 <= i < self.approved_codehashes@.len()
                && (#[trigger] self.approved_codehashes@[i])@ == codehash
    }

    pub open spec fn token_has(self, token: Seq<u8>) -> bool {
        exists|i: int|
            0 <= i < self.continuations@.len() && (#[trigger] self.continuations@[i]).token@
                == token
    }

    pub open spec fn token_index(self, token: Seq<u8>) -> int {
        choose|i: int|
            0 <= i < self.continuations@.len() && (#[trigger] self.continuations@[i]).token@
                == token
    }

    pub open spec fn token_at(self, token: Seq<u8>) -> Continuation {
        self.continuations@[self.token_index(token)]
    }

    /// A token that exists and was not yet resumed.
    pub open spec fn token_live(self, token: Seq<u8>) -> bool {
        self.token_has(token) && !self.token_at(token).resolved
    }

    /// Whether some continuation was recorded for this proposal id.
    pub open spec fn cont_for_id(self, id: u32) -> bool {
        exists|i: int|
            0 <= i < self.continuations@.len() && (#[trigger] self.continuations@[i]).proposal_id
                == id
    }

    /// An account holding a worker record whose code identity is (still) on
    /// the allowlist.
    pub open spec fn caller_approved(self, account: Seq<char>) -> bool {
        self.worker_has(account) && self.approved_has(self.worker_at(account).codehash@)
    }

    // Index uniqueness: with the ascending/uniqueness invariants, the chosen
    // index is the only one carrying the key.

    pub proof fn lemma_pending_index_is(self, id: u32, i: int)
        requires
            self.pending_ids_ascending(),
            0 <= i < self.pending_proposals@.len(),
            self.pending_proposals@[i].0 == id,
        ensures
            self.pending_has(id),
            self.pending_index(id) == i,
    {
        assert(self.pending_has(id));
        let j = self.pending_index(id);
        if j < i {
            assert(self.pending_proposals@[j].0 < self.pending_proposals@[i].0);
        } else if i < j {
            assert(self.pending_proposals@[i].0 < self.pending_proposals@[j].0);
        }
    }

    pub proof fn lemma_finalized_index_is(self, id: u32, i: int)
        requires
            self.finalized_ids_ascending(),
            0 <= i < self.finalized_proposals@.len(),
            self.finalized_proposals@[i].0 == id,
        ensures
            self.finalized_has(id),
            self.finalized_index(id) == i,
    {
        assert(self.finalized_has(id));
        let j = self.finalized_index(id);
        if j < i {
            assert(self.finalized_proposals@[j].0 < self.finalized_proposals@[i].0);
        } else if i < j {
            assert(self.finalized_proposals@[i].0 < self.finalized_proposals@[j].0);
        }
    }

    pub proof fn lemma_worker_index_is(self, account: Seq<char>, i: int)
        requires
            self.workers_unique(),
            0 <= i < self.worker_by_account_id@.len(),
            self.worker_by_account_id@[i].0@ == account,
        ensures
            self.worker_has(account),
            self.worker_index(account) == i,
    {
        assert(self.worker_has(account));
        let j = self.worker_index(account);
        if i < j {
            assert(self.worker_by_account_id@[i].0@ != self.worker_by_account_id@[j].0@);
        } else if j < i {
            assert(self.worker_by_account_id@[j].0@ != self.worker_by_account_id@[i].0@);
        }
    }

    pub proof fn lemma_token_index_is(self, token: Seq<u8>, i: int)
        requires
            self.tokens_unique(),
            0 <= i < self.continuations@.len(),
            self.continuations@[i].token@ == token,
        ensures
            self.token_has(token),
            self.token_index(token) == i,
    {
        assert(self.token_has(token));
        let j = self.token_index(token);
        if i < j {
            assert(self.continuations@[i].token@ != self.continuations@[j].token@);
        } else if j < i {
            assert(self.continuations@[j].token@ != self.continuations@[i].token@);
        }
    }

    // Exec lookups.

    /// Index of the pending entry carrying `id`, if any.
    pub(crate) fn find_pending(&self, id: u32) -> (r: Option<usize>)
        requires
            self.pending_ids_ascending(),
        ensures
            match r {
                Some(i) => self.pending_has(id) && self.pending_index(id) == i && i
                    < self.pending_proposals@.len(),
                None => !self.pending_has(id),
            },
    {
        let n = self.pending_proposals.len();
        let mut i: usize = 0;
        while i < n
            invariant
                n == self.pending_proposals@.len(),
                i <= n,
                self.pending_ids_ascending(),
                forall|k: int| 0 <= k < i ==> (#[trigger] self.pending_proposals@[k]).0 != id,
            decreases n - i,
        {
            if self.pending_proposals[i].0 == id {
                proof {
                    self.lemma_pending_index_is(id, i as int);
                }
                return Some(i);
            }
            i += 1;
        }
        None
    }

    /// Index of the finalized entry carrying `id`, if any.
    pub(crate) fn find_finalized(&self, id: u32) -> (r: Option<usize>)
        requires
            self.finalized_ids_ascending(),
        ensures
            match r {
                Some(i) => self.finalized_has(id) && self.finalized_index(id) == i && i
                    < self.finalized_proposals@.len(),
                None => !self.finalized_has(id),
            },
    {
        let n = self.finalized_proposals.len();
        let mut i: usize = 0;
        while i < n
            invariant
                n == self.finalized_proposals@.len(),
                i <= n,
                self.finalized_ids_ascending(),
                forall|k: int| 0 <= k < i ==> (#[trigger] self.finalized_proposals@[k]).0 != id,
            decreases n - i,
        {
            if self.finalized_proposals[i].0 == id {
                proof {
                    self.lemma_finalized_index_is(id, i as int);
                }
                return Some(i);
            }
            i += 1;
        }
        None
    }

    /// Index of the worker record keyed by `account`, if any.
    pub(crate) fn find_worker(&self, account: &String) -> (r: Option<usize>)
        requires
            self.workers_unique(),
        ensures
            match r {
                Some(i) => self.worker_has(account@) && self.worker_index(account@) == i && i
                    < self.worker_by_account_id@.len(),
                None => !self.worker_has(account@),
            },
    {
        let n = self.worker_by_account_id.len();
        let mut i: usize = 0;
        while i < n
            invariant
                n == self.worker_by_account_id@.len(),
                i <= n,
                self.workers_unique(),
                forall|k: int| 0 <= k < i ==> (#[trigger] self.worker_by_account_id@[k]).0@
                    != account@,
            decreases n - i,
        {
            if self.worker_by_account_id[i].0 == *account {
                proof {
                    self.lemma_worker_index_is(account@, i as int);
                }
                return Some(i);
            }
            i += 1;
        }
        None
    }

    /// Whether a code-identity hash is on the allowlist.
    pub(crate) fn contains_codehash(&self, codehash: &String) -> (r: bool)
        ensures
            r == self.approved_has(codehash@),
    {
        let n = self.approved_codehashes.len();
        let mut i: usize = 0;
        while i < n
            invariant
                n == self.approved_codehashes@.len(),
                i <= n,
                forall|k: int| 0 <= k < i ==> (#[trigger] self.approved_codehashes@[k])@
                    != codehash@,
            decreases n - i,
        {
            if self.approved_codehashes[i] == *codehash {
                assert(self.approved_has(codehash@));
                return true;
            }
            i += 1;
        }
        false
    }

    /// Index of the continuation carrying `token`, if any.
    pub(crate) fn find_token(&self, token: &Vec<u8>) -> (r: Option<usize>)
        requires
            self.tokens_unique(),
        ensures
            match r {
                Some(i) => self.token_has(token@) && self.token_index(token@) == i && i
                    < self.continuations@.len(),
                None => !self.token_has(token@),
            },
    {
        let n = self.continuations.len();
        let mut i: usize = 0;
        while i < n
            invariant
                n == self.continuations@.len(),
                i <= n,
                self.tokens_unique(),
                forall|k: int| 0 <= k < i ==> (#[trigger] self.continuations@[k]).token@ != token@,
            decreases n - i,
        {
            if bytes_eq(&self.continuations[i].token, token) {
                proof {
                    self.lemma_token_index_is(token@, i as int);
                }
                return Some(i);
            }
            i += 1;
        }
        None
    }
}

/// Byte-sequence equality, element by element.
pub(crate) fn bytes_eq(a: &Vec<u8>, b: &Vec<u8>) -> (r: bool)
    ensures
        r == (a@ == b@),
{
    if a.len() != b.len() {
        proof {
            if a@ == b@ {
                assert(a@.len() == b@.len());
            }
        }
        return false;
    }
    let n = a.len();
    let mut i: usize = 0;
    while i < n
        invariant
            n == a@.len(),
            a@.len() == b@.len(),
            i <= n,
            forall|k: int| 0 <= k < i ==> a@[k] == b@[k],
        decreases n - i,
    {
        if a[i] != b[i] {
            proof {
                if a@ == b@ {
                    assert(a@[i as int] == b@[i as int]);
                }
            }
            return false;
        }
        i += 1;
    }
    proof {
        assert(a@ =~= b@);
    }
    true
}

/// A byte-for-byte copy of a token.
pub(crate) fn bytes_clone(a: &Vec<u8>) -> (r: Vec<u8>)
    ensures
        r@ == a@,
{
    let n = a.len();
    let mut r: Vec<u8> = Vec::new();
    let mut i: usize = 0;
    while i < n
        invariant
            n == a@.len(),
            i <= n,
            r@ == a@.subrange(0, i as int),
        decreases n - i,
    {
        r.push(a[i]);
        proof {
            assert(r@ =~= a@.subrange(0, i + 1 as int));
        }
        i += 1;
    }
    proof {
        assert(a@.subrange(0, n as int) =~= a@);
    }
    r
}

impl Contract {
    /// Fresh state: a given owner, no manifesto, nothing registered, counter
    /// at zero.
    pub fn init(owner_id: String) -> (c: Contract)
        ensures
        c.wf(),
        c.owner_id == owner_id,
        c.approved_codehashes@.len() == 0,
        c.worker_by_account_id@.len() == 0,
        c.manifesto.manifesto_text@.len() == 0,
        c.manifesto.manifesto_hash@.len() == 0,
        c.pending_proposals@.len() == 0,
        c.finalized_proposals@.len() == 0,
            c.current_proposal_id == 0,
            c.continuations@.len() == 0,
            !c.manifesto_set(),
    {
        Contract {
            owner_id,
            approved_codehashes: Vec::new(),
            worker_by_account_id: Vec::new(),
            manifesto: Manifesto { manifesto_text: String::new(), manifesto_hash: String::new() },
            pending_proposals: Vec::new(),
            finalized_proposals: Vec::new(),
            current_proposal_id: 0,
            continuations: Vec::new(),
        }
    }
}

} // verus!
