//! The agent registry: the owner-curated code-identity allowlist and the
//! attestation-gated registration of worker accounts.

use vstd::prelude::*;
use crate::attest::attest_quote;
use crate::attest::lossy_of;
use crate::attest::quote_report_of;
use crate::attest::resolve_manifest;
use crate::attest::utf8_lossy;
use crate::attest::verify_codehash;
use crate::errors::Error;
use crate::hashing::decode_hex;
use crate::hashing::hex_decoded;
use crate::hashing::hex_encode;
use crate::hashing::hex_of;
use crate::hashing::is_hex_digit;
use crate::state::Contract;
use crate::types::Worker;

verus! {

/// What registration decides once the attestation step has yielded a report:
/// the report must be bound to the caller, the manifest must resolve the
/// measurement, and both resolved code identities must be approved.
pub open spec fn registration_outcome(
    pre: Contract,
    caller: Seq<char>,
    tcb: Seq<char>,
    rd: Seq<u8>,
    mr: Seq<char>,
) -> Result<bool, Error> {
    if lossy_of(rd) != caller {
        Err(Error::IdentityMismatch)
    } else {
        match resolve_manifest(tcb, mr) {
            None => Err(Error::CodehashResolutionFailed),
            Some(pair) => if !(pre.approved_has(pair.0) && pre.approved_has(pair.1)) {
                Err(Error::CodehashNotApproved)
            } else {
                Ok(true)
            },
        }
    }
}

/// Whether a string is well-formed hex: even length, hex digits throughout.
pub open spec fn valid_hex(s: Seq<char>) -> bool {
    s.len() % 2 == 0 && (forall|i: int| 0 <= i < s.len() ==> is_hex_digit(#[trigger] s[i]))
}

/// What `register_agent` decides, as a function of the prior state and its
/// arguments alone: the quote must be well-formed hex, attestation must
/// yield a report for the decoded quote, and the registration step decides
/// the rest — so success is owed exactly when the report is bound to the
/// caller, the manifest resolves its measurement, and both resolved code
/// identities are approved.
pub open spec fn register_outcome(
    pre: Contract,
    caller: Seq<char>,
    quote_hex: Seq<char>,
    collateral: Seq<char>,
    tcb: Seq<char>,
    now: u64,
) -> Result<bool, Error> {
    if !valid_hex(quote_hex) {
        Err(Error::AttestationInvalid)
    } else {
        match quote_report_of(hex_decoded(quote_hex), collateral, now) {
            None => Err(Error::AttestationInvalid),
            Some(report) => registration_outcome(pre, caller, tcb, report.0, hex_of(report.1)),
        }
    }
}

impl Contract {
    /// Add a code-identity hash to the allowlist. Owner only; idempotent.
    pub fn approve_codehash(&mut self, caller: &String, codehash: String) -> (r: Result<(), Error>)
        requires
            old(self).wf(),
        ensures
            final(self).wf(),
            caller@ != old(self).owner_id@ ==> r == Err::<(), Error>(Error::Unauthorized) && *final(self) == *old(self),
            caller@ == old(self).owner_id@ ==> {
                &&& r == Ok::<(), Error>(())
                &&& final(self).approved_has(codehash@)
                &&& forall|h: Seq<char>|
                    final(self).approved_has(h) <==> (old(self).approved_has(h) || h == codehash@)
                &&& (old(self).approved_has(codehash@) ==> *final(self) == *old(self))
                &&& final(self).owner_id == old(self).owner_id
                &&& final(self).worker_by_account_id == old(self).worker_by_account_id
                &&& final(self).manifesto == old(self).manifesto
                &&& final(self).pending_proposals == old(self).pending_proposals
                &&& final(self).finalized_proposals == old(self).finalized_proposals
                &&& final(self).current_proposal_id == old(self).current_proposal_id
                &&& final(self).continuations == old(self).continuations
            },
    {
        if !self.require_owner(caller) {
            return Err(Error::Unauthorized);
        }
        let ghost pre = *self;
        if !self.contains_codehash(&codehash) {
            self.approved_codehashes.push(codehash);
            proof {
                assert forall|h: Seq<char>|
                    self.approved_has(h) <==> (pre.approved_has(h) || h == codehash@) by {
                    let n = pre.approved_codehashes@.len();
                    if pre.approved_has(h) {
                        let i = choose|i: int|
                            0 <= i < n && (#[trigger] pre.approved_codehashes@[i])@ == h;
                        assert(self.approved_codehashes@[i]@ == h);
                    }
                    if h == codehash@ {
                        assert(self.approved_codehashes@[n as int]@ == h);
                    }
                    if self.approved_has(h) {
                        let i = choose|i: int|
                            0 <= i < self.approved_codehashes@.len() && (
                            #[trigger] self.approved_codehashes@[i])@ == h;
                        if i < n {
                            assert(pre.approved_codehashes@[i]@ == h);
                        }
                    }
                }
            }
        }
        Ok(())
    }

    /// Write or overwrite the worker record keyed by `account`.
    fn upsert_worker(&mut self, account: &String, w: Worker)
        requires
            old(self).workers_unique(),
        ensures
            final(self).workers_unique(),
            final(self).worker_has(account@),
            final(self).worker_at(account@) == w,
            forall|a: Seq<char>|
                a != account@ ==> (final(self).worker_has(a) <==> old(self).worker_has(a)),
            forall|a: Seq<char>|
                a != account@ && old(self).worker_has(a) ==> final(self).worker_at(a) == old(self).worker_at(a),
            final(self).owner_id == old(self).owner_id,
            final(self).approved_codehashes == old(self).approved_codehashes,
            final(self).manifesto == old(self).manifesto,
            final(self).pending_proposals == old(self).pending_proposals,
            final(self).finalized_proposals == old(self).finalized_proposals,
            final(self).current_proposal_id == old(self).current_proposal_id,
            final(self).continuations == old(self).continuations,
    {
        let ghost pre = *self;
        match self.find_worker(account) {
            Some(i) => {
                self.worker_by_account_id[i] = (account.clone(), w);
                proof {
                    let n = self.worker_by_account_id@.len();
                    assert forall|a: Seq<char>|
                        a != account@ implies (self.worker_has(a) <==> pre.worker_has(a)) by {
                        if pre.worker_has(a) {
                            let k = pre.worker_index(a);
                            pre.lemma_worker_index_is(a, k);
                            assert(k != i);
                            assert(self.worker_by_account_id@[k].0@ == a);
                        }
                        if self.worker_has(a) {
                            let k = self.worker_index(a);
                            assert(k != i);
                            assert(pre.worker_by_account_id@[k].0@ == a);
                        }
                    }
                    assert forall|a: Seq<char>|
                        a != account@ && pre.worker_has(a) implies self.worker_at(a)
                        == pre.worker_at(a) by {
                        let k = pre.worker_index(a);
                        pre.lemma_worker_index_is(a, k);
                        self.lemma_worker_index_is(a, k);
                    }
                    self.lemma_worker_index_is(account@, i as int);
                }
            },
            None => {
                self.worker_by_account_id.push((account.clone(), w));
                proof {
                    let n = pre.worker_by_account_id@.len();
                    assert forall|a: Seq<char>|
                        a != account@ implies (self.worker_has(a) <==> pre.worker_has(a)) by {
                        if pre.worker_has(a) {
                            let k = pre.worker_index(a);
                            pre.lemma_worker_index_is(a, k);
                            assert(self.worker_by_account_id@[k].0@ == a);
                        }
                        if self.worker_has(a) {
                            let k = choose|k: int|
                                0 <= k < self.worker_by_account_id@.len() && (
                                #[trigger] self.worker_by_account_id@[k]).0@ == a;
                            assert(k != n);
                            assert(pre.worker_by_account_id@[k].0@ == a);
                        }
                    }
                    assert forall|a: Seq<char>|
                        a != account@ && pre.worker_has(a) implies self.worker_at(a)
                        == pre.worker_at(a) by {
                        let k = pre.worker_index(a);
                        pre.lemma_worker_index_is(a, k);
                        self.lemma_worker_index_is(a, k);
                    }
                    self.lemma_worker_index_is(account@, n as int);
                }
            },
        }
    }

    /// Complete a registration from an already-verified report: bind the
    /// report to the caller, resolve the measurement through the manifest,
    /// check the allowlist, and record the worker.
    pub fn register_with_report(
        &mut self,
        caller: &String,
        checksum: String,
        tcb_info: &String,
        report_data: &Vec<u8>,
        rtmr3_hex: &String,
    ) -> (r: Result<bool, Error>)
        requires
            old(self).wf(),
        ensures
            final(self).wf(),
            r == registration_outcome(*old(self), caller@, tcb_info@, report_data@, rtmr3_hex@),
            r is Err ==> *final(self) == *old(self),
            r is Ok ==> {
                &&& final(self).worker_has(caller@)
                &&& final(self).worker_at(caller@).checksum == checksum
                &&& resolve_manifest(tcb_info@, rtmr3_hex@) matches Some(pair) && final(self).worker_at(caller@).codehash@ == pair.1
                &&& forall|a: Seq<char>|
                    a != caller@ ==> (final(self).worker_has(a) <==> old(self).worker_has(a))
                &&& forall|a: Seq<char>|
                    a != caller@ && old(self).worker_has(a) ==> final(self).worker_at(a) == old(self).worker_at(a)
                &&& final(self).owner_id == old(self).owner_id
                &&& final(self).approved_codehashes == old(self).approved_codehashes
                &&& final(self).manifesto == old(self).manifesto
                &&& final(self).pending_proposals == old(self).pending_proposals
                &&& final(self).finalized_proposals == old(self).finalized_proposals
                &&& final(self).current_proposal_id == old(self).current_proposal_id
                &&& final(self).continuations == old(self).continuations
            },
    {
        let rd_str = utf8_lossy(report_data);
        if !(rd_str == *caller) {
            return Err(Error::IdentityMismatch);
        }
        match verify_codehash(tcb_info.as_str(), rtmr3_hex.as_str()) {
            None => Err(Error::CodehashResolutionFailed),
            Some((api, app)) => {
                if !self.contains_codehash(&api) {
                    return Err(Error::CodehashNotApproved);
                }
                if !self.contains_codehash(&app) {
                    return Err(Error::CodehashNotApproved);
                }
                self.upsert_worker(caller, Worker { checksum, codehash: app });
                Ok(true)
            },
        }
    }

    /// Register the calling account as a worker: decode and verify the
    /// attestation quote, then complete the registration against the
    /// manifest and the allowlist. A failed verification changes nothing.
    pub fn register_agent(
        &mut self,
        caller: &String,
        quote_hex: &String,
        collateral: &String,
        checksum: String,
        tcb_info: &String,
        now: u64,
    ) -> (r: Result<bool, Error>)
        requires
            old(self).wf(),
        ensures
            final(self).wf(),
            r == register_outcome(*old(self), caller@, quote_hex@, collateral@, tcb_info@, now),
            r is Err ==> *final(self) == *old(self),
            forall|a: Seq<char>|
                a != caller@ ==> (final(self).worker_has(a) <==> old(self).worker_has(a)),
            forall|a: Seq<char>|
                a != caller@ && old(self).worker_has(a) ==> final(self).worker_at(a) == old(self).worker_at(a),
            final(self).owner_id == old(self).owner_id,
            final(self).approved_codehashes == old(self).approved_codehashes,
            final(self).manifesto == old(self).manifesto,
            final(self).pending_proposals == old(self).pending_proposals,
            final(self).finalized_proposals == old(self).finalized_proposals,
            final(self).current_proposal_id == old(self).current_proposal_id,
            final(self).continuations == old(self).continuations,
            r is Ok ==> ({
                let report = (quote_report_of(hex_decoded(quote_hex@), collateral@, now))->Some_0;
                &&& lossy_of(report.0) == caller@
                &&& final(self).worker_has(caller@)
                &&& final(self).worker_at(caller@).checksum == checksum
                &&& (resolve_manifest(tcb_info@, hex_of(report.1)) matches Some(images)
                    && final(self).worker_at(caller@).codehash@ == images.1
                    && old(self).approved_has(images.0) && old(self).approved_has(images.1))
            }),
    {
        let quote = match decode_hex(quote_hex.as_str()) {
            None => {
                return Err(Error::AttestationInvalid);
            },
            Some(q) => q,
        };
        let (rd, mr) = match attest_quote(&quote, collateral.as_str(), now) {
            None => {
                return Err(Error::AttestationInvalid);
            },
            Some(p) => p,
        };
        let rtmr3 = hex_encode(&mr);
        let r = self.register_with_report(caller, checksum, tcb_info, &rd, &rtmr3);
        proof {
            assert(quote_report_of(hex_decoded(quote_hex@), collateral@, now) == Some::<
                (Seq<u8>, Seq<u8>),
            >((rd@, mr@)));
            assert(r == registration_outcome(*old(self), caller@, tcb_info@, rd@, hex_of(mr@)));
        }
        r
    }

    /// The worker record of an account, if one was ever registered.
    pub fn get_agent(&self, account_id: &String) -> (r: Result<Worker, Error>)
        requires
            self.wf(),
        ensures
            self.worker_has(account_id@) ==> (r matches Ok(w) && w == self.worker_at(account_id@)),
            !self.worker_has(account_id@) ==> r == Err::<Worker, Error>(Error::WorkerNotFound),
    {
        match self.find_worker(account_id) {
            None => Err(Error::WorkerNotFound),
            Some(i) => {
                let w = &self.worker_by_account_id[i].1;
                Ok(Worker { checksum: w.checksum.clone(), codehash: w.codehash.clone() })
            },
        }
    }
}

} // verus!
