//! From a deposit that was seen to one that is final, and back where its block
//! was orphaned.
use vstd::prelude::*;
use crate::error::LedgerError;
use crate::ledger::{Ledger, LedgerView, lemma_with_request, step, step_because};
use crate::rows::RequestView;
use crate::types::RequestState;

verus! {

/// A request that waits for its deposit again.
pub open spec fn unsighted(q: RequestView) -> RequestView {
    RequestView {
        state: RequestState::AwaitingDeposit,
        source_txid: None,
        source_vout: None,
        source_block_height: None,
        source_block_hash: None,
        source_confirmations: 0,
        ..q
    }
}

impl LedgerView {
    /// The ledger after the block of a deposit was orphaned.
    pub open spec fn reorged(self, id: i64, now: i64) -> LedgerView {
        let q = self.request(id).unwrap();
        self.with_log(
            step_because(id, Some(q.state), RequestState::Reorged, now, "block_orphaned"@),
        ).with_request(id, unsighted(q)).with_log(
            step(id, Some(RequestState::Reorged), RequestState::AwaitingDeposit, now),
        )
    }

    /// Whether a deposit can be recorded as final.
    pub open spec fn finalize_result(self, id: i64) -> Result<(), LedgerError> {
        match self.request(id) {
            None => Err(LedgerError::RequestNotFound(id)),
            Some(q) => if q.state == RequestState::SourceFinalized || self.pending_fits(
                q.direction.spec_destination_reserve(),
                q.net_destination_atomic as int,
            ) {
                Ok(())
            } else {
                Err(LedgerError::AmountOutOfRange)
            },
        }
    }

    /// The ledger after a deposit was recorded as final: its payout is owed.
    pub open spec fn finalized(self, id: i64, now: i64) -> LedgerView {
        let q = self.request(id).unwrap();
        if q.state == RequestState::SourceFinalized {
            self
        } else {
            self.with_request(
                id,
                RequestView {
                    state: RequestState::SourceFinalized,
                    source_finalized_at: Some(now),
                    ..q
                },
            ).with_log(step(id, Some(q.state), RequestState::SourceFinalized, now)).add_pending(
                q.direction.spec_destination_reserve(),
                q.net_destination_atomic as int,
            )
        }
    }
}

impl Ledger {
    /// Records more confirmations of a deposit; fewer are ignored.
    pub fn update_glc_confirmations(&mut self, request_id: i64, confirmations: i64)
        ensures
            final(self)@ == (match old(self)@.request(request_id) {
                Some(q) => if q.state == RequestState::Confirming && q.source_confirmations
                    < confirmations {
                    old(self)@.with_request(
                        request_id,
                        RequestView { source_confirmations: confirmations, ..q },
                    )
                } else {
                    old(self)@
                },
                None => old(self)@,
            }),
    {
        match self.find_request(request_id) {
            Some(i) => {
                if matches!(self.requests[i].state, RequestState::Confirming)
                    && self.requests[i].source_confirmations < confirmations {
                    let ghost l0 = self@;
                    self.requests[i].source_confirmations = confirmations;
                    proof {
                        assert(self@.requests =~= l0.requests.update(
                            i as int,
                            RequestView {
                                source_confirmations: confirmations,
                                ..l0.requests[i as int]
                            },
                        ));
                    }
                }
            },
            None => {},
        }
    }

    /// Records a deposit as final; its payout is owed from then on. A second
    /// time changes nothing.
    pub fn mark_glc_source_finalized(&mut self, request_id: i64, now: i64) -> (r: Result<
        (),
        LedgerError,
    >)
        requires
            old(self)@.request(request_id) matches Some(q) ==> q.state
                == RequestState::SourceFinalized || q.state == RequestState::Confirming,
        ensures
            r == old(self)@.finalize_result(request_id),
            final(self)@ == (if r is Ok {
                old(self)@.finalized(request_id, now)
            } else {
                old(self)@
            }),
    {
        let i = match self.find_request(request_id) {
            Some(i) => i,
            None => {
                return Err(LedgerError::RequestNotFound(request_id));
            },
        };
        let state = self.requests[i].state;
        if matches!(state, RequestState::SourceFinalized) {
            return Ok(());
        }
        let reserve = self.requests[i].direction.destination_reserve();
        let amount: i64 = self.requests[i].net_destination_atomic;
        if !self.pending_would_fit(reserve, amount) {
            return Err(LedgerError::AmountOutOfRange);
        }
        let ghost l0 = self@;
        self.requests[i].state = RequestState::SourceFinalized;
        self.requests[i].source_finalized_at = Some(now);
        proof {
            assert(self@.requests =~= l0.requests.update(
                i as int,
                RequestView {
                    state: RequestState::SourceFinalized,
                    source_finalized_at: Some(now),
                    ..l0.requests[i as int]
                },
            ));
        }
        self.log_transition(
            request_id,
            Some(state),
            RequestState::SourceFinalized,
            now,
            None,
            "system",
        );
        self.add_pending(reserve, amount);
        Ok(())
    }

    /// Parks a request whose deposit was spent before it was final. A second
    /// time changes nothing.
    pub fn mark_glc_deposit_spent_before_finalized(
        &mut self,
        request_id: i64,
        now: i64,
    ) -> (r: Result<(), LedgerError>)
        requires
            old(self)@.request(request_id) matches Some(q) ==> q.state
                == RequestState::ManualReview || q.state == RequestState::Confirming,
        ensures
            match old(self)@.request(request_id) {
                None => r == Err::<(), LedgerError>(LedgerError::RequestNotFound(request_id))
                    && final(self)@ == old(self)@,
                Some(q) => r == Ok::<(), LedgerError>(()) && final(self)@ == (if q.state
                    == RequestState::ManualReview {
                    old(self)@
                } else {
                    old(self)@.with_request(
                        request_id,
                        RequestView {
                            state: RequestState::ManualReview,
                            manual_review_note: Some("deposit_spent_before_finalized"@),
                            ..q
                        },
                    ).with_log(
                        step_because(
                            request_id,
                            Some(q.state),
                            RequestState::ManualReview,
                            now,
                            "deposit_spent_before_finalized"@,
                        ),
                    )
                }),
            },
    {
        let i = match self.find_request(request_id) {
            Some(i) => i,
            None => {
                return Err(LedgerError::RequestNotFound(request_id));
            },
        };
        let state = self.requests[i].state;
        if matches!(state, RequestState::ManualReview) {
            return Ok(());
        }
        let ghost l0 = self@;
        self.requests[i].state = RequestState::ManualReview;
        self.requests[i].manual_review_note = Some("deposit_spent_before_finalized".to_owned());
        proof {
            assert(self@.requests =~= l0.requests.update(
                i as int,
                RequestView {
                    state: RequestState::ManualReview,
                    manual_review_note: Some("deposit_spent_before_finalized"@),
                    ..l0.requests[i as int]
                },
            ));
        }
        self.log_transition(
            request_id,
            Some(state),
            RequestState::ManualReview,
            now,
            Some("deposit_spent_before_finalized"),
            "system",
        );
        Ok(())
    }

    /// Lets a request wait for its deposit again after the deposit's block was
    /// orphaned. Never called of a final deposit.
    pub fn mark_glc_reorged(&mut self, request_id: i64, now: i64) -> (r: Result<(), LedgerError>)
        requires
            old(self)@.request(request_id) matches Some(q) ==> q.state
                == RequestState::DepositObserved || q.state == RequestState::Confirming,
        ensures
            match old(self)@.request(request_id) {
                None => r == Err::<(), LedgerError>(LedgerError::RequestNotFound(request_id))
                    && final(self)@ == old(self)@,
                Some(q) => r == Ok::<(), LedgerError>(()) && final(self)@ == old(self)@.reorged(
                    request_id,
                    now,
                ),
            },
    {
        match self.find_request(request_id) {
            Some(i) => {
                self.unsight(request_id, i, now);
                Ok(())
            },
            None => Err(LedgerError::RequestNotFound(request_id)),
        }
    }

    /// Lets the request at `i` wait for its deposit again.
    pub(crate) fn unsight(&mut self, id: i64, i: usize, now: i64)
        requires
            old(self).at_row(id, i),
        ensures
            final(self)@ == old(self)@.reorged(id, now),
            final(self).requests@.len() == old(self).requests@.len(),
    {
        let state = self.requests[i].state;
        self.log_transition(
            id,
            Some(state),
            RequestState::Reorged,
            now,
            Some("block_orphaned"),
            "system",
        );
        let ghost l1 = self@;
        self.requests[i].state = RequestState::AwaitingDeposit;
        self.requests[i].source_txid = None;
        self.requests[i].source_vout = None;
        self.requests[i].source_block_height = None;
        self.requests[i].source_block_hash = None;
        self.requests[i].source_confirmations = 0;
        proof {
            assert(self@.requests =~= l1.requests.update(
                i as int,
                unsighted(l1.requests[i as int]),
            ));
        }
        self.log_transition(
            id,
            Some(RequestState::Reorged),
            RequestState::AwaitingDeposit,
            now,
            None,
            "system",
        );
    }
}

/// Recording a deposit as final a second time changes nothing.
pub proof fn law_finalizing_twice_is_finalizing_once(l: LedgerView, id: i64, now: i64, later: i64)
    requires
        l.finalize_result(id) is Ok,
    ensures
        l.finalized(id, now).finalize_result(id) == Ok::<(), LedgerError>(()),
        l.finalized(id, now).finalized(id, later) == l.finalized(id, now),
{
    let q = l.request(id).unwrap();
    if q.state != RequestState::SourceFinalized {
        crate::ledger::lemma_request_id(l, id);
        lemma_with_request(
            l,
            id,
            RequestView {
                state: RequestState::SourceFinalized,
                source_finalized_at: Some(now),
                ..q
            },
        );
        let m = l.finalized(id, now);
        assert(m.requests == l.with_request(
            id,
            RequestView {
                state: RequestState::SourceFinalized,
                source_finalized_at: Some(now),
                ..q
            },
        ).requests);
    }
}

/// A deposit whose block was orphaned releases nothing and owes nothing: the
/// books of every reserve stay as they are.
pub proof fn law_reorg_leaves_the_books(l: LedgerView, id: i64, now: i64)
    requires
        l.request(id) is Some,
    ensures
        l.reorged(id, now).reserves == l.reserves,
{
}

} // verus!
