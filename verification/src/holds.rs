//! Holds on parked requests, and what operators decide about them.
use vstd::prelude::*;
use crate::error::{
    HoldBlocker, LedgerError, LedgerErrorView, RefundRefusal, ReviewRefusal, seen,
};
use crate::ledger::{Ledger, LedgerView, by_id, lemma_request_id, lemma_with_request};
use crate::request_laws::law_rewriting_keeps_numbers_apart;
use crate::resume::{
    ResumeManualReviewOutcome, payout_for, rhn_tx_for, sol_refund_for, unrecoverable,
};
use crate::rows::{
    BridgeRequest, GoldcoinRefundRow, GoldcoinRefundView, LogEntry, RequestView, RobinhoodTxRow,
    RobinhoodTxView,
};
use crate::table::{
    any_row, any_where, blank, collect_where, concat, lemma_blank_trims_to_nothing,
    lemma_first_row_is_first, lemma_selected, lemma_selects_all, lemma_selects_once, select_rows,
    sort_rows, sorted_by, trim, trimmed, values,
};
use crate::types::{
    Direction, ManualReviewDisposition, OperatorDecision, RequestState, RobinhoodTxKind,
    RouteWalletEligibility,
};

verus! {

/// The Goldcoin refund of a request.
pub open spec fn glc_refund_for(id: i64) -> spec_fn(GoldcoinRefundView) -> bool {
    |p: GoldcoinRefundView| p.request_id == id
}

/// An operation on Robinhood for a request that pays out.
pub open spec fn rhn_payment_for(id: i64) -> spec_fn(RobinhoodTxView) -> bool {
    |t: RobinhoodTxView| t.request_id == Some(id) && t.kind != RobinhoodTxKind::Refund
}

/// A request that an operator or the burst rule holds.
pub open spec fn held() -> spec_fn(RequestView) -> bool {
    |q: RequestView|
        q.auto_resume_hold_note is Some || q.manual_review_disposition
            != ManualReviewDisposition::Normal
}

/// A request that is held or once was: the time at which a hold began stays
/// when the hold ends.
pub open spec fn ever_held() -> spec_fn(RequestView) -> bool {
    |q: RequestView| held()(q) || q.hold_started_at is Some
}

/// The minimum hold has elapsed; a hold without one has none to wait for.
pub open spec fn review_available(q: RequestView, now: i64) -> bool {
    q.review_after matches Some(t) ==> now >= t
}

/// A line of a request that stays parked.
pub open spec fn parked_entry(id: i64, reason: Seq<char>, actor: Seq<char>, now: i64) -> LogEntry {
    LogEntry {
        request_id: id,
        from_state: Some(RequestState::ManualReview),
        to_state: RequestState::ManualReview,
        at: now,
        reason: Some(reason),
        actor,
    }
}

/// Lower numbers first.
pub open spec fn id_order() -> spec_fn(RequestView, RequestView) -> bool {
    |a: RequestView, b: RequestView| a.id <= b.id
}

/// Why a held request is not refunded: only a decision to refund allows it.
pub open spec fn refund_blocker(q: RequestView) -> Option<HoldBlocker> {
    if !held()(q) {
        None
    } else {
        match q.operator_decision {
            Some(OperatorDecision::Refund) => None,
            Some(decision) => Some(
                HoldBlocker::DecidedOtherwise {
                    disposition: q.manual_review_disposition,
                    decision,
                },
            ),
            None => Some(
                HoldBlocker::Undecided {
                    disposition: q.manual_review_disposition,
                    review_after: q.review_after,
                },
            ),
        }
    }
}

/// A request under an operator's hold.
pub open spec fn operator_held(
    q: RequestView,
    review_after: Option<i64>,
    note: Seq<char>,
    actor: Seq<char>,
    now: i64,
) -> RequestView {
    RequestView {
        auto_resume_hold_note: Some(note),
        auto_resume_hold_until: review_after,
        manual_review_disposition: ManualReviewDisposition::OperatorHold,
        hold_reason: Some("operator_hold"@),
        held_by: Some(actor),
        hold_started_at: match q.hold_started_at {
            Some(t) => Some(t),
            None => Some(now),
        },
        review_after,
        operator_decision: None,
        operator_decision_at: None,
        operator_note: None,
        ..q
    }
}

/// A request whose hold was released.
pub open spec fn released(q: RequestView, note: Seq<char>, now: i64) -> RequestView {
    RequestView {
        auto_resume_hold_note: None,
        auto_resume_hold_until: None,
        manual_review_disposition: ManualReviewDisposition::Normal,
        operator_decision: Some(OperatorDecision::Release),
        operator_decision_at: Some(now),
        operator_note: if note.len() == 0 {
            None
        } else {
            Some(note)
        },
        ..q
    }
}

/// The note stored with a decision.
pub open spec fn stored_note(note: Seq<char>, emergency: bool) -> Seq<char> {
    if emergency {
        "EMERGENCY (before review_after): "@ + note
    } else {
        note
    }
}

/// A request that was decided: a decision to process lifts an operator's note.
pub open spec fn decided_row(
    q: RequestView,
    decision: OperatorDecision,
    note: Seq<char>,
    now: i64,
) -> RequestView {
    let d = RequestView {
        operator_decision: Some(decision),
        operator_decision_at: Some(now),
        operator_note: Some(note),
        ..q
    };
    if decision == OperatorDecision::Process {
        RequestView { auto_resume_hold_note: None, auto_resume_hold_until: None, ..d }
    } else {
        d
    }
}

/// The reason logged with a decision. A refund that is brought forward is
/// logged as such.
pub open spec fn decision_reason(decision: OperatorDecision, emergency: bool) -> Seq<char> {
    if decision == OperatorDecision::Process {
        "operator_decision_process"@
    } else if emergency {
        "operator_decision_refund_emergency"@
    } else {
        "operator_decision_refund"@
    }
}

impl LedgerView {
    /// The disposition of a request that can be held, or why it cannot: it is
    /// not parked, or it has been paid out or is being paid out.
    pub open spec fn holdable(self, id: i64) -> Result<ManualReviewDisposition, LedgerError> {
        match self.request(id) {
            None => Err(LedgerError::RequestNotFound(id)),
            Some(q) => if q.state != RequestState::ManualReview {
                unrecoverable(id, ReviewRefusal::NotManualReview(q.state))
            } else if q.destination_txid is Some {
                unrecoverable(id, ReviewRefusal::DestinationTransactionExists)
            } else if any_row(self.payouts, payout_for(id)) || any_row(
                self.robinhood_txs,
                rhn_payment_for(id),
            ) {
                unrecoverable(id, ReviewRefusal::PayoutExists)
            } else {
                Ok(q.manual_review_disposition)
            },
        }
    }

    /// A refund of the request has begun, on any chain.
    pub open spec fn refund_begun_anywhere(self, id: i64) -> bool {
        any_row(self.solana_refunds, sol_refund_for(id)) || any_row(
            self.goldcoin_refunds,
            glc_refund_for(id),
        ) || any_row(self.robinhood_txs, rhn_tx_for(id, RobinhoodTxKind::Refund))
    }

    /// Whether a hold can be placed.
    pub open spec fn hold_result(self, id: i64, note: Seq<char>) -> Result<(), LedgerError> {
        if blank(note) {
            unrecoverable(id, ReviewRefusal::EmptyNote)
        } else {
            match self.holdable(id) {
                Err(e) => Err(e),
                Ok(ManualReviewDisposition::RapidBurstHold) => unrecoverable(
                    id,
                    ReviewRefusal::RapidBurstNotReplaced,
                ),
                Ok(_) => Ok(()),
            }
        }
    }

    /// Whether a hold is released, and whether there was one.
    pub open spec fn release_result(self, id: i64) -> Result<bool, LedgerError> {
        match self.request(id) {
            None => Err(LedgerError::RequestNotFound(id)),
            Some(q) => if q.manual_review_disposition == ManualReviewDisposition::RapidBurstHold {
                unrecoverable(id, ReviewRefusal::RapidBurstNotReleasable)
            } else {
                Ok(held()(q))
            },
        }
    }

    /// Whether a decision can be recorded.
    pub open spec fn decision_result(
        self,
        id: i64,
        decision: OperatorDecision,
        note: Seq<char>,
        emergency: bool,
        now: i64,
    ) -> Result<(), LedgerError> {
        if blank(note) {
            unrecoverable(id, ReviewRefusal::EmptyNote)
        } else if decision == OperatorDecision::Release {
            unrecoverable(id, ReviewRefusal::ReleaseIsNoDecision)
        } else if emergency && decision != OperatorDecision::Refund {
            unrecoverable(id, ReviewRefusal::EmergencyIsForRefunds)
        } else if self.holdable(id) is Err {
            Err(self.holdable(id)->Err_0)
        } else {
            let q = self.request(id).unwrap();
            if !held()(q) {
                unrecoverable(id, ReviewRefusal::NotHeld(q.manual_review_disposition))
            } else if self.refund_begun_anywhere(id) {
                unrecoverable(id, ReviewRefusal::RefundBegun)
            } else if q.manual_review_disposition == ManualReviewDisposition::RapidBurstHold
                && !review_available(q, now) && !emergency {
                unrecoverable(
                    id,
                    ReviewRefusal::ReviewNotElapsed { review_after: q.review_after, now },
                )
            } else {
                Ok(())
            }
        }
    }

    /// The ledger after a decision was recorded.
    pub open spec fn decided(
        self,
        id: i64,
        decision: OperatorDecision,
        note: Seq<char>,
        actor: Seq<char>,
        emergency: bool,
        now: i64,
    ) -> LedgerView {
        self.with_request(
            id,
            decided_row(
                self.request(id).unwrap(),
                decision,
                stored_note(trimmed(note), emergency),
                now,
            ),
        ).with_log(parked_entry(id, decision_reason(decision, emergency), actor, now))
    }

    /// What comes of processing a held request: the decision is recorded and
    /// the request resumed, or neither.
    pub open spec fn process_result(
        self,
        id: i64,
        windows: RouteWalletEligibility,
        note: Seq<char>,
        actor: Seq<char>,
        now: i64,
    ) -> Result<ResumeManualReviewOutcome, LedgerErrorView> {
        match self.decision_result(id, OperatorDecision::Process, note, false, now) {
            Err(e) => Err(e@),
            Ok(_) => {
                let m = self.decided(id, OperatorDecision::Process, note, actor, false, now);
                let d = self.request(id).unwrap().direction;
                match d {
                    Direction::SolToGlc | Direction::RhnToGlc => m.resume_inbound(d, id, windows),
                    Direction::SolToRhn | Direction::RhnToSol => m.resume_cross(d, id, windows),
                    Direction::GlcToSol | Direction::GlcToRhn => seen(
                        unrecoverable(id, ReviewRefusal::NoResumePath(d)),
                    ),
                }
            },
        }
    }

    /// The ledger after a held request was processed.
    pub open spec fn after_process(
        self,
        id: i64,
        windows: RouteWalletEligibility,
        note: Seq<char>,
        actor: Seq<char>,
        now: i64,
    ) -> LedgerView {
        let m = self.decided(id, OperatorDecision::Process, note, actor, false, now);
        let d = self.request(id).unwrap().direction;
        match self.process_result(id, windows, note, actor, now) {
            Err(_) => self,
            Ok(ResumeManualReviewOutcome::AlreadyResumed { .. }) => m,
            Ok(ResumeManualReviewOutcome::Resumed) => match d {
                Direction::SolToGlc | Direction::RhnToGlc => m.resumed_inbound(
                    id,
                    note,
                    actor,
                    now,
                ),
                _ => m.resumed_cross(id, note, actor, now),
            },
        }
    }
}

impl BridgeRequest {
    /// Whether an operator or the burst rule holds this request.
    pub fn is_held(&self) -> (r: bool)
        ensures
            r == held()(self@),
    {
        self.auto_resume_hold_note.is_some() || !matches!(self.manual_review_disposition, ManualReviewDisposition::Normal)
    }

    /// Whether the minimum hold has elapsed.
    pub fn review_available(&self, now: i64) -> (r: bool)
        ensures
            r == review_available(self@, now),
    {
        match self.review_after {
            Some(t) => now >= t,
            None => true,
        }
    }
}

impl Ledger {
    fn refuse_unless_holdable(&self, id: i64) -> (r: Result<ManualReviewDisposition, LedgerError>)
        ensures
            r == self@.holdable(id),
    {
        let i = match self.find_request(id) {
            Some(i) => i,
            None => {
                return Err(LedgerError::RequestNotFound(id));
            },
        };
        let q = &self.requests[i];
        if !matches!(q.state, RequestState::ManualReview) {
            return Err(
                LedgerError::ManualReviewNotRecoverable {
                    id,
                    detail: ReviewRefusal::NotManualReview(q.state),
                },
            );
        }
        if q.destination_txid.is_some() {
            return Err(
                LedgerError::ManualReviewNotRecoverable {
                    id,
                    detail: ReviewRefusal::DestinationTransactionExists,
                },
            );
        }
        if self.has_payout(id) || any_where(
            &self.robinhood_txs,
            |t: &RobinhoodTxRow| -> (b: bool) ensures b == rhn_payment_for(id)(t@) {
                t.request_id == Some(id) && t.kind != RobinhoodTxKind::Refund
            },
            Ghost(rhn_payment_for(id)),
        ) {
            return Err(
                LedgerError::ManualReviewNotRecoverable { id, detail: ReviewRefusal::PayoutExists },
            );
        }
        Ok(q.manual_review_disposition)
    }

    fn refund_lifecycle_exists(&self, id: i64) -> (r: bool)
        ensures
            r == self@.refund_begun_anywhere(id),
    {
        proof {
            crate::table::lemma_first_row_is_first(self@.solana_refunds, sol_refund_for(id));
        }
        self.find_solana_refund(id).is_some() || any_where(
            &self.goldcoin_refunds,
            |p: &GoldcoinRefundRow| -> (b: bool) ensures b == glc_refund_for(id)(p@) {
                p.request_id == id
            },
            Ghost(glc_refund_for(id)),
        ) || self.has_rhn_tx(id, RobinhoodTxKind::Refund)
    }

    /// Holds a parked request until an operator ends the hold. Holding it
    /// again replaces the note and the time; a burst hold is not replaced.
    pub fn set_manual_review_hold(
        &mut self,
        request_id: i64,
        review_after: Option<i64>,
        note: &str,
        actor: &str,
        now: i64,
    ) -> (r: Result<(), LedgerError>)
        ensures
            r == old(self)@.hold_result(request_id, note@),
            final(self)@ == (if r is Ok {
                old(self)@.with_request(
                    request_id,
                    operator_held(
                        old(self)@.request(request_id).unwrap(),
                        review_after,
                        trimmed(note@),
                        actor@,
                        now,
                    ),
                ).with_log(parked_entry(request_id, "auto_resume_hold"@, actor@, now))
            } else {
                old(self)@
            }),
    {
        let text = trim(note);
        proof {
            lemma_blank_trims_to_nothing(note@);
        }
        if text.unicode_len() == 0 {
            return Err(
                LedgerError::ManualReviewNotRecoverable {
                    id: request_id,
                    detail: ReviewRefusal::EmptyNote,
                },
            );
        }
        match self.refuse_unless_holdable(request_id) {
            Err(e) => {
                return Err(e);
            },
            Ok(ManualReviewDisposition::RapidBurstHold) => {
                return Err(
                    LedgerError::ManualReviewNotRecoverable {
                        id: request_id,
                        detail: ReviewRefusal::RapidBurstNotReplaced,
                    },
                );
            },
            Ok(_) => {},
        }
        match self.find_request(request_id) {
            Some(i) => {
                let ghost l0 = self@;
                let started = self.requests[i].hold_started_at;
                self.requests[i].auto_resume_hold_note = Some(text.to_owned());
                self.requests[i].auto_resume_hold_until = review_after;
                self.requests[i].manual_review_disposition = ManualReviewDisposition::OperatorHold;
                self.requests[i].hold_reason = Some("operator_hold".to_owned());
                self.requests[i].held_by = Some(actor.to_owned());
                self.requests[i].hold_started_at = match started {
                    Some(t) => Some(t),
                    None => Some(now),
                };
                self.requests[i].review_after = review_after;
                self.requests[i].operator_decision = None;
                self.requests[i].operator_decision_at = None;
                self.requests[i].operator_note = None;
                proof {
                    assert(self@.requests =~= l0.requests.update(
                        i as int,
                        operator_held(
                            l0.requests[i as int],
                            review_after,
                            trimmed(note@),
                            actor@,
                            now,
                        ),
                    ));
                }
                self.log_transition(
                    request_id,
                    Some(RequestState::ManualReview),
                    RequestState::ManualReview,
                    now,
                    Some("auto_resume_hold"),
                    actor,
                );
            },
            None => {},
        }
        Ok(())
    }

    /// Ends an operator's hold. Returns whether there was one; a burst hold
    /// cannot be ended so.
    pub fn clear_manual_review_hold(
        &mut self,
        request_id: i64,
        note: &str,
        actor: &str,
        now: i64,
    ) -> (r: Result<bool, LedgerError>)
        ensures
            r == old(self)@.release_result(request_id),
            final(self)@ == (if r == Ok::<bool, LedgerError>(true) {
                old(self)@.with_request(
                    request_id,
                    released(old(self)@.request(request_id).unwrap(), trimmed(note@), now),
                ).with_log(parked_entry(request_id, "auto_resume_hold_released"@, actor@, now))
            } else {
                old(self)@
            }),
    {
        let text = trim(note);
        let i = match self.find_request(request_id) {
            Some(i) => i,
            None => {
                return Err(LedgerError::RequestNotFound(request_id));
            },
        };
        if matches!(self.requests[i].manual_review_disposition, ManualReviewDisposition::RapidBurstHold) {
            return Err(
                LedgerError::ManualReviewNotRecoverable {
                    id: request_id,
                    detail: ReviewRefusal::RapidBurstNotReleasable,
                },
            );
        }
        if !self.requests[i].is_held() {
            return Ok(false);
        }
        let ghost l0 = self@;
        self.requests[i].auto_resume_hold_note = None;
        self.requests[i].auto_resume_hold_until = None;
        self.requests[i].manual_review_disposition = ManualReviewDisposition::Normal;
        self.requests[i].operator_decision = Some(OperatorDecision::Release);
        self.requests[i].operator_decision_at = Some(now);
        self.requests[i].operator_note = if text.unicode_len() == 0 {
            None
        } else {
            Some(text.to_owned())
        };
        proof {
            assert(self@.requests =~= l0.requests.update(
                i as int,
                released(l0.requests[i as int], trimmed(note@), now),
            ));
        }
        self.log_transition(
            request_id,
            Some(RequestState::ManualReview),
            RequestState::ManualReview,
            now,
            Some("auto_resume_hold_released"),
            actor,
        );
        Ok(true)
    }

    /// The requests that are held or once were, whatever became of them, lower
    /// numbers first.
    pub fn held_manual_review_requests(&self) -> (r: Vec<BridgeRequest>)
        ensures
            sorted_by(values(r@), id_order()),
            values(r@).to_multiset() == select_rows(self@.requests, ever_held()).to_multiset(),
    {
        let rows = collect_where(
            &self.requests,
            |q: &BridgeRequest| -> (b: bool) ensures b == ever_held()(q@) {
                q.is_held() || q.hold_started_at.is_some()
            },
            |q: &BridgeRequest| -> (d: BridgeRequest) ensures d@ == q@ { q.clone() },
            Ghost(ever_held()),
            Ghost(|q: RequestView| q),
        );
        proof {
            let sel = select_rows(self@.requests, ever_held());
            assert(sel.map_values(|q: RequestView| q) =~= sel);
        }
        sort_rows(
            rows,
            |a: &BridgeRequest, b: &BridgeRequest| -> (r: bool) ensures r == id_order()(a@, b@) {
                a.id <= b.id
            },
            Ghost(id_order()),
        )
    }

    fn check_decision(
        &self,
        id: i64,
        decision: OperatorDecision,
        note: &str,
        emergency: bool,
        now: i64,
    ) -> (r: Result<usize, LedgerError>)
        ensures
            match r {
                Ok(i) => self@.decision_result(id, decision, note@, emergency, now) is Ok
                    && self.at_row(id, i),
                Err(e) => self@.decision_result(id, decision, note@, emergency, now) == Err::<
                    (),
                    LedgerError,
                >(e),
            },
    {
        if crate::table::is_blank(note) {
            return Err(
                LedgerError::ManualReviewNotRecoverable { id, detail: ReviewRefusal::EmptyNote },
            );
        }
        if matches!(decision, OperatorDecision::Release) {
            return Err(
                LedgerError::ManualReviewNotRecoverable {
                    id,
                    detail: ReviewRefusal::ReleaseIsNoDecision,
                },
            );
        }
        if emergency && !matches!(decision, OperatorDecision::Refund) {
            return Err(
                LedgerError::ManualReviewNotRecoverable {
                    id,
                    detail: ReviewRefusal::EmergencyIsForRefunds,
                },
            );
        }
        match self.refuse_unless_holdable(id) {
            Err(e) => {
                return Err(e);
            },
            Ok(_) => {},
        }
        let i = match self.find_request(id) {
            Some(i) => i,
            None => {
                return Err(LedgerError::RequestNotFound(id));
            },
        };
        let q = &self.requests[i];
        if !q.is_held() {
            return Err(
                LedgerError::ManualReviewNotRecoverable {
                    id,
                    detail: ReviewRefusal::NotHeld(q.manual_review_disposition),
                },
            );
        }
        if self.refund_lifecycle_exists(id) {
            return Err(
                LedgerError::ManualReviewNotRecoverable { id, detail: ReviewRefusal::RefundBegun },
            );
        }
        if matches!(q.manual_review_disposition, ManualReviewDisposition::RapidBurstHold)
            && !q.review_available(now) && !emergency {
            return Err(
                LedgerError::ManualReviewNotRecoverable {
                    id,
                    detail: ReviewRefusal::ReviewNotElapsed { review_after: q.review_after, now },
                },
            );
        }
        Ok(i)
    }

    fn write_decision(
        &mut self,
        id: i64,
        i: usize,
        decision: OperatorDecision,
        note: &str,
        actor: &str,
        emergency: bool,
        now: i64,
    )
        requires
            old(self).at_row(id, i),
        ensures
            final(self)@ == old(self)@.decided(id, decision, note@, actor@, emergency, now),
            final(self).at_row(id, i),
    {
        let text = trim(note);
        let stored: String = if emergency {
            concat("EMERGENCY (before review_after): ", text)
        } else {
            text.to_owned()
        };
        let process = matches!(decision, OperatorDecision::Process);
        let ghost l0 = self@;
        self.requests[i].operator_decision = Some(decision);
        self.requests[i].operator_decision_at = Some(now);
        self.requests[i].operator_note = Some(stored);
        if process {
            self.requests[i].auto_resume_hold_note = None;
            self.requests[i].auto_resume_hold_until = None;
        }
        proof {
            let row = decided_row(
                l0.requests[i as int],
                decision,
                stored_note(trimmed(note@), emergency),
                now,
            );
            assert(self@.requests =~= l0.requests.update(i as int, row));
            lemma_with_request(l0, id, row);
        }
        self.log_transition(
            id,
            Some(RequestState::ManualReview),
            RequestState::ManualReview,
            now,
            Some(
                if process {
                    "operator_decision_process"
                } else if emergency {
                    "operator_decision_refund_emergency"
                } else {
                    "operator_decision_refund"
                },
            ),
            actor,
        );
    }

    /// Records what an operator decided about a held request. Returns the
    /// request as it was before.
    pub fn record_operator_decision(
        &mut self,
        request_id: i64,
        decision: OperatorDecision,
        note: &str,
        actor: &str,
        emergency: bool,
        now: i64,
    ) -> (r: Result<BridgeRequest, LedgerError>)
        ensures
            match r {
                Ok(before) => {
                    &&& old(self)@.decision_result(
                        request_id,
                        decision,
                        note@,
                        emergency,
                        now,
                    ) is Ok
                    &&& old(self)@.request(request_id) == Some(before@)
                    &&& final(self)@ == old(self)@.decided(
                        request_id,
                        decision,
                        note@,
                        actor@,
                        emergency,
                        now,
                    )
                },
                Err(e) => {
                    &&& old(self)@.decision_result(request_id, decision, note@, emergency, now)
                        == Err::<(), LedgerError>(e)
                    &&& final(self)@ == old(self)@
                },
            },
    {
        let i = match self.check_decision(request_id, decision, note, emergency, now) {
            Ok(i) => i,
            Err(e) => {
                return Err(e);
            },
        };
        let before = self.requests[i].clone();
        self.write_decision(request_id, i, decision, note, actor, emergency, now);
        Ok(before)
    }

    fn undo_decision(&mut self, i: usize, before: BridgeRequest)
        requires
            i < old(self).requests@.len(),
            old(self).state_log@.len() > 0,
        ensures
            final(self)@ == (LedgerView {
                requests: old(self)@.requests.update(i as int, before@),
                state_log: old(self)@.state_log.drop_last(),
                ..old(self)@
            }),
    {
        let ghost l0 = self@;
        let ghost v = before@;
        self.requests.set(i, before);
        let _ = self.state_log.pop();
        proof {
            assert(self@.requests =~= l0.requests.update(i as int, v));
            assert(self@.state_log =~= l0.state_log.drop_last());
        }
    }

    /// Decides to process a held request and resumes it. Where it cannot be
    /// resumed, the decision is not recorded either.
    pub fn process_held_manual_review(
        &mut self,
        request_id: i64,
        windows: RouteWalletEligibility,
        note: &str,
        actor: &str,
        now: i64,
    ) -> (r: Result<ResumeManualReviewOutcome, LedgerError>)
        ensures
            seen(r) == old(self)@.process_result(request_id, windows, note@, actor@, now),
            final(self)@ == old(self)@.after_process(request_id, windows, note@, actor@, now),
    {
        let i = match self.check_decision(
            request_id,
            OperatorDecision::Process,
            note,
            false,
            now,
        ) {
            Ok(i) => i,
            Err(e) => {
                return Err(e);
            },
        };
        let ghost l0 = self@;
        let direction = self.requests[i].direction;
        if direction.source_is_goldcoin() {
            return Err(
                LedgerError::ManualReviewNotRecoverable {
                    id: request_id,
                    detail: ReviewRefusal::NoResumePath(direction),
                },
            );
        }
        let before = self.requests[i].clone();
        self.write_decision(
            request_id,
            i,
            OperatorDecision::Process,
            note,
            actor,
            false,
            now,
        );
        let ghost m = self@;
        let outcome = if matches!(direction, Direction::SolToGlc | Direction::RhnToGlc) {
            self.resume_manual_review_inbound(direction, request_id, windows, note, actor, now)
        } else {
            self.resume_manual_review_cross_route(direction, request_id, windows, note, actor, now)
        };
        if outcome.is_err() {
            assert(self@ == m);
            assert(self@.requests.len() == self.requests@.len());
            assert(self@.state_log.len() == self.state_log@.len());
            self.undo_decision(i, before);
            proof {
                assert(self@.requests =~= l0.requests);
                assert(self@.state_log =~= l0.state_log);
            }
        }
        outcome
    }

    /// Why a held request is not refunded.
    pub(crate) fn refund_hold_blocker(&self, id: i64) -> (r: Option<HoldBlocker>)
        ensures
            r == self@.hold_blocker(id),
    {
        match self.find_request(id) {
            None => None,
            Some(i) => {
                let q = &self.requests[i];
                if !q.is_held() {
                    return None;
                }
                match q.operator_decision {
                    Some(OperatorDecision::Refund) => None,
                    Some(decision) => Some(
                        HoldBlocker::DecidedOtherwise {
                            disposition: q.manual_review_disposition,
                            decision,
                        },
                    ),
                    None => Some(
                        HoldBlocker::Undecided {
                            disposition: q.manual_review_disposition,
                            review_after: q.review_after,
                        },
                    ),
                }
            },
        }
    }

    /// Refuses to refund a held request that no operator decided to refund.
    pub fn refuse_refund_unless_decided(&self, request_id: i64) -> (r: Result<(), LedgerError>)
        ensures
            r == (match self@.hold_blocker(request_id) {
                None => Ok::<(), LedgerError>(()),
                Some(b) => Err(
                    LedgerError::RefundNotEligible {
                        id: request_id,
                        detail: RefundRefusal::Held(b),
                    },
                ),
            }),
    {
        match self.refund_hold_blocker(request_id) {
            None => Ok(()),
            Some(b) => Err(
                LedgerError::RefundNotEligible { id: request_id, detail: RefundRefusal::Held(b) },
            ),
        }
    }
}

impl LedgerView {
    /// Why a held request is not refunded; a request that is not there is not
    /// held.
    pub open spec fn hold_blocker(self, id: i64) -> Option<HoldBlocker> {
        match self.request(id) {
            Some(q) => refund_blocker(q),
            None => None,
        }
    }
}

/// A hold touches the holding columns of one request and nothing else: no
/// state, no note, no reserve, no other request.
pub proof fn law_a_hold_touches_nothing_else(
    l: LedgerView,
    id: i64,
    review_after: Option<i64>,
    note: Seq<char>,
    actor: Seq<char>,
    now: i64,
    other: i64,
)
    requires
        l.hold_result(id, note) is Ok,
    ensures
        ({
            let q = l.request(id).unwrap();
            let m = l.with_request(
                id,
                operator_held(q, review_after, trimmed(note), actor, now),
            ).with_log(parked_entry(id, "auto_resume_hold"@, actor, now));
            &&& m.reserves == l.reserves
            &&& m.request(id).unwrap().state == q.state
            &&& m.request(id).unwrap().manual_review_note == q.manual_review_note
            &&& m.request(id).unwrap().net_destination_atomic == q.net_destination_atomic
            &&& other != id ==> m.request(other) == l.request(other)
            &&& q.hold_started_at is Some ==> m.request(id).unwrap().hold_started_at
                == q.hold_started_at
        }),
{
    let q = l.request(id).unwrap();
    let row = operator_held(q, review_after, trimmed(note), actor, now);
    let k = l.with_request(id, row);
    let m = k.with_log(parked_entry(id, "auto_resume_hold"@, actor, now));
    lemma_request_id(l, id);
    lemma_with_request(l, id, row);
    assert(m.requests == k.requests);
    assert(m.request(id) == k.request(id));
    assert(m.request(other) == k.request(other));
}

/// Holds leave their trace: a request that was held, and one that is marked as
/// having been, is listed still after the hold is released.
pub proof fn law_a_released_hold_stays_listed(
    q: RequestView,
    review_after: Option<i64>,
    note: Seq<char>,
    actor: Seq<char>,
    held_at: i64,
    reply: Seq<char>,
    now: i64,
)
    ensures
        ({
            let h = operator_held(q, review_after, note, actor, held_at);
            &&& held()(h) && ever_held()(h)
            &&& !held()(released(h, reply, now)) && ever_held()(released(h, reply, now))
            &&& q.hold_started_at is Some ==> ever_held()(released(q, reply, now))
        }),
{
}

/// The list of holds names each request that is held or once was, no other and
/// none twice, and numbers strictly rise.
pub proof fn law_the_list_of_holds_is_exact(l: LedgerView, list: Seq<RequestView>)
    requires
        l.numbered(),
        sorted_by(list, id_order()),
        list.to_multiset() == select_rows(l.requests, ever_held()).to_multiset(),
    ensures
        forall|i: int, j: int|
            0 <= i < j < list.len() ==> (#[trigger] list[i]).id < (#[trigger] list[j]).id,
        forall|q: RequestView| #[trigger]
            list.contains(q) <==> l.requests.contains(q) && ever_held()(q),
{
    let sel = select_rows(l.requests, ever_held());
    lemma_selects_once(l.requests, ever_held());
    sel.lemma_multiset_has_no_duplicates();
    list.lemma_multiset_has_no_duplicates_conv();
    list.to_multiset_ensures();
    sel.to_multiset_ensures();
    assert forall|q: RequestView| #[trigger] list.contains(q) implies l.requests.contains(q)
        && ever_held()(q) by {
        assert(list.to_multiset().count(q) > 0);
        assert(sel.contains(q));
        let j = choose|j: int| 0 <= j < sel.len() && sel[j] == q;
        lemma_selected(l.requests, ever_held(), j);
    }
    assert forall|q: RequestView| l.requests.contains(q) && ever_held()(q) implies
        #[trigger] list.contains(q) by {
        let i = choose|i: int| 0 <= i < l.requests.len() && l.requests[i] == q;
        lemma_selects_all(l.requests, ever_held(), i);
        assert(sel.to_multiset().count(q) > 0);
    }
    assert forall|i: int, j: int| 0 <= i < j < list.len() implies (#[trigger] list[i]).id < (
    #[trigger] list[j]).id by {
        let a = list[i];
        let b = list[j];
        assert(list.contains(a) && list.contains(b));
        assert(a != b);
        assert(id_order()(a, b));
        let x = choose|x: int| 0 <= x < l.requests.len() && l.requests[x] == a;
        let y = choose|y: int| 0 <= y < l.requests.len() && l.requests[y] == b;
        assert(x != y);
        assert(l.requests[x].id != l.requests[y].id);
    }
}

/// A request that was held and then released is on the list of holds, with
/// every other that is held or once was, each once and in the order of their
/// numbers.
pub proof fn law_a_release_keeps_its_place_on_the_list(
    l: LedgerView,
    id: i64,
    review_after: Option<i64>,
    note: Seq<char>,
    actor: Seq<char>,
    held_at: i64,
    reply: Seq<char>,
    by: Seq<char>,
    now: i64,
    list: Seq<RequestView>,
)
    requires
        l.numbered(),
        l.hold_result(id, note) is Ok,
        ({
            let h = operator_held(l.request(id).unwrap(), review_after, trimmed(note), actor, held_at);
            let m = l.with_request(id, h).with_log(
                parked_entry(id, "auto_resume_hold"@, actor, held_at),
            );
            let k = m.with_request(id, released(h, trimmed(reply), now)).with_log(
                parked_entry(id, "auto_resume_hold_released"@, by, now),
            );
            &&& sorted_by(list, id_order())
            &&& list.to_multiset() == select_rows(k.requests, ever_held()).to_multiset()
        }),
    ensures
        ({
            let h = operator_held(l.request(id).unwrap(), review_after, trimmed(note), actor, held_at);
            let m = l.with_request(id, h).with_log(
                parked_entry(id, "auto_resume_hold"@, actor, held_at),
            );
            let r = released(h, trimmed(reply), now);
            let k = m.with_request(id, r).with_log(
                parked_entry(id, "auto_resume_hold_released"@, by, now),
            );
            &&& m.request(id) == Some(h)
            &&& m.release_result(id) == Ok::<bool, LedgerError>(true)
            &&& k.request(id) == Some(r)
            &&& list.contains(r)
            &&& forall|q: RequestView| #[trigger]
                list.contains(q) <==> k.requests.contains(q) && ever_held()(q)
            &&& forall|i: int, j: int|
                0 <= i < j < list.len() ==> (#[trigger] list[i]).id < (#[trigger] list[j]).id
        }),
{
    let q = l.request(id).unwrap();
    let h = operator_held(q, review_after, trimmed(note), actor, held_at);
    let m0 = l.with_request(id, h);
    let m = m0.with_log(parked_entry(id, "auto_resume_hold"@, actor, held_at));
    let r = released(h, trimmed(reply), now);
    let k0 = m.with_request(id, r);
    let k = k0.with_log(parked_entry(id, "auto_resume_hold_released"@, by, now));
    lemma_request_id(l, id);
    lemma_with_request(l, id, h);
    law_rewriting_keeps_numbers_apart(l, h);
    assert(m.requests == m0.requests);
    assert(m.request(id) == m0.request(id));
    assert(m.numbered());
    lemma_with_request(m, id, r);
    law_rewriting_keeps_numbers_apart(m, r);
    assert(k.requests == k0.requests);
    assert(k.request(id) == k0.request(id));
    assert(k.numbered());
    law_the_list_of_holds_is_exact(k, list);
    lemma_first_row_is_first(k.requests, by_id(id));
    assert(k.requests.contains(r));
}

/// A held request stays out of every resume until its hold is released or
/// decided.
pub proof fn law_a_hold_stops_resuming(
    l: LedgerView,
    id: i64,
    review_after: Option<i64>,
    note: Seq<char>,
    actor: Seq<char>,
    now: i64,
    expected: Direction,
    windows: RouteWalletEligibility,
)
    requires
        l.hold_result(id, note) is Ok,
    ensures
        ({
            let m = l.with_request(
                id,
                operator_held(l.request(id).unwrap(), review_after, trimmed(note), actor, now),
            ).with_log(parked_entry(id, "auto_resume_hold"@, actor, now));
            &&& m.resume_inbound(expected, id, windows) is Err
            &&& m.resume_cross(expected, id, windows) is Err
            &&& m.hold_blocker(id) is Some
        }),
{
    let row = operator_held(l.request(id).unwrap(), review_after, trimmed(note), actor, now);
    let k = l.with_request(id, row);
    let m = k.with_log(parked_entry(id, "auto_resume_hold"@, actor, now));
    lemma_request_id(l, id);
    lemma_with_request(l, id, row);
    assert(m.requests == k.requests);
    assert(m.request(id) == Some(row));
}

/// A burst hold ends only with a decision: it is neither replaced nor
/// released.
pub proof fn law_burst_hold_ends_with_a_decision_only(l: LedgerView, id: i64, note: Seq<char>)
    requires
        l.request(id) matches Some(q) && q.manual_review_disposition
            == ManualReviewDisposition::RapidBurstHold,
    ensures
        l.hold_result(id, note) is Err,
        l.release_result(id) is Err,
{
}

/// A payout is never brought forward: before the minimum hold has elapsed, a
/// burst hold can only be refunded, and only in an emergency.
pub proof fn law_only_refunds_come_early(
    l: LedgerView,
    id: i64,
    decision: OperatorDecision,
    note: Seq<char>,
    emergency: bool,
    now: i64,
)
    requires
        l.request(id) matches Some(q) && q.manual_review_disposition
            == ManualReviewDisposition::RapidBurstHold && !review_available(q, now),
        l.decision_result(id, decision, note, emergency, now) is Ok,
    ensures
        emergency,
        decision == OperatorDecision::Refund,
{
}

} // verus!
