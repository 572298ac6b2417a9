//! When a parked request is held, decided, released and resumed, and what that
//! changes.
use vstd::prelude::*;
use crate::error::{HoldBlocker, LedgerError, LedgerErrorView, ReviewRefusal};
use crate::fold_laws::gate_after;
use crate::holds::{
    decided_row, glc_refund_for, operator_held, released, rhn_payment_for, stored_note,
};
use crate::ledger::{LedgerView, ReserveRow, lemma_request_id, lemma_with_request};
use crate::reasons::recoverable_reason;
use crate::resume::{
    ResumeManualReviewOutcome, hold_refusal, payout_for, resume_line, rhn_tx_for, sol_refund_for,
    window_error,
};
use crate::rows::{LogEntry, RequestView};
use crate::table::{
    any_row, blank, first_row, is_first, lemma_count_bound, lemma_first_row, trimmed,
};
use crate::types::{
    Chain, Direction, ManualReviewDisposition, OperatorDecision, RequestState, ReserveDirection,
    RobinhoodTxKind, Route, RouteWalletEligibility, WalletRole,
};

verus! {

/// Nobody holds this request back: no operator's hold, and no other hold that
/// waits for a decision.
pub open spec fn let_go(q: RequestView) -> bool {
    q.auto_resume_hold_note is None && (q.manual_review_disposition
        == ManualReviewDisposition::Normal || q.operator_decision is Some)
}

/// A Solana refund of this request has begun.
pub open spec fn solana_refund_begun(l: LedgerView, id: i64) -> bool {
    exists|i: int| 0 <= i < l.solana_refunds.len() && (#[trigger] l.solana_refunds[i]).request_id == id
}

/// An operation of this kind on Robinhood belongs to this request.
pub open spec fn robinhood_op(l: LedgerView, id: i64, kind: RobinhoodTxKind) -> bool {
    exists|i: int|
        0 <= i < l.robinhood_txs.len() && (#[trigger] l.robinhood_txs[i]).request_id == Some(id)
            && l.robinhood_txs[i].kind == kind
}

/// A Goldcoin payout belongs to this request.
pub open spec fn goldcoin_payout(l: LedgerView, id: i64) -> bool {
    exists|i: int| 0 <= i < l.payouts.len() && (#[trigger] l.payouts[i]).request_id == id
}

/// A Goldcoin refund of this request has begun.
pub open spec fn goldcoin_refund_begun(l: LedgerView, id: i64) -> bool {
    exists|i: int|
        0 <= i < l.goldcoin_refunds.len() && (#[trigger] l.goldcoin_refunds[i]).request_id == id
}

/// What is left of a reserve that may be promised.
pub open spec fn room(r: ReserveRow) -> int {
    r.total_reserve_balance - r.protected_minimum - r.reserved_liquidity
}

/// A reserve takes one more promise of this much and keeps its buffer.
pub open spec fn takes(r: ReserveRow, net: int) -> bool {
    &&& i64::MIN <= room(r) <= i64::MAX
    &&& net <= room(r)
    &&& r.admission_buffer_atomic <= 0 || room(r) - net >= r.admission_buffer_atomic
    &&& i64::MIN <= r.reserved_liquidity + net <= i64::MAX
    &&& i64::MIN <= r.pending_obligations + net <= i64::MAX
}

proof fn lemma_rows(l: LedgerView, id: i64)
    ensures
        first_row(l.solana_refunds, sol_refund_for(id)) is Some
            <==> solana_refund_begun(l, id),
        any_row(l.solana_refunds, sol_refund_for(id))
            <==> solana_refund_begun(l, id),
        forall|kind: RobinhoodTxKind|
            (#[trigger] first_row(
                l.robinhood_txs,
                rhn_tx_for(id, kind),
            )) is Some <==> robinhood_op(l, id, kind),
        forall|kind: RobinhoodTxKind| #[trigger]
            any_row(l.robinhood_txs, rhn_tx_for(id, kind))
                <==> robinhood_op(l, id, kind),
        any_row(l.payouts, payout_for(id)) <==> goldcoin_payout(l, id),
        any_row(l.goldcoin_refunds, glc_refund_for(id))
            <==> goldcoin_refund_begun(l, id),
{
    let s = sol_refund_for(id);
    if any_row(l.solana_refunds, s) {
        let i = choose|i: int| 0 <= i < l.solana_refunds.len() && s(#[trigger] l.solana_refunds[i]);
        assert(l.solana_refunds[i].request_id == id);
    }
    if solana_refund_begun(l, id) {
        let i = choose|i: int|
            0 <= i < l.solana_refunds.len() && (#[trigger] l.solana_refunds[i]).request_id == id;
        assert(s(l.solana_refunds[i]));
    }
    let p = payout_for(id);
    if any_row(l.payouts, p) {
        let i = choose|i: int| 0 <= i < l.payouts.len() && p(#[trigger] l.payouts[i]);
        assert(l.payouts[i].request_id == id);
    }
    if goldcoin_payout(l, id) {
        let i = choose|i: int| 0 <= i < l.payouts.len() && (#[trigger] l.payouts[i]).request_id == id;
        assert(p(l.payouts[i]));
    }
    let g = glc_refund_for(id);
    if any_row(l.goldcoin_refunds, g) {
        let i = choose|i: int|
            0 <= i < l.goldcoin_refunds.len() && g(#[trigger] l.goldcoin_refunds[i]);
        assert(l.goldcoin_refunds[i].request_id == id);
    }
    if goldcoin_refund_begun(l, id) {
        let i = choose|i: int|
            0 <= i < l.goldcoin_refunds.len() && (#[trigger] l.goldcoin_refunds[i]).request_id == id;
        assert(g(l.goldcoin_refunds[i]));
    }
    assert forall|kind: RobinhoodTxKind| #[trigger]
        any_row(l.robinhood_txs, rhn_tx_for(id, kind))
            <==> robinhood_op(l, id, kind) by {
        let t = rhn_tx_for(id, kind);
        if any_row(l.robinhood_txs, t) {
            let i = choose|i: int| 0 <= i < l.robinhood_txs.len() && t(#[trigger] l.robinhood_txs[i]);
            assert(l.robinhood_txs[i].request_id == Some(id));
        }
        if robinhood_op(l, id, kind) {
            let i = choose|i: int|
                0 <= i < l.robinhood_txs.len() && (#[trigger] l.robinhood_txs[i]).request_id
                    == Some(id) && l.robinhood_txs[i].kind == kind;
            assert(t(l.robinhood_txs[i]));
        }
    }
    assert forall|kind: RobinhoodTxKind|
        (#[trigger] first_row(
            l.robinhood_txs,
            rhn_tx_for(id, kind),
        )) is Some <==> robinhood_op(l, id, kind) by {
        assert(any_row(l.robinhood_txs, rhn_tx_for(id, kind))
            <==> robinhood_op(l, id, kind));
    }
}

/// A deposit for Goldcoin resumes exactly where it is parked for a reason that
/// passes, is final, is held by nobody, has its wallet on record, was neither paid
/// nor begun to be refunded, no wallet has to wait, the pool has more outputs than
/// its floor, and the reserve takes it and keeps its buffer.
pub proof fn law_a_deposit_for_goldcoin_resumes_iff_nothing_stands_in_its_way(
    l: LedgerView,
    expected: Direction,
    id: i64,
    windows: RouteWalletEligibility,
    q: RequestView,
    r: ReserveRow,
)
    requires
        expected == Direction::SolToGlc || expected == Direction::RhnToGlc,
        l.request(id) == Some(q),
        l.reserves.goldcoin == Some(r),
        l.vault_utxos.len() <= i64::MAX,
    ensures
        l.resume_inbound(expected, id, windows) == Ok::<ResumeManualReviewOutcome, LedgerErrorView>(
            ResumeManualReviewOutcome::Resumed,
        ) <==> {
            &&& q.direction == expected
            &&& q.state == RequestState::ManualReview
            &&& q.manual_review_note matches Some(n) && recoverable_reason(n)
            &&& q.source_finalized_at is Some
            &&& q.source_wallet matches Some(w) && w.len() > 0
            &&& let_go(q)
            &&& q.destination_txid is None
            &&& !goldcoin_payout(l, id)
            &&& expected == Direction::SolToGlc ==> !solana_refund_begun(l, id)
            &&& expected == Direction::RhnToGlc ==> !robinhood_op(l, id, RobinhoodTxKind::Refund)
            &&& windows.source_retry_after is None && windows.destination_retry_after is None
            &&& r.utxo_pool_min_available_count == 0 || l.utxo_count(l.spendable())
                > r.utxo_pool_min_available_count
            &&& takes(r, q.net_destination_atomic as int)
        },
{
    lemma_rows(l, id);
    lemma_count_bound(l.vault_utxos, l.spendable());
}

/// A deposit between Solana and Robinhood resumes under the same conditions, out of
/// the reserve that it draws on, which must owe it something; no output of the vault
/// is asked for, and any payment on Robinhood stops it.
pub proof fn law_a_cross_deposit_resumes_iff_nothing_stands_in_its_way(
    l: LedgerView,
    expected: Direction,
    id: i64,
    windows: RouteWalletEligibility,
    q: RequestView,
    r: ReserveRow,
)
    requires
        (expected == Direction::SolToRhn && l.reserves.robinhood == Some(r)) || (expected
            == Direction::RhnToSol && l.reserves.solana == Some(r)),
        l.request(id) == Some(q),
    ensures
        l.resume_cross(expected, id, windows) == Ok::<ResumeManualReviewOutcome, LedgerErrorView>(
            ResumeManualReviewOutcome::Resumed,
        ) <==> {
            &&& q.direction == expected
            &&& q.state == RequestState::ManualReview
            &&& q.manual_review_note matches Some(n) && recoverable_reason(n)
            &&& q.source_finalized_at is Some
            &&& q.source_wallet matches Some(w) && w.len() > 0
            &&& let_go(q)
            &&& q.destination_txid is None
            &&& q.net_destination_atomic > 0
            &&& !robinhood_op(l, id, RobinhoodTxKind::Payout)
            &&& expected == Direction::SolToRhn ==> !solana_refund_begun(l, id)
            &&& expected == Direction::RhnToSol ==> !robinhood_op(l, id, RobinhoodTxKind::Refund)
            &&& windows.source_retry_after is None && windows.destination_retry_after is None
            &&& takes(r, q.net_destination_atomic as int)
        },
{
    lemma_rows(l, id);
}

/// A resumed deposit is final, and the reserve that it draws on promises and owes
/// its payout. One for Goldcoin loses its note; one between Solana and Robinhood
/// keeps it, is reserved anew and moves its reserve's liquidity gate. Nothing else of
/// the request changes, no other request does, and the step is logged with its note
/// and actor.
pub proof fn law_a_resumed_deposit_is_promised(
    l: LedgerView,
    id: i64,
    note: Seq<char>,
    actor: Seq<char>,
    now: i64,
    other: i64,
    q: RequestView,
    r: ReserveRow,
)
    requires
        l.request(id) == Some(q),
        takes(r, q.net_destination_atomic as int),
        r.admission_reopen_atomic >= r.admission_buffer_atomic,
        other != id,
    ensures
        ({
            let net = q.net_destination_atomic;
            let m = l.resumed_inbound(id, note, actor, now);
            l.reserves.goldcoin == Some(r) ==> {
                &&& m.request(id) == Some(
                    RequestView {
                        state: RequestState::SourceFinalized,
                        manual_review_note: None,
                        ..q
                    },
                )
                &&& m.request(other) == l.request(other)
                &&& m.reserves.goldcoin == Some(
                    ReserveRow {
                        reserved_liquidity: (r.reserved_liquidity + net) as i64,
                        pending_obligations: (r.pending_obligations + net) as i64,
                        ..r
                    },
                )
                &&& m.reserves.solana == l.reserves.solana && m.reserves.robinhood
                    == l.reserves.robinhood
                &&& m.state_log.len() == l.state_log.len() + 1 && m.state_log.last() == (LogEntry {
                    request_id: id,
                    from_state: Some(RequestState::ManualReview),
                    to_state: RequestState::SourceFinalized,
                    at: now,
                    reason: Some(note),
                    actor,
                })
            }
        }),
        ({
            let net = q.net_destination_atomic;
            let m = l.resumed_cross(id, note, actor, now);
            let closed = gate_after(r);
            let after = Some(
                ReserveRow {
                    reserved_liquidity: (r.reserved_liquidity + net) as i64,
                    pending_obligations: (r.pending_obligations + net) as i64,
                    liquidity_admission_closed: closed,
                    liquidity_admission_closed_at: if closed == r.liquidity_admission_closed {
                        r.liquidity_admission_closed_at
                    } else {
                        Some(now)
                    },
                    ..r
                },
            );
            (q.direction == Direction::SolToRhn && l.reserves.robinhood == Some(r)) || (q.direction
                == Direction::RhnToSol && l.reserves.solana == Some(r)) ==> {
                &&& m.request(id) == Some(
                    RequestView {
                        state: RequestState::SourceFinalized,
                        reserved_at: Some(now),
                        ..q
                    },
                )
                &&& m.request(other) == l.request(other)
                &&& q.direction == Direction::SolToRhn ==> m.reserves.robinhood == after
                    && m.reserves.solana == l.reserves.solana
                &&& q.direction == Direction::RhnToSol ==> m.reserves.solana == after
                    && m.reserves.robinhood == l.reserves.robinhood
                &&& m.reserves.goldcoin == l.reserves.goldcoin
                &&& m.state_log.len() == l.state_log.len() + 1 && m.state_log.last().reason == Some(
                    note,
                ) && m.state_log.last().actor == actor
            }
        }),
{
    lemma_request_id(l, id);
    let a = RequestView { state: RequestState::SourceFinalized, manual_review_note: None, ..q };
    let b = RequestView { state: RequestState::SourceFinalized, reserved_at: Some(now), ..q };
    lemma_with_request(l, id, a);
    lemma_with_request(l, id, b);
    let m = l.resumed_inbound(id, note, actor, now);
    let k = l.resumed_cross(id, note, actor, now);
    assert(m.requests == l.with_request(id, a).requests);
    let g = l.with_next_gate(q.direction.spec_destination_reserve(), now);
    assert(g.requests == l.requests);
    assert(k.requests == l.with_request(id, b).requests);
    assert(m.request(other) == l.with_request(id, a).request(other));
    assert(k.request(other) == l.with_request(id, b).request(other));
}

/// A resume that a wallet's window stops names that wallet: the one that paid in, on
/// the chain that it paid on, before the one that is to be paid, on its chain, each
/// with its own moment.
pub proof fn law_a_window_names_the_wallet_that_waits(
    id: i64,
    q: RequestView,
    windows: RouteWalletEligibility,
)
    requires
        q.direction == Direction::SolToGlc || q.direction == Direction::SolToRhn,
        q.source_wallet is Some,
    ensures
        windows.source_retry_after matches Some(t) ==> window_error(id, q, windows)
            == Some(
            LedgerErrorView::WalletWindowActive {
                request_id: id,
                role: WalletRole::Source,
                chain: Chain::Solana,
                wallet: q.source_wallet.unwrap(),
                retry_after: t,
            },
        ),
        windows.source_retry_after is None ==> (windows.destination_retry_after matches Some(t)
            ==> window_error(id, q, windows) == Some(
            LedgerErrorView::WalletWindowActive {
                request_id: id,
                role: WalletRole::Destination,
                chain: if q.direction == Direction::SolToGlc {
                    Chain::Goldcoin
                } else {
                    Chain::Robinhood
                },
                wallet: q.recipient,
                retry_after: t,
            },
        )),
        windows.source_retry_after is None && windows.destination_retry_after is None
            ==> window_error(id, q, windows) is None,
{
}

/// An operator may hold exactly a request that is parked and has no payment of any
/// kind, with a note that says something, unless a burst holds it already.
pub proof fn law_what_is_parked_and_unpaid_may_be_held(l: LedgerView, id: i64, note: Seq<char>)
    ensures
        l.hold_result(id, note) is Ok <==> !blank(note) && (l.request(id) matches Some(q)
            && q.state == RequestState::ManualReview && q.destination_txid is None
            && q.manual_review_disposition != ManualReviewDisposition::RapidBurstHold)
            && !goldcoin_payout(l, id) && !(exists|i: int|
            0 <= i < l.robinhood_txs.len() && (#[trigger] l.robinhood_txs[i]).request_id == Some(id)
                && l.robinhood_txs[i].kind != RobinhoodTxKind::Refund),
{
    lemma_rows(l, id);
    lemma_payments(l, id);
}

proof fn lemma_payments(l: LedgerView, id: i64)
    ensures
        any_row(l.robinhood_txs, rhn_payment_for(id)) <==> exists|i: int|
            0 <= i < l.robinhood_txs.len() && (#[trigger] l.robinhood_txs[i]).request_id == Some(id)
                && l.robinhood_txs[i].kind != RobinhoodTxKind::Refund,
{
    let t = rhn_payment_for(id);
    if any_row(l.robinhood_txs, t) {
        let i = choose|i: int| 0 <= i < l.robinhood_txs.len() && t(#[trigger] l.robinhood_txs[i]);
        assert(l.robinhood_txs[i].request_id == Some(id));
    }
    if exists|i: int|
        0 <= i < l.robinhood_txs.len() && (#[trigger] l.robinhood_txs[i]).request_id == Some(id)
            && l.robinhood_txs[i].kind != RobinhoodTxKind::Refund {
        let i = choose|i: int|
            0 <= i < l.robinhood_txs.len() && (#[trigger] l.robinhood_txs[i]).request_id == Some(id)
                && l.robinhood_txs[i].kind != RobinhoodTxKind::Refund;
        assert(t(l.robinhood_txs[i]));
    }
}

/// An operator's hold is written down with its note, its end, who holds and since
/// when, wipes out an earlier decision, and stops both ways out until it is released
/// or decided.
pub proof fn law_a_hold_is_written_down(
    q: RequestView,
    review_after: Option<i64>,
    note: Seq<char>,
    actor: Seq<char>,
    now: i64,
)
    ensures
        operator_held(q, review_after, note, actor, now) == (RequestView {
            auto_resume_hold_note: Some(note),
            auto_resume_hold_until: review_after,
            review_after,
            manual_review_disposition: ManualReviewDisposition::OperatorHold,
            hold_reason: Some("operator_hold"@),
            held_by: Some(actor),
            hold_started_at: if q.hold_started_at is Some {
                q.hold_started_at
            } else {
                Some(now)
            },
            operator_decision: None,
            operator_decision_at: None,
            operator_note: None,
            ..q
        }),
        !let_go(operator_held(q, review_after, note, actor, now)),
{
}

/// A release undoes a hold and keeps its history: the request is let go, and who held
/// it, why and since when stays.
pub proof fn law_a_release_lets_go(
    l: LedgerView,
    id: i64,
    q: RequestView,
    note: Seq<char>,
    now: i64,
)
    requires
        l.request(id) == Some(q),
    ensures
        released(q, note, now) == (RequestView {
            auto_resume_hold_note: None,
            auto_resume_hold_until: None,
            manual_review_disposition: ManualReviewDisposition::Normal,
            operator_decision: Some(OperatorDecision::Release),
            operator_decision_at: Some(now),
            operator_note: if note.len() == 0 {
                None
            } else {
                Some(note)
            },
            ..q
        }),
        let_go(released(q, note, now)),
        l.release_result(id) is Err <==> q.manual_review_disposition
            == ManualReviewDisposition::RapidBurstHold,
        l.release_result(id) matches Ok(b) ==> (b <==> q.auto_resume_hold_note is Some
            || q.manual_review_disposition == ManualReviewDisposition::OperatorHold),
{
}

/// An operator decides exactly a held request that is parked and unpaid, of which no
/// refund has begun, with a note, to process or to refund it; a burst not before its
/// moment, save a refund in an emergency.
pub proof fn law_only_a_held_request_is_decided(
    l: LedgerView,
    id: i64,
    decision: OperatorDecision,
    note: Seq<char>,
    emergency: bool,
    now: i64,
)
    ensures
        l.decision_result(id, decision, note, emergency, now) is Ok <==> {
            &&& !blank(note)
            &&& decision == OperatorDecision::Process || decision == OperatorDecision::Refund
            &&& emergency ==> decision == OperatorDecision::Refund
            &&& l.request(id) matches Some(q) && q.state == RequestState::ManualReview
                && q.destination_txid is None && (q.auto_resume_hold_note is Some
                || q.manual_review_disposition != ManualReviewDisposition::Normal) && (
            q.manual_review_disposition == ManualReviewDisposition::RapidBurstHold ==> emergency
                || q.review_after is None || now >= q.review_after.unwrap())
            &&& !goldcoin_payout(l, id)
            &&& !(exists|i: int|
                0 <= i < l.robinhood_txs.len() && (#[trigger] l.robinhood_txs[i]).request_id
                    == Some(id) && l.robinhood_txs[i].kind != RobinhoodTxKind::Refund)
            &&& !solana_refund_begun(l, id) && !goldcoin_refund_begun(l, id) && !robinhood_op(
                l,
                id,
                RobinhoodTxKind::Refund,
            )
        },
{
    lemma_rows(l, id);
    lemma_payments(l, id);
}

/// A decision is written down with its note, its moment and its actor; one made in an
/// emergency says so. To process takes an operator's hold away; to refund keeps it, so
/// that nothing but a refund may follow.
pub proof fn law_a_decision_is_written_down(
    l: LedgerView,
    id: i64,
    q: RequestView,
    decision: OperatorDecision,
    note: Seq<char>,
    actor: Seq<char>,
    emergency: bool,
    now: i64,
)
    requires
        l.request(id) == Some(q),
        decision == OperatorDecision::Process || decision == OperatorDecision::Refund,
    ensures
        ({
            let m = l.decided(id, decision, note, actor, emergency, now);
            let kept = if emergency {
                "EMERGENCY (before review_after): "@ + trimmed(note)
            } else {
                trimmed(note)
            };
            &&& m.request(id) == Some(
                if decision == OperatorDecision::Process {
                    RequestView {
                        operator_decision: Some(decision),
                        operator_decision_at: Some(now),
                        operator_note: Some(kept),
                        auto_resume_hold_note: None,
                        auto_resume_hold_until: None,
                        ..q
                    }
                } else {
                    RequestView {
                        operator_decision: Some(decision),
                        operator_decision_at: Some(now),
                        operator_note: Some(kept),
                        ..q
                    }
                },
            )
            &&& decision == OperatorDecision::Process ==> let_go(m.request(id).unwrap())
            &&& decision == OperatorDecision::Refund ==> m.hold_blocker(id) is None
            &&& m.reserves == l.reserves
            &&& m.state_log.len() == l.state_log.len() + 1
            &&& m.state_log.last() == (LogEntry {
                request_id: id,
                from_state: Some(RequestState::ManualReview),
                to_state: RequestState::ManualReview,
                at: now,
                reason: Some(
                    if decision == OperatorDecision::Process {
                        "operator_decision_process"@
                    } else if emergency {
                        "operator_decision_refund_emergency"@
                    } else {
                        "operator_decision_refund"@
                    },
                ),
                actor,
            })
        }),
{
    lemma_request_id(l, id);
    let row = decided_row(q, decision, stored_note(trimmed(note), emergency), now);
    lemma_with_request(l, id, row);
    let m = l.decided(id, decision, note, actor, emergency, now);
    assert(m.requests == l.with_request(id, row).requests);
    assert(m.request(id) == Some(row));
}

/// A held request may be refunded exactly where the operator decided so; one that was
/// never held, or was released, may be refunded as well.
pub proof fn law_a_hold_stops_refunds_unless_decided(l: LedgerView, id: i64, q: RequestView)
    requires
        l.request(id) == Some(q),
    ensures
        l.hold_blocker(id) is None <==> q.operator_decision == Some(OperatorDecision::Refund) || (
        q.auto_resume_hold_note is None && q.manual_review_disposition
            == ManualReviewDisposition::Normal),
        l.hold_blocker(id) is Some && q.operator_decision is None ==> l.hold_blocker(id) == Some(
            HoldBlocker::Undecided {
                disposition: q.manual_review_disposition,
                review_after: q.review_after,
            },
        ),
{
}

/// A decision to process is followed by the resume of the request's own direction, and
/// a Goldcoin deposit has none. Where the resume is refused nothing is decided.
pub proof fn law_processing_resumes(
    l: LedgerView,
    id: i64,
    windows: RouteWalletEligibility,
    note: Seq<char>,
    actor: Seq<char>,
    now: i64,
)
    requires
        l.decision_result(id, OperatorDecision::Process, note, false, now) is Ok,
    ensures
        ({
            let d = l.request(id).unwrap().direction;
            let m = l.decided(id, OperatorDecision::Process, note, actor, false, now);
            let out = l.process_result(id, windows, note, actor, now);
            let after = l.after_process(id, windows, note, actor, now);
            &&& d == Direction::SolToGlc || d == Direction::RhnToGlc ==> out == m.resume_inbound(
                d,
                id,
                windows,
            )
            &&& d == Direction::SolToRhn || d == Direction::RhnToSol ==> out == m.resume_cross(
                d,
                id,
                windows,
            )
            &&& d == Direction::GlcToSol || d == Direction::GlcToRhn ==> out is Err
            &&& out is Err ==> after == l
            &&& out == Ok::<ResumeManualReviewOutcome, LedgerErrorView>(
                ResumeManualReviewOutcome::Resumed,
            ) ==> after == (if d == Direction::SolToGlc || d == Direction::RhnToGlc {
                m.resumed_inbound(id, note, actor, now)
            } else {
                m.resumed_cross(id, note, actor, now)
            })
        }),
{
}

/// A request that is not parked was resumed before exactly where its log says so; else it
/// is refused as not parked.
pub proof fn law_a_resumed_request_is_known_by_its_log(l: LedgerView, id: i64, state: RequestState)
    ensures
        ({
            let logged = exists|i: int|
                0 <= i < l.state_log.len() && (#[trigger] l.state_log[i]).request_id == id
                    && l.state_log[i].from_state == Some(RequestState::ManualReview)
                    && l.state_log[i].to_state == RequestState::SourceFinalized;
            l.not_parked(id, state) == (if logged {
                Ok::<ResumeManualReviewOutcome, LedgerError>(
                    ResumeManualReviewOutcome::AlreadyResumed { state },
                )
            } else {
                Err(
                    LedgerError::ManualReviewNotRecoverable {
                        id,
                        detail: ReviewRefusal::NotManualReview(state),
                    },
                )
            })
        }),
{
    let p = resume_line(id);
    if any_row(l.state_log, p) {
        let i = choose|i: int| 0 <= i < l.state_log.len() && p(#[trigger] l.state_log[i]);
        assert(l.state_log[i].request_id == id);
    }
    assert forall|i: int|
        0 <= i < l.state_log.len() && (#[trigger] l.state_log[i]).request_id == id
            && l.state_log[i].from_state == Some(RequestState::ManualReview)
            && l.state_log[i].to_state == RequestState::SourceFinalized implies any_row(
        l.state_log,
        p,
    ) by {
        assert(p(l.state_log[i]));
    }
}

/// A reserve that cannot take a promise says why: that it would be overdrawn, with its
/// figures, before that its buffer would not be kept.
pub proof fn law_a_reserve_says_why_it_takes_no_more(
    l: LedgerView,
    id: i64,
    d: ReserveDirection,
    r: ReserveRow,
    net: i64,
)
    requires
        l.reserves.row(d) == Some(r),
        i64::MIN <= room(r) <= i64::MAX,
        i64::MIN <= r.reserved_liquidity + net <= i64::MAX,
        i64::MIN <= r.pending_obligations + net <= i64::MAX,
    ensures
        l.capacity_error(id, d, r, net) == (if net > room(r) {
            Some(
                LedgerError::InvariantViolated {
                    direction: d,
                    balance: r.total_reserve_balance,
                    protected_minimum: r.protected_minimum,
                    reserved_liquidity: (r.reserved_liquidity + net) as i64,
                },
            )
        } else if r.admission_buffer_atomic > 0 && room(r) - net < r.admission_buffer_atomic {
            Some(
                LedgerError::AdmissionLiquidityBufferLow {
                    request_id: id,
                    headroom: room(r) as i64,
                    net_destination_atomic: net,
                    buffer_atomic: r.admission_buffer_atomic,
                },
            )
        } else {
            None
        }),
{
}

/// A refund that has begun is told with how far it is: on Robinhood for a deposit from
/// there, and on Solana otherwise.
pub proof fn law_a_begun_refund_is_told_with_its_state(l: LedgerView, id: i64, i: int, robinhood: bool)
    requires
        robinhood ==> 0 <= i < l.robinhood_txs.len() && l.robinhood_txs[i].request_id == Some(id)
            && l.robinhood_txs[i].kind == RobinhoodTxKind::Refund && forall|j: int|
            0 <= j < i ==> (#[trigger] l.robinhood_txs[j]).request_id != Some(id)
                || l.robinhood_txs[j].kind != RobinhoodTxKind::Refund,
        !robinhood ==> 0 <= i < l.solana_refunds.len() && l.solana_refunds[i].request_id == id
            && forall|j: int| 0 <= j < i ==> (#[trigger] l.solana_refunds[j]).request_id != id,
    ensures
        l.refund_error(id, robinhood) == Some(
            LedgerError::RefundLifecycleExists {
                id,
                refund_state: if robinhood {
                    l.robinhood_txs[i].state.spec_str()
                } else {
                    l.solana_refunds[i].state.spec_str()
                },
            },
        ),
{
    if robinhood {
        assert(is_first(l.robinhood_txs, rhn_tx_for(id, RobinhoodTxKind::Refund), i));
        lemma_first_row(l.robinhood_txs, rhn_tx_for(id, RobinhoodTxKind::Refund), i);
    } else {
        assert(is_first(l.solana_refunds, sol_refund_for(id), i));
        lemma_first_row(l.solana_refunds, sol_refund_for(id), i);
    }
}

/// A hold is told as what it is: a burst that nobody decided before an operator's hold,
/// with its end, before any other that waits for a decision.
pub proof fn law_a_hold_is_told_as_what_it_is(q: RequestView)
    ensures
        hold_refusal(q) is None <==> let_go(q),
        q.manual_review_disposition == ManualReviewDisposition::RapidBurstHold
            && q.operator_decision is None ==> hold_refusal(q) == Some(
            ReviewRefusal::RapidBurstHeld { review_after: q.review_after },
        ),
        q.auto_resume_hold_note is Some && (q.manual_review_disposition
            != ManualReviewDisposition::RapidBurstHold || q.operator_decision is Some)
            ==> hold_refusal(q) == Some(
            ReviewRefusal::OperatorHeld { until: q.auto_resume_hold_until },
        ),
{
}

/// What is offered for admission is judged by the gates of its own reserve, as they are
/// recorded: the reserve's pause, admission and figures, the route's own admission, and
/// Goldcoin's outputs.
pub proof fn law_the_gates_are_those_of_the_reserve(l: LedgerView, r: ReserveRow)
    requires
        l.reserves.goldcoin == Some(r),
        i64::MIN <= room(r) <= i64::MAX,
    ensures
        ({
            let a = l.persisted_gates(Direction::SolToGlc);
            let b = l.persisted_gates(Direction::RhnToGlc);
            &&& a matches Ok(g) && g.paused == r.paused && g.admission_closed == r.admission_closed
                && g.liquidity_admission_closed == r.liquidity_admission_closed
                && g.confirmed_headroom_atomic == room(r) && g.admission_buffer_atomic
                == r.admission_buffer_atomic && g.min_available_utxo_count
                == r.utxo_pool_min_available_count && g.route_admission_closed == l.route_closed(
                Route::SolToGlc,
            ) && (r.utxo_pool_min_available_count > 0 ==> g.available_utxo_count == l.utxo_count(
                l.spendable(),
            ) as i64)
            &&& b matches Ok(g) && g.route_admission_closed == l.route_closed(Route::RhnToGlc)
                && g.confirmed_headroom_atomic == room(r) && g.paused == r.paused
        }),
{
}

} // verus!
