//! When a parked deposit may be given back, and what giving it back changes.
use vstd::prelude::*;
use crate::error::LedgerError;
use crate::flow_laws::lemma_sum_push;
use crate::goldcoin_refund::{GoldcoinRefundPlan, glc_refund_from};
use crate::goldcoin_refund_steps::{input_txid, input_vout};
use crate::holds::glc_refund_for;
use crate::ledger::{LedgerView, ReserveRow, lemma_request_id, lemma_with_request};
use crate::query_laws::lemma_selection;
use crate::reasons::{reason_prefix, refundable_glc_reason, refundable_in};
use crate::resume::{payout_for, rhn_tx_for, sol_refund_for};
use crate::review_laws::{goldcoin_payout, robinhood_op, room, solana_refund_begun};
use crate::rows::{GoldcoinRefundView, LogEntry, RequestView, SolanaRefundView, VaultUtxoView};
use crate::solana_refund::{
    SOLANA_REFUND_NONCE_DOMAIN, VerifiedRefundInputs, advanced_line, other_open_refund,
    refund_amount,
};
use crate::table::{
    any_row, blank, first_row, is_first, lemma_first_row, lemma_first_row_is_first, select_rows,
    trimmed, values,
};
use crate::types::{
    Direction, GoldcoinRefundState, RequestState, RobinhoodTxKind, SolanaRefundState,
    VaultUtxoState,
};

verus! {

/// A Goldcoin refund stands against this request, or against the very output that
/// its deposit is.
pub open spec fn goldcoin_refund_stands(l: LedgerView, id: i64, q: RequestView) -> bool {
    exists|i: int|
        0 <= i < l.goldcoin_refunds.len() && ((#[trigger] l.goldcoin_refunds[i]).request_id == id
            || (q.source_txid == Some(l.goldcoin_refunds[i].source_txid) && q.source_vout == Some(
            l.goldcoin_refunds[i].source_vout,
        )))
}

/// A request reached a final deposit, or went beyond it, before.
pub open spec fn went_on_before(l: LedgerView, id: i64) -> bool {
    exists|i: int|
        0 <= i < l.state_log.len() && (#[trigger] l.state_log[i]).request_id == id && (
        l.state_log[i].to_state == RequestState::SourceFinalized || l.state_log[i].to_state
            == RequestState::SettlementAuthorized || l.state_log[i].to_state
            == RequestState::DestinationSubmitted || l.state_log[i].to_state
            == RequestState::DestinationConfirmed || l.state_log[i].to_state
            == RequestState::Settled)
}

proof fn lemma_standing(l: LedgerView, id: i64, q: RequestView)
    ensures
        l.standing_glc_refund(id, q) is Some <==> goldcoin_refund_stands(l, id, q),
{
    let g = glc_refund_for(id);
    lemma_first_row_is_first(l.goldcoin_refunds, g);
    if any_row(l.goldcoin_refunds, g) {
        let i = choose|i: int|
            0 <= i < l.goldcoin_refunds.len() && g(#[trigger] l.goldcoin_refunds[i]);
        assert(l.goldcoin_refunds[i].request_id == id);
    }
    if q.source_txid is Some && q.source_vout is Some {
        let h = glc_refund_from(q.source_txid.unwrap(), q.source_vout.unwrap());
        lemma_first_row_is_first(l.goldcoin_refunds, h);
        if any_row(l.goldcoin_refunds, h) {
            let i = choose|i: int|
                0 <= i < l.goldcoin_refunds.len() && h(#[trigger] l.goldcoin_refunds[i]);
            assert(q.source_txid == Some(l.goldcoin_refunds[i].source_txid));
        }
    }
    if goldcoin_refund_stands(l, id, q) {
        let i = choose|i: int|
            0 <= i < l.goldcoin_refunds.len() && ((#[trigger] l.goldcoin_refunds[i]).request_id
                == id || (q.source_txid == Some(l.goldcoin_refunds[i].source_txid) && q.source_vout
                == Some(l.goldcoin_refunds[i].source_vout)));
        if l.goldcoin_refunds[i].request_id == id {
            assert(g(l.goldcoin_refunds[i]));
        } else {
            assert(glc_refund_from(q.source_txid.unwrap(), q.source_vout.unwrap())(
                l.goldcoin_refunds[i],
            ));
        }
    }
}

proof fn lemma_evidence(l: LedgerView, id: i64)
    ensures
        l.evidence(id).len() > 0 <==> robinhood_op(l, id, RobinhoodTxKind::Payout),
        any_row(l.robinhood_txs, rhn_tx_for(id, RobinhoodTxKind::Payout)) <==> robinhood_op(
            l,
            id,
            RobinhoodTxKind::Payout,
        ),
        any_row(l.payouts, payout_for(id)) <==> goldcoin_payout(l, id),
        l.sol_refund(id) is Some <==> solana_refund_begun(l, id),
        any_row(l.state_log, advanced_line(id)) <==> went_on_before(l, id),
{
    let t = rhn_tx_for(id, RobinhoodTxKind::Payout);
    let sel = select_rows(l.robinhood_txs, t);
    lemma_selection(l.robinhood_txs, t);
    if sel.len() > 0 {
        assert(sel.contains(sel[0]));
        let i = choose|i: int| 0 <= i < l.robinhood_txs.len() && l.robinhood_txs[i] == sel[0];
        assert(l.robinhood_txs[i].request_id == Some(id));
    }
    if robinhood_op(l, id, RobinhoodTxKind::Payout) {
        let i = choose|i: int|
            0 <= i < l.robinhood_txs.len() && (#[trigger] l.robinhood_txs[i]).request_id == Some(id)
                && l.robinhood_txs[i].kind == RobinhoodTxKind::Payout;
        assert(t(l.robinhood_txs[i]));
        assert(l.robinhood_txs.contains(l.robinhood_txs[i]));
        assert(sel.contains(l.robinhood_txs[i]));
    }
    if any_row(l.robinhood_txs, t) {
        let i = choose|i: int| 0 <= i < l.robinhood_txs.len() && t(#[trigger] l.robinhood_txs[i]);
        assert(l.robinhood_txs[i].request_id == Some(id));
    }
    let p = payout_for(id);
    if any_row(l.payouts, p) {
        let i = choose|i: int| 0 <= i < l.payouts.len() && p(#[trigger] l.payouts[i]);
        assert(l.payouts[i].request_id == id);
    }
    if goldcoin_payout(l, id) {
        let i = choose|i: int| 0 <= i < l.payouts.len() && (#[trigger] l.payouts[i]).request_id == id;
        assert(p(l.payouts[i]));
    }
    let s = sol_refund_for(id);
    if any_row(l.solana_refunds, s) {
        let i = choose|i: int| 0 <= i < l.solana_refunds.len() && s(#[trigger] l.solana_refunds[i]);
        assert(l.solana_refunds[i].request_id == id);
    }
    if solana_refund_begun(l, id) {
        let i = choose|i: int|
            0 <= i < l.solana_refunds.len() && (#[trigger] l.solana_refunds[i]).request_id == id;
        assert(s(l.solana_refunds[i]));
    }
    let a = advanced_line(id);
    if any_row(l.state_log, a) {
        let i = choose|i: int| 0 <= i < l.state_log.len() && a(#[trigger] l.state_log[i]);
        assert(l.state_log[i].request_id == id);
    }
    if went_on_before(l, id) {
        let i = choose|i: int|
            0 <= i < l.state_log.len() && (#[trigger] l.state_log[i]).request_id == id && (
            l.state_log[i].to_state == RequestState::SourceFinalized || l.state_log[i].to_state
                == RequestState::SettlementAuthorized || l.state_log[i].to_state
                == RequestState::DestinationSubmitted || l.state_log[i].to_state
                == RequestState::DestinationConfirmed || l.state_log[i].to_state
                == RequestState::Settled);
        assert(a(l.state_log[i]));
    }
}

/// A Goldcoin deposit passes the checks for its refund exactly where it is parked for
/// another amount or for a wallet that has to wait, its output is known, nothing was
/// paid or begun to be paid for it on any chain, no refund stands against it or its
/// output, and no hold stops it. Each check says its own part of that.
pub proof fn law_a_goldcoin_deposit_may_be_given_back_iff_it_is_parked_and_unpaid(
    l: LedgerView,
    id: i64,
    q: RequestView,
)
    requires
        l.request(id) == Some(q),
    ensures
        ({
            let c = l.glc_checks(id);
            let reason = q.manual_review_note matches Some(n) && refundable_glc_reason(
                reason_prefix(n),
            );
            &&& c.request_found && c.direction == Some(q.direction)
            &&& c.direction_is_goldcoin_sourced <==> q.direction == Direction::GlcToSol
                || q.direction == Direction::GlcToRhn
            &&& c.direction_is_glc_to_sol <==> q.direction == Direction::GlcToSol
            &&& c.state_is_manual_review <==> q.state == RequestState::ManualReview
            &&& c.reason_is_refundable <==> reason
            &&& c.has_source_outpoint <==> q.source_txid is Some && q.source_vout is Some
            &&& c.no_goldcoin_payout <==> !goldcoin_payout(l, id)
            &&& c.no_destination_txid <==> q.destination_txid is None
            &&& c.no_settlement_claim <==> q.settlement_claim_hash is None
            &&& c.no_robinhood_payout_started <==> !robinhood_op(l, id, RobinhoodTxKind::Payout)
            &&& c.no_existing_refund <==> !goldcoin_refund_stands(l, id, q)
            &&& q.observed_amount_atomic matches Some(a) ==> c.durable_observed_amount_atomic
                == Some(a as u64)
            &&& q.observed_amount_atomic is None ==> c.durable_observed_amount_atomic is None
            &&& c.stored_deposit_script_pubkey_hex == q.deposit_script_pubkey_hex
            &&& c.refusal is None <==> {
                &&& q.direction == Direction::GlcToSol || q.direction == Direction::GlcToRhn
                &&& q.state == RequestState::ManualReview
                &&& reason
                &&& q.source_txid is Some && q.source_vout is Some
                &&& !goldcoin_payout(l, id)
                &&& q.destination_txid is None
                &&& q.settlement_claim_hash is None
                &&& !robinhood_op(l, id, RobinhoodTxKind::Payout)
                &&& !goldcoin_refund_stands(l, id, q)
                &&& l.hold_blocker(id) is None
            }
        }),
        l.request(id) is None ==> l.glc_checks(id).refusal is Some,
{
    lemma_standing(l, id, q);
    lemma_evidence(l, id);
}

/// A Goldcoin refund may begin exactly where those checks pass, with a note and with
/// inputs, and where it gives back what was recorded of the deposit, if anything was.
pub proof fn law_a_goldcoin_refund_begins_iff_the_checks_pass(
    l: LedgerView,
    id: i64,
    q: RequestView,
    note: Seq<char>,
    inputs: nat,
    observed: u64,
)
    requires
        l.request(id) == Some(q),
    ensures
        l.begin_glc_check(id, note, inputs, observed) is Ok <==> {
            &&& !blank(note) && inputs > 0
            &&& l.glc_checks(id).refusal is None
            &&& q.observed_amount_atomic matches Some(a) ==> a as u64 == observed
        },
{
    lemma_standing(l, id, q);
    lemma_evidence(l, id);
}

/// Beginning a Goldcoin refund gives back all that was deposited: the whole observed
/// amount, to the address planned, against the output of the deposit and for the
/// reason of its note. The request waits for its refund, the inputs are recorded in
/// their order, and what is promised stays promised.
pub proof fn law_a_goldcoin_refund_gives_all_back(
    l: LedgerView,
    id: i64,
    q: RequestView,
    plan: GoldcoinRefundPlan,
    note: Seq<char>,
    by: Seq<char>,
    now: i64,
    k: int,
)
    requires
        l.request(id) == Some(q),
        q.source_txid is Some,
        q.source_vout is Some,
        q.manual_review_note is Some,
        l.begin_glc_result(id, plan, note, now) is Ok,
        0 <= k < plan.inputs@.len() <= i64::MAX,
    ensures
        ({
            let m = l.glc_refund_begun(id, plan, note, by, now);
            let x = m.goldcoin_refunds.last();
            let i = m.refund_inputs[l.refund_inputs.len() + k];
            &&& m.goldcoin_refunds.len() == l.goldcoin_refunds.len() + 1
            &&& x.request_id == id && Some(x.source_txid) == q.source_txid && Some(x.source_vout)
                == q.source_vout
            &&& x.refund_amount_atomic == plan.observed_amount_atomic && x.observed_amount_atomic
                == plan.observed_amount_atomic && x.fee_atomic == plan.fee_atomic
            &&& x.refund_dest_p2pkh_hash == plan.refund_dest_p2pkh_hash && x.refund_dest_address
                == plan.refund_dest_address@
            &&& x.state == GoldcoinRefundState::Built && x.txid is None && !x.reservation_released
                && x.confirmations == 0
            &&& x.manual_review_reason == reason_prefix(q.manual_review_note.unwrap())
            &&& x.note == note && x.created_by == by && x.built_at == now
            &&& m.request(id) == Some(RequestView { state: RequestState::RefundPending, ..q })
            &&& m.reserves == l.reserves
            &&& m.refund_inputs.len() == l.refund_inputs.len() + plan.inputs@.len()
            &&& i.request_id == id && i.input_order == k && i.txid == plan.inputs@[k]@.txid
                && i.vout == plan.inputs@[k]@.vout && i.amount_atomic
                == plan.inputs@[k]@.amount_atomic
        }),
{
    lemma_request_id(l, id);
    let row = RequestView { state: RequestState::RefundPending, ..q };
    lemma_with_request(l, id, row);
    let m = l.glc_refund_begun(id, plan, note, by, now);
    assert(m.requests == l.with_request(id, row).requests);
    assert(m.request(id) == l.with_request(id, row).request(id));
    assert(values(plan.inputs@)[k] == plan.inputs@[k]@);
}

proof fn lemma_refund_row(l: LedgerView, id: i64, row: GoldcoinRefundView)
    requires
        l.glc_refund(id) is Some,
        row.request_id == id,
    ensures
        l.with_glc_refund(id, row).glc_refund(id) == Some(row),
{
    let g = glc_refund_for(id);
    lemma_first_row_is_first(l.goldcoin_refunds, g);
    let i = first_row(l.goldcoin_refunds, g).unwrap();
    let m = l.with_glc_refund(id, row);
    assert(is_first(m.goldcoin_refunds, g, i)) by {
        assert forall|j: int| 0 <= j < i implies !g(#[trigger] m.goldcoin_refunds[j]) by {
            assert(m.goldcoin_refunds[j] == l.goldcoin_refunds[j]);
        }
    }
    lemma_first_row(m.goldcoin_refunds, g, i);
}

/// A signed Goldcoin refund that is sent is known by its transaction, its request is
/// on its way back, and every input that it reserved is spent by it for good.
pub proof fn law_a_sent_goldcoin_refund_spends_its_inputs(
    l: LedgerView,
    id: i64,
    x: GoldcoinRefundView,
    q: RequestView,
    txid: [u8; 32],
    now: i64,
    i: int,
    k: int,
)
    requires
        l.glc_refund(id) == Some(x),
        x.state == GoldcoinRefundState::Signed,
        x.txid is None,
        l.request(id) == Some(q),
        0 <= i < l.vault_utxos.len(),
        0 <= k < l.refund_inputs.len(),
    ensures
        ({
            let m = l.glc_refund_broadcast(id, txid, now);
            let v = l.vault_utxos[i];
            let own = l.refund_inputs[k].request_id == id && l.refund_inputs[k].txid == v.txid
                && l.refund_inputs[k].vout == v.vout && v.reserved_by == Some(id);
            &&& l.broadcast_glc_result(id, txid) == Ok::<(), LedgerError>(())
            &&& m.glc_refund(id) == Some(
                GoldcoinRefundView {
                    txid: Some(txid),
                    broadcast_at: Some(now),
                    state: GoldcoinRefundState::Broadcast,
                    ..x
                },
            )
            &&& m.request(id) == Some(RequestView { state: RequestState::RefundBroadcast, ..q })
            &&& m.reserves == l.reserves
            &&& own ==> m.vault_utxos[i] == (VaultUtxoView {
                state: VaultUtxoState::Spent,
                spent_by_txid: Some(txid),
                ..v
            })
            &&& v.reserved_by != Some(id) ==> m.vault_utxos[i] == v
        }),
{
    lemma_request_id(l, id);
    lemma_first_row_is_first(l.goldcoin_refunds, glc_refund_for(id));
    let row = GoldcoinRefundView {
        txid: Some(txid),
        broadcast_at: Some(now),
        state: GoldcoinRefundState::Broadcast,
        ..x
    };
    lemma_refund_row(l, id, row);
    let a = RequestView { state: RequestState::RefundBroadcast, ..q };
    lemma_with_request(l, id, a);
    let m = l.glc_refund_broadcast(id, txid, now);
    assert(m.requests == l.with_request(id, a).requests);
    assert(m.request(id) == l.with_request(id, a).request(id));
    assert(m.goldcoin_refunds == l.with_glc_refund(id, row).goldcoin_refunds);
    assert(m.glc_refund(id) == l.with_glc_refund(id, row).glc_refund(id));
    let v = l.vault_utxos[i];
    if l.refund_inputs[k].request_id == id && l.refund_inputs[k].txid == v.txid
        && l.refund_inputs[k].vout == v.vout {
        assert(input_txid(id, v.txid)(l.refund_inputs[k]));
        assert(input_vout(id, v.vout)(l.refund_inputs[k]));
    }
}

/// A Goldcoin refund that is deep enough is done: its request is refunded, and what
/// the destination reserve had promised it, no more and no less, is free again. Nothing
/// is taken from any balance, for the deposit was never counted in one.
pub proof fn law_a_confirmed_goldcoin_refund_frees_its_promise(
    l: LedgerView,
    id: i64,
    x: GoldcoinRefundView,
    q: RequestView,
    confirmations: i64,
    now: i64,
    r: ReserveRow,
    required: i64,
)
    requires
        l.glc_refund(id) == Some(x),
        x.state == GoldcoinRefundState::Broadcast,
        !x.reservation_released,
        l.request(id) == Some(q),
        (q.direction == Direction::GlcToSol && l.reserves.solana == Some(r)) || (q.direction
            == Direction::GlcToRhn && l.reserves.robinhood == Some(r)),
        i64::MIN <= r.reserved_liquidity - q.net_destination_atomic <= i64::MAX,
    ensures
        ({
            let m = l.glc_refund_confirmed(id, confirmations, now);
            let after = Some(
                ReserveRow {
                    reserved_liquidity: (r.reserved_liquidity - q.net_destination_atomic) as i64,
                    ..r
                },
            );
            &&& l.confirm_glc_result(id) == Ok::<(), LedgerError>(())
            &&& l.reconcile_glc_result(id, confirmations, required) == Ok::<bool, LedgerError>(
                confirmations >= required,
            )
            &&& m.glc_refund(id) == Some(
                GoldcoinRefundView {
                    state: GoldcoinRefundState::Refunded,
                    refunded_at: Some(now),
                    confirmations,
                    reservation_released: true,
                    ..x
                },
            )
            &&& m.request(id) == Some(RequestView { state: RequestState::Refunded, ..q })
            &&& q.direction == Direction::GlcToSol ==> m.reserves.solana == after
                && m.reserves.robinhood == l.reserves.robinhood
            &&& q.direction == Direction::GlcToRhn ==> m.reserves.robinhood == after
                && m.reserves.solana == l.reserves.solana
            &&& m.reserves.goldcoin == l.reserves.goldcoin
        }),
{
    lemma_request_id(l, id);
    lemma_first_row_is_first(l.goldcoin_refunds, glc_refund_for(id));
    let row = GoldcoinRefundView {
        state: GoldcoinRefundState::Refunded,
        refunded_at: Some(now),
        confirmations,
        reservation_released: true,
        ..x
    };
    lemma_refund_row(l, id, row);
    let a = RequestView { state: RequestState::Refunded, ..q };
    lemma_with_request(l, id, a);
    let m = l.glc_refund_confirmed(id, confirmations, now);
    let k = l.with_glc_refund(id, row);
    assert(k.requests == l.requests);
    assert(k.request(id) == Some(q));
    assert(m.requests == l.with_request(id, a).requests);
    assert(m.request(id) == l.with_request(id, a).request(id));
    assert(m.goldcoin_refunds == k.goldcoin_refunds);
    assert(m.glc_refund(id) == k.glc_refund(id));
}

/// A Solana deposit may be given back exactly where it is parked for a reason that
/// allows it and never went on, is final, was not paid on any chain, is held by nobody
/// or decided for a refund, has no refund yet; where what was read from the chain is
/// what is recorded, down to the wallet and the amount; and where the reserve covers it
/// beside every other open refund.
pub proof fn law_a_solana_deposit_may_be_given_back_iff_it_is_parked_and_covered(
    l: LedgerView,
    id: i64,
    q: RequestView,
    v: VerifiedRefundInputs,
    r: ReserveRow,
)
    requires
        l.request(id) == Some(q),
        l.reserves.solana == Some(r),
        i64::MIN <= l.other_open_refunds(id) <= i64::MAX,
    ensures
        l.begin_refund_result(id, v) is Ok <==> {
            &&& id > 0
            &&& q.direction == Direction::SolToGlc || q.direction == Direction::SolToRhn
            &&& q.state == RequestState::ManualReview
            &&& refundable_in(q.direction, q.manual_review_note)
            &&& q.source_finalized_at is Some
            &&& q.source_obligation_index == Some(v.obligation_index)
            &&& q.requester == Some(v.requester)
            &&& q.gross_amount_atomic as u64 == v.gross_canonical_atomic
            &&& q.destination_txid is None && q.settled_at is None
            &&& !goldcoin_payout(l, id) && !robinhood_op(l, id, RobinhoodTxKind::Payout)
            &&& !went_on_before(l, id)
            &&& !solana_refund_begun(l, id)
            &&& l.hold_blocker(id) is None
            &&& 0 < v.amount_solana_atomic <= room(r) - l.other_open_refunds(id)
        },
        l.refund_checks(id) matches Ok(c) && {
            &&& c.direction_ok <==> q.direction == Direction::SolToGlc || q.direction
                == Direction::SolToRhn
            &&& c.state_is_manual_review <==> q.state == RequestState::ManualReview
            &&& c.reason_whitelisted <==> refundable_in(q.direction, q.manual_review_note)
            &&& c.no_goldcoin_payout <==> !goldcoin_payout(l, id) && !robinhood_op(
                l,
                id,
                RobinhoodTxKind::Payout,
            )
            &&& c.never_advanced_past_manual_review <==> !went_on_before(l, id)
            &&& c.existing_refund is None <==> !solana_refund_begun(l, id)
            &&& c.source_finalized <==> q.source_finalized_at is Some
            &&& c.has_obligation_index <==> q.source_obligation_index is Some
            &&& c.has_requester <==> q.requester is Some
            &&& c.no_destination_txid <==> q.destination_txid is None
            &&& c.not_settled <==> q.settled_at is None
        },
{
    lemma_evidence(l, id);
}

/// Every other refund that is not confirmed is counted before one more is covered, by
/// what it gives back; the request's own is not.
pub proof fn law_open_refunds_count_against_the_next(l: LedgerView, id: i64, x: SolanaRefundView)
    requires
        x.amount_solana_atomic <= i64::MAX,
    ensures
        ({
            let m = LedgerView { solana_refunds: l.solana_refunds.push(x), ..l };
            m.other_open_refunds(id) == l.other_open_refunds(id) + (if x.request_id != id && (
            x.state == SolanaRefundState::Pending || x.state == SolanaRefundState::Broadcast) {
                x.amount_solana_atomic as int
            } else {
                0
            })
        }),
        l.solana_refunds.len() == 0 ==> l.other_open_refunds(id) == 0,
{
    lemma_sum_push(l.solana_refunds, x, other_open_refund(id), refund_amount());
}

/// Beginning a Solana refund records exactly what was read from the chain, under the
/// request's own nonce in the refunds' domain, with the reason and the note, and leaves
/// every figure as it is. The request waits for its refund.
pub proof fn law_a_solana_refund_is_recorded_as_verified(
    l: LedgerView,
    id: i64,
    q: RequestView,
    v: VerifiedRefundInputs,
    note: Seq<char>,
    actor: Seq<char>,
    now: i64,
)
    requires
        l.request(id) == Some(q),
        q.manual_review_note is Some,
        id > 0,
    ensures
        ({
            let m = l.refund_begun(id, v, note, actor, now);
            let x = m.solana_refunds.last();
            &&& m.solana_refunds.len() == l.solana_refunds.len() + 1
            &&& x.request_id == id && x.obligation_index == v.obligation_index
                && x.amount_solana_atomic == v.amount_solana_atomic && x.requester == v.requester
            &&& x.destination_token_account == v.destination_token_account && x.reserve_mint
                == v.reserve_mint && x.token_program == v.token_program
            &&& x.nonce == 0x8000_0000_0000_0000u64 + id
            &&& Some(x.manual_review_reason) == q.manual_review_note && x.note == trimmed(note)
                && x.created_by == actor && x.created_at == now
            &&& x.state == SolanaRefundState::Pending && x.refund_signature is None
            &&& m.request(id) == Some(RequestView { state: RequestState::RefundPending, ..q })
            &&& m.reserves == l.reserves
            &&& m.state_log.last() == (LogEntry {
                request_id: id,
                from_state: Some(RequestState::ManualReview),
                to_state: RequestState::RefundPending,
                at: now,
                reason: Some(trimmed(note)),
                actor,
            })
        }),
{
    lemma_request_id(l, id);
    let row = RequestView { state: RequestState::RefundPending, ..q };
    lemma_with_request(l, id, row);
    let m = l.refund_begun(id, v, note, actor, now);
    assert(m.requests == l.with_request(id, row).requests);
    assert(m.request(id) == l.with_request(id, row).request(id));
    assert(SOLANA_REFUND_NONCE_DOMAIN == 0x8000_0000_0000_0000u64);
}

proof fn lemma_sol_refund_row(l: LedgerView, id: i64, row: SolanaRefundView)
    requires
        l.sol_refund(id) is Some,
        row.request_id == id,
    ensures
        l.with_sol_refund(id, row).sol_refund(id) == Some(row),
{
    let g = sol_refund_for(id);
    lemma_first_row_is_first(l.solana_refunds, g);
    let i = first_row(l.solana_refunds, g).unwrap();
    let m = l.with_sol_refund(id, row);
    assert(is_first(m.solana_refunds, g, i)) by {
        assert forall|j: int| 0 <= j < i implies !g(#[trigger] m.solana_refunds[j]) by {
            assert(m.solana_refunds[j] == l.solana_refunds[j]);
        }
    }
    lemma_first_row(m.solana_refunds, g, i);
}

/// A Solana refund that was sent is known by its signature, and its request is on its
/// way back; sent again, it is known by the new one. Confirmed, it is done: exactly what
/// it gives back leaves the Solana reserve's balance, and no other figure changes.
pub proof fn law_a_confirmed_solana_refund_leaves_the_balance(
    l: LedgerView,
    id: i64,
    x: SolanaRefundView,
    q: RequestView,
    signature: Seq<char>,
    blockhash: Seq<char>,
    epoch: u64,
    sent_at: i64,
    now: i64,
    r: ReserveRow,
)
    requires
        l.sol_refund(id) == Some(x),
        x.state == SolanaRefundState::Pending || x.state == SolanaRefundState::Broadcast,
        x.amount_solana_atomic <= i64::MAX,
        l.request(id) == Some(q),
        x.state == SolanaRefundState::Pending ==> q.state == RequestState::RefundPending,
        x.state == SolanaRefundState::Broadcast ==> q.state == RequestState::RefundBroadcast,
        l.reserves.solana == Some(r),
        r.total_reserve_balance - x.amount_solana_atomic >= i64::MIN,
    ensures
        ({
            let m = l.refund_broadcast(id, signature, blockhash, epoch, sent_at);
            let k = m.refund_confirmed(id, now);
            &&& l.refund_broadcast_result(id) == Ok::<(), LedgerError>(())
            &&& m.sol_refund(id) == Some(
                SolanaRefundView {
                    state: SolanaRefundState::Broadcast,
                    refund_signature: Some(signature),
                    recent_blockhash: Some(blockhash),
                    attestation_epoch: Some(epoch),
                    broadcast_at: Some(sent_at),
                    ..x
                },
            )
            &&& m.request(id) == Some(RequestView { state: RequestState::RefundBroadcast, ..q })
            &&& m.reserves == l.reserves
            &&& m.refund_confirm_result(id) == Ok::<(), LedgerError>(())
            &&& k.sol_refund(id) == Some(
                SolanaRefundView {
                    state: SolanaRefundState::Confirmed,
                    confirmed_at: Some(now),
                    ..m.sol_refund(id).unwrap()
                },
            )
            &&& k.request(id) == Some(RequestView { state: RequestState::Refunded, ..q })
            &&& k.reserves.solana == Some(
                ReserveRow {
                    total_reserve_balance: (r.total_reserve_balance
                        - x.amount_solana_atomic) as i64,
                    ..r
                },
            )
            &&& k.reserves.goldcoin == l.reserves.goldcoin && k.reserves.robinhood
                == l.reserves.robinhood
        }),
{
    lemma_request_id(l, id);
    lemma_first_row_is_first(l.solana_refunds, sol_refund_for(id));
    let sent = SolanaRefundView {
        state: SolanaRefundState::Broadcast,
        refund_signature: Some(signature),
        recent_blockhash: Some(blockhash),
        attestation_epoch: Some(epoch),
        broadcast_at: Some(sent_at),
        ..x
    };
    lemma_sol_refund_row(l, id, sent);
    let a = RequestView { state: RequestState::RefundBroadcast, ..q };
    lemma_with_request(l, id, a);
    let m = l.refund_broadcast(id, signature, blockhash, epoch, sent_at);
    assert(m.solana_refunds == l.with_sol_refund(id, sent).solana_refunds);
    assert(m.sol_refund(id) == l.with_sol_refund(id, sent).sol_refund(id));
    if q.state == RequestState::RefundPending {
        assert(m.requests == l.with_request(id, a).requests);
        assert(m.request(id) == l.with_request(id, a).request(id));
    } else {
        assert(a == q);
        assert(m.requests == l.requests);
        assert(m.request(id) == l.request(id));
    }
    let done = SolanaRefundView {
        state: SolanaRefundState::Confirmed,
        confirmed_at: Some(now),
        ..sent
    };
    lemma_sol_refund_row(m, id, done);
    let b = RequestView { state: RequestState::Refunded, ..a };
    lemma_with_request(m, id, b);
    let k = m.refund_confirmed(id, now);
    assert(k.solana_refunds == m.with_sol_refund(id, done).solana_refunds);
    assert(k.sol_refund(id) == m.with_sol_refund(id, done).sol_refund(id));
    assert(k.requests == m.with_request(id, b).requests);
    assert(k.request(id) == m.with_request(id, b).request(id));
}

} // verus!
