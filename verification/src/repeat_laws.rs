//! What a step does where it does not apply: it is refused with the state that stands, or
//! it was made before and changes nothing.
use vstd::prelude::*;
use crate::error::{GlcRefundRefusal, LedgerError};
use crate::goldcoin_refund::GlcRefundChecksView;
use crate::ledger::LedgerView;
use crate::payout_steps::{destination_seen, payout_seen};
use crate::rows::{GoldcoinRefundView, PayoutView, RequestView, SolanaRefundView, VaultSplitView};
use crate::types::{
    GoldcoinRefundState, PayoutState, RequestState, SolanaRefundState, SplitState, VaultUtxoState,
};

verus! {

/// A Goldcoin refund is sent from its signature on, and once: sending it again is accepted
/// for the same transaction, changes nothing, and is refused for another.
pub proof fn law_a_goldcoin_refund_is_sent_as_one_transaction(
    l: LedgerView,
    id: i64,
    x: GoldcoinRefundView,
    txid: [u8; 32],
    now: i64,
)
    requires
        l.glc_refund(id) == Some(x),
    ensures
        x.txid is None ==> (l.broadcast_glc_result(id, txid) is Ok <==> x.state
            == GoldcoinRefundState::Signed),
        x.txid is Some ==> (l.broadcast_glc_result(id, txid) is Ok <==> x.txid == Some(txid)),
        x.txid is Some ==> l.glc_refund_broadcast(id, txid, now) == l,
        x.txid is None && x.state != GoldcoinRefundState::Signed ==> l.broadcast_glc_result(id, txid)
            == Err::<(), LedgerError>(
            LedgerError::GoldcoinRefundWrongState {
                id,
                expected: GoldcoinRefundState::Signed,
                actual: x.state,
            },
        ),
{
}

/// A Goldcoin refund that was not sent cannot be confirmed; one that was confirmed stays
/// so, and nothing is given back a second time.
pub proof fn law_only_a_sent_goldcoin_refund_is_confirmed(
    l: LedgerView,
    id: i64,
    x: GoldcoinRefundView,
    confirmations: i64,
    required: i64,
    now: i64,
)
    requires
        l.glc_refund(id) == Some(x),
    ensures
        ({
            let early = LedgerError::GoldcoinRefundWrongState {
                id,
                expected: GoldcoinRefundState::Broadcast,
                actual: x.state,
            };
            let m = l.glc_refund_confirmed(id, confirmations, now);
            &&& x.state == GoldcoinRefundState::Built || x.state == GoldcoinRefundState::Signed
                ==> l.confirm_glc_result(id) == Err::<(), LedgerError>(early)
                && l.reconcile_glc_result(id, confirmations, required) == Err::<bool, LedgerError>(
                early,
            )
            &&& x.state == GoldcoinRefundState::Refunded ==> l.confirm_glc_result(id) == Ok::<
                (),
                LedgerError,
            >(()) && l.reconcile_glc_result(id, confirmations, required) == Ok::<bool, LedgerError>(
                false,
            ) && m.reserves == l.reserves && m.requests == l.requests && m.state_log == l.state_log
            &&& x.state == GoldcoinRefundState::Broadcast && confirmations < required
                ==> l.reconcile_glc_result(id, confirmations, required) == Ok::<bool, LedgerError>(
                false,
            )
        }),
{
}

/// A Solana refund that was confirmed is not sent again, one that was not sent is not
/// confirmed, and confirming it again changes nothing.
pub proof fn law_a_solana_refund_goes_one_way(
    l: LedgerView,
    id: i64,
    q: RequestView,
    x: SolanaRefundView,
    now: i64,
)
    requires
        l.sol_refund(id) == Some(x),
        l.request(id) == Some(q),
    ensures
        l.refund_broadcast_result(id) is Ok <==> x.state == SolanaRefundState::Pending || x.state
            == SolanaRefundState::Broadcast,
        x.state == SolanaRefundState::Pending ==> l.refund_confirm_result(id) is Err,
        x.state == SolanaRefundState::Confirmed ==> l.refund_confirm_result(id) is Ok
            && l.refund_confirmed(id, now) == l,
{
}

/// A payout is sent once: recording it again, or before it is signed, changes nothing.
pub proof fn law_a_payout_is_sent_once(
    l: LedgerView,
    id: i64,
    q: RequestView,
    p: PayoutView,
    txid: [u8; 32],
    amounts: Seq<i64>,
    now: i64,
)
    requires
        l.payout(id) == Some(p),
        l.request(id) == Some(q),
    ensures
        l.send_payout_result(id) is Ok,
        p.state != PayoutState::Signed ==> l.payout_sent(id, txid, amounts, now) == l,
        l.sign_payout_result(id) is Ok <==> p.state == PayoutState::Built,
{
}

/// Only a payout that was sent gathers confirmations or becomes confirmed, and never fewer
/// than it had; the block it was first seen in is kept.
pub proof fn law_only_a_sent_payout_gets_deeper(
    l: LedgerView,
    id: i64,
    p: PayoutView,
    confirmations: i64,
    tip: i64,
    required: i64,
)
    requires
        l.payout(id) == Some(p),
        confirmations > 0 ==> i64::MIN <= tip - confirmations + 1 <= i64::MAX,
    ensures
        l.payout_matures(id, confirmations, required) <==> confirmations >= required && p.state
            == PayoutState::Broadcast,
        ({
            let s = payout_seen(p, confirmations, tip);
            let sent = p.state == PayoutState::Broadcast || p.state == PayoutState::Confirmed;
            s == (PayoutView {
                confirmations: if sent && confirmations > p.confirmations {
                    confirmations
                } else {
                    p.confirmations
                },
                mined_height: if p.mined_height is Some || confirmations <= 0 {
                    p.mined_height
                } else {
                    Some((tip - confirmations + 1) as i64)
                },
                ..p
            })
        }),
{
}

/// Only a request whose payment was sent gathers confirmations, and never fewer than it
/// had; nothing else of it changes.
pub proof fn law_only_a_sent_payment_gets_deeper(q: RequestView, confirmations: i64)
    ensures
        destination_seen(q, confirmations) == (RequestView {
            destination_confirmations: if (q.state == RequestState::DestinationSubmitted || q.state
                == RequestState::DestinationConfirmed) && confirmations
                > q.destination_confirmations {
                confirmations
            } else {
                q.destination_confirmations
            },
            ..q
        }),
{
}

/// A settled request is not settled again, a final one not made final again, and a release
/// is booked only where one was submitted.
pub proof fn law_what_is_done_is_not_done_again(l: LedgerView, id: i64, q: RequestView, now: i64)
    requires
        l.request(id) == Some(q),
    ensures
        q.state == RequestState::Settled ==> l.complete_payout_result(id) is Ok
            && l.payout_completed(id, now) == l,
        q.state != RequestState::Settled && l.payout(id) is None ==> l.complete_payout_result(id)
            == Err::<(), LedgerError>(LedgerError::CompletionNotSubmitted(id)),
        q.state == RequestState::SourceFinalized ==> l.finalize_result(id) is Ok && l.finalized(
            id,
            now,
        ) == l,
        q.state != RequestState::DestinationSubmitted ==> l.release_confirmed(id, now) == l,
{
}

/// A split is sent once it is signed and while its source is free or was spent by it; it
/// is confirmed once it was sent, and given up until then.
pub proof fn law_a_split_goes_on_in_its_order(l: LedgerView, id: i64, s: VaultSplitView)
    requires
        l.split(id) == Some(s),
    ensures
        l.sign_split_result(id) is Ok <==> s.state == SplitState::Built,
        l.send_split_result(id) is Ok <==> (s.state == SplitState::Signed || s.state
            == SplitState::Broadcast) && (l.utxo(s.source_txid, s.source_vout) matches Some(v) && (
        v.state == VaultUtxoState::Available || v.state == VaultUtxoState::Spent)),
        l.confirm_split_result(id) is Ok <==> s.state == SplitState::Broadcast,
        l.abandon_split_result(id) is Ok <==> s.state != SplitState::Confirmed,
{
}

/// Nothing speaks for the refund of a request that is not there, and it is refused as such.
pub proof fn law_a_missing_request_is_not_refunded(l: LedgerView, id: i64)
    requires
        l.request(id) is None,
    ensures
        l.glc_checks(id) == (GlcRefundChecksView {
            request_found: false,
            direction: None,
            direction_is_goldcoin_sourced: false,
            direction_is_glc_to_sol: false,
            state_is_manual_review: false,
            reason_is_refundable: false,
            has_source_outpoint: false,
            no_goldcoin_payout: false,
            no_destination_txid: false,
            no_settlement_claim: false,
            no_robinhood_payout_started: false,
            robinhood_payout_evidence: Seq::empty(),
            no_existing_refund: false,
            durable_observed_amount_atomic: None,
            stored_deposit_script_pubkey_hex: None,
            refusal: Some(GlcRefundRefusal::RequestNotFound),
        }),
{
}

} // verus!
