//! What the lists and snapshots of the ledger show, and in which order.
use vstd::prelude::*;
use crate::audit::{attests, numbered_attestation};
use crate::coins::{first_not_takable, is_available, not_takable, taken_count};
use crate::goldcoin_refund::as_evidence;
use crate::goldcoin_refund_steps::{input_order, listed_glc_refund, newest_first};
use crate::holds::{ever_held, held, id_order, review_available};
use crate::in_flight::{rebalance_of, touches_robinhood};
use crate::json::number_list;
use crate::ledger::{LedgerView, ReserveRow, by_id, step, step_because};
use crate::payouts::{
    change_for, change_order, change_rows, input_of, input_rows, payout_input_order,
    payout_snapshot,
};
use crate::requests::deposits_to;
use crate::rows::{
    AttestationView, CoinView, GoldcoinRefundView, LogEntry, PayoutChangeView, PayoutInputView,
    PayoutView, RebalanceView, RefundInputView, RequestView, RobinhoodTxView, SolanaRefundView,
    VaultSplitView, VaultUtxoView, ZeroConfView,
};
use crate::solana_refund::{listed_sol_refund, sol_refund_order};
use crate::spend_laws::is_change_at;
use crate::splits::{
    abandoned_sent, as_abandoned, as_flagged, as_pending, as_unconfirmed, broadcast_split, of_tx,
    pending_split, split_snapshot,
};
use crate::table::{any_row, bytes_le, is_first, lemma_first_row, lemma_first_row_is_first};
use crate::types::{
    Direction, GoldcoinRefundState, ManualReviewDisposition, RequestState, ReserveDirection, Route,
    SolanaRefundState, SplitState, VaultUtxoState,
};
use crate::vault::{
    as_coin, at_outpoint, candidate_order, change_at, coin_order, explainable_split, immature,
    utxo_amount,
};

verus! {

/// A ledger that was just opened has no reserve, no request and no history, numbers from
/// one, and lets through the two routes between Goldcoin and Solana only; no admission is
/// closed.
pub proof fn law_a_fresh_ledger_is_empty(program: [u8; 32], now: i64, i: int)
    ensures
        ({
            let l = LedgerView::fresh(program, now);
            &&& l.solana_program_id == program
            &&& l.reserves.goldcoin is None && l.reserves.solana is None && l.reserves.robinhood is None
            &&& l.next_request_id == 1 && l.next_split_id == 1 && l.proposals.next_rebalance_id == 1
                && l.proposals.next_custody_id == 1
            &&& l.requests.len() == 0 && l.state_log.len() == 0 && l.vault_utxos.len() == 0
                && l.splits.len() == 0 && l.payouts.len() == 0 && l.payout_inputs.len() == 0
                && l.payout_changes.len() == 0 && l.change_outpoints.len() == 0
                && l.goldcoin_refunds.len() == 0 && l.solana_refunds.len() == 0
                && l.robinhood_txs.len() == 0 && l.robinhood_deposits.len() == 0
                && l.chain.blocks.len() == 0 && l.audit.admin.len() == 0
            &&& l.routes.len() == 6 && l.route_admission.len() == 2
            &&& 0 <= i < 6 ==> (l.routes[i].enabled <==> l.routes[i].route == Route::GlcToSol
                || l.routes[i].route == Route::SolToGlc) && l.routes[i].disabled_reason is None
            &&& l.routes[0].route == Route::GlcToSol && l.routes[1].route == Route::SolToGlc
                && l.routes[2].route == Route::GlcToRhn && l.routes[3].route == Route::RhnToGlc
                && l.routes[4].route == Route::SolToRhn && l.routes[5].route == Route::RhnToSol
            &&& l.route_admission[0].route == Route::SolToGlc && l.route_admission[1].route
                == Route::RhnToGlc
            &&& 0 <= i < 2 ==> !l.route_admission[i].admission_closed
        }),
{
}

/// A step is logged with its request, its two states and its moment, by the system, and
/// with a reason where there is one.
pub proof fn law_a_step_is_logged_as_taken(
    id: i64,
    from: Option<RequestState>,
    to: RequestState,
    at: i64,
    reason: Seq<char>,
)
    ensures
        step(id, from, to, at) == (LogEntry {
            request_id: id,
            from_state: from,
            to_state: to,
            at,
            reason: None,
            actor: "system"@,
        }),
        step_because(id, from, to, at, reason) == (LogEntry {
            request_id: id,
            from_state: from,
            to_state: to,
            at,
            reason: Some(reason),
            actor: "system"@,
        }),
{
}

/// A request is read under its number: the first row that has it, and nothing where none
/// has it.
pub proof fn law_a_request_is_read_by_its_number(l: LedgerView, i: int, id: i64)
    requires
        0 <= i < l.requests.len(),
        forall|j: int| 0 <= j < i ==> (#[trigger] l.requests[j]).id != l.requests[i].id,
    ensures
        l.request(l.requests[i].id) == Some(l.requests[i]),
        l.request(id) is Some <==> exists|j: int|
            0 <= j < l.requests.len() && (#[trigger] l.requests[j]).id == id,
{
    let p = by_id(l.requests[i].id);
    assert(is_first(l.requests, p, i));
    lemma_first_row(l.requests, p, i);
    let q = by_id(id);
    lemma_first_row_is_first(l.requests, q);
    if any_row(l.requests, q) {
        let j = choose|j: int| 0 <= j < l.requests.len() && q(#[trigger] l.requests[j]);
        assert(l.requests[j].id == id);
    }
    assert forall|j: int| 0 <= j < l.requests.len() && (#[trigger] l.requests[j]).id == id implies any_row(
        l.requests,
        q,
    ) by {
        assert(q(l.requests[j]));
    }
}

/// A request is held while an operator's note or a hold stands on it, and was held once
/// where a hold ever began. It may be looked at again from its moment on, and always where
/// none is set. Held requests are listed by their numbers.
pub proof fn law_what_was_ever_held_is_listed(q: RequestView, other: RequestView, now: i64)
    ensures
        held()(q) <==> q.auto_resume_hold_note is Some || q.manual_review_disposition
            == ManualReviewDisposition::OperatorHold || q.manual_review_disposition
            == ManualReviewDisposition::RapidBurstHold,
        ever_held()(q) <==> held()(q) || q.hold_started_at is Some,
        review_available(q, now) <==> q.review_after is None || now >= q.review_after.unwrap(),
        id_order()(q, other) <==> q.id <= other.id,
{
}

/// A deposit script leads to a request from Goldcoin that has it.
pub proof fn law_a_script_leads_to_a_goldcoin_request(q: RequestView, script: Seq<char>)
    ensures
        deposits_to(script)(q) <==> (q.direction == Direction::GlcToSol || q.direction
            == Direction::GlcToRhn) && q.deposit_script_pubkey_hex == Some(script),
{
}

/// Coins come with the larger first; of two that are worth the same, the one with the
/// lower transaction first, and within it the lower output.
pub proof fn law_coins_come_larger_first(a: CoinView, b: CoinView, x: ZeroConfView, y: ZeroConfView)
    ensures
        a.amount_atomic > b.amount_atomic ==> coin_order()(a, b) && !coin_order()(b, a),
        a.amount_atomic == b.amount_atomic && a.txid == b.txid ==> (coin_order()(a, b) <==> a.vout
            <= b.vout),
        a.amount_atomic == b.amount_atomic && a.txid != b.txid ==> (coin_order()(a, b)
            <==> bytes_le(a.txid@, b.txid@)),
        candidate_order()(x, y) <==> coin_order()(x.utxo, y.utxo),
{
}

/// An output is shown as a coin with what it is worth; unconfirmed change besides with how
/// deep it lies and how often it is confirmed.
pub proof fn law_outputs_are_shown_as_they_are(l: LedgerView, v: VaultUtxoView, k: int)
    requires
        is_change_at(l, k, v.txid, v.vout),
        v.amount_atomic >= 0,
        0 <= l.change_outpoints[k].unconfirmed_ancestor_depth <= u32::MAX,
    ensures
        as_coin()(v).txid == v.txid && as_coin()(v).vout == v.vout && as_coin()(v).amount_atomic
            == v.amount_atomic && as_coin()(v).script_pubkey_hex == v.script_pubkey_hex,
        l.as_candidate()(v).utxo == as_coin()(v),
        l.as_candidate()(v).unconfirmed_ancestor_depth
            == l.change_outpoints[k].unconfirmed_ancestor_depth,
        l.as_candidate()(v).confirmations == v.confirmations,
        utxo_amount()(v) == v.amount_atomic,
        immature()(v) <==> v.state == VaultUtxoState::Unconfirmed,
        l.zero_conf_child(v.txid)(v) <==> v.state == VaultUtxoState::Unconfirmed && v.confirmations
            == 0,
{
    let p = change_at(v.txid, v.vout);
    assert(is_first(l.change_outpoints, p, k));
    lemma_first_row(l.change_outpoints, p, k);
}

/// An immature output of a split that was sent, and whose inputs are not missing for ten
/// minutes, is one of its chunks.
pub proof fn law_chunks_are_counted_while_expected(l: LedgerView, now: i64, v: VaultUtxoView)
    ensures
        l.immature_chunk(now)(v) <==> v.state == VaultUtxoState::Unconfirmed && exists|i: int|
            0 <= i < l.splits.len() && (#[trigger] l.splits[i]).txid == Some(v.txid) && (
            l.splits[i].state == SplitState::Broadcast || l.splits[i].state
                == SplitState::Confirmed) && (l.splits[i].missing_inputs_since is None || now
                - l.splits[i].missing_inputs_since.unwrap() < 600),
{
    let s = explainable_split(v.txid, now);
    if any_row(l.splits, s) {
        let i = choose|i: int| 0 <= i < l.splits.len() && s(#[trigger] l.splits[i]);
        assert(l.splits[i].txid == Some(v.txid));
    }
    assert forall|i: int|
        0 <= i < l.splits.len() && (#[trigger] l.splits[i]).txid == Some(v.txid) && (
        l.splits[i].state == SplitState::Broadcast || l.splits[i].state == SplitState::Confirmed)
            && (l.splits[i].missing_inputs_since is None || now
            - l.splits[i].missing_inputs_since.unwrap() < 600) implies any_row(l.splits, s) by {
        assert(s(l.splits[i]));
    }
}

/// An output is read under its outpoint: the first row that has it.
pub proof fn law_an_output_is_read_by_its_outpoint(l: LedgerView, i: int)
    requires
        0 <= i < l.vault_utxos.len(),
        forall|j: int|
            0 <= j < i ==> !((#[trigger] l.vault_utxos[j]).txid == l.vault_utxos[i].txid
                && l.vault_utxos[j].vout == l.vault_utxos[i].vout),
    ensures
        l.utxo(l.vault_utxos[i].txid, l.vault_utxos[i].vout) == Some(l.vault_utxos[i]),
{
    let p = at_outpoint(l.vault_utxos[i].txid, l.vault_utxos[i].vout);
    assert(is_first(l.vault_utxos, p, i));
    lemma_first_row(l.vault_utxos, p, i);
}

/// The inputs and the change of a payout are recorded in their order, each with what it
/// is worth, and found by their request.
pub proof fn law_a_payout_keeps_its_parts_in_order(
    id: i64,
    inputs: Seq<CoinView>,
    change: Seq<u64>,
    k: int,
    a: PayoutInputView,
    b: PayoutInputView,
    c: PayoutChangeView,
    d: PayoutChangeView,
)
    requires
        0 <= k <= i64::MAX,
    ensures
        input_rows(id, inputs).len() == inputs.len(),
        change_rows(id, change).len() == change.len(),
        k < inputs.len() ==> inputs[k].amount_atomic <= i64::MAX ==> input_rows(id, inputs)[k] == (
        PayoutInputView {
            request_id: id,
            input_order: k as i64,
            txid: inputs[k].txid,
            vout: inputs[k].vout,
            amount_atomic: inputs[k].amount_atomic as i64,
        }),
        k < change.len() ==> change_rows(id, change)[k] == (PayoutChangeView {
            request_id: id,
            output_order: k as i64,
            amount_atomic: change[k] as i64,
        }),
        input_of(id)(a) <==> a.request_id == id,
        change_for(id)(c) <==> c.request_id == id,
        payout_input_order()(a, b) <==> a.input_order <= b.input_order,
        change_order()(c, d) <==> c.output_order <= d.output_order,
{
}

/// A payout, and a split, is shown as it is recorded.
pub proof fn law_snapshots_show_what_is_recorded(p: PayoutView, s: VaultSplitView)
    ensures
        ({
            let x = payout_snapshot(p);
            x.payout_atomic == p.payout_atomic as u64 && x.txid == p.txid && x.state == p.state
                && x.confirmations == p.confirmations && x.mined_height == p.mined_height
                && x.onchain_completion_signature == p.onchain_completion_signature
                && x.onchain_completion_submitted_at == p.onchain_completion_submitted_at
        }),
        ({
            let x = split_snapshot(s);
            x.id == s.id && x.source_amount_atomic == s.source_amount_atomic as u64 && x.chunk_count
                == s.chunk_count && x.chunk_target_atomic == s.chunk_target_atomic as u64
                && x.fee_atomic == s.fee_atomic as u64 && x.unsigned_tx_hex == s.unsigned_tx_hex
                && x.signed_tx_hex == s.signed_tx_hex && x.txid == s.txid && x.state == s.state
        }),
{
}

/// Splits are listed by how far they are: built or signed ones as pending, sent ones with
/// their transaction, and given up ones that were sent.
pub proof fn law_splits_are_listed_by_how_far_they_are(
    s: VaultSplitView,
    v: VaultUtxoView,
    txid: [u8; 32],
)
    ensures
        pending_split()(s) <==> s.state == SplitState::Built || s.state == SplitState::Signed,
        broadcast_split()(s) <==> s.state == SplitState::Broadcast && s.txid is Some,
        abandoned_sent()(s) <==> s.state == SplitState::Abandoned && s.txid is Some,
        as_pending()(s).id == s.id && as_pending()(s).source_txid == s.source_txid
            && as_pending()(s).source_vout == s.source_vout && as_pending()(s).state == s.state,
        s.txid matches Some(t) ==> as_unconfirmed()(s).txid == t && as_unconfirmed()(s).id == s.id
            && as_unconfirmed()(s).signed_tx_hex == s.signed_tx_hex && as_flagged()(s) == (
            s.id,
            t@,
        ) && as_abandoned()(s) == (s.id, t@, s.abandoned_at),
        of_tx(txid)(v) <==> v.txid == txid,
{
}

/// Refunds are listed as long as they are open where only those are asked for: Goldcoin's
/// with the newest first, Solana's by their requests.
pub proof fn law_refunds_are_listed_while_open(
    a: GoldcoinRefundView,
    b: GoldcoinRefundView,
    x: SolanaRefundView,
    y: SolanaRefundView,
    i: RefundInputView,
    j: RefundInputView,
    open_only: bool,
)
    ensures
        listed_glc_refund(open_only)(a) <==> !open_only || a.state == GoldcoinRefundState::Built
            || a.state == GoldcoinRefundState::Signed || a.state == GoldcoinRefundState::Broadcast,
        a.built_at > b.built_at ==> newest_first()(a, b) && !newest_first()(b, a),
        a.built_at == b.built_at ==> (newest_first()(a, b) <==> a.request_id >= b.request_id),
        listed_sol_refund(open_only)(x) <==> !open_only || x.state == SolanaRefundState::Pending
            || x.state == SolanaRefundState::Broadcast,
        sol_refund_order()(x, y) <==> x.request_id <= y.request_id,
        input_order()(i, j) <==> i.input_order <= j.input_order,
{
}

/// What a Solana refund can take is told with the reserve's figures and what the other
/// open refunds take; it is enough where it is something and the rest covers it.
pub proof fn law_refund_capacity_is_told_with_its_figures(
    l: LedgerView,
    id: i64,
    amount: u64,
    r: ReserveRow,
)
    requires
        l.reserves.solana == Some(r),
        i64::MIN <= l.other_open_refunds(id) <= i64::MAX,
    ensures
        l.refund_capacity(id, amount) matches Ok(c) && c.amount_solana_atomic == amount
            && c.total_reserve_balance == r.total_reserve_balance && c.protected_minimum
            == r.protected_minimum && c.reserved_liquidity == r.reserved_liquidity
            && c.other_open_refunds_atomic == l.other_open_refunds(id) && (c.ok <==> amount > 0
            && r.total_reserve_balance - r.protected_minimum - r.reserved_liquidity
            - l.other_open_refunds(id) >= amount),
{
}

proof fn lemma_all_takable(
    rows: Seq<VaultUtxoView>,
    coins: Seq<CoinView>,
    k: int,
    id: i64,
    now: i64,
)
    requires
        0 <= k <= coins.len(),
        taken_count(rows, is_available(), coins, k, id, now) == k,
    ensures
        first_not_takable(rows, is_available(), coins, k, id, now) is None <==> taken_count(
            rows,
            is_available(),
            coins,
            coins.len() as int,
            id,
            now,
        ) == coins.len(),
    decreases coins.len() - k,
{
    if k < coins.len() {
        if not_takable(rows, is_available(), coins, k, id, now) {
            lemma_short(rows, coins, coins.len() as int, k, id, now);
        } else {
            lemma_all_takable(rows, coins, k + 1, id, now);
        }
    }
}

proof fn lemma_short(rows: Seq<VaultUtxoView>, coins: Seq<CoinView>, n: int, k: int, id: i64, now: i64)
    requires
        0 <= k < n <= coins.len(),
        not_takable(rows, is_available(), coins, k, id, now),
    ensures
        taken_count(rows, is_available(), coins, n, id, now) < n,
    decreases n,
{
    if n > k + 1 {
        lemma_short(rows, coins, n - 1, k, id, now);
    } else {
        lemma_at_most(rows, coins, k, id, now);
    }
}

proof fn lemma_at_most(rows: Seq<VaultUtxoView>, coins: Seq<CoinView>, n: int, id: i64, now: i64)
    requires
        0 <= n,
    ensures
        taken_count(rows, is_available(), coins, n, id, now) <= n,
    decreases n,
{
    if n > 0 {
        lemma_at_most(rows, coins, n - 1, id, now);
    }
}

/// The inputs of a Goldcoin refund are all there, or it does not begin: none is missing
/// exactly where each can be taken, and only an available output can be.
pub proof fn law_a_refund_takes_all_its_inputs(
    rows: Seq<VaultUtxoView>,
    coins: Seq<CoinView>,
    id: i64,
    now: i64,
    v: VaultUtxoView,
)
    ensures
        first_not_takable(rows, is_available(), coins, 0, id, now) is None <==> taken_count(
            rows,
            is_available(),
            coins,
            coins.len() as int,
            id,
            now,
        ) == coins.len(),
        is_available()(v) <==> v.state == VaultUtxoState::Available,
{
    lemma_all_takable(rows, coins, 0, id, now);
}

/// What is shown of a payment on Robinhood is its operation and how far it is. A request
/// touches Robinhood where one of its ends is there.
pub proof fn law_robinhood_is_told_apart(
    t: RobinhoodTxView,
    q: RequestView,
    b: RebalanceView,
    d: ReserveDirection,
)
    ensures
        as_evidence()(t).tx_id == t.id && as_evidence()(t).state == t.state,
        touches_robinhood()(q) <==> q.direction != Direction::GlcToSol && q.direction
            != Direction::SolToGlc,
        rebalance_of(d)(b) <==> b.direction == d,
{
}

/// An attestation is kept with its message and its hash, once for each request and action,
/// and shown under its number as it was kept.
pub proof fn law_an_attestation_is_kept_as_made(
    l: LedgerView,
    id: i64,
    action: Seq<char>,
    message: Seq<u8>,
    hash: Seq<u8>,
    now: i64,
    i: int,
)
    requires
        0 <= i < l.audit.attestations.len() < i64::MAX,
    ensures
        ({
            let m = l.attested(id, action, message, hash, now);
            let there = exists|k: int|
                0 <= k < l.audit.attestations.len() && (
                #[trigger] l.audit.attestations[k]).request_id == id
                    && l.audit.attestations[k].action_type == action;
            let x = numbered_attestation(i, l.audit.attestations[i]);
            &&& there ==> m == l
            &&& !there ==> m.audit.attestations == l.audit.attestations.push(
                AttestationView {
                    request_id: id,
                    action_type: action,
                    canonical_message: message,
                    message_hash: hash,
                    created_at: now,
                },
            )
            &&& x.id == i + 1 && x.request_id == l.audit.attestations[i].request_id && x.action_type
                == l.audit.attestations[i].action_type && x.canonical_message
                == l.audit.attestations[i].canonical_message && x.message_hash
                == l.audit.attestations[i].message_hash && x.created_at
                == l.audit.attestations[i].created_at
        }),
{
    let p = attests(id, action);
    let rows = l.audit.attestations;
    if any_row(rows, p) {
        let k = choose|k: int| 0 <= k < rows.len() && p(#[trigger] rows[k]);
        assert(rows[k].request_id == id);
    }
    assert forall|k: int|
        0 <= k < rows.len() && (#[trigger] rows[k]).request_id == id && rows[k].action_type
            == action implies any_row(rows, p) by {
        assert(p(rows[k]));
    }
}

/// A reorganisation that comes too late is recorded with the requests that it touches, as
/// one that pauses the bridge.
pub proof fn law_a_late_reorganisation_is_recorded(
    l: LedgerView,
    fork_height: i64,
    old_tip: i64,
    ids: Seq<i64>,
    now: i64,
)
    ensures
        ({
            let m = l.with_late_orphans(fork_height, old_tip, ids, now);
            let e = m.chain.post_finality.last();
            &&& m.chain.post_finality.len() == l.chain.post_finality.len() + 1
            &&& e.fork_height == fork_height && e.old_tip_height == old_tip && e.detected_at == now
                && e.affected_request_ids == number_list(ids) && e.auto_paused
            &&& m.requests == l.requests && m.reserves == l.reserves
        }),
{
}

} // verus!
