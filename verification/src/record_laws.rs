//! How rows are found by their keys, which steps the log tells, and when an amount is
//! refused because it cannot be stored.
use vstd::prelude::*;
use crate::chain::{at_height, unmatched_at};
use crate::custody::custody_by_id;
use crate::error::LedgerError;
use crate::flow_laws::lemma_sum_push;
use crate::holds::glc_refund_for;
use crate::in_flight::{rebalance_by_id, unstorable_payout};
use crate::ledger::{LedgerView, ReserveRow};
use crate::queries::{StateLogEntry, tells};
use crate::requests::{
    DepositChecks, GlcObservationOutcome, Sighting, lapsed, lapsed_on, promised,
};
use crate::reserves::{for_route, why_no_admission, why_not_switched};
use crate::resume::{payout_for, sol_refund_for};
use crate::route_rows::{admission_order, switch_order};
use crate::rows::{LogEntry, PayoutView, RequestView, RouteAdmissionView, RouteLedgerView};
use crate::splits::{chunk, split_by_id};
use crate::table::{first_row, is_first, lemma_first_row, select_rows, text_of};
use crate::types::{
    Direction, PayoutState, RequestState, ReserveDirection, Route, VaultUtxoState,
};

verus! {

/// A payout and a Solana refund are found by their request: the first row that has it.
pub proof fn law_payouts_and_refunds_are_found_by_their_request(l: LedgerView, id: i64, i: int)
    ensures
        0 <= i < l.payouts.len() && l.payouts[i].request_id == id && (forall|j: int|
            0 <= j < i ==> (#[trigger] l.payouts[j]).request_id != id) ==> l.payout(id) == Some(
            l.payouts[i],
        ),
        0 <= i < l.solana_refunds.len() && l.solana_refunds[i].request_id == id && (forall|j: int|
            0 <= j < i ==> (#[trigger] l.solana_refunds[j]).request_id != id) ==> l.sol_refund(id)
            == Some(l.solana_refunds[i]),
        0 <= i < l.goldcoin_refunds.len() && l.goldcoin_refunds[i].request_id == id && (forall|
            j: int,
        |
            0 <= j < i ==> (#[trigger] l.goldcoin_refunds[j]).request_id != id) ==> l.glc_refund(id)
            == Some(l.goldcoin_refunds[i]),
{
    if 0 <= i < l.payouts.len() && l.payouts[i].request_id == id && (forall|j: int|
        0 <= j < i ==> (#[trigger] l.payouts[j]).request_id != id) {
        assert(is_first(l.payouts, payout_for(id), i));
        lemma_first_row(l.payouts, payout_for(id), i);
    }
    if 0 <= i < l.solana_refunds.len() && l.solana_refunds[i].request_id == id && (forall|j: int|
        0 <= j < i ==> (#[trigger] l.solana_refunds[j]).request_id != id) {
        assert(is_first(l.solana_refunds, sol_refund_for(id), i));
        lemma_first_row(l.solana_refunds, sol_refund_for(id), i);
    }
    if 0 <= i < l.goldcoin_refunds.len() && l.goldcoin_refunds[i].request_id == id && (forall|
        j: int,
    |
        0 <= j < i ==> (#[trigger] l.goldcoin_refunds[j]).request_id != id) {
        assert(is_first(l.goldcoin_refunds, glc_refund_for(id), i));
        lemma_first_row(l.goldcoin_refunds, glc_refund_for(id), i);
    }
}

/// A split, a rebalance and a custody transition are found by their number: the first row
/// that has it.
pub proof fn law_proposals_and_splits_are_found_by_their_number(l: LedgerView, id: i64, i: int)
    ensures
        0 <= i < l.splits.len() && l.splits[i].id == id && (forall|j: int|
            0 <= j < i ==> (#[trigger] l.splits[j]).id != id) ==> l.split(id) == Some(l.splits[i]),
        0 <= i < l.proposals.rebalances.len() && l.proposals.rebalances[i].id == id && (forall|
            j: int,
        |
            0 <= j < i ==> (#[trigger] l.proposals.rebalances[j]).id != id) ==> l.rebalance(id)
            == Some(l.proposals.rebalances[i]),
        0 <= i < l.proposals.custody.len() && l.proposals.custody[i].id == id && (forall|j: int|
            0 <= j < i ==> (#[trigger] l.proposals.custody[j]).id != id) ==> l.custody(id) == Some(
            l.proposals.custody[i],
        ),
{
    if 0 <= i < l.splits.len() && l.splits[i].id == id && (forall|j: int|
        0 <= j < i ==> (#[trigger] l.splits[j]).id != id) {
        assert(is_first(l.splits, split_by_id(id), i));
        lemma_first_row(l.splits, split_by_id(id), i);
    }
    let b = l.proposals.rebalances;
    if 0 <= i < b.len() && b[i].id == id && (forall|j: int|
        0 <= j < i ==> (#[trigger] b[j]).id != id) {
        assert(is_first(b, rebalance_by_id(id), i));
        lemma_first_row(b, rebalance_by_id(id), i);
    }
    let c = l.proposals.custody;
    if 0 <= i < c.len() && c[i].id == id && (forall|j: int|
        0 <= j < i ==> (#[trigger] c[j]).id != id) {
        assert(is_first(c, custody_by_id(id), i));
        lemma_first_row(c, custody_by_id(id), i);
    }
}

/// A block is found by its height, an unmatched deposit by its outpoint, and a route's
/// switch by its route.
pub proof fn law_blocks_deposits_and_routes_are_found_by_their_keys(
    l: LedgerView,
    height: i64,
    txid: [u8; 32],
    vout: u32,
    route: Route,
    i: int,
)
    ensures
        0 <= i < l.chain.blocks.len() && l.chain.blocks[i].height == height && (forall|j: int|
            0 <= j < i ==> (#[trigger] l.chain.blocks[j]).height != height) ==> l.block_at(height)
            == Some(l.chain.blocks[i]),
        0 <= i < l.chain.unmatched.len() && l.chain.unmatched[i].txid == txid
            && l.chain.unmatched[i].vout == vout && (forall|j: int|
            0 <= j < i ==> (#[trigger] l.chain.unmatched[j]).txid != txid
                || l.chain.unmatched[j].vout != vout) ==> l.unmatched(txid, vout) == Some(
            l.chain.unmatched[i],
        ),
        0 <= i < l.routes.len() && l.routes[i].route == route && (forall|j: int|
            0 <= j < i ==> (#[trigger] l.routes[j]).route != route) ==> first_row(
            l.routes,
            for_route(route),
        ) == Some(i),
{
    let b = l.chain.blocks;
    if 0 <= i < b.len() && b[i].height == height && (forall|j: int|
        0 <= j < i ==> (#[trigger] b[j]).height != height) {
        assert(is_first(b, at_height(height), i));
        lemma_first_row(b, at_height(height), i);
    }
    let u = l.chain.unmatched;
    if 0 <= i < u.len() && u[i].txid == txid && u[i].vout == vout && (forall|j: int|
        0 <= j < i ==> (#[trigger] u[j]).txid != txid || u[j].vout != vout) {
        assert(is_first(u, unmatched_at(txid, vout), i));
        lemma_first_row(u, unmatched_at(txid, vout), i);
    }
    if 0 <= i < l.routes.len() && l.routes[i].route == route && (forall|j: int|
        0 <= j < i ==> (#[trigger] l.routes[j]).route != route) {
        assert(is_first(l.routes, for_route(route), i));
        lemma_first_row(l.routes, for_route(route), i);
    }
}

/// A step is told as it was logged: from where, to where, when and why.
pub proof fn law_a_step_is_told_as_logged(x: StateLogEntry, e: LogEntry)
    ensures
        tells(x, e) <==> x.0 == e.from_state && x.1 == e.to_state && x.2 == e.at && text_of(x.3)
            == e.reason,
{
}

/// Routes come in their order: from Goldcoin to Solana and back, to Robinhood and back,
/// then between Solana and Robinhood.
pub proof fn law_routes_come_in_their_order(
    a: RouteLedgerView,
    b: RouteLedgerView,
    x: RouteAdmissionView,
    y: RouteAdmissionView,
)
    ensures
        Route::GlcToSol.spec_rank() < Route::SolToGlc.spec_rank() < Route::GlcToRhn.spec_rank()
            < Route::RhnToGlc.spec_rank() < Route::SolToRhn.spec_rank()
            < Route::RhnToSol.spec_rank(),
        switch_order()(a, b) <==> a.route.spec_rank() <= b.route.spec_rank(),
        admission_order()(x, y) <==> x.route.spec_rank() <= y.route.spec_rank(),
{
}

/// A route that an operator cannot switch is refused with where its control is: at the
/// pause for the two between Goldcoin and Solana, nowhere for those that nothing settles.
/// One without an admission of its own is refused in the same way.
pub proof fn law_a_refused_switch_says_where_the_control_is(route: Route)
    ensures
        route == Route::GlcToSol || route == Route::SolToGlc ==> why_not_switched(route)
            == "this route's controls are the local pause and admission control (glc-admin pause / close-admission), never a bridge_routes write",
        route == Route::SolToRhn || route == Route::RhnToSol ==> why_not_switched(route)
            == "this route has no settlement machinery (Route::as_direction is None) and can never be executed, so it cannot be enabled",
        route == Route::SolToRhn || route == Route::RhnToSol ==> why_no_admission(route)
            == "this route has no settlement machinery (Route::as_direction is None) and can never be executed, so it has no admission to open or close",
        route == Route::GlcToSol || route == Route::GlcToRhn ==> why_no_admission(route)
            == "route-level admission exists only for the two INBOUND-TO-GOLDCOIN routes (SolToGlc, RhnToGlc); this route's destination reserve is not Goldcoin, so its control is that reserve's own pause",
{
}

/// A line of the log that the system wrote without a reason.
pub open spec fn line(id: i64, from: RequestState, to: RequestState, at: i64) -> LogEntry {
    LogEntry {
        request_id: id,
        from_state: Some(from),
        to_state: to,
        at,
        reason: None,
        actor: "system"@,
    }
}

/// The log tells each state that a payout leads its request through: authorised when it is
/// signed, submitted when it is sent, confirmed when it is deep enough, settled when it is
/// completed.
pub proof fn law_the_log_follows_a_payout(
    l: LedgerView,
    id: i64,
    q: RequestView,
    p: PayoutView,
    signed: Seq<char>,
    txid: [u8; 32],
    amounts: Seq<i64>,
    confirmations: i64,
    tip: i64,
    required: i64,
    now: i64,
)
    requires
        l.request(id) == Some(q),
        l.payout(id) == Some(p),
    ensures
        l.payout_signed(id, signed, now).state_log == l.state_log.push(
            line(id, q.state, RequestState::SettlementAuthorized, now),
        ),
        p.state == PayoutState::Signed ==> l.payout_sent(id, txid, amounts, now).state_log
            == l.state_log.push(line(id, q.state, RequestState::DestinationSubmitted, now)),
        p.state == PayoutState::Broadcast && confirmations >= required ==> l.payout_depth_seen(
            id,
            confirmations,
            tip,
            required,
            now,
        ).state_log == l.state_log.push(line(id, q.state, RequestState::DestinationConfirmed, now)),
        p.state == PayoutState::Broadcast && confirmations < required ==> l.payout_depth_seen(
            id,
            confirmations,
            tip,
            required,
            now,
        ).state_log == l.state_log,
        q.state != RequestState::Settled ==> l.payout_completed(id, now).state_log
            == l.state_log.push(line(id, q.state, RequestState::Settled, now)),
{
}

/// The log tells each state of a request up to its final deposit and beyond it: reserved
/// and waiting, final, waiting again after its block was orphaned, released and settled.
pub proof fn law_the_log_follows_a_request(
    l: LedgerView,
    id: i64,
    q: RequestView,
    now: i64,
    note: Seq<char>,
)
    requires
        l.request(id) == Some(q),
    ensures
        q.state != RequestState::SourceFinalized ==> l.finalized(id, now).state_log
            == l.state_log.push(line(id, q.state, RequestState::SourceFinalized, now)),
        l.reorged(id, now).state_log == l.state_log.push(
            (LogEntry {
                reason: Some("block_orphaned"@),
                ..line(id, q.state, RequestState::Reorged, now)
            }),
        ).push(line(id, RequestState::Reorged, RequestState::AwaitingDeposit, now)),
        q.state == RequestState::DestinationSubmitted && q.direction == Direction::GlcToSol
            ==> l.release_confirmed(id, now).state_log == l.state_log.push(
            line(id, q.state, RequestState::DestinationConfirmed, now),
        ).push(line(id, RequestState::DestinationConfirmed, RequestState::Settled, now)),
        q.state == RequestState::DestinationSubmitted && q.direction == Direction::RhnToSol
            ==> l.release_confirmed(id, now).state_log == l.state_log.push(
            line(id, q.state, RequestState::DestinationConfirmed, now),
        ),
        l.cancelled(id, now, note).state_log == l.state_log.push(
            (LogEntry {
                reason: Some(note),
                actor: "operator"@,
                ..line(id, q.state, RequestState::Cancelled, now)
            }),
        ),
{
}

/// The log tells what a Goldcoin deposit led to: seen and confirming, or in review with
/// the reason, after the promise was made again where it came late.
pub proof fn law_the_log_follows_a_deposit(
    l: LedgerView,
    id: i64,
    q: RequestView,
    at: Sighting,
    checks: DepositChecks,
    now: i64,
)
    requires
        l.request(id) == Some(q),
        q.state == RequestState::AwaitingDeposit,
        l.observation(id, at, checks) is Ok,
    ensures
        ({
            let m = l.after_observation(id, at, checks, now);
            let wait = RequestState::AwaitingDeposit;
            match l.observation(id, at, checks) {
                Ok(GlcObservationOutcome::Recorded) => m.state_log == l.state_log.push(
                    line(id, wait, RequestState::DepositObserved, now),
                ).push(line(id, RequestState::DepositObserved, RequestState::Confirming, now)),
                Ok(GlcObservationOutcome::AmountMismatch { .. }) => m.state_log
                    == l.state_log.push(
                    LogEntry {
                        reason: Some("deposit_amount_mismatch"@),
                        ..line(id, wait, RequestState::ManualReview, now)
                    },
                ),
                Ok(GlcObservationOutcome::WalletLimited { reason, .. }) => m.state_log
                    == l.state_log.push(
                    LogEntry {
                        reason: Some(reason@),
                        ..line(id, wait, RequestState::ManualReview, now)
                    },
                ),
                Ok(GlcObservationOutcome::RapidBurstHeld { .. }) => m.state_log.take(
                    l.state_log.len() as int + 1,
                ) == l.state_log.push(
                    LogEntry {
                        reason: Some("rapid_burst_hold"@),
                        ..line(id, wait, RequestState::ManualReview, now)
                    },
                ),
                _ => m == l,
            }
        }),
{
    let m = l.after_observation(id, at, checks, now);
    if l.observation(id, at, checks) matches Ok(GlcObservationOutcome::RapidBurstHeld { .. }) {
        assert(m.state_log.take(l.state_log.len() as int + 1) =~= l.state_log.push(
            LogEntry {
                reason: Some("rapid_burst_hold"@),
                ..line(id, RequestState::AwaitingDeposit, RequestState::ManualReview, now)
            },
        ));
    }
}

/// The log tells every reservation that lapsed, in the order of the table, and nothing
/// else of an expiry.
pub proof fn law_the_log_tells_what_lapsed(l: LedgerView, now: i64, k: int)
    requires
        0 <= k < select_rows(l.requests, lapsed(now)).len(),
    ensures
        ({
            let m = l.expired_at(now);
            let gone = select_rows(l.requests, lapsed(now));
            &&& m.state_log.len() == l.state_log.len() + gone.len()
            &&& m.state_log[l.state_log.len() + k] == (LogEntry {
                reason: Some("reservation_ttl_elapsed"@),
                ..line(gone[k].id, gone[k].state, RequestState::Expired, now)
            })
        }),
{
}

/// A change that a reserve's columns cannot store is refused, and only such a one: owing a
/// final deposit, freeing a cancelled promise, booking a release or a payout.
pub proof fn law_only_what_cannot_be_stored_is_out_of_range(
    l: LedgerView,
    id: i64,
    q: RequestView,
    r: ReserveRow,
    s: ReserveRow,
)
    requires
        l.request(id) == Some(q),
        l.reserves.solana == Some(r),
        l.reserves.goldcoin == Some(s),
        q.direction == Direction::GlcToSol,
    ensures
        ({
            let n = q.net_destination_atomic;
            let out = LedgerError::AmountOutOfRange;
            let books = i64::MIN <= r.reserved_liquidity - n <= i64::MAX && i64::MIN
                <= r.pending_obligations - n <= i64::MAX && i64::MIN <= r.total_reserve_balance - n
                <= i64::MAX && i64::MIN <= r.settled_liquidity_total + n <= i64::MAX && i64::MIN
                <= s.accrued_fees_atomic + q.fee_amount_atomic <= i64::MAX;
            &&& q.state == RequestState::Confirming ==> (l.finalize_result(id) == Err::<
                (),
                LedgerError,
            >(out) <==> !(i64::MIN <= r.pending_obligations + n <= i64::MAX))
            &&& l.cancel_result(id) == Err::<(), LedgerError>(out) <==> !(i64::MIN
                <= r.reserved_liquidity - n <= i64::MAX)
            &&& q.state == RequestState::DestinationSubmitted ==> (l.release_confirmed_result(id)
                == Err::<(), LedgerError>(out) <==> !books)
            &&& q.state != RequestState::DestinationSubmitted ==> l.release_confirmed_result(id)
                == Ok::<(), LedgerError>(())
        }),
{
}

/// Each reservation whose time is up gives what it promised back to the reserve it was
/// promised out of, and no other request and no other reserve counts.
pub proof fn law_a_lapsed_promise_goes_back_to_its_reserve(
    l: LedgerView,
    q: RequestView,
    now: i64,
    d: ReserveDirection,
)
    ensures
        l.requests.len() == 0 ==> l.lapsed_total(now, d) == 0,
        ({
            let more = LedgerView { requests: l.requests.push(q), ..l };
            let due = (q.state == RequestState::AwaitingDeposit || q.state
                == RequestState::LiquidityReserved) && (q.reservation_expires_at matches Some(t)
                && t <= now);
            let own = match q.direction {
                Direction::GlcToSol | Direction::RhnToSol => ReserveDirection::SolanaReserve,
                Direction::SolToGlc | Direction::RhnToGlc => ReserveDirection::GoldcoinReserve,
                Direction::GlcToRhn | Direction::SolToRhn => ReserveDirection::RobinhoodReserve,
            };
            more.lapsed_total(now, d) == l.lapsed_total(now, d) + (if due && own == d {
                q.net_destination_atomic as int
            } else {
                0
            })
        }),
{
    lemma_sum_push(l.requests, q, lapsed_on(now, d), promised());
}

/// An output of a split is free and unspent from the start, waits for its first
/// confirmation, and has the amount and the script that it was made with.
pub proof fn law_an_output_of_a_split_waits_to_confirm(
    txid: [u8; 32],
    vout: u32,
    amount: i64,
    script: Seq<char>,
    now: i64,
)
    ensures
        ({
            let v = chunk(txid, vout, amount, script, now);
            &&& v.state == VaultUtxoState::Unconfirmed && v.confirmations == 0
            &&& v.txid == txid && v.vout == vout && v.amount_atomic == amount
                && v.script_pubkey_hex == script && v.first_seen_at == now
            &&& v.reserved_by is None && v.reserved_at is None && v.spent_by_txid is None
                && v.zero_conf_hold_reason is None
        }),
{
}

/// What was sent and cannot be stored as one amount is not explained at all: the amount in
/// flight is refused.
pub proof fn law_an_unstorable_payout_is_not_explained(
    l: LedgerView,
    i: int,
    now: i64,
    secs: i64,
)
    requires
        0 <= i < l.payouts.len(),
        l.payouts[i].state == PayoutState::Broadcast,
        l.payouts[i].payout_atomic + l.payouts[i].change_atomic + l.payouts[i].fee_atomic
            > i64::MAX,
    ensures
        l.in_flight(ReserveDirection::GoldcoinReserve, now, secs) is Err,
{
    assert(unstorable_payout()(l.payouts[i]));
}

/// A missing request is told as such by every step that needs one.
pub proof fn law_a_missing_request_is_told(l: LedgerView, id: i64, p: PayoutView)
    requires
        l.request(id) is None,
    ensures
        l.cancel_result(id) == Err::<(), LedgerError>(LedgerError::RequestNotFound(id)),
        l.finalize_result(id) == Err::<(), LedgerError>(LedgerError::RequestNotFound(id)),
        l.release_confirmed_result(id) == Err::<(), LedgerError>(LedgerError::NoSuchRow),
        l.complete_payout_result(id) == Err::<(), LedgerError>(LedgerError::NoSuchRow),
        l.release_result(id) == Err::<bool, LedgerError>(LedgerError::RequestNotFound(id)),
        l.payout(id) == Some(p) && p.state == PayoutState::Signed ==> l.send_payout_result(id)
            == Err::<(), LedgerError>(LedgerError::NoSuchRow),
        l.payout(id) == Some(p) && p.state == PayoutState::Built ==> l.sign_payout_result(id)
            == Err::<(), LedgerError>(LedgerError::NoSuchRow),
{
}

} // verus!
