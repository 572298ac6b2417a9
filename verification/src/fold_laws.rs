//! What becomes of a Solana deposit, by what stands in its way.
use vstd::prelude::*;
use crate::error::LedgerError;
use crate::folds::{SolDeposit, SolFoldOutcome, of_obligation, rhn_recipient};
use crate::ledger::{LedgerView, ReserveRow};
use crate::reserves::admission_for;
use crate::table::{
    any_row, is_first, lemma_count_bound, lemma_first_row, lemma_first_row_is_first,
};
use crate::types::{
    Direction, ManualReviewDisposition, RapidBurstMatch, RapidBurstRule, RequestState,
    Route, RouteWalletEligibility, SourceChain,
};

verus! {

/// The reserve's liquidity gate once it was looked at: closed below the buffer,
/// and, once closed, until the reopen mark; without a buffer open.
pub open spec fn gate_after(r: ReserveRow) -> bool {
    let room = r.total_reserve_balance - r.protected_minimum - r.reserved_liquidity;
    r.admission_buffer_atomic > 0 && (room < r.admission_buffer_atomic || (
    r.liquidity_admission_closed && room < r.admission_reopen_atomic))
}

/// A deposit for Goldcoin is parked with the note of the first thing that stands
/// in its way: a burst, a refusal, then the route, the reserve's admission, its
/// pause, the source wallet, the recipient, the pool of outputs, the liquidity
/// buffer and the capacity. It is admitted where there is none.
pub proof fn law_a_deposit_for_goldcoin_is_parked_for_its_first_obstacle(
    l: LedgerView,
    r: ReserveRow,
    net: i64,
    e: RouteWalletEligibility,
    refusal: Option<Seq<char>>,
    burst: Option<RapidBurstMatch>,
)
    requires
        l.reserves.goldcoin == Some(r),
        i64::MIN <= r.total_reserve_balance - r.protected_minimum - r.reserved_liquidity
            <= i64::MAX,
        r.admission_reopen_atomic >= r.admission_buffer_atomic,
        l.vault_utxos.len() <= i64::MAX,
    ensures
        ({
            let room = r.total_reserve_balance - r.protected_minimum - r.reserved_liquidity;
            let coins = l.utxo_count(l.spendable());
            let note = l.sol_to_glc_note(net, e, refusal, burst);
            note == Ok::<Option<Seq<char>>, LedgerError>(
                if burst is Some {
                    Some("rapid_burst_hold"@)
                } else if refusal is Some {
                    refusal
                } else if l.route_closed(Route::SolToGlc) {
                    Some("route_admission_closed_at_fold"@)
                } else if r.admission_closed {
                    Some("admission_closed_at_fold"@)
                } else if r.paused {
                    Some("reserve_paused_at_fold"@)
                } else if e.source_retry_after is Some {
                    Some("wallet_source_24h_limit"@)
                } else if e.destination_retry_after is Some {
                    Some("wallet_destination_24h_limit"@)
                } else if r.utxo_pool_min_available_count > 0 && coins
                    <= r.utxo_pool_min_available_count {
                    Some("utxo_liquidity_low_at_fold"@)
                } else if gate_after(r) || (r.admission_buffer_atomic > 0 && room - net
                    < r.admission_buffer_atomic) {
                    Some("liquidity_buffer_low_at_fold"@)
                } else if net > room {
                    Some("insufficient_capacity_at_fold"@)
                } else {
                    None
                },
            )
        }),
{
    lemma_count_bound(l.vault_utxos, l.spendable());
}

/// A deposit for Robinhood is parked in the same order; a destination that cannot
/// be paid and a route that is off come before the reserve's own gates, and no
/// output of the vault is asked for.
pub proof fn law_a_deposit_for_robinhood_is_parked_for_its_first_obstacle(
    l: LedgerView,
    r: ReserveRow,
    net: i64,
    e: RouteWalletEligibility,
    deliverable: bool,
    route_open: bool,
    refusal: Option<Seq<char>>,
    burst: Option<RapidBurstMatch>,
)
    requires
        l.reserves.robinhood == Some(r),
        i64::MIN <= r.total_reserve_balance - r.protected_minimum - r.reserved_liquidity
            <= i64::MAX,
        r.admission_reopen_atomic >= r.admission_buffer_atomic,
    ensures
        ({
            let room = r.total_reserve_balance - r.protected_minimum - r.reserved_liquidity;
            let note = l.sol_to_rhn_note(net, e, deliverable, route_open, refusal, burst);
            note == Ok::<Option<Seq<char>>, LedgerError>(
                if burst is Some {
                    Some("rapid_burst_hold"@)
                } else if refusal is Some {
                    refusal
                } else if !deliverable {
                    Some("undeliverable destination"@)
                } else if !route_open {
                    Some("route_disabled_at_fold"@)
                } else if l.route_closed(Route::SolToRhn) {
                    Some("route_admission_closed_at_fold"@)
                } else if r.admission_closed {
                    Some("admission_closed_at_fold"@)
                } else if r.paused {
                    Some("reserve_paused_at_fold"@)
                } else if e.source_retry_after is Some {
                    Some("wallet_source_24h_limit"@)
                } else if e.destination_retry_after is Some {
                    Some("wallet_destination_24h_limit"@)
                } else if gate_after(r) || (r.admission_buffer_atomic > 0 && room - net
                    < r.admission_buffer_atomic) {
                    Some("liquidity_buffer_low_at_fold"@)
                } else if net > room {
                    Some("insufficient_capacity_at_fold"@)
                } else {
                    None
                },
            )
        }),
{
}

/// A route's own admission is that of its row, and open where it has none.
pub proof fn law_a_route_is_closed_by_its_own_row(l: LedgerView, route: Route, i: int)
    requires
        0 <= i < l.route_admission.len(),
        l.route_admission[i].route == route,
        forall|j: int| 0 <= j < i ==> (#[trigger] l.route_admission[j]).route != route,
    ensures
        l.route_closed(route) == l.route_admission[i].admission_closed,
{
    assert(is_first(l.route_admission, admission_for(route), i));
    lemma_first_row(l.route_admission, admission_for(route), i);
}

/// A new Solana deposit is recorded as it was made: with its amounts, its two
/// wallets, the obligation and the program that it belongs to, as a final deposit,
/// under the next number. Admitted it is final, and the reserve that it draws on
/// promises and owes exactly its payout; parked it is in review with its note and
/// every figure stays. A burst holds it until its moment.
pub proof fn law_a_fold_records_the_deposit(
    l: LedgerView,
    d: SolDeposit,
    note: Option<Seq<char>>,
    why: Seq<char>,
    burst: Option<RapidBurstMatch>,
    now: i64,
    r: ReserveRow,
)
    requires
        d.direction == Direction::SolToGlc || d.direction == Direction::SolToRhn,
        d.amounts.storable(),
        burst is Some ==> note is Some,
        d.direction == Direction::SolToGlc ==> l.reserves.goldcoin == Some(r),
        d.direction == Direction::SolToRhn ==> l.reserves.robinhood == Some(r),
        !any_row(l.requests, of_obligation(d.obligation_index)),
        l.next_request_id < i64::MAX,
        r.reserved_liquidity + d.amounts.net_destination_atomic <= i64::MAX,
        r.pending_obligations + d.amounts.net_destination_atomic <= i64::MAX,
        r.admission_reopen_atomic >= r.admission_buffer_atomic,
    ensures
        ({
            let m = l.after_fold(d, Ok(note), why, burst, now);
            let id = l.next_request_id;
            let q = m.requests.last();
            let taken = if note is None {
                d.amounts.net_destination_atomic as int
            } else {
                0
            };
            let after = if d.direction == Direction::SolToGlc {
                m.reserves.goldcoin
            } else {
                m.reserves.robinhood
            };
            let closed = gate_after(r);
            &&& l.fold_outcome(d, Ok(note)) == Ok::<SolFoldOutcome, LedgerError>(
                if note is None {
                    SolFoldOutcome::FoldedFinalized { request_id: id }
                } else {
                    SolFoldOutcome::FoldedManualReview { request_id: id }
                },
            )
            &&& m.requests.len() == l.requests.len() + 1 && m.requests.drop_last() == l.requests
            &&& m.next_request_id == id + 1
            &&& q.id == id && q.direction == d.direction
            &&& q.state == (if note is None {
                RequestState::SourceFinalized
            } else {
                RequestState::ManualReview
            })
            &&& q.manual_review_note == note
            &&& q.gross_amount_atomic == d.amounts.gross_atomic && q.fee_amount_atomic
                == d.amounts.fee_atomic && q.fee_bps == d.amounts.fee_bps && q.net_amount_atomic
                == d.amounts.net_atomic && q.net_destination_atomic
                == d.amounts.net_destination_atomic
            &&& q.recipient == d.recipient && q.requester == Some(d.requester)
                && q.source_wallet == Some(d.requester@)
            &&& q.source_chain == SourceChain::Solana && q.source_obligation_index == Some(
                d.obligation_index,
            ) && q.source_contract == Some(l.solana_program_id@)
            &&& q.source_finalized_at == Some(now) && q.created_at == now && q.destination_txid is None
                && q.settled_at is None && q.source_confirmations == 1
            &&& match burst {
                Some(b) => q.manual_review_disposition == ManualReviewDisposition::RapidBurstHold
                    && q.review_after == Some(b.review_after) && q.hold_started_at == Some(now)
                    && q.hold_reason == Some(
                    if b.rule == RapidBurstRule::SourceWallet {
                        "rapid_burst:source_wallet"@
                    } else {
                        "rapid_burst:destination_wallet"@
                    },
                ),
                None => q.manual_review_disposition == ManualReviewDisposition::Normal
                    && q.hold_started_at is None,
            }
            &&& after == Some(
                ReserveRow {
                    reserved_liquidity: (r.reserved_liquidity + taken) as i64,
                    pending_obligations: (r.pending_obligations + taken) as i64,
                    liquidity_admission_closed: closed,
                    liquidity_admission_closed_at: if closed == r.liquidity_admission_closed {
                        r.liquidity_admission_closed_at
                    } else {
                        Some(now)
                    },
                    ..r
                },
            )
            &&& m.reserves.solana == l.reserves.solana
            &&& m.state_log.len() == l.state_log.len() + (if burst is Some {
                2int
            } else {
                1
            })
            &&& m.state_log[l.state_log.len() as int].reason == Some(why)
                && m.state_log[l.state_log.len() as int].request_id == id
                && m.state_log[l.state_log.len() as int].to_state == q.state
        }),
{
    let m = l.after_fold(d, Ok(note), why, burst, now);
    lemma_first_row_is_first(l.requests, of_obligation(d.obligation_index));
    assert(m.requests.drop_last() =~= l.requests);
}

/// A deposit for Robinhood is paid to the address that was read from it, and where
/// none could be read what was given is kept as it is.
pub proof fn law_a_robinhood_recipient_is_the_address_given(evm: Option<[u8; 20]>, raw: Seq<u8>)
    ensures
        evm matches Some(a) ==> rhn_recipient(evm, raw) == a@,
        evm is None ==> rhn_recipient(evm, raw) == raw,
{
}

/// A deposit is known again by its obligation, on Solana, whatever else is
/// recorded of it.
pub proof fn law_a_deposit_is_known_by_its_obligation(
    l: LedgerView,
    d: SolDeposit,
    i: int,
    note: Result<Option<Seq<char>>, LedgerError>,
    why: Seq<char>,
    burst: Option<RapidBurstMatch>,
    now: i64,
)
    requires
        0 <= i < l.requests.len(),
        l.requests[i].source_chain == SourceChain::Solana,
        l.requests[i].source_obligation_index == Some(d.obligation_index),
        forall|j: int|
            0 <= j < i ==> (#[trigger] l.requests[j]).source_chain != SourceChain::Solana
                || l.requests[j].source_obligation_index != Some(d.obligation_index),
    ensures
        l.fold_outcome(d, note) == Ok::<SolFoldOutcome, LedgerError>(
            SolFoldOutcome::AlreadyFolded { request_id: l.requests[i].id },
        ),
        l.after_fold(d, note, why, burst, now) == l,
{
    let p = of_obligation(d.obligation_index);
    assert(is_first(l.requests, p, i));
    lemma_first_row(l.requests, p, i);
}

} // verus!
