//! What holds of requests over several steps.
use vstd::prelude::*;
use crate::error::LedgerError;
use crate::folds::{SolDeposit, folded_request, folded_state, of_obligation};
use crate::ledger::{LedgerView, ReserveRow, by_id, lemma_request_id, lemma_with_request};
use crate::requests::{
    CreateRequestOutcome, DepositChecks, GlcObservationOutcome, Sighting, burst_held, deposits_to,
    expired_line, expired_row, fresh_request, lapsed, lapsed_on, mismatch_note, or_recorded,
    other_script_owner, promised, sighted,
};
use crate::rows::RequestView;
use crate::table::{
    count_rows, first_row, is_first, lemma_first_row, lemma_first_row_is_first, select_rows,
    sum_rows,
};
use crate::types::{
    Direction, RapidBurstMatch, RequestAmounts, RequestState, ReserveDirection,
    RouteWalletEligibility,
};

verus! {

/// A reservation that is granted leaves every reserve solvent, however little
/// headroom there was.
pub proof fn law_reserving_keeps_solvency(
    l: LedgerView,
    direction: Direction,
    amounts: RequestAmounts,
    eligibility: RouteWalletEligibility,
    recipient: Seq<u8>,
    requester: Option<[u8; 32]>,
    source_wallet: Option<Seq<u8>>,
    expires_at: i64,
    now: i64,
)
    requires
        l.solvent(),
        l.create_outcome(direction, amounts, eligibility) matches Ok(
            CreateRequestOutcome::Reserved { .. },
        ),
    ensures
        l.with_reservation(
            direction,
            amounts,
            recipient,
            requester,
            source_wallet,
            expires_at,
            now,
        ).solvent(),
{
    let m = l.with_reservation(
        direction,
        amounts,
        recipient,
        requester,
        source_wallet,
        expires_at,
        now,
    );
    assert forall|d: ReserveDirection| (#[trigger] m.reserves.row(d)) is Some implies m.reserves.row(
        d,
    ).unwrap().solvent() by {
        assert(l.reserves.row(d) is Some);
        assert(l.reserves.row(d).unwrap().solvent());
    }
}

proof fn lemma_new_request(l: LedgerView, row: RequestView)
    requires
        l.numbered(),
        l.next_request_id < i64::MAX,
        row.id == l.next_request_id,
    ensures
        l.with_new_request(row).request(row.id) == Some(row),
        l.with_new_request(row).pos(row.id) == Some(l.requests.len() as int),
        l.with_new_request(row).numbered(),
{
    let m = l.with_new_request(row);
    let k = l.requests.len() as int;
    assert(is_first(m.requests, by_id(row.id), k)) by {
        assert forall|j: int| 0 <= j < k implies !by_id(row.id)(#[trigger] m.requests[j]) by {
            assert(m.requests[j] == l.requests[j]);
        }
    }
    lemma_first_row(m.requests, by_id(row.id), k);
    assert forall|i: int, j: int| 0 <= i < j < m.requests.len() implies (#[trigger] m.requests[i]).id
        != (#[trigger] m.requests[j]).id by {
        assert(m.requests[i] == l.requests[i]);
        if j < k {
            assert(m.requests[j] == l.requests[j]);
        }
    }
    assert forall|i: int| 0 <= i < m.requests.len() implies (#[trigger] m.requests[i]).id
        < m.next_request_id by {
        if i < k {
            assert(m.requests[i] == l.requests[i]);
        }
    }
}

/// A reservation that is granted is read back under the number that was
/// returned, waits for its deposit, and leaves requests numbered apart.
pub proof fn law_a_reservation_is_read_back(
    l: LedgerView,
    direction: Direction,
    amounts: RequestAmounts,
    eligibility: RouteWalletEligibility,
    recipient: Seq<u8>,
    requester: Option<[u8; 32]>,
    source_wallet: Option<Seq<u8>>,
    expires_at: i64,
    now: i64,
)
    requires
        l.numbered(),
        l.create_outcome(direction, amounts, eligibility) matches Ok(
            CreateRequestOutcome::Reserved { .. },
        ),
    ensures
        ({
            let id = l.next_request_id;
            let m = l.with_reservation(
                direction,
                amounts,
                recipient,
                requester,
                source_wallet,
                expires_at,
                now,
            );
            &&& l.create_outcome(direction, amounts, eligibility) == Ok::<
                CreateRequestOutcome,
                LedgerError,
            >(CreateRequestOutcome::Reserved { request_id: id })
            &&& m.numbered()
            &&& m.request(id) == Some(
                RequestView {
                    reservation_expires_at: Some(expires_at),
                    source_wallet,
                    ..fresh_request(
                        id,
                        direction,
                        RequestState::AwaitingDeposit,
                        amounts,
                        recipient,
                        requester,
                        now,
                    )
                },
            )
        }),
{
    let id = l.next_request_id;
    let row = RequestView {
        reservation_expires_at: Some(expires_at),
        source_wallet,
        ..fresh_request(
            id,
            direction,
            RequestState::AwaitingDeposit,
            amounts,
            recipient,
            requester,
            now,
        )
    };
    lemma_new_request(l, row);
    let n = l.with_new_request(row);
    let m = l.with_reservation(
        direction,
        amounts,
        recipient,
        requester,
        source_wallet,
        expires_at,
        now,
    );
    assert(m.requests == n.requests);
    assert(m.next_request_id == n.next_request_id);
    assert(m.request(id) == n.request(id));
}

/// Cancelling a request that was just granted gives every reserve back exactly
/// what it had.
pub proof fn law_cancelling_undoes_a_reservation(
    l: LedgerView,
    direction: Direction,
    amounts: RequestAmounts,
    eligibility: RouteWalletEligibility,
    recipient: Seq<u8>,
    requester: Option<[u8; 32]>,
    source_wallet: Option<Seq<u8>>,
    expires_at: i64,
    now: i64,
    later: i64,
    note: Seq<char>,
)
    requires
        l.numbered(),
        amounts.storable(),
        l.create_outcome(direction, amounts, eligibility) matches Ok(
            CreateRequestOutcome::Reserved { .. },
        ),
    ensures
        ({
            let id = l.next_request_id;
            let m = l.with_reservation(
                direction,
                amounts,
                recipient,
                requester,
                source_wallet,
                expires_at,
                now,
            );
            &&& m.cancel_result(id) is Ok
            &&& m.cancelled(id, later, note).reserves == l.reserves
        }),
{
    law_a_reservation_is_read_back(
        l,
        direction,
        amounts,
        eligibility,
        recipient,
        requester,
        source_wallet,
        expires_at,
        now,
    );
    let id = l.next_request_id;
    let d = direction.spec_destination_reserve();
    let m = l.with_reservation(
        direction,
        amounts,
        recipient,
        requester,
        source_wallet,
        expires_at,
        now,
    );
    let q = m.request(id).unwrap();
    assert(q.net_destination_atomic == amounts.net_destination_atomic);
    let r = l.reserves.row(d).unwrap();
    assert(m.reserves.row(d) == Some(
        ReserveRow {
            reserved_liquidity: (r.reserved_liquidity + amounts.net_destination_atomic) as i64,
            ..r
        },
    ));
    let c = m.cancelled(id, later, note);
    assert(c.reserves.row(d) == Some(r));
    assert(c.reserves == l.reserves);
}

proof fn lemma_no_lapse_left(rows: Seq<RequestView>, now: i64, d: ReserveDirection)
    ensures
        sum_rows(rows.map_values(expired_row(now)), lapsed_on(now, d), promised()) == 0,
        select_rows(rows.map_values(expired_row(now)), lapsed(now)).len() == 0,
        count_rows(rows.map_values(expired_row(now)), lapsed(now)) == 0,
    decreases rows.len(),
{
    let out = rows.map_values(expired_row(now));
    if rows.len() > 0 {
        lemma_no_lapse_left(rows.drop_last(), now, d);
        assert(out.drop_last() =~= rows.drop_last().map_values(expired_row(now)));
        assert(out.last() == expired_row(now)(rows.last()));
    }
}

/// Expiring reservations ends exactly those whose time is up, whether they wait
/// for their deposit or were only promised, and gives each reserve back exactly
/// what they promised out of it. No other request and no other figure changes,
/// and a second sweep at that moment finds none.
pub proof fn law_expiring_gives_back_what_lapsed(
    l: LedgerView,
    now: i64,
    i: int,
    d: ReserveDirection,
)
    requires
        l.expiry_fits(now),
        0 <= i < l.requests.len(),
    ensures
        ({
            let m = l.expired_at(now);
            let q = l.requests[i];
            let due = (q.state == RequestState::AwaitingDeposit || q.state
                == RequestState::LiquidityReserved) && (q.reservation_expires_at matches Some(t)
                && t <= now);
            &&& m.requests.len() == l.requests.len()
            &&& m.requests[i] == (if due {
                RequestView { state: RequestState::Expired, ..q }
            } else {
                q
            })
            &&& match l.reserves.row(d) {
                Some(r) => m.reserves.row(d) == Some(
                    ReserveRow {
                        reserved_liquidity: (r.reserved_liquidity - sum_rows(
                            l.requests,
                            lapsed_on(now, d),
                            promised(),
                        )) as i64,
                        ..r
                    },
                ) && m.reserves.row(d).unwrap().reserved_liquidity == r.reserved_liquidity
                    - sum_rows(l.requests, lapsed_on(now, d), promised()),
                None => m.reserves.row(d) is None,
            }
            &&& m == (LedgerView {
                requests: m.requests,
                state_log: m.state_log,
                reserves: m.reserves,
                ..l
            })
            &&& m.expiry_fits(now)
            &&& count_rows(m.requests, lapsed(now)) == 0
            &&& m.expired_at(now) == m
        }),
{
    assert(l.reserved_fits(d, -l.lapsed_total(now, d)));
    law_expiring_twice_is_expiring_once(l, now);
}

/// Expiring reservations a second time at the same moment finds none and
/// changes nothing.
pub proof fn law_expiring_twice_is_expiring_once(l: LedgerView, now: i64)
    ensures
        l.expired_at(now).expiry_fits(now),
        count_rows(l.expired_at(now).requests, lapsed(now)) == 0,
        l.expired_at(now).expired_at(now) == l.expired_at(now),
{
    let m = l.expired_at(now);
    lemma_no_lapse_left(l.requests, now, ReserveDirection::GoldcoinReserve);
    lemma_no_lapse_left(l.requests, now, ReserveDirection::SolanaReserve);
    lemma_no_lapse_left(l.requests, now, ReserveDirection::RobinhoodReserve);
    assert(m.requests.map_values(expired_row(now)) =~= m.requests);
    assert(select_rows(m.requests, lapsed(now)).map_values(expired_line(now)) =~= Seq::empty());
    assert(m.expired_at(now).state_log =~= m.state_log);
    assert(m.expired_at(now).reserves == m.reserves);
}

proof fn lemma_lapsed_is_positive(rows: Seq<RequestView>, now: i64, d: ReserveDirection)
    requires
        forall|i: int| 0 <= i < rows.len() ==> (#[trigger] rows[i]).net_destination_atomic >= 0,
    ensures
        sum_rows(rows, lapsed_on(now, d), promised()) >= 0,
    decreases rows.len(),
{
    if rows.len() > 0 {
        let rest = rows.drop_last();
        assert forall|i: int| 0 <= i < rest.len() implies (#[trigger] rest[i]).net_destination_atomic
            >= 0 by {
            assert(rest[i] == rows[i]);
        }
        lemma_lapsed_is_positive(rest, now, d);
        assert(rows.last() == rows[rows.len() - 1]);
    }
}

/// Expiring reservations never makes a reserve less solvent.
pub proof fn law_expiring_keeps_solvency(l: LedgerView, now: i64)
    requires
        l.solvent(),
        l.expiry_fits(now),
        forall|i: int|
            0 <= i < l.requests.len() ==> (#[trigger] l.requests[i]).net_destination_atomic >= 0,
    ensures
        l.expired_at(now).solvent(),
{
    let m = l.expired_at(now);
    assert forall|d: ReserveDirection| (#[trigger] m.reserves.row(d)) is Some implies m.reserves.row(
        d,
    ).unwrap().solvent() by {
        lemma_lapsed_is_positive(l.requests, now, d);
        assert(l.reserved_fits(d, -l.lapsed_total(now, d)));
        assert(l.reserves.row(d) is Some);
        assert(l.reserves.row(d).unwrap().solvent());
    }
}

/// The request after its deposit was seen.
proof fn lemma_after_observation(
    l: LedgerView,
    id: i64,
    at: Sighting,
    checks: DepositChecks,
    now: i64,
)
    requires
        l.observation(id, at, checks) is Ok,
    ensures
        ({
            let m = l.after_observation(id, at, checks, now);
            match l.observation(id, at, checks) {
                Ok(GlcObservationOutcome::NoMatchingRequest) => m == l,
                Ok(GlcObservationOutcome::AlreadyRecorded) => m == l,
                Ok(GlcObservationOutcome::Recorded) => m.request(id) matches Some(q) && q.state
                    == RequestState::Confirming && q.source_txid == Some(at.txid),
                Ok(GlcObservationOutcome::LateDepositRecreated) => m.request(id) matches Some(q)
                    && q.state == RequestState::Confirming && q.source_txid == Some(at.txid),
                _ => m.request(id) matches Some(q) && q.state == RequestState::ManualReview,
            }
        }),
{
    if l.request(id) is Some {
        let q0 = l.request(id).unwrap();
        lemma_request_id(l, id);
        let l1 = if q0.state == RequestState::Expired {
            l.recreated(id, now)
        } else {
            l
        };
        if q0.state == RequestState::Expired {
            let again = RequestView {
                state: RequestState::AwaitingDeposit,
                reserved_at: Some(now),
                reservation_expires_at: None,
                ..q0
            };
            lemma_with_request(l, id, again);
            assert(l1.requests == l.with_request(id, again).requests);
            assert(l1.request(id) == Some(again));
        }
        let p = l1.request(id).unwrap();
        let wallet = checks.primary_source_wallet;
        match l.observation(id, at, checks) {
            Ok(GlcObservationOutcome::LateDepositNoCapacity) => {
                lemma_with_request(
                    l,
                    id,
                    RequestView {
                        state: RequestState::ManualReview,
                        manual_review_note: Some("late_deposit_no_capacity"@),
                        ..sighted(q0, at)
                    },
                );
            },
            Ok(GlcObservationOutcome::AmountMismatch { .. }) => {
                lemma_with_request(
                    l1,
                    id,
                    RequestView {
                        state: RequestState::ManualReview,
                        manual_review_note: Some(
                            mismatch_note(p.gross_amount_atomic, at.observed_amount),
                        ),
                        observed_amount_atomic: Some(at.observed_amount as i64),
                        ..sighted(p, at)
                    },
                );
            },
            Ok(GlcObservationOutcome::RapidBurstHeld { .. }) => {
                lemma_parked(l1, id, at, wallet, "rapid_burst_hold"@, now);
                let m = l1.parked_deposit(id, at, wallet, "rapid_burst_hold"@, now);
                let held = burst_held(m.request(id).unwrap(), checks.burst.unwrap(), now);
                lemma_with_request(m, id, held);
            },
            Ok(GlcObservationOutcome::WalletLimited { reason, .. }) => {
                lemma_parked(l1, id, at, wallet, reason@, now);
            },
            Ok(GlcObservationOutcome::NoMatchingRequest) => {},
            Ok(GlcObservationOutcome::AlreadyRecorded) => {},
            Ok(_) => {
                lemma_with_request(
                    l1,
                    id,
                    RequestView {
                        state: RequestState::Confirming,
                        source_confirmations: 1,
                        source_wallet: or_recorded(wallet, p.source_wallet),
                        ..sighted(p, at)
                    },
                );
            },
            Err(_) => {},
        }
    }
}

proof fn lemma_parked(
    l: LedgerView,
    id: i64,
    at: Sighting,
    wallet: Option<Seq<u8>>,
    note: Seq<char>,
    now: i64,
)
    requires
        l.request(id) matches Some(p) && p.id == id,
    ensures
        l.parked_deposit(id, at, wallet, note, now).request(id) matches Some(q) && q.id == id
            && q.state == RequestState::ManualReview,
{
    let p = l.request(id).unwrap();
    lemma_with_request(
        l,
        id,
        RequestView {
            state: RequestState::ManualReview,
            manual_review_note: Some(note),
            observed_amount_atomic: Some(at.observed_amount as i64),
            source_wallet: or_recorded(wallet, p.source_wallet),
            ..sighted(p, at)
        },
    );
}

/// Seeing the same deposit again changes nothing, whatever the wallet checks
/// find the second time.
pub proof fn law_a_replayed_deposit_changes_nothing(
    l: LedgerView,
    id: i64,
    at: Sighting,
    checks: DepositChecks,
    now: i64,
    again: DepositChecks,
    later: i64,
)
    requires
        l.observation(id, at, checks) is Ok,
    ensures
        ({
            let m = l.after_observation(id, at, checks, now);
            &&& m.observation(id, at, again) is Ok
            &&& m.after_observation(id, at, again, later) == m
        }),
{
    lemma_after_observation(l, id, at, checks, now);
}

/// Seeing a deposit keeps every reserve solvent, also where a reservation that
/// had expired is granted again.
pub proof fn law_seeing_a_deposit_keeps_solvency(
    l: LedgerView,
    id: i64,
    at: Sighting,
    checks: DepositChecks,
    now: i64,
)
    requires
        l.solvent(),
        l.observation(id, at, checks) is Ok,
    ensures
        l.after_observation(id, at, checks, now).solvent(),
{
    let m = l.after_observation(id, at, checks, now);
    assert forall|d: ReserveDirection| (#[trigger] m.reserves.row(d)) is Some implies m.reserves.row(
        d,
    ).unwrap().solvent() by {
        assert(l.reserves.row(d) is Some);
        assert(l.reserves.row(d).unwrap().solvent());
    }
}

/// A ledger that was just opened numbers its requests apart and owes nothing.
pub proof fn law_a_fresh_ledger_is_sound(solana_program_id: [u8; 32], now: i64)
    ensures
        LedgerView::fresh(solana_program_id, now).numbered(),
        LedgerView::fresh(solana_program_id, now).solvent(),
{
}

/// A deposit that is folded is read back under the number that was returned,
/// and leaves requests numbered apart.
pub proof fn law_a_fold_is_read_back(
    l: LedgerView,
    d: SolDeposit,
    note: Option<Seq<char>>,
    why: Seq<char>,
    burst: Option<RapidBurstMatch>,
    now: i64,
)
    requires
        l.numbered(),
        l.fold_outcome(d, Ok(note)) is Ok,
        first_row(l.requests, of_obligation(d.obligation_index)) is None,
    ensures
        ({
            let id = l.next_request_id;
            let m = l.after_fold(d, Ok(note), why, burst, now);
            &&& m.numbered()
            &&& m.request(id) matches Some(q) && q.state == folded_state(note)
                && q.manual_review_note == note && q.net_destination_atomic
                == d.amounts.net_destination_atomic as i64 && q.source_obligation_index == Some(
                d.obligation_index,
            )
        }),
{
    let row = folded_request(l.next_request_id, d, note, l.solana_program_id, now);
    let held = match burst {
        Some(m) => burst_held(row, m, now),
        None => row,
    };
    let base = l.with_next_gate(d.direction.spec_destination_reserve(), now);
    assert(base.requests == l.requests && base.next_request_id == l.next_request_id);
    assert(base.numbered());
    lemma_new_request(base, held);
    let m = l.after_fold(d, Ok(note), why, burst, now);
    assert(m.requests == base.with_new_request(held).requests);
    assert(m.next_request_id == base.with_new_request(held).next_request_id);
    assert(m.pos(row.id) == base.with_new_request(held).pos(row.id));
}

/// Writing over a request keeps requests numbered apart.
pub proof fn law_rewriting_keeps_numbers_apart(l: LedgerView, row: RequestView)
    requires
        l.numbered(),
    ensures
        l.with_request(row.id, row).numbered(),
{
    lemma_first_row_is_first(l.requests, by_id(row.id));
    let m = l.with_request(row.id, row);
    assert forall|i: int, j: int| 0 <= i < j < m.requests.len() implies (#[trigger] m.requests[i]).id
        != (#[trigger] m.requests[j]).id by {
        assert(m.requests[i].id == l.requests[i].id);
        assert(m.requests[j].id == l.requests[j].id);
    }
    assert forall|i: int| 0 <= i < m.requests.len() implies (#[trigger] m.requests[i]).id
        < m.next_request_id by {
        assert(m.requests[i].id == l.requests[i].id);
    }
}

/// No two requests are ever given the same deposit script, and the script of a
/// request leads back to that request.
pub proof fn law_a_deposit_script_leads_to_one_request(
    l: LedgerView,
    id: i64,
    address: Seq<char>,
    script: Seq<char>,
    redeem_script: Seq<char>,
)
    requires
        l.numbered(),
        l.scripts_apart(),
        l.deposit_address_result(id, address, script) is Ok,
    ensures
        ({
            let m = l.with_deposit_address(id, address, script, redeem_script);
            &&& m.numbered()
            &&& m.scripts_apart()
            &&& l.request(id).unwrap().deposit_address is None ==> (first_row(
                m.requests,
                deposits_to(script),
            ) matches Some(i) && m.requests[i].id == id)
        }),
{
    let q = l.request(id).unwrap();
    lemma_first_row_is_first(l.requests, by_id(id));
    if q.deposit_address is None {
        let row = RequestView {
            deposit_address: Some(address),
            deposit_script_pubkey_hex: Some(script),
            deposit_redeem_script_hex: Some(redeem_script),
            ..q
        };
        let m = l.with_request(id, row);
        let k = l.pos(id).unwrap();
        law_rewriting_keeps_numbers_apart(l, row);
        let other = other_script_owner(id, script);
        assert forall|i: int| 0 <= i < l.requests.len() && i != k implies (
        #[trigger] l.requests[i]).deposit_script_pubkey_hex != Some(script) by {
            assert(l.requests[i].id != id);
            assert(!other(l.requests[i]));
        }
        assert forall|i: int, j: int|
            0 <= i < j < m.requests.len() && (
            #[trigger] m.requests[i]).deposit_script_pubkey_hex is Some implies (
        #[trigger] m.requests[j]).deposit_script_pubkey_hex
            != m.requests[i].deposit_script_pubkey_hex by {
            if i != k {
                assert(m.requests[i] == l.requests[i]);
            }
            if j != k {
                assert(m.requests[j] == l.requests[j]);
            }
        }
        assert(is_first(m.requests, deposits_to(script), k)) by {
            assert forall|i: int| 0 <= i < k implies !deposits_to(script)(
                #[trigger] m.requests[i],
            ) by {
                assert(m.requests[i] == l.requests[i]);
            }
        }
        lemma_first_row(m.requests, deposits_to(script), k);
    }
}

} // verus!
