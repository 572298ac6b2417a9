//! Requests from the reservation to the settlement.
use bridge_ledger::error::LedgerError;
use bridge_ledger::ledger::Ledger;
use bridge_ledger::queries::TransferAddressFilter;
use bridge_ledger::requests::{
    CreateRequestOutcome, GlcObservationOutcome, Sighting, TracedWallet,
};
use bridge_ledger::types::{
    Direction, ManualReviewDisposition, RapidBurstMatch, RapidBurstRule, RequestAmounts,
    RequestState, ReserveDirection, RouteWalletEligibility, WalletRole,
};

const PROGRAM: [u8; 32] = [9; 32];

fn amounts(net: u64) -> RequestAmounts {
    RequestAmounts {
        gross_atomic: net + 30,
        fee_bps: 300,
        fee_atomic: 30,
        net_atomic: net,
        net_destination_atomic: net,
    }
}

fn free() -> RouteWalletEligibility {
    RouteWalletEligibility { source_retry_after: None, destination_retry_after: None }
}

fn ledger() -> Ledger {
    let mut l = Ledger::open_in_memory(PROGRAM, 1);
    l.configure_reserve(ReserveDirection::SolanaReserve, 10_000, 1_000, 9_000, 4_000, 2_000, 1);
    l.configure_reserve(ReserveDirection::GoldcoinReserve, 10_000, 1_000, 9_000, 4_000, 2_000, 1);
    l.configure_reserve(ReserveDirection::RobinhoodReserve, 10_000, 1_000, 9_000, 4_000, 2_000, 1);
    l
}

fn reserve(l: &mut Ledger, direction: Direction, net: u64, now: i64) -> i64 {
    match l.create_request(direction, amounts(net), &[1, 2, 3], None, free(), 600, now) {
        Ok(CreateRequestOutcome::Reserved { request_id }) => request_id,
        other => panic!("not reserved: {:?}", other),
    }
}

fn seen(tx: u8, amount: u64) -> Sighting {
    Sighting {
        txid: [tx; 32],
        vout: 1,
        observed_amount: amount,
        block_height: 100,
        block_hash: [7; 32],
    }
}

fn reserved(l: &Ledger, d: ReserveDirection) -> u64 {
    l.reserve_snapshot(d).unwrap().2
}

#[test]
fn a_reservation_takes_headroom_and_reads_back() {
    let mut l = ledger();
    let id = reserve(&mut l, Direction::GlcToSol, 2_000, 50);
    assert_eq!(id, 1);
    assert_eq!(reserved(&l, ReserveDirection::SolanaReserve), 2_000);
    assert_eq!(l.available_capacity(ReserveDirection::SolanaReserve), Ok(7_000));
    let q = l.get_request(id).unwrap();
    assert_eq!(q.state, RequestState::AwaitingDeposit);
    assert_eq!(q.reservation_expires_at, Some(650));
    assert_eq!(q.net_destination_atomic, 2_000);
    assert_eq!(q.gross_amount_atomic, 2_030);
    let log = l.state_log(id);
    assert_eq!(log.len(), 2);
    assert_eq!(log[0], (None, RequestState::LiquidityReserved, 50, None));
    assert_eq!(
        log[1],
        (Some(RequestState::LiquidityReserved), RequestState::AwaitingDeposit, 50, None)
    );
}

#[test]
fn a_reservation_is_refused_for_its_own_reason() {
    let mut l = ledger();
    let out = l.create_request(Direction::GlcToSol, amounts(9_001), &[1], None, free(), 600, 5);
    assert_eq!(
        out,
        Ok(CreateRequestOutcome::InsufficientLiquidity { available_capacity: 9_000 })
    );
    let busy = RouteWalletEligibility { source_retry_after: None, destination_retry_after: Some(77) };
    let out = l.create_request(Direction::GlcToSol, amounts(10), &[1], None, busy, 600, 5);
    assert_eq!(out, Ok(CreateRequestOutcome::WalletLimited { eligibility: busy }));
    l.set_paused(ReserveDirection::SolanaReserve, true, Some("drill")).unwrap();
    let out = l.create_request(Direction::GlcToSol, amounts(10), &[1], None, busy, 600, 5);
    assert_eq!(out, Ok(CreateRequestOutcome::Paused));
    let mut empty = Ledger::open_in_memory(PROGRAM, 1);
    let out = empty.create_request(Direction::GlcToSol, amounts(10), &[1], None, free(), 600, 5);
    assert_eq!(out, Err(LedgerError::NoSuchRow));
}

#[test]
fn the_last_unit_of_headroom_can_be_reserved() {
    let mut l = ledger();
    reserve(&mut l, Direction::GlcToSol, 9_000, 5);
    assert_eq!(l.available_capacity(ReserveDirection::SolanaReserve), Ok(0));
    assert_eq!(l.check_invariant(ReserveDirection::SolanaReserve), Ok(()));
}

#[test]
fn cancelling_gives_the_reservation_back() {
    let mut l = ledger();
    let before = l.reserve_snapshot(ReserveDirection::SolanaReserve);
    let id = reserve(&mut l, Direction::GlcToSol, 2_000, 50);
    assert_eq!(l.cancel_request(id, 60, "changed their mind"), Ok(()));
    assert_eq!(l.reserve_snapshot(ReserveDirection::SolanaReserve), before);
    assert_eq!(l.get_request(id).unwrap().state, RequestState::Cancelled);
    assert_eq!(l.cancel_request(99, 60, "x"), Err(LedgerError::RequestNotFound(99)));
}

#[test]
fn lapsed_reservations_expire_once() {
    let mut l = ledger();
    let first = reserve(&mut l, Direction::GlcToSol, 2_000, 50);
    let second = reserve(&mut l, Direction::GlcToSol, 1_000, 500);
    assert_eq!(l.expire_reservations(649), Ok(0));
    assert_eq!(l.expire_reservations(650), Ok(1));
    assert_eq!(reserved(&l, ReserveDirection::SolanaReserve), 1_000);
    assert_eq!(l.expire_reservations(650), Ok(0));
    assert_eq!(l.get_request(first).unwrap().state, RequestState::Expired);
    assert_eq!(l.get_request(second).unwrap().state, RequestState::AwaitingDeposit);
    let log = l.state_log(first);
    assert_eq!(log[2].3.as_deref(), Some("reservation_ttl_elapsed"));
}

#[test]
fn reservations_lapse_before_and_while_they_wait() {
    let mut l = ledger();
    let first = reserve(&mut l, Direction::GlcToSol, 2_000, 50);
    let second = reserve(&mut l, Direction::SolToRhn, 1_000, 50);
    let third = reserve(&mut l, Direction::GlcToSol, 500, 51);
    let paid = reserve(&mut l, Direction::GlcToSol, 300, 50);
    let at = l.requests.iter().position(|q| q.id == second).unwrap();
    l.requests[at].state = RequestState::LiquidityReserved;
    l.record_glc_deposit_observed(paid, seen(4, 330), None, None, 60).unwrap();
    assert_eq!(l.expire_reservations(650), Ok(2));
    for (id, was) in [
        (first, RequestState::AwaitingDeposit),
        (second, RequestState::LiquidityReserved),
    ] {
        assert_eq!(l.get_request(id).unwrap().state, RequestState::Expired);
        assert_eq!(
            l.state_log(id).last().unwrap(),
            &(
                Some(was),
                RequestState::Expired,
                650,
                Some("reservation_ttl_elapsed".to_string())
            )
        );
    }
    assert_eq!(l.get_request(third).unwrap().state, RequestState::AwaitingDeposit);
    assert_eq!(l.get_request(paid).unwrap().state, RequestState::Confirming);
    assert_eq!(reserved(&l, ReserveDirection::SolanaReserve), 800);
    assert_eq!(reserved(&l, ReserveDirection::RobinhoodReserve), 0);
    assert_eq!(reserved(&l, ReserveDirection::GoldcoinReserve), 0);
    assert_eq!(l.expire_reservations(650), Ok(0));
}

#[test]
fn another_output_of_the_same_transaction_is_not_the_deposit() {
    let mut l = ledger();
    let id = reserve(&mut l, Direction::GlcToSol, 2_000, 50);
    let at = seen(4, 2_030);
    l.record_glc_deposit_observed(id, at, None, None, 60).unwrap();
    let log = l.state_log(id).len();
    let mut other = at;
    other.vout = 2;
    assert_eq!(
        l.record_glc_deposit_observed(id, other, None, None, 61),
        Ok(GlcObservationOutcome::NoMatchingRequest)
    );
    assert_eq!(l.state_log(id).len(), log);
    assert_eq!(l.get_request(id).unwrap().source_vout, Some(1));
    assert_eq!(
        l.record_glc_deposit_observed(id, at, None, None, 62),
        Ok(GlcObservationOutcome::AlreadyRecorded)
    );
}

#[test]
fn a_deposit_is_taken_once() {
    let mut l = ledger();
    let id = reserve(&mut l, Direction::GlcToSol, 2_000, 50);
    let at = seen(4, 2_030);
    assert_eq!(
        l.record_glc_deposit_observed(id, at, None, None, 60),
        Ok(GlcObservationOutcome::Recorded)
    );
    let log = l.state_log(id).len();
    assert_eq!(
        l.record_glc_deposit_observed(id, at, Some(1), None, 61),
        Ok(GlcObservationOutcome::AlreadyRecorded)
    );
    assert_eq!(l.state_log(id).len(), log);
    let q = l.get_request(id).unwrap();
    assert_eq!(q.state, RequestState::Confirming);
    assert_eq!(q.source_confirmations, 1);
    assert_eq!(q.source_txid, Some([4; 32]));
    assert_eq!(
        l.record_glc_deposit_observed(id, seen(5, 2_030), None, None, 62),
        Ok(GlcObservationOutcome::NoMatchingRequest)
    );
}

#[test]
fn a_deposit_of_another_amount_is_parked_with_both_amounts() {
    let mut l = ledger();
    let id = reserve(&mut l, Direction::GlcToSol, 2_000, 50);
    assert_eq!(
        l.record_glc_deposit_observed(id, seen(4, 2_029), None, None, 60),
        Ok(GlcObservationOutcome::AmountMismatch { expected: 2_030, observed: 2_029 })
    );
    let q = l.get_request(id).unwrap();
    assert_eq!(q.state, RequestState::ManualReview);
    assert_eq!(
        q.manual_review_note.as_deref(),
        Some("deposit_amount_mismatch: expected 2030 observed 2029")
    );
    assert_eq!(reserved(&l, ReserveDirection::SolanaReserve), 2_000);
    assert_eq!(
        l.record_glc_deposit_observed(id, seen(4, 2_029), None, None, 61),
        Ok(GlcObservationOutcome::NoMatchingRequest)
    );
}

#[test]
fn a_wallet_that_has_to_wait_parks_the_deposit() {
    let mut l = ledger();
    let id = reserve(&mut l, Direction::GlcToSol, 2_000, 50);
    let wallets = vec![TracedWallet { wallet: vec![8], retry_after: Some(500), burst: None }];
    assert_eq!(
        l.record_glc_deposit_observed_from(id, seen(4, 2_030), &wallets, Some(900), None, 60),
        Ok(GlcObservationOutcome::WalletLimited {
            reason: WalletRole::Source.limit_reason(),
            retry_after: 500
        })
    );
    let q = l.get_request(id).unwrap();
    assert_eq!(q.manual_review_note.as_deref(), Some("wallet_source_24h_limit"));
    assert_eq!(q.source_wallet, Some(vec![8]));
}

#[test]
fn a_burst_parks_the_deposit_under_a_hold() {
    let mut l = ledger();
    let id = reserve(&mut l, Direction::GlcToSol, 2_000, 50);
    let burst = RapidBurstMatch { rule: RapidBurstRule::SourceWallet, review_after: 4_000 };
    let wallets = vec![TracedWallet { wallet: vec![8], retry_after: None, burst: Some(burst) }];
    assert_eq!(
        l.record_glc_deposit_observed_from(id, seen(4, 2_030), &wallets, None, None, 60),
        Ok(GlcObservationOutcome::RapidBurstHeld {
            rule: RapidBurstRule::SourceWallet,
            review_after: 4_000
        })
    );
    let q = l.get_request(id).unwrap();
    assert_eq!(q.manual_review_disposition, ManualReviewDisposition::RapidBurstHold);
    assert_eq!(q.hold_reason.as_deref(), Some("rapid_burst:source_wallet"));
    assert_eq!(q.review_after, Some(4_000));
}

#[test]
fn a_late_deposit_is_promised_again_or_parked() {
    let mut l = ledger();
    let id = reserve(&mut l, Direction::GlcToSol, 2_000, 50);
    l.expire_reservations(700).unwrap();
    assert_eq!(
        l.record_glc_deposit_observed(id, seen(4, 2_030), None, None, 800),
        Ok(GlcObservationOutcome::LateDepositRecreated)
    );
    assert_eq!(reserved(&l, ReserveDirection::SolanaReserve), 2_000);

    let late = reserve(&mut l, Direction::GlcToSol, 5_000, 900);
    l.expire_reservations(2_000).unwrap();
    let full = reserve(&mut l, Direction::GlcToSol, 4_000, 2_000);
    assert!(full > late);
    assert_eq!(
        l.record_glc_deposit_observed(late, seen(6, 5_030), None, None, 2_100),
        Ok(GlcObservationOutcome::LateDepositNoCapacity)
    );
    let q = l.get_request(late).unwrap();
    assert_eq!(q.state, RequestState::ManualReview);
    assert_eq!(q.manual_review_note.as_deref(), Some("late_deposit_no_capacity"));
    assert_eq!(l.check_invariant(ReserveDirection::SolanaReserve), Ok(()));
}

#[test]
fn a_release_leaves_the_books_when_it_is_confirmed() {
    let mut l = ledger();
    let id = reserve(&mut l, Direction::GlcToSol, 2_000, 50);
    l.record_glc_deposit_observed(id, seen(4, 2_030), None, None, 60).unwrap();
    l.update_glc_confirmations(id, 7);
    assert_eq!(l.get_request(id).unwrap().source_confirmations, 7);
    l.mark_glc_source_finalized(id, 70).unwrap();
    l.mark_glc_source_finalized(id, 71).unwrap();
    assert_eq!(l.reserve_snapshot(ReserveDirection::SolanaReserve), Ok((10_000, 1_000, 2_000, 2_000)));
    l.record_release_submitted(id, [3; 64], 80).unwrap();
    assert_eq!(l.get_destination_txid(id), Some(vec![3; 64]));
    assert_eq!(
        l.pending_destination_settlement_amount(ReserveDirection::SolanaReserve, 81, 600),
        Ok(2_000)
    );
    l.mark_release_confirmed(id, 90).unwrap();
    l.mark_release_confirmed(id, 91).unwrap();
    assert_eq!(
        l.pending_destination_settlement_amount(ReserveDirection::SolanaReserve, 92, 600),
        Ok(0)
    );
    assert_eq!(l.reserve_snapshot(ReserveDirection::SolanaReserve), Ok((8_000, 1_000, 0, 0)));
    assert_eq!(l.settled_liquidity(ReserveDirection::SolanaReserve), Ok(2_000));
    assert_eq!(l.accrued_fees(ReserveDirection::GoldcoinReserve), Ok(30));
    let q = l.get_request(id).unwrap();
    assert_eq!(q.state, RequestState::Settled);
    assert_eq!(q.settled_at, Some(90));
}

#[test]
fn an_orphaned_deposit_is_waited_for_again() {
    let mut l = ledger();
    let id = reserve(&mut l, Direction::GlcToSol, 2_000, 50);
    l.record_glc_deposit_observed(id, seen(4, 2_030), None, None, 60).unwrap();
    l.mark_glc_reorged(id, 65).unwrap();
    let q = l.get_request(id).unwrap();
    assert_eq!(q.state, RequestState::AwaitingDeposit);
    assert_eq!(q.source_txid, None);
    assert_eq!(reserved(&l, ReserveDirection::SolanaReserve), 2_000);
    assert_eq!(l.mark_glc_reorged(77, 65), Err(LedgerError::RequestNotFound(77)));
}

#[test]
fn a_deposit_address_is_given_once() {
    let mut l = ledger();
    let id = reserve(&mut l, Direction::GlcToSol, 2_000, 50);
    assert_eq!(l.set_goldcoin_deposit_address(id, "addr", "76a9", "51"), Ok(()));
    assert_eq!(l.set_goldcoin_deposit_address(id, "addr", "76a9", "51"), Ok(()));
    assert_eq!(
        l.set_goldcoin_deposit_address(id, "other", "76a9", "51"),
        Err(LedgerError::DepositAddressAlreadySet {
            id,
            existing: "addr".to_string(),
            attempted: "other".to_string()
        })
    );
    assert_eq!(
        l.find_goldcoin_deposit_request_by_script("76a9"),
        Some((id, Direction::GlcToSol))
    );
    assert_eq!(l.all_goldcoin_deposit_addresses(), vec!["addr".to_string()]);
    assert_eq!(l.all_goldcoin_deposit_script_pubkeys(), vec!["76a9".to_string()]);
    let second = reserve(&mut l, Direction::GlcToRhn, 100, 55);
    assert_eq!(
        l.set_goldcoin_deposit_address(second, "addr2", "76a9", "51"),
        Err(LedgerError::NotUnique)
    );
    assert_eq!(l.set_goldcoin_deposit_address(second, "addr2", "76aa", "51"), Ok(()));
    assert_eq!(
        l.find_goldcoin_deposit_request_by_script("76aa"),
        Some((second, Direction::GlcToRhn))
    );
    let wrong = reserve(&mut l, Direction::SolToGlc, 100, 60);
    assert_eq!(
        l.set_goldcoin_deposit_address(wrong, "a", "b", "c"),
        Err(LedgerError::NotAGoldcoinSourcedRequest {
            id: wrong,
            actual_direction: Direction::SolToGlc
        })
    );
}

#[test]
fn pages_show_the_newest_first() {
    let mut l = ledger();
    let a = reserve(&mut l, Direction::GlcToSol, 100, 50);
    let b = reserve(&mut l, Direction::GlcToSol, 200, 60);
    let c = reserve(&mut l, Direction::SolToGlc, 300, 70);
    let ids: Vec<i64> = l.transfers_page(None, None, None, 2).iter().map(|q| q.id).collect();
    assert_eq!(ids, vec![c, b]);
    let ids: Vec<i64> = l.transfers_page(None, None, Some(b), 9).iter().map(|q| q.id).collect();
    assert_eq!(ids, vec![a]);
    assert_eq!(l.transfers_page(None, Some(RequestState::Settled), None, 9).len(), 0);
    let none = TransferAddressFilter::Solana([5; 32]);
    assert_eq!(l.transfers_page(Some(none), None, None, 9).len(), 0);
    let events = l.explorer_events_page(Some(Direction::SolToGlc), None, None, 9);
    assert_eq!(events.len(), 2);
    assert_eq!(events[0].id, 6);
    assert_eq!(events[0].to_state, RequestState::AwaitingDeposit);
    let events = l.explorer_events_page(None, Some(RequestState::LiquidityReserved), Some(5), 9);
    assert_eq!(events.iter().map(|e| e.id).collect::<Vec<i64>>(), vec![3, 1]);
    assert_eq!(
        l.request_state_counts(Direction::GlcToSol),
        vec![(RequestState::AwaitingDeposit, 2)]
    );
    let ids: Vec<i64> = l
        .requests_by_state(Direction::GlcToSol, RequestState::AwaitingDeposit)
        .iter()
        .map(|q| q.id)
        .collect();
    assert_eq!(ids, vec![a, b]);
}

#[test]
fn transfers_are_found_by_the_wallets_that_take_part() {
    let mut l = ledger();
    let to_solana = l
        .create_request(Direction::GlcToSol, amounts(100), &[5; 32], None, free(), 600, 50)
        .unwrap();
    assert_eq!(to_solana, CreateRequestOutcome::Reserved { request_id: 1 });
    l.create_request(Direction::SolToGlc, amounts(100), &[1], Some([5; 32]), free(), 600, 51)
        .unwrap();
    l.create_request(Direction::GlcToRhn, amounts(100), &[6; 20], None, free(), 600, 52).unwrap();
    let mine = TransferAddressFilter::Solana([5; 32]);
    let ids: Vec<i64> = l.transfers_page(Some(mine), None, None, 9).iter().map(|q| q.id).collect();
    assert_eq!(ids, vec![2, 1]);
    let evm = TransferAddressFilter::Evm([6; 20]);
    let ids: Vec<i64> = l.transfers_page(Some(evm), None, None, 9).iter().map(|q| q.id).collect();
    assert_eq!(ids, vec![3]);
}

#[test]
fn an_amount_that_cannot_be_stored_is_refused() {
    let mut l = ledger();
    let id = reserve(&mut l, Direction::GlcToSol, 2_000, 50);
    assert_eq!(
        l.record_glc_deposit_observed(id, seen(4, u64::MAX), None, None, 60),
        Err(LedgerError::AmountOutOfRange)
    );
    assert_eq!(l.get_request(id).unwrap().state, RequestState::AwaitingDeposit);
}
