//! The Goldcoin vault: its outputs, splits, payouts and refunds.
use bridge_ledger::error::{GlcRefundRefusal, LedgerError};
use bridge_ledger::folds::SolFoldOutcome;
use bridge_ledger::goldcoin_refund::GoldcoinRefundPlan;
use bridge_ledger::ledger::Ledger;
use bridge_ledger::payouts::PayoutPlan;
use bridge_ledger::requests::{CreateRequestOutcome, Sighting};
use bridge_ledger::rows::{ObservedVaultUtxo, VaultUtxo};
use bridge_ledger::splits::SplitPlan;
use bridge_ledger::types::{
    Direction, GoldcoinRefundState, PayoutState, RequestAmounts, RequestState, ReserveDirection,
    RouteWalletEligibility, SplitState, VaultUtxoState,
};

const GLC: ReserveDirection = ReserveDirection::GoldcoinReserve;

fn amounts(net: u64) -> RequestAmounts {
    RequestAmounts {
        gross_atomic: net + 30,
        fee_bps: 300,
        fee_atomic: 30,
        net_atomic: net,
        net_destination_atomic: net,
    }
}

fn free() -> RouteWalletEligibility {
    RouteWalletEligibility { source_retry_after: None, destination_retry_after: None }
}

fn ledger() -> Ledger {
    let mut l = Ledger::open_in_memory([9; 32], 1);
    l.configure_reserve(ReserveDirection::SolanaReserve, 10_000, 1_000, 9_000, 4_000, 2_000, 1);
    l.configure_reserve(GLC, 10_000, 1_000, 9_000, 4_000, 2_000, 1);
    l
}

fn coin(tx: u8, vout: u32, amount: u64) -> VaultUtxo {
    VaultUtxo { txid: [tx; 32], vout, amount_atomic: amount, script_pubkey_hex: "aa".to_string() }
}

fn seen(tx: u8, vout: u32, amount: u64, confirmations: i64) -> ObservedVaultUtxo {
    ObservedVaultUtxo {
        utxo: coin(tx, vout, amount),
        confirmations,
        script_pubkey_hex: "aa".to_string(),
    }
}

fn state(l: &Ledger, tx: u8, vout: u32) -> VaultUtxoState {
    l.get_vault_utxo([tx; 32], vout).unwrap().state
}

fn owed(l: &mut Ledger, index: u64, net: u64) -> i64 {
    match l.fold_sol_deposit(index, amounts(net), [4; 32], b"G", None, free(), None, 50) {
        Ok(SolFoldOutcome::FoldedFinalized { request_id }) => request_id,
        other => panic!("not admitted: {:?}", other),
    }
}

fn plan(inputs: Vec<VaultUtxo>, net: u64, change: Vec<u64>) -> PayoutPlan {
    PayoutPlan {
        inputs,
        payout_atomic: net,
        change_outputs: change,
        fee_atomic: 5,
        dest_p2pkh_hash: [8; 20],
    }
}

#[test]
fn a_sync_matures_and_spends() {
    let mut l = ledger();
    l.sync_vault_utxos(&vec![seen(1, 0, 700, 6), seen(2, 0, 300, 5)], 6, 10);
    assert_eq!(state(&l, 1, 0), VaultUtxoState::Available);
    assert_eq!(state(&l, 2, 0), VaultUtxoState::Unconfirmed);
    assert_eq!(l.immature_vault_utxo_total(), Ok(300));
    assert_eq!(l.available_vault_utxos().len(), 1);
    l.sync_vault_utxos(&vec![seen(2, 0, 300, 9)], 6, 11);
    assert_eq!(state(&l, 2, 0), VaultUtxoState::Available);
    assert_eq!(state(&l, 1, 0), VaultUtxoState::Spent);
    assert_eq!(l.max_confirmations_for_txid([2; 32]), Some(9));
    assert_eq!(l.max_confirmations_for_txid([3; 32]), None);
    assert!(l.get_vault_utxo([2; 32], 1).is_none());
}

#[test]
fn an_output_is_reserved_for_one_request() {
    let mut l = ledger();
    l.sync_vault_utxos(&vec![seen(1, 0, 700, 6), seen(2, 0, 300, 6)], 6, 10);
    let a = owed(&mut l, 1, 100);
    let b = owed(&mut l, 2, 100);
    l.reserve_vault_utxos(a, &vec![coin(1, 0, 700)], 0, 11).unwrap();
    assert_eq!(state(&l, 1, 0), VaultUtxoState::Reserved);
    assert_eq!(
        l.reserve_vault_utxos(b, &vec![coin(2, 0, 300), coin(1, 0, 700)], 0, 12),
        Err(LedgerError::VaultUtxoUnavailable { requested: 2, available: 1 })
    );
    assert_eq!(state(&l, 2, 0), VaultUtxoState::Available);
    l.sync_vault_utxos(&vec![seen(1, 0, 700, 7), seen(2, 0, 300, 7)], 6, 13);
    assert_eq!(state(&l, 1, 0), VaultUtxoState::Reserved);
}

#[test]
fn a_payout_goes_from_plan_to_settlement() {
    let mut l = ledger();
    l.sync_vault_utxos(&vec![seen(1, 0, 700, 6), seen(2, 0, 300, 6)], 6, 10);
    let id = owed(&mut l, 1, 600);
    l.reserve_vault_utxos(id, &vec![coin(1, 0, 700)], 0, 11).unwrap();
    let p = plan(vec![coin(1, 0, 700)], 600, vec![55, 40]);
    assert_eq!(p.total_change_atomic(), 95);
    l.record_goldcoin_payout_built(id, &p, [3; 32], "00", 12).unwrap();
    assert_eq!(
        l.record_goldcoin_payout_built(id, &p, [3; 32], "00", 12),
        Err(LedgerError::PayoutAlreadyExists(id))
    );
    let inputs = l.get_goldcoin_payout_inputs(id).unwrap();
    assert_eq!(inputs.len(), 1);
    assert_eq!((inputs[0].txid, inputs[0].vout, inputs[0].amount_atomic), ([1; 32], 0, 700));
    let full = l.get_goldcoin_payout_full(id).unwrap();
    assert_eq!(full.change_outputs, vec![55, 40]);
    assert_eq!(full.change_atomic, 95);
    l.record_goldcoin_payout_signed(id, "01", 13).unwrap();
    l.record_goldcoin_payout_resigned(id, "02", 14).unwrap();
    assert_eq!(l.get_goldcoin_payout_full(id).unwrap().signed_tx_hex.as_deref(), Some("02"));
    l.record_goldcoin_payout_broadcast(id, [5; 32], 15).unwrap();
    l.record_goldcoin_payout_broadcast(id, [5; 32], 16).unwrap();
    assert_eq!(state(&l, 1, 0), VaultUtxoState::Reserved);
    assert_eq!(l.get_request(id).unwrap().state, RequestState::DestinationSubmitted);
    l.sync_vault_utxos(&vec![seen(2, 0, 300, 6), seen(5, 1, 55, 0), seen(5, 2, 40, 0)], 6, 16);
    assert!(l.get_vault_utxo([5; 32], 0).is_none());
    assert_eq!(l.get_vault_utxo([5; 32], 1).unwrap().amount_atomic, 55);
    assert_eq!(l.get_vault_utxo([5; 32], 2).unwrap().amount_atomic, 40);
    assert_eq!(l.own_unconfirmed_change_atomic(17), Ok(95));
    assert_eq!(l.zero_conf_parent_txids(), vec![[5; 32]]);
    assert_eq!(l.zero_conf_change_vault_utxos(0).len(), 0);
    assert_eq!(l.zero_conf_change_vault_utxos(1).len(), 2);
    l.set_zero_conf_hold([5; 32], Some("conflict"));
    assert_eq!(l.zero_conf_change_vault_utxos(1).len(), 0);
    let h = l.utxo_pool_health(18).unwrap();
    assert_eq!(h.mature_available_atomic, 300);
    assert_eq!(h.available_utxo_count, 1);
    assert_eq!(h.zero_conf_change_held_count, 2);
    assert_eq!(
        l.mark_goldcoin_completion_confirmed(id, 19),
        Err(LedgerError::CompletionNotSubmitted(id))
    );
    assert_eq!(l.update_goldcoin_payout_confirmations(id, 2, 100, 3, 20), Ok(false));
    assert_eq!(l.get_goldcoin_payout(id).unwrap().mined_height, Some(99));
    assert_eq!(l.update_goldcoin_payout_confirmations(id, 3, 101, 3, 21), Ok(true));
    assert_eq!(l.get_goldcoin_payout(id).unwrap().state, PayoutState::Confirmed);
    assert_eq!(l.goldcoin_payouts_in_state(PayoutState::Confirmed), vec![id]);
    l.record_goldcoin_completion_submitted(id, [6; 64], 22).unwrap();
    l.mark_goldcoin_completion_confirmed(id, 23).unwrap();
    l.mark_goldcoin_completion_confirmed(id, 24).unwrap();
    assert_eq!(l.reserve_snapshot(GLC), Ok((9_400, 1_000, 0, 0)));
    assert_eq!(l.settled_liquidity(GLC), Ok(600));
    assert_eq!(l.accrued_fees(ReserveDirection::SolanaReserve), Ok(30));
    assert_eq!(l.get_request(id).unwrap().state, RequestState::Settled);
}

#[test]
fn a_payout_needs_its_reservation() {
    let mut l = ledger();
    l.sync_vault_utxos(&vec![seen(1, 0, 700, 6)], 6, 10);
    let id = owed(&mut l, 1, 600);
    assert_eq!(l.record_goldcoin_payout_signed(id, "x", 10), Err(LedgerError::PayoutNotFound(id)));
    let p = plan(vec![coin(1, 0, 700)], 600, vec![95]);
    l.record_goldcoin_payout_built(id, &p, [3; 32], "00", 12).unwrap();
    assert_eq!(
        l.get_goldcoin_payout_inputs(id).map(|v| v.len()),
        Err(LedgerError::VaultUtxoReservationDrifted { request_id: id, txid: [1; 32], vout: 0 })
    );
}

#[test]
fn an_input_that_left_the_vault_is_not_passed_over() {
    let mut l = ledger();
    l.sync_vault_utxos(&vec![seen(1, 0, 700, 6), seen(2, 0, 300, 6)], 6, 10);
    let id = owed(&mut l, 1, 900);
    assert_eq!(
        l.get_goldcoin_payout_inputs(id).map(|v| v.len()),
        Err(LedgerError::PayoutNotFound(id))
    );
    let coins = vec![coin(1, 0, 700), coin(2, 0, 300)];
    l.reserve_vault_utxos(id, &coins, 0, 11).unwrap();
    l.record_goldcoin_payout_built(id, &plan(coins, 900, vec![95]), [3; 32], "00", 12).unwrap();
    assert_eq!(l.get_goldcoin_payout_inputs(id).map(|v| v.len()), Ok(2));
    l.vault_utxos.retain(|v| v.txid != [2; 32]);
    assert_eq!(
        l.get_goldcoin_payout_inputs(id).map(|v| v.len()),
        Err(LedgerError::VaultUtxoReservationDrifted { request_id: id, txid: [2; 32], vout: 0 })
    );
}

fn split_plan() -> SplitPlan {
    SplitPlan { source: coin(1, 0, 1_000), outputs: vec![490, 490], fee_atomic: 20 }
}

#[test]
fn a_split_claims_sends_and_confirms() {
    let mut l = ledger();
    l.sync_vault_utxos(&vec![seen(1, 0, 1_000, 6)], 6, 10);
    assert_eq!(split_plan().output_count(), 2);
    let id = l.record_vault_utxo_split_built(&split_plan(), 490, "00", "n", 11).unwrap();
    assert_eq!(l.available_vault_utxos().len(), 0);
    assert_eq!(
        l.record_vault_utxo_split_built(&split_plan(), 490, "00", "n", 11),
        Err(LedgerError::VaultUtxoAlreadySplit { txid: [1; 32], vout: 0 })
    );
    assert_eq!(l.pending_vault_utxo_splits().len(), 1);
    l.record_vault_utxo_split_signed(id, "01", 12).unwrap();
    l.record_vault_utxo_split_broadcast(id, [2; 32], &vec![490, 490], "bb", 13).unwrap();
    assert_eq!(state(&l, 1, 0), VaultUtxoState::Spent);
    assert_eq!(l.get_vault_utxo([2; 32], 1).unwrap().amount_atomic, 490);
    assert_eq!(l.unconfirmed_split_chunk_count(14), 2);
    assert_eq!(l.own_unconfirmed_change_atomic(14), Ok(980));
    assert_eq!(l.broadcast_vault_utxo_splits().len(), 1);
    assert_eq!(l.get_broadcast_vault_utxo_split([2; 32]).unwrap().fee_atomic, 20);
    l.record_vault_utxo_split_confirmed(id, 15).unwrap();
    assert_eq!(
        l.abandon_vault_utxo_split(id, "x", None, 16),
        Err(LedgerError::VaultUtxoSplitNotRecoverable { id, state: SplitState::Confirmed })
    );
    assert_eq!(
        l.get_vault_utxo_split([1; 32], 0).unwrap().state,
        SplitState::Confirmed
    );
    assert_eq!(
        l.record_vault_utxo_split_signed(9, "x", 16),
        Err(LedgerError::VaultUtxoSplitNotFound(9))
    );
}

#[test]
fn an_abandoned_split_can_be_adopted_again() {
    let mut l = ledger();
    l.sync_vault_utxos(&vec![seen(1, 0, 1_000, 6)], 6, 10);
    let id = l.record_vault_utxo_split_built(&split_plan(), 490, "00", "n", 11).unwrap();
    l.record_vault_utxo_split_signed(id, "01", 12).unwrap();
    l.record_vault_utxo_split_broadcast(id, [2; 32], &vec![490, 490], "bb", 13).unwrap();
    l.set_split_missing_inputs(id, 14);
    l.clear_split_missing_inputs(id);
    l.set_split_missing_inputs(id, 15);
    l.abandon_vault_utxo_split(id, "gone", None, 16).unwrap();
    assert_eq!(l.abandoned_splits_with_txid(), vec![(id, [2; 32], Some(16))]);
    assert_eq!(l.unconfirmed_split_chunk_count(17), 0);
    l.readopt_vault_utxo_split(id, 18).unwrap();
    assert_eq!(l.get_vault_utxo_split([1; 32], 0).unwrap().state, SplitState::Broadcast);
    assert_eq!(l.abandoned_splits_with_txid().len(), 0);
    assert_eq!(
        l.record_vault_utxo_split_built(
            &SplitPlan { source: coin(7, 0, 1), outputs: vec![], fee_atomic: 0 },
            1, "", "", 18,
        ),
        Err(LedgerError::VaultUtxoNotFound { txid: [7; 32], vout: 0 })
    );
}

fn mismatched(l: &mut Ledger) -> i64 {
    let id = match l.create_request(Direction::GlcToSol, amounts(600), &[1], None, free(), 600, 10) {
        Ok(CreateRequestOutcome::Reserved { request_id }) => request_id,
        other => panic!("not reserved: {:?}", other),
    };
    let at = Sighting {
        txid: [1; 32],
        vout: 0,
        observed_amount: 500,
        block_height: 9,
        block_hash: [2; 32],
    };
    l.record_glc_deposit_observed(id, at, None, None, 11).unwrap();
    id
}

fn refund_plan(amount: u64) -> GoldcoinRefundPlan {
    GoldcoinRefundPlan {
        observed_amount_atomic: amount,
        source_input_txid: [7; 32],
        source_input_vout: 3,
        refund_dest_p2pkh_hash: [8; 20],
        refund_dest_address: "G".to_string(),
        fee_atomic: 5,
        inputs: vec![coin(4, 0, 700)],
        unsigned_tx_hex: "00".to_string(),
    }
}

#[test]
fn a_deposit_of_two_requests_is_refunded_once() {
    let mut l = ledger();
    l.sync_vault_utxos(&vec![seen(4, 0, 700, 6)], 6, 10);
    let id = mismatched(&mut l);
    let other = mismatched(&mut l);
    assert!(l.glc_refund_db_checks(other).all_passed());
    l.begin_goldcoin_refund(id, &refund_plan(500), "n", "bob", 12).unwrap();
    assert!(!l.glc_refund_db_checks(other).no_existing_refund);
    assert_eq!(
        l.begin_goldcoin_refund(other, &refund_plan(500), "n", "bob", 13),
        Err(LedgerError::GoldcoinRefundExists {
            id: other,
            refund_state: GoldcoinRefundState::Built
        })
    );
    assert!(l.get_goldcoin_refund(other).is_none());
}

#[test]
fn a_mismatched_deposit_is_refunded_once() {
    let mut l = ledger();
    l.sync_vault_utxos(&vec![seen(4, 0, 700, 6)], 6, 10);
    let id = mismatched(&mut l);
    assert_eq!(l.reserve_snapshot(ReserveDirection::SolanaReserve).unwrap().2, 600);
    let checks = l.glc_refund_db_checks(id);
    assert!(checks.all_passed());
    assert_eq!(checks.durable_observed_amount_atomic, Some(500));
    let refused = |detail| Err(LedgerError::GlcRefundNotEligible { id, detail });
    assert_eq!(
        l.begin_goldcoin_refund(id, &refund_plan(500), "  ", "bob", 12),
        refused(GlcRefundRefusal::EmptyNote)
    );
    assert_eq!(
        l.begin_goldcoin_refund(id, &refund_plan(501), "n", "bob", 12),
        refused(GlcRefundRefusal::AmountDiffers { observed: 501, recorded: 500 })
    );
    let mut none = refund_plan(500);
    none.inputs = vec![];
    assert_eq!(
        l.begin_goldcoin_refund(id, &none, "n", "bob", 12),
        refused(GlcRefundRefusal::NoInputs)
    );
    let mut missing = refund_plan(500);
    missing.inputs = vec![coin(5, 0, 700)];
    assert_eq!(
        l.begin_goldcoin_refund(id, &missing, "n", "bob", 12),
        refused(GlcRefundRefusal::InputNotAvailable { txid: [5; 32], vout: 0 })
    );
    l.begin_goldcoin_refund(id, &refund_plan(500), "n", "bob", 12).unwrap();
    assert_eq!(state(&l, 4, 0), VaultUtxoState::Reserved);
    assert_eq!(l.reserve_snapshot(ReserveDirection::SolanaReserve).unwrap().2, 600);
    assert!(!l.glc_refund_db_checks(id).all_passed());
    assert_eq!(
        l.begin_goldcoin_refund(id, &refund_plan(500), "n", "bob", 13),
        refused(GlcRefundRefusal::NotManualReview(RequestState::RefundPending))
    );
    assert_eq!(
        l.record_goldcoin_refund_broadcast(id, [6; 32], 13),
        Err(LedgerError::GoldcoinRefundWrongState {
            id,
            expected: GoldcoinRefundState::Signed,
            actual: GoldcoinRefundState::Built
        })
    );
    l.record_goldcoin_refund_signed(id, "01", 13).unwrap();
    l.record_goldcoin_refund_broadcast(id, [6; 32], 14).unwrap();
    l.record_goldcoin_refund_broadcast(id, [6; 32], 15).unwrap();
    assert_eq!(
        l.record_goldcoin_refund_broadcast(id, [5; 32], 15),
        refused(GlcRefundRefusal::TransactionDiffers { recorded: [6; 32], broadcast: [5; 32] })
    );
    assert_eq!(l.get_goldcoin_refund_inputs(id).len(), 1);
    assert_eq!(l.reconcile_goldcoin_refund_confirmations(id, 5, 6, 16), Ok(false));
    assert_eq!(l.goldcoin_refunds_in_state(GoldcoinRefundState::Broadcast), vec![id]);
    assert_eq!(l.reconcile_goldcoin_refund_confirmations(id, 6, 6, 17), Ok(true));
    assert_eq!(l.reconcile_goldcoin_refund_confirmations(id, 7, 6, 18), Ok(false));
    assert_eq!(l.reserve_snapshot(ReserveDirection::SolanaReserve).unwrap().2, 0);
    let r = l.get_goldcoin_refund(id).unwrap();
    assert_eq!(r.state, GoldcoinRefundState::Refunded);
    assert_eq!(r.refund_amount_atomic, 500);
    assert!(r.reservation_released);
    assert_eq!(l.get_request(id).unwrap().state, RequestState::Refunded);
    assert_eq!(l.list_goldcoin_refunds(true).len(), 0);
    assert_eq!(l.list_goldcoin_refunds(false).len(), 1);
    assert_eq!(
        l.record_goldcoin_refund_signed(99, "x", 19),
        Err(LedgerError::GoldcoinRefundNotFound(99))
    );
}

#[test]
fn a_spent_deposit_is_parked() {
    let mut l = ledger();
    let id = match l.create_request(Direction::GlcToSol, amounts(600), &[1], None, free(), 600, 10) {
        Ok(CreateRequestOutcome::Reserved { request_id }) => request_id,
        other => panic!("not reserved: {:?}", other),
    };
    let at = Sighting {
        txid: [1; 32],
        vout: 0,
        observed_amount: 630,
        block_height: 9,
        block_hash: [2; 32],
    };
    l.record_glc_deposit_observed(id, at, None, None, 11).unwrap();
    l.mark_glc_deposit_spent_before_finalized(id, 12).unwrap();
    assert_eq!(l.get_request(id).unwrap().state, RequestState::ManualReview);
}
