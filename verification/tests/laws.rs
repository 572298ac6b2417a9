//! What holds of the ledger as a whole, on concrete ledgers.
use bridge_ledger::admission::InboundAdmissionBlocker;
use bridge_ledger::error::{LedgerError, RefundRefusal};
use bridge_ledger::folds::SolFoldOutcome;
use bridge_ledger::goldcoin_refund::GoldcoinRefundPlan;
use bridge_ledger::ledger::Ledger;
use bridge_ledger::payouts::PayoutPlan;
use bridge_ledger::requests::{CreateRequestOutcome, Sighting};
use bridge_ledger::resume::ResumeManualReviewOutcome;
use bridge_ledger::rows::{ObservedVaultUtxo, VaultUtxo};
use bridge_ledger::solana_refund::VerifiedRefundInputs;
use bridge_ledger::splits::SplitPlan;
use bridge_ledger::table::to_array32;
use bridge_ledger::types::{
    Direction, GoldcoinRefundState, RequestAmounts, RequestState, ReserveDirection,
    RouteWalletEligibility, VaultUtxoState,
};

const GLC: ReserveDirection = ReserveDirection::GoldcoinReserve;
const SOL: ReserveDirection = ReserveDirection::SolanaReserve;
const RHN: ReserveDirection = ReserveDirection::RobinhoodReserve;

fn amounts(net: u64) -> RequestAmounts {
    RequestAmounts {
        gross_atomic: net + 30,
        fee_bps: 300,
        fee_atomic: 30,
        net_atomic: net,
        net_destination_atomic: net,
    }
}

fn free() -> RouteWalletEligibility {
    RouteWalletEligibility { source_retry_after: None, destination_retry_after: None }
}

fn ledger() -> Ledger {
    let mut l = Ledger::open_in_memory([9; 32], 1);
    for d in [GLC, SOL, RHN] {
        l.configure_reserve(d, 10_000, 1_000, 9_000, 4_000, 2_000, 1);
    }
    l
}

fn coin(tx: u8, amount: u64) -> VaultUtxo {
    VaultUtxo { txid: [tx; 32], vout: 0, amount_atomic: amount, script_pubkey_hex: "aa".to_string() }
}

fn seen(tx: u8, amount: u64, confirmations: i64) -> ObservedVaultUtxo {
    ObservedVaultUtxo {
        utxo: coin(tx, amount),
        confirmations,
        script_pubkey_hex: "aa".to_string(),
    }
}

fn owed(l: &mut Ledger, index: u64, net: u64) -> i64 {
    match l.fold_sol_deposit(index, amounts(net), [4; 32], b"G", None, free(), None, 50) {
        Ok(SolFoldOutcome::FoldedFinalized { request_id }) => request_id,
        other => panic!("not admitted: {:?}", other),
    }
}

fn plan(tx: u8, net: u64) -> PayoutPlan {
    PayoutPlan {
        inputs: vec![coin(tx, 700)],
        payout_atomic: net,
        change_outputs: vec![],
        fee_atomic: 5,
        dest_p2pkh_hash: [8; 20],
    }
}

#[test]
fn every_reserve_stays_solvent_through_a_transfer() {
    let mut l = ledger();
    let check = |l: &Ledger| {
        for d in [GLC, SOL, RHN] {
            assert_eq!(l.check_invariant(d), Ok(()));
        }
    };
    let id = match l.create_request(Direction::GlcToSol, amounts(9_000), &[1], None, free(), 9, 10) {
        Ok(CreateRequestOutcome::Reserved { request_id }) => request_id,
        other => panic!("not reserved: {:?}", other),
    };
    check(&l);
    l.expire_reservations(19).unwrap();
    check(&l);
    let at = Sighting {
        txid: [1; 32],
        vout: 0,
        observed_amount: 9_030,
        block_height: 9,
        block_hash: [2; 32],
    };
    l.record_glc_deposit_observed(id, at, None, None, 20).unwrap();
    check(&l);
    l.mark_glc_source_finalized(id, 21).unwrap();
    l.record_release_submitted(id, [3; 64], 22).unwrap();
    l.mark_release_confirmed(id, 23).unwrap();
    check(&l);
    assert_eq!(l.reserve_snapshot(SOL), Ok((1_000, 1_000, 0, 0)));
    owed(&mut l, 5, 9_000);
    check(&l);
}

#[test]
fn an_output_pays_for_one_payout() {
    let mut l = ledger();
    l.sync_vault_utxos(&vec![seen(1, 700, 6)], 6, 10);
    let a = owed(&mut l, 1, 600);
    let b = owed(&mut l, 2, 600);
    l.record_goldcoin_payout_built(a, &plan(1, 600), [3; 32], "00", 12).unwrap();
    assert_eq!(
        l.record_goldcoin_payout_built(b, &plan(1, 600), [3; 32], "00", 12),
        Err(LedgerError::NotUnique)
    );
    assert_eq!(
        l.solana_refund_db_checks(a).unwrap().first_failure(),
        Some(RefundRefusal::NotManualReview(RequestState::SourceFinalized))
    );
}

#[test]
fn a_refunded_deposit_is_not_paid_out() {
    let mut l = ledger();
    l.set_admission(GLC, true, None).unwrap();
    l.fold_sol_deposit(1, amounts(600), [4; 32], b"G", None, free(), None, 50).unwrap();
    let v = VerifiedRefundInputs {
        obligation_index: 1,
        amount_solana_atomic: 630,
        gross_canonical_atomic: 630,
        requester: [4; 32],
        destination_token_account: [5; 32],
        reserve_mint: [6; 32],
        token_program: [7; 32],
    };
    l.begin_solana_refund(1, &v, "n", "bob", 60).unwrap();
    assert!(l.record_goldcoin_payout_built(1, &plan(1, 600), [3; 32], "00", 61).is_err());
    assert!(l.get_goldcoin_payout(1).is_none());
}

#[test]
fn a_refund_releases_its_reservation_once() {
    let mut l = ledger();
    l.sync_vault_utxos(&vec![seen(4, 700, 6)], 6, 10);
    let id = match l.create_request(Direction::GlcToSol, amounts(600), &[1], None, free(), 600, 10) {
        Ok(CreateRequestOutcome::Reserved { request_id }) => request_id,
        other => panic!("not reserved: {:?}", other),
    };
    let at = Sighting {
        txid: [1; 32],
        vout: 0,
        observed_amount: 500,
        block_height: 9,
        block_hash: [2; 32],
    };
    l.record_glc_deposit_observed(id, at, None, None, 11).unwrap();
    let plan = GoldcoinRefundPlan {
        observed_amount_atomic: 500,
        source_input_txid: [7; 32],
        source_input_vout: 3,
        refund_dest_p2pkh_hash: [8; 20],
        refund_dest_address: "G".to_string(),
        fee_atomic: 5,
        inputs: vec![coin(4, 700)],
        unsigned_tx_hex: "00".to_string(),
    };
    l.begin_goldcoin_refund(id, &plan, "n", "bob", 12).unwrap();
    l.record_goldcoin_refund_signed(id, "01", 13).unwrap();
    l.record_goldcoin_refund_broadcast(id, [6; 32], 14).unwrap();
    assert_eq!(l.get_vault_utxo([4; 32], 0).unwrap().state, VaultUtxoState::Spent);
    l.sync_vault_utxos(&vec![seen(4, 700, 9)], 6, 15);
    assert_eq!(l.get_vault_utxo([4; 32], 0).unwrap().state, VaultUtxoState::Spent);
    l.update_goldcoin_refund_confirmations(id, 3);
    assert_eq!(l.get_goldcoin_refund(id).unwrap().confirmations, 3);
    l.record_goldcoin_refund_confirmed(id, 6, 16).unwrap();
    l.record_goldcoin_refund_confirmed(id, 7, 17).unwrap();
    assert_eq!(l.reserve_snapshot(SOL), Ok((10_000, 1_000, 0, 0)));
    assert_eq!(l.goldcoin_refunds_in_state(GoldcoinRefundState::Refunded), vec![id]);
}

#[test]
fn a_cross_route_deposit_resumes_once() {
    let mut l = ledger();
    l.set_admission(RHN, true, None).unwrap();
    l.fold_sol_deposit_to_robinhood(
        1, amounts(10), [4; 32], Some([3; 20]), b"", true, None, free(), None, 5,
    )
    .unwrap();
    let resume = |l: &mut Ledger, now| {
        l.resume_manual_review_cross_route(Direction::SolToRhn, 1, free(), "n", "bob", now)
    };
    assert_eq!(resume(&mut l, 6), Ok(ResumeManualReviewOutcome::Resumed));
    let already = ResumeManualReviewOutcome::AlreadyResumed { state: RequestState::SourceFinalized };
    assert_eq!(resume(&mut l, 7), Ok(already));
    assert_eq!(l.reserve_snapshot(RHN), Ok((10_000, 1_000, 10, 10)));
}

#[test]
fn a_dead_split_is_flagged_after_the_grace_period() {
    let mut l = ledger();
    l.sync_vault_utxos(&vec![seen(1, 1_000, 6)], 6, 10);
    let plan = SplitPlan { source: coin(1, 1_000), outputs: vec![490, 490], fee_atomic: 20 };
    let id = l.record_vault_utxo_split_built(&plan, 490, "00", "n", 11).unwrap();
    l.record_vault_utxo_split_signed(id, "01", 12).unwrap();
    l.record_vault_utxo_split_broadcast(id, [2; 32], &vec![490, 490], "bb", 13).unwrap();
    l.set_split_missing_inputs(id, 100);
    l.set_split_missing_inputs(id, 500);
    assert_eq!(l.flagged_dead_splits(699), vec![]);
    assert_eq!(l.flagged_dead_splits(700), vec![(id, [2; 32])]);
    assert_eq!(l.unconfirmed_split_chunk_count(699), 2);
    assert_eq!(l.unconfirmed_split_chunk_count(700), 0);
}

#[test]
fn a_sent_split_is_recorded_with_its_outputs_once() {
    let mut l = ledger();
    l.sync_vault_utxos(&vec![seen(1, 1_000, 6)], 6, 10);
    let plan = SplitPlan { source: coin(1, 1_000), outputs: vec![500, 480], fee_atomic: 20 };
    let id = l.record_vault_utxo_split_built(&plan, 490, "00", "n", 11).unwrap();
    l.record_vault_utxo_split_signed(id, "01", 12).unwrap();
    l.record_vault_utxo_split_broadcast(id, [2; 32], &vec![500, 480], "bb", 13).unwrap();
    assert_eq!(l.vault_utxos.len(), 3);
    assert_eq!(l.vault_utxos[0].state, VaultUtxoState::Spent);
    assert_eq!(l.vault_utxos[0].spent_by_txid, Some([2; 32]));
    for (vout, amount) in [(0, 500), (1, 480)] {
        let out = &l.vault_utxos[1 + vout];
        assert_eq!((out.txid, out.vout), ([2; 32], vout as u32));
        assert_eq!((out.state, out.amount_atomic), (VaultUtxoState::Unconfirmed, amount));
        assert_eq!(out.confirmations, 0);
    }
    l.record_vault_utxo_split_broadcast(id, [2; 32], &vec![500, 480], "bb", 99).unwrap();
    assert_eq!(l.vault_utxos.len(), 3);
    assert_eq!(l.splits[0].broadcast_at, Some(13));
}

#[test]
fn a_sent_payout_is_recorded_with_its_change_once() {
    let mut l = ledger();
    l.sync_vault_utxos(&vec![seen(1, 700, 6)], 6, 10);
    let id = owed(&mut l, 1, 600);
    l.reserve_vault_utxos(id, &vec![coin(1, 700)], 0, 11).unwrap();
    let mut p = plan(1, 600);
    p.change_outputs = vec![60, 35];
    l.record_goldcoin_payout_built(id, &p, [3; 32], "00", 12).unwrap();
    l.record_goldcoin_payout_signed(id, "01", 13).unwrap();
    l.record_goldcoin_payout_broadcast(id, [5; 32], 14).unwrap();
    let rows: Vec<([u8; 32], u32, i64, i64, i64)> = l
        .change_outpoints
        .iter()
        .map(|c| (c.txid, c.vout, c.request_id, c.amount_atomic, c.unconfirmed_ancestor_depth))
        .collect();
    assert_eq!(rows, vec![([5; 32], 1, id, 60, 1), ([5; 32], 2, id, 35, 1)]);
    let q = l.get_request(id).unwrap();
    assert_eq!(q.state, RequestState::DestinationSubmitted);
    assert_eq!(q.destination_txid, Some(vec![5; 32]));
    l.record_goldcoin_payout_broadcast(id, [5; 32], 15).unwrap();
    assert_eq!(l.change_outpoints.len(), 2);
}

#[test]
fn unconfirmed_change_knows_its_depth() {
    let mut l = ledger();
    l.sync_vault_utxos(&vec![seen(1, 700, 6)], 6, 10);
    let id = owed(&mut l, 1, 600);
    l.reserve_vault_utxos(id, &vec![coin(1, 700)], 0, 11).unwrap();
    let mut p = plan(1, 600);
    p.change_outputs = vec![95];
    l.record_goldcoin_payout_built(id, &p, [3; 32], "00", 12).unwrap();
    l.record_goldcoin_payout_signed(id, "01", 13).unwrap();
    l.record_goldcoin_payout_broadcast(id, [5; 32], 14).unwrap();
    let change = ObservedVaultUtxo {
        utxo: VaultUtxo {
            txid: [5; 32],
            vout: 1,
            amount_atomic: 95,
            script_pubkey_hex: "aa".to_string(),
        },
        confirmations: 0,
        script_pubkey_hex: "aa".to_string(),
    };
    l.sync_vault_utxos(&vec![change], 6, 15);
    let candidates = l.zero_conf_change_vault_utxos_with_depth(2);
    assert_eq!(candidates.len(), 1);
    assert_eq!(candidates[0].unconfirmed_ancestor_depth, 1);
    assert_eq!(candidates[0].utxo.amount_atomic, 95);
    let next = owed(&mut l, 2, 50);
    assert_eq!(
        l.reserve_vault_utxos(next, &vec![VaultUtxo { vout: 1, ..coin(5, 95) }], 0, 16),
        Err(LedgerError::VaultUtxoUnavailable { requested: 1, available: 0 })
    );
    assert_eq!(
        l.reserve_vault_utxos(next, &vec![VaultUtxo { vout: 1, ..coin(5, 95) }], 1, 16),
        Ok(())
    );
}

#[test]
fn the_route_answer_is_the_fold_answer() {
    let mut l = ledger();
    assert_eq!(l.route_admission_blocker(Direction::SolToGlc), Ok(None));
    l.set_admission(GLC, true, None).unwrap();
    assert_eq!(
        l.route_admission_blocker(Direction::SolToGlc),
        Ok(Some(InboundAdmissionBlocker::AdmissionClosed))
    );
    assert_eq!(
        l.fold_sol_deposit(1, amounts(10), [4; 32], b"G", None, free(), None, 50),
        Ok(SolFoldOutcome::FoldedManualReview { request_id: 1 })
    );
    assert_eq!(
        l.get_request(1).unwrap().manual_review_note.as_deref(),
        Some(InboundAdmissionBlocker::AdmissionClosed.manual_review_note())
    );
}

#[test]
fn refund_states_are_read_back_by_name() {
    for s in [
        GoldcoinRefundState::Built,
        GoldcoinRefundState::Signed,
        GoldcoinRefundState::Broadcast,
        GoldcoinRefundState::Refunded,
    ] {
        assert_eq!(GoldcoinRefundState::from_name(s.as_str()), Some(s));
    }
    assert_eq!(GoldcoinRefundState::from_name("built"), None);
}

#[test]
fn short_blobs_are_filled_up_and_long_ones_cut() {
    let mut want = [0u8; 32];
    want[0] = 7;
    assert_eq!(to_array32(&[7]), want);
    assert_eq!(to_array32(&[1; 40]), [1; 32]);
}
