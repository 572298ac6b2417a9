//! The index of the chains, and the records that are only added to.
use bridge_ledger::audit::AdminAuditFilter;
use bridge_ledger::chain::ReconcileUnmatchedDepositOutcome;
use bridge_ledger::error::LedgerError;
use bridge_ledger::in_flight::RobinhoodActivity;
use bridge_ledger::ledger::Ledger;
use bridge_ledger::requests::{CreateRequestOutcome, Sighting};
use bridge_ledger::rows::{
    AdminAuditEntry, ObservedVaultUtxo, RouteAdmissionRecord, RouteRecord, VaultUtxo,
};
use bridge_ledger::splits::SplitPlan;
use bridge_ledger::types::{
    Direction, RequestAmounts, RequestState, ReserveDirection, Route, RouteWalletEligibility,
};

fn ledger() -> Ledger {
    let mut l = Ledger::open_in_memory([9; 32], 1);
    l.configure_reserve(ReserveDirection::SolanaReserve, 10_000, 1_000, 9_000, 4_000, 2_000, 1);
    l.configure_reserve(ReserveDirection::GoldcoinReserve, 10_000, 1_000, 9_000, 4_000, 2_000, 1);
    l
}

fn deposited(l: &mut Ledger, tx: u8, height: i64) -> i64 {
    let amounts = RequestAmounts {
        gross_atomic: 100,
        fee_bps: 0,
        fee_atomic: 0,
        net_atomic: 100,
        net_destination_atomic: 100,
    };
    let free = RouteWalletEligibility { source_retry_after: None, destination_retry_after: None };
    let id = match l.create_request(Direction::GlcToSol, amounts, &[1], None, free, 600, 10) {
        Ok(CreateRequestOutcome::Reserved { request_id }) => request_id,
        other => panic!("not reserved: {:?}", other),
    };
    let at = Sighting {
        txid: [tx; 32],
        vout: 0,
        observed_amount: 100,
        block_height: height,
        block_hash: [1; 32],
    };
    l.record_glc_deposit_observed(id, at, None, None, 11).unwrap();
    id
}

#[test]
fn the_tip_is_the_highest_block() {
    let mut l = ledger();
    assert_eq!(l.goldcoin_chain_tip(), None);
    l.goldcoin_ingest_block(6, [6; 32], [5; 32], 0, 1);
    l.goldcoin_ingest_block(5, [5; 32], [4; 32], 0, 1);
    assert_eq!(l.goldcoin_chain_tip(), Some((6, [6; 32])));
    l.goldcoin_ingest_block(6, [66; 32], [5; 32], 0, 2);
    assert_eq!(l.goldcoin_block_hash_at(6), Some([66; 32]));
    assert_eq!(l.goldcoin_block_hash_at(7), None);
}

#[test]
fn a_rollback_undoes_only_what_was_orphaned() {
    let mut l = ledger();
    let below = deposited(&mut l, 1, 100);
    let above = deposited(&mut l, 2, 101);
    let last = deposited(&mut l, 3, 102);
    l.mark_glc_source_finalized(last, 20).unwrap();
    l.goldcoin_ingest_block(100, [100; 32], [99; 32], 0, 1);
    l.goldcoin_ingest_block(101, [101; 32], [100; 32], 0, 1);
    let before = l.reserve_snapshot(ReserveDirection::SolanaReserve);
    assert_eq!(l.goldcoin_rollback_reorg(100, [100; 32], 101, [101; 32], 30), 1);
    assert_eq!(l.get_request(below).unwrap().state, RequestState::Confirming);
    assert_eq!(l.get_request(above).unwrap().state, RequestState::AwaitingDeposit);
    assert_eq!(l.get_request(last).unwrap().state, RequestState::SourceFinalized);
    assert_eq!(l.reserve_snapshot(ReserveDirection::SolanaReserve), before);
    assert_eq!(l.goldcoin_chain_tip(), Some((100, [100; 32])));
    assert_eq!(l.goldcoin_reorg_event_count(), 1);
    assert_eq!(l.detect_post_finality_reorg(100), vec![last]);
    assert_eq!(l.detect_post_finality_reorg(102), Vec::<i64>::new());
}

#[test]
fn an_orphaned_final_deposit_pauses_both_reserves() {
    let mut l = ledger();
    assert_eq!(l.record_post_finality_reorg(100, 105, &vec![4, -7], 30), Ok(1));
    assert_eq!(l.is_paused(ReserveDirection::GoldcoinReserve), Ok(true));
    assert_eq!(l.is_paused(ReserveDirection::SolanaReserve), Ok(true));
    assert_eq!(
        l.pause_reason(ReserveDirection::SolanaReserve).unwrap().unwrap(),
        "post-finality Goldcoin reorg detected: fork_height=100 (old tip 105), 2 \
         already-finalized request(s) affected — see post_finality_reorg_events #1"
    );
    assert_eq!(l.chain.post_finality[0].affected_request_ids, "[4,-7]");
    assert_eq!(l.record_post_finality_reorg(100, 105, &vec![], 31), Ok(2));
    assert_eq!(l.chain.post_finality[1].affected_request_ids, "[]");
    let mut bare = Ledger::open_in_memory([9; 32], 1);
    assert_eq!(
        bare.record_post_finality_reorg(1, 2, &vec![3], 4),
        Err(LedgerError::ReserveNotInitialized(ReserveDirection::GoldcoinReserve))
    );
    assert_eq!(bare.post_finality_reorg_event_count(), 0);
}

#[test]
fn a_reorganisation_is_not_recorded_by_half() {
    let mut l = Ledger::open_in_memory([9; 32], 1);
    l.configure_reserve(ReserveDirection::GoldcoinReserve, 10_000, 1_000, 9_000, 4_000, 2_000, 1);
    assert_eq!(
        l.record_post_finality_reorg(100, 105, &vec![4], 30),
        Err(LedgerError::ReserveNotInitialized(ReserveDirection::SolanaReserve))
    );
    assert_eq!(l.post_finality_reorg_event_count(), 0);
    assert!(l.chain.post_finality.is_empty());
    assert_eq!(l.is_paused(ReserveDirection::GoldcoinReserve), Ok(false));
    assert_eq!(l.pause_reason(ReserveDirection::GoldcoinReserve), Ok(None));
}

#[test]
fn an_unmatched_deposit_is_explained_by_a_split() {
    let mut l = ledger();
    let source = VaultUtxo {
        txid: [1; 32],
        vout: 0,
        amount_atomic: 1_000,
        script_pubkey_hex: "aa".to_string(),
    };
    let seen = ObservedVaultUtxo {
        utxo: VaultUtxo {
            txid: [1; 32],
            vout: 0,
            amount_atomic: 1_000,
            script_pubkey_hex: "aa".to_string(),
        },
        confirmations: 10,
        script_pubkey_hex: "aa".to_string(),
    };
    l.sync_vault_utxos(&vec![seen], 6, 5);
    let plan = SplitPlan { source, outputs: vec![490, 490], fee_atomic: 20 };
    let id = l.record_vault_utxo_split_built(&plan, 490, "00", "n", 6).unwrap();
    l.record_vault_utxo_split_signed(id, "01", 7).unwrap();
    l.record_unmatched_goldcoin_deposit([2; 32], 1, 490, 9, "unknown script", 8);
    l.record_unmatched_goldcoin_deposit([2; 32], 1, 77, 9, "again", 9);
    assert_eq!(l.chain.unmatched.len(), 1);
    assert_eq!(
        l.reconcile_unmatched_goldcoin_deposit([2; 32], 1, Some(490), "n", 10),
        Err(LedgerError::UnmatchedDepositNotAKnownSplitOutput { txid: [2; 32], vout: 1 })
    );
    l.record_vault_utxo_split_broadcast(id, [2; 32], &vec![490, 490], "aa", 11).unwrap();
    assert_eq!(
        l.reconcile_unmatched_goldcoin_deposit([2; 32], 1, Some(491), "n", 12),
        Err(LedgerError::UnmatchedDepositNotAKnownSplitOutput { txid: [2; 32], vout: 1 })
    );
    assert_eq!(
        l.reconcile_unmatched_goldcoin_deposit([2; 32], 1, Some(490), "n", 12),
        Ok(ReconcileUnmatchedDepositOutcome::Reconciled)
    );
    assert_eq!(
        l.reconcile_unmatched_goldcoin_deposit([2; 32], 1, None, "n", 13),
        Ok(ReconcileUnmatchedDepositOutcome::AlreadyReconciled)
    );
    assert_eq!(
        l.reconcile_unmatched_goldcoin_deposit([3; 32], 1, None, "n", 13),
        Err(LedgerError::UnmatchedDepositNotFound { txid: [3; 32], vout: 1 })
    );
}

#[test]
fn the_obligation_count_is_remembered() {
    let mut l = ledger();
    assert_eq!(l.last_synced_obligation_count(), 0);
    l.set_last_synced_obligation_count(12, 99, 5);
    assert_eq!(l.last_synced_obligation_count(), 12);
}

#[test]
fn an_attestation_keeps_its_message_and_hash() {
    let mut l = ledger();
    l.record_attestation(3, "release", b"abc", 5);
    l.record_attestation(3, "release", b"other", 6);
    l.record_attestation(3, "refund", b"", 7);
    let all = l.all_attestation_records();
    assert_eq!(all.len(), 2);
    assert_eq!(all[0].id, 1);
    assert_eq!(all[0].canonical_message, b"abc".to_vec());
    assert_eq!(
        all[0].message_hash,
        vec![
            0xba, 0x78, 0x16, 0xbf, 0x8f, 0x01, 0xcf, 0xea, 0x41, 0x41, 0x40, 0xde, 0x5d, 0xae,
            0x22, 0x23, 0xb0, 0x03, 0x61, 0xa3, 0x96, 0x17, 0x7a, 0x9c, 0xb4, 0x10, 0xff, 0x61,
            0xf2, 0x00, 0x15, 0xad
        ]
    );
    assert_eq!(all[1].id, 2);
    assert_eq!(all[1].message_hash.len(), 32);
}

#[test]
fn grants_and_findings_are_kept() {
    let mut l = ledger();
    l.record_signature_grant("release", "key-1", Some(4), "info", 9);
    assert_eq!(l.audit.grants.len(), 1);
    for n in 0..4 {
        let d = if n % 2 == 0 {
            ReserveDirection::GoldcoinReserve
        } else {
            ReserveDirection::SolanaReserve
        };
        l.record_reconciliation_finding(d, 100, 90 + n, n - 10, "drop", n == 3, 20 + n);
    }
    let page = l.reconciliation_findings_page(None, None, 2);
    assert_eq!(page.iter().map(|f| f.id).collect::<Vec<i64>>(), vec![4, 3]);
    assert!(page[0].auto_paused);
    let page = l.reconciliation_findings_page(Some(ReserveDirection::GoldcoinReserve), Some(3), 9);
    assert_eq!(page.iter().map(|f| f.id).collect::<Vec<i64>>(), vec![1]);
    assert_eq!(page[0].observed, 90);
}

fn entry(actor: &str, action: &str, error: Option<&str>) -> AdminAuditEntry {
    AdminAuditEntry {
        at: 5,
        actor: actor.to_string(),
        action: action.to_string(),
        target: "goldcoin".to_string(),
        old_value: None,
        new_value: Some("paused".to_string()),
        note: Some("drill".to_string()),
        error: error.map(|e| e.to_string()),
    }
}

#[test]
fn the_administrators_log_is_filtered_and_paged() {
    let mut l = ledger();
    for n in 0..60 {
        let who = if n % 2 == 0 { "alice" } else { "bob" };
        let what = if n % 3 == 0 { "pause" } else { "resume" };
        assert_eq!(l.append_admin_audit(&entry(who, what, None)), Ok(n + 1));
    }
    let all = AdminAuditFilter { before_id: None, action: None, actor: None, limit: None };
    assert_eq!(l.list_admin_audit(&all).len(), 50);
    assert_eq!(l.list_admin_audit(&all)[0].id, 60);
    let none = AdminAuditFilter { before_id: None, action: None, actor: None, limit: Some(0) };
    assert_eq!(l.list_admin_audit(&none).len(), 1);
    let many = AdminAuditFilter { before_id: None, action: None, actor: None, limit: Some(900) };
    assert_eq!(many.page(), 200);
    let some = AdminAuditFilter {
        before_id: Some(20),
        action: Some("pause".to_string()),
        actor: Some("alice".to_string()),
        limit: Some(2),
    };
    let ids: Vec<i64> = l.list_admin_audit(&some).iter().map(|r| r.id).collect();
    assert_eq!(ids, vec![19, 13]);
    l.append_admin_audit(&entry("eve", "pause", Some("refused"))).unwrap();
    assert_eq!(l.list_admin_audit(&all)[0].error.as_deref(), Some("refused"));
}

#[test]
fn a_line_of_the_administrators_log_needs_its_note() {
    let mut l = ledger();
    let mut noteless = entry("alice", "pause", None);
    noteless.note = None;
    let mut blank = entry("alice", "pause", None);
    blank.note = Some(String::new());
    for e in [noteless, blank, entry("", "pause", None), entry("alice", "", None)] {
        assert_eq!(l.append_admin_audit(&e), Err(LedgerError::AuditEntryIncomplete));
    }
    assert!(l.audit.admin.is_empty());
    assert_eq!(l.append_admin_audit(&entry("alice", "pause", None)), Ok(1));
}

#[test]
fn recorded_routes_come_in_their_order() {
    let record = |id: &str, route: Option<Route>| RouteRecord {
        route_id: id.to_string(),
        route,
        enabled: true,
        disabled_reason: None,
        updated_at: 3,
    };
    let raw = vec![
        record("d", Some(Route::RhnToSol)),
        record("x", None),
        record("b", Some(Route::SolToGlc)),
        record("y", None),
    ];
    let s = Ledger::route_ledger_rows(Some(raw)).unwrap();
    assert_eq!(s.rows.iter().map(|r| r.route).collect::<Vec<Route>>(), vec![
        Route::SolToGlc,
        Route::RhnToSol
    ]);
    assert_eq!(s.unknown_route_ids, vec!["x".to_string(), "y".to_string()]);
    assert!(s.row(Route::SolToGlc).is_some());
    assert!(s.row(Route::GlcToSol).is_none());
    assert!(Ledger::route_ledger_rows(None).is_none());
    let admission = |id: &str, route: Option<Route>| RouteAdmissionRecord {
        route_id: id.to_string(),
        route,
        admission_closed: true,
        admission_closed_reason: Some("why".to_string()),
        updated_at: 3,
    };
    let raw = vec![
        admission("d", Some(Route::RhnToGlc)),
        admission("e", Some(Route::GlcToSol)),
        admission("b", Some(Route::SolToGlc)),
        admission("x", None),
    ];
    let s = Ledger::route_admission_rows(Some(raw)).unwrap();
    assert_eq!(s.rows.len(), 2);
    assert_eq!(s.rows[0].route, Route::SolToGlc);
    assert_eq!(s.unknown_route_ids, vec!["e".to_string(), "x".to_string()]);
    assert!(s.row(Route::RhnToGlc).unwrap().admission_closed);
}

#[test]
fn robinhood_activity_is_counted_and_told() {
    let l = ledger();
    assert!(l.robinhood_activity().is_empty());
    let a = RobinhoodActivity { deposit_observations: 1, transactions: 20, requests: 0, rebalances: 3 };
    assert!(!a.is_empty());
    assert_eq!(
        a.text(),
        "1 deposit observation(s), 20 outbound operation(s), 0 bridge request(s), 3 rebalance \
         request(s)"
    );
    assert!(RobinhoodActivity::default().is_empty());
}
