//! Solana deposits, the holds on those that are parked, and their way back.
use bridge_ledger::error::{HoldBlocker, LedgerError, RefundRefusal, ReviewRefusal};
use bridge_ledger::folds::SolFoldOutcome;
use bridge_ledger::ledger::Ledger;
use bridge_ledger::resume::{ResumeDryRunOutcome, ResumeManualReviewOutcome};
use bridge_ledger::review_text::ReviewAct;
use bridge_ledger::rows::RobinhoodTxRow;
use bridge_ledger::solana_refund::{VerifiedRefundInputs, SOLANA_REFUND_NONCE_DOMAIN};
use bridge_ledger::types::{
    Chain, Direction, ManualReviewDisposition, OperatorDecision, RapidBurstMatch, RapidBurstRule,
    RequestAmounts, RequestState, ReserveDirection, RobinhoodTxKind, RobinhoodTxState, Route,
    RouteWalletEligibility, SolanaRefundState, WalletRole,
};

const WALLET: [u8; 32] = [4; 32];

fn amounts(net: u64) -> RequestAmounts {
    RequestAmounts {
        gross_atomic: net + 30,
        fee_bps: 300,
        fee_atomic: 30,
        net_atomic: net,
        net_destination_atomic: net,
    }
}

fn free() -> RouteWalletEligibility {
    RouteWalletEligibility { source_retry_after: None, destination_retry_after: None }
}

fn ledger() -> Ledger {
    let mut l = Ledger::open_in_memory([9; 32], 1);
    l.configure_reserve(ReserveDirection::SolanaReserve, 10_000, 1_000, 9_000, 4_000, 2_000, 1);
    l.configure_reserve(ReserveDirection::GoldcoinReserve, 10_000, 1_000, 9_000, 4_000, 2_000, 1);
    l.configure_reserve(ReserveDirection::RobinhoodReserve, 10_000, 1_000, 9_000, 4_000, 2_000, 1);
    l
}

fn fold(l: &mut Ledger, index: u64, net: u64) -> SolFoldOutcome {
    l.fold_sol_deposit(index, amounts(net), WALLET, b"GLCaddr", None, free(), None, 50).unwrap()
}

fn parked(l: &mut Ledger, index: u64, net: u64) -> i64 {
    l.set_admission(ReserveDirection::GoldcoinReserve, true, Some("upkeep")).unwrap();
    let out = fold(l, index, net);
    l.set_admission(ReserveDirection::GoldcoinReserve, false, None).unwrap();
    match out {
        SolFoldOutcome::FoldedManualReview { request_id } => request_id,
        other => panic!("not parked: {:?}", other),
    }
}

fn burst(l: &mut Ledger, index: u64) -> i64 {
    let m = RapidBurstMatch { rule: RapidBurstRule::DestinationWallet, review_after: 500 };
    match l.fold_sol_deposit(index, amounts(100), WALLET, b"a", None, free(), Some(m), 50) {
        Ok(SolFoldOutcome::FoldedManualReview { request_id }) => request_id,
        other => panic!("not parked: {:?}", other),
    }
}

fn refused(id: i64, detail: ReviewRefusal) -> LedgerError {
    LedgerError::ManualReviewNotRecoverable { id, detail }
}

#[test]
fn a_solana_deposit_is_folded_once() {
    let mut l = ledger();
    assert_eq!(fold(&mut l, 7, 2_000), SolFoldOutcome::FoldedFinalized { request_id: 1 });
    assert_eq!(fold(&mut l, 7, 999), SolFoldOutcome::AlreadyFolded { request_id: 1 });
    assert_eq!(
        l.reserve_snapshot(ReserveDirection::GoldcoinReserve),
        Ok((10_000, 1_000, 2_000, 2_000))
    );
    let q = l.get_request(1).unwrap();
    assert_eq!(q.state, RequestState::SourceFinalized);
    assert_eq!(q.source_contract, Some(vec![9; 32]));
    assert_eq!(q.source_wallet, Some(WALLET.to_vec()));
    assert_eq!(q.source_obligation_index, Some(7));
    assert_eq!(l.state_log(1)[0].3.as_deref(), Some("retroactive_fold_sol_deposit"));
}

#[test]
fn a_park_tells_why_and_takes_no_capacity() {
    let mut l = ledger();
    assert_eq!(fold(&mut l, 1, 9_001), SolFoldOutcome::FoldedManualReview { request_id: 1 });
    let note = |l: &Ledger, id: i64| l.get_request(id).unwrap().manual_review_note.unwrap();
    assert_eq!(note(&l, 1), "insufficient_capacity_at_fold");
    let out = l.fold_sol_deposit(2, amounts(10), WALLET, b"a", Some("mint frozen"), free(), None, 5);
    assert_eq!(out, Ok(SolFoldOutcome::FoldedManualReview { request_id: 2 }));
    assert_eq!(note(&l, 2), "mint frozen");
    let busy = RouteWalletEligibility { source_retry_after: Some(9), destination_retry_after: None };
    l.fold_sol_deposit(3, amounts(10), WALLET, b"a", None, busy, None, 5).unwrap();
    assert_eq!(note(&l, 3), "wallet_source_24h_limit");
    l.set_paused(ReserveDirection::GoldcoinReserve, true, None).unwrap();
    fold(&mut l, 4, 10);
    assert_eq!(note(&l, 4), "reserve_paused_at_fold");
    l.set_paused(ReserveDirection::GoldcoinReserve, false, None).unwrap();
    l.set_route_admission(Route::SolToGlc, true, Some("x"), 6).unwrap();
    fold(&mut l, 5, 10);
    assert_eq!(note(&l, 5), "route_admission_closed_at_fold");
    l.set_route_admission(Route::SolToGlc, false, None, 6).unwrap();
    l.set_utxo_pool_thresholds(ReserveDirection::GoldcoinReserve, 1, 2).unwrap();
    fold(&mut l, 6, 10);
    assert_eq!(note(&l, 6), "utxo_liquidity_low_at_fold");
    l.set_utxo_pool_thresholds(ReserveDirection::GoldcoinReserve, 0, 0).unwrap();
    l.set_admission_liquidity_thresholds(ReserveDirection::GoldcoinReserve, 8_995, 8_995).unwrap();
    fold(&mut l, 7, 10);
    assert_eq!(note(&l, 7), "liquidity_buffer_low_at_fold");
    assert_eq!(
        l.reserve_snapshot(ReserveDirection::GoldcoinReserve),
        Ok((10_000, 1_000, 0, 0))
    );
}

#[test]
fn a_deposit_for_robinhood_names_the_nearest_reason() {
    let mut l = ledger();
    let mut fold = |index, evm: Option<[u8; 20]>, open| {
        l.fold_sol_deposit_to_robinhood(
            index, amounts(10), WALLET, evm, b"raw", open, None, free(), None, 5,
        )
    };
    assert_eq!(fold(1, None, false), Ok(SolFoldOutcome::FoldedManualReview { request_id: 1 }));
    assert_eq!(
        fold(2, Some([3; 20]), false),
        Ok(SolFoldOutcome::FoldedManualReview { request_id: 2 })
    );
    assert_eq!(
        fold(3, Some([3; 20]), true),
        Ok(SolFoldOutcome::FoldedFinalized { request_id: 3 })
    );
    let q = l.get_request(1).unwrap();
    assert_eq!(q.manual_review_note.as_deref(), Some("undeliverable destination"));
    assert_eq!(q.recipient, b"raw".to_vec());
    let q = l.get_request(2).unwrap();
    assert_eq!(q.manual_review_note.as_deref(), Some("route_disabled_at_fold"));
    assert_eq!(q.recipient, vec![3; 20]);
    assert_eq!(
        l.reserve_snapshot(ReserveDirection::RobinhoodReserve),
        Ok((10_000, 1_000, 10, 10))
    );
}

#[test]
fn a_parked_deposit_resumes_once() {
    let mut l = ledger();
    let id = parked(&mut l, 1, 2_000);
    assert_eq!(
        l.dry_run_resume_manual_review(id, free(), "s", "d"),
        ResumeDryRunOutcome::WouldResume
    );
    assert_eq!(
        l.resume_manual_review_rhn_to_glc(id, free(), "n", "bob", 60),
        Err(LedgerError::NotARhnToGlcRequest { id, actual_direction: Direction::SolToGlc })
    );
    let busy = RouteWalletEligibility { source_retry_after: None, destination_retry_after: Some(9) };
    assert_eq!(
        l.resume_manual_review_sol_to_glc(id, busy, "n", "bob", 60),
        Err(LedgerError::WalletWindowActive {
            request_id: id,
            role: WalletRole::Destination,
            chain: Chain::Goldcoin,
            wallet: b"GLCaddr".to_vec(),
            retry_after: 9
        })
    );
    let busy = RouteWalletEligibility { source_retry_after: Some(8), destination_retry_after: None };
    assert_eq!(
        l.resume_manual_review_sol_to_glc(id, busy, "n", "bob", 60),
        Err(LedgerError::WalletWindowActive {
            request_id: id,
            role: WalletRole::Source,
            chain: Chain::Solana,
            wallet: WALLET.to_vec(),
            retry_after: 8
        })
    );
    assert_eq!(
        l.resume_manual_review_sol_to_glc(id, free(), "n", "bob", 60),
        Ok(ResumeManualReviewOutcome::Resumed)
    );
    assert_eq!(
        l.reserve_snapshot(ReserveDirection::GoldcoinReserve),
        Ok((10_000, 1_000, 2_000, 2_000))
    );
    let already = ResumeManualReviewOutcome::AlreadyResumed { state: RequestState::SourceFinalized };
    assert_eq!(l.resume_manual_review_sol_to_glc(id, free(), "n", "bob", 61), Ok(already));
    assert_eq!(
        l.reserve_snapshot(ReserveDirection::GoldcoinReserve),
        Ok((10_000, 1_000, 2_000, 2_000))
    );
    assert_eq!(l.get_request(id).unwrap().manual_review_note, None);
    assert_eq!(
        l.resume_manual_review_sol_to_glc(99, free(), "n", "bob", 61),
        Err(LedgerError::RequestNotFound(99))
    );
}

#[test]
fn resuming_never_overdraws_the_reserve() {
    let mut l = ledger();
    let id = parked(&mut l, 1, 9_001);
    assert_eq!(
        l.resume_manual_review_sol_to_glc(id, free(), "n", "bob", 60),
        Err(LedgerError::InvariantViolated {
            direction: ReserveDirection::GoldcoinReserve,
            balance: 10_000,
            protected_minimum: 1_000,
            reserved_liquidity: 9_001
        })
    );
    let small = parked(&mut l, 2, 100);
    l.set_admission_liquidity_thresholds(ReserveDirection::GoldcoinReserve, 8_901, 9_000).unwrap();
    assert_eq!(
        l.resume_manual_review_sol_to_glc(small, free(), "n", "bob", 60),
        Err(LedgerError::AdmissionLiquidityBufferLow {
            request_id: small,
            headroom: 9_000,
            net_destination_atomic: 100,
            buffer_atomic: 8_901
        })
    );
    l.set_utxo_pool_thresholds(ReserveDirection::GoldcoinReserve, 2, 3).unwrap();
    assert_eq!(
        l.resume_manual_review_sol_to_glc(small, free(), "n", "bob", 60),
        Err(LedgerError::UtxoLiquidityLow {
            request_id: small,
            available_utxo_count: 0,
            min_available_count: 2
        })
    );
}

#[test]
fn a_deposit_between_solana_and_robinhood_resumes() {
    let mut l = ledger();
    l.set_admission(ReserveDirection::RobinhoodReserve, true, None).unwrap();
    l.fold_sol_deposit_to_robinhood(
        1, amounts(10), WALLET, Some([3; 20]), b"", true, None, free(), None, 5,
    )
    .unwrap();
    assert_eq!(
        l.resume_manual_review_cross_route(Direction::RhnToSol, 1, free(), "n", "bob", 6),
        Err(refused(1, ReviewRefusal::WrongDirection {
            actual: Direction::SolToRhn,
            expected: Direction::RhnToSol
        }))
    );
    assert_eq!(
        l.resume_manual_review_cross_route(Direction::SolToRhn, 1, free(), "n", "bob", 6),
        Ok(ResumeManualReviewOutcome::Resumed)
    );
    let q = l.get_request(1).unwrap();
    assert_eq!(q.reserved_at, Some(6));
    assert_eq!(q.state, RequestState::SourceFinalized);
}

#[test]
fn a_hold_stops_resuming_until_it_is_released() {
    let mut l = ledger();
    let id = parked(&mut l, 1, 100);
    assert_eq!(
        l.set_manual_review_hold(id, None, " \n", "bob", 60),
        Err(refused(id, ReviewRefusal::EmptyNote))
    );
    l.set_manual_review_hold(id, Some(90), " check ", "bob", 60).unwrap();
    let q = l.get_request(id).unwrap();
    assert!(q.is_held());
    assert!(!q.review_available(89));
    assert!(q.review_available(90));
    assert_eq!(q.auto_resume_hold_note.as_deref(), Some("check"));
    assert_eq!(q.manual_review_note.as_deref(), Some("admission_closed_at_fold"));
    assert_eq!(
        l.held_manual_review_requests().iter().map(|q| q.id).collect::<Vec<i64>>(),
        vec![id]
    );
    assert_eq!(
        l.resume_manual_review_sol_to_glc(id, free(), "n", "bob", 61),
        Err(refused(id, ReviewRefusal::OperatorHeld { until: Some(90) }))
    );
    assert_eq!(l.clear_manual_review_hold(id, "fine", "bob", 62), Ok(true));
    assert_eq!(l.clear_manual_review_hold(id, "fine", "bob", 63), Ok(false));
    assert_eq!(
        l.resume_manual_review_sol_to_glc(id, free(), "n", "bob", 64),
        Ok(ResumeManualReviewOutcome::Resumed)
    );
    assert_eq!(
        l.set_manual_review_hold(id, None, "late", "bob", 65),
        Err(refused(id, ReviewRefusal::NotManualReview(RequestState::SourceFinalized)))
    );
}

#[test]
fn a_released_request_stays_on_the_list_of_holds() {
    let mut l = ledger();
    let ids = |l: &Ledger| {
        l.held_manual_review_requests().iter().map(|q| q.id).collect::<Vec<i64>>()
    };
    let never = parked(&mut l, 1, 100);
    let released = parked(&mut l, 2, 100);
    let held = burst(&mut l, 3);
    l.set_manual_review_hold(released, None, "check", "bob", 60).unwrap();
    assert_eq!(ids(&l), vec![released, held]);
    assert_eq!(l.clear_manual_review_hold(released, "fine", "bob", 61), Ok(true));
    assert!(!l.get_request(released).unwrap().is_held());
    assert_eq!(ids(&l), vec![released, held]);
    assert_eq!(
        l.resume_manual_review_sol_to_glc(released, free(), "n", "bob", 62),
        Ok(ResumeManualReviewOutcome::Resumed)
    );
    assert_eq!(ids(&l), vec![released, held]);
    assert!(l.get_request(never).unwrap().hold_started_at.is_none());
}

#[test]
fn a_burst_hold_ends_with_a_decision_only() {
    let mut l = ledger();
    let id = burst(&mut l, 1);
    let q = l.get_request(id).unwrap();
    assert_eq!(q.manual_review_disposition, ManualReviewDisposition::RapidBurstHold);
    assert_eq!(
        l.resume_manual_review_sol_to_glc(id, free(), "n", "bob", 600),
        Err(refused(id, ReviewRefusal::RapidBurstHeld { review_after: Some(500) }))
    );
    assert_eq!(
        l.clear_manual_review_hold(id, "", "bob", 600),
        Err(refused(id, ReviewRefusal::RapidBurstNotReleasable))
    );
    assert_eq!(
        l.set_manual_review_hold(id, None, "x", "bob", 600),
        Err(refused(id, ReviewRefusal::RapidBurstNotReplaced))
    );
    assert_eq!(
        l.process_held_manual_review(id, free(), "ok", "bob", 499),
        Err(refused(id, ReviewRefusal::ReviewNotElapsed { review_after: Some(500), now: 499 }))
    );
    assert_eq!(
        l.process_held_manual_review(id, free(), "ok", "bob", 500),
        Ok(ResumeManualReviewOutcome::Resumed)
    );
    let q = l.get_request(id).unwrap();
    assert_eq!(q.operator_decision, Some(OperatorDecision::Process));
    assert_eq!(q.operator_note.as_deref(), Some("ok"));
}

#[test]
fn only_refunds_come_early() {
    let mut l = ledger();
    let id = burst(&mut l, 1);
    let decide = |l: &mut Ledger, d, note: &str, emergency| {
        l.record_operator_decision(id, d, note, "bob", emergency, 60).map(|q| q.id)
    };
    assert_eq!(
        decide(&mut l, OperatorDecision::Process, "n", true),
        Err(refused(id, ReviewRefusal::EmergencyIsForRefunds))
    );
    assert_eq!(
        decide(&mut l, OperatorDecision::Release, "n", false),
        Err(refused(id, ReviewRefusal::ReleaseIsNoDecision))
    );
    assert_eq!(
        decide(&mut l, OperatorDecision::Refund, "", true),
        Err(refused(id, ReviewRefusal::EmptyNote))
    );
    assert_eq!(
        l.refuse_refund_unless_decided(id),
        Err(LedgerError::RefundNotEligible {
            id,
            detail: RefundRefusal::Held(HoldBlocker::Undecided {
                disposition: ManualReviewDisposition::RapidBurstHold,
                review_after: Some(500)
            })
        })
    );
    assert_eq!(decide(&mut l, OperatorDecision::Refund, " now ", true), Ok(id));
    assert_eq!(
        l.get_request(id).unwrap().operator_note.as_deref(),
        Some("EMERGENCY (before review_after): now")
    );
    assert_eq!(
        l.state_log(id).last().unwrap().3.as_deref(),
        Some("operator_decision_refund_emergency")
    );
    assert_eq!(l.refuse_refund_unless_decided(id), Ok(()));
    let free_one = parked(&mut l, 2, 10);
    assert_eq!(
        l.record_operator_decision(free_one, OperatorDecision::Refund, "n", "bob", false, 60)
            .map(|q| q.id),
        Err(refused(free_one, ReviewRefusal::NotHeld(ManualReviewDisposition::Normal)))
    );
}

fn verified(index: u64, net: u64) -> VerifiedRefundInputs {
    VerifiedRefundInputs {
        obligation_index: index,
        amount_solana_atomic: 2_030,
        gross_canonical_atomic: net + 30,
        requester: WALLET,
        destination_token_account: [5; 32],
        reserve_mint: [6; 32],
        token_program: [7; 32],
    }
}

#[test]
fn a_parked_solana_deposit_is_refunded_once() {
    let mut l = ledger();
    let id = parked(&mut l, 1, 2_000);
    assert_eq!(l.solana_refund_db_checks(id).unwrap().first_failure(), None);
    let capacity = l.solana_refund_capacity(id, 9_001).unwrap();
    assert!(!capacity.ok);
    assert!(l.solana_refund_capacity(id, 9_000).unwrap().ok);
    assert_eq!(
        l.begin_solana_refund(id, &verified(2, 2_000), "n", "bob", 60),
        Err(LedgerError::RefundNotEligible {
            id,
            detail: RefundRefusal::ObligationIndexDiffers { stored: 1, verified: 2 }
        })
    );
    assert_eq!(
        l.begin_solana_refund(id, &verified(1, 1_999), "n", "bob", 60),
        Err(LedgerError::RefundNotEligible {
            id,
            detail: RefundRefusal::GrossDiffers { stored: 2_030, verified: 2_029 }
        })
    );
    l.begin_solana_refund(id, &verified(1, 2_000), "n", "bob", 60).unwrap();
    assert_eq!(
        l.begin_solana_refund(id, &verified(1, 2_000), "n", "bob", 61),
        Err(LedgerError::RefundNotEligible {
            id,
            detail: RefundRefusal::LifecycleExists(SolanaRefundState::Pending)
        })
    );
    assert_eq!(
        l.resume_manual_review_sol_to_glc(id, free(), "n", "bob", 62),
        Err(LedgerError::RefundLifecycleExists { id, refund_state: "Pending" })
    );
    let r = l.get_solana_refund(id).unwrap();
    assert_eq!(r.nonce, SOLANA_REFUND_NONCE_DOMAIN + 1);
    assert_eq!(
        l.mark_solana_refund_confirmed(id, 63),
        Err(LedgerError::RefundWrongState {
            id,
            expected: "Broadcast",
            actual: SolanaRefundState::Pending
        })
    );
    l.record_solana_refund_broadcast(id, "sig", "hash", 4, 64).unwrap();
    l.record_solana_refund_broadcast(id, "sig2", "hash2", 4, 65).unwrap();
    assert_eq!(l.list_solana_refunds(true).len(), 1);
    l.mark_solana_refund_confirmed(id, 66).unwrap();
    l.mark_solana_refund_confirmed(id, 67).unwrap();
    assert_eq!(l.reserve_snapshot(ReserveDirection::SolanaReserve).unwrap().0, 7_970);
    assert_eq!(l.get_request(id).unwrap().state, RequestState::Refunded);
    assert_eq!(l.list_solana_refunds(true).len(), 0);
    assert_eq!(l.list_solana_refunds(false).len(), 1);
    assert_eq!(l.mark_solana_refund_confirmed(9, 66), Err(LedgerError::RefundNotFound(9)));
}

#[test]
fn refund_nonces_lie_in_their_own_domain() {
    assert_eq!(Ledger::solana_refund_nonce(5), Ok(0x8000_0000_0000_0005));
    assert_eq!(
        Ledger::solana_refund_nonce(0),
        Err(LedgerError::RefundNotEligible { id: 0, detail: RefundRefusal::IdNotPositive })
    );
    let mut l = ledger();
    assert_eq!(
        l.begin_solana_refund(0, &verified(1, 100), " ", "bob", 60),
        Err(LedgerError::RefundNotEligible { id: 0, detail: RefundRefusal::IdNotPositive })
    );
}

fn would_refuse(l: &Ledger, id: i64, windows: RouteWalletEligibility) -> String {
    let source = "source wallet 0404 on Solana";
    let destination = "destination wallet GLCaddr on Goldcoin";
    match l.dry_run_resume_manual_review(id, windows, source, destination) {
        ResumeDryRunOutcome::WouldRefuse { reason } => reason,
        other => panic!("not refused: {:?}", other),
    }
}

#[test]
fn a_dry_run_says_in_words_why_it_would_refuse() {
    let mut l = ledger();
    assert_eq!(would_refuse(&l, 9, free()), "bridge request 9 not found");
    let id = parked(&mut l, 1, 2_000);
    let busy = RouteWalletEligibility { source_retry_after: Some(8), destination_retry_after: None };
    assert_eq!(
        would_refuse(&l, id, busy),
        "cannot resume request 1: source wallet 0404 on Solana already backs a bridge request \
         inside the rolling 24-hour window, retry after 8 — wallet_source_24h_limit"
    );
    let busy = RouteWalletEligibility { source_retry_after: None, destination_retry_after: Some(9) };
    assert_eq!(
        would_refuse(&l, id, busy),
        "cannot resume request 1: destination wallet GLCaddr on Goldcoin already backs a bridge \
         request inside the rolling 24-hour window, retry after 9 — wallet_destination_24h_limit"
    );
    l.set_utxo_pool_thresholds(ReserveDirection::GoldcoinReserve, 1, 2).unwrap();
    assert_eq!(
        would_refuse(&l, id, free()),
        "cannot resume request 1: mature Goldcoin UTXO pool (0 available) is still at or below \
         the configured floor (1) — utxo_liquidity_low"
    );
    l.set_utxo_pool_thresholds(ReserveDirection::GoldcoinReserve, 0, 0).unwrap();
    let i = l.requests.iter().position(|q| q.id == id).unwrap();
    l.requests[i].direction = Direction::RhnToGlc;
    assert_eq!(
        would_refuse(&l, id, free()),
        "request 1 is RhnToGlc, not SolToGlc — this command only resumes a SolToGlc request \
         parked by fold_sol_deposit"
    );
    l.requests[i].direction = Direction::SolToGlc;
    l.begin_solana_refund(id, &verified(1, 2_000), "n", "bob", 60).unwrap();
    assert_eq!(
        would_refuse(&l, id, free()),
        "request 1 has a refund lifecycle (refund state Pending) — a refunded request can never \
         be resumed or paid out; inspect it with glc-admin refund-list / refund-manual-review"
    );
}

#[test]
fn a_refund_is_covered_beside_the_others() {
    let mut l = ledger();
    let a = parked(&mut l, 1, 2_000);
    let b = parked(&mut l, 2, 2_000);
    let mut large = verified(1, 2_000);
    large.amount_solana_atomic = 8_000;
    l.begin_solana_refund(a, &large, "n", "bob", 60).unwrap();
    let c = l.solana_refund_capacity(b, 1_000).unwrap();
    assert_eq!(c.other_open_refunds_atomic, 8_000);
    assert!(c.ok);
    assert_eq!(
        l.begin_solana_refund(b, &verified(2, 2_000), "n", "bob", 61),
        Err(LedgerError::InvariantViolated {
            direction: ReserveDirection::SolanaReserve,
            balance: 10_000,
            protected_minimum: 1_000,
            reserved_liquidity: 10_030
        })
    );
}

#[test]
fn a_refused_refund_quotes_the_note() {
    let mut l = ledger();
    l.fold_sol_deposit(1, amounts(10), WALLET, b"a", Some("odd \"note\""), free(), None, 5).unwrap();
    let text = l.solana_refund_db_checks(1).unwrap().first_failure_for_begin().unwrap();
    assert!(text.starts_with(
        "manual_review_note Some(\"odd \\\"note\\\"\") is not a whitelisted fold-time refund reason"
    ));
    let ok = parked(&mut l, 2, 10);
    assert_eq!(l.solana_refund_db_checks(ok).unwrap().first_failure_for_begin(), None);
    l.set_manual_review_hold(ok, Some(77), "wait", "bob", 60).unwrap();
    assert_eq!(
        l.solana_refund_db_checks(ok).unwrap().first_failure_for_begin().unwrap(),
        "held (operator_hold, review_after=77) — record the operator decision first: \
         `glc-admin manual-review-refund` (it re-runs this refund once recorded)"
    );
}

#[test]
fn what_a_refund_can_take_is_bounded_by_the_reserve() {
    let mut l = Ledger::open_in_memory([9; 32], 1);
    l.configure_reserve(ReserveDirection::SolanaReserve, 1_000, 100, 400, 300, 200, 0);
    assert!(l.solana_refund_capacity(1, 900).unwrap().ok);
    for amount in [0, 901, 1u64 << 63, u64::MAX] {
        let c = l.solana_refund_capacity(1, amount).unwrap();
        assert!(!c.ok, "amount {amount}");
        assert_eq!(c.amount_solana_atomic, amount);
    }
}

#[test]
fn a_refund_of_more_than_can_be_stored_is_refused() {
    let mut l = ledger();
    let id = parked(&mut l, 1, 2_000);
    let mut v = verified(1, 2_000);
    v.amount_solana_atomic = 1 << 63;
    assert_eq!(
        l.begin_solana_refund(id, &v, "n", "bob", 60),
        Err(LedgerError::AmountOutOfRange)
    );
    assert!(l.get_solana_refund(id).is_none());
}

#[test]
fn a_mismatch_shows_both_figures() {
    let d = Direction::SolToGlc;
    assert_eq!(
        RefundRefusal::ObligationIndexDiffers { stored: 1, verified: 2 }.text("None", d),
        "stored source_obligation_index 1 does not match the on-chain-verified obligation index 2"
    );
    assert_eq!(
        RefundRefusal::GrossDiffers { stored: -5, verified: 2_029 }.text("None", d),
        "stored gross_amount_atomic -5 does not match the verified canonical gross 2029"
    );
}

#[test]
fn a_refused_resume_quotes_the_note() {
    let mut l = ledger();
    l.fold_sol_deposit(1, amounts(10), WALLET, b"a", Some("odd \"note\""), free(), None, 5).unwrap();
    let refusal = ReviewRefusal::ReasonNotRecoverable;
    assert_eq!(
        l.resume_manual_review_sol_to_glc(1, free(), "n", "bob", 6),
        Err(refused(1, refusal))
    );
    let q = l.get_request(1).unwrap();
    let act = ReviewAct::Resume(q.direction);
    assert_eq!(
        refusal.text(act, q.manual_review_note.as_deref(), ""),
        "manual_review_note Some(\"odd \\\"note\\\"\") is not a known recoverable reason"
    );
    assert_eq!(
        refusal.text(act, None, ""),
        "manual_review_note None is not a known recoverable reason"
    );
    assert_eq!(
        ReviewRefusal::OperatorHeld { until: Some(90) }.text(act, None, "check"),
        "held by operator (auto_resume_hold until 90): check — release with `glc-admin \
         manual-review-release`, or decide with `manual-review-process`, before resuming"
    );
    assert_eq!(
        ReviewRefusal::RapidBurstHeld { review_after: None }.text(act, None, ""),
        "held: rapid-burst hold (review_after=0) — resumes only through an explicit \
         `glc-admin manual-review-process` decision, never automatically"
    );
    assert_eq!(
        ReviewRefusal::ReviewNotElapsed { review_after: Some(500), now: 499 }
            .text(ReviewAct::Decide, None, ""),
        "rapid-burst hold: the minimum review hold has not elapsed (review_after=500, \
         now=499) — decide after that moment, or `--emergency` for a refund"
    );
}

#[test]
fn a_payout_stops_each_act_in_its_own_words() {
    let text = |act| ReviewRefusal::PayoutExists.text(act, None, "");
    assert_eq!(
        text(ReviewAct::Resume(Direction::RhnToGlc)),
        "a Goldcoin payout already exists for this request"
    );
    assert_eq!(
        text(ReviewAct::Resume(Direction::SolToRhn)),
        "a destination payout already exists"
    );
    assert_eq!(
        text(ReviewAct::Hold),
        "a destination payout row already exists — this request is processing"
    );
    assert_eq!(
        ReviewRefusal::EmptyNote.text(ReviewAct::Hold, None, ""),
        "a hold needs a non-empty note"
    );
    assert_eq!(
        ReviewRefusal::EmptyNote.text(ReviewAct::Decide, None, ""),
        "an operator decision needs a non-empty note"
    );
}

#[test]
fn a_robinhood_refund_stops_resuming() {
    let mut l = ledger();
    let id = parked(&mut l, 1, 10);
    let i = l.requests.iter().position(|q| q.id == id).unwrap();
    l.requests[i].direction = Direction::RhnToGlc;
    l.robinhood_txs.push(RobinhoodTxRow {
        id: 1,
        request_id: Some(id),
        rebalance_request_id: None,
        kind: RobinhoodTxKind::Refund,
        state: RobinhoodTxState::Signed,
        finalized_at: None,
    });
    assert_eq!(
        l.resume_manual_review_rhn_to_glc(id, free(), "n", "bob", 6),
        Err(LedgerError::RefundLifecycleExists { id, refund_state: "Signed" })
    );
    assert_eq!(
        l.solana_refund_db_checks(id).unwrap().first_failure(),
        Some(RefundRefusal::NotSolanaSourced(Direction::RhnToGlc))
    );
}

#[test]
fn notes_allow_what_they_should() {
    assert!(Ledger::is_recoverable_manual_review_reason(Some("rapid_burst_hold")));
    assert!(!Ledger::is_recoverable_manual_review_reason(Some("route_disabled_at_fold")));
    assert!(!Ledger::is_recoverable_manual_review_reason(None));
    assert!(Ledger::is_auto_resumable_manual_review_reason(Some("utxo_liquidity_low_at_fold"), false));
    assert!(!Ledger::is_auto_resumable_manual_review_reason(Some("liquidity_buffer_low_at_fold"), false));
    assert!(Ledger::is_auto_resumable_manual_review_reason(Some("recipient_rate_limited"), false));
    assert!(!Ledger::is_auto_resumable_manual_review_reason(Some("rapid_burst_hold"), true));
    assert!(Ledger::is_refundable_manual_review_reason(
        Direction::SolToRhn,
        Some("undeliverable destination: zero address")
    ));
    assert!(!Ledger::is_refundable_manual_review_reason(
        Direction::SolToGlc,
        Some("undeliverable destination")
    ));
}
