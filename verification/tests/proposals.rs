//! Rebalances and custody transitions.
use bridge_ledger::approvals::approve;
use bridge_ledger::custody::CustodyApprovalOutcome;
use bridge_ledger::error::{InvalidProposal, LedgerError};
use bridge_ledger::json::read_texts;
use bridge_ledger::ledger::Ledger;
use bridge_ledger::rebalances::RebalanceApprovalOutcome;
use bridge_ledger::types::{
    CustodyTransitionKind, CustodyTransitionState, RebalanceKind, RebalanceState,
    ReserveDirection,
};

fn ledger() -> Ledger {
    let mut l = Ledger::open_in_memory([9; 32], 1);
    l.configure_reserve(ReserveDirection::SolanaReserve, 10_000, 1_000, 9_000, 4_000, 2_000, 1);
    l.configure_reserve(ReserveDirection::GoldcoinReserve, 10_000, 1_000, 9_000, 4_000, 2_000, 1);
    l
}

fn proposed(l: &mut Ledger, kind: RebalanceKind, amount: u64, approvals: u32) -> i64 {
    l.propose_rebalance(
        ReserveDirection::GoldcoinReserve,
        kind,
        amount,
        "top up",
        "alice",
        approvals,
        10,
    )
    .unwrap()
}

#[test]
fn an_approver_counts_once() {
    let a = approve(vec!["bob".to_string()], "bob", 2);
    assert_eq!(a.approvers, vec!["bob".to_string()]);
    assert!(!a.reached);
    assert_eq!(a.reason, "approved (1/2)");
    let a = approve(a.approvers, "carol", 2);
    assert_eq!(a.approvers, vec!["bob".to_string(), "carol".to_string()]);
    assert!(a.reached);
    assert_eq!(a.reason, "approval threshold reached (2/2)");
}

#[test]
fn lists_of_texts_survive_storage() {
    assert_eq!(read_texts("[]"), Vec::<String>::new());
    assert_eq!(read_texts("[\"a\",\"b\\\"c\"]"), vec!["a".to_string(), "b\"c".to_string()]);
    assert_eq!(read_texts("no list"), Vec::<String>::new());
    assert_eq!(read_texts("[1]"), Vec::<String>::new());
}

#[test]
fn a_rebalance_is_approved_executed_and_booked_once() {
    let mut l = ledger();
    let id = proposed(&mut l, RebalanceKind::Deposit, 500, 2);
    assert_eq!(id, 1);
    assert_eq!(
        l.approve_rebalance(id, "bob \"the\" second", 11),
        Ok(RebalanceApprovalOutcome::Recorded { approvals: 1, required: 2 })
    );
    assert_eq!(
        l.approve_rebalance(id, "bob \"the\" second", 12),
        Ok(RebalanceApprovalOutcome::Recorded { approvals: 1, required: 2 })
    );
    assert_eq!(
        l.record_rebalance_executed(id, "tx", "bob", 13),
        Err(LedgerError::RebalanceWrongState {
            id,
            expected: RebalanceState::Approved,
            actual: RebalanceState::Proposed
        })
    );
    assert_eq!(
        l.approve_rebalance(id, "carol", 13),
        Ok(RebalanceApprovalOutcome::ThresholdReached)
    );
    let b = l.get_rebalance(id).unwrap();
    assert_eq!(b.approved_by, vec!["bob \"the\" second".to_string(), "carol".to_string()]);
    assert_eq!(b.state, RebalanceState::Approved);
    assert_eq!(b.approved_at, Some(13));
    l.record_rebalance_executed(id, "tx", "bob", 14).unwrap();
    assert_eq!(
        l.reserve_snapshot(ReserveDirection::GoldcoinReserve).unwrap().0,
        10_000
    );
    l.confirm_rebalance(id, 490, "bob", 15).unwrap();
    assert_eq!(
        l.reserve_snapshot(ReserveDirection::GoldcoinReserve).unwrap().0,
        10_490
    );
    assert_eq!(
        l.confirm_rebalance(id, 490, "bob", 16),
        Err(LedgerError::RebalanceWrongState {
            id,
            expected: RebalanceState::Executed,
            actual: RebalanceState::Confirmed
        })
    );
    let log = l.rebalance_state_log(id);
    assert_eq!(log.len(), 6);
    assert_eq!(log[3].reason.as_deref(), Some("approval threshold reached (2/2)"));
    assert_eq!(log[4].reason.as_deref(), Some("tx_reference=tx"));
    assert_eq!(log[5].reason.as_deref(), Some("observed_amount_atomic=490"));
}

#[test]
fn a_withdrawal_takes_from_the_balance() {
    let mut l = ledger();
    let id = proposed(&mut l, RebalanceKind::Withdraw, 500, 1);
    l.approve_rebalance(id, "bob", 11).unwrap();
    l.record_rebalance_executed(id, "tx", "bob", 12).unwrap();
    l.confirm_rebalance(id, 500, "bob", 13).unwrap();
    assert_eq!(l.reserve_snapshot(ReserveDirection::GoldcoinReserve).unwrap().0, 9_500);
}

#[test]
fn a_transaction_stands_for_one_rebalance() {
    let mut l = ledger();
    let a = proposed(&mut l, RebalanceKind::Deposit, 500, 1);
    let b = proposed(&mut l, RebalanceKind::Deposit, 500, 1);
    l.approve_rebalance(a, "bob", 11).unwrap();
    l.approve_rebalance(b, "bob", 11).unwrap();
    l.record_rebalance_executed(a, "tx", "bob", 12).unwrap();
    assert_eq!(l.record_rebalance_executed(b, "tx", "bob", 12), Err(LedgerError::NotUnique));
    assert_eq!(l.record_rebalance_executed(b, "tx2", "bob", 12), Ok(()));
}

#[test]
fn a_closed_rebalance_stays_closed() {
    let mut l = ledger();
    let a = proposed(&mut l, RebalanceKind::Deposit, 500, 1);
    assert_eq!(
        l.reject_rebalance(a, " ", "bob", 11),
        Err(LedgerError::InvalidRebalanceRequest(InvalidProposal::EmptyNote))
    );
    l.reject_rebalance(a, "no", "bob", 11).unwrap();
    assert_eq!(
        l.approve_rebalance(a, "bob", 12),
        Err(LedgerError::RebalanceWrongState {
            id: a,
            expected: RebalanceState::Proposed,
            actual: RebalanceState::Rejected
        })
    );
    let b = proposed(&mut l, RebalanceKind::Deposit, 500, 1);
    l.approve_rebalance(b, "bob", 12).unwrap();
    assert!(l.reject_rebalance(b, "no", "bob", 13).is_err());
    l.cancel_rebalance(b, "no", "bob", 13).unwrap();
    let c = proposed(&mut l, RebalanceKind::Deposit, 500, 1);
    l.approve_rebalance(c, "bob", 14).unwrap();
    l.record_rebalance_executed(c, "tx", "bob", 15).unwrap();
    assert_eq!(
        l.fail_rebalance(c, "", "bob", 16),
        Err(LedgerError::InvalidRebalanceRequest(InvalidProposal::EmptyFailureReason))
    );
    l.fail_rebalance(c, "lost", "bob", 16).unwrap();
    assert_eq!(l.get_rebalance(c).unwrap().failure_reason.as_deref(), Some("lost"));
    assert_eq!(l.list_rebalances(None, true).len(), 0);
    let ids: Vec<i64> = l.list_rebalances(None, false).iter().map(|r| r.id).collect();
    assert_eq!(ids, vec![c, b, a]);
    assert_eq!(l.list_rebalances(Some(ReserveDirection::SolanaReserve), false).len(), 0);
    assert_eq!(l.cancel_rebalance(77, "x", "bob", 17), Err(LedgerError::RebalanceNotFound(77)));
}

#[test]
fn a_rebalance_must_say_something() {
    let mut l = ledger();
    let d = ReserveDirection::GoldcoinReserve;
    let k = RebalanceKind::Deposit;
    let bad = |e| Err(LedgerError::InvalidRebalanceRequest(e));
    assert_eq!(l.propose_rebalance(d, k, 0, "r", "a", 1, 1), bad(InvalidProposal::ZeroAmount));
    assert_eq!(l.propose_rebalance(d, k, 1, "r", "a", 0, 1), bad(InvalidProposal::ZeroApprovals));
    assert_eq!(l.propose_rebalance(d, k, 1, " \t", "a", 1, 1), bad(InvalidProposal::EmptyReason));
    assert_eq!(l.propose_rebalance(d, k, 1, "r", "", 1, 1), bad(InvalidProposal::EmptyRequester));
    assert_eq!(
        l.record_rebalance_executed(1, "\n", "a", 1),
        bad(InvalidProposal::EmptyTxReference).map(|_: i64| ())
    );
}

fn sweep(l: &mut Ledger, kind: CustodyTransitionKind) -> i64 {
    l.propose_custody_transition(
        kind,
        &vec!["old key".to_string()],
        &vec!["new key".to_string(), "second".to_string()],
        None,
        "rotation",
        "alice",
        1,
        10,
    )
    .unwrap()
}

#[test]
fn keys_move_only_while_the_reserves_are_paused() {
    let mut l = ledger();
    let id = sweep(&mut l, CustodyTransitionKind::AttestationKeyRotation);
    assert_eq!(
        l.approve_custody_transition(id, "bob", 11),
        Err(LedgerError::CustodyTransitionWrongState {
            id,
            expected: CustodyTransitionState::IdentityVerified,
            actual: CustodyTransitionState::Proposed
        })
    );
    l.verify_new_identity(id, "dave", 12).unwrap();
    assert_eq!(
        l.approve_custody_transition(id, "bob", 13),
        Ok(CustodyApprovalOutcome::ThresholdReached)
    );
    assert_eq!(
        l.record_custody_transition_executed(id, "tx", "bob", 14),
        Err(LedgerError::CustodyTransitionRequiresPause {
            id,
            direction: ReserveDirection::GoldcoinReserve
        })
    );
    l.set_paused(ReserveDirection::GoldcoinReserve, true, None).unwrap();
    assert_eq!(
        l.record_custody_transition_executed(id, "tx", "bob", 14),
        Err(LedgerError::CustodyTransitionRequiresPause {
            id,
            direction: ReserveDirection::SolanaReserve
        })
    );
    l.set_paused(ReserveDirection::SolanaReserve, true, None).unwrap();
    l.record_custody_transition_executed(id, "tx", "bob", 14).unwrap();
    l.confirm_custody_transition(id, "bob", 15).unwrap();
    let c = l.get_custody_transition(id).unwrap();
    assert_eq!(c.state, CustodyTransitionState::Confirmed);
    assert_eq!(c.old_identities, vec!["old key".to_string()]);
    assert_eq!(c.new_identities, vec!["new key".to_string(), "second".to_string()]);
    assert_eq!(c.approved_by, vec!["bob".to_string()]);
    let log = l.custody_transition_state_log(id);
    assert_eq!(log[1].reason.as_deref(), Some("new identity independently verified"));
    assert_eq!(log.last().unwrap().reason.as_deref(), Some("new custody identity confirmed active"));
}

#[test]
fn a_failed_custody_transition_can_be_undone() {
    let mut l = ledger();
    l.set_paused(ReserveDirection::GoldcoinReserve, true, None).unwrap();
    let id = sweep(&mut l, CustodyTransitionKind::GoldcoinVaultSweep);
    l.verify_new_identity(id, "dave", 12).unwrap();
    l.approve_custody_transition(id, "bob", 13).unwrap();
    l.record_custody_transition_executed(id, "tx", "bob", 14).unwrap();
    assert!(l.rollback_custody_transition(id, "undo", "bob", 15).is_err());
    l.fail_custody_transition(id, "stuck", "bob", 15).unwrap();
    assert_eq!(
        l.rollback_custody_transition(id, "", "bob", 16),
        Err(LedgerError::InvalidCustodyTransition(InvalidProposal::EmptyRollbackReason))
    );
    l.rollback_custody_transition(id, "undo", "bob", 16).unwrap();
    assert_eq!(l.get_custody_transition(id).unwrap().state, CustodyTransitionState::RolledBack);
    let other = sweep(&mut l, CustodyTransitionKind::GoldcoinVaultSweep);
    l.verify_new_identity(other, "dave", 17).unwrap();
    l.approve_custody_transition(other, "bob", 17).unwrap();
    assert_eq!(
        l.record_custody_transition_executed(other, "tx", "bob", 18),
        Err(LedgerError::NotUnique)
    );
    l.cancel_custody_transition(other, "later", "bob", 19).unwrap();
    let third = sweep(&mut l, CustodyTransitionKind::GoldcoinVaultSweep);
    l.reject_custody_transition(third, "no", "bob", 20).unwrap();
    assert_eq!(l.list_custody_transitions(None, true).len(), 0);
    assert_eq!(
        l.list_custody_transitions(Some(CustodyTransitionKind::GoldcoinVaultSweep), false).len(),
        3
    );
}

#[test]
fn a_custody_transition_must_say_something() {
    let mut l = ledger();
    let bad = |e| Err(LedgerError::InvalidCustodyTransition(e));
    let none: Vec<String> = Vec::new();
    let some = vec!["k".to_string()];
    let sweep = CustodyTransitionKind::GoldcoinVaultSweep;
    let rotation = CustodyTransitionKind::AttestationKeyRotation;
    assert_eq!(
        l.propose_custody_transition(sweep, &none, &none, None, "r", "a", 1, 1),
        bad(InvalidProposal::NoNewIdentities)
    );
    assert_eq!(
        l.propose_custody_transition(rotation, &none, &some, Some(2), "r", "a", 1, 1),
        bad(InvalidProposal::ThresholdDoesNotApply)
    );
    assert_eq!(
        l.propose_custody_transition(sweep, &none, &some, Some(2), "r", "a", 0, 1),
        bad(InvalidProposal::ZeroApprovals)
    );
    assert_eq!(
        l.verify_new_identity(1, "", 1),
        bad(InvalidProposal::EmptyVerifier).map(|_: i64| ())
    );
    assert_eq!(
        l.confirm_custody_transition(5, "a", 1),
        Err(LedgerError::CustodyTransitionNotFound(5))
    );
}
