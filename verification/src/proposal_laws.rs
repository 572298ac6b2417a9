//! What proposals need to go on, and what each of their steps changes.
use vstd::prelude::*;
use crate::custody::{
    CustodyApprovalOutcome, as_custody, custody_by_id, listed_custody, moved_elsewhere,
};
use crate::error::{InvalidProposal, LedgerError};
use crate::in_flight::rebalance_by_id;
use crate::json::{stored_texts, text_list};
use crate::ledger::{LedgerView, ReserveRow};
use crate::rebalances::{
    RebalanceApprovalOutcome, as_rebalance, executed_elsewhere, listed_rebalance,
};
use crate::route_rows::{
    admission_record, as_admission, as_switch, known_route, stray_record, unknown_route,
};
use crate::rows::{
    CustodyLogView, CustodyView, RebalanceLogView, RebalanceView, RouteAdmissionRecordView,
    RouteRecordView,
};
use crate::table::{
    any_row, blank, decimal, first_row, is_first, lemma_first_row, lemma_first_row_is_first,
};
use crate::types::{
    CustodyTransitionKind, CustodyTransitionState, RebalanceKind, RebalanceState,
    ReserveDirection, Route,
};

verus! {

/// A rebalance may be proposed with an amount, a reason, a proposer and a number of
/// approvals. It is recorded as it was proposed, under the next number, with nobody's
/// approval yet.
pub proof fn law_a_rebalance_is_recorded_as_proposed(
    l: LedgerView,
    direction: ReserveDirection,
    kind: RebalanceKind,
    amount: u64,
    reason: Seq<char>,
    by: Seq<char>,
    required: u32,
    now: i64,
)
    requires
        l.proposals.next_rebalance_id < i64::MAX,
        amount <= i64::MAX,
    ensures
        ({
            let out = l.propose_rebalance_result(amount, reason, by, required);
            let m = l.rebalance_proposed(direction, kind, amount, reason, by, required, now);
            let b = m.proposals.rebalances.last();
            &&& out is Ok <==> amount > 0 && required > 0 && !blank(reason) && !blank(by)
            &&& out matches Ok(id) ==> id == l.proposals.next_rebalance_id
            &&& m.proposals.rebalances.len() == l.proposals.rebalances.len() + 1
            &&& m.proposals.next_rebalance_id == l.proposals.next_rebalance_id + 1
            &&& b.id == l.proposals.next_rebalance_id && b.direction == direction && b.kind == kind
                && b.amount_atomic == amount && b.reason == reason && b.requested_by == by
                && b.required_approvals == required && b.requested_at == now
            &&& b.state == RebalanceState::Proposed && b.approved_by == "[]"@ && b.tx_reference is None
                && b.observed_amount_atomic is None
            &&& m.reserves == l.reserves
        }),
{
}

/// A rebalance is approved exactly while it is proposed. Who approved before is not
/// counted again; with enough different approvers it is approved, and otherwise it stays
/// proposed with one more.
pub proof fn law_a_rebalance_needs_its_approvers(
    l: LedgerView,
    id: i64,
    b: RebalanceView,
    approver: Seq<char>,
    now: i64,
)
    requires
        l.rebalance(id) == Some(b),
        stored_texts(b.approved_by).len() < u32::MAX,
    ensures
        ({
            let before = stored_texts(b.approved_by);
            let n = before.len() + (if before.contains(approver) {
                0int
            } else {
                1
            });
            let all = if before.contains(approver) {
                before
            } else {
                before.push(approver)
            };
            let out = l.approve_rebalance_result(id, approver);
            let m = l.rebalance_approved(id, approver, now);
            &&& out is Ok <==> b.state == RebalanceState::Proposed
            &&& out == Ok::<RebalanceApprovalOutcome, LedgerError>(
                RebalanceApprovalOutcome::ThresholdReached,
            ) <==> b.state == RebalanceState::Proposed && n >= b.required_approvals
            &&& b.state == RebalanceState::Proposed && n < b.required_approvals ==> out == Ok::<
                RebalanceApprovalOutcome,
                LedgerError,
            >(
                RebalanceApprovalOutcome::Recorded {
                    approvals: n as u32,
                    required: b.required_approvals,
                },
            )
            &&& m.rebalance(id) == Some(
                if n >= b.required_approvals {
                    RebalanceView {
                        approved_by: text_list(all),
                        state: RebalanceState::Approved,
                        approved_at: Some(now),
                        ..b
                    }
                } else {
                    RebalanceView { approved_by: text_list(all), ..b }
                },
            )
        }),
{
    let row = l.rebalance_approved(id, approver, now).proposals.rebalances[first_row(
        l.proposals.rebalances,
        rebalance_by_id(id),
    ).unwrap()];
    lemma_first_row_is_first(l.proposals.rebalances, rebalance_by_id(id));
    lemma_rebalance_row(
        l,
        id,
        row,
        l.rebalance_approved(id, approver, now).proposals.rebalances,
    );
}

proof fn lemma_rebalance_row(
    l: LedgerView,
    id: i64,
    row: RebalanceView,
    rows: Seq<RebalanceView>,
)
    requires
        l.rebalance(id) is Some,
        row.id == id,
        rows == l.proposals.rebalances.update(
            first_row(l.proposals.rebalances, rebalance_by_id(id)).unwrap(),
            row,
        ),
    ensures
        first_row(rows, rebalance_by_id(id)) == first_row(
            l.proposals.rebalances,
            rebalance_by_id(id),
        ),
{
    let p = rebalance_by_id(id);
    lemma_first_row_is_first(l.proposals.rebalances, p);
    let i = first_row(l.proposals.rebalances, p).unwrap();
    assert(is_first(rows, p, i)) by {
        assert forall|j: int| 0 <= j < i implies !p(#[trigger] rows[j]) by {
            assert(rows[j] == l.proposals.rebalances[j]);
        }
    }
    lemma_first_row(rows, p, i);
}

/// A step of a rebalance writes its row and one line of its log, with the states, the
/// moment, the reason and the actor, and nothing else.
pub proof fn law_a_rebalance_step_is_logged(
    l: LedgerView,
    id: i64,
    b: RebalanceView,
    row: RebalanceView,
    from: RebalanceState,
    at: i64,
    reason: Seq<char>,
    actor: Seq<char>,
)
    requires
        l.rebalance(id) == Some(b),
        row.id == id,
    ensures
        ({
            let m = l.rebalance_step(id, row, from, at, reason, actor);
            &&& m.rebalance(id) == Some(row)
            &&& m.proposals.rebalances.len() == l.proposals.rebalances.len()
            &&& m.proposals.rebalance_log == l.proposals.rebalance_log.push(
                RebalanceLogView {
                    rebalance_id: id,
                    from_state: Some(from),
                    to_state: row.state,
                    at,
                    reason: Some(reason),
                    actor,
                },
            )
            &&& m.reserves == l.reserves && m.requests == l.requests
            &&& m.proposals.custody == l.proposals.custody
        }),
{
    let m = l.rebalance_step(id, row, from, at, reason, actor);
    lemma_first_row_is_first(l.proposals.rebalances, rebalance_by_id(id));
    lemma_rebalance_row(l, id, row, m.proposals.rebalances);
}

/// A rebalance goes on in its order: it is rejected while proposed and cancelled while
/// proposed or approved, with a note; carried out once approved, by a transaction that no
/// other stands for; and confirmed or failed once carried out.
pub proof fn law_a_rebalance_goes_on_in_its_order(
    l: LedgerView,
    id: i64,
    b: RebalanceView,
    text: Seq<char>,
)
    requires
        l.rebalance(id) == Some(b),
    ensures
        l.close_rebalance_result(id, text, false) is Ok <==> !blank(text) && b.state
            == RebalanceState::Proposed,
        l.close_rebalance_result(id, text, true) is Ok <==> !blank(text) && (b.state
            == RebalanceState::Proposed || b.state == RebalanceState::Approved),
        l.execute_rebalance_result(id, text) is Ok <==> !blank(text) && b.state
            == RebalanceState::Approved && !(exists|i: int|
            0 <= i < l.proposals.rebalances.len() && (#[trigger] l.proposals.rebalances[i]).id != id
                && l.proposals.rebalances[i].tx_reference == Some(text)),
        l.fail_rebalance_result(id, text) is Ok <==> !blank(text) && b.state
            == RebalanceState::Executed,
{
    let p = executed_elsewhere(id, text);
    let rows = l.proposals.rebalances;
    if any_row(rows, p) {
        let i = choose|i: int| 0 <= i < rows.len() && p(#[trigger] rows[i]);
        assert(rows[i].id != id);
    }
    assert forall|i: int|
        0 <= i < rows.len() && (#[trigger] rows[i]).id != id && rows[i].tx_reference == Some(
            text,
        ) implies any_row(rows, p) by {
        assert(p(rows[i]));
    }
}

/// A rebalance that was carried out is booked by what was observed: a deposit raises its
/// reserve's balance by it and a withdrawal lowers it, and no other figure changes but the
/// moment of the balance.
pub proof fn law_a_confirmed_rebalance_is_booked(
    l: LedgerView,
    id: i64,
    b: RebalanceView,
    observed: u64,
    actor: Seq<char>,
    now: i64,
    r: ReserveRow,
)
    requires
        l.rebalance(id) == Some(b),
        l.reserves.row(b.direction) == Some(r),
        observed <= i64::MAX,
        b.kind == RebalanceKind::Deposit ==> r.total_reserve_balance + observed <= i64::MAX,
        b.kind == RebalanceKind::Withdraw ==> r.total_reserve_balance - observed >= i64::MIN,
    ensures
        ({
            let m = l.rebalance_confirmed(id, observed, actor, now);
            &&& l.confirm_rebalance_result(id, observed) is Ok <==> b.state
                == RebalanceState::Executed
            &&& m.reserves.row(b.direction) == Some(
                ReserveRow {
                    total_reserve_balance: (if b.kind == RebalanceKind::Deposit {
                        r.total_reserve_balance + observed
                    } else {
                        r.total_reserve_balance - observed
                    }) as i64,
                    balance_refreshed_at: now,
                    ..r
                },
            )
            &&& m.rebalance(id) == Some(
                RebalanceView {
                    state: RebalanceState::Confirmed,
                    observed_amount_atomic: Some(observed as i64),
                    confirmed_at: Some(now),
                    ..b
                },
            )
            &&& m.proposals.rebalance_log.last().reason == Some(
                "observed_amount_atomic="@ + decimal(observed as int),
            )
        }),
{
    let m = l.rebalance_confirmed(id, observed, actor, now);
    let row = RebalanceView {
        state: RebalanceState::Confirmed,
        observed_amount_atomic: Some(observed as i64),
        confirmed_at: Some(now),
        ..b
    };
    lemma_first_row_is_first(l.proposals.rebalances, rebalance_by_id(id));
    lemma_rebalance_row(l, id, row, m.proposals.rebalances);
}

/// A list of rebalances holds those of the reserve asked for and, where only open ones are
/// asked for, those that are not closed; each is shown as it is recorded.
pub proof fn law_rebalances_are_listed_as_recorded(
    b: RebalanceView,
    direction: Option<ReserveDirection>,
    open_only: bool,
)
    ensures
        listed_rebalance(direction, open_only)(b) <==> (direction is None || direction == Some(
            b.direction,
        )) && (!open_only || b.state == RebalanceState::Proposed || b.state
            == RebalanceState::Approved || b.state == RebalanceState::Executed),
        ({
            let x = as_rebalance()(b);
            x.id == b.id && x.direction == b.direction && x.kind == b.kind && x.amount_atomic
                == b.amount_atomic as u64 && x.state == b.state && x.reason == b.reason
                && x.requested_by == b.requested_by && x.required_approvals == b.required_approvals
                && x.approved_by == stored_texts(b.approved_by) && x.tx_reference == b.tx_reference
                && x.executed_at == b.executed_at && x.confirmed_at == b.confirmed_at
                && x.failure_reason == b.failure_reason && x.approved_at == b.approved_at
                && x.requested_at == b.requested_at && (b.observed_amount_atomic matches Some(n)
                ==> x.observed_amount_atomic == Some(n as u64))
        }),
{
}

proof fn lemma_custody_row(l: LedgerView, id: i64, row: CustodyView, rows: Seq<CustodyView>)
    requires
        l.custody(id) is Some,
        row.id == id,
        rows == l.proposals.custody.update(
            first_row(l.proposals.custody, custody_by_id(id)).unwrap(),
            row,
        ),
    ensures
        first_row(rows, custody_by_id(id)) == first_row(l.proposals.custody, custody_by_id(id)),
{
    let p = custody_by_id(id);
    lemma_first_row_is_first(l.proposals.custody, p);
    let i = first_row(l.proposals.custody, p).unwrap();
    assert(is_first(rows, p, i)) by {
        assert forall|j: int| 0 <= j < i implies !p(#[trigger] rows[j]) by {
            assert(rows[j] == l.proposals.custody[j]);
        }
    }
    lemma_first_row(rows, p, i);
}

/// A custody transition may be proposed with new keys, a reason, a proposer and a number
/// of approvals; a threshold goes with a vault sweep only. It is recorded as proposed.
pub proof fn law_a_custody_transition_is_recorded_as_proposed(
    l: LedgerView,
    kind: CustodyTransitionKind,
    old_keys: Seq<Seq<char>>,
    new_keys: Seq<Seq<char>>,
    threshold: Option<u32>,
    reason: Seq<char>,
    by: Seq<char>,
    required: u32,
    now: i64,
)
    requires
        l.proposals.next_custody_id < i64::MAX,
    ensures
        ({
            let out = l.propose_custody_result(kind, new_keys, threshold, reason, by, required);
            let m = l.custody_proposed(
                kind,
                old_keys,
                new_keys,
                threshold,
                reason,
                by,
                required,
                now,
            );
            let c = m.proposals.custody.last();
            &&& out is Ok <==> new_keys.len() > 0 && (threshold is None || kind
                == CustodyTransitionKind::GoldcoinVaultSweep) && required > 0 && !blank(reason)
                && !blank(by)
            &&& out matches Ok(id) ==> id == l.proposals.next_custody_id
            &&& m.proposals.custody.len() == l.proposals.custody.len() + 1
            &&& m.proposals.next_custody_id == l.proposals.next_custody_id + 1
            &&& c.id == l.proposals.next_custody_id && c.kind == kind && c.state
                == CustodyTransitionState::Proposed && c.old_identities == text_list(old_keys)
                && c.new_identities == text_list(new_keys) && c.new_threshold == threshold
                && c.reason == reason && c.requested_by == by && c.required_approvals == required
                && c.requested_at == now && c.approved_by == "[]"@ && c.tx_reference is None
            &&& m.reserves == l.reserves
        }),
{
}

/// A custody transition is approved exactly once its new keys were verified, by enough
/// different approvers, of whom each counts once.
pub proof fn law_a_custody_transition_needs_its_approvers(
    l: LedgerView,
    id: i64,
    c: CustodyView,
    approver: Seq<char>,
    now: i64,
)
    requires
        l.custody(id) == Some(c),
        stored_texts(c.approved_by).len() < u32::MAX,
    ensures
        ({
            let before = stored_texts(c.approved_by);
            let n = before.len() + (if before.contains(approver) {
                0int
            } else {
                1
            });
            let all = if before.contains(approver) {
                before
            } else {
                before.push(approver)
            };
            let out = l.approve_custody_result(id, approver);
            let m = l.custody_approved(id, approver, now);
            &&& out is Ok <==> c.state == CustodyTransitionState::IdentityVerified
            &&& out == Ok::<CustodyApprovalOutcome, LedgerError>(
                CustodyApprovalOutcome::ThresholdReached,
            ) <==> c.state == CustodyTransitionState::IdentityVerified && n >= c.required_approvals
            &&& m.custody(id) == Some(
                if n >= c.required_approvals {
                    CustodyView {
                        approved_by: text_list(all),
                        state: CustodyTransitionState::Approved,
                        approved_at: Some(now),
                        ..c
                    }
                } else {
                    CustodyView { approved_by: text_list(all), ..c }
                },
            )
        }),
{
    lemma_first_row_is_first(l.proposals.custody, custody_by_id(id));
    let rows = l.custody_approved(id, approver, now).proposals.custody;
    let row = rows[first_row(l.proposals.custody, custody_by_id(id)).unwrap()];
    lemma_custody_row(l, id, row, rows);
}

/// A step of a custody transition writes its row and one line of its log, and nothing
/// else.
pub proof fn law_a_custody_step_is_logged(
    l: LedgerView,
    id: i64,
    c: CustodyView,
    row: CustodyView,
    from: CustodyTransitionState,
    at: i64,
    reason: Seq<char>,
    actor: Seq<char>,
)
    requires
        l.custody(id) == Some(c),
        row.id == id,
    ensures
        ({
            let m = l.custody_step(id, row, from, at, reason, actor);
            &&& m.custody(id) == Some(row)
            &&& m.proposals.custody.len() == l.proposals.custody.len()
            &&& m.proposals.custody_log == l.proposals.custody_log.push(
                CustodyLogView {
                    transition_id: id,
                    from_state: Some(from),
                    to_state: row.state,
                    at,
                    reason: Some(reason),
                    actor,
                },
            )
            &&& m.reserves == l.reserves && m.requests == l.requests
            &&& m.proposals.rebalances == l.proposals.rebalances
        }),
{
    let m = l.custody_step(id, row, from, at, reason, actor);
    lemma_first_row_is_first(l.proposals.custody, custody_by_id(id));
    lemma_custody_row(l, id, row, m.proposals.custody);
}

/// A custody transition goes on in its order. It is carried out once approved, by a
/// transaction that no other stands for, while Goldcoin's reserve is paused and, where the
/// attestation key changes, Solana's too; before that it is rejected, or cancelled, with a
/// note.
pub proof fn law_a_custody_transition_goes_on_in_its_order(
    l: LedgerView,
    id: i64,
    c: CustodyView,
    text: Seq<char>,
    state: CustodyTransitionState,
    empty: InvalidProposal,
)
    requires
        l.custody(id) == Some(c),
    ensures
        l.custody_step_result(id, state, text, empty) is Ok <==> !blank(text) && c.state == state,
        l.custody_in(id, state) is Ok <==> c.state == state,
        l.close_custody_result(id, text, false) is Ok <==> !blank(text) && (c.state
            == CustodyTransitionState::Proposed || c.state
            == CustodyTransitionState::IdentityVerified),
        l.close_custody_result(id, text, true) is Ok <==> !blank(text) && (c.state
            == CustodyTransitionState::Proposed || c.state
            == CustodyTransitionState::IdentityVerified || c.state
            == CustodyTransitionState::Approved),
        l.execute_custody_result(id, text) is Ok <==> {
            &&& !blank(text)
            &&& c.state == CustodyTransitionState::Approved
            &&& l.reserves.goldcoin is Some && l.reserves.goldcoin.unwrap().paused
            &&& c.kind == CustodyTransitionKind::AttestationKeyRotation ==> l.reserves.solana is Some
                && l.reserves.solana.unwrap().paused
            &&& !(exists|i: int|
                0 <= i < l.proposals.custody.len() && (#[trigger] l.proposals.custody[i]).id != id
                    && l.proposals.custody[i].tx_reference == Some(text))
        },
{
    let p = moved_elsewhere(id, text);
    let rows = l.proposals.custody;
    if any_row(rows, p) {
        let i = choose|i: int| 0 <= i < rows.len() && p(#[trigger] rows[i]);
        assert(rows[i].id != id);
    }
    assert forall|i: int|
        0 <= i < rows.len() && (#[trigger] rows[i]).id != id && rows[i].tx_reference == Some(
            text,
        ) implies any_row(rows, p) by {
        assert(p(rows[i]));
    }
}

/// A list of custody transitions holds those of the kind asked for and, where only open
/// ones are asked for, those that are not closed; each is shown as it is recorded.
pub proof fn law_custody_transitions_are_listed_as_recorded(
    c: CustodyView,
    kind: Option<CustodyTransitionKind>,
    open_only: bool,
)
    ensures
        listed_custody(kind, open_only)(c) <==> (kind is None || kind == Some(c.kind)) && (
        !open_only || c.state == CustodyTransitionState::Proposed || c.state
            == CustodyTransitionState::IdentityVerified || c.state
            == CustodyTransitionState::Approved || c.state == CustodyTransitionState::Executed),
        ({
            let x = as_custody()(c);
            x.id == c.id && x.kind == c.kind && x.state == c.state && x.old_identities
                == stored_texts(c.old_identities) && x.new_identities == stored_texts(
                c.new_identities,
            ) && x.new_threshold == c.new_threshold && x.reason == c.reason && x.requested_by
                == c.requested_by && x.required_approvals == c.required_approvals && x.approved_by
                == stored_texts(c.approved_by) && x.identity_verified_by == c.identity_verified_by
                && x.tx_reference == c.tx_reference && x.failure_reason == c.failure_reason
                && x.rollback_reason == c.rollback_reason && x.rolled_back_at == c.rolled_back_at
                && x.executed_at == c.executed_at && x.confirmed_at == c.confirmed_at
        }),
{
}

/// A stored route row is taken as it stands where its route is known, and told apart where
/// it is not; an admission row belongs to a route into Goldcoin, and any other is told
/// apart.
pub proof fn law_route_rows_are_taken_as_they_stand(
    x: RouteRecordView,
    y: RouteAdmissionRecordView,
)
    ensures
        known_route()(x) <==> x.route is Some,
        unknown_route()(x) <==> !known_route()(x),
        x.route matches Some(r) ==> as_switch()(x).route == r,
        as_switch()(x).enabled == x.enabled && as_switch()(x).disabled_reason == x.disabled_reason
            && as_switch()(x).updated_at == x.updated_at,
        admission_record()(y) <==> y.route == Some(Route::SolToGlc) || y.route == Some(
            Route::RhnToGlc,
        ),
        stray_record()(y) <==> !admission_record()(y),
        y.route matches Some(r) ==> as_admission()(y).route == r,
        as_admission()(y).admission_closed == y.admission_closed
            && as_admission()(y).admission_closed_reason == y.admission_closed_reason
            && as_admission()(y).updated_at == y.updated_at,
{
}

} // verus!
