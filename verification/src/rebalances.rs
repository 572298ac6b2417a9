//! Rebalances: adding to a reserve or taking from it, on several approvals.
use vstd::prelude::*;
use crate::approvals::{approval_reason, approve, enough, with_approver};
use crate::error::{InvalidProposal, LedgerError};
use crate::in_flight::rebalance_by_id;
use crate::json::{read_texts, render_texts, stored_texts, text_list};
use crate::ledger::{Ledger, LedgerView, ProposalsView, ReserveRow};
use crate::rows::{
    RebalanceLogRow, RebalanceLogView, RebalanceRow, RebalanceView, dup_text,
};
use crate::table::{
    add_checked, any_row, any_where, blank, collect_where, concat, decimal, decimal_u64,
    first_row, is_blank, is_first, lemma_first_row, lemma_first_row_is_first, select_rows,
    sort_rows, sorted_by, sub_checked, text_is, text_of, values,
};
use crate::types::{RebalanceKind, RebalanceState, ReserveDirection};
use crate::vault::fits;

verus! {

/// What came of an approval of a rebalance.
#[derive(Clone, Copy, Debug, PartialEq, Eq, Structural)]
pub enum RebalanceApprovalOutcome {
    Recorded { approvals: u32, required: u32 },
    ThresholdReached,
}

/// A rebalance, as it is told.
#[derive(Debug, PartialEq, Eq)]
pub struct RebalanceRequest {
    pub id: i64,
    pub direction: ReserveDirection,
    pub kind: RebalanceKind,
    pub amount_atomic: u64,
    pub state: RebalanceState,
    pub reason: String,
    pub requested_by: String,
    pub requested_at: i64,
    pub required_approvals: u32,
    pub approved_by: Vec<String>,
    pub approved_at: Option<i64>,
    pub tx_reference: Option<String>,
    pub executed_at: Option<i64>,
    pub observed_amount_atomic: Option<u64>,
    pub confirmed_at: Option<i64>,
    pub failure_reason: Option<String>,
}

/// The value of a [`RebalanceRequest`].
#[verifier::ext_equal]
pub struct RebalanceRequestView {
    pub id: i64,
    pub direction: ReserveDirection,
    pub kind: RebalanceKind,
    pub amount_atomic: u64,
    pub state: RebalanceState,
    pub reason: Seq<char>,
    pub requested_by: Seq<char>,
    pub requested_at: i64,
    pub required_approvals: u32,
    pub approved_by: Seq<Seq<char>>,
    pub approved_at: Option<i64>,
    pub tx_reference: Option<Seq<char>>,
    pub executed_at: Option<i64>,
    pub observed_amount_atomic: Option<u64>,
    pub confirmed_at: Option<i64>,
    pub failure_reason: Option<Seq<char>>,
}

impl View for RebalanceRequest {
    type V = RebalanceRequestView;

    open spec fn view(&self) -> RebalanceRequestView {
        RebalanceRequestView {
            id: self.id,
            direction: self.direction,
            kind: self.kind,
            amount_atomic: self.amount_atomic,
            state: self.state,
            reason: self.reason@,
            requested_by: self.requested_by@,
            requested_at: self.requested_at,
            required_approvals: self.required_approvals,
            approved_by: values(self.approved_by@),
            approved_at: self.approved_at,
            tx_reference: text_of(self.tx_reference),
            executed_at: self.executed_at,
            observed_amount_atomic: self.observed_amount_atomic,
            confirmed_at: self.confirmed_at,
            failure_reason: text_of(self.failure_reason),
        }
    }
}

/// What is told of a rebalance.
pub open spec fn as_rebalance() -> spec_fn(RebalanceView) -> RebalanceRequestView {
    |b: RebalanceView|
        RebalanceRequestView {
            id: b.id,
            direction: b.direction,
            kind: b.kind,
            amount_atomic: b.amount_atomic as u64,
            state: b.state,
            reason: b.reason,
            requested_by: b.requested_by,
            requested_at: b.requested_at,
            required_approvals: b.required_approvals,
            approved_by: stored_texts(b.approved_by),
            approved_at: b.approved_at,
            tx_reference: b.tx_reference,
            executed_at: b.executed_at,
            observed_amount_atomic: match b.observed_amount_atomic {
                Some(n) => Some(n as u64),
                None => None,
            },
            confirmed_at: b.confirmed_at,
            failure_reason: b.failure_reason,
        }
}

/// Another rebalance with this transaction.
pub open spec fn executed_elsewhere(id: i64, tx_reference: Seq<char>) -> spec_fn(
    RebalanceView,
) -> bool {
    |b: RebalanceView| b.id != id && b.tx_reference == Some(tx_reference)
}

/// A rebalance that is listed.
pub open spec fn listed_rebalance(direction: Option<ReserveDirection>, open_only: bool) -> spec_fn(
    RebalanceView,
) -> bool {
    |b: RebalanceView|
        (direction is None || direction == Some(b.direction)) && (!open_only || b.state.spec_open())
}

/// What a confirmed rebalance adds to the balance of its reserve.
pub open spec fn rebalance_delta(kind: RebalanceKind, observed: u64) -> int {
    match kind {
        RebalanceKind::Deposit => observed as int,
        RebalanceKind::Withdraw => -(observed as int),
    }
}

/// The rebalance stands in a state from which this step does not lead on.
pub open spec fn rebalance_stuck<T>(id: i64, expected: RebalanceState, actual: RebalanceState) -> Result<
    T,
    LedgerError,
> {
    Err(LedgerError::RebalanceWrongState { id, expected, actual })
}

impl LedgerView {
    /// The ledger with other proposals.
    pub open spec fn with_proposals(self, proposals: ProposalsView) -> LedgerView {
        LedgerView { proposals, ..self }
    }

    /// The ledger after a step of rebalance `id`.
    pub open spec fn rebalance_step(
        self,
        id: i64,
        row: RebalanceView,
        from: RebalanceState,
        at: i64,
        reason: Seq<char>,
        actor: Seq<char>,
    ) -> LedgerView {
        let rebalances = match first_row(self.proposals.rebalances, rebalance_by_id(id)) {
            Some(i) => self.proposals.rebalances.update(i, row),
            None => self.proposals.rebalances,
        };
        self.with_proposals(
            ProposalsView {
                rebalances,
                rebalance_log: self.proposals.rebalance_log.push(
                    RebalanceLogView {
                        rebalance_id: id,
                        from_state: Some(from),
                        to_state: row.state,
                        at,
                        reason: Some(reason),
                        actor,
                    },
                ),
                ..self.proposals
            },
        )
    }

    /// Whether a rebalance can be proposed, and under which number.
    pub open spec fn propose_rebalance_result(
        self,
        amount: u64,
        reason: Seq<char>,
        requested_by: Seq<char>,
        required: u32,
    ) -> Result<i64, LedgerError> {
        if amount == 0 {
            Err(LedgerError::InvalidRebalanceRequest(InvalidProposal::ZeroAmount))
        } else if required == 0 {
            Err(LedgerError::InvalidRebalanceRequest(InvalidProposal::ZeroApprovals))
        } else if blank(reason) {
            Err(LedgerError::InvalidRebalanceRequest(InvalidProposal::EmptyReason))
        } else if blank(requested_by) {
            Err(LedgerError::InvalidRebalanceRequest(InvalidProposal::EmptyRequester))
        } else if self.proposals.next_rebalance_id == i64::MAX {
            Err(LedgerError::NumbersExhausted)
        } else {
            Ok(self.proposals.next_rebalance_id)
        }
    }

    /// The ledger after a rebalance was proposed.
    pub open spec fn rebalance_proposed(
        self,
        direction: ReserveDirection,
        kind: RebalanceKind,
        amount: u64,
        reason: Seq<char>,
        requested_by: Seq<char>,
        required: u32,
        now: i64,
    ) -> LedgerView {
        let id = self.proposals.next_rebalance_id;
        self.with_proposals(
            ProposalsView {
                rebalances: self.proposals.rebalances.push(
                    RebalanceView {
                        id,
                        direction,
                        kind,
                        amount_atomic: amount as i64,
                        state: RebalanceState::Proposed,
                        reason,
                        requested_by,
                        requested_at: now,
                        required_approvals: required,
                        approved_by: "[]"@,
                        approved_at: None,
                        tx_reference: None,
                        executed_at: None,
                        observed_amount_atomic: None,
                        confirmed_at: None,
                        failure_reason: None,
                    },
                ),
                rebalance_log: self.proposals.rebalance_log.push(
                    RebalanceLogView {
                        rebalance_id: id,
                        from_state: None,
                        to_state: RebalanceState::Proposed,
                        at: now,
                        reason: Some(reason),
                        actor: requested_by,
                    },
                ),
                next_rebalance_id: (id + 1) as i64,
                ..self.proposals
            },
        )
    }

    /// The rebalance can be taken on from this state.
    pub open spec fn rebalance_in(self, id: i64, state: RebalanceState) -> Result<(), LedgerError> {
        match self.rebalance(id) {
            None => Err(LedgerError::RebalanceNotFound(id)),
            Some(b) => if b.state == state {
                Ok(())
            } else {
                rebalance_stuck(id, state, b.state)
            },
        }
    }

    /// What comes of an approval of a rebalance.
    pub open spec fn approve_rebalance_result(self, id: i64, approver: Seq<char>) -> Result<
        RebalanceApprovalOutcome,
        LedgerError,
    > {
        match self.rebalance_in(id, RebalanceState::Proposed) {
            Err(e) => Err(e),
            Ok(_) => {
                let b = self.rebalance(id).unwrap();
                let all = with_approver(stored_texts(b.approved_by), approver);
                if enough(all, b.required_approvals) {
                    Ok(RebalanceApprovalOutcome::ThresholdReached)
                } else {
                    Ok(
                        RebalanceApprovalOutcome::Recorded {
                            approvals: all.len() as u32,
                            required: b.required_approvals,
                        },
                    )
                }
            },
        }
    }

    /// The ledger after an approval of a rebalance.
    pub open spec fn rebalance_approved(self, id: i64, approver: Seq<char>, now: i64) -> LedgerView {
        let b = self.rebalance(id).unwrap();
        let all = with_approver(stored_texts(b.approved_by), approver);
        let reached = enough(all, b.required_approvals);
        self.rebalance_step(
            id,
            if reached {
                RebalanceView {
                    approved_by: text_list(all),
                    state: RebalanceState::Approved,
                    approved_at: Some(now),
                    ..b
                }
            } else {
                RebalanceView { approved_by: text_list(all), ..b }
            },
            RebalanceState::Proposed,
            now,
            approval_reason(all.len() as int, b.required_approvals, reached),
            approver,
        )
    }

    /// Whether a rebalance can be closed without being carried out.
    pub open spec fn close_rebalance_result(self, id: i64, note: Seq<char>, approved_too: bool) -> Result<
        (),
        LedgerError,
    > {
        if blank(note) {
            Err(LedgerError::InvalidRebalanceRequest(InvalidProposal::EmptyNote))
        } else {
            match self.rebalance(id) {
                None => Err(LedgerError::RebalanceNotFound(id)),
                Some(b) => if b.state == RebalanceState::Proposed || (approved_too && b.state
                    == RebalanceState::Approved) {
                    Ok(())
                } else {
                    rebalance_stuck(id, RebalanceState::Proposed, b.state)
                },
            }
        }
    }

    /// The ledger after a rebalance was closed without being carried out.
    pub open spec fn rebalance_closed(
        self,
        id: i64,
        to: RebalanceState,
        note: Seq<char>,
        actor: Seq<char>,
        now: i64,
    ) -> LedgerView {
        let b = self.rebalance(id).unwrap();
        self.rebalance_step(id, RebalanceView { state: to, ..b }, b.state, now, note, actor)
    }

    /// Whether the transaction of a rebalance can be recorded.
    pub open spec fn execute_rebalance_result(self, id: i64, tx_reference: Seq<char>) -> Result<
        (),
        LedgerError,
    > {
        if blank(tx_reference) {
            Err(LedgerError::InvalidRebalanceRequest(InvalidProposal::EmptyTxReference))
        } else {
            match self.rebalance_in(id, RebalanceState::Approved) {
                Err(e) => Err(e),
                Ok(_) => if any_row(
                    self.proposals.rebalances,
                    executed_elsewhere(id, tx_reference),
                ) {
                    Err(LedgerError::NotUnique)
                } else {
                    Ok(())
                },
            }
        }
    }

    /// Whether a rebalance can be recorded as confirmed.
    pub open spec fn confirm_rebalance_result(self, id: i64, observed: u64) -> Result<
        (),
        LedgerError,
    > {
        match self.rebalance_in(id, RebalanceState::Executed) {
            Err(e) => Err(e),
            Ok(_) => {
                let b = self.rebalance(id).unwrap();
                if self.reserves.row(b.direction) matches Some(r) && !fits(
                    r.total_reserve_balance + rebalance_delta(b.kind, observed),
                ) {
                    Err(LedgerError::AmountOutOfRange)
                } else {
                    Ok(())
                }
            },
        }
    }

    /// The ledger after a rebalance was recorded as confirmed.
    pub open spec fn rebalance_confirmed(self, id: i64, observed: u64, actor: Seq<char>, now: i64) -> LedgerView {
        let b = self.rebalance(id).unwrap();
        let l = match self.reserves.row(b.direction) {
            Some(r) => self.with_reserve(
                b.direction,
                ReserveRow {
                    total_reserve_balance: (r.total_reserve_balance + rebalance_delta(
                        b.kind,
                        observed,
                    )) as i64,
                    balance_refreshed_at: now,
                    ..r
                },
            ),
            None => self,
        };
        l.rebalance_step(
            id,
            RebalanceView {
                state: RebalanceState::Confirmed,
                observed_amount_atomic: Some(observed as i64),
                confirmed_at: Some(now),
                ..b
            },
            RebalanceState::Executed,
            now,
            "observed_amount_atomic="@ + decimal(observed as int),
            actor,
        )
    }

    /// Whether a rebalance can be recorded as failed.
    pub open spec fn fail_rebalance_result(self, id: i64, reason: Seq<char>) -> Result<
        (),
        LedgerError,
    > {
        if blank(reason) {
            Err(LedgerError::InvalidRebalanceRequest(InvalidProposal::EmptyFailureReason))
        } else {
            self.rebalance_in(id, RebalanceState::Executed)
        }
    }
}

impl Ledger {
    fn push_rebalance_log(
        &mut self,
        id: i64,
        from: Option<RebalanceState>,
        to: RebalanceState,
        at: i64,
        reason: &str,
        actor: &str,
    )
        ensures
            final(self)@ == old(self)@.with_proposals(
                ProposalsView {
                    rebalance_log: old(self)@.proposals.rebalance_log.push(
                        RebalanceLogView {
                            rebalance_id: id,
                            from_state: from,
                            to_state: to,
                            at,
                            reason: Some(reason@),
                            actor: actor@,
                        },
                    ),
                    ..old(self)@.proposals
                },
            ),
    {
        let row = RebalanceLogRow {
            rebalance_id: id,
            from_state: from,
            to_state: to,
            at,
            reason: Some(reason.to_owned()),
            actor: actor.to_owned(),
        };
        let ghost v = row@;
        let ghost before = self@.proposals.rebalance_log;
        self.proposals.rebalance_log.push(row);
        proof {
            assert(self@.proposals.rebalance_log =~= before.push(v));
        }
    }

    /// Writes a step of the rebalance at `i`.
    fn write_rebalance(
        &mut self,
        id: i64,
        i: usize,
        row: RebalanceRow,
        from: RebalanceState,
        at: i64,
        reason: &str,
        actor: &str,
    )
        requires
            i < old(self).proposals.rebalances@.len(),
            first_row(old(self)@.proposals.rebalances, rebalance_by_id(id)) == Some(i as int),
        ensures
            final(self)@ == old(self)@.rebalance_step(id, row@, from, at, reason@, actor@),
    {
        let to = row.state;
        let ghost v = row@;
        let ghost before = self@.proposals.rebalances;
        self.proposals.rebalances[i] = row;
        proof {
            assert(self@.proposals.rebalances =~= before.update(i as int, v));
        }
        self.push_rebalance_log(id, Some(from), to, at, reason, actor);
    }

    /// Proposes a rebalance and returns its number.
    pub fn propose_rebalance(
        &mut self,
        direction: ReserveDirection,
        kind: RebalanceKind,
        amount_atomic: u64,
        reason: &str,
        requested_by: &str,
        required_approvals: u32,
        now: i64,
    ) -> (r: Result<i64, LedgerError>)
        ensures
            r == old(self)@.propose_rebalance_result(
                amount_atomic,
                reason@,
                requested_by@,
                required_approvals,
            ),
            final(self)@ == (if r is Ok {
                old(self)@.rebalance_proposed(
                    direction,
                    kind,
                    amount_atomic,
                    reason@,
                    requested_by@,
                    required_approvals,
                    now,
                )
            } else {
                old(self)@
            }),
    {
        if amount_atomic == 0 {
            return Err(LedgerError::InvalidRebalanceRequest(InvalidProposal::ZeroAmount));
        }
        if required_approvals == 0 {
            return Err(LedgerError::InvalidRebalanceRequest(InvalidProposal::ZeroApprovals));
        }
        if is_blank(reason) {
            return Err(LedgerError::InvalidRebalanceRequest(InvalidProposal::EmptyReason));
        }
        if is_blank(requested_by) {
            return Err(LedgerError::InvalidRebalanceRequest(InvalidProposal::EmptyRequester));
        }
        let id = self.proposals.next_rebalance_id;
        if id == i64::MAX {
            return Err(LedgerError::NumbersExhausted);
        }
        let row = RebalanceRow {
            id,
            direction,
            kind,
            amount_atomic: amount_atomic as i64,
            state: RebalanceState::Proposed,
            reason: reason.to_owned(),
            requested_by: requested_by.to_owned(),
            requested_at: now,
            required_approvals,
            approved_by: "[]".to_owned(),
            approved_at: None,
            tx_reference: None,
            executed_at: None,
            observed_amount_atomic: None,
            confirmed_at: None,
            failure_reason: None,
        };
        let ghost v = row@;
        let ghost before = self@.proposals.rebalances;
        self.proposals.rebalances.push(row);
        self.proposals.next_rebalance_id = id + 1;
        proof {
            assert(self@.proposals.rebalances =~= before.push(v));
        }
        self.push_rebalance_log(id, None, RebalanceState::Proposed, now, reason, requested_by);
        Ok(id)
    }

    fn rebalance_at(&self, id: i64, state: RebalanceState) -> (r: Result<usize, LedgerError>)
        ensures
            match (r, self@.rebalance_in(id, state)) {
                (Ok(i), Ok(_)) => {
                    &&& i < self.proposals.rebalances@.len()
                    &&& first_row(self@.proposals.rebalances, rebalance_by_id(id)) == Some(i as int)
                    &&& self@.rebalance(id) == Some(self.proposals.rebalances@[i as int]@)
                    &&& self.proposals.rebalances@[i as int].id == id
                },
                (Err(e), Err(want)) => e == want,
                _ => false,
            },
    {
        match self.find_rebalance(id) {
            None => Err(LedgerError::RebalanceNotFound(id)),
            Some(i) => {
                let actual = self.proposals.rebalances[i].state;
                if actual == state {
                    Ok(i)
                } else {
                    Err(LedgerError::RebalanceWrongState { id, expected: state, actual })
                }
            },
        }
    }

    /// Records an approval of a rebalance. Whoever approves twice counts once,
    /// and a proposal starts with no approval.
    pub fn approve_rebalance(&mut self, id: i64, approver: &str, now: i64) -> (r: Result<
        RebalanceApprovalOutcome,
        LedgerError,
    >)
        ensures
            r == old(self)@.approve_rebalance_result(id, approver@),
            final(self)@ == (if r is Ok {
                old(self)@.rebalance_approved(id, approver@, now)
            } else {
                old(self)@
            }),
            r is Ok ==> (final(self)@.rebalance(id) matches Some(b) && stored_texts(b.approved_by)
                == with_approver(
                stored_texts(old(self)@.rebalance(id).unwrap().approved_by),
                approver@,
            )),
            r is Ok && old(self)@.rebalance(id).unwrap().approved_by == "[]"@ ==> stored_texts(
                old(self)@.rebalance(id).unwrap().approved_by,
            ) == Seq::<Seq<char>>::empty(),
    {
        let i = match self.rebalance_at(id, RebalanceState::Proposed) {
            Ok(i) => i,
            Err(e) => {
                return Err(e);
            },
        };
        let mut row = self.proposals.rebalances[i].clone();
        let required = row.required_approvals;
        let approvers = read_texts(row.approved_by.as_str());
        let a = approve(approvers, approver, required);
        row.approved_by = render_texts(&a.approvers);
        if a.reached {
            row.state = RebalanceState::Approved;
            row.approved_at = Some(now);
        }
        self.write_rebalance(
            id,
            i,
            row,
            RebalanceState::Proposed,
            now,
            a.reason.as_str(),
            approver,
        );
        proof {
            lemma_rebalance_step(old(self)@, id, self@.proposals.rebalances[i as int]);
        }
        let n: usize = a.approvers.len();
        Ok(
            if a.reached {
                RebalanceApprovalOutcome::ThresholdReached
            } else {
                RebalanceApprovalOutcome::Recorded { approvals: n as u32, required }
            },
        )
    }

    fn close_rebalance(
        &mut self,
        id: i64,
        approved_too: bool,
        to: RebalanceState,
        note: &str,
        actor: &str,
        now: i64,
    ) -> (r: Result<(), LedgerError>)
        ensures
            r == old(self)@.close_rebalance_result(id, note@, approved_too),
            final(self)@ == (if r is Ok {
                old(self)@.rebalance_closed(id, to, note@, actor@, now)
            } else {
                old(self)@
            }),
    {
        if is_blank(note) {
            return Err(LedgerError::InvalidRebalanceRequest(InvalidProposal::EmptyNote));
        }
        let i = match self.find_rebalance(id) {
            Some(i) => i,
            None => {
                return Err(LedgerError::RebalanceNotFound(id));
            },
        };
        let from = self.proposals.rebalances[i].state;
        if !(matches!(from, RebalanceState::Proposed) || (approved_too && matches!(
            from,
            RebalanceState::Approved
        ))) {
            return Err(
                LedgerError::RebalanceWrongState {
                    id,
                    expected: RebalanceState::Proposed,
                    actual: from,
                },
            );
        }
        let mut row = self.proposals.rebalances[i].clone();
        row.state = to;
        self.write_rebalance(id, i, row, from, now, note, actor);
        Ok(())
    }

    /// Turns a proposed rebalance down.
    pub fn reject_rebalance(&mut self, id: i64, note: &str, actor: &str, now: i64) -> (r: Result<
        (),
        LedgerError,
    >)
        ensures
            r == old(self)@.close_rebalance_result(id, note@, false),
            final(self)@ == (if r is Ok {
                old(self)@.rebalance_closed(id, RebalanceState::Rejected, note@, actor@, now)
            } else {
                old(self)@
            }),
    {
        self.close_rebalance(id, false, RebalanceState::Rejected, note, actor, now)
    }

    /// Calls a rebalance off that was not carried out.
    pub fn cancel_rebalance(&mut self, id: i64, note: &str, actor: &str, now: i64) -> (r: Result<
        (),
        LedgerError,
    >)
        ensures
            r == old(self)@.close_rebalance_result(id, note@, true),
            final(self)@ == (if r is Ok {
                old(self)@.rebalance_closed(id, RebalanceState::Cancelled, note@, actor@, now)
            } else {
                old(self)@
            }),
    {
        self.close_rebalance(id, true, RebalanceState::Cancelled, note, actor, now)
    }

    /// Records the transaction that carried a rebalance out. A transaction
    /// stands for one rebalance.
    pub fn record_rebalance_executed(
        &mut self,
        id: i64,
        tx_reference: &str,
        actor: &str,
        now: i64,
    ) -> (r: Result<(), LedgerError>)
        ensures
            r == old(self)@.execute_rebalance_result(id, tx_reference@),
            final(self)@ == (if r is Ok {
                old(self)@.rebalance_step(
                    id,
                    RebalanceView {
                        state: RebalanceState::Executed,
                        tx_reference: Some(tx_reference@),
                        executed_at: Some(now),
                        ..old(self)@.rebalance(id).unwrap()
                    },
                    RebalanceState::Approved,
                    now,
                    "tx_reference="@ + tx_reference@,
                    actor@,
                )
            } else {
                old(self)@
            }),
    {
        if is_blank(tx_reference) {
            return Err(LedgerError::InvalidRebalanceRequest(InvalidProposal::EmptyTxReference));
        }
        let i = match self.rebalance_at(id, RebalanceState::Approved) {
            Ok(i) => i,
            Err(e) => {
                return Err(e);
            },
        };
        if any_where(
            &self.proposals.rebalances,
            |b: &RebalanceRow| -> (r: bool)
                ensures r == executed_elsewhere(id, tx_reference@)(b@) {
                b.id != id && text_is(&b.tx_reference, tx_reference)
            },
            Ghost(executed_elsewhere(id, tx_reference@)),
        ) {
            return Err(LedgerError::NotUnique);
        }
        let mut row = self.proposals.rebalances[i].clone();
        row.state = RebalanceState::Executed;
        row.tx_reference = Some(tx_reference.to_owned());
        row.executed_at = Some(now);
        let why = concat("tx_reference=", tx_reference);
        self.write_rebalance(id, i, row, RebalanceState::Approved, now, why.as_str(), actor);
        Ok(())
    }

    /// Records what a rebalance was seen to move, and takes it into the books.
    pub fn confirm_rebalance(
        &mut self,
        id: i64,
        observed_amount_atomic: u64,
        actor: &str,
        now: i64,
    ) -> (r: Result<(), LedgerError>)
        requires
            observed_amount_atomic <= i64::MAX,
        ensures
            r == old(self)@.confirm_rebalance_result(id, observed_amount_atomic),
            final(self)@ == (if r is Ok {
                old(self)@.rebalance_confirmed(id, observed_amount_atomic, actor@, now)
            } else {
                old(self)@
            }),
    {
        let i = match self.rebalance_at(id, RebalanceState::Executed) {
            Ok(i) => i,
            Err(e) => {
                return Err(e);
            },
        };
        let mut row = self.proposals.rebalances[i].clone();
        let direction = row.direction;
        let amount = observed_amount_atomic as i64;
        match self.reserves.get(direction) {
            Some(books) => {
                let balance = match row.kind {
                    RebalanceKind::Deposit => add_checked(books.total_reserve_balance, amount),
                    RebalanceKind::Withdraw => sub_checked(books.total_reserve_balance, amount),
                };
                match balance {
                    Some(b) => {
                        self.put_reserve(
                            direction,
                            ReserveRow {
                                total_reserve_balance: b,
                                balance_refreshed_at: now,
                                ..books
                            },
                        );
                    },
                    None => {
                        return Err(LedgerError::AmountOutOfRange);
                    },
                }
            },
            None => {},
        }
        row.state = RebalanceState::Confirmed;
        row.observed_amount_atomic = Some(amount);
        row.confirmed_at = Some(now);
        let n = decimal_u64(observed_amount_atomic);
        let why = concat("observed_amount_atomic=", n.as_str());
        self.write_rebalance(id, i, row, RebalanceState::Executed, now, why.as_str(), actor);
        Ok(())
    }

    /// Records that a rebalance failed after its transaction was sent.
    pub fn fail_rebalance(&mut self, id: i64, reason: &str, actor: &str, now: i64) -> (r: Result<
        (),
        LedgerError,
    >)
        ensures
            r == old(self)@.fail_rebalance_result(id, reason@),
            final(self)@ == (if r is Ok {
                old(self)@.rebalance_step(
                    id,
                    RebalanceView {
                        state: RebalanceState::Failed,
                        failure_reason: Some(reason@),
                        ..old(self)@.rebalance(id).unwrap()
                    },
                    RebalanceState::Executed,
                    now,
                    reason@,
                    actor@,
                )
            } else {
                old(self)@
            }),
    {
        if is_blank(reason) {
            return Err(LedgerError::InvalidRebalanceRequest(InvalidProposal::EmptyFailureReason));
        }
        let i = match self.rebalance_at(id, RebalanceState::Executed) {
            Ok(i) => i,
            Err(e) => {
                return Err(e);
            },
        };
        let mut row = self.proposals.rebalances[i].clone();
        row.state = RebalanceState::Failed;
        row.failure_reason = Some(reason.to_owned());
        self.write_rebalance(id, i, row, RebalanceState::Executed, now, reason, actor);
        Ok(())
    }
}

fn tell_rebalance(b: &RebalanceRow) -> (r: RebalanceRequest)
    ensures
        r@ == as_rebalance()(b@),
{
    RebalanceRequest {
        id: b.id,
        direction: b.direction,
        kind: b.kind,
        amount_atomic: b.amount_atomic as u64,
        state: b.state,
        reason: b.reason.clone(),
        requested_by: b.requested_by.clone(),
        requested_at: b.requested_at,
        required_approvals: b.required_approvals,
        approved_by: read_texts(b.approved_by.as_str()),
        approved_at: b.approved_at,
        tx_reference: dup_text(&b.tx_reference),
        executed_at: b.executed_at,
        observed_amount_atomic: match b.observed_amount_atomic {
            Some(n) => Some(n as u64),
            None => None,
        },
        confirmed_at: b.confirmed_at,
        failure_reason: dup_text(&b.failure_reason),
    }
}

impl Ledger {
    /// A rebalance.
    pub fn get_rebalance(&self, id: i64) -> (r: Option<RebalanceRequest>)
        ensures
            match (r, self@.rebalance(id)) {
                (Some(x), Some(b)) => x@ == as_rebalance()(b),
                (None, None) => true,
                _ => false,
            },
    {
        match self.find_rebalance(id) {
            Some(i) => Some(tell_rebalance(&self.proposals.rebalances[i])),
            None => None,
        }
    }

    /// The rebalances, the newest first: those of one reserve or of all, and
    /// all or only those with something still to happen.
    pub fn list_rebalances(&self, direction: Option<ReserveDirection>, open_only: bool) -> (r: Vec<
        RebalanceRequest,
    >)
        ensures
            sorted_by(values(r@), |a: RebalanceRequestView, b: RebalanceRequestView| a.id >= b.id),
            values(r@).to_multiset() == select_rows(
                self@.proposals.rebalances,
                listed_rebalance(direction, open_only),
            ).map_values(as_rebalance()).to_multiset(),
    {
        let rows = collect_where(
            &self.proposals.rebalances,
            |b: &RebalanceRow| -> (r: bool)
                ensures r == listed_rebalance(direction, open_only)(b@) {
                (direction.is_none() || direction == Some(b.direction)) && (!open_only
                    || b.state.is_open())
            },
            |b: &RebalanceRow| -> (x: RebalanceRequest) ensures x@ == as_rebalance()(b@) {
                tell_rebalance(b)
            },
            Ghost(listed_rebalance(direction, open_only)),
            Ghost(as_rebalance()),
        );
        sort_rows(
            rows,
            |a: &RebalanceRequest, b: &RebalanceRequest| -> (r: bool)
                ensures r == (a@.id >= b@.id) { a.id >= b.id },
            Ghost(|a: RebalanceRequestView, b: RebalanceRequestView| a.id >= b.id),
        )
    }

    /// The steps of a rebalance, in the order in which they were taken.
    pub fn rebalance_state_log(&self, id: i64) -> (r: Vec<RebalanceLogRow>)
        ensures
            values(r@) == select_rows(
                self@.proposals.rebalance_log,
                |e: RebalanceLogView| e.rebalance_id == id,
            ),
    {
        let ghost p = |e: RebalanceLogView| e.rebalance_id == id;
        let r = collect_where(
            &self.proposals.rebalance_log,
            |e: &RebalanceLogRow| -> (b: bool) ensures b == p(e@) { e.rebalance_id == id },
            |e: &RebalanceLogRow| -> (d: RebalanceLogRow) ensures d@ == e@ { e.clone() },
            Ghost(p),
            Ghost(|e: RebalanceLogView| e),
        );
        proof {
            let sel = select_rows(self@.proposals.rebalance_log, p);
            assert(sel.map_values(|e: RebalanceLogView| e) =~= sel);
        }
        r
    }
}

proof fn lemma_rebalance_step(l: LedgerView, id: i64, row: RebalanceView)
    requires
        l.rebalance(id) is Some,
        row.id == id,
    ensures
        forall|from: RebalanceState, at: i64, reason: Seq<char>, actor: Seq<char>|
            (#[trigger] l.rebalance_step(id, row, from, at, reason, actor)).rebalance(id) == Some(
                row,
            ),
{
    let p = rebalance_by_id(id);
    lemma_first_row_is_first(l.proposals.rebalances, p);
    let i = first_row(l.proposals.rebalances, p).unwrap();
    let rows = l.proposals.rebalances.update(i, row);
    assert(is_first(rows, p, i)) by {
        assert forall|j: int| 0 <= j < i implies !p(#[trigger] rows[j]) by {
            assert(!p(l.proposals.rebalances[j]));
        }
    }
    lemma_first_row(rows, p, i);
}

/// Only a confirmed rebalance changes the books of a reserve: proposing,
/// approving, closing, sending and failing leave every reserve as it was.
pub proof fn law_only_confirmation_moves_value(
    l: LedgerView,
    id: i64,
    row: RebalanceView,
    from: RebalanceState,
    at: i64,
    reason: Seq<char>,
    actor: Seq<char>,
    direction: ReserveDirection,
    kind: RebalanceKind,
    amount: u64,
    required: u32,
)
    ensures
        l.rebalance_step(id, row, from, at, reason, actor).reserves == l.reserves,
        l.rebalance_approved(id, actor, at).reserves == l.reserves,
        l.rebalance_closed(id, from, reason, actor, at).reserves == l.reserves,
        l.rebalance_proposed(direction, kind, amount, reason, actor, required, at).reserves
            == l.reserves,
{
}

/// A rebalance that is over accepts no further step.
pub proof fn law_a_closed_rebalance_stays_closed(
    l: LedgerView,
    id: i64,
    text: Seq<char>,
    observed: u64,
    approved_too: bool,
)
    requires
        l.rebalance(id) matches Some(b) && !b.state.spec_open(),
    ensures
        l.approve_rebalance_result(id, text) is Err,
        l.close_rebalance_result(id, text, approved_too) is Err,
        l.execute_rebalance_result(id, text) is Err,
        l.confirm_rebalance_result(id, observed) is Err,
        l.fail_rebalance_result(id, text) is Err,
{
}

/// A confirmed rebalance changes the balance by what was seen to move, and is
/// confirmed once.
pub proof fn law_a_rebalance_is_booked_once(
    l: LedgerView,
    id: i64,
    observed: u64,
    actor: Seq<char>,
    now: i64,
    again: u64,
)
    requires
        l.confirm_rebalance_result(id, observed) is Ok,
    ensures
        ({
            let b = l.rebalance(id).unwrap();
            let m = l.rebalance_confirmed(id, observed, actor, now);
            &&& m.confirm_rebalance_result(id, again) is Err
            &&& l.reserves.row(b.direction) matches Some(r) ==> m.reserves.row(
                b.direction,
            ).unwrap().total_reserve_balance == r.total_reserve_balance + rebalance_delta(
                b.kind,
                observed,
            )
        }),
{
    let b = l.rebalance(id).unwrap();
    let m = l.rebalance_confirmed(id, observed, actor, now);
    lemma_first_row_is_first(l.proposals.rebalances, rebalance_by_id(id));
    let row = RebalanceView {
        state: RebalanceState::Confirmed,
        observed_amount_atomic: Some(observed as i64),
        confirmed_at: Some(now),
        ..b
    };
    lemma_rebalance_step(l, id, row);
    let s = l.rebalance_step(
        id,
        row,
        RebalanceState::Executed,
        now,
        "observed_amount_atomic="@ + decimal(observed as int),
        actor,
    );
    assert(m.proposals == s.proposals);
    assert(m.rebalance(id) == s.rebalance(id));
}

} // verus!
