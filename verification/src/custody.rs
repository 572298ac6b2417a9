//! Custody transitions: changing the keys that hold a reserve, on several
//! approvals and after the new keys were verified.
use vstd::prelude::*;
use crate::approvals::{approval_reason, approve, enough, with_approver};
use crate::error::{InvalidProposal, LedgerError};
use crate::json::{read_texts, render_texts, stored_texts, text_list};
use crate::ledger::{Ledger, LedgerView, ProposalsView};
use crate::rows::{CustodyLogRow, CustodyLogView, CustodyRow, CustodyView, dup_text};
use crate::table::{
    any_row, any_where, blank, collect_where, concat, find_where, first_row, is_blank, is_first,
    lemma_first_row, lemma_first_row_is_first, select_rows, sort_rows, sorted_by, text_is,
    text_of, values,
};
use crate::types::{CustodyTransitionKind, CustodyTransitionState, ReserveDirection};

verus! {

/// What came of an approval of a custody transition.
#[derive(Clone, Copy, Debug, PartialEq, Eq, Structural)]
pub enum CustodyApprovalOutcome {
    Recorded { approvals: u32, required: u32 },
    ThresholdReached,
}

/// A custody transition, as it is told.
#[derive(Debug, PartialEq, Eq)]
pub struct CustodyTransition {
    pub id: i64,
    pub kind: CustodyTransitionKind,
    pub state: CustodyTransitionState,
    pub old_identities: Vec<String>,
    pub new_identities: Vec<String>,
    pub new_threshold: Option<u32>,
    pub reason: String,
    pub requested_by: String,
    pub requested_at: i64,
    pub required_approvals: u32,
    pub approved_by: Vec<String>,
    pub approved_at: Option<i64>,
    pub identity_verified_by: Option<String>,
    pub identity_verified_at: Option<i64>,
    pub tx_reference: Option<String>,
    pub executed_at: Option<i64>,
    pub confirmed_at: Option<i64>,
    pub failure_reason: Option<String>,
    pub rolled_back_at: Option<i64>,
    pub rollback_reason: Option<String>,
}

/// The value of a [`CustodyTransition`].
#[verifier::ext_equal]
pub struct CustodyTransitionView {
    pub id: i64,
    pub kind: CustodyTransitionKind,
    pub state: CustodyTransitionState,
    pub old_identities: Seq<Seq<char>>,
    pub new_identities: Seq<Seq<char>>,
    pub new_threshold: Option<u32>,
    pub reason: Seq<char>,
    pub requested_by: Seq<char>,
    pub requested_at: i64,
    pub required_approvals: u32,
    pub approved_by: Seq<Seq<char>>,
    pub approved_at: Option<i64>,
    pub identity_verified_by: Option<Seq<char>>,
    pub identity_verified_at: Option<i64>,
    pub tx_reference: Option<Seq<char>>,
    pub executed_at: Option<i64>,
    pub confirmed_at: Option<i64>,
    pub failure_reason: Option<Seq<char>>,
    pub rolled_back_at: Option<i64>,
    pub rollback_reason: Option<Seq<char>>,
}

impl View for CustodyTransition {
    type V = CustodyTransitionView;

    open spec fn view(&self) -> CustodyTransitionView {
        CustodyTransitionView {
            id: self.id,
            kind: self.kind,
            state: self.state,
            old_identities: values(self.old_identities@),
            new_identities: values(self.new_identities@),
            new_threshold: self.new_threshold,
            reason: self.reason@,
            requested_by: self.requested_by@,
            requested_at: self.requested_at,
            required_approvals: self.required_approvals,
            approved_by: values(self.approved_by@),
            approved_at: self.approved_at,
            identity_verified_by: text_of(self.identity_verified_by),
            identity_verified_at: self.identity_verified_at,
            tx_reference: text_of(self.tx_reference),
            executed_at: self.executed_at,
            confirmed_at: self.confirmed_at,
            failure_reason: text_of(self.failure_reason),
            rolled_back_at: self.rolled_back_at,
            rollback_reason: text_of(self.rollback_reason),
        }
    }
}

/// What is told of a custody transition.
pub open spec fn as_custody() -> spec_fn(CustodyView) -> CustodyTransitionView {
    |c: CustodyView|
        CustodyTransitionView {
            id: c.id,
            kind: c.kind,
            state: c.state,
            old_identities: stored_texts(c.old_identities),
            new_identities: stored_texts(c.new_identities),
            new_threshold: c.new_threshold,
            reason: c.reason,
            requested_by: c.requested_by,
            requested_at: c.requested_at,
            required_approvals: c.required_approvals,
            approved_by: stored_texts(c.approved_by),
            approved_at: c.approved_at,
            identity_verified_by: c.identity_verified_by,
            identity_verified_at: c.identity_verified_at,
            tx_reference: c.tx_reference,
            executed_at: c.executed_at,
            confirmed_at: c.confirmed_at,
            failure_reason: c.failure_reason,
            rolled_back_at: c.rolled_back_at,
            rollback_reason: c.rollback_reason,
        }
}

/// Custody transitions by number.
pub open spec fn custody_by_id(id: i64) -> spec_fn(CustodyView) -> bool {
    |c: CustodyView| c.id == id
}

/// Another custody transition with this transaction.
pub open spec fn moved_elsewhere(id: i64, tx_reference: Seq<char>) -> spec_fn(CustodyView) -> bool {
    |c: CustodyView| c.id != id && c.tx_reference == Some(tx_reference)
}

/// A custody transition that is listed.
pub open spec fn listed_custody(kind: Option<CustodyTransitionKind>, open_only: bool) -> spec_fn(
    CustodyView,
) -> bool {
    |c: CustodyView|
        (kind is None || kind == Some(c.kind)) && (!open_only || c.state.spec_open())
}

/// The custody transition stands in a state from which this step does not lead
/// on.
pub open spec fn custody_stuck<T>(
    id: i64,
    expected: CustodyTransitionState,
    actual: CustodyTransitionState,
) -> Result<T, LedgerError> {
    Err(LedgerError::CustodyTransitionWrongState { id, expected, actual })
}

/// A proposal that is refused for what it says.
pub open spec fn custody_invalid<T>(why: InvalidProposal) -> Result<T, LedgerError> {
    Err(LedgerError::InvalidCustodyTransition(why))
}

impl LedgerView {
    /// Custody transition `id`.
    pub open spec fn custody(self, id: i64) -> Option<CustodyView> {
        match first_row(self.proposals.custody, custody_by_id(id)) {
            Some(i) => Some(self.proposals.custody[i]),
            None => None,
        }
    }

    /// The ledger after a step of custody transition `id`.
    pub open spec fn custody_step(
        self,
        id: i64,
        row: CustodyView,
        from: CustodyTransitionState,
        at: i64,
        reason: Seq<char>,
        actor: Seq<char>,
    ) -> LedgerView {
        let custody = match first_row(self.proposals.custody, custody_by_id(id)) {
            Some(i) => self.proposals.custody.update(i, row),
            None => self.proposals.custody,
        };
        self.with_proposals(
            ProposalsView {
                custody,
                custody_log: self.proposals.custody_log.push(
                    CustodyLogView {
                        transition_id: id,
                        from_state: Some(from),
                        to_state: row.state,
                        at,
                        reason: Some(reason),
                        actor,
                    },
                ),
                ..self.proposals
            },
        )
    }

    /// Whether a custody transition can be proposed, and under which number.
    pub open spec fn propose_custody_result(
        self,
        kind: CustodyTransitionKind,
        new_identities: Seq<Seq<char>>,
        new_threshold: Option<u32>,
        reason: Seq<char>,
        requested_by: Seq<char>,
        required: u32,
    ) -> Result<i64, LedgerError> {
        if new_identities.len() == 0 {
            custody_invalid(InvalidProposal::NoNewIdentities)
        } else if kind == CustodyTransitionKind::AttestationKeyRotation && new_threshold is Some {
            custody_invalid(InvalidProposal::ThresholdDoesNotApply)
        } else if required == 0 {
            custody_invalid(InvalidProposal::ZeroApprovals)
        } else if blank(reason) {
            custody_invalid(InvalidProposal::EmptyReason)
        } else if blank(requested_by) {
            custody_invalid(InvalidProposal::EmptyRequester)
        } else if self.proposals.next_custody_id == i64::MAX {
            Err(LedgerError::NumbersExhausted)
        } else {
            Ok(self.proposals.next_custody_id)
        }
    }

    /// The ledger after a custody transition was proposed.
    pub open spec fn custody_proposed(
        self,
        kind: CustodyTransitionKind,
        old_identities: Seq<Seq<char>>,
        new_identities: Seq<Seq<char>>,
        new_threshold: Option<u32>,
        reason: Seq<char>,
        requested_by: Seq<char>,
        required: u32,
        now: i64,
    ) -> LedgerView {
        let id = self.proposals.next_custody_id;
        self.with_proposals(
            ProposalsView {
                custody: self.proposals.custody.push(
                    CustodyView {
                        id,
                        kind,
                        state: CustodyTransitionState::Proposed,
                        old_identities: text_list(old_identities),
                        new_identities: text_list(new_identities),
                        new_threshold,
                        reason,
                        requested_by,
                        requested_at: now,
                        required_approvals: required,
                        approved_by: "[]"@,
                        approved_at: None,
                        identity_verified_by: None,
                        identity_verified_at: None,
                        tx_reference: None,
                        executed_at: None,
                        confirmed_at: None,
                        failure_reason: None,
                        rolled_back_at: None,
                        rollback_reason: None,
                    },
                ),
                custody_log: self.proposals.custody_log.push(
                    CustodyLogView {
                        transition_id: id,
                        from_state: None,
                        to_state: CustodyTransitionState::Proposed,
                        at: now,
                        reason: Some(reason),
                        actor: requested_by,
                    },
                ),
                next_custody_id: (id + 1) as i64,
                ..self.proposals
            },
        )
    }

    /// The custody transition can be taken on from this state.
    pub open spec fn custody_in(self, id: i64, state: CustodyTransitionState) -> Result<
        (),
        LedgerError,
    > {
        match self.custody(id) {
            None => Err(LedgerError::CustodyTransitionNotFound(id)),
            Some(c) => if c.state == state {
                Ok(())
            } else {
                custody_stuck(id, state, c.state)
            },
        }
    }

    /// The custody transition can be taken on from this state, with a text
    /// that says something.
    pub open spec fn custody_step_result(
        self,
        id: i64,
        state: CustodyTransitionState,
        text: Seq<char>,
        empty: InvalidProposal,
    ) -> Result<(), LedgerError> {
        if blank(text) {
            custody_invalid(empty)
        } else {
            self.custody_in(id, state)
        }
    }

    /// What comes of an approval of a custody transition.
    pub open spec fn approve_custody_result(self, id: i64, approver: Seq<char>) -> Result<
        CustodyApprovalOutcome,
        LedgerError,
    > {
        match self.custody_in(id, CustodyTransitionState::IdentityVerified) {
            Err(e) => Err(e),
            Ok(_) => {
                let c = self.custody(id).unwrap();
                let all = with_approver(stored_texts(c.approved_by), approver);
                if enough(all, c.required_approvals) {
                    Ok(CustodyApprovalOutcome::ThresholdReached)
                } else {
                    Ok(
                        CustodyApprovalOutcome::Recorded {
                            approvals: all.len() as u32,
                            required: c.required_approvals,
                        },
                    )
                }
            },
        }
    }

    /// The ledger after an approval of a custody transition.
    pub open spec fn custody_approved(self, id: i64, approver: Seq<char>, now: i64) -> LedgerView {
        let c = self.custody(id).unwrap();
        let all = with_approver(stored_texts(c.approved_by), approver);
        let reached = enough(all, c.required_approvals);
        self.custody_step(
            id,
            if reached {
                CustodyView {
                    approved_by: text_list(all),
                    state: CustodyTransitionState::Approved,
                    approved_at: Some(now),
                    ..c
                }
            } else {
                CustodyView { approved_by: text_list(all), ..c }
            },
            CustodyTransitionState::IdentityVerified,
            now,
            approval_reason(all.len() as int, c.required_approvals, reached),
            approver,
        )
    }

    /// Whether a custody transition can be closed without being carried out.
    pub open spec fn close_custody_result(self, id: i64, note: Seq<char>, approved_too: bool) -> Result<
        (),
        LedgerError,
    > {
        if blank(note) {
            custody_invalid(InvalidProposal::EmptyNote)
        } else {
            match self.custody(id) {
                None => Err(LedgerError::CustodyTransitionNotFound(id)),
                Some(c) => if c.state == CustodyTransitionState::Proposed || c.state
                    == CustodyTransitionState::IdentityVerified || (approved_too && c.state
                    == CustodyTransitionState::Approved) {
                    Ok(())
                } else {
                    custody_stuck(id, CustodyTransitionState::Proposed, c.state)
                },
            }
        }
    }

    /// The ledger after a custody transition was closed without being carried
    /// out.
    pub open spec fn custody_closed(
        self,
        id: i64,
        to: CustodyTransitionState,
        note: Seq<char>,
        actor: Seq<char>,
        now: i64,
    ) -> LedgerView {
        let c = self.custody(id).unwrap();
        self.custody_step(id, CustodyView { state: to, ..c }, c.state, now, note, actor)
    }

    /// The reserve is paused.
    pub open spec fn paused_for(self, id: i64, d: ReserveDirection) -> Result<(), LedgerError> {
        match self.reserves.row(d) {
            None => Err(LedgerError::NoSuchRow),
            Some(r) => if r.paused {
                Ok(())
            } else {
                Err(LedgerError::CustodyTransitionRequiresPause { id, direction: d })
            },
        }
    }

    /// Every reserve that a custody transition touches is paused.
    pub open spec fn custody_pause_result(self, id: i64, kind: CustodyTransitionKind) -> Result<
        (),
        LedgerError,
    > {
        match self.paused_for(id, ReserveDirection::GoldcoinReserve) {
            Err(e) => Err(e),
            Ok(_) => match kind {
                CustodyTransitionKind::GoldcoinVaultSweep => Ok(()),
                CustodyTransitionKind::AttestationKeyRotation => self.paused_for(
                    id,
                    ReserveDirection::SolanaReserve,
                ),
            },
        }
    }

    /// Whether the transaction of a custody transition can be recorded.
    pub open spec fn execute_custody_result(self, id: i64, tx_reference: Seq<char>) -> Result<
        (),
        LedgerError,
    > {
        match self.custody_step_result(
            id,
            CustodyTransitionState::Approved,
            tx_reference,
            InvalidProposal::EmptyTxReference,
        ) {
            Err(e) => Err(e),
            Ok(_) => match self.custody_pause_result(id, self.custody(id).unwrap().kind) {
                Err(e) => Err(e),
                Ok(_) => if any_row(self.proposals.custody, moved_elsewhere(id, tx_reference)) {
                    Err(LedgerError::NotUnique)
                } else {
                    Ok(())
                },
            },
        }
    }
}

impl Ledger {
    /// Where custody transition `id` stands in its table.
    fn find_custody(&self, id: i64) -> (r: Option<usize>)
        ensures
            match r {
                Some(i) => {
                    &&& i < self.proposals.custody@.len()
                    &&& first_row(self@.proposals.custody, custody_by_id(id)) == Some(i as int)
                    &&& self@.custody(id) == Some(self.proposals.custody@[i as int]@)
                    &&& self.proposals.custody@[i as int].id == id
                },
                None => self@.custody(id) is None,
            },
    {
        find_where(
            &self.proposals.custody,
            |c: &CustodyRow| -> (r: bool) ensures r == custody_by_id(id)(c@) { c.id == id },
            Ghost(custody_by_id(id)),
        )
    }

    fn push_custody_log(
        &mut self,
        id: i64,
        from: Option<CustodyTransitionState>,
        to: CustodyTransitionState,
        at: i64,
        reason: &str,
        actor: &str,
    )
        ensures
            final(self)@ == old(self)@.with_proposals(
                ProposalsView {
                    custody_log: old(self)@.proposals.custody_log.push(
                        CustodyLogView {
                            transition_id: id,
                            from_state: from,
                            to_state: to,
                            at,
                            reason: Some(reason@),
                            actor: actor@,
                        },
                    ),
                    ..old(self)@.proposals
                },
            ),
    {
        let row = CustodyLogRow {
            transition_id: id,
            from_state: from,
            to_state: to,
            at,
            reason: Some(reason.to_owned()),
            actor: actor.to_owned(),
        };
        let ghost v = row@;
        let ghost before = self@.proposals.custody_log;
        self.proposals.custody_log.push(row);
        proof {
            assert(self@.proposals.custody_log =~= before.push(v));
        }
    }

    /// Writes a step of the custody transition at `i`.
    fn write_custody(
        &mut self,
        id: i64,
        i: usize,
        row: CustodyRow,
        from: CustodyTransitionState,
        at: i64,
        reason: &str,
        actor: &str,
    )
        requires
            i < old(self).proposals.custody@.len(),
            first_row(old(self)@.proposals.custody, custody_by_id(id)) == Some(i as int),
        ensures
            final(self)@ == old(self)@.custody_step(id, row@, from, at, reason@, actor@),
    {
        let to = row.state;
        let ghost v = row@;
        let ghost before = self@.proposals.custody;
        self.proposals.custody[i] = row;
        proof {
            assert(self@.proposals.custody =~= before.update(i as int, v));
        }
        self.push_custody_log(id, Some(from), to, at, reason, actor);
    }

    fn custody_at(&self, id: i64, state: CustodyTransitionState) -> (r: Result<usize, LedgerError>)
        ensures
            match (r, self@.custody_in(id, state)) {
                (Ok(i), Ok(_)) => {
                    &&& i < self.proposals.custody@.len()
                    &&& first_row(self@.proposals.custody, custody_by_id(id)) == Some(i as int)
                    &&& self@.custody(id) == Some(self.proposals.custody@[i as int]@)
                    &&& self.proposals.custody@[i as int].id == id
                },
                (Err(e), Err(want)) => e == want,
                _ => false,
            },
    {
        match self.find_custody(id) {
            None => Err(LedgerError::CustodyTransitionNotFound(id)),
            Some(i) => {
                let actual = self.proposals.custody[i].state;
                if actual == state {
                    Ok(i)
                } else {
                    Err(LedgerError::CustodyTransitionWrongState { id, expected: state, actual })
                }
            },
        }
    }

    /// Proposes a custody transition and returns its number.
    pub fn propose_custody_transition(
        &mut self,
        kind: CustodyTransitionKind,
        old_identities: &Vec<String>,
        new_identities: &Vec<String>,
        new_threshold: Option<u32>,
        reason: &str,
        requested_by: &str,
        required_approvals: u32,
        now: i64,
    ) -> (r: Result<i64, LedgerError>)
        ensures
            r == old(self)@.propose_custody_result(
                kind,
                values(new_identities@),
                new_threshold,
                reason@,
                requested_by@,
                required_approvals,
            ),
            final(self)@ == (if r is Ok {
                old(self)@.custody_proposed(
                    kind,
                    values(old_identities@),
                    values(new_identities@),
                    new_threshold,
                    reason@,
                    requested_by@,
                    required_approvals,
                    now,
                )
            } else {
                old(self)@
            }),
            r is Ok ==> stored_texts(text_list(values(old_identities@))) == values(
                old_identities@,
            ) && stored_texts(text_list(values(new_identities@))) == values(new_identities@),
    {
        if new_identities.len() == 0 {
            return Err(LedgerError::InvalidCustodyTransition(InvalidProposal::NoNewIdentities));
        }
        if matches!(kind, CustodyTransitionKind::AttestationKeyRotation)
            && new_threshold.is_some() {
            return Err(
                LedgerError::InvalidCustodyTransition(InvalidProposal::ThresholdDoesNotApply),
            );
        }
        if required_approvals == 0 {
            return Err(LedgerError::InvalidCustodyTransition(InvalidProposal::ZeroApprovals));
        }
        if is_blank(reason) {
            return Err(LedgerError::InvalidCustodyTransition(InvalidProposal::EmptyReason));
        }
        if is_blank(requested_by) {
            return Err(LedgerError::InvalidCustodyTransition(InvalidProposal::EmptyRequester));
        }
        let id = self.proposals.next_custody_id;
        if id == i64::MAX {
            return Err(LedgerError::NumbersExhausted);
        }
        let row = CustodyRow {
            id,
            kind,
            state: CustodyTransitionState::Proposed,
            old_identities: render_texts(old_identities),
            new_identities: render_texts(new_identities),
            new_threshold,
            reason: reason.to_owned(),
            requested_by: requested_by.to_owned(),
            requested_at: now,
            required_approvals,
            approved_by: "[]".to_owned(),
            approved_at: None,
            identity_verified_by: None,
            identity_verified_at: None,
            tx_reference: None,
            executed_at: None,
            confirmed_at: None,
            failure_reason: None,
            rolled_back_at: None,
            rollback_reason: None,
        };
        let ghost v = row@;
        let ghost before = self@.proposals.custody;
        self.proposals.custody.push(row);
        self.proposals.next_custody_id = id + 1;
        proof {
            assert(self@.proposals.custody =~= before.push(v));
        }
        self.push_custody_log(
            id,
            None,
            CustodyTransitionState::Proposed,
            now,
            reason,
            requested_by,
        );
        Ok(id)
    }

    /// Records that the new keys of a proposed custody transition were
    /// verified.
    pub fn verify_new_identity(&mut self, id: i64, verifier: &str, now: i64) -> (r: Result<
        (),
        LedgerError,
    >)
        ensures
            r == old(self)@.custody_step_result(
                id,
                CustodyTransitionState::Proposed,
                verifier@,
                InvalidProposal::EmptyVerifier,
            ),
            final(self)@ == (if r is Ok {
                old(self)@.custody_step(
                    id,
                    CustodyView {
                        state: CustodyTransitionState::IdentityVerified,
                        identity_verified_by: Some(verifier@),
                        identity_verified_at: Some(now),
                        ..old(self)@.custody(id).unwrap()
                    },
                    CustodyTransitionState::Proposed,
                    now,
                    "new identity independently verified"@,
                    verifier@,
                )
            } else {
                old(self)@
            }),
    {
        if is_blank(verifier) {
            return Err(LedgerError::InvalidCustodyTransition(InvalidProposal::EmptyVerifier));
        }
        let i = match self.custody_at(id, CustodyTransitionState::Proposed) {
            Ok(i) => i,
            Err(e) => {
                return Err(e);
            },
        };
        let mut row = self.proposals.custody[i].clone();
        row.state = CustodyTransitionState::IdentityVerified;
        row.identity_verified_by = Some(verifier.to_owned());
        row.identity_verified_at = Some(now);
        self.write_custody(
            id,
            i,
            row,
            CustodyTransitionState::Proposed,
            now,
            "new identity independently verified",
            verifier,
        );
        Ok(())
    }

    /// Records an approval of a custody transition whose new keys were
    /// verified. Whoever approves twice counts once, and a proposal starts
    /// with no approval.
    pub fn approve_custody_transition(&mut self, id: i64, approver: &str, now: i64) -> (r: Result<
        CustodyApprovalOutcome,
        LedgerError,
    >)
        ensures
            r == old(self)@.approve_custody_result(id, approver@),
            final(self)@ == (if r is Ok {
                old(self)@.custody_approved(id, approver@, now)
            } else {
                old(self)@
            }),
            r is Ok ==> (final(self)@.custody(id) matches Some(c) && stored_texts(c.approved_by)
                == with_approver(
                stored_texts(old(self)@.custody(id).unwrap().approved_by),
                approver@,
            )),
            r is Ok && old(self)@.custody(id).unwrap().approved_by == "[]"@ ==> stored_texts(
                old(self)@.custody(id).unwrap().approved_by,
            ) == Seq::<Seq<char>>::empty(),
    {
        let i = match self.custody_at(id, CustodyTransitionState::IdentityVerified) {
            Ok(i) => i,
            Err(e) => {
                return Err(e);
            },
        };
        let mut row = self.proposals.custody[i].clone();
        let required = row.required_approvals;
        let approvers = read_texts(row.approved_by.as_str());
        let a = approve(approvers, approver, required);
        row.approved_by = render_texts(&a.approvers);
        if a.reached {
            row.state = CustodyTransitionState::Approved;
            row.approved_at = Some(now);
        }
        self.write_custody(
            id,
            i,
            row,
            CustodyTransitionState::IdentityVerified,
            now,
            a.reason.as_str(),
            approver,
        );
        proof {
            lemma_custody_step(old(self)@, id, self@.proposals.custody[i as int]);
        }
        let n: usize = a.approvers.len();
        Ok(
            if a.reached {
                CustodyApprovalOutcome::ThresholdReached
            } else {
                CustodyApprovalOutcome::Recorded { approvals: n as u32, required }
            },
        )
    }

    fn close_custody_transition(
        &mut self,
        id: i64,
        approved_too: bool,
        to: CustodyTransitionState,
        note: &str,
        actor: &str,
        now: i64,
    ) -> (r: Result<(), LedgerError>)
        ensures
            r == old(self)@.close_custody_result(id, note@, approved_too),
            final(self)@ == (if r is Ok {
                old(self)@.custody_closed(id, to, note@, actor@, now)
            } else {
                old(self)@
            }),
    {
        if is_blank(note) {
            return Err(LedgerError::InvalidCustodyTransition(InvalidProposal::EmptyNote));
        }
        let i = match self.find_custody(id) {
            Some(i) => i,
            None => {
                return Err(LedgerError::CustodyTransitionNotFound(id));
            },
        };
        let from = self.proposals.custody[i].state;
        if !(matches!(
            from,
            CustodyTransitionState::Proposed | CustodyTransitionState::IdentityVerified
        ) || (approved_too && matches!(from, CustodyTransitionState::Approved))) {
            return Err(
                LedgerError::CustodyTransitionWrongState {
                    id,
                    expected: CustodyTransitionState::Proposed,
                    actual: from,
                },
            );
        }
        let mut row = self.proposals.custody[i].clone();
        row.state = to;
        self.write_custody(id, i, row, from, now, note, actor);
        Ok(())
    }

    /// Turns a custody transition down that was not approved.
    pub fn reject_custody_transition(&mut self, id: i64, note: &str, actor: &str, now: i64) -> (r:
        Result<(), LedgerError>)
        ensures
            r == old(self)@.close_custody_result(id, note@, false),
            final(self)@ == (if r is Ok {
                old(self)@.custody_closed(
                    id,
                    CustodyTransitionState::Rejected,
                    note@,
                    actor@,
                    now,
                )
            } else {
                old(self)@
            }),
    {
        self.close_custody_transition(
            id,
            false,
            CustodyTransitionState::Rejected,
            note,
            actor,
            now,
        )
    }

    /// Calls a custody transition off that was not carried out.
    pub fn cancel_custody_transition(&mut self, id: i64, note: &str, actor: &str, now: i64) -> (r:
        Result<(), LedgerError>)
        ensures
            r == old(self)@.close_custody_result(id, note@, true),
            final(self)@ == (if r is Ok {
                old(self)@.custody_closed(
                    id,
                    CustodyTransitionState::Cancelled,
                    note@,
                    actor@,
                    now,
                )
            } else {
                old(self)@
            }),
    {
        self.close_custody_transition(
            id,
            true,
            CustodyTransitionState::Cancelled,
            note,
            actor,
            now,
        )
    }

    fn paused_for(&self, id: i64, d: ReserveDirection) -> (r: Result<(), LedgerError>)
        ensures
            r == self@.paused_for(id, d),
    {
        match self.reserves.get(d) {
            None => Err(LedgerError::NoSuchRow),
            Some(row) => if row.paused {
                Ok(())
            } else {
                Err(LedgerError::CustodyTransitionRequiresPause { id, direction: d })
            },
        }
    }

    fn custody_pauses(&self, id: i64, kind: CustodyTransitionKind) -> (r: Result<(), LedgerError>)
        ensures
            r == self@.custody_pause_result(id, kind),
    {
        match self.paused_for(id, ReserveDirection::GoldcoinReserve) {
            Err(e) => Err(e),
            Ok(_) => match kind {
                CustodyTransitionKind::GoldcoinVaultSweep => Ok(()),
                CustodyTransitionKind::AttestationKeyRotation => self.paused_for(
                    id,
                    ReserveDirection::SolanaReserve,
                ),
            },
        }
    }

    /// Records the transaction that carried an approved custody transition
    /// out, while every reserve that it touches is paused. A transaction
    /// stands for one custody transition.
    pub fn record_custody_transition_executed(
        &mut self,
        id: i64,
        tx_reference: &str,
        actor: &str,
        now: i64,
    ) -> (r: Result<(), LedgerError>)
        ensures
            r == old(self)@.execute_custody_result(id, tx_reference@),
            final(self)@ == (if r is Ok {
                old(self)@.custody_step(
                    id,
                    CustodyView {
                        state: CustodyTransitionState::Executed,
                        tx_reference: Some(tx_reference@),
                        executed_at: Some(now),
                        ..old(self)@.custody(id).unwrap()
                    },
                    CustodyTransitionState::Approved,
                    now,
                    "tx_reference="@ + tx_reference@,
                    actor@,
                )
            } else {
                old(self)@
            }),
    {
        if is_blank(tx_reference) {
            return Err(LedgerError::InvalidCustodyTransition(InvalidProposal::EmptyTxReference));
        }
        let i = match self.custody_at(id, CustodyTransitionState::Approved) {
            Ok(i) => i,
            Err(e) => {
                return Err(e);
            },
        };
        match self.custody_pauses(id, self.proposals.custody[i].kind) {
            Ok(_) => {},
            Err(e) => {
                return Err(e);
            },
        }
        if any_where(
            &self.proposals.custody,
            |c: &CustodyRow| -> (r: bool) ensures r == moved_elsewhere(id, tx_reference@)(c@) {
                c.id != id && text_is(&c.tx_reference, tx_reference)
            },
            Ghost(moved_elsewhere(id, tx_reference@)),
        ) {
            return Err(LedgerError::NotUnique);
        }
        let mut row = self.proposals.custody[i].clone();
        row.state = CustodyTransitionState::Executed;
        row.tx_reference = Some(tx_reference.to_owned());
        row.executed_at = Some(now);
        let why = concat("tx_reference=", tx_reference);
        self.write_custody(
            id,
            i,
            row,
            CustodyTransitionState::Approved,
            now,
            why.as_str(),
            actor,
        );
        Ok(())
    }

    /// Records that the new keys hold the reserve.
    pub fn confirm_custody_transition(&mut self, id: i64, actor: &str, now: i64) -> (r: Result<
        (),
        LedgerError,
    >)
        ensures
            r == old(self)@.custody_in(id, CustodyTransitionState::Executed),
            final(self)@ == (if r is Ok {
                old(self)@.custody_step(
                    id,
                    CustodyView {
                        state: CustodyTransitionState::Confirmed,
                        confirmed_at: Some(now),
                        ..old(self)@.custody(id).unwrap()
                    },
                    CustodyTransitionState::Executed,
                    now,
                    "new custody identity confirmed active"@,
                    actor@,
                )
            } else {
                old(self)@
            }),
    {
        let i = match self.custody_at(id, CustodyTransitionState::Executed) {
            Ok(i) => i,
            Err(e) => {
                return Err(e);
            },
        };
        let mut row = self.proposals.custody[i].clone();
        row.state = CustodyTransitionState::Confirmed;
        row.confirmed_at = Some(now);
        self.write_custody(
            id,
            i,
            row,
            CustodyTransitionState::Executed,
            now,
            "new custody identity confirmed active",
            actor,
        );
        Ok(())
    }

    /// Records that a custody transition failed after its transaction was
    /// sent.
    pub fn fail_custody_transition(&mut self, id: i64, reason: &str, actor: &str, now: i64) -> (r:
        Result<(), LedgerError>)
        ensures
            r == old(self)@.custody_step_result(
                id,
                CustodyTransitionState::Executed,
                reason@,
                InvalidProposal::EmptyFailureReason,
            ),
            final(self)@ == (if r is Ok {
                old(self)@.custody_step(
                    id,
                    CustodyView {
                        state: CustodyTransitionState::Failed,
                        failure_reason: Some(reason@),
                        ..old(self)@.custody(id).unwrap()
                    },
                    CustodyTransitionState::Executed,
                    now,
                    reason@,
                    actor@,
                )
            } else {
                old(self)@
            }),
    {
        if is_blank(reason) {
            return Err(LedgerError::InvalidCustodyTransition(InvalidProposal::EmptyFailureReason));
        }
        let i = match self.custody_at(id, CustodyTransitionState::Executed) {
            Ok(i) => i,
            Err(e) => {
                return Err(e);
            },
        };
        let mut row = self.proposals.custody[i].clone();
        row.state = CustodyTransitionState::Failed;
        row.failure_reason = Some(reason.to_owned());
        self.write_custody(id, i, row, CustodyTransitionState::Executed, now, reason, actor);
        Ok(())
    }

    /// Records that a failed custody transition was undone.
    pub fn rollback_custody_transition(&mut self, id: i64, reason: &str, actor: &str, now: i64) -> (r:
        Result<(), LedgerError>)
        ensures
            r == old(self)@.custody_step_result(
                id,
                CustodyTransitionState::Failed,
                reason@,
                InvalidProposal::EmptyRollbackReason,
            ),
            final(self)@ == (if r is Ok {
                old(self)@.custody_step(
                    id,
                    CustodyView {
                        state: CustodyTransitionState::RolledBack,
                        rolled_back_at: Some(now),
                        rollback_reason: Some(reason@),
                        ..old(self)@.custody(id).unwrap()
                    },
                    CustodyTransitionState::Failed,
                    now,
                    reason@,
                    actor@,
                )
            } else {
                old(self)@
            }),
    {
        if is_blank(reason) {
            return Err(LedgerError::InvalidCustodyTransition(InvalidProposal::EmptyRollbackReason));
        }
        let i = match self.custody_at(id, CustodyTransitionState::Failed) {
            Ok(i) => i,
            Err(e) => {
                return Err(e);
            },
        };
        let mut row = self.proposals.custody[i].clone();
        row.state = CustodyTransitionState::RolledBack;
        row.rolled_back_at = Some(now);
        row.rollback_reason = Some(reason.to_owned());
        self.write_custody(id, i, row, CustodyTransitionState::Failed, now, reason, actor);
        Ok(())
    }
}

fn tell_custody(c: &CustodyRow) -> (r: CustodyTransition)
    ensures
        r@ == as_custody()(c@),
{
    CustodyTransition {
        id: c.id,
        kind: c.kind,
        state: c.state,
        old_identities: read_texts(c.old_identities.as_str()),
        new_identities: read_texts(c.new_identities.as_str()),
        new_threshold: c.new_threshold,
        reason: c.reason.clone(),
        requested_by: c.requested_by.clone(),
        requested_at: c.requested_at,
        required_approvals: c.required_approvals,
        approved_by: read_texts(c.approved_by.as_str()),
        approved_at: c.approved_at,
        identity_verified_by: dup_text(&c.identity_verified_by),
        identity_verified_at: c.identity_verified_at,
        tx_reference: dup_text(&c.tx_reference),
        executed_at: c.executed_at,
        confirmed_at: c.confirmed_at,
        failure_reason: dup_text(&c.failure_reason),
        rolled_back_at: c.rolled_back_at,
        rollback_reason: dup_text(&c.rollback_reason),
    }
}

impl Ledger {
    /// A custody transition.
    pub fn get_custody_transition(&self, id: i64) -> (r: Option<CustodyTransition>)
        ensures
            match (r, self@.custody(id)) {
                (Some(x), Some(c)) => x@ == as_custody()(c),
                (None, None) => true,
                _ => false,
            },
    {
        match self.find_custody(id) {
            Some(i) => Some(tell_custody(&self.proposals.custody[i])),
            None => None,
        }
    }

    /// The custody transitions, the newest first: those of one kind or of all,
    /// and all or only those with something still to happen.
    pub fn list_custody_transitions(&self, kind: Option<CustodyTransitionKind>, open_only: bool) -> (r:
        Vec<CustodyTransition>)
        ensures
            sorted_by(
                values(r@),
                |a: CustodyTransitionView, b: CustodyTransitionView| a.id >= b.id,
            ),
            values(r@).to_multiset() == select_rows(
                self@.proposals.custody,
                listed_custody(kind, open_only),
            ).map_values(as_custody()).to_multiset(),
    {
        let rows = collect_where(
            &self.proposals.custody,
            |c: &CustodyRow| -> (r: bool) ensures r == listed_custody(kind, open_only)(c@) {
                (kind.is_none() || kind == Some(c.kind)) && (!open_only || c.state.is_open())
            },
            |c: &CustodyRow| -> (x: CustodyTransition) ensures x@ == as_custody()(c@) {
                tell_custody(c)
            },
            Ghost(listed_custody(kind, open_only)),
            Ghost(as_custody()),
        );
        sort_rows(
            rows,
            |a: &CustodyTransition, b: &CustodyTransition| -> (r: bool)
                ensures r == (a@.id >= b@.id) { a.id >= b.id },
            Ghost(|a: CustodyTransitionView, b: CustodyTransitionView| a.id >= b.id),
        )
    }

    /// The steps of a custody transition, in the order in which they were
    /// taken.
    pub fn custody_transition_state_log(&self, id: i64) -> (r: Vec<CustodyLogRow>)
        ensures
            values(r@) == select_rows(
                self@.proposals.custody_log,
                |e: CustodyLogView| e.transition_id == id,
            ),
    {
        let ghost p = |e: CustodyLogView| e.transition_id == id;
        let r = collect_where(
            &self.proposals.custody_log,
            |e: &CustodyLogRow| -> (b: bool) ensures b == p(e@) { e.transition_id == id },
            |e: &CustodyLogRow| -> (d: CustodyLogRow) ensures d@ == e@ { e.clone() },
            Ghost(p),
            Ghost(|e: CustodyLogView| e),
        );
        proof {
            let sel = select_rows(self@.proposals.custody_log, p);
            assert(sel.map_values(|e: CustodyLogView| e) =~= sel);
        }
        r
    }
}

proof fn lemma_custody_step(l: LedgerView, id: i64, row: CustodyView)
    requires
        l.custody(id) is Some,
        row.id == id,
    ensures
        forall|from: CustodyTransitionState, at: i64, reason: Seq<char>, actor: Seq<char>|
            (#[trigger] l.custody_step(id, row, from, at, reason, actor)).custody(id) == Some(row),
{
    let p = custody_by_id(id);
    lemma_first_row_is_first(l.proposals.custody, p);
    let i = first_row(l.proposals.custody, p).unwrap();
    let rows = l.proposals.custody.update(i, row);
    assert(is_first(rows, p, i)) by {
        assert forall|j: int| 0 <= j < i implies !p(#[trigger] rows[j]) by {
            assert(!p(l.proposals.custody[j]));
        }
    }
    lemma_first_row(rows, p, i);
}

/// Keys never change hands while a reserve that they hold is running.
pub proof fn law_keys_move_only_while_paused(l: LedgerView, id: i64, tx_reference: Seq<char>)
    requires
        l.execute_custody_result(id, tx_reference) is Ok,
    ensures
        l.reserves.row(ReserveDirection::GoldcoinReserve) matches Some(r) && r.paused,
        l.custody(id).unwrap().kind == CustodyTransitionKind::AttestationKeyRotation ==> (
        l.reserves.row(ReserveDirection::SolanaReserve) matches Some(r) && r.paused),
{
}

/// No approval counts before the new keys were verified, and nothing is
/// carried out before it was approved.
pub proof fn law_verified_then_approved_then_executed(
    l: LedgerView,
    id: i64,
    approver: Seq<char>,
    tx_reference: Seq<char>,
)
    ensures
        l.approve_custody_result(id, approver) is Ok ==> (l.custody(id) matches Some(c) && c.state
            == CustodyTransitionState::IdentityVerified),
        l.execute_custody_result(id, tx_reference) is Ok ==> (l.custody(id) matches Some(c)
            && c.state == CustodyTransitionState::Approved),
{
}

/// A custody transition touches no reserve's books.
pub proof fn law_custody_moves_no_value(
    l: LedgerView,
    id: i64,
    row: CustodyView,
    from: CustodyTransitionState,
    at: i64,
    reason: Seq<char>,
    actor: Seq<char>,
)
    ensures
        l.custody_step(id, row, from, at, reason, actor).reserves == l.reserves,
        l.custody_approved(id, actor, at).reserves == l.reserves,
        l.custody_closed(id, from, reason, actor, at).reserves == l.reserves,
{
}

} // verus!
