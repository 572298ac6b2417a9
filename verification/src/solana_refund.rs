//! A parked Solana deposit is given back on Solana.
use vstd::prelude::*;
use crate::error::{HoldBlocker, LedgerError, RefundRefusal};
use crate::ledger::{
    Ledger, LedgerView, ReserveRow, lemma_request_id, lemma_with_request, step_because,
};
use crate::reasons::refundable_in;
use crate::resume::{payout_for, rhn_tx_for, sol_refund_for};
use crate::rows::{
    LogEntry, RequestView, SolanaRefund, SolanaRefundView, StateLogRow, dup_text,
};
use crate::table::{
    any_row, any_where, blank, collect_where, concat, first_row, is_first, lemma_first_row,
    lemma_first_row_is_first, narrow, select_rows, sort_rows, sorted_by, sub_checked, sum_rows,
    sum_where, text_of, trim, trimmed, values,
};
use crate::types::{
    Direction, RequestState, ReserveDirection, RobinhoodTxKind, SolanaRefundState,
};
use crate::vault::fits;

verus! {

/// Refund nonces lie from here on; deposits never use them.
pub const SOLANA_REFUND_NONCE_DOMAIN: u64 = 0x8000_0000_0000_0000;

/// Everything in the ledger that decides whether a deposit may be given back.
#[derive(Debug)]
pub struct SolanaRefundDbChecks {
    pub direction: Direction,
    pub direction_ok: bool,
    pub state: RequestState,
    pub state_is_manual_review: bool,
    pub manual_review_reason: Option<String>,
    pub reason_whitelisted: bool,
    pub source_finalized: bool,
    pub has_obligation_index: bool,
    pub has_requester: bool,
    pub no_destination_txid: bool,
    pub not_settled: bool,
    pub no_goldcoin_payout: bool,
    pub never_advanced_past_manual_review: bool,
    pub hold_blocker: Option<HoldBlocker>,
    pub existing_refund: Option<SolanaRefundState>,
}

/// The value of [`SolanaRefundDbChecks`].
#[verifier::ext_equal]
pub struct SolanaRefundChecksView {
    pub direction: Direction,
    pub direction_ok: bool,
    pub state: RequestState,
    pub state_is_manual_review: bool,
    pub manual_review_reason: Option<Seq<char>>,
    pub reason_whitelisted: bool,
    pub source_finalized: bool,
    pub has_obligation_index: bool,
    pub has_requester: bool,
    pub no_destination_txid: bool,
    pub not_settled: bool,
    pub no_goldcoin_payout: bool,
    pub never_advanced_past_manual_review: bool,
    pub hold_blocker: Option<HoldBlocker>,
    pub existing_refund: Option<SolanaRefundState>,
}

impl View for SolanaRefundDbChecks {
    type V = SolanaRefundChecksView;

    open spec fn view(&self) -> SolanaRefundChecksView {
        SolanaRefundChecksView {
            direction: self.direction,
            direction_ok: self.direction_ok,
            state: self.state,
            state_is_manual_review: self.state_is_manual_review,
            manual_review_reason: text_of(self.manual_review_reason),
            reason_whitelisted: self.reason_whitelisted,
            source_finalized: self.source_finalized,
            has_obligation_index: self.has_obligation_index,
            has_requester: self.has_requester,
            no_destination_txid: self.no_destination_txid,
            not_settled: self.not_settled,
            no_goldcoin_payout: self.no_goldcoin_payout,
            never_advanced_past_manual_review: self.never_advanced_past_manual_review,
            hold_blocker: self.hold_blocker,
            existing_refund: self.existing_refund,
        }
    }
}

impl SolanaRefundChecksView {
    /// The first check, in this order, that stands against a refund.
    pub open spec fn first_failure(self) -> Option<RefundRefusal> {
        if self.existing_refund is Some {
            Some(RefundRefusal::LifecycleExists(self.existing_refund.unwrap()))
        } else if !self.direction_ok {
            Some(RefundRefusal::NotSolanaSourced(self.direction))
        } else if !self.state_is_manual_review {
            Some(RefundRefusal::NotManualReview(self.state))
        } else if !self.reason_whitelisted {
            Some(RefundRefusal::ReasonNotRefundable)
        } else if !self.source_finalized {
            Some(RefundRefusal::SourceNotFinalized)
        } else if !self.has_obligation_index {
            Some(RefundRefusal::NoObligationIndex)
        } else if !self.has_requester {
            Some(RefundRefusal::NoRequester)
        } else if !self.no_destination_txid {
            Some(RefundRefusal::DestinationTransactionExists)
        } else if !self.not_settled {
            Some(RefundRefusal::Settled)
        } else if !self.no_goldcoin_payout {
            Some(RefundRefusal::PayoutExists)
        } else if !self.never_advanced_past_manual_review {
            Some(RefundRefusal::AdvancedBefore)
        } else {
            match self.hold_blocker {
                Some(b) => Some(RefundRefusal::Held(b)),
                None => None,
            }
        }
    }
}

impl SolanaRefundDbChecks {
    /// The first check that stands against a refund.
    pub fn first_failure(&self) -> (r: Option<RefundRefusal>)
        ensures
            r == self@.first_failure(),
    {
        match self.existing_refund {
            Some(state) => {
                return Some(RefundRefusal::LifecycleExists(state));
            },
            None => {},
        }
        if !self.direction_ok {
            return Some(RefundRefusal::NotSolanaSourced(self.direction));
        }
        if !self.state_is_manual_review {
            return Some(RefundRefusal::NotManualReview(self.state));
        }
        if !self.reason_whitelisted {
            return Some(RefundRefusal::ReasonNotRefundable);
        }
        if !self.source_finalized {
            return Some(RefundRefusal::SourceNotFinalized);
        }
        if !self.has_obligation_index {
            return Some(RefundRefusal::NoObligationIndex);
        }
        if !self.has_requester {
            return Some(RefundRefusal::NoRequester);
        }
        if !self.no_destination_txid {
            return Some(RefundRefusal::DestinationTransactionExists);
        }
        if !self.not_settled {
            return Some(RefundRefusal::Settled);
        }
        if !self.no_goldcoin_payout {
            return Some(RefundRefusal::PayoutExists);
        }
        if !self.never_advanced_past_manual_review {
            return Some(RefundRefusal::AdvancedBefore);
        }
        match self.hold_blocker {
            Some(b) => Some(RefundRefusal::Held(b)),
            None => None,
        }
    }
}

/// What the Solana reserve can give back.
#[derive(Clone, Copy, Debug, PartialEq, Eq, Structural)]
pub struct SolanaRefundCapacityCheck {
    pub amount_solana_atomic: u64,
    pub total_reserve_balance: i64,
    pub protected_minimum: i64,
    pub reserved_liquidity: i64,
    pub other_open_refunds_atomic: i64,
    pub ok: bool,
}

/// What was read of the deposit on Solana itself.
#[derive(Clone, Copy, Debug, PartialEq, Eq)]
pub struct VerifiedRefundInputs {
    pub obligation_index: u64,
    pub amount_solana_atomic: u64,
    pub gross_canonical_atomic: u64,
    pub requester: [u8; 32],
    pub destination_token_account: [u8; 32],
    pub reserve_mint: [u8; 32],
    pub token_program: [u8; 32],
}

/// A line that shows that a request advanced to a final deposit or beyond.
pub open spec fn advanced_line(id: i64) -> spec_fn(LogEntry) -> bool {
    |e: LogEntry|
        e.request_id == id && (e.to_state == RequestState::SourceFinalized || e.to_state
            == RequestState::SettlementAuthorized || e.to_state
            == RequestState::DestinationSubmitted || e.to_state
            == RequestState::DestinationConfirmed || e.to_state == RequestState::Settled)
}

/// Another request's refund that has not been confirmed.
pub open spec fn other_open_refund(id: i64) -> spec_fn(SolanaRefundView) -> bool {
    |x: SolanaRefundView|
        (x.state == SolanaRefundState::Pending || x.state == SolanaRefundState::Broadcast)
            && x.request_id != id
}

/// What a refund gives back, as it is stored.
pub open spec fn refund_amount() -> spec_fn(SolanaRefundView) -> int {
    |x: SolanaRefundView| (x.amount_solana_atomic as i64) as int
}

impl LedgerView {
    /// The Solana refund of a request.
    pub open spec fn sol_refund(self, id: i64) -> Option<SolanaRefundView> {
        match first_row(self.solana_refunds, sol_refund_for(id)) {
            Some(i) => Some(self.solana_refunds[i]),
            None => None,
        }
    }

    /// The ledger with `row` in the place of a request's Solana refund.
    pub open spec fn with_sol_refund(self, id: i64, row: SolanaRefundView) -> LedgerView {
        match first_row(self.solana_refunds, sol_refund_for(id)) {
            Some(i) => LedgerView { solana_refunds: self.solana_refunds.update(i, row), ..self },
            None => self,
        }
    }

    /// What the ledger holds for and against a refund.
    pub open spec fn refund_checks(self, id: i64) -> Result<SolanaRefundChecksView, LedgerError> {
        match self.request(id) {
            None => Err(LedgerError::RequestNotFound(id)),
            Some(q) => Ok(
                SolanaRefundChecksView {
                    direction: q.direction,
                    direction_ok: q.direction.spec_source_reserve()
                        == ReserveDirection::SolanaReserve,
                    state: q.state,
                    state_is_manual_review: q.state == RequestState::ManualReview,
                    manual_review_reason: q.manual_review_note,
                    reason_whitelisted: refundable_in(q.direction, q.manual_review_note),
                    source_finalized: q.source_finalized_at is Some,
                    has_obligation_index: q.source_obligation_index is Some,
                    has_requester: q.requester is Some,
                    no_destination_txid: q.destination_txid is None,
                    not_settled: q.settled_at is None,
                    no_goldcoin_payout: !any_row(self.payouts, payout_for(id)) && !any_row(
                        self.robinhood_txs,
                        rhn_tx_for(id, RobinhoodTxKind::Payout),
                    ),
                    never_advanced_past_manual_review: !any_row(self.state_log, advanced_line(id)),
                    hold_blocker: self.hold_blocker(id),
                    existing_refund: match self.sol_refund(id) {
                        Some(x) => Some(x.state),
                        None => None,
                    },
                },
            ),
        }
    }

    /// What the refunds of other requests still take.
    pub open spec fn other_open_refunds(self, id: i64) -> int {
        sum_rows(self.solana_refunds, other_open_refund(id), refund_amount())
    }

    /// What the Solana reserve can give back.
    pub open spec fn refund_capacity(self, id: i64, amount: u64) -> Result<
        SolanaRefundCapacityCheck,
        LedgerError,
    > {
        match self.reserves.row(ReserveDirection::SolanaReserve) {
            None => Err(LedgerError::ReserveNotInitialized(ReserveDirection::SolanaReserve)),
            Some(row) => if !fits(self.other_open_refunds(id)) {
                Err(LedgerError::AmountOutOfRange)
            } else {
                Ok(
                    SolanaRefundCapacityCheck {
                        amount_solana_atomic: amount,
                        total_reserve_balance: row.total_reserve_balance,
                        protected_minimum: row.protected_minimum,
                        reserved_liquidity: row.reserved_liquidity,
                        other_open_refunds_atomic: self.other_open_refunds(id) as i64,
                        ok: 0 < amount <= row.headroom() - self.other_open_refunds(id),
                    },
                )
            },
        }
    }

    /// Whether a refund can be begun with what was read on Solana.
    pub open spec fn begin_refund_result(self, id: i64, v: VerifiedRefundInputs) -> Result<
        (),
        LedgerError,
    > {
        if id <= 0 {
            refund_refused(id, RefundRefusal::IdNotPositive)
        } else {
            match self.refund_checks(id) {
                Err(e) => Err(e),
                Ok(c) => {
                    let q = self.request(id).unwrap();
                    if c.first_failure() is Some {
                        refund_refused(id, c.first_failure().unwrap())
                    } else if q.source_obligation_index != Some(v.obligation_index) {
                        refund_refused(
                            id,
                            RefundRefusal::ObligationIndexDiffers {
                                stored: q.source_obligation_index.unwrap() as i64,
                                verified: v.obligation_index,
                            },
                        )
                    } else if q.requester != Some(v.requester) {
                        refund_refused(id, RefundRefusal::RequesterDiffers)
                    } else if q.gross_amount_atomic as u64 != v.gross_canonical_atomic {
                        refund_refused(
                            id,
                            RefundRefusal::GrossDiffers {
                                stored: q.gross_amount_atomic,
                                verified: v.gross_canonical_atomic,
                            },
                        )
                    } else {
                        match self.refund_capacity(id, v.amount_solana_atomic) {
                            Err(e) => Err(e),
                            Ok(k) => if k.ok {
                                Ok(())
                            } else if fits(
                                k.reserved_liquidity + k.other_open_refunds_atomic
                                    + v.amount_solana_atomic,
                            ) {
                                Err(
                                    LedgerError::InvariantViolated {
                                        direction: ReserveDirection::SolanaReserve,
                                        balance: k.total_reserve_balance,
                                        protected_minimum: k.protected_minimum,
                                        reserved_liquidity: (k.reserved_liquidity
                                            + k.other_open_refunds_atomic
                                            + v.amount_solana_atomic) as i64,
                                    },
                                )
                            } else {
                                Err(LedgerError::AmountOutOfRange)
                            },
                        }
                    }
                },
            }
        }
    }

    /// The ledger after a refund was begun.
    pub open spec fn refund_begun(
        self,
        id: i64,
        v: VerifiedRefundInputs,
        note: Seq<char>,
        actor: Seq<char>,
        now: i64,
    ) -> LedgerView {
        let q = self.request(id).unwrap();
        LedgerView {
            solana_refunds: self.solana_refunds.push(
                SolanaRefundView {
                    request_id: id,
                    obligation_index: v.obligation_index,
                    nonce: refund_nonce(id),
                    amount_solana_atomic: v.amount_solana_atomic,
                    requester: v.requester,
                    destination_token_account: v.destination_token_account,
                    reserve_mint: v.reserve_mint,
                    token_program: v.token_program,
                    manual_review_reason: q.manual_review_note.unwrap(),
                    note: trimmed(note),
                    created_by: actor,
                    state: SolanaRefundState::Pending,
                    attestation_epoch: None,
                    refund_signature: None,
                    recent_blockhash: None,
                    created_at: now,
                    broadcast_at: None,
                    confirmed_at: None,
                },
            ),
            ..self
        }.with_request(id, RequestView { state: RequestState::RefundPending, ..q }).with_log(
            LogEntry {
                request_id: id,
                from_state: Some(RequestState::ManualReview),
                to_state: RequestState::RefundPending,
                at: now,
                reason: Some(trimmed(note)),
                actor,
            },
        )
    }
}

/// A refund that is refused, and why.
pub open spec fn refund_refused<T>(id: i64, detail: RefundRefusal) -> Result<T, LedgerError> {
    Err(LedgerError::RefundNotEligible { id, detail })
}

/// The nonce of a request's refund.
pub open spec fn refund_nonce(id: i64) -> u64 {
    (SOLANA_REFUND_NONCE_DOMAIN + id) as u64
}

impl Ledger {
    /// The nonce of a request's refund: its own for each request, and none
    /// that a deposit uses.
    pub fn solana_refund_nonce(request_id: i64) -> (r: Result<u64, LedgerError>)
        ensures
            r == (if request_id > 0 {
                Ok(refund_nonce(request_id))
            } else {
                refund_refused(request_id, RefundRefusal::IdNotPositive)
            }),
            request_id > 0 ==> refund_nonce(request_id) == SOLANA_REFUND_NONCE_DOMAIN
                + request_id,
    {
        if request_id <= 0 {
            return Err(
                LedgerError::RefundNotEligible {
                    id: request_id,
                    detail: RefundRefusal::IdNotPositive,
                },
            );
        }
        let n: u64 = request_id as u64;
        assert(0x8000_0000_0000_0000u64 | n == 0x8000_0000_0000_0000u64 + n) by (bit_vector)
            requires
                n < 0x8000_0000_0000_0000u64,
        ;
        Ok(SOLANA_REFUND_NONCE_DOMAIN | n)
    }

    /// What the ledger holds for and against a refund.
    pub fn solana_refund_db_checks(&self, request_id: i64) -> (r: Result<
        SolanaRefundDbChecks,
        LedgerError,
    >)
        ensures
            match r {
                Ok(c) => self@.refund_checks(request_id) == Ok::<
                    SolanaRefundChecksView,
                    LedgerError,
                >(c@),
                Err(e) => self@.refund_checks(request_id) == Err::<
                    SolanaRefundChecksView,
                    LedgerError,
                >(e),
            },
    {
        let i = match self.find_request(request_id) {
            Some(i) => i,
            None => {
                return Err(LedgerError::RequestNotFound(request_id));
            },
        };
        let q = &self.requests[i];
        let reason_whitelisted = match &q.manual_review_note {
            Some(n) => Self::is_refundable_manual_review_reason(q.direction, Some(n.as_str())),
            None => false,
        };
        let advanced = any_where(
            &self.state_log,
            |e: &StateLogRow| -> (b: bool) ensures b == advanced_line(request_id)(e@) {
                e.request_id == request_id && matches!(e.to_state, RequestState::SourceFinalized | RequestState::SettlementAuthorized | RequestState::DestinationSubmitted | RequestState::DestinationConfirmed | RequestState::Settled)
            },
            Ghost(advanced_line(request_id)),
        );
        let existing_refund = match self.find_solana_refund(request_id) {
            Some(k) => Some(self.solana_refunds[k].state),
            None => None,
        };
        Ok(
            SolanaRefundDbChecks {
                direction: q.direction,
                direction_ok: q.direction.source_is_solana(),
                state: q.state,
                state_is_manual_review: matches!(q.state, RequestState::ManualReview),
                manual_review_reason: dup_text(&q.manual_review_note),
                reason_whitelisted,
                source_finalized: q.source_finalized_at.is_some(),
                has_obligation_index: q.source_obligation_index.is_some(),
                has_requester: q.requester.is_some(),
                no_destination_txid: q.destination_txid.is_none(),
                not_settled: q.settled_at.is_none(),
                no_goldcoin_payout: !self.has_payout(request_id) && !self.has_rhn_tx(
                    request_id,
                    RobinhoodTxKind::Payout,
                ),
                never_advanced_past_manual_review: !advanced,
                hold_blocker: self.refund_hold_blocker(request_id),
                existing_refund,
            },
        )
    }

    /// What the Solana reserve can give back, beside the refunds of other
    /// requests that are not done.
    pub fn solana_refund_capacity(&self, request_id: i64, amount_solana_atomic: u64) -> (r: Result<
        SolanaRefundCapacityCheck,
        LedgerError,
    >)
        ensures
            r == self@.refund_capacity(request_id, amount_solana_atomic),
    {
        let row = match self.reserves.get(ReserveDirection::SolanaReserve) {
            Some(row) => row,
            None => {
                return Err(LedgerError::ReserveNotInitialized(ReserveDirection::SolanaReserve));
            },
        };
        let sum: i128 = sum_where(
            &self.solana_refunds,
            |x: &SolanaRefund| -> (b: bool) ensures b == other_open_refund(request_id)(x@) {
                matches!(x.state, SolanaRefundState::Pending | SolanaRefundState::Broadcast)
                    && x.request_id != request_id
            },
            |x: &SolanaRefund| -> (n: i64) ensures n == refund_amount()(x@) {
                x.amount_solana_atomic as i64
            },
            Ghost(other_open_refund(request_id)),
            Ghost(refund_amount()),
        );
        let other: i64 = match narrow(sum) {
            Some(n) => n,
            None => {
                return Err(LedgerError::AmountOutOfRange);
            },
        };
        let available: i128 = row.total_reserve_balance as i128 - row.protected_minimum as i128
            - row.reserved_liquidity as i128 - other as i128;
        Ok(
            SolanaRefundCapacityCheck {
                amount_solana_atomic,
                total_reserve_balance: row.total_reserve_balance,
                protected_minimum: row.protected_minimum,
                reserved_liquidity: row.reserved_liquidity,
                other_open_refunds_atomic: other,
                ok: amount_solana_atomic as i128 <= available && amount_solana_atomic > 0,
            },
        )
    }

    /// The Solana refund of a request.
    pub fn get_solana_refund(&self, request_id: i64) -> (r: Option<SolanaRefund>)
        ensures
            match r {
                Some(x) => self@.sol_refund(request_id) == Some(x@),
                None => self@.sol_refund(request_id) is None,
            },
    {
        match self.find_solana_refund(request_id) {
            Some(i) => Some(self.solana_refunds[i].clone()),
            None => None,
        }
    }

    /// The Solana refunds by request, or only those not confirmed.
    pub fn list_solana_refunds(&self, open_only: bool) -> (r: Vec<SolanaRefund>)
        ensures
            sorted_by(values(r@), sol_refund_order()),
            values(r@).to_multiset() == select_rows(
                self@.solana_refunds,
                listed_sol_refund(open_only),
            ).to_multiset(),
    {
        let rows = collect_where(
            &self.solana_refunds,
            |x: &SolanaRefund| -> (b: bool) ensures b == listed_sol_refund(open_only)(x@) {
                !open_only || !matches!(x.state, SolanaRefundState::Confirmed)
            },
            |x: &SolanaRefund| -> (d: SolanaRefund) ensures d@ == x@ { x.clone() },
            Ghost(listed_sol_refund(open_only)),
            Ghost(|x: SolanaRefundView| x),
        );
        proof {
            let sel = select_rows(self@.solana_refunds, listed_sol_refund(open_only));
            assert(sel.map_values(|x: SolanaRefundView| x) =~= sel);
        }
        sort_rows(
            rows,
            |a: &SolanaRefund, b: &SolanaRefund| -> (r: bool)
                ensures r == sol_refund_order()(a@, b@) { a.request_id <= b.request_id },
            Ghost(sol_refund_order()),
        )
    }

    fn check_begin_refund(&self, id: i64, v: &VerifiedRefundInputs) -> (r: Result<
        usize,
        LedgerError,
    >)
        ensures
            match r {
                Ok(i) => self@.begin_refund_result(id, *v) is Ok && self.at_row(id, i),
                Err(e) => self@.begin_refund_result(id, *v) == Err::<(), LedgerError>(e),
            },
    {
        match Self::solana_refund_nonce(id) {
            Ok(_) => {},
            Err(e) => {
                return Err(e);
            },
        }
        let checks = match self.solana_refund_db_checks(id) {
            Ok(c) => c,
            Err(e) => {
                return Err(e);
            },
        };
        match checks.first_failure() {
            Some(detail) => {
                return Err(LedgerError::RefundNotEligible { id, detail });
            },
            None => {},
        }
        let i = match self.find_request(id) {
            Some(i) => i,
            None => {
                return Err(LedgerError::RequestNotFound(id));
            },
        };
        let q = &self.requests[i];
        match q.source_obligation_index {
            Some(stored) if stored != v.obligation_index => {
                return Err(
                    LedgerError::RefundNotEligible {
                        id,
                        detail: RefundRefusal::ObligationIndexDiffers {
                            stored: stored as i64,
                            verified: v.obligation_index,
                        },
                    },
                );
            },
            _ => {},
        }
        if !crate::table::is32(&q.requester, &v.requester) {
            return Err(
                LedgerError::RefundNotEligible { id, detail: RefundRefusal::RequesterDiffers },
            );
        }
        if q.gross_amount_atomic as u64 != v.gross_canonical_atomic {
            return Err(
                LedgerError::RefundNotEligible {
                    id,
                    detail: RefundRefusal::GrossDiffers {
                        stored: q.gross_amount_atomic,
                        verified: v.gross_canonical_atomic,
                    },
                },
            );
        }
        let k = match self.solana_refund_capacity(id, v.amount_solana_atomic) {
            Ok(k) => k,
            Err(e) => {
                return Err(e);
            },
        };
        if !k.ok {
            let wanted: i128 = k.reserved_liquidity as i128 + k.other_open_refunds_atomic as i128
                + v.amount_solana_atomic as i128;
            return Err(
                match narrow(wanted) {
                    Some(n) => LedgerError::InvariantViolated {
                        direction: ReserveDirection::SolanaReserve,
                        balance: k.total_reserve_balance,
                        protected_minimum: k.protected_minimum,
                        reserved_liquidity: n,
                    },
                    None => LedgerError::AmountOutOfRange,
                },
            );
        }
        Ok(i)
    }

    /// Begins the refund of a parked Solana deposit. The note is not blank, but
    /// for a number that no request can have.
    pub fn begin_solana_refund(
        &mut self,
        request_id: i64,
        verified: &VerifiedRefundInputs,
        note: &str,
        actor: &str,
        now: i64,
    ) -> (r: Result<(), LedgerError>)
        requires
            request_id > 0 ==> !blank(note@),
        ensures
            r == old(self)@.begin_refund_result(request_id, *verified),
            final(self)@ == (if r is Ok {
                old(self)@.refund_begun(request_id, *verified, note@, actor@, now)
            } else {
                old(self)@
            }),
    {
        let i = match self.check_begin_refund(request_id, verified) {
            Ok(i) => i,
            Err(e) => {
                return Err(e);
            },
        };
        let nonce: u64 = match Self::solana_refund_nonce(request_id) {
            Ok(n) => n,
            Err(e) => {
                return Err(e);
            },
        };
        let ghost l0 = self@;
        let reason: String = match &self.requests[i].manual_review_note {
            Some(n) => n.clone(),
            None => String::new(),
        };
        let row = SolanaRefund {
            request_id,
            obligation_index: verified.obligation_index,
            nonce,
            amount_solana_atomic: verified.amount_solana_atomic,
            requester: verified.requester,
            destination_token_account: verified.destination_token_account,
            reserve_mint: verified.reserve_mint,
            token_program: verified.token_program,
            manual_review_reason: reason,
            note: trim(note).to_owned(),
            created_by: actor.to_owned(),
            state: SolanaRefundState::Pending,
            attestation_epoch: None,
            refund_signature: None,
            recent_blockhash: None,
            created_at: now,
            broadcast_at: None,
            confirmed_at: None,
        };
        let ghost v = row@;
        self.solana_refunds.push(row);
        proof {
            assert(self@.solana_refunds =~= l0.solana_refunds.push(v));
        }
        let ghost l1 = self@;
        self.requests[i].state = RequestState::RefundPending;
        proof {
            assert(self@.requests =~= l1.requests.update(
                i as int,
                RequestView { state: RequestState::RefundPending, ..l0.requests[i as int] },
            ));
        }
        self.log_transition(
            request_id,
            Some(RequestState::ManualReview),
            RequestState::RefundPending,
            now,
            Some(trim(note)),
            actor,
        );
        Ok(())
    }
}

/// Lower request numbers first.
pub open spec fn sol_refund_order() -> spec_fn(SolanaRefundView, SolanaRefundView) -> bool {
    |a: SolanaRefundView, b: SolanaRefundView| a.request_id <= b.request_id
}

/// Every refund, or only one that is not confirmed.
pub open spec fn listed_sol_refund(open_only: bool) -> spec_fn(SolanaRefundView) -> bool {
    |x: SolanaRefundView| !open_only || x.state != SolanaRefundState::Confirmed
}

/// A refund that was broadcast.
pub open spec fn broadcast_refund(
    x: SolanaRefundView,
    signature: Seq<char>,
    blockhash: Seq<char>,
    epoch: u64,
    now: i64,
) -> SolanaRefundView {
    SolanaRefundView {
        state: SolanaRefundState::Broadcast,
        refund_signature: Some(signature),
        recent_blockhash: Some(blockhash),
        attestation_epoch: Some(epoch),
        broadcast_at: Some(now),
        ..x
    }
}

impl LedgerView {
    /// Whether a refund can be recorded as broadcast.
    pub open spec fn refund_broadcast_result(self, id: i64) -> Result<(), LedgerError> {
        match self.sol_refund(id) {
            None => Err(LedgerError::RefundNotFound(id)),
            Some(x) => if self.request(id) is None {
                Err(LedgerError::NoSuchRow)
            } else if x.state == SolanaRefundState::Confirmed {
                Err(
                    LedgerError::RefundWrongState { id, expected: "Pending or Broadcast", actual: x.state },
                )
            } else {
                Ok(())
            },
        }
    }

    /// The ledger after a refund was recorded as broadcast. Broadcasting again
    /// replaces what was recorded of the first.
    pub open spec fn refund_broadcast(
        self,
        id: i64,
        signature: Seq<char>,
        blockhash: Seq<char>,
        epoch: u64,
        now: i64,
    ) -> LedgerView {
        let l = self.with_sol_refund(
            id,
            broadcast_refund(self.sol_refund(id).unwrap(), signature, blockhash, epoch, now),
        );
        let q = self.request(id).unwrap();
        if q.state == RequestState::RefundPending {
            l.with_request(id, RequestView { state: RequestState::RefundBroadcast, ..q }).with_log(
                step_because(
                    id,
                    Some(RequestState::RefundPending),
                    RequestState::RefundBroadcast,
                    now,
                    "refund tx "@ + signature,
                ),
            )
        } else {
            l
        }
    }

    /// Whether a refund can be recorded as confirmed.
    pub open spec fn refund_confirm_result(self, id: i64) -> Result<(), LedgerError> {
        match self.sol_refund(id) {
            None => Err(LedgerError::RefundNotFound(id)),
            Some(x) => if x.state == SolanaRefundState::Confirmed {
                Ok(())
            } else if x.state != SolanaRefundState::Broadcast {
                Err(
                    LedgerError::RefundWrongState { id, expected: "Broadcast", actual: x.state },
                )
            } else if self.request(id) is None {
                Err(LedgerError::NoSuchRow)
            } else {
                match self.reserves.row(ReserveDirection::SolanaReserve) {
                    Some(row) => if fits(
                        row.total_reserve_balance - (x.amount_solana_atomic as i64),
                    ) {
                        Ok(())
                    } else {
                        Err(LedgerError::AmountOutOfRange)
                    },
                    None => Ok(()),
                }
            },
        }
    }

    /// The ledger after a refund was recorded as confirmed: the balance of the
    /// Solana reserve is lower by what was given back.
    pub open spec fn refund_confirmed(self, id: i64, now: i64) -> LedgerView {
        let x = self.sol_refund(id).unwrap();
        let q = self.request(id).unwrap();
        if x.state == SolanaRefundState::Confirmed {
            self
        } else {
            let l = self.with_sol_refund(
                id,
                SolanaRefundView {
                    state: SolanaRefundState::Confirmed,
                    confirmed_at: Some(now),
                    ..x
                },
            ).with_request(id, RequestView { state: RequestState::Refunded, ..q }).with_log(
                LogEntry {
                    request_id: id,
                    from_state: Some(RequestState::RefundBroadcast),
                    to_state: RequestState::Refunded,
                    at: now,
                    reason: x.refund_signature,
                    actor: "system"@,
                },
            );
            match l.reserves.row(ReserveDirection::SolanaReserve) {
                Some(row) => l.with_reserve(
                    ReserveDirection::SolanaReserve,
                    ReserveRow {
                        total_reserve_balance: (row.total_reserve_balance - (
                        x.amount_solana_atomic as i64)) as i64,
                        ..row
                    },
                ),
                None => l,
            }
        }
    }
}

impl Ledger {
    /// Records the transaction that gives a deposit back.
    pub fn record_solana_refund_broadcast(
        &mut self,
        request_id: i64,
        refund_signature: &str,
        recent_blockhash: &str,
        attestation_epoch: u64,
        now: i64,
    ) -> (r: Result<(), LedgerError>)
        requires
            old(self)@.refund_broadcast_result(request_id) is Ok ==> ({
                let q = old(self)@.request(request_id).unwrap();
                q.state == RequestState::RefundPending || q.state == RequestState::RefundBroadcast
            }),
        ensures
            r == old(self)@.refund_broadcast_result(request_id),
            final(self)@ == (if r is Ok {
                old(self)@.refund_broadcast(
                    request_id,
                    refund_signature@,
                    recent_blockhash@,
                    attestation_epoch,
                    now,
                )
            } else {
                old(self)@
            }),
    {
        let k = match self.find_solana_refund(request_id) {
            Some(k) => k,
            None => {
                return Err(LedgerError::RefundNotFound(request_id));
            },
        };
        let i = match self.find_request(request_id) {
            Some(i) => i,
            None => {
                return Err(LedgerError::NoSuchRow);
            },
        };
        let state = self.solana_refunds[k].state;
        if matches!(state, SolanaRefundState::Confirmed) {
            return Err(
                LedgerError::RefundWrongState {
                    id: request_id,
                    expected: "Pending or Broadcast",
                    actual: state,
                },
            );
        }
        let ghost l0 = self@;
        self.solana_refunds[k].state = SolanaRefundState::Broadcast;
        self.solana_refunds[k].refund_signature = Some(refund_signature.to_owned());
        self.solana_refunds[k].recent_blockhash = Some(recent_blockhash.to_owned());
        self.solana_refunds[k].attestation_epoch = Some(attestation_epoch);
        self.solana_refunds[k].broadcast_at = Some(now);
        proof {
            assert(self@.solana_refunds =~= l0.solana_refunds.update(
                k as int,
                broadcast_refund(
                    l0.solana_refunds[k as int],
                    refund_signature@,
                    recent_blockhash@,
                    attestation_epoch,
                    now,
                ),
            ));
        }
        if matches!(self.requests[i].state, RequestState::RefundPending) {
            let ghost l1 = self@;
            self.requests[i].state = RequestState::RefundBroadcast;
            proof {
                assert(self@.requests =~= l1.requests.update(
                    i as int,
                    RequestView { state: RequestState::RefundBroadcast, ..l1.requests[i as int] },
                ));
            }
            let why = concat("refund tx ", refund_signature);
            self.log_transition(
                request_id,
                Some(RequestState::RefundPending),
                RequestState::RefundBroadcast,
                now,
                Some(why.as_str()),
                "system",
            );
        }
        Ok(())
    }

    /// Records that a deposit was given back. A second time changes nothing.
    pub fn mark_solana_refund_confirmed(&mut self, request_id: i64, now: i64) -> (r: Result<
        (),
        LedgerError,
    >)
        requires
            old(self)@.sol_refund(request_id) matches Some(x) ==> x.state
                == SolanaRefundState::Broadcast ==> (old(self)@.request(request_id) matches Some(q)
                ==> q.state == RequestState::RefundBroadcast),
        ensures
            r == old(self)@.refund_confirm_result(request_id),
            final(self)@ == (if r is Ok {
                old(self)@.refund_confirmed(request_id, now)
            } else {
                old(self)@
            }),
    {
        let k = match self.find_solana_refund(request_id) {
            Some(k) => k,
            None => {
                return Err(LedgerError::RefundNotFound(request_id));
            },
        };
        let state = self.solana_refunds[k].state;
        if matches!(state, SolanaRefundState::Confirmed) {
            return Ok(());
        }
        if !matches!(state, SolanaRefundState::Broadcast) {
            return Err(
                LedgerError::RefundWrongState {
                    id: request_id,
                    expected: "Broadcast",
                    actual: state,
                },
            );
        }
        let i = match self.find_request(request_id) {
            Some(i) => i,
            None => {
                return Err(LedgerError::NoSuchRow);
            },
        };
        let amount: i64 = self.solana_refunds[k].amount_solana_atomic as i64;
        let books = self.reserves.get(ReserveDirection::SolanaReserve);
        let balance: i64 = match books {
            Some(row) => match sub_checked(row.total_reserve_balance, amount) {
                Some(n) => n,
                None => {
                    return Err(LedgerError::AmountOutOfRange);
                },
            },
            None => 0,
        };
        let signature = dup_text(&self.solana_refunds[k].refund_signature);
        let ghost l0 = self@;
        self.solana_refunds[k].state = SolanaRefundState::Confirmed;
        self.solana_refunds[k].confirmed_at = Some(now);
        proof {
            assert(self@.solana_refunds =~= l0.solana_refunds.update(
                k as int,
                SolanaRefundView {
                    state: SolanaRefundState::Confirmed,
                    confirmed_at: Some(now),
                    ..l0.solana_refunds[k as int]
                },
            ));
        }
        let ghost l1 = self@;
        self.requests[i].state = RequestState::Refunded;
        proof {
            assert(self@.requests =~= l1.requests.update(
                i as int,
                RequestView { state: RequestState::Refunded, ..l1.requests[i as int] },
            ));
        }
        let reason = match &signature {
            Some(s) => Some(s.as_str()),
            None => None,
        };
        self.log_transition(
            request_id,
            Some(RequestState::RefundBroadcast),
            RequestState::Refunded,
            now,
            reason,
            "system",
        );
        match books {
            Some(row) => self.put_reserve(
                ReserveDirection::SolanaReserve,
                ReserveRow { total_reserve_balance: balance, ..row },
            ),
            None => {},
        }
        Ok(())
    }
}

/// Different requests have different refund nonces, and none is one that a
/// deposit uses.
pub proof fn law_refund_nonces_differ(a: i64, b: i64)
    requires
        a > 0,
        b > 0,
    ensures
        refund_nonce(a) == refund_nonce(b) ==> a == b,
        refund_nonce(a) >= SOLANA_REFUND_NONCE_DOMAIN,
{
}

/// A request is refunded once: after a refund was begun, another is refused.
pub proof fn law_a_refund_is_begun_once(
    l: LedgerView,
    id: i64,
    v: VerifiedRefundInputs,
    note: Seq<char>,
    actor: Seq<char>,
    now: i64,
    again: VerifiedRefundInputs,
)
    requires
        l.begin_refund_result(id, v) is Ok,
    ensures
        l.refund_begun(id, v, note, actor, now).begin_refund_result(id, again) == refund_refused::<
            (),
        >(id, RefundRefusal::LifecycleExists(SolanaRefundState::Pending)),
{
    let m = l.refund_begun(id, v, note, actor, now);
    let q = l.request(id).unwrap();
    let row = RequestView { state: RequestState::RefundPending, ..q };
    let k = LedgerView { solana_refunds: m.solana_refunds, ..l };
    lemma_request_id(l, id);
    assert(k.requests == l.requests);
    assert(k.request(id) == l.request(id));
    lemma_with_request(k, id, row);
    assert(m.requests == k.with_request(id, row).requests);
    assert(m.request(id) == Some(row));
    lemma_first_row_is_first(l.solana_refunds, sol_refund_for(id));
    let n = l.solana_refunds.len() as int;
    assert(is_first(m.solana_refunds, sol_refund_for(id), n)) by {
        assert forall|j: int| 0 <= j < n implies !sol_refund_for(id)(
            #[trigger] m.solana_refunds[j],
        ) by {
            assert(m.solana_refunds[j] == l.solana_refunds[j]);
            assert(!any_row(l.solana_refunds, sol_refund_for(id)));
        }
    }
    lemma_first_row(m.solana_refunds, sol_refund_for(id), n);
}

/// A refund that is begun is covered by the reserve beside what is protected,
/// promised, and already being given back.
pub proof fn law_a_refund_is_covered(l: LedgerView, id: i64, v: VerifiedRefundInputs)
    requires
        l.begin_refund_result(id, v) is Ok,
    ensures
        v.amount_solana_atomic > 0,
        l.reserves.row(ReserveDirection::SolanaReserve) matches Some(row)
            && v.amount_solana_atomic + l.other_open_refunds(id) <= row.headroom(),
{
}

/// Recording a refund as confirmed twice takes the amount off the balance
/// once.
pub proof fn law_refund_confirmed_twice_is_once(l: LedgerView, id: i64, now: i64, later: i64)
    requires
        l.refund_confirm_result(id) is Ok,
    ensures
        l.refund_confirmed(id, now).refund_confirmed(id, later) == l.refund_confirmed(id, now),
        l.refund_confirmed(id, now).refund_confirm_result(id) is Ok,
{
    let x = l.sol_refund(id).unwrap();
    if x.state != SolanaRefundState::Confirmed {
        let m = l.refund_confirmed(id, now);
        let p = sol_refund_for(id);
        lemma_first_row_is_first(l.solana_refunds, p);
        let i = first_row(l.solana_refunds, p).unwrap();
        assert(is_first(m.solana_refunds, p, i)) by {
            assert forall|j: int| 0 <= j < i implies !p(#[trigger] m.solana_refunds[j]) by {
                assert(!p(l.solana_refunds[j]));
            }
        }
        lemma_first_row(m.solana_refunds, p, i);
    }
}

} // verus!
