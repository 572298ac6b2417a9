//! A parked deposit is admitted after all, where nothing stands against it any
//! more.
use vstd::prelude::*;
use crate::error::{LedgerError, LedgerErrorView, ReviewRefusal, seen};
use crate::ledger::{Ledger, LedgerView, ReserveRow, lemma_with_request};
use crate::reasons::recoverable_reason;
use crate::review_text::{refused_resume_text, refused_resume_words};
use crate::rows::{
    BridgeRequest, LogEntry, PayoutRow, PayoutView, RequestView, RobinhoodTxRow, RobinhoodTxView,
    SolanaRefund, SolanaRefundView, StateLogRow, bytes_vec,
};
use crate::table::{any_row, any_where, find_where, first_row};
use crate::types::{
    Direction, ManualReviewDisposition, RequestState, ReserveDirection, RobinhoodTxKind,
    RouteWalletEligibility, WalletRole,
};

verus! {

/// What came of an attempt to resume.
#[derive(Clone, Copy, Debug, PartialEq, Eq, Structural)]
pub enum ResumeManualReviewOutcome {
    Resumed,
    AlreadyResumed { state: RequestState },
}

/// What would come of an attempt to resume.
#[derive(Debug, PartialEq, Eq)]
pub enum ResumeDryRunOutcome {
    WouldResume,
    AlreadyResumed { state: RequestState },
    /// The refusal, in words.
    WouldRefuse { reason: String },
}

/// The Goldcoin payout of a request.
pub open spec fn payout_for(id: i64) -> spec_fn(PayoutView) -> bool {
    |p: PayoutView| p.request_id == id
}

/// The Solana refund of a request.
pub open spec fn sol_refund_for(id: i64) -> spec_fn(SolanaRefundView) -> bool {
    |p: SolanaRefundView| p.request_id == id
}

/// An operation on Robinhood for a request.
pub open spec fn rhn_tx_for(id: i64, kind: RobinhoodTxKind) -> spec_fn(RobinhoodTxView) -> bool {
    |t: RobinhoodTxView| t.request_id == Some(id) && t.kind == kind
}

/// The line that an earlier resume left.
pub open spec fn resume_line(id: i64) -> spec_fn(LogEntry) -> bool {
    |e: LogEntry|
        e.request_id == id && e.from_state == Some(RequestState::ManualReview) && e.to_state
            == RequestState::SourceFinalized
}

/// Why a request's holds keep it from resuming: a burst hold waits for a
/// decision, an operator's note holds whatever was decided, and any other hold
/// waits for a decision.
pub open spec fn hold_refusal(q: RequestView) -> Option<ReviewRefusal> {
    if q.manual_review_disposition == ManualReviewDisposition::RapidBurstHold
        && q.operator_decision is None {
        Some(ReviewRefusal::RapidBurstHeld { review_after: q.review_after })
    } else if q.auto_resume_hold_note is Some {
        Some(ReviewRefusal::OperatorHeld { until: q.auto_resume_hold_until })
    } else if q.manual_review_disposition != ManualReviewDisposition::Normal
        && q.operator_decision is None {
        Some(ReviewRefusal::HeldUndecided(q.manual_review_disposition))
    } else {
        None
    }
}

/// A request that may not resume, and why.
pub open spec fn unrecoverable<T>(id: i64, detail: ReviewRefusal) -> Result<T, LedgerError> {
    Err(LedgerError::ManualReviewNotRecoverable { id, detail })
}

/// The source wallet that is recorded; nothing where there is none.
pub open spec fn recorded_wallet(q: RequestView) -> Seq<u8> {
    match q.source_wallet {
        Some(w) => w,
        None => Seq::empty(),
    }
}

/// The error for a wallet that has to wait; the source is tested first.
pub open spec fn window_error(
    id: i64,
    q: RequestView,
    windows: RouteWalletEligibility,
) -> Option<LedgerErrorView> {
    match windows.spec_blocker() {
        Some((role, retry_after)) => Some(
            LedgerErrorView::WalletWindowActive {
                request_id: id,
                role,
                chain: match role {
                    WalletRole::Source => q.direction.spec_source_chain(),
                    WalletRole::Destination => q.direction.spec_destination_chain(),
                },
                wallet: match role {
                    WalletRole::Source => recorded_wallet(q),
                    WalletRole::Destination => q.recipient,
                },
                retry_after,
            },
        ),
        None => None,
    }
}

impl LedgerView {
    /// The error for a refund that has begun on the source chain.
    pub open spec fn refund_error(self, id: i64, robinhood: bool) -> Option<LedgerError> {
        if robinhood {
            match first_row(self.robinhood_txs, rhn_tx_for(id, RobinhoodTxKind::Refund)) {
                Some(i) => Some(
                    LedgerError::RefundLifecycleExists {
                        id,
                        refund_state: self.robinhood_txs[i].state.spec_str(),
                    },
                ),
                None => None,
            }
        } else {
            match first_row(self.solana_refunds, sol_refund_for(id)) {
                Some(i) => Some(
                    LedgerError::RefundLifecycleExists {
                        id,
                        refund_state: self.solana_refunds[i].state.spec_str(),
                    },
                ),
                None => None,
            }
        }
    }

    /// What is found of a request that is not parked any more.
    pub open spec fn not_parked(self, id: i64, state: RequestState) -> Result<
        ResumeManualReviewOutcome,
        LedgerError,
    > {
        if any_row(self.state_log, resume_line(id)) {
            Ok(ResumeManualReviewOutcome::AlreadyResumed { state })
        } else {
            unrecoverable(id, ReviewRefusal::NotManualReview(state))
        }
    }

    /// Whether the reserve `d` can pay `net`, and the error where it cannot.
    pub open spec fn capacity_error(
        self,
        id: i64,
        d: ReserveDirection,
        row: ReserveRow,
        net: i64,
    ) -> Option<LedgerError> {
        if !(i64::MIN <= row.headroom() <= i64::MAX) {
            Some(LedgerError::AmountOutOfRange)
        } else if net > row.headroom() {
            if i64::MIN <= row.reserved_liquidity + net <= i64::MAX {
                Some(
                    LedgerError::InvariantViolated {
                        direction: d,
                        balance: row.total_reserve_balance,
                        protected_minimum: row.protected_minimum,
                        reserved_liquidity: (row.reserved_liquidity + net) as i64,
                    },
                )
            } else {
                Some(LedgerError::AmountOutOfRange)
            }
        } else if row.admission_buffer_atomic > 0 && row.headroom() - net
            < row.admission_buffer_atomic {
            Some(
                LedgerError::AdmissionLiquidityBufferLow {
                    request_id: id,
                    headroom: row.headroom() as i64,
                    net_destination_atomic: net,
                    buffer_atomic: row.admission_buffer_atomic,
                },
            )
        } else if !self.commitment_fits(d, net as int) {
            Some(LedgerError::AmountOutOfRange)
        } else {
            None
        }
    }

    /// What comes of an attempt to resume a deposit for Goldcoin, given until
    /// when its wallets have to wait.
    pub open spec fn resume_inbound(
        self,
        expected: Direction,
        id: i64,
        windows: RouteWalletEligibility,
    ) -> Result<ResumeManualReviewOutcome, LedgerErrorView> {
        match self.request(id) {
            None => Err(LedgerError::RequestNotFound(id)@),
            Some(q) => if hold_refusal(q) is Some {
                seen(unrecoverable(id, hold_refusal(q).unwrap()))
            } else if q.direction != expected {
                if expected == Direction::RhnToGlc {
                    Err(LedgerError::NotARhnToGlcRequest { id, actual_direction: q.direction }@)
                } else {
                    Err(LedgerError::NotASolToGlcRequest { id, actual_direction: q.direction }@)
                }
            } else if self.refund_error(id, expected == Direction::RhnToGlc) is Some {
                Err(self.refund_error(id, expected == Direction::RhnToGlc).unwrap()@)
            } else if !has_wallet(q) {
                seen(unrecoverable(id, ReviewRefusal::NoSourceWallet(q.direction)))
            } else if q.state != RequestState::ManualReview {
                seen(self.not_parked(id, q.state))
            } else if !(q.manual_review_note matches Some(n) && recoverable_reason(n)) {
                seen(unrecoverable(id, ReviewRefusal::ReasonNotRecoverable))
            } else if q.source_finalized_at is None {
                seen(unrecoverable(id, ReviewRefusal::SourceNotFinalized))
            } else if q.destination_txid is Some {
                seen(unrecoverable(id, ReviewRefusal::DestinationTransactionExists))
            } else if any_row(self.payouts, payout_for(id)) {
                seen(unrecoverable(id, ReviewRefusal::PayoutExists))
            } else if window_error(id, q, windows) is Some {
                Err(window_error(id, q, windows).unwrap())
            } else {
                match self.reserves.row(ReserveDirection::GoldcoinReserve) {
                    None => Err(LedgerError::NoSuchRow@),
                    Some(row) => {
                        let count = self.utxo_count(self.spendable()) as i64;
                        if !(row.utxo_pool_min_available_count == 0 || count
                            > row.utxo_pool_min_available_count) {
                            Err(
                                LedgerError::UtxoLiquidityLow {
                                    request_id: id,
                                    available_utxo_count: count,
                                    min_available_count: row.utxo_pool_min_available_count as i64,
                                }@,
                            )
                        } else {
                            match self.capacity_error(
                                id,
                                ReserveDirection::GoldcoinReserve,
                                row,
                                q.net_destination_atomic,
                            ) {
                                Some(e) => Err(e@),
                                None => Ok(ResumeManualReviewOutcome::Resumed),
                            }
                        }
                    },
                }
            },
        }
    }

    /// The ledger after a deposit for Goldcoin was resumed.
    pub open spec fn resumed_inbound(
        self,
        id: i64,
        note: Seq<char>,
        actor: Seq<char>,
        now: i64,
    ) -> LedgerView {
        let q = self.request(id).unwrap();
        let net = q.net_destination_atomic as int;
        self.with_request(
            id,
            RequestView {
                state: RequestState::SourceFinalized,
                manual_review_note: None,
                ..q
            },
        ).with_log(resumed_entry(id, note, actor, now)).add_reserved(
            ReserveDirection::GoldcoinReserve,
            net,
        ).add_pending(ReserveDirection::GoldcoinReserve, net)
    }

    /// What comes of an attempt to resume a deposit between Solana and
    /// Robinhood.
    pub open spec fn resume_cross(
        self,
        expected: Direction,
        id: i64,
        windows: RouteWalletEligibility,
    ) -> Result<ResumeManualReviewOutcome, LedgerErrorView> {
        match self.request(id) {
            None => Err(LedgerError::RequestNotFound(id)@),
            Some(q) => if hold_refusal(q) is Some {
                seen(unrecoverable(id, hold_refusal(q).unwrap()))
            } else if q.direction != expected {
                seen(
                    unrecoverable(
                        id,
                        ReviewRefusal::WrongDirection { actual: q.direction, expected },
                    ),
                )
            } else if !has_wallet(q) {
                seen(unrecoverable(id, ReviewRefusal::NoSourceWallet(q.direction)))
            } else if self.refund_error(id, from_robinhood(q.direction)) is Some {
                Err(self.refund_error(id, from_robinhood(q.direction)).unwrap()@)
            } else if q.state != RequestState::ManualReview {
                seen(self.not_parked(id, q.state))
            } else if !(q.manual_review_note matches Some(n) && recoverable_reason(n)) {
                seen(unrecoverable(id, ReviewRefusal::ReasonNotRecoverable))
            } else if q.source_finalized_at is None {
                seen(unrecoverable(id, ReviewRefusal::SourceNotFinalized))
            } else if q.destination_txid is Some || any_row(
                self.robinhood_txs,
                rhn_tx_for(id, RobinhoodTxKind::Payout),
            ) {
                seen(unrecoverable(id, ReviewRefusal::PayoutExists))
            } else if q.net_destination_atomic <= 0 {
                seen(unrecoverable(id, ReviewRefusal::NoDestinationAmount))
            } else if window_error(id, q, windows) is Some {
                Err(window_error(id, q, windows).unwrap())
            } else {
                let reserve = q.direction.spec_destination_reserve();
                match self.reserves.row(reserve) {
                    None => Err(LedgerError::ReserveNotInitialized(reserve)@),
                    Some(row) => match self.capacity_error(
                        id,
                        reserve,
                        row,
                        q.net_destination_atomic,
                    ) {
                        Some(e) => Err(e@),
                        None => Ok(ResumeManualReviewOutcome::Resumed),
                    },
                }
            },
        }
    }

    /// The ledger after a deposit between Solana and Robinhood was resumed:
    /// the liquidity gate of its reserve is brought up to date as well.
    pub open spec fn resumed_cross(
        self,
        id: i64,
        note: Seq<char>,
        actor: Seq<char>,
        now: i64,
    ) -> LedgerView {
        let q = self.request(id).unwrap();
        let reserve = q.direction.spec_destination_reserve();
        let net = q.net_destination_atomic as int;
        self.with_next_gate(reserve, now).with_request(
            id,
            RequestView { state: RequestState::SourceFinalized, reserved_at: Some(now), ..q },
        ).with_log(resumed_entry(id, note, actor, now)).add_reserved(reserve, net).add_pending(
            reserve,
            net,
        )
    }
}

/// A source wallet is recorded that is not empty.
pub open spec fn has_wallet(q: RequestView) -> bool {
    q.source_wallet matches Some(w) && w.len() > 0
}

/// The deposit was made on Robinhood.
pub open spec fn from_robinhood(d: Direction) -> bool {
    d.spec_source_reserve() == ReserveDirection::RobinhoodReserve
}

/// The line that a resume leaves.
pub open spec fn resumed_entry(id: i64, note: Seq<char>, actor: Seq<char>, now: i64) -> LogEntry {
    LogEntry {
        request_id: id,
        from_state: Some(RequestState::ManualReview),
        to_state: RequestState::SourceFinalized,
        at: now,
        reason: Some(note),
        actor,
    }
}

fn refusal_of_holds(q: &BridgeRequest) -> (r: Option<ReviewRefusal>)
    ensures
        r == hold_refusal(q@),
{
    if matches!(q.manual_review_disposition, ManualReviewDisposition::RapidBurstHold)
        && q.operator_decision.is_none() {
        Some(ReviewRefusal::RapidBurstHeld { review_after: q.review_after })
    } else if q.auto_resume_hold_note.is_some() {
        Some(ReviewRefusal::OperatorHeld { until: q.auto_resume_hold_until })
    } else if !matches!(q.manual_review_disposition, ManualReviewDisposition::Normal)
        && q.operator_decision.is_none() {
        Some(ReviewRefusal::HeldUndecided(q.manual_review_disposition))
    } else {
        None
    }
}

fn wallet_recorded(q: &BridgeRequest) -> (r: bool)
    ensures
        r == has_wallet(q@),
{
    match &q.source_wallet {
        Some(w) => w.len() > 0,
        None => false,
    }
}

fn note_recoverable(q: &BridgeRequest) -> (r: bool)
    ensures
        r == (q@.manual_review_note matches Some(n) && recoverable_reason(n)),
{
    match &q.manual_review_note {
        Some(n) => Ledger::is_recoverable_manual_review_reason(Some(n.as_str())),
        None => false,
    }
}

fn refuse<T>(id: i64, detail: ReviewRefusal) -> (r: Result<T, LedgerError>)
    ensures
        r == unrecoverable::<T>(id, detail),
{
    Err(LedgerError::ManualReviewNotRecoverable { id, detail })
}

/// The error for a wallet that has to wait; the source is tested first.
fn resume_wallet_windows(
    id: i64,
    q: &BridgeRequest,
    windows: RouteWalletEligibility,
) -> (r: Option<LedgerError>)
    ensures
        match r {
            Some(e) => window_error(id, q@, windows) == Some(e@),
            None => window_error(id, q@, windows) is None,
        },
{
    match windows.blocker() {
        Some((role, retry_after)) => Some(
            LedgerError::WalletWindowActive {
                request_id: id,
                role,
                chain: match role {
                    WalletRole::Source => q.direction.source_chain(),
                    WalletRole::Destination => q.direction.destination_chain(),
                },
                wallet: match role {
                    WalletRole::Source => match &q.source_wallet {
                        Some(w) => bytes_vec(w.as_slice()),
                        None => Vec::new(),
                    },
                    WalletRole::Destination => bytes_vec(q.recipient.as_slice()),
                },
                retry_after,
            },
        ),
        None => None,
    }
}

impl Ledger {
    /// Whether a Goldcoin payout is recorded for a request.
    pub(crate) fn has_payout(&self, id: i64) -> (r: bool)
        ensures
            r == any_row(self@.payouts, payout_for(id)),
    {
        any_where(
            &self.payouts,
            |p: &PayoutRow| -> (b: bool) ensures b == payout_for(id)(p@) { p.request_id == id },
            Ghost(payout_for(id)),
        )
    }

    /// Whether an operation of this kind is recorded for a request.
    pub(crate) fn has_rhn_tx(&self, id: i64, kind: RobinhoodTxKind) -> (r: bool)
        ensures
            r == any_row(self@.robinhood_txs, rhn_tx_for(id, kind)),
    {
        any_where(
            &self.robinhood_txs,
            |t: &RobinhoodTxRow| -> (b: bool) ensures b == rhn_tx_for(id, kind)(t@) {
                t.request_id == Some(id) && t.kind == kind
            },
            Ghost(rhn_tx_for(id, kind)),
        )
    }

    /// Where the Solana refund of a request stands in its table.
    pub(crate) fn find_solana_refund(&self, id: i64) -> (r: Option<usize>)
        ensures
            match r {
                Some(i) => {
                    &&& i < self.solana_refunds@.len()
                    &&& first_row(self@.solana_refunds, sol_refund_for(id)) == Some(i as int)
                    &&& self@.solana_refunds[i as int] == self.solana_refunds@[i as int]@
                },
                None => first_row(self@.solana_refunds, sol_refund_for(id)) is None,
            },
    {
        find_where(
            &self.solana_refunds,
            |x: &SolanaRefund| -> (b: bool) ensures b == sol_refund_for(id)(x@) {
                x.request_id == id
            },
            Ghost(sol_refund_for(id)),
        )
    }

    fn refund_begun(&self, id: i64, robinhood: bool) -> (r: Option<LedgerError>)
        ensures
            r == self@.refund_error(id, robinhood),
    {
        if robinhood {
            match find_where(
                &self.robinhood_txs,
                |t: &RobinhoodTxRow| -> (b: bool)
                    ensures b == rhn_tx_for(id, RobinhoodTxKind::Refund)(t@) {
                    t.request_id == Some(id) && t.kind == RobinhoodTxKind::Refund
                },
                Ghost(rhn_tx_for(id, RobinhoodTxKind::Refund)),
            ) {
                Some(i) => Some(
                    LedgerError::RefundLifecycleExists {
                        id,
                        refund_state: self.robinhood_txs[i].state.as_str(),
                    },
                ),
                None => None,
            }
        } else {
            match self.find_solana_refund(id) {
                Some(i) => Some(
                    LedgerError::RefundLifecycleExists {
                        id,
                        refund_state: self.solana_refunds[i].state.as_str(),
                    },
                ),
                None => None,
            }
        }
    }

    fn state_when_not_parked(&self, id: i64, state: RequestState) -> (r: Result<
        ResumeManualReviewOutcome,
        LedgerError,
    >)
        ensures
            r == self@.not_parked(id, state),
    {
        if any_where(
            &self.state_log,
            |e: &StateLogRow| -> (b: bool) ensures b == resume_line(id)(e@) {
                e.request_id == id && e.from_state == Some(RequestState::ManualReview)
                    && e.to_state == RequestState::SourceFinalized
            },
            Ghost(resume_line(id)),
        ) {
            Ok(ResumeManualReviewOutcome::AlreadyResumed { state })
        } else {
            refuse(id, ReviewRefusal::NotManualReview(state))
        }
    }

    fn capacity_refusal(&self, id: i64, d: ReserveDirection, row: ReserveRow, net: i64) -> (r:
        Option<LedgerError>)
        ensures
            r == self@.capacity_error(id, d, row, net),
    {
        let available: i64 = match row.headroom_checked() {
            Some(h) => h,
            None => {
                return Some(LedgerError::AmountOutOfRange);
            },
        };
        if net > available {
            return match crate::table::add_checked(row.reserved_liquidity, net) {
                Some(n) => Some(
                    LedgerError::InvariantViolated {
                        direction: d,
                        balance: row.total_reserve_balance,
                        protected_minimum: row.protected_minimum,
                        reserved_liquidity: n,
                    },
                ),
                None => Some(LedgerError::AmountOutOfRange),
            };
        }
        if row.admission_buffer_atomic > 0 && (available as i128 - net as i128)
            < row.admission_buffer_atomic as i128 {
            return Some(
                LedgerError::AdmissionLiquidityBufferLow {
                    request_id: id,
                    headroom: available,
                    net_destination_atomic: net,
                    buffer_atomic: row.admission_buffer_atomic,
                },
            );
        }
        if !(self.reserved_would_fit(d, net) && self.pending_would_fit(d, net)) {
            return Some(LedgerError::AmountOutOfRange);
        }
        None
    }

    fn decide_resume_inbound(
        &self,
        expected: Direction,
        id: i64,
        windows: RouteWalletEligibility,
    ) -> (r: Result<ResumeManualReviewOutcome, LedgerError>)
        ensures
            seen(r) == self@.resume_inbound(expected, id, windows),
    {
        let i = match self.find_request(id) {
            Some(i) => i,
            None => {
                return Err(LedgerError::RequestNotFound(id));
            },
        };
        let q = &self.requests[i];
        match refusal_of_holds(q) {
            Some(detail) => {
                return refuse(id, detail);
            },
            None => {},
        }
        let from_rhn = matches!(expected, Direction::RhnToGlc);
        if q.direction != expected {
            return if from_rhn {
                Err(LedgerError::NotARhnToGlcRequest { id, actual_direction: q.direction })
            } else {
                Err(LedgerError::NotASolToGlcRequest { id, actual_direction: q.direction })
            };
        }
        match self.refund_begun(id, from_rhn) {
            Some(e) => {
                return Err(e);
            },
            None => {},
        }
        if !wallet_recorded(q) {
            return refuse(id, ReviewRefusal::NoSourceWallet(q.direction));
        }
        if !matches!(q.state, RequestState::ManualReview) {
            return self.state_when_not_parked(id, q.state);
        }
        if !note_recoverable(q) {
            return refuse(id, ReviewRefusal::ReasonNotRecoverable);
        }
        if q.source_finalized_at.is_none() {
            return refuse(id, ReviewRefusal::SourceNotFinalized);
        }
        if q.destination_txid.is_some() {
            return refuse(id, ReviewRefusal::DestinationTransactionExists);
        }
        if self.has_payout(id) {
            return refuse(id, ReviewRefusal::PayoutExists);
        }
        match resume_wallet_windows(id, q, windows) {
            Some(e) => {
                return Err(e);
            },
            None => {},
        }
        let row = match self.reserves.get(ReserveDirection::GoldcoinReserve) {
            Some(row) => row,
            None => {
                return Err(LedgerError::NoSuchRow);
            },
        };
        let count: i64 = self.count_available_vault_utxos();
        let floor: i64 = row.utxo_pool_min_available_count as i64;
        if !(floor == 0 || count > floor) {
            return Err(
                LedgerError::UtxoLiquidityLow {
                    request_id: id,
                    available_utxo_count: count,
                    min_available_count: floor,
                },
            );
        }
        match self.capacity_refusal(
            id,
            ReserveDirection::GoldcoinReserve,
            row,
            q.net_destination_atomic,
        ) {
            Some(e) => Err(e),
            None => Ok(ResumeManualReviewOutcome::Resumed),
        }
    }

    /// Resumes a deposit for Goldcoin in the direction that is expected. What
    /// the wallet check found is given.
    pub fn resume_manual_review_inbound(
        &mut self,
        expected_direction: Direction,
        request_id: i64,
        windows: RouteWalletEligibility,
        note: &str,
        actor: &str,
        now: i64,
    ) -> (r: Result<ResumeManualReviewOutcome, LedgerError>)
        requires
            expected_direction.spec_destination_reserve() == ReserveDirection::GoldcoinReserve,
        ensures
            seen(r) == old(self)@.resume_inbound(expected_direction, request_id, windows),
            final(self)@ == (if r matches Ok(ResumeManualReviewOutcome::Resumed) {
                old(self)@.resumed_inbound(request_id, note@, actor@, now)
            } else {
                old(self)@
            }),
    {
        match self.decide_resume_inbound(expected_direction, request_id, windows) {
            Ok(ResumeManualReviewOutcome::Resumed) => {},
            other => {
                return other;
            },
        }
        match self.find_request(request_id) {
            Some(i) => {
                let net: i64 = self.requests[i].net_destination_atomic;
                let ghost l0 = self@;
                self.requests[i].state = RequestState::SourceFinalized;
                self.requests[i].manual_review_note = None;
                proof {
                    assert(self@.requests =~= l0.requests.update(
                        i as int,
                        RequestView {
                            state: RequestState::SourceFinalized,
                            manual_review_note: None,
                            ..l0.requests[i as int]
                        },
                    ));
                }
                self.log_transition(
                    request_id,
                    Some(RequestState::ManualReview),
                    RequestState::SourceFinalized,
                    now,
                    Some(note),
                    actor,
                );
                self.add_reserved(ReserveDirection::GoldcoinReserve, net);
                self.add_pending(ReserveDirection::GoldcoinReserve, net);
            },
            None => {},
        }
        Ok(ResumeManualReviewOutcome::Resumed)
    }

    /// Resumes a Solana deposit for Goldcoin.
    pub fn resume_manual_review_sol_to_glc(
        &mut self,
        request_id: i64,
        windows: RouteWalletEligibility,
        note: &str,
        actor: &str,
        now: i64,
    ) -> (r: Result<ResumeManualReviewOutcome, LedgerError>)
        ensures
            seen(r) == old(self)@.resume_inbound(Direction::SolToGlc, request_id, windows),
            final(self)@ == (if r matches Ok(ResumeManualReviewOutcome::Resumed) {
                old(self)@.resumed_inbound(request_id, note@, actor@, now)
            } else {
                old(self)@
            }),
    {
        self.resume_manual_review_inbound(
            Direction::SolToGlc,
            request_id,
            windows,
            note,
            actor,
            now,
        )
    }

    /// Resumes a Robinhood deposit for Goldcoin.
    pub fn resume_manual_review_rhn_to_glc(
        &mut self,
        request_id: i64,
        windows: RouteWalletEligibility,
        note: &str,
        actor: &str,
        now: i64,
    ) -> (r: Result<ResumeManualReviewOutcome, LedgerError>)
        ensures
            seen(r) == old(self)@.resume_inbound(Direction::RhnToGlc, request_id, windows),
            final(self)@ == (if r matches Ok(ResumeManualReviewOutcome::Resumed) {
                old(self)@.resumed_inbound(request_id, note@, actor@, now)
            } else {
                old(self)@
            }),
    {
        self.resume_manual_review_inbound(
            Direction::RhnToGlc,
            request_id,
            windows,
            note,
            actor,
            now,
        )
    }

    /// What would come of resuming a Solana deposit for Goldcoin. Nothing
    /// changes. A refusal is told in words; the caller says how a wallet that
    /// has to wait is named.
    pub fn dry_run_resume_manual_review(
        &self,
        request_id: i64,
        windows: RouteWalletEligibility,
        source_wallet: &str,
        destination_wallet: &str,
    ) -> (r: ResumeDryRunOutcome)
        ensures
            match self@.resume_inbound(Direction::SolToGlc, request_id, windows) {
                Ok(ResumeManualReviewOutcome::Resumed) => r == ResumeDryRunOutcome::WouldResume,
                Ok(ResumeManualReviewOutcome::AlreadyResumed { state }) => r
                    == (ResumeDryRunOutcome::AlreadyResumed { state }),
                Err(e) => r matches ResumeDryRunOutcome::WouldRefuse { reason } && reason@
                    == refused_resume_text(
                    e,
                    Direction::SolToGlc,
                    self@.request(request_id),
                    source_wallet@,
                    destination_wallet@,
                ),
            },
    {
        match self.decide_resume_inbound(Direction::SolToGlc, request_id, windows) {
            Ok(ResumeManualReviewOutcome::Resumed) => ResumeDryRunOutcome::WouldResume,
            Ok(ResumeManualReviewOutcome::AlreadyResumed { state }) =>
                ResumeDryRunOutcome::AlreadyResumed { state },
            Err(e) => {
                let q = match self.find_request(request_id) {
                    Some(i) => Some(&self.requests[i]),
                    None => None,
                };
                ResumeDryRunOutcome::WouldRefuse {
                    reason: refused_resume_words(
                        &e,
                        Direction::SolToGlc,
                        q,
                        source_wallet,
                        destination_wallet,
                    ),
                }
            },
        }
    }

    fn decide_resume_cross(
        &self,
        expected: Direction,
        id: i64,
        windows: RouteWalletEligibility,
    ) -> (r: Result<ResumeManualReviewOutcome, LedgerError>)
        ensures
            seen(r) == self@.resume_cross(expected, id, windows),
    {
        let i = match self.find_request(id) {
            Some(i) => i,
            None => {
                return Err(LedgerError::RequestNotFound(id));
            },
        };
        let q = &self.requests[i];
        match refusal_of_holds(q) {
            Some(detail) => {
                return refuse(id, detail);
            },
            None => {},
        }
        if q.direction != expected {
            return refuse(id, ReviewRefusal::WrongDirection { actual: q.direction, expected });
        }
        if !wallet_recorded(q) {
            return refuse(id, ReviewRefusal::NoSourceWallet(q.direction));
        }
        match self.refund_begun(id, q.direction.source_is_robinhood()) {
            Some(e) => {
                return Err(e);
            },
            None => {},
        }
        if !matches!(q.state, RequestState::ManualReview) {
            return self.state_when_not_parked(id, q.state);
        }
        if !note_recoverable(q) {
            return refuse(id, ReviewRefusal::ReasonNotRecoverable);
        }
        if q.source_finalized_at.is_none() {
            return refuse(id, ReviewRefusal::SourceNotFinalized);
        }
        if q.destination_txid.is_some() || self.has_rhn_tx(id, RobinhoodTxKind::Payout) {
            return refuse(id, ReviewRefusal::PayoutExists);
        }
        if q.net_destination_atomic <= 0 {
            return refuse(id, ReviewRefusal::NoDestinationAmount);
        }
        match resume_wallet_windows(id, q, windows) {
            Some(e) => {
                return Err(e);
            },
            None => {},
        }
        let reserve = q.direction.destination_reserve();
        let row = match self.reserves.get(reserve) {
            Some(row) => row,
            None => {
                return Err(LedgerError::ReserveNotInitialized(reserve));
            },
        };
        match self.capacity_refusal(id, reserve, row, q.net_destination_atomic) {
            Some(e) => Err(e),
            None => Ok(ResumeManualReviewOutcome::Resumed),
        }
    }

    /// Resumes a deposit between Solana and Robinhood in the direction that is
    /// expected.
    pub fn resume_manual_review_cross_route(
        &mut self,
        expected_direction: Direction,
        request_id: i64,
        windows: RouteWalletEligibility,
        note: &str,
        actor: &str,
        now: i64,
    ) -> (r: Result<ResumeManualReviewOutcome, LedgerError>)
        requires
            expected_direction == Direction::SolToRhn || expected_direction == Direction::RhnToSol,
        ensures
            seen(r) == old(self)@.resume_cross(expected_direction, request_id, windows),
            final(self)@ == (if r matches Ok(ResumeManualReviewOutcome::Resumed) {
                old(self)@.resumed_cross(request_id, note@, actor@, now)
            } else {
                old(self)@
            }),
    {
        match self.decide_resume_cross(expected_direction, request_id, windows) {
            Ok(ResumeManualReviewOutcome::Resumed) => {},
            other => {
                return other;
            },
        }
        match self.find_request(request_id) {
            Some(i) => {
                let net: i64 = self.requests[i].net_destination_atomic;
                let reserve = self.requests[i].direction.destination_reserve();
                self.write_next_gate(reserve, now);
                let ghost l0 = self@;
                self.requests[i].state = RequestState::SourceFinalized;
                self.requests[i].reserved_at = Some(now);
                proof {
                    assert(self@.requests =~= l0.requests.update(
                        i as int,
                        RequestView {
                            state: RequestState::SourceFinalized,
                            reserved_at: Some(now),
                            ..l0.requests[i as int]
                        },
                    ));
                }
                self.log_transition(
                    request_id,
                    Some(RequestState::ManualReview),
                    RequestState::SourceFinalized,
                    now,
                    Some(note),
                    actor,
                );
                self.add_reserved(reserve, net);
                self.add_pending(reserve, net);
            },
            None => {},
        }
        Ok(ResumeManualReviewOutcome::Resumed)
    }
}

/// A request that has a refund is never resumed.
pub proof fn law_refunded_request_never_resumes(
    l: LedgerView,
    expected: Direction,
    id: i64,
    windows: RouteWalletEligibility,
)
    requires
        l.refund_error(id, from_robinhood(expected)) is Some,
    ensures
        expected.spec_destination_reserve() == ReserveDirection::GoldcoinReserve ==> (
        l.resume_inbound(expected, id, windows) is Err),
        expected.spec_destination_reserve() != ReserveDirection::GoldcoinReserve ==> (
        l.resume_cross(expected, id, windows) is Err),
{
}

/// A request under a hold that is not decided is never resumed.
pub proof fn law_undecided_hold_never_resumes(
    l: LedgerView,
    expected: Direction,
    id: i64,
    windows: RouteWalletEligibility,
)
    requires
        l.request(id) matches Some(q) && q.operator_decision is None && (
        q.manual_review_disposition != ManualReviewDisposition::Normal
            || q.auto_resume_hold_note is Some),
    ensures
        l.resume_inbound(expected, id, windows) is Err,
        l.resume_cross(expected, id, windows) is Err,
{
}

/// Resuming keeps every reserve solvent.
pub proof fn law_resume_keeps_solvency(
    l: LedgerView,
    expected: Direction,
    id: i64,
    windows: RouteWalletEligibility,
    note: Seq<char>,
    actor: Seq<char>,
    now: i64,
)
    requires
        l.solvent(),
    ensures
        l.resume_inbound(expected, id, windows) == Ok::<ResumeManualReviewOutcome, LedgerErrorView>(
            ResumeManualReviewOutcome::Resumed,
        ) ==> l.resumed_inbound(id, note, actor, now).solvent(),
        l.resume_cross(expected, id, windows) == Ok::<ResumeManualReviewOutcome, LedgerErrorView>(
            ResumeManualReviewOutcome::Resumed,
        ) ==> l.resumed_cross(id, note, actor, now).solvent(),
{
    let m = l.resumed_inbound(id, note, actor, now);
    if l.resume_inbound(expected, id, windows) == Ok::<ResumeManualReviewOutcome, LedgerErrorView>(
        ResumeManualReviewOutcome::Resumed,
    ) {
        assert forall|r: ReserveDirection| (#[trigger] m.reserves.row(r)) is Some implies m.reserves.row(
            r,
        ).unwrap().solvent() by {
            assert(l.reserves.row(r) is Some && l.reserves.row(r).unwrap().solvent());
        }
    }
    let c = l.resumed_cross(id, note, actor, now);
    if l.resume_cross(expected, id, windows) == Ok::<ResumeManualReviewOutcome, LedgerErrorView>(
        ResumeManualReviewOutcome::Resumed,
    ) {
        assert forall|r: ReserveDirection| (#[trigger] c.reserves.row(r)) is Some implies c.reserves.row(
            r,
        ).unwrap().solvent() by {
            assert(l.reserves.row(r) is Some && l.reserves.row(r).unwrap().solvent());
        }
    }
}

/// A deposit for Goldcoin that was resumed is found resumed, and resuming it
/// again changes nothing.
pub proof fn law_resume_is_done_once(
    l: LedgerView,
    expected: Direction,
    id: i64,
    windows: RouteWalletEligibility,
    again: RouteWalletEligibility,
    note: Seq<char>,
    actor: Seq<char>,
    now: i64,
)
    requires
        l.resume_inbound(expected, id, windows) == Ok::<ResumeManualReviewOutcome, LedgerErrorView>(
            ResumeManualReviewOutcome::Resumed,
        ),
    ensures
        l.resumed_inbound(id, note, actor, now).resume_inbound(expected, id, again) == Ok::<
            ResumeManualReviewOutcome,
            LedgerErrorView,
        >(ResumeManualReviewOutcome::AlreadyResumed { state: RequestState::SourceFinalized }),
{
    let q = l.request(id).unwrap();
    let row = RequestView {
        state: RequestState::SourceFinalized,
        manual_review_note: None,
        ..q
    };
    let m = l.resumed_inbound(id, note, actor, now);
    crate::ledger::lemma_request_id(l, id);
    lemma_with_request(l, id, row);
    assert(m.requests == l.with_request(id, row).requests);
    assert(m.request(id) == Some(row));
    let k = l.state_log.len() as int;
    assert(m.state_log == l.state_log.push(resumed_entry(id, note, actor, now)));
    assert(resume_line(id)(m.state_log[k]));
    assert(any_row(m.state_log, resume_line(id)));
}

/// A deposit between Solana and Robinhood that was resumed is found resumed,
/// and resuming it again changes nothing.
pub proof fn law_cross_resume_is_done_once(
    l: LedgerView,
    expected: Direction,
    id: i64,
    windows: RouteWalletEligibility,
    again: RouteWalletEligibility,
    note: Seq<char>,
    actor: Seq<char>,
    now: i64,
)
    requires
        l.resume_cross(expected, id, windows) == Ok::<ResumeManualReviewOutcome, LedgerErrorView>(
            ResumeManualReviewOutcome::Resumed,
        ),
    ensures
        l.resumed_cross(id, note, actor, now).resume_cross(expected, id, again) == Ok::<
            ResumeManualReviewOutcome,
            LedgerErrorView,
        >(ResumeManualReviewOutcome::AlreadyResumed { state: RequestState::SourceFinalized }),
{
    let q = l.request(id).unwrap();
    let row = RequestView {
        state: RequestState::SourceFinalized,
        reserved_at: Some(now),
        ..q
    };
    let m = l.resumed_cross(id, note, actor, now);
    crate::ledger::lemma_request_id(l, id);
    lemma_with_request(l, id, row);
    assert(m.requests == l.with_request(id, row).requests);
    assert(m.request(id) == Some(row));
    let k = l.state_log.len() as int;
    assert(m.state_log == l.state_log.push(resumed_entry(id, note, actor, now)));
    assert(resume_line(id)(m.state_log[k]));
    assert(any_row(m.state_log, resume_line(id)));
}

} // verus!
