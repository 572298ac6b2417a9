//! Everything that the ledger refuses, and why.
use vstd::prelude::*;
use crate::types::{
    Chain, CustodyTransitionState, Direction, GoldcoinRefundState, ManualReviewDisposition,
    OperatorDecision, RebalanceState, RequestState, ReserveDirection, RobinhoodTxState, Route,
    SolanaRefundState, SplitState, VaultUtxoState, WalletRole,
};

verus! {

/// Why a parked request is not resumed, held, released or decided.
#[derive(Clone, Copy, Debug, PartialEq, Eq)]
pub enum ReviewRefusal {
    /// The request runs in another direction than the one asked for.
    WrongDirection { actual: Direction, expected: Direction },
    /// No source wallet is recorded, so its window cannot be tested.
    NoSourceWallet(Direction),
    /// The request is not parked.
    NotManualReview(RequestState),
    /// The note is none from which a request may resume.
    ReasonNotRecoverable,
    /// The deposit is not final.
    SourceNotFinalized,
    /// A destination transaction is recorded.
    DestinationTransactionExists,
    /// A destination payout is recorded.
    PayoutExists,
    /// Nothing would be paid out.
    NoDestinationAmount,
    /// A burst hold waits for an operator's decision.
    RapidBurstHeld { review_after: Option<i64> },
    /// An operator holds the request.
    OperatorHeld { until: Option<i64> },
    /// A hold without a decision.
    HeldUndecided(ManualReviewDisposition),
    /// A hold, a release or a decision needs a note.
    EmptyNote,
    /// A burst hold is not replaced by an operator hold.
    RapidBurstNotReplaced,
    /// A burst hold ends with a decision only.
    RapidBurstNotReleasable,
    /// A release is no decision.
    ReleaseIsNoDecision,
    /// Only a refund is brought forward in an emergency.
    EmergencyIsForRefunds,
    /// Only a held request is decided.
    NotHeld(ManualReviewDisposition),
    /// A refund has begun.
    RefundBegun,
    /// The minimum hold has not elapsed.
    ReviewNotElapsed { review_after: Option<i64>, now: i64 },
    /// A Goldcoin deposit is refunded, never admitted again.
    NoResumePath(Direction),
}

/// Why a held request is not refunded.
#[derive(Clone, Copy, Debug, PartialEq, Eq, Structural)]
pub enum HoldBlocker {
    /// The operator decided something else.
    DecidedOtherwise { disposition: ManualReviewDisposition, decision: OperatorDecision },
    /// The operator has not decided.
    Undecided { disposition: ManualReviewDisposition, review_after: Option<i64> },
}

/// Why a Solana deposit is not refunded.
#[derive(Clone, Copy, Debug, PartialEq, Eq)]
pub enum RefundRefusal {
    IdNotPositive,
    LifecycleExists(SolanaRefundState),
    NotSolanaSourced(Direction),
    NotManualReview(RequestState),
    ReasonNotRefundable,
    SourceNotFinalized,
    NoObligationIndex,
    NoRequester,
    DestinationTransactionExists,
    Settled,
    PayoutExists,
    AdvancedBefore,
    Held(HoldBlocker),
    ObligationIndexDiffers { stored: i64, verified: u64 },
    RequesterDiffers,
    GrossDiffers { stored: i64, verified: u64 },
}

/// An outbound payment on Robinhood that stands against a refund.
#[derive(Clone, Copy, Debug, PartialEq, Eq, Structural)]
pub struct RobinhoodPayoutEvidence {
    pub tx_id: i64,
    pub state: RobinhoodTxState,
}

impl View for RobinhoodPayoutEvidence {
    type V = RobinhoodPayoutEvidence;

    open spec fn view(&self) -> RobinhoodPayoutEvidence {
        *self
    }
}

/// Why a Goldcoin deposit is not refunded.
#[allow(inconsistent_fields)]
#[derive(Clone, Copy, Debug, PartialEq, Eq)]
pub enum GlcRefundRefusal {
    EmptyNote,
    NoInputs,
    RequestNotFound,
    NotGoldcoinSourced(Direction),
    Held(HoldBlocker),
    NotManualReview(RequestState),
    ReasonNotRefundable,
    NoSourceOutpoint,
    PayoutExists,
    DestinationTransactionExists,
    SettlementClaimExists,
    SettlementBegun,
    RobinhoodPayoutBegun(RobinhoodPayoutEvidence),
    RefundExists(GoldcoinRefundState),
    AmountDiffers { observed: u64, recorded: i64 },
    InputNotAvailable { txid: [u8; 32], vout: u32 },
    TransactionDiffers { recorded: [u8; 32], broadcast: [u8; 32] },
}

/// What is wrong with a proposal to move value or keys.
#[derive(Clone, Copy, Debug, PartialEq, Eq, Structural)]
pub enum InvalidProposal {
    ZeroAmount,
    ZeroApprovals,
    EmptyReason,
    EmptyRequester,
    EmptyNote,
    EmptyTxReference,
    EmptyVerifier,
    NoNewIdentities,
    ThresholdDoesNotApply,
    EmptyFailureReason,
    EmptyRollbackReason,
}

/// A refused operation. A refusal leaves the ledger as it was.
#[allow(inconsistent_fields)]
#[derive(Debug, PartialEq, Eq)]
pub enum LedgerError {
    /// A row that the operation reads is not there.
    NoSuchRow,
    /// A stored amount would no longer be a 64-bit integer.
    AmountOutOfRange,
    /// The number of the next row would no longer be a 64-bit integer.
    NumbersExhausted,
    /// A value that may occur once only occurs already.
    NotUnique,
    AuditEntryIncomplete,
    ReserveNotInitialized(ReserveDirection),
    /// Operators do not switch this route.
    RouteNotOperatorSettable { route: Route, detail: &'static str },
    RouteStateNotInitialized(Route),
    /// This route has no admission of its own.
    RouteAdmissionNotSettable { route: Route, detail: &'static str },
    RouteAdmissionStateNotInitialized(Route),
    RequestNotFound(i64),
    InvariantViolated {
        direction: ReserveDirection,
        balance: i64,
        protected_minimum: i64,
        reserved_liquidity: i64,
    },
    VaultUtxoUnavailable { requested: usize, available: usize },
    PayoutAlreadyExists(i64),
    PayoutNotFound(i64),
    VaultUtxoReservationDrifted { request_id: i64, txid: [u8; 32], vout: u32 },
    CompletionNotSubmitted(i64),
    InvalidRebalanceRequest(InvalidProposal),
    RebalanceNotFound(i64),
    RebalanceWrongState { id: i64, expected: RebalanceState, actual: RebalanceState },
    InvalidCustodyTransition(InvalidProposal),
    CustodyTransitionNotFound(i64),
    CustodyTransitionWrongState {
        id: i64,
        expected: CustodyTransitionState,
        actual: CustodyTransitionState,
    },
    CustodyTransitionRequiresPause { id: i64, direction: ReserveDirection },
    NotAGoldcoinSourcedRequest { id: i64, actual_direction: Direction },
    /// Another deposit address is recorded for this request.
    DepositAddressAlreadySet { id: i64, existing: String, attempted: String },
    VaultUtxoNotFound { txid: [u8; 32], vout: u32 },
    VaultUtxoNotSplittable { txid: [u8; 32], vout: u32, state: VaultUtxoState },
    VaultUtxoAlreadySplit { txid: [u8; 32], vout: u32 },
    VaultUtxoSplitNotFound(i64),
    VaultUtxoSplitNotRecoverable { id: i64, state: SplitState },
    NotASolToGlcRequest { id: i64, actual_direction: Direction },
    NotARhnToGlcRequest { id: i64, actual_direction: Direction },
    ManualReviewNotRecoverable { id: i64, detail: ReviewRefusal },
    RefundNotEligible { id: i64, detail: RefundRefusal },
    /// A refund of this request has begun, on Solana or on Robinhood.
    RefundLifecycleExists { id: i64, refund_state: &'static str },
    RefundNotFound(i64),
    RefundWrongState { id: i64, expected: &'static str, actual: SolanaRefundState },
    GoldcoinRefundExists { id: i64, refund_state: GoldcoinRefundState },
    GoldcoinRefundNotFound(i64),
    GoldcoinRefundWrongState {
        id: i64,
        expected: GoldcoinRefundState,
        actual: GoldcoinRefundState,
    },
    GlcRefundNotEligible { id: i64, detail: GlcRefundRefusal },
    UtxoLiquidityLow { request_id: i64, available_utxo_count: i64, min_available_count: i64 },
    UtxoLiquidityLowForAdmission {
        direction: ReserveDirection,
        available_utxo_count: i64,
        min_available_count: i64,
        own_unconfirmed_change_atomic: u64,
    },
    AdmissionLiquidityBufferLow {
        request_id: i64,
        headroom: i64,
        net_destination_atomic: i64,
        buffer_atomic: i64,
    },
    LiquidityAdmissionClosedForAdmission {
        direction: ReserveDirection,
        headroom: i64,
        reopen_atomic: i64,
        own_unconfirmed_change_atomic: u64,
    },
    InvalidAdmissionThresholds {
        direction: ReserveDirection,
        buffer_atomic: u64,
        reopen_atomic: u64,
    },
    UnmatchedDepositNotFound { txid: [u8; 32], vout: u32 },
    UnmatchedDepositNotAKnownSplitOutput { txid: [u8; 32], vout: u32 },
    /// The wallet in `role` has to wait until `retry_after`.
    WalletWindowActive {
        request_id: i64,
        role: WalletRole,
        chain: Chain,
        wallet: Vec<u8>,
        retry_after: i64,
    },
}

/// The value of a [`LedgerError`].
pub enum LedgerErrorView {
    DepositAddressAlreadySet { id: i64, existing: Seq<char>, attempted: Seq<char> },
    WalletWindowActive {
        request_id: i64,
        role: WalletRole,
        chain: Chain,
        wallet: Seq<u8>,
        retry_after: i64,
    },
    /// Every error without a text or bytes of its own.
    Plain(LedgerError),
}

impl View for LedgerError {
    type V = LedgerErrorView;

    open spec fn view(&self) -> LedgerErrorView {
        match *self {
            LedgerError::DepositAddressAlreadySet { id, existing, attempted } =>
                LedgerErrorView::DepositAddressAlreadySet {
                    id,
                    existing: existing@,
                    attempted: attempted@,
                },
            LedgerError::WalletWindowActive { request_id, role, chain, wallet, retry_after } =>
                LedgerErrorView::WalletWindowActive {
                    request_id,
                    role,
                    chain,
                    wallet: wallet@,
                    retry_after,
                },
            e => LedgerErrorView::Plain(e),
        }
    }
}

/// A result with the value of its error.
pub open spec fn seen<T>(r: Result<T, LedgerError>) -> Result<T, LedgerErrorView> {
    match r {
        Ok(x) => Ok(x),
        Err(e) => Err(e@),
    }
}

} // verus!
