//! The closed vocabularies of the ledger: directions, states, reasons, errors.
use vstd::prelude::*;
use crate::table::text_eq;

verus! {

/// The reserve that a direction pays out of, or takes in.
#[derive(Clone, Copy, Debug, PartialEq, Eq, Structural)]
pub enum ReserveDirection {
    GoldcoinReserve,
    SolanaReserve,
    RobinhoodReserve,
}

/// The chain on which a wallet lives.
#[derive(Clone, Copy, Debug, PartialEq, Eq, Structural)]
pub enum Chain {
    Goldcoin,
    Solana,
    Robinhood,
}

/// The chain on which a request's deposit was made.
#[derive(Clone, Copy, Debug, PartialEq, Eq, Structural)]
pub enum SourceChain {
    Goldcoin,
    Solana,
    Robinhood,
}

/// A pair of chains, source first.
#[derive(Clone, Copy, Debug, PartialEq, Eq, Structural)]
pub enum Direction {
    GlcToSol,
    SolToGlc,
    GlcToRhn,
    RhnToGlc,
    SolToRhn,
    RhnToSol,
}

/// A public route; each is served by the direction of the same name.
#[derive(Clone, Copy, Debug, PartialEq, Eq, Structural)]
pub enum Route {
    GlcToSol,
    SolToGlc,
    GlcToRhn,
    RhnToGlc,
    SolToRhn,
    RhnToSol,
}

/// Where a request stands.
#[derive(Clone, Copy, Debug, PartialEq, Eq, Structural)]
pub enum RequestState {
    LiquidityReserved,
    AwaitingDeposit,
    DepositObserved,
    Confirming,
    SourceFinalized,
    SettlementAuthorized,
    DestinationSubmitted,
    DestinationConfirmed,
    Settled,
    Expired,
    Cancelled,
    Reorged,
    ManualReview,
    RefundPending,
    RefundBroadcast,
    Refunded,
    Failed,
    DestinationSubmissionFailed,
    InsufficientReserveAtSettlement,
}

/// Why a parked request is kept from resuming by itself.
#[derive(Clone, Copy, Debug, PartialEq, Eq, Structural)]
pub enum ManualReviewDisposition {
    Normal,
    OperatorHold,
    RapidBurstHold,
}

/// What an operator decided about a held request.
#[derive(Clone, Copy, Debug, PartialEq, Eq, Structural)]
pub enum OperatorDecision {
    Process,
    Refund,
    Release,
}

/// Where a Solana refund stands.
#[derive(Clone, Copy, Debug, PartialEq, Eq, Structural)]
pub enum SolanaRefundState {
    Pending,
    Broadcast,
    Confirmed,
}

/// Where a Goldcoin refund stands.
#[derive(Clone, Copy, Debug, PartialEq, Eq, Structural)]
pub enum GoldcoinRefundState {
    Built,
    Signed,
    Broadcast,
    Refunded,
}

/// Where a vault output stands.
#[derive(Clone, Copy, Debug, PartialEq, Eq, Structural)]
pub enum VaultUtxoState {
    Unconfirmed,
    Available,
    Reserved,
    Spent,
}

/// Where a vault split stands.
#[derive(Clone, Copy, Debug, PartialEq, Eq, Structural)]
pub enum SplitState {
    Built,
    Signed,
    Broadcast,
    Confirmed,
    Abandoned,
}

/// Where a Goldcoin payout stands.
#[derive(Clone, Copy, Debug, PartialEq, Eq, Structural)]
pub enum PayoutState {
    Built,
    Signed,
    Broadcast,
    Confirmed,
    Completed,
}

/// What an outbound operation on Robinhood is for.
#[derive(Clone, Copy, Debug, PartialEq, Eq, Structural)]
pub enum RobinhoodTxKind {
    Payout,
    Settlement,
    Refund,
    TreasuryWithdraw,
}

/// Where an outbound operation on Robinhood stands.
#[derive(Clone, Copy, Debug, PartialEq, Eq, Structural)]
pub enum RobinhoodTxState {
    Authorizing,
    Authorized,
    Signed,
    Broadcast,
    Included,
    Finalized,
    Reverted,
    ManualReview,
}

/// Whether a rebalance adds to a reserve or takes from it.
#[derive(Clone, Copy, Debug, PartialEq, Eq, Structural)]
pub enum RebalanceKind {
    Deposit,
    Withdraw,
}

/// Where a rebalance stands.
#[derive(Clone, Copy, Debug, PartialEq, Eq, Structural)]
pub enum RebalanceState {
    Proposed,
    Approved,
    Rejected,
    Cancelled,
    Executed,
    Confirmed,
    Failed,
}

/// Which keys a custody transition changes.
#[derive(Clone, Copy, Debug, PartialEq, Eq, Structural)]
pub enum CustodyTransitionKind {
    GoldcoinVaultSweep,
    AttestationKeyRotation,
}

/// Where a custody transition stands.
#[derive(Clone, Copy, Debug, PartialEq, Eq, Structural)]
pub enum CustodyTransitionState {
    Proposed,
    IdentityVerified,
    Approved,
    Rejected,
    Cancelled,
    Executed,
    Confirmed,
    Failed,
    RolledBack,
}

impl RebalanceState {
    /// Something is still to happen.
    pub open spec fn spec_open(self) -> bool {
        self == RebalanceState::Proposed || self == RebalanceState::Approved || self
            == RebalanceState::Executed
    }

    /// Whether something is still to happen.
    pub fn is_open(self) -> (r: bool)
        ensures
            r == self.spec_open(),
    {
        matches!(self, RebalanceState::Proposed | RebalanceState::Approved | RebalanceState::Executed)
    }
}

impl CustodyTransitionState {
    /// Something is still to happen.
    pub open spec fn spec_open(self) -> bool {
        self == CustodyTransitionState::Proposed || self
            == CustodyTransitionState::IdentityVerified || self == CustodyTransitionState::Approved
            || self == CustodyTransitionState::Executed
    }

    /// Whether something is still to happen.
    pub fn is_open(self) -> (r: bool)
        ensures
            r == self.spec_open(),
    {
        matches!(
            self,
            CustodyTransitionState::Proposed | CustodyTransitionState::IdentityVerified
                | CustodyTransitionState::Approved | CustodyTransitionState::Executed
        )
    }
}

/// Which side of a transfer a wallet stands on.
#[derive(Clone, Copy, Debug, PartialEq, Eq, Structural)]
pub enum WalletRole {
    Source,
    Destination,
}

/// Until when each wallet of a transfer has to wait, if at all.
#[derive(Clone, Copy, Debug, PartialEq, Eq, Structural)]
pub struct RouteWalletEligibility {
    pub source_retry_after: Option<i64>,
    pub destination_retry_after: Option<i64>,
}

impl RouteWalletEligibility {
    /// Neither wallet has to wait.
    pub open spec fn spec_eligible(self) -> bool {
        self.source_retry_after is None && self.destination_retry_after is None
    }

    /// The wallet that has to wait; the source is named first.
    pub open spec fn spec_blocker(self) -> Option<(WalletRole, i64)> {
        match self.source_retry_after {
            Some(t) => Some((WalletRole::Source, t)),
            None => match self.destination_retry_after {
                Some(t) => Some((WalletRole::Destination, t)),
                None => None,
            },
        }
    }

    /// Whether neither wallet has to wait.
    pub fn is_eligible(&self) -> (r: bool)
        ensures
            r == self.spec_eligible(),
    {
        self.source_retry_after.is_none() && self.destination_retry_after.is_none()
    }

    /// The wallet that has to wait, and until when.
    pub fn blocker(&self) -> (r: Option<(WalletRole, i64)>)
        ensures
            r == self.spec_blocker(),
            r is None <==> self.spec_eligible(),
    {
        match self.source_retry_after {
            Some(t) => Some((WalletRole::Source, t)),
            None => match self.destination_retry_after {
                Some(t) => Some((WalletRole::Destination, t)),
                None => None,
            },
        }
    }
}

/// The rule that a burst of requests broke.
#[derive(Clone, Copy, Debug, PartialEq, Eq, Structural)]
pub enum RapidBurstRule {
    SourceWallet,
    DestinationWallet,
}

impl RapidBurstRule {
    /// The reason recorded with a hold under this rule.
    pub open spec fn spec_hold_reason(self) -> Seq<char> {
        match self {
            RapidBurstRule::SourceWallet => "rapid_burst:source_wallet"@,
            RapidBurstRule::DestinationWallet => "rapid_burst:destination_wallet"@,
        }
    }

    /// The reason recorded with a hold under this rule.
    pub fn hold_reason(self) -> (r: &'static str)
        ensures
            r@ == self.spec_hold_reason(),
    {
        match self {
            RapidBurstRule::SourceWallet => "rapid_burst:source_wallet",
            RapidBurstRule::DestinationWallet => "rapid_burst:destination_wallet",
        }
    }
}

/// A burst that was recognised, and until when the request is to be held.
#[derive(Clone, Copy, Debug, PartialEq, Eq, Structural)]
pub struct RapidBurstMatch {
    pub rule: RapidBurstRule,
    pub review_after: i64,
}

/// The amounts of a request.
#[derive(Clone, Copy, Debug, PartialEq, Eq, Structural)]
pub struct RequestAmounts {
    pub gross_atomic: u64,
    pub fee_bps: u64,
    pub fee_atomic: u64,
    pub net_atomic: u64,
    pub net_destination_atomic: u64,
}

impl RequestAmounts {
    /// Every amount can be stored.
    pub open spec fn storable(self) -> bool {
        &&& self.gross_atomic <= i64::MAX
        &&& self.fee_bps <= i64::MAX
        &&& self.fee_atomic <= i64::MAX
        &&& self.net_atomic <= i64::MAX
        &&& self.net_destination_atomic <= i64::MAX
    }
}

impl Direction {
    /// The reserve that pays this direction out.
    pub open spec fn spec_destination_reserve(self) -> ReserveDirection {
        match self {
            Direction::SolToGlc | Direction::RhnToGlc => ReserveDirection::GoldcoinReserve,
            Direction::GlcToSol | Direction::RhnToSol => ReserveDirection::SolanaReserve,
            Direction::GlcToRhn | Direction::SolToRhn => ReserveDirection::RobinhoodReserve,
        }
    }

    /// The reserve that pays this direction out.
    pub fn destination_reserve(self) -> (r: ReserveDirection)
        ensures
            r == self.spec_destination_reserve(),
    {
        match self {
            Direction::SolToGlc | Direction::RhnToGlc => ReserveDirection::GoldcoinReserve,
            Direction::GlcToSol | Direction::RhnToSol => ReserveDirection::SolanaReserve,
            Direction::GlcToRhn | Direction::SolToRhn => ReserveDirection::RobinhoodReserve,
        }
    }

    /// The reserve that takes this direction's deposit in.
    pub open spec fn spec_source_reserve(self) -> ReserveDirection {
        match self {
            Direction::GlcToSol | Direction::GlcToRhn => ReserveDirection::GoldcoinReserve,
            Direction::SolToGlc | Direction::SolToRhn => ReserveDirection::SolanaReserve,
            Direction::RhnToGlc | Direction::RhnToSol => ReserveDirection::RobinhoodReserve,
        }
    }

    /// The reserve that takes this direction's deposit in.
    pub fn source_reserve(self) -> (r: ReserveDirection)
        ensures
            r == self.spec_source_reserve(),
    {
        match self {
            Direction::GlcToSol | Direction::GlcToRhn => ReserveDirection::GoldcoinReserve,
            Direction::SolToGlc | Direction::SolToRhn => ReserveDirection::SolanaReserve,
            Direction::RhnToGlc | Direction::RhnToSol => ReserveDirection::RobinhoodReserve,
        }
    }

    /// The deposit is made on Goldcoin.
    pub open spec fn spec_source_is_goldcoin(self) -> bool {
        self.spec_source_reserve() == ReserveDirection::GoldcoinReserve
    }

    /// Whether the deposit is made on Goldcoin.
    pub fn source_is_goldcoin(self) -> (r: bool)
        ensures
            r == self.spec_source_is_goldcoin(),
    {
        matches!(self, Direction::GlcToSol | Direction::GlcToRhn)
    }

    /// Whether the deposit is made on Solana.
    pub fn source_is_solana(self) -> (r: bool)
        ensures
            r == (self.spec_source_reserve() == ReserveDirection::SolanaReserve),
    {
        matches!(self, Direction::SolToGlc | Direction::SolToRhn)
    }

    /// Whether the deposit is made on Robinhood.
    pub fn source_is_robinhood(self) -> (r: bool)
        ensures
            r == (self.spec_source_reserve() == ReserveDirection::RobinhoodReserve),
    {
        matches!(self, Direction::RhnToGlc | Direction::RhnToSol)
    }

    /// The route that this direction serves.
    pub open spec fn spec_route(self) -> Route {
        match self {
            Direction::GlcToSol => Route::GlcToSol,
            Direction::SolToGlc => Route::SolToGlc,
            Direction::GlcToRhn => Route::GlcToRhn,
            Direction::RhnToGlc => Route::RhnToGlc,
            Direction::SolToRhn => Route::SolToRhn,
            Direction::RhnToSol => Route::RhnToSol,
        }
    }

    /// The route that this direction serves.
    pub fn route(self) -> (r: Route)
        ensures
            r == self.spec_route(),
    {
        match self {
            Direction::GlcToSol => Route::GlcToSol,
            Direction::SolToGlc => Route::SolToGlc,
            Direction::GlcToRhn => Route::GlcToRhn,
            Direction::RhnToGlc => Route::RhnToGlc,
            Direction::SolToRhn => Route::SolToRhn,
            Direction::RhnToSol => Route::RhnToSol,
        }
    }
}

impl Route {
    /// The two routes into Goldcoin are the ones whose own admission can be
    /// closed.
    pub open spec fn spec_admission_settable(self) -> bool {
        self == Route::SolToGlc || self == Route::RhnToGlc
    }

    /// Whether this route's own admission can be closed.
    pub fn is_admission_settable(self) -> (r: bool)
        ensures
            r == self.spec_admission_settable(),
    {
        matches!(self, Route::SolToGlc | Route::RhnToGlc)
    }

    /// The two routes between Goldcoin and Robinhood are the ones that an
    /// operator may enable.
    pub open spec fn spec_operator_settable(self) -> bool {
        self == Route::GlcToRhn || self == Route::RhnToGlc
    }

    /// Whether an operator may enable this route.
    pub fn is_operator_settable(self) -> (r: bool)
        ensures
            r == self.spec_operator_settable(),
    {
        matches!(self, Route::GlcToRhn | Route::RhnToGlc)
    }
}

impl WalletRole {
    /// The note of a request parked because this wallet has to wait.
    pub open spec fn spec_limit_reason(self) -> &'static str {
        match self {
            WalletRole::Source => "wallet_source_24h_limit",
            WalletRole::Destination => "wallet_destination_24h_limit",
        }
    }

    /// The note of a request parked because this wallet has to wait.
    pub fn limit_reason(self) -> (r: &'static str)
        ensures
            r == self.spec_limit_reason(),
    {
        match self {
            WalletRole::Source => "wallet_source_24h_limit",
            WalletRole::Destination => "wallet_destination_24h_limit",
        }
    }
}

impl Direction {
    /// The chain of the source wallet.
    pub open spec fn spec_source_chain(self) -> Chain {
        match self.spec_source_reserve() {
            ReserveDirection::GoldcoinReserve => Chain::Goldcoin,
            ReserveDirection::SolanaReserve => Chain::Solana,
            ReserveDirection::RobinhoodReserve => Chain::Robinhood,
        }
    }

    /// The chain of the source wallet.
    pub fn source_chain(self) -> (r: Chain)
        ensures
            r == self.spec_source_chain(),
    {
        match self.source_reserve() {
            ReserveDirection::GoldcoinReserve => Chain::Goldcoin,
            ReserveDirection::SolanaReserve => Chain::Solana,
            ReserveDirection::RobinhoodReserve => Chain::Robinhood,
        }
    }

    /// The chain of the destination wallet.
    pub open spec fn spec_destination_chain(self) -> Chain {
        match self.spec_destination_reserve() {
            ReserveDirection::GoldcoinReserve => Chain::Goldcoin,
            ReserveDirection::SolanaReserve => Chain::Solana,
            ReserveDirection::RobinhoodReserve => Chain::Robinhood,
        }
    }

    /// The chain of the destination wallet.
    pub fn destination_chain(self) -> (r: Chain)
        ensures
            r == self.spec_destination_chain(),
    {
        match self.destination_reserve() {
            ReserveDirection::GoldcoinReserve => Chain::Goldcoin,
            ReserveDirection::SolanaReserve => Chain::Solana,
            ReserveDirection::RobinhoodReserve => Chain::Robinhood,
        }
    }

    /// The two directions into Goldcoin leave the destination's books alone
    /// until the request is settled.
    pub open spec fn spec_debited_at_confirmation(self) -> bool {
        self.spec_destination_reserve() != ReserveDirection::GoldcoinReserve
    }

    /// Whether the destination's books are written once the destination is
    /// confirmed.
    pub fn destination_debited_at_destination_confirmed(self) -> (r: bool)
        ensures
            r == self.spec_debited_at_confirmation(),
    {
        !matches!(self.destination_reserve(), ReserveDirection::GoldcoinReserve)
    }

    /// Of the two directions into Solana, only the one from Goldcoin is done
    /// once the release is confirmed.
    pub open spec fn spec_settles_on_release(self) -> bool {
        self == Direction::GlcToSol
    }

    /// Whether a confirmed release settles the request.
    pub fn settles_on_release(self) -> (r: bool)
        ensures
            r == self.spec_settles_on_release(),
    {
        matches!(self, Direction::GlcToSol)
    }
}

impl Direction {
    /// The name under which a direction is stored.
    pub open spec fn spec_name(self) -> Seq<char> {
        match self {
            Direction::GlcToSol => "GlcToSol"@,
            Direction::SolToGlc => "SolToGlc"@,
            Direction::GlcToRhn => "GlcToRhn"@,
            Direction::RhnToGlc => "RhnToGlc"@,
            Direction::SolToRhn => "SolToRhn"@,
            Direction::RhnToSol => "RhnToSol"@,
        }
    }

    /// The name under which a direction is stored.
    pub fn as_str(self) -> (r: &'static str)
        ensures
            r@ == self.spec_name(),
    {
        match self {
            Direction::GlcToSol => "GlcToSol",
            Direction::SolToGlc => "SolToGlc",
            Direction::GlcToRhn => "GlcToRhn",
            Direction::RhnToGlc => "RhnToGlc",
            Direction::SolToRhn => "SolToRhn",
            Direction::RhnToSol => "RhnToSol",
        }
    }
}

impl RequestState {
    /// The name under which a state is stored.
    pub open spec fn spec_name(self) -> Seq<char> {
        match self {
            RequestState::LiquidityReserved => "LiquidityReserved"@,
            RequestState::AwaitingDeposit => "AwaitingDeposit"@,
            RequestState::DepositObserved => "DepositObserved"@,
            RequestState::Confirming => "Confirming"@,
            RequestState::SourceFinalized => "SourceFinalized"@,
            RequestState::SettlementAuthorized => "SettlementAuthorized"@,
            RequestState::DestinationSubmitted => "DestinationSubmitted"@,
            RequestState::DestinationConfirmed => "DestinationConfirmed"@,
            RequestState::Settled => "Settled"@,
            RequestState::Expired => "Expired"@,
            RequestState::Cancelled => "Cancelled"@,
            RequestState::Reorged => "Reorged"@,
            RequestState::ManualReview => "ManualReview"@,
            RequestState::RefundPending => "RefundPending"@,
            RequestState::RefundBroadcast => "RefundBroadcast"@,
            RequestState::Refunded => "Refunded"@,
            RequestState::Failed => "Failed"@,
            RequestState::DestinationSubmissionFailed => "DestinationSubmissionFailed"@,
            RequestState::InsufficientReserveAtSettlement => "InsufficientReserveAtSettlement"@,
        }
    }

    /// The name under which a state is stored.
    pub fn as_str(self) -> (r: &'static str)
        ensures
            r@ == self.spec_name(),
    {
        match self {
            RequestState::LiquidityReserved => "LiquidityReserved",
            RequestState::AwaitingDeposit => "AwaitingDeposit",
            RequestState::DepositObserved => "DepositObserved",
            RequestState::Confirming => "Confirming",
            RequestState::SourceFinalized => "SourceFinalized",
            RequestState::SettlementAuthorized => "SettlementAuthorized",
            RequestState::DestinationSubmitted => "DestinationSubmitted",
            RequestState::DestinationConfirmed => "DestinationConfirmed",
            RequestState::Settled => "Settled",
            RequestState::Expired => "Expired",
            RequestState::Cancelled => "Cancelled",
            RequestState::Reorged => "Reorged",
            RequestState::ManualReview => "ManualReview",
            RequestState::RefundPending => "RefundPending",
            RequestState::RefundBroadcast => "RefundBroadcast",
            RequestState::Refunded => "Refunded",
            RequestState::Failed => "Failed",
            RequestState::DestinationSubmissionFailed => "DestinationSubmissionFailed",
            RequestState::InsufficientReserveAtSettlement => "InsufficientReserveAtSettlement",
        }
    }
}

impl RobinhoodTxState {
    /// The name under which a state is stored.
    pub open spec fn spec_str(self) -> &'static str {
        match self {
            RobinhoodTxState::Authorizing => "Authorizing",
            RobinhoodTxState::Authorized => "Authorized",
            RobinhoodTxState::Signed => "Signed",
            RobinhoodTxState::Broadcast => "Broadcast",
            RobinhoodTxState::Included => "Included",
            RobinhoodTxState::Finalized => "Finalized",
            RobinhoodTxState::Reverted => "Reverted",
            RobinhoodTxState::ManualReview => "ManualReview",
        }
    }

    /// The name under which a state is stored.
    pub fn as_str(self) -> (r: &'static str)
        ensures
            r == self.spec_str(),
    {
        match self {
            RobinhoodTxState::Authorizing => "Authorizing",
            RobinhoodTxState::Authorized => "Authorized",
            RobinhoodTxState::Signed => "Signed",
            RobinhoodTxState::Broadcast => "Broadcast",
            RobinhoodTxState::Included => "Included",
            RobinhoodTxState::Finalized => "Finalized",
            RobinhoodTxState::Reverted => "Reverted",
            RobinhoodTxState::ManualReview => "ManualReview",
        }
    }
}

impl SolanaRefundState {
    /// The name under which a state is stored.
    pub open spec fn spec_str(self) -> &'static str {
        match self {
            SolanaRefundState::Pending => "Pending",
            SolanaRefundState::Broadcast => "Broadcast",
            SolanaRefundState::Confirmed => "Confirmed",
        }
    }

    /// The text of that name.
    pub open spec fn spec_name(self) -> Seq<char> {
        self.spec_str()@
    }

    /// The name under which a state is stored.
    pub fn as_str(self) -> (r: &'static str)
        ensures
            r == self.spec_str(),
    {
        match self {
            SolanaRefundState::Pending => "Pending",
            SolanaRefundState::Broadcast => "Broadcast",
            SolanaRefundState::Confirmed => "Confirmed",
        }
    }
}

impl GoldcoinRefundState {
    /// The name under which a state is stored.
    pub open spec fn spec_name(self) -> Seq<char> {
        match self {
            GoldcoinRefundState::Built => "Built"@,
            GoldcoinRefundState::Signed => "Signed"@,
            GoldcoinRefundState::Broadcast => "Broadcast"@,
            GoldcoinRefundState::Refunded => "Refunded"@,
        }
    }

    /// The name under which a state is stored.
    pub fn as_str(self) -> (r: &'static str)
        ensures
            r@ == self.spec_name(),
    {
        match self {
            GoldcoinRefundState::Built => "Built",
            GoldcoinRefundState::Signed => "Signed",
            GoldcoinRefundState::Broadcast => "Broadcast",
            GoldcoinRefundState::Refunded => "Refunded",
        }
    }

    /// The state that is stored under a name; another name has none.
    pub fn from_name(name: &str) -> (r: Option<GoldcoinRefundState>)
        ensures
            forall|s: GoldcoinRefundState| r == Some(s) <==> name@ == #[trigger] s.spec_name(),
    {
        proof {
            lemma_refund_names_differ();
            assert(GoldcoinRefundState::Built.spec_name() == "Built"@);
            assert(GoldcoinRefundState::Signed.spec_name() == "Signed"@);
            assert(GoldcoinRefundState::Broadcast.spec_name() == "Broadcast"@);
            assert(GoldcoinRefundState::Refunded.spec_name() == "Refunded"@);
        }
        if text_eq(name, "Built") {
            Some(GoldcoinRefundState::Built)
        } else if text_eq(name, "Signed") {
            Some(GoldcoinRefundState::Signed)
        } else if text_eq(name, "Broadcast") {
            Some(GoldcoinRefundState::Broadcast)
        } else if text_eq(name, "Refunded") {
            Some(GoldcoinRefundState::Refunded)
        } else {
            None
        }
    }
}

proof fn lemma_refund_names_differ()
    ensures
        forall|a: GoldcoinRefundState, b: GoldcoinRefundState|
            #[trigger] a.spec_name() == #[trigger] b.spec_name() ==> a == b,
{
    reveal_strlit("Built");
    reveal_strlit("Signed");
    reveal_strlit("Broadcast");
    reveal_strlit("Refunded");
    assert forall|a: GoldcoinRefundState, b: GoldcoinRefundState|
        #[trigger] a.spec_name() == #[trigger] b.spec_name() implies a == b by {
        assert(a.spec_name()[0] == b.spec_name()[0]);
        assert(a.spec_name().len() == b.spec_name().len());
    }
}

impl ManualReviewDisposition {
    /// The name under which a disposition is stored.
    pub open spec fn spec_name(self) -> Seq<char> {
        match self {
            ManualReviewDisposition::Normal => "normal"@,
            ManualReviewDisposition::OperatorHold => "operator_hold"@,
            ManualReviewDisposition::RapidBurstHold => "rapid_burst_hold"@,
        }
    }

    /// The name under which a disposition is stored.
    pub fn as_str(self) -> (r: &'static str)
        ensures
            r@ == self.spec_name(),
    {
        match self {
            ManualReviewDisposition::Normal => "normal",
            ManualReviewDisposition::OperatorHold => "operator_hold",
            ManualReviewDisposition::RapidBurstHold => "rapid_burst_hold",
        }
    }
}

impl OperatorDecision {
    /// The name under which a decision is stored.
    pub open spec fn spec_name(self) -> Seq<char> {
        match self {
            OperatorDecision::Process => "process"@,
            OperatorDecision::Refund => "refund"@,
            OperatorDecision::Release => "release"@,
        }
    }

    /// The name under which a decision is stored.
    pub fn as_str(self) -> (r: &'static str)
        ensures
            r@ == self.spec_name(),
    {
        match self {
            OperatorDecision::Process => "process",
            OperatorDecision::Refund => "refund",
            OperatorDecision::Release => "release",
        }
    }
}

} // verus!
