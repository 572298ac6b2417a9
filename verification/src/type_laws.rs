//! How directions, routes, chains and reserves belong together.
use vstd::prelude::*;
use crate::admission::InboundAdmissionBlocker;
use crate::reasons::{recoverable_reason, refundable_in};
use crate::types::{
    Chain, CustodyTransitionState, Direction, GoldcoinRefundState, ManualReviewDisposition,
    OperatorDecision, RapidBurstRule, RebalanceState, RequestState, ReserveDirection,
    RobinhoodTxState, Route, RouteWalletEligibility, SolanaRefundState, WalletRole,
};

verus! {

/// The short name of the chain that a reserve is kept on.
pub open spec fn short_name(d: ReserveDirection) -> Seq<char> {
    match d {
        ReserveDirection::GoldcoinReserve => "Glc"@,
        ReserveDirection::SolanaReserve => "Sol"@,
        ReserveDirection::RobinhoodReserve => "Rhn"@,
    }
}

/// A direction leads from one reserve's chain to another's, as its name says, and
/// is known by the two. Its chains are those of its reserves.
pub proof fn law_a_direction_is_named_by_its_two_ends(d: Direction, e: Direction)
    ensures
        d.spec_name() == short_name(d.spec_source_reserve()) + "To"@ + short_name(
            d.spec_destination_reserve(),
        ),
        d.spec_source_reserve() != d.spec_destination_reserve(),
        d.spec_source_reserve() == e.spec_source_reserve() && d.spec_destination_reserve()
            == e.spec_destination_reserve() ==> d == e,
        d.spec_route() == e.spec_route() ==> d == e,
        d.spec_source_is_goldcoin() <==> d == Direction::GlcToSol || d == Direction::GlcToRhn,
        d.spec_source_chain() == Chain::Goldcoin <==> d.spec_source_reserve()
            == ReserveDirection::GoldcoinReserve,
        d.spec_source_chain() == Chain::Solana <==> d.spec_source_reserve()
            == ReserveDirection::SolanaReserve,
        d.spec_destination_chain() == Chain::Goldcoin <==> d.spec_destination_reserve()
            == ReserveDirection::GoldcoinReserve,
        d.spec_destination_chain() == Chain::Solana <==> d.spec_destination_reserve()
            == ReserveDirection::SolanaReserve,
{
    reveal_strlit("Glc");
    reveal_strlit("Sol");
    reveal_strlit("Rhn");
    reveal_strlit("To");
    reveal_strlit("GlcToSol");
    reveal_strlit("SolToGlc");
    reveal_strlit("GlcToRhn");
    reveal_strlit("RhnToGlc");
    reveal_strlit("SolToRhn");
    reveal_strlit("RhnToSol");
    assert(d.spec_name() =~= short_name(d.spec_source_reserve()) + "To"@ + short_name(
        d.spec_destination_reserve(),
    ));
}

/// What is stored of a review, a burst and a refund is named by one word, the same for
/// every reader.
pub proof fn law_reviews_and_refunds_are_stored_by_their_names()
    ensures
        OperatorDecision::Process.spec_name() == "process"@,
        OperatorDecision::Refund.spec_name() == "refund"@,
        OperatorDecision::Release.spec_name() == "release"@,
        ManualReviewDisposition::Normal.spec_name() == "normal"@,
        ManualReviewDisposition::OperatorHold.spec_name() == "operator_hold"@,
        ManualReviewDisposition::RapidBurstHold.spec_name() == "rapid_burst_hold"@,
        RapidBurstRule::SourceWallet.spec_hold_reason() == "rapid_burst:source_wallet"@,
        RapidBurstRule::DestinationWallet.spec_hold_reason() == "rapid_burst:destination_wallet"@,
        SolanaRefundState::Pending.spec_name() == "Pending"@,
        SolanaRefundState::Broadcast.spec_name() == "Broadcast"@,
        SolanaRefundState::Confirmed.spec_name() == "Confirmed"@,
        GoldcoinRefundState::Built.spec_name() == "Built"@,
        GoldcoinRefundState::Signed.spec_name() == "Signed"@,
        GoldcoinRefundState::Broadcast.spec_name() == "Broadcast"@,
        GoldcoinRefundState::Refunded.spec_name() == "Refunded"@,
        RobinhoodTxState::Authorizing.spec_str() == "Authorizing",
        RobinhoodTxState::Authorized.spec_str() == "Authorized",
        RobinhoodTxState::Signed.spec_str() == "Signed",
        RobinhoodTxState::Broadcast.spec_str() == "Broadcast",
        RobinhoodTxState::Included.spec_str() == "Included",
        RobinhoodTxState::Finalized.spec_str() == "Finalized",
        RobinhoodTxState::Reverted.spec_str() == "Reverted",
        RobinhoodTxState::ManualReview.spec_str() == "ManualReview",
{
}

/// A state of a request is stored by the name it has here.
pub proof fn law_states_are_stored_by_their_names()
    ensures
        RequestState::LiquidityReserved.spec_name() == "LiquidityReserved"@,
        RequestState::AwaitingDeposit.spec_name() == "AwaitingDeposit"@,
        RequestState::DepositObserved.spec_name() == "DepositObserved"@,
        RequestState::Confirming.spec_name() == "Confirming"@,
        RequestState::SourceFinalized.spec_name() == "SourceFinalized"@,
        RequestState::SettlementAuthorized.spec_name() == "SettlementAuthorized"@,
        RequestState::DestinationSubmitted.spec_name() == "DestinationSubmitted"@,
        RequestState::DestinationConfirmed.spec_name() == "DestinationConfirmed"@,
        RequestState::Settled.spec_name() == "Settled"@,
        RequestState::Expired.spec_name() == "Expired"@,
        RequestState::Cancelled.spec_name() == "Cancelled"@,
        RequestState::Reorged.spec_name() == "Reorged"@,
        RequestState::ManualReview.spec_name() == "ManualReview"@,
        RequestState::RefundPending.spec_name() == "RefundPending"@,
        RequestState::RefundBroadcast.spec_name() == "RefundBroadcast"@,
        RequestState::Refunded.spec_name() == "Refunded"@,
        RequestState::Failed.spec_name() == "Failed"@,
        RequestState::DestinationSubmissionFailed.spec_name() == "DestinationSubmissionFailed"@,
        RequestState::InsufficientReserveAtSettlement.spec_name()
            == "InsufficientReserveAtSettlement"@,
{
}

/// The route of a direction has its ends: a route has an admission of its own
/// exactly where it leads to Goldcoin, and is switched by an operator exactly where
/// it joins Goldcoin and Robinhood. A payment into Goldcoin alone leaves the books
/// after its confirmation, and one from Goldcoin to Solana alone is settled by its
/// release.
pub proof fn law_routes_are_controlled_by_their_ends(d: Direction)
    ensures
        d.spec_route().spec_admission_settable() <==> d.spec_destination_reserve()
            == ReserveDirection::GoldcoinReserve,
        d.spec_route().spec_operator_settable() <==> d.spec_source_reserve()
            != ReserveDirection::SolanaReserve && d.spec_destination_reserve()
            != ReserveDirection::SolanaReserve,
        d.spec_debited_at_confirmation() <==> d.spec_destination_reserve()
            == ReserveDirection::SolanaReserve || d.spec_destination_reserve()
            == ReserveDirection::RobinhoodReserve,
        d.spec_settles_on_release() <==> d.spec_source_reserve()
            == ReserveDirection::GoldcoinReserve && d.spec_destination_reserve()
            == ReserveDirection::SolanaReserve,
        d.spec_route() == Route::GlcToSol <==> d == Direction::GlcToSol,
        d.spec_route() == Route::SolToGlc <==> d == Direction::SolToGlc,
        d.spec_route() == Route::GlcToRhn <==> d == Direction::GlcToRhn,
        d.spec_route() == Route::RhnToGlc <==> d == Direction::RhnToGlc,
        d.spec_route() == Route::SolToRhn <==> d == Direction::SolToRhn,
{
}

/// A transfer may go on exactly where neither wallet has to wait. Where one has
/// to, the source is named before the destination, with its own moment, and the two
/// are told apart.
pub proof fn law_a_waiting_wallet_is_named(e: RouteWalletEligibility)
    ensures
        e.spec_eligible() <==> e.spec_blocker() is None,
        e.spec_eligible() <==> e.source_retry_after is None && e.destination_retry_after is None,
        e.source_retry_after matches Some(t) ==> e.spec_blocker() == Some((WalletRole::Source, t)),
        e.source_retry_after is None ==> (e.destination_retry_after matches Some(t)
            ==> e.spec_blocker() == Some((WalletRole::Destination, t))),
        WalletRole::Source.spec_limit_reason()@ == "wallet_source_24h_limit"@,
        WalletRole::Destination.spec_limit_reason()@ == "wallet_destination_24h_limit"@,
{
}

/// A proposal is open until it was confirmed, failed, refused or called back.
pub proof fn law_what_is_not_closed_is_open(r: RebalanceState, c: CustodyTransitionState)
    ensures
        r.spec_open() <==> !(r == RebalanceState::Confirmed || r == RebalanceState::Failed || r
            == RebalanceState::Rejected || r == RebalanceState::Cancelled),
        c.spec_open() <==> !(c == CustodyTransitionState::Confirmed || c
            == CustodyTransitionState::Failed || c == CustodyTransitionState::Rejected || c
            == CustodyTransitionState::Cancelled || c == CustodyTransitionState::RolledBack),
{
}

/// A parked deposit may resume from each note that a fold's admission decision
/// writes, from the two older spellings of the wallet notes, from a burst hold, and
/// from no other.
pub proof fn law_only_admission_notes_and_bursts_resume(note: Seq<char>)
    ensures
        recoverable_reason(note) <==> note == "rapid_burst_hold"@ || note
            == "recipient_rate_limited"@ || note == "source_wallet_rate_limited"@ || exists|
            b: InboundAdmissionBlocker,
        | note == #[trigger] b.spec_note(),
{
    let route = InboundAdmissionBlocker::RouteAdmissionClosed;
    let closed = InboundAdmissionBlocker::AdmissionClosed;
    let paused = InboundAdmissionBlocker::ReservePaused;
    let source = InboundAdmissionBlocker::SourceWalletRateLimited;
    let recipient = InboundAdmissionBlocker::RecipientRateLimited;
    let utxo = InboundAdmissionBlocker::UtxoLiquidityLow;
    let buffer = InboundAdmissionBlocker::LiquidityBufferLow;
    let capacity = InboundAdmissionBlocker::InsufficientCapacity;
    assert(route.spec_note() == "route_admission_closed_at_fold"@);
    assert(closed.spec_note() == "admission_closed_at_fold"@);
    assert(paused.spec_note() == "reserve_paused_at_fold"@);
    assert(source.spec_note() == "wallet_source_24h_limit"@);
    assert(recipient.spec_note() == "wallet_destination_24h_limit"@);
    assert(utxo.spec_note() == "utxo_liquidity_low_at_fold"@);
    assert(buffer.spec_note() == "liquidity_buffer_low_at_fold"@);
    assert(capacity.spec_note() == "insufficient_capacity_at_fold"@);
}

/// A Solana deposit that may resume may also be refunded. One for Robinhood is
/// refunded as well where its route was off or its destination cannot be paid,
/// whatever is said after that; nothing else is refunded, and never without a note.
pub proof fn law_a_solana_deposit_is_refunded_where_it_may_resume(
    direction: Direction,
    note: Seq<char>,
    rest: Seq<char>,
)
    ensures
        recoverable_reason(note) ==> refundable_in(direction, Some(note)),
        refundable_in(direction, Some(note)) ==> recoverable_reason(note) || (direction
            == Direction::SolToRhn && (note == "route_disabled_at_fold"@
            || "undeliverable destination"@.is_prefix_of(note))),
        refundable_in(Direction::SolToRhn, Some("route_disabled_at_fold"@)),
        refundable_in(Direction::SolToRhn, Some("undeliverable destination"@ + rest)),
        !refundable_in(direction, None),
{
    let s = "undeliverable destination"@ + rest;
    assert("undeliverable destination"@ =~= s.subrange(
        0,
        "undeliverable destination"@.len() as int,
    ));
}

} // verus!
