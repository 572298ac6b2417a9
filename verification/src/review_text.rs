//! Why a parked request is not held, decided or resumed, in words.
use vstd::prelude::*;
use crate::error::{LedgerError, LedgerErrorView, ReviewRefusal};
use crate::refund_text::{show_note, shown_note};
use crate::table::{concat, decimal, decimal_i64};
use crate::rows::{BridgeRequest, RequestView};
use crate::types::{Direction, ReserveDirection, WalletRole};

verus! {

/// What was to be done with a parked request.
#[derive(Clone, Copy, Debug, PartialEq, Eq, Structural)]
pub enum ReviewAct {
    Hold,
    Decide,
    Resume(Direction),
}

/// A moment as it is shown: zero where there is none.
pub open spec fn shown_moment(t: Option<i64>) -> Seq<char> {
    match t {
        Some(n) => decimal(n as int),
        None => decimal(0),
    }
}

/// The end of a hold as it is shown.
pub open spec fn shown_end(t: Option<i64>) -> Seq<char> {
    match t {
        Some(n) => " until "@ + decimal(n as int),
        None => ""@,
    }
}

/// Why a request is refused in words, with the note with which it is parked
/// and the note under which it is held.
pub open spec fn review_text(
    e: ReviewRefusal,
    act: ReviewAct,
    parked: Option<Seq<char>>,
    hold: Seq<char>,
) -> Seq<char> {
    match e {
        ReviewRefusal::WrongDirection { actual, expected } => "request is "@ + actual.spec_name()
            + ", not "@ + expected.spec_name(),
        ReviewRefusal::NoSourceWallet(d) => d.spec_name()
            + " request has no source wallet recorded, so its source-wallet window cannot be checked"@,
        ReviewRefusal::NotManualReview(s) => "state is "@ + s.spec_name() + (if act is Resume {
            ", not ManualReview"@
        } else {
            ", not ManualReview — a hold applies only to parked requests"@
        }),
        ReviewRefusal::ReasonNotRecoverable => "manual_review_note "@ + shown_note(parked)
            + " is not a known recoverable reason"@,
        ReviewRefusal::SourceNotFinalized => "source deposit is not finalized"@,
        ReviewRefusal::DestinationTransactionExists => if act is Resume {
            "a destination transaction already exists"@
        } else {
            "a destination txid is recorded — this request has been paid out"@
        },
        ReviewRefusal::PayoutExists => match act {
            ReviewAct::Resume(d) => if d.spec_destination_reserve()
                == ReserveDirection::GoldcoinReserve {
                "a Goldcoin payout already exists for this request"@
            } else {
                "a destination payout already exists"@
            },
            _ => "a destination payout row already exists — this request is processing"@,
        },
        ReviewRefusal::NoDestinationAmount => "the request carries no destination amount"@,
        ReviewRefusal::RapidBurstHeld { review_after } => "held: rapid-burst hold (review_after="@
            + shown_moment(review_after)
            + ") — resumes only through an explicit `glc-admin manual-review-process` decision, never automatically"@,
        ReviewRefusal::OperatorHeld { until } => "held by operator (auto_resume_hold"@ + shown_end(
            until,
        ) + "): "@ + hold
            + " — release with `glc-admin manual-review-release`, or decide with `manual-review-process`, before resuming"@,
        ReviewRefusal::HeldUndecided(d) => "held ("@ + d.spec_name()
            + ") with no operator decision recorded"@,
        ReviewRefusal::EmptyNote => if act is Hold {
            "a hold needs a non-empty note"@
        } else {
            "an operator decision needs a non-empty note"@
        },
        ReviewRefusal::RapidBurstNotReplaced =>
            "this is a rapid-burst hold — its classification is not replaced by an operator hold; decide it with `manual-review-process` or `manual-review-refund`"@,
        ReviewRefusal::RapidBurstNotReleasable =>
            "a rapid-burst hold cannot be released — it ends only with an explicit `manual-review-process` or `manual-review-refund` decision"@,
        ReviewRefusal::ReleaseIsNoDecision =>
            "`release` is recorded by clear_manual_review_hold, not as a decision"@,
        ReviewRefusal::EmergencyIsForRefunds =>
            "the emergency override applies to `refund` only — a payout is never brought forward"@,
        ReviewRefusal::NotHeld(d) => "not held (disposition "@ + d.spec_name()
            + ") — an operator decision applies to a held request only; use resume-manual-review / refund-manual-review for an ordinary park"@,
        ReviewRefusal::RefundBegun => "a refund lifecycle already exists for this request"@,
        ReviewRefusal::ReviewNotElapsed { review_after, now } =>
            "rapid-burst hold: the minimum review hold has not elapsed (review_after="@
                + shown_moment(review_after) + ", now="@ + decimal(now as int)
                + ") — decide after that moment, or `--emergency` for a refund"@,
        ReviewRefusal::NoResumePath(d) => "direction "@ + d.spec_name()
            + " has no ManualReview resume path — a Goldcoin-sourced park is refunded, never re-admitted"@,
    }
}

/// The name of a reserve as it is shown.
pub open spec fn shown_reserve(d: ReserveDirection) -> Seq<char> {
    match d {
        ReserveDirection::GoldcoinReserve => "GoldcoinReserve"@,
        ReserveDirection::SolanaReserve => "SolanaReserve"@,
        ReserveDirection::RobinhoodReserve => "RobinhoodReserve"@,
    }
}

/// The note with which a request is parked.
pub open spec fn parked_note(q: Option<RequestView>) -> Option<Seq<char>> {
    match q {
        Some(q) => q.manual_review_note,
        None => None,
    }
}

/// The note under which a request is held; nothing where it is not.
pub open spec fn hold_note(q: Option<RequestView>) -> Seq<char> {
    match q {
        Some(q) => match q.auto_resume_hold_note {
            Some(n) => n,
            None => ""@,
        },
        None => ""@,
    }
}

/// Why a deposit for Goldcoin is not resumed, in words, with the name of each
/// wallet as it is shown. Errors that no such attempt meets have no words.
pub open spec fn refused_resume_text(
    e: LedgerErrorView,
    direction: Direction,
    q: Option<RequestView>,
    source_wallet: Seq<char>,
    destination_wallet: Seq<char>,
) -> Seq<char> {
    match e {
        LedgerErrorView::WalletWindowActive { request_id, role, retry_after, .. } =>
            "cannot resume request "@ + decimal(request_id as int) + ": "@ + (match role {
                WalletRole::Source => source_wallet,
                WalletRole::Destination => destination_wallet,
            })
                + " already backs a bridge request inside the rolling 24-hour window, retry after "@
                + decimal(retry_after as int) + " — "@ + role.spec_limit_reason()@,
        LedgerErrorView::Plain(LedgerError::RequestNotFound(id)) => "bridge request "@ + decimal(
            id as int,
        ) + " not found"@,
        LedgerErrorView::Plain(LedgerError::ManualReviewNotRecoverable { id, detail }) =>
            "request "@ + decimal(id as int) + " cannot be resumed from ManualReview: "@
                + review_text(detail, ReviewAct::Resume(direction), parked_note(q), hold_note(q)),
        LedgerErrorView::Plain(LedgerError::NotASolToGlcRequest { id, actual_direction }) =>
            "request "@ + decimal(id as int) + " is "@ + actual_direction.spec_name()
                + ", not SolToGlc — this command only resumes a SolToGlc request parked by fold_sol_deposit"@,
        LedgerErrorView::Plain(LedgerError::NotARhnToGlcRequest { id, actual_direction }) =>
            "request "@ + decimal(id as int) + " is "@ + actual_direction.spec_name()
                + ", not RhnToGlc — this command only resumes an RhnToGlc request parked by fold_robinhood_deposit"@,
        LedgerErrorView::Plain(LedgerError::RefundLifecycleExists { id, refund_state }) =>
            "request "@ + decimal(id as int) + " has a refund lifecycle (refund state "@
                + refund_state@
                + ") — a refunded request can never be resumed or paid out; inspect it with glc-admin refund-list / refund-manual-review"@,
        LedgerErrorView::Plain(
            LedgerError::UtxoLiquidityLow { request_id, available_utxo_count, min_available_count },
        ) => "cannot resume request "@ + decimal(request_id as int)
            + ": mature Goldcoin UTXO pool ("@ + decimal(available_utxo_count as int)
            + " available) is still at or below the configured floor ("@ + decimal(
            min_available_count as int,
        ) + ") — utxo_liquidity_low"@,
        LedgerErrorView::Plain(
            LedgerError::AdmissionLiquidityBufferLow {
                request_id,
                headroom,
                net_destination_atomic,
                buffer_atomic,
            },
        ) => "cannot resume request "@ + decimal(request_id as int) + ": reserving "@ + decimal(
            net_destination_atomic as int,
        ) + " would leave confirmed unreserved Goldcoin headroom ("@ + decimal(headroom as int)
            + ") below the admission safety buffer ("@ + decimal(buffer_atomic as int)
            + ") — liquidity_buffer_low"@,
        LedgerErrorView::Plain(
            LedgerError::InvariantViolated {
                direction,
                balance,
                protected_minimum,
                reserved_liquidity,
            },
        ) => "accounting invariant violated for "@ + shown_reserve(direction) + ": balance "@
            + decimal(balance as int) + " < protected_minimum "@ + decimal(
            protected_minimum as int,
        ) + " + reserved_liquidity "@ + decimal(reserved_liquidity as int),
        LedgerErrorView::Plain(LedgerError::NoSuchRow) => "sqlite error: Query returned no rows"@,
        LedgerErrorView::Plain(LedgerError::AmountOutOfRange) =>
            "an amount does not fit the ledger's signed 64-bit columns"@,
        _ => ""@,
    }
}

fn show_reserve(d: ReserveDirection) -> (r: &'static str)
    ensures
        r@ == shown_reserve(d),
{
    match d {
        ReserveDirection::GoldcoinReserve => "GoldcoinReserve",
        ReserveDirection::SolanaReserve => "SolanaReserve",
        ReserveDirection::RobinhoodReserve => "RobinhoodReserve",
    }
}

fn window_words(request_id: i64, wallet: &str, retry_after: i64, role: WalletRole) -> (r: String)
    ensures
        r@ == "cannot resume request "@ + decimal(request_id as int) + ": "@ + wallet@
            + " already backs a bridge request inside the rolling 24-hour window, retry after "@
            + decimal(retry_after as int) + " — "@ + role.spec_limit_reason()@,
{
    let n = decimal_i64(request_id);
    let s = between("cannot resume request ", n.as_str(), ": ");
    let n = decimal_i64(retry_after);
    let s = between(
        s.as_str(),
        wallet,
        " already backs a bridge request inside the rolling 24-hour window, retry after ",
    );
    let s = concat(s.as_str(), n.as_str());
    between(s.as_str(), " — ", role.limit_reason())
}

fn review_words(id: i64, detail: ReviewRefusal, direction: Direction, q: Option<&BridgeRequest>) -> (r:
    String)
    ensures
        r@ == "request "@ + decimal(id as int) + " cannot be resumed from ManualReview: "@
            + review_text(
            detail,
            ReviewAct::Resume(direction),
            parked_note(row_of(q)),
            hold_note(row_of(q)),
        ),
{
    let parked = match q {
        Some(q) => match &q.manual_review_note {
            Some(n) => Some(n.as_str()),
            None => None,
        },
        None => None,
    };
    let hold = match q {
        Some(q) => match &q.auto_resume_hold_note {
            Some(n) => n.as_str(),
            None => "",
        },
        None => "",
    };
    let why = detail.text(ReviewAct::Resume(direction), parked, hold);
    let n = decimal_i64(id);
    let s = between("request ", n.as_str(), " cannot be resumed from ManualReview: ");
    concat(s.as_str(), why.as_str())
}

/// The row of a request that may be there.
pub open spec fn row_of(q: Option<&BridgeRequest>) -> Option<RequestView> {
    match q {
        Some(q) => Some(q@),
        None => None,
    }
}

fn shortage_words(e: &LedgerError) -> (r: String)
    requires
        e is UtxoLiquidityLow || e is AdmissionLiquidityBufferLow || e is InvariantViolated,
    ensures
        forall|d: Direction, q: Option<RequestView>, a: Seq<char>, b: Seq<char>|
            r@ == #[trigger] refused_resume_text(e@, d, q, a, b),
{
    match e {
        LedgerError::UtxoLiquidityLow { request_id, available_utxo_count, min_available_count } => {
            let n = decimal_i64(*request_id);
            let s = between("cannot resume request ", n.as_str(), ": mature Goldcoin UTXO pool (");
            let n = decimal_i64(*available_utxo_count);
            let s = between(
                s.as_str(),
                n.as_str(),
                " available) is still at or below the configured floor (",
            );
            let n = decimal_i64(*min_available_count);
            between(s.as_str(), n.as_str(), ") — utxo_liquidity_low")
        },
        LedgerError::AdmissionLiquidityBufferLow {
            request_id,
            headroom,
            net_destination_atomic,
            buffer_atomic,
        } => {
            let n = decimal_i64(*request_id);
            let s = between("cannot resume request ", n.as_str(), ": reserving ");
            let n = decimal_i64(*net_destination_atomic);
            let s = between(
                s.as_str(),
                n.as_str(),
                " would leave confirmed unreserved Goldcoin headroom (",
            );
            let n = decimal_i64(*headroom);
            let s = between(s.as_str(), n.as_str(), ") below the admission safety buffer (");
            let n = decimal_i64(*buffer_atomic);
            between(s.as_str(), n.as_str(), ") — liquidity_buffer_low")
        },
        LedgerError::InvariantViolated {
            direction,
            balance,
            protected_minimum,
            reserved_liquidity,
        } => {
            let s = between(
                "accounting invariant violated for ",
                show_reserve(*direction),
                ": balance ",
            );
            let n = decimal_i64(*balance);
            let s = between(s.as_str(), n.as_str(), " < protected_minimum ");
            let n = decimal_i64(*protected_minimum);
            let s = between(s.as_str(), n.as_str(), " + reserved_liquidity ");
            let n = decimal_i64(*reserved_liquidity);
            concat(s.as_str(), n.as_str())
        },
        _ => "".to_owned(),
    }
}

/// Why a deposit for Goldcoin is not resumed, in words.
pub(crate) fn refused_resume_words(
    e: &LedgerError,
    direction: Direction,
    q: Option<&BridgeRequest>,
    source_wallet: &str,
    destination_wallet: &str,
) -> (r: String)
    ensures
        r@ == refused_resume_text(
            e@,
            direction,
            row_of(q),
            source_wallet@,
            destination_wallet@,
        ),
{
    match e {
        LedgerError::WalletWindowActive { request_id, role, retry_after, .. } => window_words(
            *request_id,
            match role {
                WalletRole::Source => source_wallet,
                WalletRole::Destination => destination_wallet,
            },
            *retry_after,
            *role,
        ),
        LedgerError::RequestNotFound(id) => {
            let n = decimal_i64(*id);
            between("bridge request ", n.as_str(), " not found")
        },
        LedgerError::ManualReviewNotRecoverable { id, detail } => review_words(
            *id,
            *detail,
            direction,
            q,
        ),
        LedgerError::NotASolToGlcRequest { id, actual_direction } => {
            let n = decimal_i64(*id);
            let s = between("request ", n.as_str(), " is ");
            between(
                s.as_str(),
                actual_direction.as_str(),
                ", not SolToGlc — this command only resumes a SolToGlc request parked by fold_sol_deposit",
            )
        },
        LedgerError::NotARhnToGlcRequest { id, actual_direction } => {
            let n = decimal_i64(*id);
            let s = between("request ", n.as_str(), " is ");
            between(
                s.as_str(),
                actual_direction.as_str(),
                ", not RhnToGlc — this command only resumes an RhnToGlc request parked by fold_robinhood_deposit",
            )
        },
        LedgerError::RefundLifecycleExists { id, refund_state } => {
            let n = decimal_i64(*id);
            let s = between("request ", n.as_str(), " has a refund lifecycle (refund state ");
            between(
                s.as_str(),
                *refund_state,
                ") — a refunded request can never be resumed or paid out; inspect it with glc-admin refund-list / refund-manual-review",
            )
        },
        LedgerError::UtxoLiquidityLow { .. } | LedgerError::AdmissionLiquidityBufferLow { .. }
        | LedgerError::InvariantViolated { .. } => shortage_words(e),
        LedgerError::NoSuchRow => "sqlite error: Query returned no rows".to_owned(),
        LedgerError::AmountOutOfRange =>
            "an amount does not fit the ledger's signed 64-bit columns".to_owned(),
        _ => "".to_owned(),
    }
}

fn between(head: &str, middle: &str, tail: &str) -> (r: String)
    ensures
        r@ == head@ + middle@ + tail@,
{
    let s = concat(head, middle);
    concat(s.as_str(), tail)
}

fn show_moment(t: Option<i64>) -> (r: String)
    ensures
        r@ == shown_moment(t),
{
    match t {
        Some(n) => decimal_i64(n),
        None => decimal_i64(0),
    }
}

fn operator_hold_text(until: Option<i64>, hold: &str) -> (r: String)
    ensures
        r@ == review_text(ReviewRefusal::OperatorHeld { until }, ReviewAct::Hold, None, hold@),
{
    let end = match until {
        Some(n) => {
            let d = decimal_i64(n);
            concat(" until ", d.as_str())
        },
        None => "".to_owned(),
    };
    let s = between("held by operator (auto_resume_hold", end.as_str(), "): ");
    between(
        s.as_str(),
        hold,
        " — release with `glc-admin manual-review-release`, or decide with `manual-review-process`, before resuming",
    )
}

fn too_early_text(review_after: Option<i64>, now: i64) -> (r: String)
    ensures
        r@ == review_text(
            ReviewRefusal::ReviewNotElapsed { review_after, now },
            ReviewAct::Decide,
            None,
            Seq::empty(),
        ),
{
    let a = show_moment(review_after);
    let b = decimal_i64(now);
    let s = between(
        "rapid-burst hold: the minimum review hold has not elapsed (review_after=",
        a.as_str(),
        ", now=",
    );
    between(
        s.as_str(),
        b.as_str(),
        ") — decide after that moment, or `--emergency` for a refund",
    )
}

impl ReviewRefusal {
    /// Why a request is refused in words. The caller hands over the note with
    /// which the request is parked and the note under which it is held.
    pub fn text(self, act: ReviewAct, parked: Option<&str>, hold: &str) -> (r: String)
        ensures
            r@ == review_text(
                self,
                act,
                match parked {
                    Some(s) => Some(s@),
                    None => None,
                },
                hold@,
            ),
    {
        let resuming = matches!(act, ReviewAct::Resume(_));
        match self {
            ReviewRefusal::WrongDirection { actual, expected } => {
                let s = between("request is ", actual.as_str(), ", not ");
                concat(s.as_str(), expected.as_str())
            },
            ReviewRefusal::NoSourceWallet(d) => concat(
                d.as_str(),
                " request has no source wallet recorded, so its source-wallet window cannot be checked",
            ),
            ReviewRefusal::NotManualReview(s) => between(
                "state is ",
                s.as_str(),
                if resuming {
                    ", not ManualReview"
                } else {
                    ", not ManualReview — a hold applies only to parked requests"
                },
            ),
            ReviewRefusal::ReasonNotRecoverable => {
                let shown = show_note(parked);
                between(
                    "manual_review_note ",
                    shown.as_str(),
                    " is not a known recoverable reason",
                )
            },
            ReviewRefusal::SourceNotFinalized => "source deposit is not finalized".to_owned(),
            ReviewRefusal::DestinationTransactionExists => {
                let s = if resuming {
                    "a destination transaction already exists"
                } else {
                    "a destination txid is recorded — this request has been paid out"
                };
                s.to_owned()
            },
            ReviewRefusal::PayoutExists => {
                let s = match act {
                    ReviewAct::Resume(Direction::SolToGlc | Direction::RhnToGlc) =>
                        "a Goldcoin payout already exists for this request",
                    ReviewAct::Resume(_) => "a destination payout already exists",
                    _ => "a destination payout row already exists — this request is processing",
                };
                s.to_owned()
            },
            ReviewRefusal::NoDestinationAmount =>
                "the request carries no destination amount".to_owned(),
            ReviewRefusal::RapidBurstHeld { review_after } => {
                let t = show_moment(review_after);
                between(
                    "held: rapid-burst hold (review_after=",
                    t.as_str(),
                    ") — resumes only through an explicit `glc-admin manual-review-process` decision, never automatically",
                )
            },
            ReviewRefusal::OperatorHeld { until } => operator_hold_text(until, hold),
            ReviewRefusal::HeldUndecided(d) => between(
                "held (",
                d.as_str(),
                ") with no operator decision recorded",
            ),
            ReviewRefusal::EmptyNote => {
                let s = if matches!(act, ReviewAct::Hold) {
                    "a hold needs a non-empty note"
                } else {
                    "an operator decision needs a non-empty note"
                };
                s.to_owned()
            },
            ReviewRefusal::RapidBurstNotReplaced =>
                "this is a rapid-burst hold — its classification is not replaced by an operator hold; decide it with `manual-review-process` or `manual-review-refund`".to_owned(),
            ReviewRefusal::RapidBurstNotReleasable =>
                "a rapid-burst hold cannot be released — it ends only with an explicit `manual-review-process` or `manual-review-refund` decision".to_owned(),
            ReviewRefusal::ReleaseIsNoDecision =>
                "`release` is recorded by clear_manual_review_hold, not as a decision".to_owned(),
            ReviewRefusal::EmergencyIsForRefunds =>
                "the emergency override applies to `refund` only — a payout is never brought forward".to_owned(),
            ReviewRefusal::NotHeld(d) => between(
                "not held (disposition ",
                d.as_str(),
                ") — an operator decision applies to a held request only; use resume-manual-review / refund-manual-review for an ordinary park",
            ),
            ReviewRefusal::RefundBegun =>
                "a refund lifecycle already exists for this request".to_owned(),
            ReviewRefusal::ReviewNotElapsed { review_after, now } => too_early_text(
                review_after,
                now,
            ),
            ReviewRefusal::NoResumePath(d) => between(
                "direction ",
                d.as_str(),
                " has no ManualReview resume path — a Goldcoin-sourced park is refunded, never re-admitted",
            ),
        }
    }
}

} // verus!
