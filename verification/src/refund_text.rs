//! Why a Solana deposit is not refunded, in words.
use vstd::prelude::*;
use crate::error::{HoldBlocker, RefundRefusal};
use crate::solana_refund::{SolanaRefundChecksView, SolanaRefundDbChecks};
use crate::table::{concat, decimal, decimal_i64, decimal_u64, text_of};
use crate::types::Direction;

verus! {

/// What `{:?}` makes of a text.
pub uninterp spec fn quoted(s: Seq<char>) -> Seq<char>;

/// Formats a text with `std::fmt::Debug`, which puts it in quotes and escapes
/// what would be hard to read. The result depends on the text alone; how it is
/// escaped is left unsaid.
#[verifier::external_body]
fn quote(s: &str) -> (r: String)
    ensures
        r@ == quoted(s@),
{
    format!("{:?}", s)
}

/// A note as it is shown: the quoted text of one that is there.
pub open spec fn shown_note(note: Option<Seq<char>>) -> Seq<char> {
    match note {
        Some(s) => "Some("@ + quoted(s) + ")"@,
        None => "None"@,
    }
}

/// A note as it is shown.
pub fn show_note(note: Option<&str>) -> (r: String)
    ensures
        r@ == shown_note(
            match note {
                Some(s) => Some(s@),
                None => None,
            },
        ),
{
    match note {
        Some(s) => {
            let q = quote(s);
            let t = concat("Some(", q.as_str());
            concat(t.as_str(), ")")
        },
        None => "None".to_owned(),
    }
}

/// The notes with which a Solana deposit in any direction may be refunded, as
/// they are shown.
pub open spec fn shown_reasons() -> Seq<char> {
    "[\"admission_closed_at_fold\", \"route_admission_closed_at_fold\", \"reserve_paused_at_fold\", \"insufficient_capacity_at_fold\", \"utxo_liquidity_low_at_fold\", \"liquidity_buffer_low_at_fold\", \"wallet_source_24h_limit\", \"wallet_destination_24h_limit\", \"recipient_rate_limited\", \"source_wallet_rate_limited\", \"rapid_burst_hold\"]"@
}

/// Why a held request is not refunded, in words.
pub open spec fn hold_text(b: HoldBlocker) -> Seq<char> {
    match b {
        HoldBlocker::DecidedOtherwise { disposition, decision } => "held ("@
            + disposition.spec_name() + ") with operator decision `"@ + decision.spec_name()
            + "` recorded — not `refund`"@,
        HoldBlocker::Undecided { disposition, review_after } => "held ("@ + disposition.spec_name()
            + (match review_after {
            Some(t) => ", review_after="@ + decimal(t as int),
            None => ""@,
        })
            + ") — record the operator decision first: `glc-admin manual-review-refund` (it re-runs this refund once recorded)"@,
    }
}

/// Why a deposit is not refunded, in words, with its note as it is shown.
pub open spec fn refusal_text(e: RefundRefusal, note: Seq<char>, direction: Direction) -> Seq<char> {
    match e {
        RefundRefusal::LifecycleExists(s) => "a refund lifecycle already exists (state "@
            + s.spec_name() + ")"@,
        RefundRefusal::NotSolanaSourced(d) => "direction is "@ + d.spec_name()
            + ", not SolToGlc/SolToRhn — only a Solana-side deposit can be refunded on Solana"@,
        RefundRefusal::NotManualReview(s) => "state is "@ + s.spec_name() + ", not ManualReview"@,
        RefundRefusal::ReasonNotRefundable => "manual_review_note "@ + note
            + " is not a whitelisted fold-time refund reason (allowed: "@ + shown_reasons() + (
        if direction == Direction::SolToRhn {
            "; for SolToRhn also route_disabled_at_fold and undeliverable destination"@
        } else {
            ""@
        }) + ")"@,
        RefundRefusal::SourceNotFinalized => "source deposit is not finalized"@,
        RefundRefusal::NoObligationIndex => "no source_obligation_index recorded"@,
        RefundRefusal::NoRequester => "no requester (original sender) recorded"@,
        RefundRefusal::DestinationTransactionExists => "a destination transaction already exists"@,
        RefundRefusal::Settled => "the request has a settled_at timestamp"@,
        RefundRefusal::PayoutExists =>
            "a destination payout row (Goldcoin or Robinhood) already exists"@,
        RefundRefusal::AdvancedBefore =>
            "the state log shows this request once advanced to SourceFinalized or beyond — it may hold (or have held) reserved liquidity and is not a pure fold-time park"@,
        RefundRefusal::Held(b) => hold_text(b),
        RefundRefusal::IdNotPositive => "request id must be positive"@,
        RefundRefusal::ObligationIndexDiffers { stored, verified } =>
            "stored source_obligation_index "@ + decimal(stored as int)
                + " does not match the on-chain-verified obligation index "@ + decimal(
                verified as int,
            ),
        RefundRefusal::RequesterDiffers =>
            "stored requester does not match the on-chain obligation's requester"@,
        RefundRefusal::GrossDiffers { stored, verified } => "stored gross_amount_atomic "@
            + decimal(stored as int) + " does not match the verified canonical gross "@ + decimal(
            verified as int,
        ),
    }
}

impl HoldBlocker {
    /// Why a held request is not refunded, in words.
    pub fn text(self) -> (r: String)
        ensures
            r@ == hold_text(self),
    {
        match self {
            HoldBlocker::DecidedOtherwise { disposition, decision } => {
                let s = concat("held (", disposition.as_str());
                let s = concat(s.as_str(), ") with operator decision `");
                let s = concat(s.as_str(), decision.as_str());
                concat(s.as_str(), "` recorded — not `refund`")
            },
            HoldBlocker::Undecided { disposition, review_after } => {
                let s = concat("held (", disposition.as_str());
                let until = match review_after {
                    Some(t) => {
                        let n = decimal_i64(t);
                        concat(", review_after=", n.as_str())
                    },
                    None => "".to_owned(),
                };
                let s = concat(s.as_str(), until.as_str());
                concat(
                    s.as_str(),
                    ") — record the operator decision first: `glc-admin manual-review-refund` (it re-runs this refund once recorded)",
                )
            },
        }
    }
}

fn reason_refusal(note: &str, direction: Direction) -> (r: String)
    ensures
        r@ == refusal_text(RefundRefusal::ReasonNotRefundable, note@, direction),
{
    let s = concat("manual_review_note ", note);
    let s = concat(s.as_str(), " is not a whitelisted fold-time refund reason (allowed: ");
    let s = concat(
        s.as_str(),
        "[\"admission_closed_at_fold\", \"route_admission_closed_at_fold\", \"reserve_paused_at_fold\", \"insufficient_capacity_at_fold\", \"utxo_liquidity_low_at_fold\", \"liquidity_buffer_low_at_fold\", \"wallet_source_24h_limit\", \"wallet_destination_24h_limit\", \"recipient_rate_limited\", \"source_wallet_rate_limited\", \"rapid_burst_hold\"]",
    );
    let s = concat(
        s.as_str(),
        if matches!(direction, Direction::SolToRhn) {
            "; for SolToRhn also route_disabled_at_fold and undeliverable destination"
        } else {
            ""
        },
    );
    concat(s.as_str(), ")")
}

impl RefundRefusal {
    /// Why a deposit is not refunded, in words, with its note as it is shown.
    pub fn text(self, note: &str, direction: Direction) -> (r: String)
        ensures
            r@ == refusal_text(self, note@, direction),
    {
        match self {
            RefundRefusal::LifecycleExists(s) => {
                let t = concat("a refund lifecycle already exists (state ", s.as_str());
                concat(t.as_str(), ")")
            },
            RefundRefusal::NotSolanaSourced(d) => {
                let t = concat("direction is ", d.as_str());
                concat(
                    t.as_str(),
                    ", not SolToGlc/SolToRhn — only a Solana-side deposit can be refunded on Solana",
                )
            },
            RefundRefusal::NotManualReview(s) => {
                let t = concat("state is ", s.as_str());
                concat(t.as_str(), ", not ManualReview")
            },
            RefundRefusal::ReasonNotRefundable => reason_refusal(note, direction),
            RefundRefusal::SourceNotFinalized => "source deposit is not finalized".to_owned(),
            RefundRefusal::NoObligationIndex => "no source_obligation_index recorded".to_owned(),
            RefundRefusal::NoRequester => "no requester (original sender) recorded".to_owned(),
            RefundRefusal::DestinationTransactionExists =>
                "a destination transaction already exists".to_owned(),
            RefundRefusal::Settled => "the request has a settled_at timestamp".to_owned(),
            RefundRefusal::PayoutExists =>
                "a destination payout row (Goldcoin or Robinhood) already exists".to_owned(),
            RefundRefusal::AdvancedBefore =>
                "the state log shows this request once advanced to SourceFinalized or beyond — it may hold (or have held) reserved liquidity and is not a pure fold-time park".to_owned(),
            RefundRefusal::Held(b) => b.text(),
            RefundRefusal::IdNotPositive => "request id must be positive".to_owned(),
            RefundRefusal::ObligationIndexDiffers { stored, verified } => {
                let a = decimal_i64(stored);
                let b = decimal_u64(verified);
                let t = concat("stored source_obligation_index ", a.as_str());
                let t = concat(
                    t.as_str(),
                    " does not match the on-chain-verified obligation index ",
                );
                concat(t.as_str(), b.as_str())
            },
            RefundRefusal::RequesterDiffers =>
                "stored requester does not match the on-chain obligation's requester".to_owned(),
            RefundRefusal::GrossDiffers { stored, verified } => {
                let a = decimal_i64(stored);
                let b = decimal_u64(verified);
                let t = concat("stored gross_amount_atomic ", a.as_str());
                let t = concat(t.as_str(), " does not match the verified canonical gross ");
                concat(t.as_str(), b.as_str())
            },
        }
    }
}

impl SolanaRefundChecksView {
    /// What stands against a refund, in words, with the note as it is shown.
    pub open spec fn failure_text(self, note: Seq<char>) -> Option<Seq<char>> {
        match self.first_failure() {
            Some(e) => Some(refusal_text(e, note, self.direction)),
            None => None,
        }
    }
}

impl SolanaRefundDbChecks {
    /// What stands first against beginning a refund, in words; nothing where
    /// every check passes. A refund that was begun counts as a failure.
    pub fn first_failure_for_begin(&self) -> (r: Option<String>)
        ensures
            text_of(r) == self@.failure_text(shown_note(self@.manual_review_reason)),
    {
        let note = match &self.manual_review_reason {
            Some(s) => show_note(Some(s.as_str())),
            None => show_note(None),
        };
        self.failure_with_note(note.as_str())
    }

    /// What stands first against beginning a refund, in words, with its note
    /// as it is to be shown.
    pub fn failure_with_note(&self, note: &str) -> (r: Option<String>)
        ensures
            text_of(r) == self@.failure_text(note@),
    {
        match self.first_failure() {
            Some(e) => Some(e.text(note, self.direction)),
            None => None,
        }
    }
}

} // verus!
