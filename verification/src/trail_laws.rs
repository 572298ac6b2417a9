//! The trail that refunds, folds and proposals leave, the rows that belong to a payout, and
//! what a refusal tells its reader.
use vstd::prelude::*;
use crate::chain::orphaned_late_reason;
use crate::error::{LedgerError, LedgerErrorView, RefundRefusal, ReviewRefusal};
use crate::folds::{SolDeposit, seen_text};
use crate::goldcoin_refund::GoldcoinRefundPlan;
use crate::ledger::LedgerView;
use crate::payouts::{change_for, input_of};
use crate::query_laws::{lemma_same_items, lemma_selection};
use crate::refund_text::{quoted, refusal_text, shown_note};
use crate::reserves::opt_text;
use crate::review_text::refused_resume_text;
use crate::rows::{
    CustodyView, GoldcoinRefundView, LogEntry, PayoutChangeView, PayoutInputView, RebalanceView,
    RequestView, SolanaRefundView,
};
use crate::table::{decimal, select_rows};
use crate::types::{
    Chain, CustodyTransitionState, Direction, GoldcoinRefundState, RapidBurstMatch, RebalanceState,
    RequestState, SolanaRefundState, WalletRole,
};

verus! {

/// The log tells each state that a Goldcoin refund leads its request through, why, and who
/// began it.
pub proof fn law_the_log_follows_a_goldcoin_refund(
    l: LedgerView,
    id: i64,
    q: RequestView,
    x: GoldcoinRefundView,
    plan: GoldcoinRefundPlan,
    note: Seq<char>,
    actor: Seq<char>,
    txid: [u8; 32],
    confirmations: i64,
    now: i64,
)
    requires
        l.request(id) == Some(q),
    ensures
        l.glc_refund_begun(id, plan, note, actor, now).state_log == l.state_log.push(
            (LogEntry {
                request_id: id,
                from_state: Some(RequestState::ManualReview),
                to_state: RequestState::RefundPending,
                at: now,
                reason: Some("glc_refund_started"@),
                actor,
            }),
        ),
        l.glc_refund(id) == Some(x) && x.txid is None ==> l.glc_refund_broadcast(
            id,
            txid,
            now,
        ).state_log == l.state_log.push(
            (LogEntry {
                request_id: id,
                from_state: Some(RequestState::RefundPending),
                to_state: RequestState::RefundBroadcast,
                at: now,
                reason: Some("glc_refund_broadcast"@),
                actor: "operator"@,
            }),
        ),
        l.glc_refund(id) == Some(x) ==> l.glc_refund_settled(id, confirmations, now).state_log
            == l.state_log.push(
            (LogEntry {
                request_id: id,
                from_state: Some(RequestState::RefundBroadcast),
                to_state: RequestState::Refunded,
                at: now,
                reason: Some("glc_refund_confirmed"@),
                actor: "system"@,
            }),
        ),
{
}

/// A Goldcoin refund is signed, once or again, until it is broadcast, and never after.
pub proof fn law_a_goldcoin_refund_is_signed_before_it_is_sent(
    l: LedgerView,
    id: i64,
    x: GoldcoinRefundView,
)
    ensures
        l.glc_refund(id) == Some(x) ==> (l.sign_glc_result(id) is Ok <==> x.state
            == GoldcoinRefundState::Built || x.state == GoldcoinRefundState::Signed),
        l.glc_refund(id) is None ==> l.sign_glc_result(id) == Err::<(), LedgerError>(
            LedgerError::GoldcoinRefundNotFound(id),
        ),
{
}

/// The log tells each state that a Solana refund leads its request through: that it was
/// sent, with its transaction, once, and that it was confirmed.
pub proof fn law_the_log_follows_a_solana_refund(
    l: LedgerView,
    id: i64,
    q: RequestView,
    x: SolanaRefundView,
    signature: Seq<char>,
    blockhash: Seq<char>,
    epoch: u64,
    now: i64,
)
    requires
        l.request(id) == Some(q),
        l.sol_refund(id) == Some(x),
    ensures
        q.state == RequestState::RefundPending ==> l.refund_broadcast(
            id,
            signature,
            blockhash,
            epoch,
            now,
        ).state_log == l.state_log.push(
            (LogEntry {
                request_id: id,
                from_state: Some(RequestState::RefundPending),
                to_state: RequestState::RefundBroadcast,
                at: now,
                reason: Some("refund tx "@ + signature),
                actor: "system"@,
            }),
        ),
        q.state != RequestState::RefundPending ==> l.refund_broadcast(
            id,
            signature,
            blockhash,
            epoch,
            now,
        ).state_log == l.state_log,
        x.state != SolanaRefundState::Confirmed ==> l.refund_confirmed(id, now).state_log
            == l.state_log.push(
            (LogEntry {
                request_id: id,
                from_state: Some(RequestState::RefundBroadcast),
                to_state: RequestState::Refunded,
                at: now,
                reason: x.refund_signature,
                actor: "system"@,
            }),
        ),
{
}

/// A request begins its trail as reserved and then waiting for its deposit; a folded
/// deposit begins it where the fold left it, and a burst adds that it was held.
pub proof fn law_the_log_begins_with_a_request(
    l: LedgerView,
    d: SolDeposit,
    note: Option<Seq<char>>,
    why: Seq<char>,
    burst: Option<RapidBurstMatch>,
    now: i64,
)
    ensures
        ({
            let m = l.folded(d, note, why, burst, now);
            let first = LogEntry {
                request_id: l.next_request_id,
                from_state: None,
                to_state: if note is None {
                    RequestState::SourceFinalized
                } else {
                    RequestState::ManualReview
                },
                at: now,
                reason: Some(why),
                actor: "system"@,
            };
            &&& burst is None ==> m.state_log == l.state_log.push(first)
            &&& burst is Some ==> m.state_log == l.state_log.push(first).push(
                LogEntry {
                    request_id: l.next_request_id,
                    from_state: Some(RequestState::ManualReview),
                    to_state: RequestState::ManualReview,
                    at: now,
                    reason: Some("rapid_burst_hold"@),
                    actor: "system"@,
                },
            )
        }),
{
}

/// Putting a parked request under a burst hold adds one line, from review to review, with
/// the hold as its reason.
pub proof fn law_the_log_tells_a_burst_hold(
    l: LedgerView,
    id: i64,
    m: RapidBurstMatch,
    now: i64,
)
    ensures
        l.request(id) is Some ==> l.with_burst_hold(id, m, now).state_log == l.state_log.push(
            (LogEntry {
                request_id: id,
                from_state: Some(RequestState::ManualReview),
                to_state: RequestState::ManualReview,
                at: now,
                reason: Some("rapid_burst_hold"@),
                actor: "system"@,
            }),
        ),
        l.request(id) is None ==> l.with_burst_hold(id, m, now) == l,
{
}

/// The trail of a proposal tells where each approval, confirmation and closing found it,
/// and who made the step.
pub proof fn law_the_trail_of_a_proposal_tells_where_it_was(
    l: LedgerView,
    id: i64,
    b: RebalanceView,
    c: CustodyView,
    who: Seq<char>,
    note: Seq<char>,
    observed: u64,
    now: i64,
)
    requires
        l.rebalance(id) == Some(b),
        l.custody(id) == Some(c),
    ensures
        ({
            let m = l.rebalance_approved(id, who, now).proposals.rebalance_log.last();
            m.rebalance_id == id && m.from_state == Some(RebalanceState::Proposed) && m.actor == who
                && m.at == now
        }),
        ({
            let m = l.rebalance_confirmed(id, observed, who, now).proposals.rebalance_log.last();
            m.rebalance_id == id && m.from_state == Some(RebalanceState::Executed) && m.to_state
                == RebalanceState::Confirmed && m.actor == who && m.at == now
        }),
        ({
            let m = l.rebalance_closed(
                id,
                RebalanceState::Cancelled,
                note,
                who,
                now,
            ).proposals.rebalance_log.last();
            m.rebalance_id == id && m.from_state == Some(b.state) && m.to_state
                == RebalanceState::Cancelled && m.reason == Some(note) && m.actor == who && m.at
                == now
        }),
        ({
            let m = l.custody_approved(id, who, now).proposals.custody_log.last();
            m.transition_id == id && m.from_state == Some(CustodyTransitionState::IdentityVerified)
                && m.actor == who && m.at == now
        }),
        ({
            let m = l.custody_closed(
                id,
                CustodyTransitionState::Cancelled,
                note,
                who,
                now,
            ).proposals.custody_log.last();
            m.transition_id == id && m.from_state == Some(c.state) && m.to_state
                == CustodyTransitionState::Cancelled && m.reason == Some(note) && m.actor == who
                && m.at == now
        }),
{
}

/// The change rows of a payout are all the rows of its request and no others, by the
/// position of the output.
pub proof fn law_a_payout_has_its_change(
    l: LedgerView,
    id: i64,
    rows: Seq<PayoutChangeView>,
    x: PayoutChangeView,
)
    requires
        l.changes_in_order(id, rows),
    ensures
        rows.contains(x) <==> l.payout_changes.contains(x) && x.request_id == id,
        forall|j: int, k: int|
            0 <= j < k < rows.len() ==> (#[trigger] rows[j]).output_order <= (
            #[trigger] rows[k]).output_order,
{
    let sel = select_rows(l.payout_changes, change_for(id));
    lemma_same_items(rows, sel);
    lemma_selection(l.payout_changes, change_for(id));
    assert(rows.contains(x) <==> sel.contains(x));
}

/// The input rows of a payout are all the rows of its request and no others, by the
/// position of the input.
pub proof fn law_a_payout_has_its_inputs(
    l: LedgerView,
    id: i64,
    rows: Seq<PayoutInputView>,
    x: PayoutInputView,
)
    requires
        l.inputs_in_order(id, rows),
    ensures
        rows.contains(x) <==> l.payout_inputs.contains(x) && x.request_id == id,
        forall|j: int, k: int|
            0 <= j < k < rows.len() ==> (#[trigger] rows[j]).input_order <= (
            #[trigger] rows[k]).input_order,
{
    let sel = select_rows(l.payout_inputs, input_of(id));
    lemma_same_items(rows, sel);
    lemma_selection(l.payout_inputs, input_of(id));
    assert(rows.contains(x) <==> sel.contains(x));
}

/// A text that is given is kept as it is, and none stays none.
pub proof fn law_a_given_text_is_kept(s: &str)
    ensures
        opt_text(Some(s)) == Some(s@),
        opt_text(None) is None,
        seen_text(Some(s)) == Some(s@),
        seen_text(None) is None,
{
}

/// A refused Solana refund tells both figures where two differ, the state or the direction
/// that stands in its way, and the note that does not allow it.
pub proof fn law_a_refused_refund_tells_the_figures(
    note: Seq<char>,
    d: Direction,
    s: RequestState,
    stored: i64,
    verified: u64,
    x: SolanaRefundState,
)
    ensures
        refusal_text(
            (RefundRefusal::GrossDiffers { stored, verified }),
            note,
            d,
        ) == "stored gross_amount_atomic "@ + decimal(stored as int)
            + " does not match the verified canonical gross "@ + decimal(verified as int),
        refusal_text(
            (RefundRefusal::ObligationIndexDiffers { stored, verified }),
            note,
            d,
        ) == "stored source_obligation_index "@ + decimal(stored as int)
            + " does not match the on-chain-verified obligation index "@ + decimal(verified as int),
        refusal_text(RefundRefusal::NotManualReview(s), note, d) == "state is "@ + s.spec_name()
            + ", not ManualReview"@,
        refusal_text(RefundRefusal::LifecycleExists(x), note, d)
            == "a refund lifecycle already exists (state "@ + x.spec_name() + ")"@,
        refusal_text(RefundRefusal::NotSolanaSourced(d), note, d) == "direction is "@
            + d.spec_name()
            + ", not SolToGlc/SolToRhn — only a Solana-side deposit can be refunded on Solana"@,
{
}

/// A note is shown in quotes, as one that is there.
pub proof fn law_a_note_is_shown_quoted(note: Seq<char>)
    ensures
        shown_note(Some(note)) == "Some("@ + quoted(note) + ")"@,
        shown_note(None) == "None"@,
{
}

/// A resume that a wallet's window refuses names the wallet of the role that is limited,
/// and the moment to try again.
pub proof fn law_a_refused_resume_names_the_limited_wallet(
    id: i64,
    role: WalletRole,
    chain: Chain,
    wallet: Seq<u8>,
    retry_after: i64,
    d: Direction,
    q: Option<RequestView>,
    source: Seq<char>,
    destination: Seq<char>,
)
    ensures
        ({
            let e = LedgerErrorView::WalletWindowActive {
                request_id: id,
                role,
                chain,
                wallet,
                retry_after,
            };
            let told = |named: Seq<char>, why: Seq<char>|
                "cannot resume request "@ + decimal(id as int) + ": "@ + named
                    + " already backs a bridge request inside the rolling 24-hour window, retry after "@
                    + decimal(retry_after as int) + " — "@ + why;
            &&& role == WalletRole::Source ==> refused_resume_text(e, d, q, source, destination)
                == told(source, "wallet_source_24h_limit"@)
            &&& role == WalletRole::Destination ==> refused_resume_text(
                e,
                d,
                q,
                source,
                destination,
            ) == told(destination, "wallet_destination_24h_limit"@)
        }),
{
}

/// A resume that a request's own state refuses names the request and what stands in the
/// way: its state, its note, or the hold with its end and its note.
pub proof fn law_a_refused_resume_tells_what_stands_in_the_way(
    id: i64,
    q: RequestView,
    d: Direction,
    s: RequestState,
    t: i64,
    source: Seq<char>,
    destination: Seq<char>,
)
    requires
        q.auto_resume_hold_note is Some,
    ensures
        ({
            let told = |detail: ReviewRefusal|
                refused_resume_text(
                    LedgerErrorView::Plain(LedgerError::ManualReviewNotRecoverable { id, detail }),
                    d,
                    Some(q),
                    source,
                    destination,
                );
            let head = "request "@ + decimal(id as int) + " cannot be resumed from ManualReview: "@;
            &&& told(ReviewRefusal::NotManualReview(s)) == head + ("state is "@ + s.spec_name()
                + ", not ManualReview"@)
            &&& told(ReviewRefusal::ReasonNotRecoverable) == head + ("manual_review_note "@
                + shown_note(q.manual_review_note) + " is not a known recoverable reason"@)
            &&& told(ReviewRefusal::OperatorHeld { until: Some(t) }) == head + (
            "held by operator (auto_resume_hold"@ + (" until "@ + decimal(t as int)) + "): "@
                + q.auto_resume_hold_note.unwrap()
                + " — release with `glc-admin manual-review-release`, or decide with `manual-review-process`, before resuming"@)
            &&& refused_resume_text(
                LedgerErrorView::Plain(LedgerError::RequestNotFound(id)),
                d,
                Some(q),
                source,
                destination,
            ) == "bridge request "@ + decimal(id as int) + " not found"@
        }),
{
}

/// A late reorganisation is told by the height of the fork, the old tip, how many requests
/// it touches and the number of its event.
pub proof fn law_a_late_reorganisation_is_told(fork: i64, tip: i64, count: int, event: i64)
    ensures
        orphaned_late_reason(fork, tip, count, event)
            == "post-finality Goldcoin reorg detected: fork_height="@ + decimal(fork as int)
            + " (old tip "@ + decimal(tip as int) + "), "@ + decimal(count)
            + " already-finalized request(s) affected — see post_finality_reorg_events #"@
            + decimal(event as int),
{
}

} // verus!
