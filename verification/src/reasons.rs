//! The notes of parked requests, and what each allows.
use vstd::prelude::*;
use crate::ledger::Ledger;
use crate::table::{before_char, begins_with, split_before, text_eq, trim, trimmed};
use crate::types::{Direction, WalletRole};

verus! {

/// The notes of requests parked because a wallet had to wait, in either
/// spelling.
pub open spec fn wallet_window_reason(note: Seq<char>) -> bool {
    ||| note == "wallet_source_24h_limit"@
    ||| note == "wallet_destination_24h_limit"@
    ||| note == "recipient_rate_limited"@
    ||| note == "source_wallet_rate_limited"@
}

/// The notes from which a parked request may resume.
pub open spec fn recoverable_reason(note: Seq<char>) -> bool {
    ||| note == "admission_closed_at_fold"@
    ||| note == "route_admission_closed_at_fold"@
    ||| note == "reserve_paused_at_fold"@
    ||| note == "insufficient_capacity_at_fold"@
    ||| note == "utxo_liquidity_low_at_fold"@
    ||| note == "liquidity_buffer_low_at_fold"@
    ||| wallet_window_reason(note)
    ||| note == "rapid_burst_hold"@
}

/// The notes with which a Solana deposit in any direction may be refunded:
/// those from which it may resume.
pub open spec fn refundable_reason(note: Seq<char>) -> bool {
    recoverable_reason(note)
}

/// The notes with which a Solana deposit in this direction may be refunded. A
/// deposit for Robinhood is also refunded where its route was off or its
/// destination cannot be paid.
pub open spec fn refundable_in(direction: Direction, note: Option<Seq<char>>) -> bool {
    match note {
        Some(n) => refundable_reason(n) || (direction == Direction::SolToRhn && (n
            == "route_disabled_at_fold"@ || "undeliverable destination"@.is_prefix_of(n))),
        None => false,
    }
}

/// The notes from which a parked request resumes without an operator.
pub open spec fn auto_resumable(note: Option<Seq<char>>, liquidity_admission_open: bool) -> bool {
    match note {
        Some(n) => if n == "utxo_liquidity_low_at_fold"@ {
            true
        } else if n == "liquidity_buffer_low_at_fold"@ {
            liquidity_admission_open
        } else {
            wallet_window_reason(n)
        },
        None => false,
    }
}

/// The reason in a note: what stands before the first colon, without the
/// white space around it.
pub open spec fn reason_prefix(note: Seq<char>) -> Seq<char> {
    trimmed(before_char(note, ':'))
}

/// The reasons with which a Goldcoin deposit may be refunded.
pub open spec fn refundable_glc_reason(reason: Seq<char>) -> bool {
    ||| reason == "deposit_amount_mismatch"@
    ||| reason == "wallet_source_24h_limit"@
    ||| reason == "wallet_destination_24h_limit"@
}

impl Ledger {
    /// Whether a note says that a wallet had to wait.
    pub fn is_wallet_window_manual_review_reason(note: &str) -> (r: bool)
        ensures
            r == wallet_window_reason(note@),
    {
        text_eq(note, "wallet_source_24h_limit") || text_eq(note, "wallet_destination_24h_limit")
            || text_eq(note, "recipient_rate_limited") || text_eq(
            note,
            "source_wallet_rate_limited",
        )
    }

    /// Whether a parked request may resume from this note.
    pub fn is_recoverable_manual_review_reason(note: Option<&str>) -> (r: bool)
        ensures
            r == (note matches Some(n) && recoverable_reason(n@)),
    {
        match note {
            Some(n) => text_eq(n, "admission_closed_at_fold") || text_eq(
                n,
                "route_admission_closed_at_fold",
            ) || text_eq(n, "reserve_paused_at_fold") || text_eq(
                n,
                "insufficient_capacity_at_fold",
            ) || text_eq(n, "utxo_liquidity_low_at_fold") || text_eq(
                n,
                "liquidity_buffer_low_at_fold",
            ) || Self::is_wallet_window_manual_review_reason(n) || text_eq(n, "rapid_burst_hold"),
            None => false,
        }
    }

    /// Whether a parked request resumes from this note without an operator.
    pub fn is_auto_resumable_manual_review_reason(
        note: Option<&str>,
        liquidity_admission_open: bool,
    ) -> (r: bool)
        ensures
            r == auto_resumable(
                match note {
                    Some(n) => Some(n@),
                    None => None,
                },
                liquidity_admission_open,
            ),
    {
        match note {
            Some(n) => if text_eq(n, "utxo_liquidity_low_at_fold") {
                true
            } else if text_eq(n, "liquidity_buffer_low_at_fold") {
                liquidity_admission_open
            } else {
                Self::is_wallet_window_manual_review_reason(n)
            },
            None => false,
        }
    }

    /// Whether a Solana deposit parked with this note may be refunded.
    pub fn is_refundable_manual_review_reason(direction: Direction, note: Option<&str>) -> (r: bool)
        ensures
            r == refundable_in(
                direction,
                match note {
                    Some(n) => Some(n@),
                    None => None,
                },
            ),
    {
        match note {
            Some(n) => Self::is_recoverable_manual_review_reason(Some(n)) || (matches!(direction, Direction::SolToRhn)
                && (text_eq(n, "route_disabled_at_fold") || begins_with(
                n,
                "undeliverable destination",
            ))),
            None => false,
        }
    }

    /// The reason in a note.
    pub fn manual_review_reason_prefix(note: &str) -> (r: &str)
        ensures
            r@ == reason_prefix(note@),
    {
        trim(split_before(note, ':'))
    }

    /// Whether a Goldcoin deposit parked for this reason may be refunded.
    pub fn is_refundable_glc_reason(reason: &str) -> (r: bool)
        ensures
            r == refundable_glc_reason(reason@),
    {
        text_eq(reason, "deposit_amount_mismatch") || text_eq(reason, "wallet_source_24h_limit")
            || text_eq(reason, "wallet_destination_24h_limit")
    }
}

/// What resumes by itself may resume; a burst hold does not resume by itself.
pub proof fn law_auto_resumable_is_recoverable(note: Seq<char>, open: bool)
    requires
        auto_resumable(Some(note), open),
    ensures
        recoverable_reason(note),
        note != "rapid_burst_hold"@,
{
    reveal_strlit("rapid_burst_hold");
    reveal_strlit("utxo_liquidity_low_at_fold");
    reveal_strlit("liquidity_buffer_low_at_fold");
    reveal_strlit("wallet_source_24h_limit");
    reveal_strlit("wallet_destination_24h_limit");
    reveal_strlit("recipient_rate_limited");
    reveal_strlit("source_wallet_rate_limited");
    assert("rapid_burst_hold"@.len() == 16);
    assert(note.len() > 16);
}

/// A parked request resumes by itself exactly where it waits for something that passes by
/// itself: outputs of the vault, the liquidity gate once it is open, or a wallet's window.
pub proof fn law_only_what_passes_resumes_by_itself(note: Seq<char>, open: bool)
    ensures
        auto_resumable(Some(note), open) <==> note == "utxo_liquidity_low_at_fold"@ || (open && note
            == "liquidity_buffer_low_at_fold"@) || note == "wallet_source_24h_limit"@ || note
            == "wallet_destination_24h_limit"@ || note == "recipient_rate_limited"@ || note
            == "source_wallet_rate_limited"@,
        !auto_resumable(None, open),
{
    reveal_strlit("utxo_liquidity_low_at_fold");
    reveal_strlit("liquidity_buffer_low_at_fold");
    reveal_strlit("wallet_source_24h_limit");
    reveal_strlit("wallet_destination_24h_limit");
    reveal_strlit("recipient_rate_limited");
    reveal_strlit("source_wallet_rate_limited");
    let a = "utxo_liquidity_low_at_fold"@;
    let b = "liquidity_buffer_low_at_fold"@;
    assert(a.len() == 26 && b.len() == 28);
    assert(b[0] == 'l');
    assert("wallet_destination_24h_limit"@[0] == 'w');
    assert("wallet_source_24h_limit"@.len() == 23);
    assert("recipient_rate_limited"@.len() == 22);
    assert("source_wallet_rate_limited"@[0] == 's');
}

/// Every note that a fold's admission decision writes allows both exits: the
/// request may resume, and it may be refunded.
pub proof fn law_admission_notes_have_both_exits(
    b: crate::admission::InboundAdmissionBlocker,
    direction: Direction,
)
    ensures
        recoverable_reason(b.spec_note()),
        refundable_in(direction, Some(b.spec_note())),
{
}

/// The note of a deposit with another amount is refundable by its reason
/// alone, whatever the amounts.
pub proof fn law_mismatch_note_is_refundable(expected: i64, observed: u64)
    ensures
        refundable_glc_reason(reason_prefix(crate::requests::mismatch_note(expected, observed))),
{
    let head = "deposit_amount_mismatch"@;
    let note = crate::requests::mismatch_note(expected, observed);
    reveal_strlit("deposit_amount_mismatch");
    reveal_strlit("deposit_amount_mismatch: expected ");
    assert(note.take(23) =~= head);
    assert(note[23] == ':');
    lemma_before_char(note, ':', 23);
    assert(trimmed(head) == head);
}

/// The notes of a Goldcoin deposit that is parked because a wallet has to wait
/// are reasons to refund it, and so is another amount; no other reason is.
pub proof fn law_waiting_wallets_are_refundable()
    ensures
        refundable_glc_reason(reason_prefix("wallet_source_24h_limit"@)),
        refundable_glc_reason(reason_prefix("wallet_destination_24h_limit"@)),
        forall|role: WalletRole|
            refundable_glc_reason(reason_prefix((#[trigger] role.spec_limit_reason())@)),
        forall|reason: Seq<char>| #[trigger]
            refundable_glc_reason(reason) ==> reason == "deposit_amount_mismatch"@ || exists|
                role: WalletRole,
            | reason == (#[trigger] role.spec_limit_reason())@,
{
    reveal_strlit("wallet_source_24h_limit");
    reveal_strlit("wallet_destination_24h_limit");
    let a = "wallet_source_24h_limit"@;
    let b = "wallet_destination_24h_limit"@;
    lemma_without_char(a, ':');
    lemma_without_char(b, ':');
    assert(trimmed(a) == a);
    assert(trimmed(b) == b);
    assert(WalletRole::Source.spec_limit_reason()@ == a);
    assert(WalletRole::Destination.spec_limit_reason()@ == b);
}

/// A burst, and a deposit that came too late for its promise, are no reasons to
/// give a Goldcoin deposit back.
pub proof fn law_bursts_and_late_deposits_are_not_refundable()
    ensures
        !refundable_glc_reason(reason_prefix("rapid_burst_hold"@)),
        !refundable_glc_reason(reason_prefix("late_deposit_no_capacity"@)),
{
    reveal_strlit("wallet_source_24h_limit");
    reveal_strlit("wallet_destination_24h_limit");
    reveal_strlit("deposit_amount_mismatch");
    reveal_strlit("rapid_burst_hold");
    reveal_strlit("late_deposit_no_capacity");
    let a = "rapid_burst_hold"@;
    let b = "late_deposit_no_capacity"@;
    lemma_without_char(a, ':');
    lemma_without_char(b, ':');
    assert(trimmed(a) == a);
    assert(trimmed(b) == b);
    assert(a.len() == 16 && b.len() == 24);
    assert("deposit_amount_mismatch"@.len() == 23);
    assert("wallet_source_24h_limit"@.len() == 23);
    assert("wallet_destination_24h_limit"@.len() == 28);
}

proof fn lemma_without_char(s: Seq<char>, c: char)
    requires
        forall|j: int| 0 <= j < s.len() ==> s[j] != c,
    ensures
        before_char(s, c) == s,
    decreases s.len(),
{
    if s.len() > 0 {
        assert forall|j: int| 0 <= j < s.skip(1).len() implies s.skip(1)[j] != c by {
            assert(s[j + 1] != c);
        }
        lemma_without_char(s.skip(1), c);
        assert(seq![s[0]] + s.skip(1) =~= s);
    }
}

proof fn lemma_before_char(s: Seq<char>, c: char, k: int)
    requires
        0 <= k < s.len(),
        s[k] == c,
        forall|j: int| 0 <= j < k ==> s[j] != c,
    ensures
        before_char(s, c) == s.take(k),
    decreases k,
{
    if k == 0 {
        assert(s.take(0) =~= Seq::<char>::empty());
    } else {
        assert forall|j: int| 0 <= j < k - 1 implies s.skip(1)[j] != c by {
            assert(s[j + 1] != c);
        }
        lemma_before_char(s.skip(1), c, k - 1);
        assert(s.take(k) =~= seq![s[0]] + s.skip(1).take(k - 1));
    }
}

} // verus!
