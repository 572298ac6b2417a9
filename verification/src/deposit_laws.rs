//! What seeing a Goldcoin deposit comes to, by what was paid and by whom.
use vstd::prelude::*;
use crate::error::LedgerError;
use crate::ledger::{LedgerView, ReserveRow, lemma_request_id, lemma_with_request};
use crate::reasons::{reason_prefix, refundable_glc_reason};
use crate::requests::{
    DepositChecks, GlcObservationOutcome, Sighting, TracedView, burst_held, deposit_checks,
    first_burst, latest_retry, mismatch_note, or_recorded, sighted, traced, traced_already,
};
use crate::rows::RequestView;
use crate::table::decimal;
use crate::types::{
    Direction, ManualReviewDisposition, RapidBurstMatch, RapidBurstRule, RequestState,
};

verus! {

/// The row of a request in review because of its deposit.
spec fn in_review(p: RequestView, at: Sighting, note: Seq<char>) -> RequestView {
    RequestView {
        state: RequestState::ManualReview,
        manual_review_note: Some(note),
        observed_amount_atomic: Some(at.observed_amount as i64),
        source_txid: Some(at.txid),
        source_vout: Some(at.vout),
        source_block_height: Some(at.block_height),
        source_block_hash: Some(at.block_hash),
        ..p
    }
}

proof fn lemma_seen(l: LedgerView, p: RequestView, id: i64, at: Sighting, checks: DepositChecks, now: i64)
    requires
        l.request(id) == Some(p),
        p.id == id,
    ensures
        l.parked_mismatch(id, at, now).request(id) == Some(
            in_review(p, at, mismatch_note(p.gross_amount_atomic, at.observed_amount)),
        ),
        forall|note: Seq<char>| #[trigger]
            l.parked_deposit(id, at, checks.primary_source_wallet, note, now).request(id) == Some(
                RequestView {
                    source_wallet: or_recorded(checks.primary_source_wallet, p.source_wallet),
                    ..in_review(p, at, note)
                },
            ),
        l.confirming_deposit(id, at, checks.primary_source_wallet, now).request(id) == Some(
            RequestView {
                state: RequestState::Confirming,
                source_confirmations: 1,
                source_wallet: or_recorded(checks.primary_source_wallet, p.source_wallet),
                source_txid: Some(at.txid),
                source_vout: Some(at.vout),
                source_block_height: Some(at.block_height),
                source_block_hash: Some(at.block_hash),
                ..p
            },
        ),
{
    let w = or_recorded(checks.primary_source_wallet, p.source_wallet);
    let a = in_review(p, at, mismatch_note(p.gross_amount_atomic, at.observed_amount));
    lemma_with_request(l, id, a);
    assert(l.parked_mismatch(id, at, now).requests == l.with_request(id, a).requests);
    let c = RequestView {
        state: RequestState::Confirming,
        source_confirmations: 1,
        source_wallet: w,
        ..sighted(p, at)
    };
    lemma_with_request(l, id, c);
    assert(l.confirming_deposit(id, at, checks.primary_source_wallet, now).requests
        == l.with_request(id, c).requests);
    assert forall|note: Seq<char>| #[trigger]
        l.parked_deposit(id, at, checks.primary_source_wallet, note, now).request(id) == Some(
            RequestView { source_wallet: w, ..in_review(p, at, note) },
        ) by {
        let b = RequestView { source_wallet: w, ..in_review(p, at, note) };
        lemma_with_request(l, id, b);
        assert(l.parked_deposit(id, at, checks.primary_source_wallet, note, now).requests
            == l.with_request(id, b).requests);
    }
}

proof fn lemma_held(l: LedgerView, p: RequestView, id: i64, m: RapidBurstMatch, now: i64)
    requires
        l.request(id) == Some(p),
        p.id == id,
    ensures
        l.with_burst_hold(id, m, now).request(id) == Some(burst_held(p, m, now)),
{
    lemma_with_request(l, id, burst_held(p, m, now));
    assert(l.with_burst_hold(id, m, now).requests == l.with_request(
        id,
        burst_held(p, m, now),
    ).requests);
}

/// A request that waits for its Goldcoin deposit is paid by exactly its gross
/// amount. Any other amount, more as well as less, is told apart and parked with
/// both amounts, whatever else was found. The exact amount is parked for a burst,
/// then for the source wallet, then for the destination wallet, and otherwise
/// confirms. No promise is touched, so a request that confirms was paid in full.
pub proof fn law_only_the_exact_amount_confirms(
    l: LedgerView,
    id: i64,
    at: Sighting,
    checks: DepositChecks,
    now: i64,
)
    requires
        l.request(id) matches Some(q) && q.state == RequestState::AwaitingDeposit && (q.direction
            == Direction::GlcToSol || q.direction == Direction::GlcToRhn) && q.gross_amount_atomic
            >= 0,
        at.observed_amount <= i64::MAX,
    ensures
        ({
            let q = l.request(id).unwrap();
            let gross = q.gross_amount_atomic;
            let out = l.observation(id, at, checks);
            let m = l.after_observation(id, at, checks, now);
            let row = m.request(id).unwrap();
            let source = checks.eligibility.source_retry_after;
            let destination = checks.eligibility.destination_retry_after;
            &&& m.request(id) is Some
            &&& m.reserves == l.reserves
            &&& row.source_txid == Some(at.txid) && row.source_vout == Some(at.vout)
            &&& row.source_block_height == Some(at.block_height) && row.source_block_hash == Some(
                at.block_hash,
            )
            &&& row.gross_amount_atomic == gross && row.net_destination_atomic
                == q.net_destination_atomic && row.direction == q.direction
            &&& at.observed_amount != gross <==> out == Ok::<GlcObservationOutcome, LedgerError>(
                GlcObservationOutcome::AmountMismatch {
                    expected: gross as u64,
                    observed: at.observed_amount,
                },
            )
            &&& at.observed_amount != gross ==> row.state == RequestState::ManualReview
                && row.observed_amount_atomic == Some(at.observed_amount as i64)
                && row.manual_review_note == Some(
                "deposit_amount_mismatch: expected "@ + decimal(gross as int) + " observed "@
                    + decimal(at.observed_amount as int),
            )
            &&& row.state == RequestState::Confirming ==> at.observed_amount == gross
            &&& at.observed_amount == gross ==> match checks.burst {
                Some(b) => {
                    &&& out == Ok::<GlcObservationOutcome, LedgerError>(
                        GlcObservationOutcome::RapidBurstHeld {
                            rule: b.rule,
                            review_after: b.review_after,
                        },
                    )
                    &&& row.state == RequestState::ManualReview
                    &&& row.manual_review_note == Some("rapid_burst_hold"@)
                    &&& row.observed_amount_atomic == Some(gross)
                    &&& row.manual_review_disposition == ManualReviewDisposition::RapidBurstHold
                    &&& row.hold_started_at == Some(now) && row.held_by == Some("system"@)
                    &&& row.review_after == Some(b.review_after)
                    &&& row.hold_reason == Some(
                        if b.rule == RapidBurstRule::SourceWallet {
                            "rapid_burst:source_wallet"@
                        } else {
                            "rapid_burst:destination_wallet"@
                        },
                    )
                },
                None => if source is Some || destination is Some {
                    &&& row.state == RequestState::ManualReview
                    &&& row.observed_amount_atomic == Some(gross)
                    &&& row.manual_review_disposition == q.manual_review_disposition
                    &&& row.manual_review_note == Some(
                        if source is Some {
                            "wallet_source_24h_limit"@
                        } else {
                            "wallet_destination_24h_limit"@
                        },
                    )
                    &&& out matches Ok(GlcObservationOutcome::WalletLimited { reason, retry_after })
                        && Some(reason@) == row.manual_review_note && Some(retry_after) == (if source is Some {
                        source
                    } else {
                        destination
                    })
                } else {
                    &&& out == Ok::<GlcObservationOutcome, LedgerError>(
                        GlcObservationOutcome::Recorded,
                    )
                    &&& row.state == RequestState::Confirming
                    &&& row.source_confirmations == 1
                    &&& row.manual_review_note == q.manual_review_note
                },
            }
            &&& at.observed_amount == gross ==> row.source_wallet == (
            if checks.primary_source_wallet is Some {
                checks.primary_source_wallet
            } else {
                q.source_wallet
            })
            &&& at.observed_amount != gross ==> row.source_wallet == q.source_wallet
        }),
{
    let q = l.request(id).unwrap();
    lemma_request_id(l, id);
    lemma_seen(l, q, id, at, checks, now);
    if at.observed_amount == q.gross_amount_atomic && checks.burst is Some {
        let m = l.parked_deposit(
            id,
            at,
            checks.primary_source_wallet,
            "rapid_burst_hold"@,
            now,
        );
        lemma_held(m, m.request(id).unwrap(), id, checks.burst.unwrap(), now);
    }
}

/// A Goldcoin deposit whose reservation lapsed is promised again where the
/// reserve still has the headroom, and is then taken as any other: only the exact
/// amount confirms. Where the headroom is gone it is parked, and nothing is
/// promised.
pub proof fn law_a_late_deposit_is_promised_again_or_parked(
    l: LedgerView,
    id: i64,
    at: Sighting,
    checks: DepositChecks,
    now: i64,
    r: ReserveRow,
)
    requires
        l.request(id) matches Some(q) && q.state == RequestState::Expired && q.gross_amount_atomic
            >= 0 && ((q.direction == Direction::GlcToSol && l.reserves.solana == Some(r)) || (
        q.direction == Direction::GlcToRhn && l.reserves.robinhood == Some(r))),
        at.observed_amount <= i64::MAX,
        i64::MIN <= r.total_reserve_balance - r.protected_minimum - r.reserved_liquidity
            <= i64::MAX,
        r.reserved_liquidity + l.request(id).unwrap().net_destination_atomic <= i64::MAX,
        r.reserved_liquidity + l.request(id).unwrap().net_destination_atomic >= i64::MIN,
    ensures
        ({
            let q = l.request(id).unwrap();
            let gross = q.gross_amount_atomic;
            let net = q.net_destination_atomic;
            let room = r.total_reserve_balance - r.protected_minimum - r.reserved_liquidity;
            let out = l.observation(id, at, checks);
            let m = l.after_observation(id, at, checks, now);
            let row = m.request(id).unwrap();
            let after = if q.direction == Direction::GlcToSol {
                m.reserves.solana
            } else {
                m.reserves.robinhood
            };
            &&& m.request(id) is Some
            &&& row.source_txid == Some(at.txid) && row.source_vout == Some(at.vout)
            &&& net > room <==> out == Ok::<GlcObservationOutcome, LedgerError>(
                GlcObservationOutcome::LateDepositNoCapacity,
            )
            &&& net > room ==> m.reserves == l.reserves && row.state == RequestState::ManualReview
                && row.manual_review_note == Some("late_deposit_no_capacity"@)
            &&& net <= room ==> after == Some(
                ReserveRow {
                    reserved_liquidity: (r.reserved_liquidity + net) as i64,
                    ..r
                },
            )
            &&& net <= room ==> (at.observed_amount != gross <==> out == Ok::<
                GlcObservationOutcome,
                LedgerError,
            >(
                GlcObservationOutcome::AmountMismatch {
                    expected: gross as u64,
                    observed: at.observed_amount,
                },
            ))
            &&& net <= room && at.observed_amount == gross && checks.burst is None
                && checks.eligibility.source_retry_after is None
                && checks.eligibility.destination_retry_after is None <==> out == Ok::<
                GlcObservationOutcome,
                LedgerError,
            >(GlcObservationOutcome::LateDepositRecreated)
            &&& row.state == (if out == Ok::<GlcObservationOutcome, LedgerError>(
                GlcObservationOutcome::LateDepositRecreated,
            ) {
                RequestState::Confirming
            } else {
                RequestState::ManualReview
            })
            &&& net <= room ==> row.reserved_at == Some(now) && row.reservation_expires_at is None
        }),
{
    let q = l.request(id).unwrap();
    lemma_request_id(l, id);
    let again = RequestView {
        state: RequestState::AwaitingDeposit,
        reserved_at: Some(now),
        reservation_expires_at: None,
        ..q
    };
    lemma_with_request(l, id, again);
    let k = l.recreated(id, now);
    assert(k.requests == l.with_request(id, again).requests);
    assert(k.request(id) == Some(again));
    lemma_seen(k, again, id, at, checks, now);
    if checks.burst is Some {
        let m = k.parked_deposit(
            id,
            at,
            checks.primary_source_wallet,
            "rapid_burst_hold"@,
            now,
        );
        lemma_held(m, m.request(id).unwrap(), id, checks.burst.unwrap(), now);
    }
    let late = RequestView {
        state: RequestState::ManualReview,
        manual_review_note: Some("late_deposit_no_capacity"@),
        ..sighted(q, at)
    };
    lemma_with_request(l, id, late);
    assert(l.parked_late(id, at, now).requests == l.with_request(id, late).requests);
}

/// A deposit on a request that does not wait for one, nor has lapsed, changes
/// nothing: it is the one already recorded, or it belongs to no request.
pub proof fn law_a_deposit_needs_a_request_that_waits(
    l: LedgerView,
    id: i64,
    at: Sighting,
    checks: DepositChecks,
    now: i64,
)
    requires
        l.request(id) matches Some(q) ==> (q.direction != Direction::GlcToSol && q.direction
            != Direction::GlcToRhn) || (q.state != RequestState::AwaitingDeposit && q.state
            != RequestState::Expired),
    ensures
        l.after_observation(id, at, checks, now) == l,
        l.observation(id, at, checks) == Ok::<GlcObservationOutcome, LedgerError>(
            match l.request(id) {
                Some(q) => if (q.state == RequestState::DepositObserved || q.state
                    == RequestState::Confirming) && q.source_txid == Some(at.txid) && q.source_vout
                    == Some(at.vout) {
                    GlcObservationOutcome::AlreadyRecorded
                } else {
                    GlcObservationOutcome::NoMatchingRequest
                },
                None => GlcObservationOutcome::NoMatchingRequest,
            },
        ),
{
}

/// Whatever its wallets, a Goldcoin deposit that is parked because one of them
/// has to wait, or because of its amount, can be given back: its note gives a
/// reason with which it may be refunded.
pub proof fn law_a_parked_goldcoin_deposit_has_an_exit(
    l: LedgerView,
    id: i64,
    at: Sighting,
    checks: DepositChecks,
    now: i64,
)
    requires
        l.request(id) matches Some(q) && q.state == RequestState::AwaitingDeposit && (q.direction
            == Direction::GlcToSol || q.direction == Direction::GlcToRhn) && q.gross_amount_atomic
            >= 0,
        at.observed_amount <= i64::MAX,
    ensures
        ({
            let q = l.request(id).unwrap();
            let m = l.after_observation(id, at, checks, now);
            let parked = at.observed_amount != q.gross_amount_atomic || (checks.burst is None && (
            checks.eligibility.source_retry_after is Some
                || checks.eligibility.destination_retry_after is Some));
            let row = m.request(id).unwrap();
            parked ==> m.request(id) is Some && row.state == RequestState::ManualReview
                && row.manual_review_note is Some && refundable_glc_reason(
                reason_prefix(row.manual_review_note.unwrap()),
            )
        }),
{
    let q = l.request(id).unwrap();
    law_only_the_exact_amount_confirms(l, id, at, checks, now);
    crate::reasons::law_mismatch_note_is_refundable(q.gross_amount_atomic, at.observed_amount);
    crate::reasons::law_waiting_wallets_are_refundable();
}

proof fn lemma_traced(ws: Seq<TracedView>, i: int)
    requires
        0 <= i < ws.len(),
        ws[i].wallet.len() > 0,
    ensures
        traced_already(traced(ws), ws[i].wallet),
    decreases ws.len(),
{
    let rest = ws.drop_last();
    let t = traced(rest);
    if i < ws.len() - 1 {
        lemma_traced(rest, i);
        assert(rest[i] == ws[i]);
        let k = choose|k: int| 0 <= k < t.len() && (#[trigger] t[k]).wallet == ws[i].wallet;
        assert(traced(ws)[k] == t[k]);
    } else if !traced_already(t, ws.last().wallet) {
        assert(traced(ws)[t.len() as int].wallet == ws[i].wallet);
    }
}

proof fn lemma_traced_from(ws: Seq<TracedView>, k: int)
    requires
        0 <= k < traced(ws).len(),
    ensures
        traced(ws)[k].wallet.len() > 0,
        exists|i: int|
            0 <= i < ws.len() && #[trigger] ws[i] == traced(ws)[k] && forall|j: int|
                0 <= j < i ==> (#[trigger] ws[j]).wallet != ws[i].wallet,
    decreases ws.len(),
{
    if ws.len() > 0 {
        let rest = ws.drop_last();
        let t = traced(rest);
        if k < t.len() {
            lemma_traced_from(rest, k);
            let i = choose|i: int|
                0 <= i < rest.len() && #[trigger] rest[i] == t[k] && forall|j: int|
                    0 <= j < i ==> (#[trigger] rest[j]).wallet != rest[i].wallet;
            assert(ws[i] == traced(ws)[k]);
            assert forall|j: int| 0 <= j < i implies (#[trigger] ws[j]).wallet != ws[i].wallet by {
                assert(rest[j] == ws[j]);
            }
        } else {
            let i = ws.len() - 1;
            assert(ws[i] == traced(ws)[k]);
            assert forall|j: int| 0 <= j < i implies (#[trigger] ws[j]).wallet != ws[i].wallet by {
                if ws[j].wallet == ws[i].wallet {
                    lemma_traced(rest, j);
                    assert(rest[j] == ws[j]);
                }
            }
        }
    }
}

proof fn lemma_latest(ts: Seq<TracedView>)
    ensures
        latest_retry(ts) is None <==> forall|i: int|
            0 <= i < ts.len() ==> (#[trigger] ts[i]).retry_after is None,
        latest_retry(ts) matches Some(t) ==> (exists|i: int|
            0 <= i < ts.len() && (#[trigger] ts[i]).retry_after == Some(t)) && forall|i: int|
            0 <= i < ts.len() ==> ((#[trigger] ts[i]).retry_after matches Some(u) ==> u <= t),
    decreases ts.len(),
{
    if ts.len() > 0 {
        let rest = ts.drop_last();
        lemma_latest(rest);
        assert(ts[ts.len() - 1] == ts.last());
        assert forall|i: int| 0 <= i < rest.len() implies ts[i] == #[trigger] rest[i] by {}
        if latest_retry(rest) is None && ts.last().retry_after is None {
            assert forall|i: int| 0 <= i < ts.len() implies (#[trigger] ts[i]).retry_after is None by {
                if i < rest.len() {
                    assert(rest[i].retry_after is None);
                }
            }
        }
        if let Some(t) = latest_retry(rest) {
            let i = choose|i: int| 0 <= i < rest.len() && (#[trigger] rest[i]).retry_after == Some(t);
            assert(ts[i].retry_after == Some(t));
        }
        if let Some(t) = latest_retry(ts) {
            assert forall|i: int| 0 <= i < ts.len() implies ((#[trigger] ts[i]).retry_after matches Some(
                u,
            ) ==> u <= t) by {
                if i < rest.len() {
                    assert(ts[i] == rest[i]);
                }
            }
        }
    }
}

proof fn lemma_burst(ts: Seq<TracedView>)
    ensures
        first_burst(ts) is None <==> forall|i: int|
            0 <= i < ts.len() ==> (#[trigger] ts[i]).burst is None,
        first_burst(ts) is Some ==> exists|i: int|
            0 <= i < ts.len() && (#[trigger] ts[i]).burst == first_burst(ts) && forall|j: int|
                0 <= j < i ==> (#[trigger] ts[j]).burst is None,
    decreases ts.len(),
{
    if ts.len() > 0 {
        let rest = ts.drop_last();
        lemma_burst(rest);
        assert(ts[ts.len() - 1] == ts.last());
        assert forall|i: int| 0 <= i < rest.len() implies ts[i] == #[trigger] rest[i] by {}
        if first_burst(rest) is Some {
            let i = choose|i: int|
                0 <= i < rest.len() && (#[trigger] rest[i]).burst == first_burst(rest) && forall|
                    j: int,
                |
                    0 <= j < i ==> (#[trigger] rest[j]).burst is None;
            assert(ts[i].burst == first_burst(ts));
            assert forall|j: int| 0 <= j < i implies (#[trigger] ts[j]).burst is None by {
                assert(rest[j].burst is None);
            }
        } else {
            assert forall|j: int| 0 <= j < rest.len() implies (#[trigger] ts[j]).burst is None by {
                assert(rest[j].burst is None);
            }
            if first_burst(ts) is Some {
                assert(ts[ts.len() - 1].burst == first_burst(ts));
            }
        }
    }
}

/// What is known of a deposit's wallets is what its named wallets say, each
/// taken the first time that it is named. The first one is kept as the source. The
/// source has to wait where one of them has to, until the latest of their moments.
/// A burst is the first that is found; one found without a wallet counts only
/// where no wallet is named. What the destination has to wait is passed on.
pub proof fn law_every_named_wallet_is_heard(
    ws: Seq<TracedView>,
    destination: Option<i64>,
    untraced: Option<RapidBurstMatch>,
)
    ensures
        ({
            let c = deposit_checks(ws, destination, untraced);
            let heard = |i: int|
                0 <= i < ws.len() && ws[i].wallet.len() > 0 && forall|j: int|
                    0 <= j < i ==> (#[trigger] ws[j]).wallet != ws[i].wallet;
            let nobody = forall|i: int| 0 <= i < ws.len() ==> (#[trigger] ws[i]).wallet.len() == 0;
            &&& c.eligibility.destination_retry_after == destination
            &&& c.primary_source_wallet is None <==> nobody
            &&& c.primary_source_wallet matches Some(w) ==> exists|i: int|
                #![trigger ws[i]]
                heard(i) && ws[i].wallet == w && forall|j: int|
                    0 <= j < i ==> (#[trigger] ws[j]).wallet.len() == 0
            &&& forall|i: int| #![trigger ws[i]]
                heard(i) ==> (ws[i].retry_after matches Some(u)
                    ==> c.eligibility.source_retry_after matches Some(t) && u <= t)
            &&& c.eligibility.source_retry_after matches Some(t) ==> exists|i: int|
                #![trigger ws[i]]
                heard(i) && ws[i].retry_after == Some(t)
            &&& nobody ==> c.burst == untraced
            &&& !nobody ==> (c.burst is Some <==> exists|i: int|
                #![trigger ws[i]]
                heard(i) && ws[i].burst is Some)
            &&& !nobody && c.burst is Some ==> exists|i: int|
                #![trigger ws[i]]
                heard(i) && ws[i].burst == c.burst
        }),
{
    let c = deposit_checks(ws, destination, untraced);
    let t = traced(ws);
    let heard = |i: int|
        0 <= i < ws.len() && ws[i].wallet.len() > 0 && forall|j: int|
            0 <= j < i ==> (#[trigger] ws[j]).wallet != ws[i].wallet;
    lemma_latest(t);
    lemma_burst(t);
    assert forall|i: int| #![trigger ws[i]] heard(i) implies exists|k: int|
        0 <= k < t.len() && #[trigger] t[k] == ws[i] by {
        lemma_traced(ws, i);
        let k = choose|k: int| 0 <= k < t.len() && (#[trigger] t[k]).wallet == ws[i].wallet;
        lemma_traced_from(ws, k);
        let i2 = choose|i2: int|
            0 <= i2 < ws.len() && #[trigger] ws[i2] == t[k] && forall|j: int|
                0 <= j < i2 ==> (#[trigger] ws[j]).wallet != ws[i2].wallet;
        if i2 < i {
            assert(ws[i2].wallet != ws[i].wallet);
        }
        if i < i2 {
            assert(ws[i].wallet != ws[i2].wallet);
        }
        assert(t[k] == ws[i]);
    }
    assert forall|k: int| 0 <= k < t.len() implies exists|i: int|
        #![trigger ws[i]]
        heard(i) && ws[i] == #[trigger] t[k] by {
        lemma_traced_from(ws, k);
        let i = choose|i: int|
            0 <= i < ws.len() && #[trigger] ws[i] == t[k] && forall|j: int|
                0 <= j < i ==> (#[trigger] ws[j]).wallet != ws[i].wallet;
        assert(heard(i) && ws[i] == t[k]);
    }
    lemma_first_traced(ws);
    if t.len() > 0 {
        let i = choose|i: int| #![trigger ws[i]] heard(i) && ws[i] == t[0];
        assert(ws[i].wallet.len() > 0);
    }
    assert forall|i: int| 0 <= i < ws.len() && t.len() == 0 implies (#[trigger] ws[i]).wallet.len()
        == 0 by {
        if ws[i].wallet.len() > 0 {
            lemma_traced(ws, i);
        }
    }
    if let Some(x) = c.eligibility.source_retry_after {
        let k = choose|k: int| 0 <= k < t.len() && (#[trigger] t[k]).retry_after == Some(x);
        let i = choose|i: int| #![trigger ws[i]] heard(i) && ws[i] == t[k];
        assert(heard(i) && ws[i].retry_after == Some(x));
    }
    if t.len() > 0 && c.burst is Some {
        let k = choose|k: int| 0 <= k < t.len() && (#[trigger] t[k]).burst == first_burst(t);
        let i = choose|i: int| #![trigger ws[i]] heard(i) && ws[i] == t[k];
        assert(heard(i) && ws[i].burst == c.burst);
    }
}

proof fn lemma_first_traced(ws: Seq<TracedView>)
    ensures
        traced(ws).len() > 0 ==> exists|i: int|
            #![trigger ws[i]]
            0 <= i < ws.len() && ws[i] == traced(ws)[0] && ws[i].wallet.len() > 0 && forall|j: int|
                0 <= j < i ==> (#[trigger] ws[j]).wallet.len() == 0,
    decreases ws.len(),
{
    if ws.len() > 0 {
        let rest = ws.drop_last();
        let t = traced(rest);
        lemma_first_traced(rest);
        if t.len() > 0 {
            let i = choose|i: int|
                #![trigger rest[i]]
                0 <= i < rest.len() && rest[i] == t[0] && rest[i].wallet.len() > 0 && forall|j: int|
                    0 <= j < i ==> (#[trigger] rest[j]).wallet.len() == 0;
            assert(ws[i] == traced(ws)[0]);
            assert forall|j: int| 0 <= j < i implies (#[trigger] ws[j]).wallet.len() == 0 by {
                assert(rest[j] == ws[j]);
            }
        } else if traced(ws).len() > 0 {
            let i = ws.len() - 1;
            assert(ws[i] == traced(ws)[0]);
            assert forall|j: int| 0 <= j < i implies (#[trigger] ws[j]).wallet.len() == 0 by {
                assert(rest[j] == ws[j]);
                if ws[j].wallet.len() > 0 {
                    lemma_traced(rest, j);
                }
            }
        }
    }
}

} // verus!
