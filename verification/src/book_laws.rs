//! What reserving, finalising, orphaning and controlling comes to in the books.
use vstd::prelude::*;
use crate::audit::{
    AdminAuditFilter, complete_entry, numbered_admin, numbered_finding, wanted_finding,
};
use crate::chain::{
    ReconcileUnmatchedDepositOutcome, at_height, orphaned, orphaned_late, unmatched_at, up_to,
};
use crate::error::LedgerError;
use crate::finality::unsighted;
use crate::fold_laws::gate_after;
use crate::ledger::{
    LedgerView, ReserveRow, ReserveTable, by_id, lemma_request_id, lemma_with_request,
};
use crate::query_laws::lemma_selection;
use crate::requests::{CreateRequestOutcome, given_wallet, other_script_owner};
use crate::review_laws::room;
use crate::rows::{
    AdminAuditView, FindingView, IndexedBlockView, RequestView, UnmatchedDepositView,
};
use crate::settlement::release_expected;
use crate::splits::sent_split;
use crate::table::{
    any_row, first_row, is_first, lemma_count_bound, lemma_first_row, lemma_first_row_is_first,
    lemma_selected, lemma_selects_all, max_rows, select_rows, text_of,
};
use crate::types::{
    Direction, ManualReviewDisposition, RequestAmounts, RequestState, ReserveDirection,
    RouteWalletEligibility, SourceChain, SplitState,
};

verus! {

/// The books of one reserve are read and written apart from the others'.
pub proof fn law_reserves_are_kept_apart(
    t: ReserveTable,
    d: ReserveDirection,
    e: ReserveDirection,
    r: ReserveRow,
)
    ensures
        t.with_row(d, r).row(d) == Some(r),
        d != e ==> t.with_row(d, r).row(e) == t.row(e),
        t.row(ReserveDirection::GoldcoinReserve) == t.goldcoin,
        t.row(ReserveDirection::SolanaReserve) == t.solana,
        t.row(ReserveDirection::RobinhoodReserve) == t.robinhood,
        r.headroom() + r.protected_minimum + r.reserved_liquidity == r.total_reserve_balance,
        r.solvent() <==> r.total_reserve_balance - r.protected_minimum >= r.reserved_liquidity,
{
}

/// Liquidity is reserved for a transfer exactly where the reserve that it draws on is not
/// paused, no wallet has to wait and the headroom covers the payout, up to the last unit.
/// A pause is told before a wallet, and a wallet before a lack of headroom, which is told
/// with what there is.
pub proof fn law_liquidity_is_reserved_where_there_is_any(
    l: LedgerView,
    direction: Direction,
    amounts: RequestAmounts,
    e: RouteWalletEligibility,
    r: ReserveRow,
)
    requires
        match direction {
            Direction::SolToGlc | Direction::RhnToGlc => l.reserves.goldcoin == Some(r),
            Direction::GlcToSol | Direction::RhnToSol => l.reserves.solana == Some(r),
            Direction::GlcToRhn | Direction::SolToRhn => l.reserves.robinhood == Some(r),
        },
        amounts.storable(),
        i64::MIN <= room(r) <= i64::MAX,
        r.reserved_liquidity + amounts.net_destination_atomic <= i64::MAX,
        l.next_request_id < i64::MAX,
    ensures
        l.create_outcome(direction, amounts, e) == Ok::<CreateRequestOutcome, LedgerError>(
            if r.paused {
                CreateRequestOutcome::Paused
            } else if e.source_retry_after is Some || e.destination_retry_after is Some {
                CreateRequestOutcome::WalletLimited { eligibility: e }
            } else if amounts.net_destination_atomic > room(r) {
                CreateRequestOutcome::InsufficientLiquidity { available_capacity: room(r) as i64 }
            } else {
                CreateRequestOutcome::Reserved { request_id: l.next_request_id }
            },
        ),
{
}

/// A reservation is recorded as it was asked for and waits for its deposit until it
/// lapses; the reserve that it draws on promises exactly its payout, owes nothing for it
/// yet, and no other figure changes.
pub proof fn law_a_reservation_promises_its_payout(
    l: LedgerView,
    direction: Direction,
    amounts: RequestAmounts,
    recipient: Seq<u8>,
    requester: Option<[u8; 32]>,
    wallet: Option<Seq<u8>>,
    expires_at: i64,
    now: i64,
    r: ReserveRow,
)
    requires
        match direction {
            Direction::SolToGlc | Direction::RhnToGlc => l.reserves.goldcoin == Some(r),
            Direction::GlcToSol | Direction::RhnToSol => l.reserves.solana == Some(r),
            Direction::GlcToRhn | Direction::SolToRhn => l.reserves.robinhood == Some(r),
        },
        amounts.storable(),
        r.reserved_liquidity + amounts.net_destination_atomic <= i64::MAX,
        l.next_request_id < i64::MAX,
    ensures
        ({
            let m = l.with_reservation(
                direction,
                amounts,
                recipient,
                requester,
                wallet,
                expires_at,
                now,
            );
            let q = m.requests.last();
            let after = Some(
                ReserveRow {
                    reserved_liquidity: (r.reserved_liquidity
                        + amounts.net_destination_atomic) as i64,
                    ..r
                },
            );
            &&& m.requests.len() == l.requests.len() + 1 && m.next_request_id == l.next_request_id
                + 1
            &&& q.id == l.next_request_id && q.direction == direction && q.state
                == RequestState::AwaitingDeposit
            &&& q.gross_amount_atomic == amounts.gross_atomic && q.fee_amount_atomic
                == amounts.fee_atomic && q.fee_bps == amounts.fee_bps && q.net_amount_atomic
                == amounts.net_atomic && q.net_destination_atomic == amounts.net_destination_atomic
            &&& q.recipient == recipient && q.requester == requester && q.source_wallet == wallet
            &&& q.reservation_expires_at == Some(expires_at) && q.reserved_at == Some(now)
                && q.created_at == now
            &&& q.source_txid is None && q.source_vout is None && q.source_finalized_at is None
                && q.manual_review_note is None && q.destination_txid is None && q.settled_at is None
                && q.observed_amount_atomic is None && q.deposit_address is None
                && q.source_confirmations == 0 && q.source_chain == SourceChain::Goldcoin
                && q.manual_review_disposition == ManualReviewDisposition::Normal
                && q.operator_decision is None && q.settlement_claim_hash is None
            &&& match direction {
                Direction::SolToGlc | Direction::RhnToGlc => m.reserves.goldcoin == after
                    && m.reserves.solana == l.reserves.solana && m.reserves.robinhood
                    == l.reserves.robinhood,
                Direction::GlcToSol | Direction::RhnToSol => m.reserves.solana == after
                    && m.reserves.goldcoin == l.reserves.goldcoin && m.reserves.robinhood
                    == l.reserves.robinhood,
                Direction::GlcToRhn | Direction::SolToRhn => m.reserves.robinhood == after
                    && m.reserves.goldcoin == l.reserves.goldcoin && m.reserves.solana
                    == l.reserves.solana,
            }
        }),
{
}

/// A wallet counts as given where it names anything.
pub proof fn law_an_empty_wallet_is_none(w: &[u8])
    ensures
        w@.len() > 0 ==> given_wallet(Some(w)) == Some(w@),
        w@.len() == 0 ==> given_wallet(Some(w)) is None,
        given_wallet(None) is None,
{
}

/// Cancelling ends a request with the operator's note and frees exactly what it had
/// promised.
pub proof fn law_a_cancelled_request_frees_its_promise(
    l: LedgerView,
    id: i64,
    q: RequestView,
    now: i64,
    note: Seq<char>,
    r: ReserveRow,
)
    requires
        l.request(id) == Some(q),
        match q.direction {
            Direction::SolToGlc | Direction::RhnToGlc => l.reserves.goldcoin == Some(r),
            Direction::GlcToSol | Direction::RhnToSol => l.reserves.solana == Some(r),
            Direction::GlcToRhn | Direction::SolToRhn => l.reserves.robinhood == Some(r),
        },
        i64::MIN <= r.reserved_liquidity - q.net_destination_atomic <= i64::MAX,
    ensures
        ({
            let m = l.cancelled(id, now, note);
            let after = match q.direction {
                Direction::SolToGlc | Direction::RhnToGlc => m.reserves.goldcoin,
                Direction::GlcToSol | Direction::RhnToSol => m.reserves.solana,
                Direction::GlcToRhn | Direction::SolToRhn => m.reserves.robinhood,
            };
            &&& l.cancel_result(id) == Ok::<(), LedgerError>(())
            &&& m.request(id) == Some(
                RequestView {
                    state: RequestState::Cancelled,
                    manual_review_note: Some(note),
                    ..q
                },
            )
            &&& after == Some(
                ReserveRow {
                    reserved_liquidity: (r.reserved_liquidity - q.net_destination_atomic) as i64,
                    ..r
                },
            )
            &&& m.state_log.last().reason == Some(note) && m.state_log.last().actor == "operator"@
        }),
{
    lemma_request_id(l, id);
    let row = RequestView {
        state: RequestState::Cancelled,
        manual_review_note: Some(note),
        ..q
    };
    lemma_with_request(l, id, row);
    let m = l.cancelled(id, now, note);
    assert(m.requests == l.with_request(id, row).requests);
    assert(m.request(id) == l.with_request(id, row).request(id));
}

/// A deposit address is given to a request from Goldcoin that has none and whose script no
/// other request has; it is then kept, and the same one may be given again.
pub proof fn law_a_deposit_address_is_given_once(
    l: LedgerView,
    id: i64,
    q: RequestView,
    address: Seq<char>,
    script: Seq<char>,
    redeem: Seq<char>,
)
    requires
        l.request(id) == Some(q),
    ensures
        ({
            let m = l.with_deposit_address(id, address, script, redeem);
            let taken = exists|i: int|
                0 <= i < l.requests.len() && (#[trigger] l.requests[i]).id != id
                    && l.requests[i].deposit_script_pubkey_hex == Some(script);
            &&& l.deposit_address_result(id, address, script) is Ok <==> (q.direction
                == Direction::GlcToSol || q.direction == Direction::GlcToRhn) && (
            if q.deposit_address is Some {
                q.deposit_address == Some(address)
            } else {
                !taken
            })
            &&& m.request(id) == Some(
                if q.deposit_address is Some {
                    q
                } else {
                    RequestView {
                        deposit_address: Some(address),
                        deposit_script_pubkey_hex: Some(script),
                        deposit_redeem_script_hex: Some(redeem),
                        ..q
                    }
                },
            )
        }),
{
    lemma_request_id(l, id);
    let row = RequestView {
        deposit_address: Some(address),
        deposit_script_pubkey_hex: Some(script),
        deposit_redeem_script_hex: Some(redeem),
        ..q
    };
    lemma_with_request(l, id, row);
    let p = other_script_owner(id, script);
    if any_row(l.requests, p) {
        let i = choose|i: int| 0 <= i < l.requests.len() && p(#[trigger] l.requests[i]);
        assert(l.requests[i].id != id);
    }
    assert forall|i: int|
        0 <= i < l.requests.len() && (#[trigger] l.requests[i]).id != id
            && l.requests[i].deposit_script_pubkey_hex == Some(script) implies any_row(
        l.requests,
        p,
    ) by {
        assert(p(l.requests[i]));
    }
}

/// A deposit that becomes final is owed: the reserve that its request draws on owes the
/// payout from then on, which it had promised all along.
pub proof fn law_a_final_deposit_is_owed(
    l: LedgerView,
    id: i64,
    q: RequestView,
    now: i64,
    r: ReserveRow,
)
    requires
        l.request(id) == Some(q),
        q.state == RequestState::Confirming,
        (q.direction == Direction::GlcToSol && l.reserves.solana == Some(r)) || (q.direction
            == Direction::GlcToRhn && l.reserves.robinhood == Some(r)),
        i64::MIN <= r.pending_obligations + q.net_destination_atomic <= i64::MAX,
    ensures
        ({
            let m = l.finalized(id, now);
            let after = Some(
                ReserveRow {
                    pending_obligations: (r.pending_obligations + q.net_destination_atomic) as i64,
                    ..r
                },
            );
            &&& l.finalize_result(id) == Ok::<(), LedgerError>(())
            &&& m.request(id) == Some(
                RequestView {
                    state: RequestState::SourceFinalized,
                    source_finalized_at: Some(now),
                    ..q
                },
            )
            &&& q.direction == Direction::GlcToSol ==> m.reserves.solana == after
                && m.reserves.robinhood == l.reserves.robinhood
            &&& q.direction == Direction::GlcToRhn ==> m.reserves.robinhood == after
                && m.reserves.solana == l.reserves.solana
            &&& m.reserves.goldcoin == l.reserves.goldcoin
        }),
{
    lemma_request_id(l, id);
    let row = RequestView {
        state: RequestState::SourceFinalized,
        source_finalized_at: Some(now),
        ..q
    };
    lemma_with_request(l, id, row);
    let m = l.finalized(id, now);
    assert(m.requests == l.with_request(id, row).requests);
    assert(m.request(id) == l.with_request(id, row).request(id));
}

/// A deposit whose block was orphaned is forgotten, and its request waits for it again
/// with its promise.
pub proof fn law_an_orphaned_deposit_is_waited_for_again(
    l: LedgerView,
    id: i64,
    q: RequestView,
    now: i64,
)
    requires
        l.request(id) == Some(q),
    ensures
        l.reorged(id, now).request(id) == Some(
            (RequestView {
                state: RequestState::AwaitingDeposit,
                source_txid: None,
                source_vout: None,
                source_block_height: None,
                source_block_hash: None,
                source_confirmations: 0,
                ..q
            }),
        ),
        l.reorged(id, now).reserves == l.reserves,
{
    lemma_request_id(l, id);
    lemma_with_request(l, id, unsighted(q));
    let m = l.reorged(id, now);
    assert(m.requests == l.with_request(id, unsighted(q)).requests);
    assert(m.request(id) == l.with_request(id, unsighted(q)).request(id));
}

/// A deposit is orphaned by a fork exactly where it is from Goldcoin, seen and not final,
/// in a block above the fork; it is orphaned too late where it was final already.
pub proof fn law_a_fork_orphans_what_lies_above_it(q: RequestView, height: i64)
    ensures
        orphaned(height)(q) <==> (q.direction == Direction::GlcToSol || q.direction
            == Direction::GlcToRhn) && (q.state == RequestState::DepositObserved || q.state
            == RequestState::Confirming) && q.source_block_height is Some
            && q.source_block_height.unwrap() > height,
        orphaned_late(height)(q) <==> (q.direction == Direction::GlcToSol || q.direction
            == Direction::GlcToRhn) && q.source_finalized_at is Some
            && q.source_block_height is Some && q.source_block_height.unwrap() > height,
{
}

proof fn lemma_reorged_each(l: LedgerView, ids: Seq<i64>, k: int, now: i64, id: i64, q: RequestView)
    requires
        0 <= k <= ids.len(),
        l.request(id) == Some(q),
    ensures
        l.reorged_all(ids, k, now).request(id) == Some(
            if ids.take(k).contains(id) {
                unsighted(q)
            } else {
                q
            },
        ),
    decreases k,
{
    if k > 0 {
        lemma_reorged_each(l, ids, k - 1, now, id, q);
        let m = l.reorged_all(ids, k - 1, now);
        let other = ids[k - 1];
        let t = ids.take(k);
        let u = ids.take(k - 1);
        assert(t.drop_last() =~= ids.take(k - 1));
        assert(t.last() == other);
        assert(t.contains(id) <==> ids.take(k - 1).contains(id) || other == id) by {
            if ids.take(k - 1).contains(id) {
                let i = choose|i: int| 0 <= i < u.len() && u[i] == id;
                assert(t[i] == id);
            }
            if other == id {
                assert(t[k - 1] == id);
            }
            if t.contains(id) {
                let i = choose|i: int| 0 <= i < t.len() && t[i] == id;
                if i < k - 1 {
                    assert(u[i] == id);
                }
            }
        }
        if m.request(other) is Some {
            lemma_request_id(m, other);
            let x = m.request(other).unwrap();
            lemma_with_request(m, other, unsighted(x));
            let n = m.reorged(other, now);
            assert(n.requests == m.with_request(other, unsighted(x)).requests);
            assert(n.request(id) == m.with_request(other, unsighted(x)).request(id));
        }
    } else {
        assert(!ids.take(0).contains(id));
    }
}

/// Rolling the chain back to a fork resets every deposit that lies above it and is not
/// final, and no other request; the blocks above the fork are forgotten, the event is
/// recorded with how many it cost, and no figure changes.
pub proof fn law_a_rollback_resets_what_lies_above_the_fork(
    l: LedgerView,
    fork_height: i64,
    fork_hash: [u8; 32],
    old_tip_height: i64,
    old_tip_hash: [u8; 32],
    now: i64,
    id: i64,
    q: RequestView,
    b: IndexedBlockView,
)
    requires
        l.numbered(),
        l.request(id) == Some(q),
    ensures
        ({
            let m = l.rolled_back(fork_height, fork_hash, old_tip_height, old_tip_hash, now);
            let above = (q.direction == Direction::GlcToSol || q.direction == Direction::GlcToRhn)
                && (q.state == RequestState::DepositObserved || q.state
                == RequestState::Confirming) && q.source_block_height is Some
                && q.source_block_height.unwrap() > fork_height;
            let e = m.chain.reorgs.last();
            &&& m.request(id) == Some(
                if above {
                    RequestView {
                        state: RequestState::AwaitingDeposit,
                        source_txid: None,
                        source_vout: None,
                        source_block_height: None,
                        source_block_hash: None,
                        source_confirmations: 0,
                        ..q
                    }
                } else {
                    q
                },
            )
            &&& m.chain.blocks.contains(b) <==> l.chain.blocks.contains(b) && b.height
                <= fork_height
            &&& m.chain.reorgs.len() == l.chain.reorgs.len() + 1 && e.fork_height == fork_height
                && e.new_tip_height == fork_height && e.new_tip_hash == fork_hash
                && e.old_tip_height == old_tip_height && e.old_tip_hash == old_tip_hash
                && e.detected_at == now && e.orphaned_count == l.orphans(fork_height).len() as i64
        }),
{
    let p = orphaned(fork_height);
    let sel = select_rows(l.requests, p);
    let ids = l.orphans(fork_height);
    let n = ids.len() as int;
    lemma_reorged_each(l, ids, n, now, id, q);
    assert(ids.take(n) =~= ids);
    lemma_first_row_is_first(l.requests, by_id(id));
    let at = l.pos(id).unwrap();
    if p(q) {
        lemma_selects_all(l.requests, p, at);
        let j = choose|j: int| 0 <= j < sel.len() && sel[j] == q;
        assert(ids[j] == id);
    }
    if ids.contains(id) {
        let j = choose|j: int| 0 <= j < ids.len() && ids[j] == id;
        lemma_selected(l.requests, p, j);
        let i = choose|i: int| 0 <= i < l.requests.len() && #[trigger] l.requests[i] == sel[j];
        if i < at {
            assert(l.requests[i].id != l.requests[at].id);
        }
        if at < i {
            assert(l.requests[at].id != l.requests[i].id);
        }
    }
    let m = l.rolled_back(fork_height, fork_hash, old_tip_height, old_tip_hash, now);
    assert(m.requests == l.reorged_all(ids, n, now).requests);
    assert(m.request(id) == l.reorged_all(ids, n, now).request(id));
    lemma_selection(l.chain.blocks, up_to(fork_height));
}

proof fn lemma_highest(rows: Seq<IndexedBlockView>)
    ensures
        ({
            let h = max_rows(rows, |b: IndexedBlockView| true, |b: IndexedBlockView| b.height);
            &&& h is None <==> rows.len() == 0
            &&& h matches Some(n) ==> (exists|i: int|
                0 <= i < rows.len() && (#[trigger] rows[i]).height == n) && forall|i: int|
                0 <= i < rows.len() ==> (#[trigger] rows[i]).height <= n
        }),
    decreases rows.len(),
{
    if rows.len() > 0 {
        let rest = rows.drop_last();
        let f = |b: IndexedBlockView| b.height;
        let p = |b: IndexedBlockView| true;
        lemma_highest(rest);
        let top = rows.len() - 1;
        assert(rows[top] == rows.last());
        assert forall|i: int| 0 <= i < rest.len() implies rows[i] == #[trigger] rest[i] by {}
        if let Some(n) = max_rows(rest, p, f) {
            let i = choose|i: int| 0 <= i < rest.len() && (#[trigger] rest[i]).height == n;
            assert(rows[i].height == n);
        }
        if let Some(n) = max_rows(rows, p, f) {
            assert forall|i: int| 0 <= i < rows.len() implies (#[trigger] rows[i]).height <= n by {
                if i < top {
                    assert(rest[i].height == rows[i].height);
                }
            }
        }
    }
}

/// The tip is the highest block that is known, with its hash, and there is none where no
/// block is.
pub proof fn law_the_tip_is_the_highest_block(l: LedgerView)
    ensures
        l.tip() is None <==> l.chain.blocks.len() == 0,
        l.tip() matches Some(t) ==> (exists|i: int|
            0 <= i < l.chain.blocks.len() && (#[trigger] l.chain.blocks[i]).height == t.0
                && l.chain.blocks[i].hash == t.1) && forall|i: int|
            0 <= i < l.chain.blocks.len() ==> (#[trigger] l.chain.blocks[i]).height <= t.0,
{
    lemma_highest(l.chain.blocks);
    let h = max_rows(
        l.chain.blocks,
        |b: IndexedBlockView| true,
        |b: IndexedBlockView| b.height,
    );
    if let Some(n) = h {
        let p = at_height(n);
        let i = choose|i: int|
            0 <= i < l.chain.blocks.len() && (#[trigger] l.chain.blocks[i]).height == n;
        assert(p(l.chain.blocks[i]));
        lemma_first_row_is_first(l.chain.blocks, p);
        let k = first_row(l.chain.blocks, p).unwrap();
        assert(l.chain.blocks[k].height == n);
    }
}

/// A deposit that belongs to no request is explained exactly where a split that was sent
/// made its transaction and the amount is the one that the split expects there. It is
/// explained once, with its note, and nothing else of it changes.
pub proof fn law_an_unmatched_deposit_is_explained_by_a_split(
    l: LedgerView,
    txid: [u8; 32],
    vout: u32,
    d: UnmatchedDepositView,
    expected: Option<u64>,
    note: Seq<char>,
    now: i64,
)
    requires
        l.unmatched(txid, vout) == Some(d),
        d.amount_atomic >= 0,
    ensures
        ({
            let sent = exists|k: int|
                0 <= k < l.splits.len() && (#[trigger] l.splits[k]).txid == Some(txid) && (
                l.splits[k].state == SplitState::Broadcast || l.splits[k].state
                    == SplitState::Confirmed);
            let out = l.reconcile_result(txid, vout, expected);
            let m = l.reconciled(txid, vout, note, now);
            &&& d.reconciled_at is Some ==> out == Ok::<
                ReconcileUnmatchedDepositOutcome,
                LedgerError,
            >(ReconcileUnmatchedDepositOutcome::AlreadyReconciled)
            &&& d.reconciled_at is None ==> (out == Ok::<
                ReconcileUnmatchedDepositOutcome,
                LedgerError,
            >(ReconcileUnmatchedDepositOutcome::Reconciled) <==> sent && expected is Some
                && expected.unwrap() == d.amount_atomic)
            &&& d.reconciled_at is None && !(sent && expected is Some && expected.unwrap()
                == d.amount_atomic) ==> out is Err
            &&& m.unmatched(txid, vout) == Some(
                UnmatchedDepositView {
                    reconciled_at: Some(now),
                    reconciliation_note: Some(note),
                    ..d
                },
            )
            &&& m.chain.unmatched.len() == l.chain.unmatched.len() && m.reserves == l.reserves
                && m.vault_utxos == l.vault_utxos
        }),
{
    let s = sent_split(txid);
    if any_row(l.splits, s) {
        let k = choose|k: int| 0 <= k < l.splits.len() && s(#[trigger] l.splits[k]);
        assert(l.splits[k].txid == Some(txid));
    }
    assert forall|k: int|
        0 <= k < l.splits.len() && (#[trigger] l.splits[k]).txid == Some(txid) && (
        l.splits[k].state == SplitState::Broadcast || l.splits[k].state
            == SplitState::Confirmed) implies any_row(l.splits, s) by {
        assert(s(l.splits[k]));
    }
    let p = unmatched_at(txid, vout);
    lemma_first_row_is_first(l.chain.unmatched, p);
    let i = first_row(l.chain.unmatched, p).unwrap();
    let m = l.reconciled(txid, vout, note, now);
    assert(is_first(m.chain.unmatched, p, i)) by {
        assert forall|j: int| 0 <= j < i implies !p(#[trigger] m.chain.unmatched[j]) by {
            assert(m.chain.unmatched[j] == l.chain.unmatched[j]);
        }
    }
    lemma_first_row(m.chain.unmatched, p, i);
}

/// Looking at the liquidity gate tells the reserve's figures. Goldcoin's gate closes below
/// the buffer, opens again at the reopen mark, and is open without a buffer; its row is
/// written, with the moment, exactly where it moves. Another reserve's is told as open and
/// never moves.
pub proof fn law_the_liquidity_gate_moves_for_goldcoin_only(
    l: LedgerView,
    d: ReserveDirection,
    r: ReserveRow,
    now: i64,
)
    requires
        l.reserves.row(d) == Some(r),
        i64::MIN <= room(r) <= i64::MAX,
        r.admission_reopen_atomic >= r.admission_buffer_atomic,
    ensures
        ({
            let goldcoin = d == ReserveDirection::GoldcoinReserve;
            let closed = goldcoin && gate_after(r);
            let m = l.after_liquidity_gate(d, now);
            &&& l.liquidity_gate(d) matches Ok(g) && g.direction == d && g.closed == closed
                && g.transitioned == (goldcoin && closed != r.liquidity_admission_closed)
                && g.headroom == room(r) && g.buffer_atomic == r.admission_buffer_atomic
                && g.reopen_atomic == r.admission_reopen_atomic
            &&& m.reserves.row(d) == Some(
                if goldcoin && closed != r.liquidity_admission_closed {
                    ReserveRow {
                        liquidity_admission_closed: closed,
                        liquidity_admission_closed_at: Some(now),
                        ..r
                    }
                } else {
                    r
                },
            )
            &&& l.capacity(d) == Ok::<i64, LedgerError>(room(r) as i64)
        }),
{
}

/// A pause is kept with its reason for its own reserve, and read back as it was given.
pub proof fn law_a_pause_keeps_its_reason(
    l: LedgerView,
    d: ReserveDirection,
    e: ReserveDirection,
    r: ReserveRow,
    paused: bool,
    reason: Option<Seq<char>>,
)
    requires
        l.reserves.row(d) == Some(r),
        d != e,
    ensures
        ({
            let m = l.with_pause(d, paused, reason);
            &&& m.reserves.row(d) == Some(ReserveRow { paused, ..r })
            &&& m.reserves.row(e) == l.reserves.row(e)
            &&& m.pause_reasons.text(d) == reason
            &&& m.pause_reasons.text(e) == l.pause_reasons.text(e)
            &&& m.admission_reasons == l.admission_reasons
            &&& l.admission_reasons.with_text(d, reason).text(d) == reason
            &&& l.admission_reasons.with_text(d, reason).text(e) == l.admission_reasons.text(e)
        }),
{
}

/// Goldcoin is admitted while the pool has more outputs than its floor, and always
/// without a floor; the other reserves ask for no outputs.
pub proof fn law_a_floor_is_a_number_of_outputs(l: LedgerView, now: i64, r: ReserveRow)
    requires
        l.reserves.goldcoin == Some(r),
        l.pool_health(now) is Ok,
        l.vault_utxos.len() <= u32::MAX,
    ensures
        l.utxo_liquidity_for_admission(ReserveDirection::GoldcoinReserve, now) is Ok
            <==> r.utxo_pool_min_available_count == 0 || l.utxo_count(l.spendable())
            > r.utxo_pool_min_available_count,
        l.utxo_liquidity_for_admission(ReserveDirection::SolanaReserve, now) is Ok,
        l.utxo_liquidity_for_admission(ReserveDirection::RobinhoodReserve, now) is Ok,
{
    lemma_count_bound(l.vault_utxos, l.spendable());
}

/// The release of a payment into Solana is expected from its submission on, and no other
/// is.
pub proof fn law_only_a_submitted_release_is_expected(q: RequestView)
    ensures
        release_expected(q) <==> (q.direction == Direction::GlcToSol && (q.state
            == RequestState::DestinationSubmitted || q.state == RequestState::Settled)) || (
        q.direction == Direction::RhnToSol && (q.state == RequestState::DestinationSubmitted
            || q.state == RequestState::DestinationConfirmed || q.state
            == RequestState::Settled)),
{
}

/// A line of the administrators' log is complete where it says who, what and why. A page
/// of it has at least one line and at most 200, and 50 where nothing is said; a line is
/// shown under its number, as it was written, where it is of the action and the
/// administrator asked for and before the line asked for.
pub proof fn law_the_administrators_log_is_shown_as_written(
    f: AdminAuditFilter,
    i: int,
    e: AdminAuditView,
)
    requires
        0 <= i < i64::MAX,
    ensures
        complete_entry(e) <==> e.actor.len() > 0 && e.action.len() > 0 && e.note is Some
            && e.note.unwrap().len() > 0,
        1 <= f.spec_page() <= 200,
        f.limit is None ==> f.spec_page() == 50,
        f.limit matches Some(n) ==> 1 <= n <= 200 ==> f.spec_page() == n,
        f.wants()(i, e) <==> (f.before_id is None || i + 1 < f.before_id.unwrap()) && (text_of(
            f.action,
        ) is None || text_of(f.action) == Some(e.action)) && (text_of(f.actor) is None || text_of(
            f.actor,
        ) == Some(e.actor)),
        ({
            let r = numbered_admin(i, e);
            r.id == i + 1 && r.at == e.at && r.actor == e.actor && r.action == e.action && r.target
                == e.target && r.old_value == e.old_value && r.new_value == e.new_value && r.note
                == e.note && r.error == e.error
        }),
{
}

/// A finding is shown under its number, as it was made, for the reserve asked for and
/// before the finding asked for.
pub proof fn law_findings_are_shown_as_made(
    direction: Option<ReserveDirection>,
    before_id: Option<i64>,
    i: int,
    f: FindingView,
)
    requires
        0 <= i < i64::MAX,
    ensures
        wanted_finding(direction, before_id)(i, f) <==> (direction is None || direction == Some(
            f.direction,
        )) && (before_id is None || i + 1 < before_id.unwrap()),
        ({
            let r = numbered_finding(i, f);
            r.id == i + 1 && r.direction == f.direction && r.detected_at == f.detected_at
                && r.expected == f.expected && r.observed == f.observed && r.delta == f.delta
                && r.classification == f.classification && r.auto_paused == f.auto_paused
        }),
{
}

} // verus!
