//! What reserving, seeing, paying out of and splitting the vault's outputs changes.
use vstd::prelude::*;
use crate::coins::{
    broadcast_split_tx, first_seen, outpoints_differ, reserve_prefix, reserved_row, seen_again,
    seen_at, seen_prefix, takable, taken_count,
};
use crate::error::LedgerError;
use crate::ledger::{LedgerView, ReserveRow, lemma_request_id, lemma_with_request};
use crate::payout_steps::{
    destination_seen, input_at, lemma_with_payout, payout_seen, unconfirmed_payout,
};
use crate::payouts::{change_amounts, input_rows, inputs_clash, paid_from};
use crate::resume::{payout_for, sol_refund_for};
use crate::review_laws::{goldcoin_payout, solana_refund_begun};
use crate::rows::{
    ChangeOutpointView, CoinView, ObservedView, PayoutChangeView, PayoutInputView, PayoutView,
    RequestView, VaultSplitView, VaultUtxoView,
};
use crate::splits::{flagged_dead, live_split_of, split_by_id};
use crate::table::{
    any_row, first_row, is_first, lemma_first_row, lemma_first_row_is_first, max_rows,
};
use crate::types::{PayoutState, RequestState, SplitState, VaultUtxoState};
use crate::vault::{
    at_outpoint, change_at, chunks_explainable, live_claim, unfinalized_deposit, zero_conf_held,
};
use crate::vault_laws::{rests_on, split_under_way};

verus! {

/// This output is change of a payout at that depth, and the first on record there.
pub open spec fn is_change_at(l: LedgerView, k: int, txid: [u8; 32], vout: u32) -> bool {
    &&& 0 <= k < l.change_outpoints.len()
    &&& l.change_outpoints[k].txid == txid && l.change_outpoints[k].vout == vout
    &&& forall|j: int|
        0 <= j < k ==> !((#[trigger] l.change_outpoints[j]).txid == txid
            && l.change_outpoints[j].vout == vout)
}

proof fn lemma_change(l: LedgerView, txid: [u8; 32], vout: u32)
    ensures
        forall|k: int| #[trigger]
            is_change_at(l, k, txid, vout) ==> l.change_of(txid, vout) == Some(
                l.change_outpoints[k],
            ),
        l.change_of(txid, vout) is Some ==> exists|k: int| #[trigger]
            is_change_at(l, k, txid, vout),
{
    let p = change_at(txid, vout);
    lemma_first_row_is_first(l.change_outpoints, p);
    assert forall|k: int| #[trigger] is_change_at(l, k, txid, vout) implies l.change_of(txid, vout)
        == Some(l.change_outpoints[k]) by {
        assert(is_first(l.change_outpoints, p, k));
        lemma_first_row(l.change_outpoints, p, k);
    }
    if l.change_of(txid, vout) is Some {
        let k = first_row(l.change_outpoints, p).unwrap();
        assert(is_change_at(l, k, txid, vout));
    }
}

/// A payout may reserve exactly an output that is confirmed deep enough, or its own
/// service's change that is not on hold and is confirmed once or not too deep, where
/// such change may be spent at all; never one that a split under way spends. What is
/// offered as unconfirmed change is, besides, no deposit that is not final.
pub proof fn law_what_a_payout_may_reserve(l: LedgerView, v: VaultUtxoView, max_depth: u32)
    ensures
        ({
            let claimed = exists|k: int|
                0 <= k < l.splits.len() && #[trigger] split_under_way(l, k, v.txid, v.vout);
            let rested = exists|i: int|
                0 <= i < l.requests.len() && rests_on(#[trigger] l.requests[i], v.txid, v.vout);
            let change = max_depth > 0 && v.state == VaultUtxoState::Unconfirmed
                && v.zero_conf_hold_reason is None && exists|k: int| #[trigger]
                is_change_at(l, k, v.txid, v.vout) && (v.confirmations >= 1
                    || l.change_outpoints[k].unconfirmed_ancestor_depth <= max_depth);
            &&& l.reservable(max_depth)(v) <==> (v.state == VaultUtxoState::Available || change)
                && !claimed
            &&& l.zero_conf_pool(max_depth)(v) <==> change && !rested
        }),
{
    lemma_change(l, v.txid, v.vout);
    let c = live_claim(v.txid, v.vout);
    if any_row(l.splits, c) {
        let k = choose|k: int| 0 <= k < l.splits.len() && c(#[trigger] l.splits[k]);
        assert(split_under_way(l, k, v.txid, v.vout));
    }
    assert forall|k: int|
        0 <= k < l.splits.len() && #[trigger] split_under_way(l, k, v.txid, v.vout) implies any_row(
        l.splits,
        c,
    ) by {
        assert(c(l.splits[k]));
    }
    let u = unfinalized_deposit(v.txid, v.vout);
    if any_row(l.requests, u) {
        let i = choose|i: int| 0 <= i < l.requests.len() && u(#[trigger] l.requests[i]);
        assert(rests_on(l.requests[i], v.txid, v.vout));
    }
    assert forall|i: int|
        0 <= i < l.requests.len() && rests_on(#[trigger] l.requests[i], v.txid, v.vout) implies any_row(
        l.requests,
        u,
    ) by {
        assert(u(l.requests[i]));
    }
}

proof fn lemma_reserving(
    rows: Seq<VaultUtxoView>,
    ok: spec_fn(VaultUtxoView) -> bool,
    coins: Seq<CoinView>,
    k: int,
    id: i64,
    now: i64,
)
    requires
        0 <= k <= coins.len(),
        outpoints_differ(rows),
        forall|v: VaultUtxoView| #[trigger] ok(v) ==> v.state != VaultUtxoState::Reserved,
    ensures
        ({
            let t = reserve_prefix(rows, ok, coins, k, id, now);
            &&& t.len() == rows.len()
            &&& taken_count(rows, ok, coins, k, id, now) <= k
            &&& forall|i: int|
                0 <= i < rows.len() ==> #[trigger] t[i] == rows[i] || (t[i] == reserved_row(
                    rows[i],
                    id,
                    now,
                ) && ok(rows[i]) && exists|j: int|
                    0 <= j < k && (#[trigger] coins[j]).txid == rows[i].txid && coins[j].vout
                        == rows[i].vout)
            &&& taken_count(rows, ok, coins, k, id, now) == k ==> forall|j: int|
                0 <= j < k ==> exists|i: int|
                    0 <= i < rows.len() && #[trigger] t[i] == reserved_row(rows[i], id, now) && ok(
                        rows[i],
                    ) && rows[i].txid == (#[trigger] coins[j]).txid && rows[i].vout == coins[j].vout
        }),
    decreases k,
{
    if k > 0 {
        lemma_reserving(rows, ok, coins, k - 1, id, now);
        let s = reserve_prefix(rows, ok, coins, k - 1, id, now);
        let t = reserve_prefix(rows, ok, coins, k, id, now);
        let p = takable(coins[k - 1], ok);
        lemma_first_row_is_first(s, p);
        match first_row(s, p) {
            Some(x) => {
                assert(ok(s[x]));
                assert(s[x] == rows[x]);
                assert forall|i: int| 0 <= i < rows.len() implies #[trigger] t[i] == rows[i] || (
                t[i] == reserved_row(rows[i], id, now) && ok(rows[i]) && exists|j: int|
                    0 <= j < k && (#[trigger] coins[j]).txid == rows[i].txid && coins[j].vout
                        == rows[i].vout) by {
                    if i == x {
                        assert(coins[k - 1].txid == rows[i].txid);
                    } else {
                        assert(t[i] == s[i]);
                    }
                }
                if taken_count(rows, ok, coins, k, id, now) == k {
                    assert forall|j: int| 0 <= j < k implies exists|i: int|
                        0 <= i < rows.len() && #[trigger] t[i] == reserved_row(rows[i], id, now)
                            && ok(rows[i]) && rows[i].txid == (#[trigger] coins[j]).txid
                            && rows[i].vout == coins[j].vout by {
                        if j == k - 1 {
                            assert(t[x] == reserved_row(rows[x], id, now));
                        } else {
                            let i = choose|i: int|
                                0 <= i < rows.len() && #[trigger] s[i] == reserved_row(
                                    rows[i],
                                    id,
                                    now,
                                ) && ok(rows[i]) && rows[i].txid == coins[j].txid && rows[i].vout
                                    == coins[j].vout;
                            assert(i != x);
                            assert(t[i] == s[i]);
                        }
                    }
                }
            },
            None => {},
        }
    }
}

/// A payout reserves all the outputs that it asks for, or none. Each that it gets was
/// free for it, at the outpoint asked for, and is then its own since that moment; every
/// other output stays as it was.
pub proof fn law_reserving_takes_what_was_asked_for(
    l: LedgerView,
    coins: Seq<CoinView>,
    max_depth: u32,
    id: i64,
    now: i64,
    i: int,
    j: int,
)
    requires
        outpoints_differ(l.vault_utxos),
        taken_count(l.vault_utxos, l.reservable(max_depth), coins, coins.len() as int, id, now)
            == coins.len(),
        0 <= i < l.vault_utxos.len(),
        0 <= j < coins.len(),
    ensures
        ({
            let t = reserve_prefix(
                l.vault_utxos,
                l.reservable(max_depth),
                coins,
                coins.len() as int,
                id,
                now,
            );
            let v = l.vault_utxos[i];
            let asked = exists|j: int|
                0 <= j < coins.len() && (#[trigger] coins[j]).txid == v.txid && coins[j].vout
                    == v.vout;
            &&& t.len() == l.vault_utxos.len()
            &&& t[i] == (if asked {
                VaultUtxoView {
                    state: VaultUtxoState::Reserved,
                    reserved_by: Some(id),
                    reserved_at: Some(now),
                    ..v
                }
            } else {
                v
            })
            &&& asked ==> l.reservable(max_depth)(v)
            &&& exists|n: int|
                0 <= n < l.vault_utxos.len() && (#[trigger] l.vault_utxos[n]).txid == coins[j].txid
                    && l.vault_utxos[n].vout == coins[j].vout
        }),
{
    let rows = l.vault_utxos;
    let ok = l.reservable(max_depth);
    let n = coins.len() as int;
    lemma_reserving(rows, ok, coins, n, id, now);
    let t = reserve_prefix(rows, ok, coins, n, id, now);
    let x = choose|x: int|
        0 <= x < rows.len() && #[trigger] t[x] == reserved_row(rows[x], id, now) && ok(rows[x])
            && rows[x].txid == coins[j].txid && rows[x].vout == coins[j].vout;
    assert(rows[x].txid == coins[j].txid);
    if exists|j: int|
        0 <= j < coins.len() && (#[trigger] coins[j]).txid == rows[i].txid && coins[j].vout
            == rows[i].vout {
        let y = choose|y: int|
            0 <= y < coins.len() && (#[trigger] coins[y]).txid == rows[i].txid && coins[y].vout
                == rows[i].vout;
        let z = choose|z: int|
            0 <= z < rows.len() && #[trigger] t[z] == reserved_row(rows[z], id, now) && ok(rows[z])
                && rows[z].txid == coins[y].txid && rows[z].vout == coins[y].vout;
        if z < i {
            assert(!(rows[z].txid == rows[i].txid && rows[z].vout == rows[i].vout));
        }
        if i < z {
            assert(!(rows[i].txid == rows[z].txid && rows[i].vout == rows[z].vout));
        }
        assert(z == i);
    }
}

proof fn lemma_seen_row(
    rows: Seq<VaultUtxoView>,
    observed: Seq<ObservedView>,
    k: int,
    minimum: i64,
    now: i64,
    i: int,
)
    requires
        0 <= k <= observed.len(),
        is_first(rows, at_outpoint(rows[i].txid, rows[i].vout), i),
        forall|a: int, b: int|
            0 <= a < b < observed.len() ==> !((#[trigger] observed[a]).utxo.txid == (
            #[trigger] observed[b]).utxo.txid && observed[a].utxo.vout == observed[b].utxo.vout),
    ensures
        ({
            let t = seen_prefix(rows, observed, k, minimum, now);
            let at = at_outpoint(rows[i].txid, rows[i].vout);
            &&& is_first(t, at, i)
            &&& forall|j: int|
                0 <= j < k && (#[trigger] observed[j]).utxo.txid == rows[i].txid
                    && observed[j].utxo.vout == rows[i].vout ==> t[i]
                    == seen_again(rows[i], observed[j], minimum)
            &&& (forall|j: int|
                0 <= j < k ==> !((#[trigger] observed[j]).utxo.txid == rows[i].txid
                    && observed[j].utxo.vout == rows[i].vout)) ==> t[i] == rows[i]
        }),
    decreases k,
{
    if k > 0 {
        lemma_seen_row(rows, observed, k - 1, minimum, now, i);
        let s = seen_prefix(rows, observed, k - 1, minimum, now);
        let t = seen_prefix(rows, observed, k, minimum, now);
        let o = observed[k - 1];
        let at = at_outpoint(rows[i].txid, rows[i].vout);
        let p = at_outpoint(o.utxo.txid, o.utxo.vout);
        lemma_first_row_is_first(s, p);
        if o.utxo.txid == rows[i].txid && o.utxo.vout == rows[i].vout {
            lemma_first_row(s, at, i);
            assert(first_row(s, p) == Some(i));
            assert forall|j: int|
                0 <= j < k && (#[trigger] observed[j]).utxo.txid == rows[i].txid
                    && observed[j].utxo.vout == rows[i].vout implies t[i]
                == seen_again(rows[i], observed[j], minimum) by {
                assert(j == k - 1);
            }
            assert forall|j: int| 0 <= j < i implies !at(#[trigger] t[j]) by {
                assert(t[j] == s[j]);
            }
        } else {
            assert forall|j: int| 0 <= j < i implies !at(#[trigger] t[j]) by {
                assert(!at(s[j]));
            }
            assert(t[i] == s[i]);
        }
    }
}

/// An output that the node reports once takes over how deep it lies. It is available
/// where that is deep enough and immature where it is not, unless a request holds it or
/// this service spent it. One that the node no longer reports is spent, unless a request
/// holds it, or a split that was sent made it and the node has yet to see it. Nothing
/// else of it changes.
pub proof fn law_a_sync_follows_the_node(
    l: LedgerView,
    observed: Seq<ObservedView>,
    minimum: i64,
    now: i64,
    i: int,
)
    requires
        0 <= i < l.vault_utxos.len(),
        outpoints_differ(l.vault_utxos),
        forall|a: int, b: int|
            0 <= a < b < observed.len() ==> !((#[trigger] observed[a]).utxo.txid == (
            #[trigger] observed[b]).utxo.txid && observed[a].utxo.vout == observed[b].utxo.vout),
    ensures
        ({
            let v = l.vault_utxos[i];
            let w = l.synced(observed, minimum, now).vault_utxos[i];
            let unseen = forall|j: int|
                0 <= j < observed.len() ==> !((#[trigger] observed[j]).utxo.txid == v.txid
                    && observed[j].utxo.vout == v.vout);
            let expected = exists|k: int|
                0 <= k < l.splits.len() && (#[trigger] l.splits[k]).txid == Some(v.txid)
                    && l.splits[k].state == SplitState::Broadcast;
            let kept = v.state == VaultUtxoState::Reserved || (v.state == VaultUtxoState::Spent && (
            v.spent_by_txid is Some || v.reserved_by is Some));
            &&& forall|j: int|
                0 <= j < observed.len() && (#[trigger] observed[j]).utxo.txid == v.txid
                    && observed[j].utxo.vout == v.vout ==> w == (VaultUtxoView {
                    confirmations: observed[j].confirmations,
                    state: if kept {
                        v.state
                    } else if observed[j].confirmations >= minimum {
                        VaultUtxoState::Available
                    } else {
                        VaultUtxoState::Unconfirmed
                    },
                    ..v
                })
            &&& unseen ==> w == (if (v.state == VaultUtxoState::Available || v.state
                == VaultUtxoState::Unconfirmed) && !expected {
                VaultUtxoView { state: VaultUtxoState::Spent, ..v }
            } else {
                v
            })
        }),
{
    let v = l.vault_utxos[i];
    let at = at_outpoint(v.txid, v.vout);
    assert(is_first(l.vault_utxos, at, i)) by {
        assert forall|j: int| 0 <= j < i implies !at(#[trigger] l.vault_utxos[j]) by {}
    }
    lemma_seen_row(l.vault_utxos, observed, observed.len() as int, minimum, now, i);
    let p = seen_at(v.txid, v.vout);
    assert forall|j: int|
        0 <= j < observed.len() && (#[trigger] observed[j]).utxo.txid == v.txid
            && observed[j].utxo.vout == v.vout implies any_row(observed, p) by {
        assert(p(observed[j]));
    }
    let s = broadcast_split_tx(v.txid);
    if any_row(l.splits, s) {
        let k = choose|k: int| 0 <= k < l.splits.len() && s(#[trigger] l.splits[k]);
        assert(l.splits[k].txid == Some(v.txid));
    }
    assert forall|k: int|
        0 <= k < l.splits.len() && (#[trigger] l.splits[k]).txid == Some(v.txid)
            && l.splits[k].state == SplitState::Broadcast implies any_row(l.splits, s) by {
        assert(s(l.splits[k]));
    }
}

proof fn lemma_seen_new(
    rows: Seq<VaultUtxoView>,
    observed: Seq<ObservedView>,
    k: int,
    minimum: i64,
    now: i64,
    j: int,
) -> (i: int)
    requires
        0 <= j < k <= observed.len(),
        !any_row(rows, at_outpoint(observed[j].utxo.txid, observed[j].utxo.vout)),
        forall|a: int, b: int|
            0 <= a < b < observed.len() ==> !((#[trigger] observed[a]).utxo.txid == (
            #[trigger] observed[b]).utxo.txid && observed[a].utxo.vout == observed[b].utxo.vout),
    ensures
        ({
            let t = seen_prefix(rows, observed, k, minimum, now);
            0 <= i < t.len() && t[i] == first_seen(observed[j], minimum, now)
        }),
    decreases k,
{
    let s = seen_prefix(rows, observed, k - 1, minimum, now);
    let o = observed[k - 1];
    lemma_first_row_is_first(s, at_outpoint(o.utxo.txid, o.utxo.vout));
    if j == k - 1 {
        lemma_still_unseen(rows, observed, k - 1, minimum, now, j);
        s.len() as int
    } else {
        let i = lemma_seen_new(rows, observed, k - 1, minimum, now, j);
        i
    }
}

proof fn lemma_still_unseen(
    rows: Seq<VaultUtxoView>,
    observed: Seq<ObservedView>,
    k: int,
    minimum: i64,
    now: i64,
    j: int,
)
    requires
        0 <= k <= j < observed.len(),
        !any_row(rows, at_outpoint(observed[j].utxo.txid, observed[j].utxo.vout)),
        forall|a: int, b: int|
            0 <= a < b < observed.len() ==> !((#[trigger] observed[a]).utxo.txid == (
            #[trigger] observed[b]).utxo.txid && observed[a].utxo.vout == observed[b].utxo.vout),
    ensures
        !any_row(
            seen_prefix(rows, observed, k, minimum, now),
            at_outpoint(observed[j].utxo.txid, observed[j].utxo.vout),
        ),
    decreases k,
{
    if k > 0 {
        lemma_still_unseen(rows, observed, k - 1, minimum, now, j);
        let s = seen_prefix(rows, observed, k - 1, minimum, now);
        let t = seen_prefix(rows, observed, k, minimum, now);
        let p = at_outpoint(observed[j].utxo.txid, observed[j].utxo.vout);
        let o = observed[k - 1];
        lemma_first_row_is_first(s, at_outpoint(o.utxo.txid, o.utxo.vout));
        if any_row(t, p) {
            let i = choose|i: int| 0 <= i < t.len() && p(#[trigger] t[i]);
            if i < s.len() {
                assert(p(s[i]));
            }
        }
    }
}

/// An output that the node reports for the first time is taken into the vault as it is
/// reported: available where it lies deep enough, immature where it does not, held by
/// nobody.
pub proof fn law_a_new_output_is_taken_in(
    l: LedgerView,
    observed: Seq<ObservedView>,
    minimum: i64,
    now: i64,
    j: int,
)
    requires
        0 <= j < observed.len(),
        observed[j].utxo.amount_atomic <= i64::MAX,
        forall|i: int|
            0 <= i < l.vault_utxos.len() ==> !((#[trigger] l.vault_utxos[i]).txid
                == observed[j].utxo.txid && l.vault_utxos[i].vout == observed[j].utxo.vout),
        forall|a: int, b: int|
            0 <= a < b < observed.len() ==> !((#[trigger] observed[a]).utxo.txid == (
            #[trigger] observed[b]).utxo.txid && observed[a].utxo.vout == observed[b].utxo.vout),
    ensures
        exists|i: int|
            #![trigger l.synced(observed, minimum, now).vault_utxos[i]]
            0 <= i < l.synced(observed, minimum, now).vault_utxos.len() && ({
                let w = l.synced(observed, minimum, now).vault_utxos[i];
                let o = observed[j];
                &&& w.txid == o.utxo.txid && w.vout == o.utxo.vout && w.amount_atomic
                    == o.utxo.amount_atomic && w.script_pubkey_hex == o.script_pubkey_hex
                &&& w.confirmations == o.confirmations && w.first_seen_at == now
                &&& w.state == (if o.confirmations >= minimum {
                    VaultUtxoState::Available
                } else {
                    VaultUtxoState::Unconfirmed
                })
                &&& w.reserved_by is None && w.spent_by_txid is None && w.zero_conf_hold_reason is None
            }),
{
    let o = observed[j];
    let i = lemma_seen_new(l.vault_utxos, observed, observed.len() as int, minimum, now, j);
    let t = seen_prefix(l.vault_utxos, observed, observed.len() as int, minimum, now);
    let p = seen_at(o.utxo.txid, o.utxo.vout);
    assert(p(observed[j]));
    let w = l.synced(observed, minimum, now).vault_utxos[i];
    assert(w == t[i]);
}

/// A payout may be built exactly where its request has none and no Solana refund of it
/// has begun, and where no output that it spends is an input of any payout, nor asked
/// for twice.
pub proof fn law_a_payout_is_built_on_unspent_outputs(
    l: LedgerView,
    id: i64,
    inputs: Seq<CoinView>,
)
    ensures
        l.build_payout_result(id, inputs) is Ok <==> {
            &&& !goldcoin_payout(l, id)
            &&& !solana_refund_begun(l, id)
            &&& forall|i: int, k: int|
                0 <= i < inputs.len() && 0 <= k < l.payout_inputs.len() ==> !((
                #[trigger] l.payout_inputs[k]).txid == (#[trigger] inputs[i]).txid
                    && l.payout_inputs[k].vout == inputs[i].vout)
            &&& forall|i: int, j: int|
                0 <= j < i < inputs.len() ==> !((#[trigger] inputs[j]).txid == (
                #[trigger] inputs[i]).txid && inputs[j].vout == inputs[i].vout)
        },
{
    let p = payout_for(id);
    if any_row(l.payouts, p) {
        let i = choose|i: int| 0 <= i < l.payouts.len() && p(#[trigger] l.payouts[i]);
        assert(l.payouts[i].request_id == id);
    }
    if goldcoin_payout(l, id) {
        let i = choose|i: int| 0 <= i < l.payouts.len() && (#[trigger] l.payouts[i]).request_id == id;
        assert(p(l.payouts[i]));
    }
    let s = sol_refund_for(id);
    if any_row(l.solana_refunds, s) {
        let i = choose|i: int| 0 <= i < l.solana_refunds.len() && s(#[trigger] l.solana_refunds[i]);
        assert(l.solana_refunds[i].request_id == id);
    }
    if solana_refund_begun(l, id) {
        let i = choose|i: int|
            0 <= i < l.solana_refunds.len() && (#[trigger] l.solana_refunds[i]).request_id == id;
        assert(s(l.solana_refunds[i]));
    }
    let n = inputs.len() as int;
    let all = input_rows(0, inputs);
    let clash = inputs_clash(l.payout_inputs, inputs, n);
    if clash {
        let i = choose|i: int|
            0 <= i < n && any_row(
                l.payout_inputs + all.take(i),
                paid_from((#[trigger] inputs[i]).txid, inputs[i].vout),
            );
        let rows = l.payout_inputs + all.take(i);
        let t = paid_from(inputs[i].txid, inputs[i].vout);
        let k = choose|k: int| 0 <= k < rows.len() && t(#[trigger] rows[k]);
        if k < l.payout_inputs.len() {
            assert(rows[k] == l.payout_inputs[k]);
        } else {
            assert(rows[k] == all[k - l.payout_inputs.len()]);
            assert(inputs[k - l.payout_inputs.len()].txid == inputs[i].txid);
        }
    }
    assert forall|i: int, k: int|
        0 <= i < inputs.len() && 0 <= k < l.payout_inputs.len() && (
        #[trigger] l.payout_inputs[k]).txid == (#[trigger] inputs[i]).txid
            && l.payout_inputs[k].vout == inputs[i].vout implies clash by {
        let rows = l.payout_inputs + all.take(i);
        assert(rows[k] == l.payout_inputs[k]);
        assert(paid_from(inputs[i].txid, inputs[i].vout)(rows[k]));
    }
    assert forall|i: int, j: int|
        0 <= j < i < inputs.len() && (#[trigger] inputs[j]).txid == (#[trigger] inputs[i]).txid
            && inputs[j].vout == inputs[i].vout implies clash by {
        let rows = l.payout_inputs + all.take(i);
        assert(rows[l.payout_inputs.len() + j] == all[j]);
        assert(paid_from(inputs[i].txid, inputs[i].vout)(rows[l.payout_inputs.len() + j]));
    }
}

/// A built payout that is signed keeps its signed transaction, and its request is
/// authorised to settle; nothing else may be signed.
pub proof fn law_a_built_payout_is_signed(
    l: LedgerView,
    id: i64,
    p: PayoutView,
    q: RequestView,
    signed: Seq<char>,
    now: i64,
)
    requires
        l.payout(id) == Some(p),
        l.request(id) == Some(q),
    ensures
        ({
            let m = l.payout_signed(id, signed, now);
            &&& l.sign_payout_result(id) is Ok <==> p.state == PayoutState::Built
            &&& m.payout(id) == Some(
                PayoutView {
                    signed_tx_hex: Some(signed),
                    state: PayoutState::Signed,
                    signed_at: Some(now),
                    ..p
                },
            )
            &&& m.request(id) == Some(
                RequestView { state: RequestState::SettlementAuthorized, ..q },
            )
            &&& m.reserves == l.reserves && m.vault_utxos == l.vault_utxos
        }),
{
    lemma_request_id(l, id);
    lemma_first_row_is_first(l.payouts, payout_for(id));
    let a = PayoutView {
        signed_tx_hex: Some(signed),
        state: PayoutState::Signed,
        signed_at: Some(now),
        ..p
    };
    lemma_with_payout(l, id, a);
    let b = RequestView { state: RequestState::SettlementAuthorized, ..q };
    lemma_with_request(l, id, b);
    let m = l.payout_signed(id, signed, now);
    assert(m.payouts == l.with_payout(id, a).payouts);
    assert(m.payout(id) == l.with_payout(id, a).payout(id));
    assert(m.requests == l.with_request(id, b).requests);
    assert(m.request(id) == l.with_request(id, b).request(id));
}

/// A broadcast payout is confirmed, and its request with it, exactly from the depth
/// that is asked for. How deep it lies never falls, and the block that it was mined in
/// is the one that its first depth gives.
pub proof fn law_a_payout_is_confirmed_from_its_depth(
    l: LedgerView,
    id: i64,
    p: PayoutView,
    q: RequestView,
    confirmations: i64,
    tip: i64,
    required: i64,
    now: i64,
)
    requires
        l.payout(id) == Some(p),
        p.state == PayoutState::Broadcast,
        l.request(id) == Some(q),
        q.state == RequestState::DestinationSubmitted,
        confirmations > 0 ==> i64::MIN <= tip - confirmations + 1 <= i64::MAX,
    ensures
        ({
            let m = l.payout_depth_seen(id, confirmations, tip, required, now);
            let deep = confirmations >= required;
            let a = m.payout(id).unwrap();
            let b = m.request(id).unwrap();
            &&& l.payout_matures(id, confirmations, required) <==> deep
            &&& m.payout(id) is Some && m.request(id) is Some
            &&& a == (PayoutView {
                state: if deep {
                    PayoutState::Confirmed
                } else {
                    PayoutState::Broadcast
                },
                confirmations: a.confirmations,
                mined_height: a.mined_height,
                ..p
            })
            &&& a.confirmations == (if confirmations > p.confirmations {
                confirmations
            } else {
                p.confirmations
            })
            &&& a.mined_height == (if p.mined_height is None && confirmations > 0 {
                Some((tip - confirmations + 1) as i64)
            } else {
                p.mined_height
            })
            &&& b == (RequestView {
                state: if deep {
                    RequestState::DestinationConfirmed
                } else {
                    RequestState::DestinationSubmitted
                },
                destination_confirmations: if confirmations > q.destination_confirmations {
                    confirmations
                } else {
                    q.destination_confirmations
                },
                ..q
            })
            &&& m.reserves == l.reserves && m.vault_utxos == l.vault_utxos
        }),
{
    lemma_request_id(l, id);
    lemma_first_row_is_first(l.payouts, payout_for(id));
    let m = l.payout_depth_seen(id, confirmations, tip, required, now);
    let s = payout_seen(p, confirmations, tip);
    let a = if confirmations >= required {
        PayoutView { state: PayoutState::Confirmed, ..s }
    } else {
        s
    };
    lemma_with_payout(l, id, a);
    let d = destination_seen(q, confirmations);
    let b = if confirmations >= required {
        RequestView { state: RequestState::DestinationConfirmed, ..d }
    } else {
        d
    };
    lemma_with_request(l, id, b);
    assert(m.payouts == l.with_payout(id, a).payouts);
    assert(m.payout(id) == l.with_payout(id, a).payout(id));
    assert(m.requests == l.with_request(id, b).requests);
    assert(m.request(id) == l.with_request(id, b).request(id));
}

/// Completing a payout settles its request: what it paid leaves the Goldcoin reserve's
/// promises, debts and balance and is counted as settled, its fee is earned on Solana,
/// and every output that was reserved for it is spent by its transaction. Without a
/// completion on chain it is refused.
pub proof fn law_a_completed_payout_is_settled(
    l: LedgerView,
    id: i64,
    p: PayoutView,
    q: RequestView,
    g: ReserveRow,
    s: ReserveRow,
    now: i64,
    i: int,
)
    requires
        l.payout(id) == Some(p),
        l.request(id) == Some(q),
        q.state != RequestState::Settled,
        l.reserves.goldcoin == Some(g),
        l.reserves.solana == Some(s),
        i64::MIN <= g.reserved_liquidity - q.net_destination_atomic <= i64::MAX,
        i64::MIN <= g.pending_obligations - q.net_destination_atomic <= i64::MAX,
        i64::MIN <= g.total_reserve_balance - q.net_destination_atomic <= i64::MAX,
        i64::MIN <= g.settled_liquidity_total + q.net_destination_atomic <= i64::MAX,
        i64::MIN <= s.accrued_fees_atomic + q.fee_amount_atomic <= i64::MAX,
        0 <= i < l.vault_utxos.len(),
    ensures
        ({
            let m = l.payout_completed(id, now);
            let n = q.net_destination_atomic;
            let v = l.vault_utxos[i];
            &&& l.complete_payout_result(id) is Ok <==> p.onchain_completion_signature is Some
            &&& m.request(id) == Some(
                RequestView { state: RequestState::Settled, settled_at: Some(now), ..q },
            )
            &&& m.payout(id) == Some(
                PayoutView {
                    state: PayoutState::Completed,
                    completed_at: Some(now),
                    onchain_completed_at: Some(now),
                    ..p
                },
            )
            &&& m.reserves.goldcoin == Some(
                ReserveRow {
                    reserved_liquidity: (g.reserved_liquidity - n) as i64,
                    pending_obligations: (g.pending_obligations - n) as i64,
                    total_reserve_balance: (g.total_reserve_balance - n) as i64,
                    settled_liquidity_total: (g.settled_liquidity_total + n) as i64,
                    ..g
                },
            )
            &&& m.reserves.solana == Some(
                ReserveRow {
                    accrued_fees_atomic: (s.accrued_fees_atomic + q.fee_amount_atomic) as i64,
                    ..s
                },
            )
            &&& m.reserves.robinhood == l.reserves.robinhood
            &&& m.vault_utxos.len() == l.vault_utxos.len()
            &&& m.vault_utxos[i] == (if v.reserved_by == Some(id) {
                VaultUtxoView { state: VaultUtxoState::Spent, spent_by_txid: p.txid, ..v }
            } else {
                v
            })
        }),
{
    lemma_request_id(l, id);
    lemma_first_row_is_first(l.payouts, payout_for(id));
    let m = l.payout_completed(id, now);
    let a = PayoutView {
        state: PayoutState::Completed,
        completed_at: Some(now),
        onchain_completed_at: Some(now),
        ..p
    };
    lemma_with_payout(l, id, a);
    let b = RequestView { state: RequestState::Settled, settled_at: Some(now), ..q };
    lemma_with_request(l, id, b);
    assert(m.payouts == l.with_payout(id, a).payouts);
    assert(m.payout(id) == l.with_payout(id, a).payout(id));
    assert(m.requests == l.with_request(id, b).requests);
    assert(m.request(id) == l.with_request(id, b).request(id));
}

proof fn lemma_max<T>(rows: Seq<T>, p: spec_fn(T) -> bool, f: spec_fn(T) -> i64)
    ensures
        max_rows(rows, p, f) is None <==> forall|i: int|
            0 <= i < rows.len() ==> !p(#[trigger] rows[i]),
        max_rows(rows, p, f) matches Some(n) ==> (exists|i: int|
            0 <= i < rows.len() && p(#[trigger] rows[i]) && f(rows[i]) == n) && forall|i: int|
            0 <= i < rows.len() && p(#[trigger] rows[i]) ==> f(rows[i]) <= n,
    decreases rows.len(),
{
    if rows.len() > 0 {
        let rest = rows.drop_last();
        lemma_max(rest, p, f);
        let top = rows.len() - 1;
        assert(rows[top] == rows.last());
        assert forall|i: int| 0 <= i < rest.len() implies rows[i] == #[trigger] rest[i] by {}
        if let Some(n) = max_rows(rest, p, f) {
            let i = choose|i: int|
                0 <= i < rest.len() && p(#[trigger] rest[i]) && f(rest[i]) == n;
            assert(p(rows[i]) && f(rows[i]) == n);
        } else {
            assert forall|i: int| 0 <= i < rest.len() implies !p(#[trigger] rows[i]) by {
                assert(!p(rest[i]));
            }
        }
        if let Some(n) = max_rows(rows, p, f) {
            assert forall|i: int| 0 <= i < rows.len() && p(#[trigger] rows[i]) implies f(rows[i])
                <= n by {
                if i < top {
                    assert(rest[i] == rows[i]);
                }
            }
        }
    }
}

/// Change is as deep as the deepest unconfirmed change that its payout spends, and one
/// more: an input counts where it is change of a payout that has no confirmation yet.
/// A payout that spends none starts at nothing.
pub proof fn law_depth_is_that_of_the_deepest_parent(l: LedgerView, id: i64, k: int)
    requires
        0 <= k < l.change_outpoints.len(),
        forall|i: int|
            0 <= i < l.change_outpoints.len() ==> (
            #[trigger] l.change_outpoints[i]).unconfirmed_ancestor_depth >= 0,
    ensures
        ({
            let o = l.change_outpoints[k];
            let parent = (exists|i: int|
                0 <= i < l.payout_inputs.len() && (#[trigger] l.payout_inputs[i]).request_id == id
                    && l.payout_inputs[i].txid == o.txid && l.payout_inputs[i].vout == o.vout) && (
            exists|i: int|
                0 <= i < l.payouts.len() && (#[trigger] l.payouts[i]).request_id == o.request_id
                    && l.payouts[i].confirmations == 0);
            &&& parent ==> l.parent_depth(id) >= o.unconfirmed_ancestor_depth
            &&& l.parent_change(id)(o) <==> parent
            &&& l.parent_depth(id) > 0 ==> exists|j: int|
                0 <= j < l.change_outpoints.len() && l.parent_change(id)(
                    #[trigger] l.change_outpoints[j],
                ) && l.change_outpoints[j].unconfirmed_ancestor_depth == l.parent_depth(id)
            &&& l.parent_depth(id) >= 0
        }),
{
    let o = l.change_outpoints[k];
    let f = |o: ChangeOutpointView| o.unconfirmed_ancestor_depth;
    lemma_max(l.change_outpoints, l.parent_change(id), f);
    let a = input_at(id, o.txid, o.vout);
    let b = unconfirmed_payout(o.request_id);
    if any_row(l.payout_inputs, a) {
        let i = choose|i: int| 0 <= i < l.payout_inputs.len() && a(#[trigger] l.payout_inputs[i]);
        assert(l.payout_inputs[i].request_id == id);
    }
    if any_row(l.payouts, b) {
        let i = choose|i: int| 0 <= i < l.payouts.len() && b(#[trigger] l.payouts[i]);
        assert(l.payouts[i].request_id == o.request_id);
    }
    assert forall|i: int|
        0 <= i < l.payout_inputs.len() && (#[trigger] l.payout_inputs[i]).request_id == id
            && l.payout_inputs[i].txid == o.txid && l.payout_inputs[i].vout == o.vout implies any_row(
        l.payout_inputs,
        a,
    ) by {
        assert(a(l.payout_inputs[i]));
    }
    assert forall|i: int|
        0 <= i < l.payouts.len() && (#[trigger] l.payouts[i]).request_id == o.request_id
            && l.payouts[i].confirmations == 0 implies any_row(l.payouts, b) by {
        assert(b(l.payouts[i]));
    }
}

/// The inputs of a payout are handed out exactly where there are any and each is still
/// reserved for its request: in their order, each with what it is worth.
pub proof fn law_inputs_are_handed_out_while_they_are_reserved(
    l: LedgerView,
    id: i64,
    rows: Seq<PayoutInputView>,
    k: int,
)
    requires
        0 <= k < rows.len(),
    ensures
        l.payout_inputs_result(id, rows) is Ok <==> forall|i: int|
            0 <= i < rows.len() ==> (l.utxo((#[trigger] rows[i]).txid, rows[i].vout) matches Some(v)
                && v.state == VaultUtxoState::Reserved && v.reserved_by == Some(id)),
        l.payout_inputs_result(id, rows) matches Ok(coins) ==> coins.len() == rows.len()
            && coins[k].txid == rows[k].txid && coins[k].vout == rows[k].vout
            && coins[k].amount_atomic == rows[k].amount_atomic as u64,
        l.payout_inputs_result(id, Seq::empty()) is Err,
{
    let d = |x: PayoutInputView| l.drifted(id, x);
    lemma_first_row_is_first(rows, d);
    if any_row(rows, d) {
        let i = choose|i: int| 0 <= i < rows.len() && d(#[trigger] rows[i]);
        assert(l.drifted(id, rows[i]));
    } else {
        assert forall|i: int| 0 <= i < rows.len() implies (l.utxo(
            (#[trigger] rows[i]).txid,
            rows[i].vout,
        ) matches Some(v) && v.state == VaultUtxoState::Reserved && v.reserved_by == Some(id)) by {
            assert(!d(rows[i]));
        }
    }
    let none = Seq::<PayoutInputView>::empty();
    lemma_first_row_is_first(none, d);
}

/// The change of a payout is what was recorded of it, output by output; where nothing
/// was, it is one output with all of it, and none where there is none.
pub proof fn law_change_is_what_was_recorded(rows: Seq<PayoutChangeView>, total: i64, k: int)
    requires
        0 <= k < rows.len(),
    ensures
        change_amounts(rows, total).len() == rows.len(),
        change_amounts(rows, total)[k] == rows[k].amount_atomic,
        total > 0 ==> change_amounts(Seq::empty(), total) == seq![total],
        total <= 0 ==> change_amounts(Seq::empty(), total).len() == 0,
{
}

/// A split may be begun exactly on an output that is available and of which no split
/// stands that was not given up. It records its source, what it costs and what it is to
/// make, and leaves the output as it is.
pub proof fn law_a_split_begins_on_a_free_output(
    l: LedgerView,
    source: CoinView,
    count: int,
    target: u64,
    fee: u64,
    unsigned_tx: Seq<char>,
    note: Seq<char>,
    now: i64,
)
    requires
        l.next_split_id < i64::MAX,
        source.amount_atomic <= i64::MAX,
        0 <= count <= i64::MAX,
        target <= i64::MAX,
        fee <= i64::MAX,
    ensures
        ({
            let m = l.split_begun(source, count, target, fee, unsigned_tx, note, now);
            let s = m.splits.last();
            let taken = exists|k: int|
                0 <= k < l.splits.len() && (#[trigger] l.splits[k]).source_txid == source.txid
                    && l.splits[k].source_vout == source.vout && l.splits[k].state
                    != SplitState::Abandoned;
            &&& l.begin_split_result(source) is Ok <==> !taken && (l.utxo(
                source.txid,
                source.vout,
            ) matches Some(v) && v.state == VaultUtxoState::Available)
            &&& l.begin_split_result(source) matches Ok(id) ==> id == l.next_split_id && s.id == id
            &&& m.splits.len() == l.splits.len() + 1 && m.next_split_id == l.next_split_id + 1
            &&& s.source_txid == source.txid && s.source_vout == source.vout
                && s.source_amount_atomic == source.amount_atomic
            &&& s.chunk_count == count && s.chunk_target_atomic == target && s.fee_atomic == fee
            &&& s.state == SplitState::Built && s.txid is None && s.signed_tx_hex is None
                && s.missing_inputs_since is None && s.unsigned_tx_hex == unsigned_tx && s.note == note
                && s.built_at == now
            &&& m.vault_utxos == l.vault_utxos
        }),
{
    let p = live_split_of(source.txid, source.vout);
    if any_row(l.splits, p) {
        let k = choose|k: int| 0 <= k < l.splits.len() && p(#[trigger] l.splits[k]);
        assert(l.splits[k].source_txid == source.txid);
    }
    assert forall|k: int|
        0 <= k < l.splits.len() && (#[trigger] l.splits[k]).source_txid == source.txid
            && l.splits[k].source_vout == source.vout && l.splits[k].state
            != SplitState::Abandoned implies any_row(l.splits, p) by {
        assert(p(l.splits[k]));
    }
}

/// Giving a split up takes every output of its transaction that was not spent out of the
/// vault, and touches no other output. One that was confirmed is not given up.
pub proof fn law_an_abandoned_split_takes_its_outputs_back(
    l: LedgerView,
    id: i64,
    s: VaultSplitView,
    reason: Seq<char>,
    observed: Option<[u8; 32]>,
    now: i64,
    i: int,
)
    requires
        l.split(id) == Some(s),
        s.state != SplitState::Abandoned,
        0 <= i < l.vault_utxos.len(),
    ensures
        ({
            let m = l.split_abandoned(id, reason, observed, now);
            let txid = if s.txid is Some {
                s.txid
            } else {
                observed
            };
            let v = l.vault_utxos[i];
            &&& l.abandon_split_result(id) is Ok <==> s.state != SplitState::Confirmed
            &&& m.splits[first_row(l.splits, split_by_id(id)).unwrap()] == (
            VaultSplitView {
                state: SplitState::Abandoned,
                abandoned_at: Some(now),
                abandon_reason: Some(reason),
                txid,
                ..s
            })
            &&& m.vault_utxos.len() == l.vault_utxos.len()
            &&& m.vault_utxos[i] == (if Some(v.txid) == txid && (v.state
                == VaultUtxoState::Unconfirmed || v.state == VaultUtxoState::Available) {
                VaultUtxoView { state: VaultUtxoState::Spent, ..v }
            } else {
                v
            })
        }),
{
    lemma_first_row_is_first(l.splits, split_by_id(id));
}

/// A split that was given up after it was sent may be taken up again where no other
/// split stands on its source.
pub proof fn law_only_a_sent_split_is_readopted(l: LedgerView, id: i64, s: VaultSplitView)
    requires
        l.split(id) == Some(s),
    ensures
        l.readopt_split_result(id) is Ok <==> s.state == SplitState::Abandoned && s.txid is Some
            && !(exists|k: int|
            0 <= k < l.splits.len() && (#[trigger] l.splits[k]).source_txid == s.source_txid
                && l.splits[k].source_vout == s.source_vout && l.splits[k].state
                != SplitState::Abandoned),
        l.confirm_split_result(id) is Ok <==> s.state == SplitState::Broadcast,
        l.sign_split_result(id) is Ok <==> s.state == SplitState::Built,
{
    let p = live_split_of(s.source_txid, s.source_vout);
    if any_row(l.splits, p) {
        let k = choose|k: int| 0 <= k < l.splits.len() && p(#[trigger] l.splits[k]);
        assert(l.splits[k].source_txid == s.source_txid);
    }
    assert forall|k: int|
        0 <= k < l.splits.len() && (#[trigger] l.splits[k]).source_txid == s.source_txid
            && l.splits[k].source_vout == s.source_vout && l.splits[k].state
            != SplitState::Abandoned implies any_row(l.splits, p) by {
        assert(p(l.splits[k]));
    }
}

/// A split that was sent is flagged as dead at the very moment from which its chunks are
/// no longer expected: ten minutes after its inputs were found missing. One whose inputs
/// are not missing never is.
pub proof fn law_a_dead_split_is_flagged_when_it_is_given_up_on(s: VaultSplitView, now: i64)
    ensures
        s.state == SplitState::Broadcast && s.txid is Some ==> (flagged_dead(now)(s)
            <==> !chunks_explainable(s, now)),
        flagged_dead(now)(s) ==> s.state == SplitState::Broadcast && now
            >= s.missing_inputs_since.unwrap() + 600,
        s.missing_inputs_since is None ==> (chunks_explainable(s, now) <==> s.state
            == SplitState::Broadcast || s.state == SplitState::Confirmed),
{
}

/// A hold on unconfirmed change is put on, or taken off, every output of one transaction
/// that has not matured, and no other.
pub proof fn law_a_hold_on_change_holds_its_transaction(
    v: VaultUtxoView,
    txid: [u8; 32],
    reason: Option<Seq<char>>,
)
    ensures
        zero_conf_held(txid, reason)(v) == (VaultUtxoView {
            zero_conf_hold_reason: if v.txid == txid && v.state == VaultUtxoState::Unconfirmed {
                reason
            } else {
                v.zero_conf_hold_reason
            },
            ..v
        }),
{
}

/// The health of the pool tells what may be spent, what has yet to mature of the
/// service's own, and which change could be spent unconfirmed or is on hold, each in
/// value and in number.
pub proof fn law_the_pool_is_told_by_what_may_be_done_with_it(
    l: LedgerView,
    now: i64,
    v: VaultUtxoView,
)
    requires
        l.pool_health(now) is Ok,
    ensures
        ({
            let h = l.pool_health(now).unwrap();
            let change = v.state == VaultUtxoState::Unconfirmed && exists|k: int| #[trigger]
                is_change_at(l, k, v.txid, v.vout);
            &&& h.mature_available_atomic == l.utxo_sum(l.spendable()) as u64
            &&& h.available_utxo_count == l.utxo_count(l.spendable()) as u32
            &&& Ok::<u64, LedgerError>(h.own_unconfirmed_change_atomic) == l.own_change(now)
            &&& h.unconfirmed_change_utxo_count == l.utxo_count(l.own_unconfirmed(now)) as u32
            &&& h.zero_conf_change_candidate_atomic == l.utxo_sum(l.immature_change(false)) as u64
            &&& h.zero_conf_change_candidate_count == l.utxo_count(l.immature_change(false)) as u32
            &&& h.zero_conf_change_held_count == l.utxo_count(l.immature_change(true)) as u32
            &&& l.immature_change(false)(v) <==> change && v.zero_conf_hold_reason is None
            &&& l.immature_change(true)(v) <==> change && v.zero_conf_hold_reason is Some
        }),
{
    lemma_change(l, v.txid, v.vout);
}

} // verus!
