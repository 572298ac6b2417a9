//! Which outputs of the vault may be spent, and which may not.
use vstd::prelude::*;
use crate::error::LedgerError;
use crate::ledger::{LedgerView, by_id};
use crate::query_laws::{lemma_same_items, lemma_selection};
use crate::requests::{DepositChecks, GlcObservationOutcome, Sighting};
use crate::rows::{CoinView, RequestView, VaultUtxoView};
use crate::table::{
    any_row, count_rows, lemma_first_row_is_first, select_rows, sorted_by, sum_rows,
};
use crate::types::{Direction, RequestState, SplitState, VaultUtxoState};
use crate::vault::{as_coin, coin_order, unfinalized_deposit, utxo_amount};

verus! {

/// A request rests on a Goldcoin deposit at this outpoint that is not final.
pub open spec fn rests_on(q: RequestView, txid: [u8; 32], vout: u32) -> bool {
    &&& q.direction == Direction::GlcToSol || q.direction == Direction::GlcToRhn
    &&& q.state == RequestState::DepositObserved || q.state == RequestState::Confirming
    &&& q.source_txid == Some(txid)
    &&& q.source_vout == Some(vout)
}

/// A split that spends this outpoint is built and neither confirmed nor given up.
pub open spec fn split_under_way(l: LedgerView, k: int, txid: [u8; 32], vout: u32) -> bool {
    let s = l.splits[k];
    &&& s.source_txid == txid && s.source_vout == vout
    &&& s.state == SplitState::Built || s.state == SplitState::Signed || s.state
        == SplitState::Broadcast
}

/// Coin selection is offered exactly the outputs that are confirmed deep enough,
/// are not the deposit of a request that is not final, and are not spent by a split
/// that is under way; the larger first.
pub proof fn law_coin_selection_is_offered_what_is_free(
    l: LedgerView,
    list: Seq<CoinView>,
    v: VaultUtxoView,
)
    requires
        sorted_by(list, coin_order()),
        list.to_multiset() == select_rows(l.vault_utxos, l.spendable()).map_values(
            as_coin(),
        ).to_multiset(),
    ensures
        ({
            let free = v.state == VaultUtxoState::Available && (forall|i: int|
                0 <= i < l.requests.len() ==> !rests_on(#[trigger] l.requests[i], v.txid, v.vout))
                && (forall|k: int|
                0 <= k < l.splits.len() ==> !#[trigger] split_under_way(l, k, v.txid, v.vout));
            let coin = CoinView {
                txid: v.txid,
                vout: v.vout,
                amount_atomic: v.amount_atomic as u64,
                script_pubkey_hex: v.script_pubkey_hex,
            };
            &&& l.spendable()(v) <==> free
            &&& l.vault_utxos.contains(v) && free ==> list.contains(coin)
        }),
        forall|c: CoinView| #[trigger]
            list.contains(c) ==> (forall|i: int|
                0 <= i < l.requests.len() ==> !rests_on(#[trigger] l.requests[i], c.txid, c.vout))
                && exists|i: int|
                0 <= i < l.vault_utxos.len() && (#[trigger] l.vault_utxos[i]).txid == c.txid
                    && l.vault_utxos[i].vout == c.vout && l.vault_utxos[i].state
                    == VaultUtxoState::Available && l.vault_utxos[i].amount_atomic as u64
                    == c.amount_atomic,
        forall|i: int, j: int|
            0 <= i < j < list.len() ==> (#[trigger] list[i]).amount_atomic >= (
            #[trigger] list[j]).amount_atomic,
{
    lemma_free(l, v);
    let sel = select_rows(l.vault_utxos, l.spendable());
    let coins = sel.map_values(as_coin());
    lemma_same_items(list, coins);
    lemma_selection(l.vault_utxos, l.spendable());
    if l.vault_utxos.contains(v) && l.spendable()(v) {
        assert(sel.contains(v));
        let k = choose|k: int| 0 <= k < sel.len() && sel[k] == v;
        assert(coins[k] == as_coin()(v));
    }
    assert forall|c: CoinView| #[trigger] list.contains(c) implies (forall|i: int|
        0 <= i < l.requests.len() ==> !rests_on(#[trigger] l.requests[i], c.txid, c.vout))
        && exists|i: int|
        0 <= i < l.vault_utxos.len() && (#[trigger] l.vault_utxos[i]).txid == c.txid
            && l.vault_utxos[i].vout == c.vout && l.vault_utxos[i].state
            == VaultUtxoState::Available && l.vault_utxos[i].amount_atomic as u64
            == c.amount_atomic by {
        assert(coins.contains(c));
        let k = choose|k: int| 0 <= k < coins.len() && coins[k] == c;
        let u = sel[k];
        assert(sel.contains(u));
        assert(l.vault_utxos.contains(u));
        let i = choose|i: int| 0 <= i < l.vault_utxos.len() && l.vault_utxos[i] == u;
        lemma_free(l, u);
        assert(l.vault_utxos[i].txid == c.txid);
    }
}

proof fn lemma_free(l: LedgerView, v: VaultUtxoView)
    ensures
        l.no_deposit_on(v.txid, v.vout) <==> forall|i: int|
            0 <= i < l.requests.len() ==> !rests_on(#[trigger] l.requests[i], v.txid, v.vout),
        l.no_claim_on(v.txid, v.vout) <==> forall|k: int|
            0 <= k < l.splits.len() ==> !#[trigger] split_under_way(l, k, v.txid, v.vout),
{
    let p = unfinalized_deposit(v.txid, v.vout);
    assert forall|i: int| 0 <= i < l.requests.len() implies p(#[trigger] l.requests[i]) == rests_on(
        l.requests[i],
        v.txid,
        v.vout,
    ) by {}
    let c = crate::vault::live_claim(v.txid, v.vout);
    assert forall|k: int| 0 <= k < l.splits.len() implies c(l.splits[k])
        == #[trigger] split_under_way(l, k, v.txid, v.vout) by {}
    if l.no_claim_on(v.txid, v.vout) {
        assert forall|k: int| 0 <= k < l.splits.len() implies !#[trigger] split_under_way(
            l,
            k,
            v.txid,
            v.vout,
        ) by {
            assert(!c(l.splits[k]));
        }
    } else {
        let k = choose|k: int| 0 <= k < l.splits.len() && c(#[trigger] l.splits[k]);
        assert(split_under_way(l, k, v.txid, v.vout));
    }
}

proof fn lemma_never_counted(rows: Seq<VaultUtxoView>, p: spec_fn(VaultUtxoView) -> bool, txid: [u8; 32], vout: u32)
    requires
        forall|v: VaultUtxoView| v.txid == txid && v.vout == vout ==> !#[trigger] p(v),
    ensures
        count_rows(rows, p) == count_rows(
            rows.filter(|v: VaultUtxoView| !(v.txid == txid && v.vout == vout)),
            p,
        ),
        sum_rows(rows, p, utxo_amount()) == sum_rows(
            rows.filter(|v: VaultUtxoView| !(v.txid == txid && v.vout == vout)),
            p,
            utxo_amount(),
        ),
    decreases rows.len(),
{
    let keep = |v: VaultUtxoView| !(v.txid == txid && v.vout == vout);
    reveal(Seq::filter);
    if rows.len() > 0 {
        let rest = rows.drop_last();
        lemma_never_counted(rest, p, txid, vout);
        let f = rows.filter(keep);
        if keep(rows.last()) {
            assert(f == rest.filter(keep).push(rows.last()));
            assert(f.drop_last() =~= rest.filter(keep));
            assert(f.last() == rows.last());
        } else {
            assert(f == rest.filter(keep));
        }
    }
}

/// While a request rests on a Goldcoin deposit that is not final, no output at
/// that outpoint is offered to a payout: it is not on the list that coin selection
/// draws from, not counted as available, and not among the change that may be spent
/// unconfirmed. The counts are those of a vault without it.
pub proof fn law_an_unfinal_deposit_is_not_spent(
    l: LedgerView,
    i: int,
    txid: [u8; 32],
    vout: u32,
    max_depth: u32,
    list: Seq<CoinView>,
    change: Seq<CoinView>,
)
    requires
        0 <= i < l.requests.len(),
        l.requests[i].direction == Direction::GlcToSol || l.requests[i].direction
            == Direction::GlcToRhn,
        l.requests[i].state == RequestState::DepositObserved || l.requests[i].state
            == RequestState::Confirming,
        l.requests[i].source_txid == Some(txid),
        l.requests[i].source_vout == Some(vout),
        list.to_multiset() == select_rows(l.vault_utxos, l.spendable()).map_values(
            as_coin(),
        ).to_multiset(),
        change.to_multiset() == select_rows(
            l.vault_utxos,
            l.zero_conf_pool(max_depth),
        ).map_values(as_coin()).to_multiset(),
    ensures
        forall|k: int|
            0 <= k < list.len() ==> (#[trigger] list[k]).txid != txid || list[k].vout != vout,
        forall|k: int|
            0 <= k < change.len() ==> (#[trigger] change[k]).txid != txid || change[k].vout != vout,
        l.utxo_count(l.spendable()) == count_rows(
            l.vault_utxos.filter(|v: VaultUtxoView| !(v.txid == txid && v.vout == vout)),
            l.spendable(),
        ),
        l.utxo_sum(l.spendable()) == sum_rows(
            l.vault_utxos.filter(|v: VaultUtxoView| !(v.txid == txid && v.vout == vout)),
            l.spendable(),
            utxo_amount(),
        ),
{
    let p = unfinalized_deposit(txid, vout);
    assert(p(l.requests[i]));
    assert(!l.no_deposit_on(txid, vout));
    lemma_absent(l, l.spendable(), list, txid, vout);
    lemma_absent(l, l.zero_conf_pool(max_depth), change, txid, vout);
    lemma_never_counted(l.vault_utxos, l.spendable(), txid, vout);
}

proof fn lemma_absent(
    l: LedgerView,
    p: spec_fn(VaultUtxoView) -> bool,
    list: Seq<CoinView>,
    txid: [u8; 32],
    vout: u32,
)
    requires
        forall|v: VaultUtxoView| v.txid == txid && v.vout == vout ==> !#[trigger] p(v),
        list.to_multiset() == select_rows(l.vault_utxos, p).map_values(as_coin()).to_multiset(),
    ensures
        forall|k: int|
            0 <= k < list.len() ==> (#[trigger] list[k]).txid != txid || list[k].vout != vout,
{
    let sel = select_rows(l.vault_utxos, p);
    let coins = sel.map_values(as_coin());
    lemma_same_items(list, coins);
    lemma_selection(l.vault_utxos, p);
    assert forall|k: int| 0 <= k < list.len() implies (#[trigger] list[k]).txid != txid
        || list[k].vout != vout by {
        assert(list.contains(list[k]));
        assert(coins.contains(list[k]));
        let j = choose|j: int| 0 <= j < coins.len() && coins[j] == list[k];
        assert(sel.contains(sel[j]));
    }
}

/// A Goldcoin deposit that was just recorded, in time or late, is kept from being
/// spent: no output at its outpoint, whatever the vault knows of it, is free.
pub proof fn law_a_recorded_deposit_is_kept(
    l: LedgerView,
    id: i64,
    at: Sighting,
    checks: DepositChecks,
    now: i64,
    rows: Seq<VaultUtxoView>,
    max_depth: u32,
    v: VaultUtxoView,
)
    requires
        l.observation(id, at, checks) == Ok::<GlcObservationOutcome, LedgerError>(
            GlcObservationOutcome::Recorded,
        ) || l.observation(id, at, checks) == Ok::<GlcObservationOutcome, LedgerError>(
            GlcObservationOutcome::LateDepositRecreated,
        ),
        v.txid == at.txid,
        v.vout == at.vout,
    ensures
        ({
            let m = l.after_observation(id, at, checks, now).with_utxos(rows);
            &&& !m.spendable()(v)
            &&& !m.zero_conf_pool(max_depth)(v)
            &&& m.request(id) matches Some(q) && rests_on(q, at.txid, at.vout)
        }),
{
    let k = l.after_observation(id, at, checks, now);
    let m = k.with_utxos(rows);
    lemma_recorded(l, id, at, checks, now);
    lemma_first_row_is_first(k.requests, by_id(id));
    let i = k.pos(id).unwrap();
    assert(unfinalized_deposit(at.txid, at.vout)(m.requests[i]));
    assert(any_row(m.requests, unfinalized_deposit(at.txid, at.vout)));
}

proof fn lemma_recorded(l: LedgerView, id: i64, at: Sighting, checks: DepositChecks, now: i64)
    requires
        l.observation(id, at, checks) == Ok::<GlcObservationOutcome, LedgerError>(
            GlcObservationOutcome::Recorded,
        ) || l.observation(id, at, checks) == Ok::<GlcObservationOutcome, LedgerError>(
            GlcObservationOutcome::LateDepositRecreated,
        ),
    ensures
        l.after_observation(id, at, checks, now).request(id) matches Some(q) && rests_on(
            q,
            at.txid,
            at.vout,
        ),
{
    let q = l.request(id).unwrap();
    crate::ledger::lemma_request_id(l, id);
    let p = if q.state == RequestState::Expired {
        RequestView {
            state: RequestState::AwaitingDeposit,
            reserved_at: Some(now),
            reservation_expires_at: None,
            ..q
        }
    } else {
        q
    };
    let k = if q.state == RequestState::Expired {
        l.recreated(id, now)
    } else {
        l
    };
    crate::ledger::lemma_with_request(l, id, p);
    if q.state == RequestState::Expired {
        assert(k.requests == l.with_request(id, p).requests);
    }
    assert(k.request(id) == Some(p));
    let c = RequestView {
        state: RequestState::Confirming,
        source_confirmations: 1,
        source_wallet: crate::requests::or_recorded(checks.primary_source_wallet, p.source_wallet),
        ..crate::requests::sighted(p, at)
    };
    crate::ledger::lemma_with_request(k, id, c);
    assert(l.after_observation(id, at, checks, now).requests == k.with_request(id, c).requests);
}

} // verus!
