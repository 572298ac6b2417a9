//! What raises the amount that is on its way out of a reserve, and by how much.
use vstd::prelude::*;
use crate::error::LedgerError;
use crate::in_flight::{
    explained_split, net_of, on_its_way, payout_in, rebalance_by_id, refund_sent, stored_cost,
    unstorable_payout,
};
use crate::ledger::{LedgerView, by_id};
use crate::payouts::{input_rows, sum_to};
use crate::resume::payout_for;
use crate::rows::{
    CoinView, PayoutInputView, PayoutView, RebalanceView, RequestView, RobinhoodTxView,
    SolanaRefundView, VaultSplitView, VaultUtxoView,
};
use crate::table::{
    any_row, first_row, is_first, lemma_first_row, lemma_first_row_is_first, lemma_sum_update,
    part, sum_rows,
};
use crate::types::{
    Direction, PayoutState, RebalanceState, RequestState, ReserveDirection, RobinhoodTxKind,
    RobinhoodTxState, SolanaRefundState, SplitState, VaultUtxoState,
};
use crate::vault::{explainable_split, payout_tx, utxo_amount};

verus! {

/// No amount that leaves a reserve is negative.
pub open spec fn no_negative_amounts(l: LedgerView) -> bool {
    &&& forall|i: int|
        0 <= i < l.requests.len() ==> (#[trigger] l.requests[i]).net_destination_atomic >= 0
    &&& forall|i: int|
        0 <= i < l.payouts.len() ==> (#[trigger] l.payouts[i]).payout_atomic >= 0
            && l.payouts[i].change_atomic >= 0 && l.payouts[i].fee_atomic >= 0
    &&& forall|i: int| 0 <= i < l.splits.len() ==> (#[trigger] l.splits[i]).fee_atomic >= 0
    &&& forall|i: int|
        0 <= i < l.vault_utxos.len() ==> (#[trigger] l.vault_utxos[i]).amount_atomic >= 0
    &&& forall|i: int|
        0 <= i < l.solana_refunds.len() ==> (
        #[trigger] l.solana_refunds[i]).amount_solana_atomic <= i64::MAX
}

proof fn lemma_sum_positive<T>(rows: Seq<T>, p: spec_fn(T) -> bool, f: spec_fn(T) -> int)
    requires
        forall|i: int| 0 <= i < rows.len() ==> f(#[trigger] rows[i]) >= 0,
    ensures
        sum_rows(rows, p, f) >= 0,
    decreases rows.len(),
{
    if rows.len() > 0 {
        let rest = rows.drop_last();
        assert forall|i: int| 0 <= i < rest.len() implies f(#[trigger] rest[i]) >= 0 by {
            assert(rest[i] == rows[i]);
        }
        lemma_sum_positive(rest, p, f);
        assert(rows.last() == rows[rows.len() - 1]);
    }
}

proof fn lemma_sum_same<T>(
    rows: Seq<T>,
    p: spec_fn(T) -> bool,
    q: spec_fn(T) -> bool,
    f: spec_fn(T) -> int,
    g: spec_fn(T) -> int,
)
    requires
        forall|i: int|
            0 <= i < rows.len() ==> p(#[trigger] rows[i]) == q(rows[i]) && (p(rows[i]) ==> f(
                rows[i],
            ) == g(rows[i])),
    ensures
        sum_rows(rows, p, f) == sum_rows(rows, q, g),
    decreases rows.len(),
{
    if rows.len() > 0 {
        let rest = rows.drop_last();
        assert forall|i: int| 0 <= i < rest.len() implies p(#[trigger] rest[i]) == q(rest[i]) && (p(
            rest[i],
        ) ==> f(rest[i]) == g(rest[i])) by {
            assert(rest[i] == rows[i]);
        }
        lemma_sum_same(rest, p, q, f, g);
        assert(rows.last() == rows[rows.len() - 1]);
    }
}

/// One more row changes a sum by its own share.
pub proof fn lemma_sum_push<T>(rows: Seq<T>, x: T, p: spec_fn(T) -> bool, f: spec_fn(T) -> int)
    ensures
        sum_rows(rows.push(x), p, f) == sum_rows(rows, p, f) + part(x, p, f),
{
    assert(rows.push(x).drop_last() =~= rows);
}

spec fn fee_of() -> spec_fn(PayoutView) -> int {
    |x: PayoutView| x.fee_atomic as int
}

spec fn split_fee() -> spec_fn(VaultSplitView) -> int {
    |s: VaultSplitView| s.fee_atomic as int
}

spec fn refund_amount() -> spec_fn(SolanaRefundView) -> int {
    |x: SolanaRefundView| (x.amount_solana_atomic as i64) as int
}

spec fn goldcoin_parts(l: LedgerView, now: i64) -> (int, int, int, int, int) {
    (
        sum_rows(l.requests, on_its_way(ReserveDirection::GoldcoinReserve), net_of()),
        sum_rows(l.payouts, payout_in(PayoutState::Broadcast), stored_cost()),
        l.utxo_sum(l.own_unconfirmed(now)),
        sum_rows(l.payouts, payout_in(PayoutState::Confirmed), fee_of()),
        sum_rows(l.splits, explained_split(now), split_fee()),
    )
}

proof fn lemma_goldcoin(l: LedgerView, now: i64, secs: i64)
    requires
        no_negative_amounts(l),
    ensures
        ({
            let (a, b, c, d, e) = goldcoin_parts(l, now);
            let r = l.in_flight(ReserveDirection::GoldcoinReserve, now, secs);
            &&& a >= 0 && b >= 0 && c >= 0 && d >= 0 && e >= 0
            &&& r matches Ok(n) ==> n <= i64::MAX ==> n == a + b + c + d + e && !any_row(
                l.payouts,
                unstorable_payout(),
            )
            &&& a + b + c + d + e <= i64::MAX && !any_row(l.payouts, unstorable_payout()) ==> r == Ok::<
                u64,
                LedgerError,
            >((a + b + c + d + e) as u64)
        }),
{
    lemma_sum_positive(l.requests, on_its_way(ReserveDirection::GoldcoinReserve), net_of());
    lemma_sum_positive(l.payouts, payout_in(PayoutState::Broadcast), stored_cost());
    lemma_sum_positive(l.vault_utxos, l.own_unconfirmed(now), utxo_amount());
    lemma_sum_positive(l.payouts, payout_in(PayoutState::Confirmed), fee_of());
    lemma_sum_positive(l.splits, explained_split(now), split_fee());
    assert(fee_of() == (|x: PayoutView| x.fee_atomic as int));
    assert(split_fee() == (|s: VaultSplitView| s.fee_atomic as int));
}

/// Sending a payout puts on its way out of the Goldcoin reserve, besides what its
/// request pays, everything that its transaction spends: what it pays, what it
/// returns as change and what it costs, which are the inputs recorded for it.
pub proof fn law_a_sent_payout_is_on_its_way_with_all_its_inputs(
    l: LedgerView,
    id: i64,
    txid: [u8; 32],
    amounts: Seq<i64>,
    sent_at: i64,
    now: i64,
    secs: i64,
    n: u64,
)
    requires
        no_negative_amounts(l),
        l.payout(id) matches Some(p) && p.state == PayoutState::Signed && p.txid is None,
        l.request(id) matches Some(q) && q.state == RequestState::SettlementAuthorized && (
        q.direction == Direction::SolToGlc || q.direction == Direction::RhnToGlc),
        forall|i: int| 0 <= i < l.vault_utxos.len() ==> (#[trigger] l.vault_utxos[i]).txid != txid,
        l.in_flight(ReserveDirection::GoldcoinReserve, now, secs) == Ok::<u64, LedgerError>(n),
        n + l.request(id).unwrap().net_destination_atomic + l.payout(id).unwrap().payout_atomic
            + l.payout(id).unwrap().change_atomic + l.payout(id).unwrap().fee_atomic <= i64::MAX,
    ensures
        ({
            let p = l.payout(id).unwrap();
            let net = l.request(id).unwrap().net_destination_atomic;
            let m = l.payout_sent(id, txid, amounts, sent_at);
            let spent = sum_rows(
                l.payout_inputs,
                |x: PayoutInputView| x.request_id == id,
                |x: PayoutInputView| x.amount_atomic as int,
            );
            let r = m.in_flight(ReserveDirection::GoldcoinReserve, now, secs);
            &&& r == Ok::<u64, LedgerError>(
                (n + net + p.payout_atomic + p.change_atomic + p.fee_atomic) as u64,
            )
            &&& spent == p.payout_atomic + p.change_atomic + p.fee_atomic ==> r == Ok::<
                u64,
                LedgerError,
            >((n + net + spent) as u64)
        }),
{
    let p = l.payout(id).unwrap();
    let q = l.request(id).unwrap();
    let m = l.payout_sent(id, txid, amounts, sent_at);
    let row = PayoutView {
        state: PayoutState::Broadcast,
        txid: Some(txid),
        broadcast_at: Some(sent_at),
        ..p
    };
    let moved = RequestView {
        state: RequestState::DestinationSubmitted,
        destination_txid: Some(txid@),
        ..q
    };
    let d = ReserveDirection::GoldcoinReserve;
    lemma_goldcoin(l, now, secs);
    lemma_first_row_is_first(l.payouts, payout_for(id));
    lemma_first_row_is_first(l.requests, by_id(id));
    let i = first_row(l.payouts, payout_for(id)).unwrap();
    let j = l.pos(id).unwrap();
    assert(m.payouts == l.payouts.update(i, row));
    assert(m.requests == l.requests.update(j, moved));
    assert(no_negative_amounts(m)) by {
        assert(l.payouts[i].payout_atomic >= 0);
        assert(l.requests[j].net_destination_atomic >= 0);
        assert forall|k: int| 0 <= k < m.requests.len() implies (
        #[trigger] m.requests[k]).net_destination_atomic >= 0 by {
            if k != j {
                assert(m.requests[k] == l.requests[k]);
            }
        }
        assert forall|k: int| 0 <= k < m.payouts.len() implies (
        #[trigger] m.payouts[k]).payout_atomic >= 0 && m.payouts[k].change_atomic >= 0
            && m.payouts[k].fee_atomic >= 0 by {
            if k != i {
                assert(m.payouts[k] == l.payouts[k]);
            }
        }
    }
    lemma_sum_update(l.requests, on_its_way(d), net_of(), j, moved);
    lemma_sum_update(l.payouts, payout_in(PayoutState::Broadcast), stored_cost(), i, row);
    lemma_sum_update(l.payouts, payout_in(PayoutState::Confirmed), fee_of(), i, row);
    assert forall|k: int| 0 <= k < l.vault_utxos.len() implies l.own_unconfirmed(now)(
        #[trigger] l.vault_utxos[k],
    ) == m.own_unconfirmed(now)(l.vault_utxos[k]) by {
        let v = l.vault_utxos[k];
        let t = payout_tx(v.txid);
        if any_row(l.payouts, t) {
            let x = choose|x: int| 0 <= x < l.payouts.len() && t(#[trigger] l.payouts[x]);
            assert(x != i);
            assert(t(m.payouts[x]));
        }
        if any_row(m.payouts, t) {
            let x = choose|x: int| 0 <= x < m.payouts.len() && t(#[trigger] m.payouts[x]);
            assert(x != i);
            assert(t(l.payouts[x]));
        }
    }
    lemma_sum_same(
        l.vault_utxos,
        l.own_unconfirmed(now),
        m.own_unconfirmed(now),
        utxo_amount(),
        utxo_amount(),
    );
    if any_row(m.payouts, unstorable_payout()) {
        let x = choose|x: int|
            0 <= x < m.payouts.len() && unstorable_payout()(#[trigger] m.payouts[x]);
        if x != i {
            assert(m.payouts[x] == l.payouts[x]);
            assert(unstorable_payout()(l.payouts[x]));
        }
        assert(x == i);
    }
    lemma_goldcoin(m, now, secs);
}

proof fn lemma_coins_as_inputs(rows: Seq<PayoutInputView>, id: i64, inputs: Seq<CoinView>, k: int)
    requires
        0 <= k <= inputs.len(),
        forall|i: int| 0 <= i < inputs.len() ==> (#[trigger] inputs[i]).amount_atomic <= i64::MAX,
        forall|i: int| 0 <= i < rows.len() ==> (#[trigger] rows[i]).request_id != id,
    ensures
        sum_rows(
            rows + input_rows(id, inputs).take(k),
            |x: PayoutInputView| x.request_id == id,
            |x: PayoutInputView| x.amount_atomic as int,
        ) == sum_rows(inputs.take(k), |c: CoinView| true, |c: CoinView| c.amount_atomic as int),
    decreases k,
{
    let p = |x: PayoutInputView| x.request_id == id;
    let f = |x: PayoutInputView| x.amount_atomic as int;
    let all = input_rows(id, inputs);
    if k == 0 {
        assert(rows + all.take(0) =~= rows);
        lemma_none(rows, p, f);
        assert(inputs.take(0) =~= Seq::<CoinView>::empty());
    } else {
        lemma_coins_as_inputs(rows, id, inputs, k - 1);
        assert((rows + all.take(k)).drop_last() =~= rows + all.take(k - 1));
        assert((rows + all.take(k)).last() == all[k - 1]);
        assert(inputs.take(k).drop_last() =~= inputs.take(k - 1));
        assert(inputs.take(k).last() == inputs[k - 1]);
    }
}

proof fn lemma_change_positive(amounts: Seq<u64>, k: int)
    ensures
        sum_to(amounts, k) >= 0,
    decreases k,
{
    if k > 0 {
        lemma_change_positive(amounts, k - 1);
    }
}

proof fn lemma_none<T>(rows: Seq<T>, p: spec_fn(T) -> bool, f: spec_fn(T) -> int)
    requires
        forall|i: int| 0 <= i < rows.len() ==> !p(#[trigger] rows[i]),
    ensures
        sum_rows(rows, p, f) == 0,
    decreases rows.len(),
{
    if rows.len() > 0 {
        let rest = rows.drop_last();
        assert forall|i: int| 0 <= i < rest.len() implies !p(#[trigger] rest[i]) by {
            assert(rest[i] == rows[i]);
        }
        lemma_none(rest, p, f);
        assert(!p(rows[rows.len() - 1]));
    }
}

/// A payout is recorded as it was planned: with its inputs, each as it is worth,
/// and with what it pays, returns and costs. Where the plan balances, so does the
/// record.
pub proof fn law_a_built_payout_balances(
    l: LedgerView,
    id: i64,
    inputs: Seq<CoinView>,
    payout_atomic: u64,
    change_outputs: Seq<u64>,
    fee_atomic: u64,
    dest: [u8; 20],
    commitment_hash: [u8; 32],
    unsigned_tx: Seq<char>,
    now: i64,
)
    requires
        l.build_payout_result(id, inputs) is Ok,
        forall|i: int| 0 <= i < l.payout_inputs.len() ==> (
        #[trigger] l.payout_inputs[i]).request_id != id,
        forall|i: int| 0 <= i < inputs.len() ==> (#[trigger] inputs[i]).amount_atomic <= i64::MAX,
        payout_atomic <= i64::MAX,
        fee_atomic <= i64::MAX,
        sum_to(change_outputs, change_outputs.len() as int) <= i64::MAX,
    ensures
        ({
            let m = l.payout_built(
                id,
                inputs,
                payout_atomic,
                change_outputs,
                fee_atomic,
                dest,
                commitment_hash,
                unsigned_tx,
                now,
            );
            let change = sum_to(change_outputs, change_outputs.len() as int);
            let planned = sum_rows(
                inputs,
                |c: CoinView| true,
                |c: CoinView| c.amount_atomic as int,
            );
            let recorded = sum_rows(
                m.payout_inputs,
                |x: PayoutInputView| x.request_id == id,
                |x: PayoutInputView| x.amount_atomic as int,
            );
            &&& l.payout(id) is None
            &&& recorded == planned
            &&& m.payout(id) matches Some(p) && p.payout_atomic == payout_atomic
                && p.change_atomic == change && p.fee_atomic == fee_atomic && p.state
                == PayoutState::Built && p.txid is None && p.dest_p2pkh_hash == dest
                && p.commitment_hash == commitment_hash && p.confirmations == 0 && (planned
                == payout_atomic + change + fee_atomic ==> recorded == p.payout_atomic
                + p.change_atomic + p.fee_atomic)
            &&& m.requests == l.requests && m.reserves == l.reserves && m.vault_utxos
                == l.vault_utxos
        }),
{
    let m = l.payout_built(
        id,
        inputs,
        payout_atomic,
        change_outputs,
        fee_atomic,
        dest,
        commitment_hash,
        unsigned_tx,
        now,
    );
    let all = input_rows(id, inputs);
    lemma_change_positive(change_outputs, change_outputs.len() as int);
    lemma_coins_as_inputs(l.payout_inputs, id, inputs, inputs.len() as int);
    assert(all.take(inputs.len() as int) =~= all);
    assert(inputs.take(inputs.len() as int) =~= inputs);
    let k = l.payouts.len() as int;
    let p = payout_for(id);
    assert(is_first(m.payouts, p, k)) by {
        assert forall|j: int| 0 <= j < k implies !p(#[trigger] m.payouts[j]) by {
            assert(m.payouts[j] == l.payouts[j]);
        }
    }
    lemma_first_row(m.payouts, p, k);
}

/// One more request is on its way out of a reserve exactly where it pays out of
/// that reserve and its payment was sent, and still after it was confirmed where
/// the reserve is Goldcoin's, which leaves the books at the settlement only.
pub proof fn law_a_request_is_on_its_way_until_it_is_booked(
    l: LedgerView,
    x: RequestView,
    now: i64,
    secs: i64,
    n: u64,
    to_solana: bool,
)
    requires
        no_negative_amounts(l),
        x.net_destination_atomic >= 0,
        l.in_flight(
            if to_solana {
                ReserveDirection::SolanaReserve
            } else {
                ReserveDirection::GoldcoinReserve
            },
            now,
            secs,
        ) == Ok::<u64, LedgerError>(n),
        n + x.net_destination_atomic <= i64::MAX,
    ensures
        ({
            let m = LedgerView { requests: l.requests.push(x), ..l };
            let counted = if to_solana {
                (x.direction == Direction::GlcToSol || x.direction == Direction::RhnToSol)
                    && x.state == RequestState::DestinationSubmitted
            } else {
                (x.direction == Direction::SolToGlc || x.direction == Direction::RhnToGlc) && (
                x.state == RequestState::DestinationSubmitted || x.state
                    == RequestState::DestinationConfirmed)
            };
            let d = if to_solana {
                ReserveDirection::SolanaReserve
            } else {
                ReserveDirection::GoldcoinReserve
            };
            m.in_flight(d, now, secs) == Ok::<u64, LedgerError>(
                (n + (if counted {
                    x.net_destination_atomic as int
                } else {
                    0
                })) as u64,
            )
        }),
{
    let m = LedgerView { requests: l.requests.push(x), ..l };
    assert(no_negative_amounts(m)) by {
        assert forall|k: int| 0 <= k < m.requests.len() implies (
        #[trigger] m.requests[k]).net_destination_atomic >= 0 by {
            if k < l.requests.len() {
                assert(m.requests[k] == l.requests[k]);
            }
        }
    }
    lemma_goldcoin(l, now, secs);
    lemma_goldcoin(m, now, secs);
    lemma_solana(l, now, secs);
    lemma_solana(m, now, secs);
    lemma_sum_push(l.requests, x, on_its_way(ReserveDirection::GoldcoinReserve), net_of());
    lemma_sum_push(l.requests, x, on_its_way(ReserveDirection::SolanaReserve), net_of());
    assert(l.own_unconfirmed(now) =~= m.own_unconfirmed(now));
}

proof fn lemma_solana(l: LedgerView, now: i64, secs: i64)
    requires
        no_negative_amounts(l),
    ensures
        ({
            let a = sum_rows(l.requests, on_its_way(ReserveDirection::SolanaReserve), net_of());
            let b = l.refunds_in_flight();
            let r = l.in_flight(ReserveDirection::SolanaReserve, now, secs);
            &&& a >= 0 && b >= 0
            &&& b == sum_rows(l.solana_refunds, refund_sent(), refund_amount())
            &&& r matches Ok(n) ==> n <= i64::MAX ==> n == a + b
            &&& a + b <= i64::MAX ==> r == Ok::<u64, LedgerError>((a + b) as u64)
        }),
{
    lemma_sum_positive(l.requests, on_its_way(ReserveDirection::SolanaReserve), net_of());
    assert(refund_amount() == (|x: SolanaRefundView| (x.amount_solana_atomic as i64) as int));
    assert forall|i: int| 0 <= i < l.solana_refunds.len() implies refund_amount()(
        #[trigger] l.solana_refunds[i],
    ) >= 0 by {}
    lemma_sum_positive(l.solana_refunds, refund_sent(), refund_amount());
}

/// One more Solana refund is on its way exactly while it is broadcast and not
/// confirmed, by what it gives back.
pub proof fn law_a_broadcast_refund_is_on_its_way(
    l: LedgerView,
    x: SolanaRefundView,
    now: i64,
    secs: i64,
    n: u64,
)
    requires
        no_negative_amounts(l),
        l.in_flight(ReserveDirection::SolanaReserve, now, secs) == Ok::<u64, LedgerError>(n),
        n + x.amount_solana_atomic <= i64::MAX,
    ensures
        ({
            let m = LedgerView { solana_refunds: l.solana_refunds.push(x), ..l };
            m.in_flight(ReserveDirection::SolanaReserve, now, secs) == Ok::<u64, LedgerError>(
                (n + (if x.state == SolanaRefundState::Broadcast {
                    x.amount_solana_atomic as int
                } else {
                    0
                })) as u64,
            )
        }),
{
    let m = LedgerView { solana_refunds: l.solana_refunds.push(x), ..l };
    lemma_solana(l, now, secs);
    assert(no_negative_amounts(m)) by {
        assert forall|k: int| 0 <= k < m.solana_refunds.len() implies (
        #[trigger] m.solana_refunds[k]).amount_solana_atomic <= i64::MAX by {
            if k < l.solana_refunds.len() {
                assert(m.solana_refunds[k] == l.solana_refunds[k]);
            }
        }
    }
    lemma_solana(m, now, secs);
    lemma_sum_push(l.solana_refunds, x, refund_sent(), refund_amount());
}

/// One more payout is on its way out of the vault with all that it spends while it
/// is broadcast, with its fee once it is confirmed, and not at all before it was
/// sent and after it was completed.
pub proof fn law_a_payout_leaves_its_fee_behind(
    l: LedgerView,
    x: PayoutView,
    now: i64,
    secs: i64,
    n: u64,
)
    requires
        no_negative_amounts(l),
        x.payout_atomic >= 0,
        x.change_atomic >= 0,
        x.fee_atomic >= 0,
        x.txid matches Some(t) ==> forall|i: int|
            0 <= i < l.vault_utxos.len() ==> (#[trigger] l.vault_utxos[i]).txid != t,
        l.in_flight(ReserveDirection::GoldcoinReserve, now, secs) == Ok::<u64, LedgerError>(n),
        n + x.payout_atomic + x.change_atomic + x.fee_atomic <= i64::MAX,
    ensures
        ({
            let m = LedgerView { payouts: l.payouts.push(x), ..l };
            m.in_flight(ReserveDirection::GoldcoinReserve, now, secs) == Ok::<u64, LedgerError>(
                (n + (if x.state == PayoutState::Broadcast {
                    x.payout_atomic + x.change_atomic + x.fee_atomic
                } else if x.state == PayoutState::Confirmed {
                    x.fee_atomic as int
                } else {
                    0
                })) as u64,
            )
        }),
{
    let m = LedgerView { payouts: l.payouts.push(x), ..l };
    lemma_goldcoin(l, now, secs);
    assert(no_negative_amounts(m)) by {
        assert forall|k: int| 0 <= k < m.payouts.len() implies (
        #[trigger] m.payouts[k]).payout_atomic >= 0 && m.payouts[k].change_atomic >= 0
            && m.payouts[k].fee_atomic >= 0 by {
            if k < l.payouts.len() {
                assert(m.payouts[k] == l.payouts[k]);
            }
        }
    }
    lemma_sum_push(l.payouts, x, payout_in(PayoutState::Broadcast), stored_cost());
    lemma_sum_push(l.payouts, x, payout_in(PayoutState::Confirmed), fee_of());
    let last = l.payouts.len() as int;
    assert forall|k: int| 0 <= k < l.vault_utxos.len() implies l.own_unconfirmed(now)(
        #[trigger] l.vault_utxos[k],
    ) == m.own_unconfirmed(now)(l.vault_utxos[k]) by {
        let t = payout_tx(l.vault_utxos[k].txid);
        if any_row(l.payouts, t) {
            let i = choose|i: int| 0 <= i < l.payouts.len() && t(#[trigger] l.payouts[i]);
            assert(t(m.payouts[i]));
        }
        if any_row(m.payouts, t) {
            let i = choose|i: int| 0 <= i < m.payouts.len() && t(#[trigger] m.payouts[i]);
            assert(i < last);
            assert(t(l.payouts[i]));
        }
    }
    lemma_sum_same(
        l.vault_utxos,
        l.own_unconfirmed(now),
        m.own_unconfirmed(now),
        utxo_amount(),
        utxo_amount(),
    );
    if any_row(m.payouts, unstorable_payout()) {
        let i = choose|i: int|
            0 <= i < m.payouts.len() && unstorable_payout()(#[trigger] m.payouts[i]);
        if i < last {
            assert(unstorable_payout()(l.payouts[i]));
        }
        assert(i == last);
    }
    lemma_goldcoin(m, now, secs);
}

/// One more split leaves its fee behind once it was sent, for good, unless its
/// inputs have been missing for ten minutes.
pub proof fn law_a_split_leaves_its_fee_behind(
    l: LedgerView,
    x: VaultSplitView,
    now: i64,
    secs: i64,
    n: u64,
)
    requires
        no_negative_amounts(l),
        x.fee_atomic >= 0,
        x.txid matches Some(t) ==> forall|i: int|
            0 <= i < l.vault_utxos.len() ==> (#[trigger] l.vault_utxos[i]).txid != t,
        l.in_flight(ReserveDirection::GoldcoinReserve, now, secs) == Ok::<u64, LedgerError>(n),
        n + x.fee_atomic <= i64::MAX,
    ensures
        ({
            let m = LedgerView { splits: l.splits.push(x), ..l };
            let counted = (x.state == SplitState::Broadcast || x.state == SplitState::Confirmed)
                && (x.missing_inputs_since is None || now - x.missing_inputs_since.unwrap() < 600);
            m.in_flight(ReserveDirection::GoldcoinReserve, now, secs) == Ok::<u64, LedgerError>(
                (n + (if counted {
                    x.fee_atomic as int
                } else {
                    0
                })) as u64,
            )
        }),
{
    let m = LedgerView { splits: l.splits.push(x), ..l };
    lemma_goldcoin(l, now, secs);
    assert(no_negative_amounts(m)) by {
        assert forall|k: int| 0 <= k < m.splits.len() implies (#[trigger] m.splits[k]).fee_atomic
            >= 0 by {
            if k < l.splits.len() {
                assert(m.splits[k] == l.splits[k]);
            }
        }
    }
    lemma_sum_push(l.splits, x, explained_split(now), split_fee());
    let last = l.splits.len() as int;
    assert forall|k: int| 0 <= k < l.vault_utxos.len() implies l.own_unconfirmed(now)(
        #[trigger] l.vault_utxos[k],
    ) == m.own_unconfirmed(now)(l.vault_utxos[k]) by {
        let t = explainable_split(l.vault_utxos[k].txid, now);
        if any_row(l.splits, t) {
            let i = choose|i: int| 0 <= i < l.splits.len() && t(#[trigger] l.splits[i]);
            assert(t(m.splits[i]));
        }
        if any_row(m.splits, t) {
            let i = choose|i: int| 0 <= i < m.splits.len() && t(#[trigger] m.splits[i]);
            assert(i < last);
            assert(t(l.splits[i]));
        }
    }
    lemma_sum_same(
        l.vault_utxos,
        l.own_unconfirmed(now),
        m.own_unconfirmed(now),
        utxo_amount(),
        utxo_amount(),
    );
    lemma_goldcoin(m, now, secs);
}

/// One more output of the vault is on its way back exactly where it has not
/// matured and is the service's own: change of one of its payouts, or a chunk of a
/// split that was sent and whose inputs have not been missing for ten minutes.
pub proof fn law_own_change_is_on_its_way_until_it_matures(
    l: LedgerView,
    x: VaultUtxoView,
    now: i64,
    secs: i64,
    n: u64,
)
    requires
        no_negative_amounts(l),
        x.amount_atomic >= 0,
        l.in_flight(ReserveDirection::GoldcoinReserve, now, secs) == Ok::<u64, LedgerError>(n),
        n + x.amount_atomic <= i64::MAX,
    ensures
        ({
            let m = LedgerView { vault_utxos: l.vault_utxos.push(x), ..l };
            let of_payout = exists|i: int|
                0 <= i < l.payouts.len() && (#[trigger] l.payouts[i]).txid == Some(x.txid);
            let of_split = exists|i: int|
                0 <= i < l.splits.len() && (#[trigger] l.splits[i]).txid == Some(x.txid) && (
                l.splits[i].state == SplitState::Broadcast || l.splits[i].state
                    == SplitState::Confirmed) && (l.splits[i].missing_inputs_since is None || now
                    - l.splits[i].missing_inputs_since.unwrap() < 600);
            m.in_flight(ReserveDirection::GoldcoinReserve, now, secs) == Ok::<u64, LedgerError>(
                (n + (if x.state == VaultUtxoState::Unconfirmed && (of_payout || of_split) {
                    x.amount_atomic as int
                } else {
                    0
                })) as u64,
            )
        }),
{
    let m = LedgerView { vault_utxos: l.vault_utxos.push(x), ..l };
    lemma_goldcoin(l, now, secs);
    assert(no_negative_amounts(m)) by {
        assert forall|k: int| 0 <= k < m.vault_utxos.len() implies (
        #[trigger] m.vault_utxos[k]).amount_atomic >= 0 by {
            if k < l.vault_utxos.len() {
                assert(m.vault_utxos[k] == l.vault_utxos[k]);
            }
        }
    }
    assert(l.own_unconfirmed(now) =~= m.own_unconfirmed(now));
    lemma_sum_push(l.vault_utxos, x, l.own_unconfirmed(now), utxo_amount());
    let t = payout_tx(x.txid);
    let s = explainable_split(x.txid, now);
    if any_row(l.payouts, t) {
        let i = choose|i: int| 0 <= i < l.payouts.len() && t(#[trigger] l.payouts[i]);
        assert(l.payouts[i].txid == Some(x.txid));
    }
    if any_row(l.splits, s) {
        let i = choose|i: int| 0 <= i < l.splits.len() && s(#[trigger] l.splits[i]);
        assert(l.splits[i].txid == Some(x.txid));
    }
    assert forall|i: int|
        0 <= i < l.payouts.len() && (#[trigger] l.payouts[i]).txid == Some(x.txid) implies any_row(
        l.payouts,
        t,
    ) by {
        assert(t(l.payouts[i]));
    }
    assert forall|i: int|
        0 <= i < l.splits.len() && (#[trigger] l.splits[i]).txid == Some(x.txid) && (
        l.splits[i].state == SplitState::Broadcast || l.splits[i].state == SplitState::Confirmed)
            && (l.splits[i].missing_inputs_since is None || now
            - l.splits[i].missing_inputs_since.unwrap() < 600) implies any_row(l.splits, s) by {
        assert(s(l.splits[i]));
    }
    lemma_goldcoin(m, now, secs);
}

/// No amount that is on its way on Robinhood is negative.
pub open spec fn no_negative_robinhood_amounts(l: LedgerView) -> bool {
    &&& forall|i: int|
        0 <= i < l.requests.len() ==> (#[trigger] l.requests[i]).net_destination_atomic >= 0
    &&& forall|i: int|
        0 <= i < l.proposals.rebalances.len() ==> (
        #[trigger] l.proposals.rebalances[i]).amount_atomic >= 0
}

proof fn lemma_robinhood(l: LedgerView, now: i64, secs: i64)
    requires
        no_negative_robinhood_amounts(l),
    ensures
        ({
            let d = ReserveDirection::RobinhoodReserve;
            let a = sum_rows(l.requests, on_its_way(d), net_of());
            let b = sum_rows(l.robinhood_txs, l.rhn_payout_sent(now, secs), l.rhn_payout_value());
            let c = sum_rows(
                l.robinhood_txs,
                l.rhn_withdraw_sent(now, secs),
                l.rhn_withdraw_value(),
            );
            let r = l.in_flight(d, now, secs);
            &&& a >= 0 && b >= 0 && c >= 0
            &&& r matches Ok(n) ==> n <= i64::MAX ==> n == a + b + c
            &&& a + b + c <= i64::MAX ==> r == Ok::<u64, LedgerError>((a + b + c) as u64)
        }),
{
    lemma_sum_positive(l.requests, on_its_way(ReserveDirection::RobinhoodReserve), net_of());
    assert forall|i: int| 0 <= i < l.robinhood_txs.len() implies l.rhn_payout_value()(
        #[trigger] l.robinhood_txs[i],
    ) >= 0 by {
        if let Some(id) = l.robinhood_txs[i].request_id {
            lemma_first_row_is_first(l.requests, by_id(id));
        }
    }
    assert forall|i: int| 0 <= i < l.robinhood_txs.len() implies l.rhn_withdraw_value()(
        #[trigger] l.robinhood_txs[i],
    ) >= 0 by {
        if let Some(id) = l.robinhood_txs[i].rebalance_request_id {
            lemma_first_row_is_first(l.proposals.rebalances, rebalance_by_id(id));
        }
    }
    lemma_sum_positive(l.robinhood_txs, l.rhn_payout_sent(now, secs), l.rhn_payout_value());
    lemma_sum_positive(l.robinhood_txs, l.rhn_withdraw_sent(now, secs), l.rhn_withdraw_value());
}

/// One more operation on Robinhood is on its way from its broadcast until its request, or
/// its rebalance, is in the books: a payout by what its request pays, a withdrawal to the
/// treasury by the amount of its rebalance. One that is final for longer than an incident
/// may last explains nothing any more, and a refund never does.
pub proof fn law_a_robinhood_operation_is_on_its_way_until_it_is_booked(
    l: LedgerView,
    t: RobinhoodTxView,
    now: i64,
    secs: i64,
    n: u64,
    q: RequestView,
    b: RebalanceView,
)
    requires
        no_negative_robinhood_amounts(l),
        l.in_flight(ReserveDirection::RobinhoodReserve, now, secs) == Ok::<u64, LedgerError>(n),
        t.request_id is Some ==> l.request(t.request_id.unwrap()) == Some(q),
        t.rebalance_request_id is Some ==> l.rebalance(t.rebalance_request_id.unwrap()) == Some(b),
        n + q.net_destination_atomic + b.amount_atomic <= i64::MAX,
        q.net_destination_atomic >= 0,
        b.amount_atomic >= 0,
    ensures
        ({
            let m = LedgerView { robinhood_txs: l.robinhood_txs.push(t), ..l };
            let under_way = t.state == RobinhoodTxState::Broadcast || t.state
                == RobinhoodTxState::Included || (t.state == RobinhoodTxState::Finalized
                && t.finalized_at is Some && now - t.finalized_at.unwrap() < secs);
            let pays = t.kind == RobinhoodTxKind::Payout && t.request_id is Some && q.state
                != RequestState::DestinationConfirmed && q.state != RequestState::Settled;
            let withdraws = t.kind == RobinhoodTxKind::TreasuryWithdraw
                && t.rebalance_request_id is Some && b.state != RebalanceState::Confirmed;
            m.in_flight(ReserveDirection::RobinhoodReserve, now, secs) == Ok::<u64, LedgerError>(
                (n + (if under_way && pays {
                    q.net_destination_atomic as int
                } else if under_way && withdraws {
                    b.amount_atomic as int
                } else {
                    0
                })) as u64,
            )
        }),
{
    let m = LedgerView { robinhood_txs: l.robinhood_txs.push(t), ..l };
    lemma_robinhood(l, now, secs);
    lemma_robinhood(m, now, secs);
    assert forall|id: i64| #[trigger] m.request(id) == l.request(id) by {}
    assert forall|id: i64| #[trigger] m.rebalance(id) == l.rebalance(id) by {}
    assert(m.rhn_payout_sent(now, secs) =~= l.rhn_payout_sent(now, secs));
    assert(m.rhn_payout_value() =~= l.rhn_payout_value());
    assert(m.rhn_withdraw_sent(now, secs) =~= l.rhn_withdraw_sent(now, secs));
    assert(m.rhn_withdraw_value() =~= l.rhn_withdraw_value());
    lemma_sum_push(l.robinhood_txs, t, l.rhn_payout_sent(now, secs), l.rhn_payout_value());
    lemma_sum_push(l.robinhood_txs, t, l.rhn_withdraw_sent(now, secs), l.rhn_withdraw_value());
}

/// One more request out of the Robinhood reserve, that no operation belongs to yet, is on
/// its way exactly while its payment is submitted and not confirmed.
pub proof fn law_a_robinhood_request_is_on_its_way_until_it_is_confirmed(
    l: LedgerView,
    x: RequestView,
    now: i64,
    secs: i64,
    n: u64,
)
    requires
        no_negative_robinhood_amounts(l),
        x.net_destination_atomic >= 0,
        forall|i: int|
            0 <= i < l.robinhood_txs.len() ==> (#[trigger] l.robinhood_txs[i]).request_id != Some(
                x.id,
            ),
        l.in_flight(ReserveDirection::RobinhoodReserve, now, secs) == Ok::<u64, LedgerError>(n),
        n + x.net_destination_atomic <= i64::MAX,
    ensures
        ({
            let m = LedgerView { requests: l.requests.push(x), ..l };
            m.in_flight(ReserveDirection::RobinhoodReserve, now, secs) == Ok::<u64, LedgerError>(
                (n + (if (x.direction == Direction::GlcToRhn || x.direction == Direction::SolToRhn)
                    && x.state == RequestState::DestinationSubmitted {
                    x.net_destination_atomic as int
                } else {
                    0
                })) as u64,
            )
        }),
{
    let m = LedgerView { requests: l.requests.push(x), ..l };
    assert(no_negative_robinhood_amounts(m)) by {
        assert forall|k: int| 0 <= k < m.requests.len() implies (
        #[trigger] m.requests[k]).net_destination_atomic >= 0 by {
            if k < l.requests.len() {
                assert(m.requests[k] == l.requests[k]);
            }
        }
    }
    lemma_robinhood(l, now, secs);
    lemma_robinhood(m, now, secs);
    lemma_sum_push(l.requests, x, on_its_way(ReserveDirection::RobinhoodReserve), net_of());
    assert forall|id: i64| id != x.id implies #[trigger] m.request(id) == l.request(id) by {
        lemma_pushed(l.requests, x, id);
    }
    assert forall|id: i64| #[trigger] m.rebalance(id) == l.rebalance(id) by {}
    lemma_sum_same(
        l.robinhood_txs,
        l.rhn_payout_sent(now, secs),
        m.rhn_payout_sent(now, secs),
        l.rhn_payout_value(),
        m.rhn_payout_value(),
    );
    lemma_sum_same(
        l.robinhood_txs,
        l.rhn_withdraw_sent(now, secs),
        m.rhn_withdraw_sent(now, secs),
        l.rhn_withdraw_value(),
        m.rhn_withdraw_value(),
    );
}

proof fn lemma_pushed(rows: Seq<RequestView>, x: RequestView, id: i64)
    requires
        x.id != id,
    ensures
        first_row(rows.push(x), by_id(id)) == first_row(rows, by_id(id)),
        first_row(rows, by_id(id)) matches Some(i) ==> 0 <= i < rows.len(),
{
    let p = by_id(id);
    let t = rows.push(x);
    lemma_first_row_is_first(rows, p);
    lemma_first_row_is_first(t, p);
    if let Some(i) = first_row(rows, p) {
        assert(is_first(t, p, i)) by {
            assert forall|j: int| 0 <= j < i implies !p(#[trigger] t[j]) by {
                assert(t[j] == rows[j]);
            }
        }
        lemma_first_row(t, p, i);
    } else if let Some(i) = first_row(t, p) {
        assert(i < rows.len());
        assert(p(rows[i]));
    }
}

} // verus!
