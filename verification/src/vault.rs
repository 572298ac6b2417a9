//! The outputs of the Goldcoin vault: which may be spent, and by whom.
use vstd::prelude::*;
use crate::error::LedgerError;
use crate::ledger::{Ledger, LedgerView};
use crate::rows::{
    BridgeRequest, ChangeOutpointRow, ChangeOutpointView, CoinView, PayoutRow, PayoutView,
    RequestView, VaultSplitRow, VaultSplitView, VaultUtxo, VaultUtxoEntry, VaultUtxoRow,
    VaultUtxoRowView, VaultUtxoView, ZeroConfChangeCandidate, ZeroConfView, own_text,
};
use crate::table::{
    any_row, any_where, bytes_le, collect_where, count_rows, count_where, eq32, find_where,
    first_row, is32, le32, lemma_bytes_order, narrow, select_rows, sort_rows, sorted_by, sum_rows,
    sum_where, total_order, values,
};
use crate::types::{RequestState, SplitState, VaultUtxoState};

verus! {

/// How long the chunks of a broadcast split are still expected once its
/// inputs were reported missing.
pub const SPLIT_MISSING_INPUTS_GRACE_SECS: i64 = 600;

/// A request whose Goldcoin deposit is this output and is not final.
pub open spec fn unfinalized_deposit(txid: [u8; 32], vout: u32) -> spec_fn(RequestView) -> bool {
    |r: RequestView|
        {
            &&& r.direction.spec_source_is_goldcoin()
            &&& r.source_txid == Some(txid)
            &&& r.source_vout == Some(vout)
            &&& r.state == RequestState::DepositObserved || r.state == RequestState::Confirming
        }
}

/// A split that is under way and spends this output.
pub open spec fn live_claim(txid: [u8; 32], vout: u32) -> spec_fn(VaultSplitView) -> bool {
    |s: VaultSplitView|
        {
            &&& s.source_txid == txid
            &&& s.source_vout == vout
            &&& s.state == SplitState::Built || s.state == SplitState::Signed || s.state
                == SplitState::Broadcast
        }
}

/// A split whose chunks are still expected: broadcast or confirmed, and not
/// reported as missing its inputs for longer than the grace.
pub open spec fn chunks_explainable(s: VaultSplitView, now: i64) -> bool {
    &&& s.state == SplitState::Broadcast || s.state == SplitState::Confirmed
    &&& s.missing_inputs_since matches Some(t) ==> t + SPLIT_MISSING_INPUTS_GRACE_SECS > now
}

/// An output by its outpoint.
pub open spec fn at_outpoint(txid: [u8; 32], vout: u32) -> spec_fn(VaultUtxoView) -> bool {
    |v: VaultUtxoView| v.txid == txid && v.vout == vout
}

/// A change output of a payout by its outpoint.
pub open spec fn change_at(txid: [u8; 32], vout: u32) -> spec_fn(ChangeOutpointView) -> bool {
    |o: ChangeOutpointView| o.txid == txid && o.vout == vout
}

/// A payout by its transaction.
pub open spec fn payout_tx(txid: [u8; 32]) -> spec_fn(PayoutView) -> bool {
    |p: PayoutView| p.txid == Some(txid)
}

impl LedgerView {
    /// No deposit that is not final rests on this output.
    pub open spec fn no_deposit_on(self, txid: [u8; 32], vout: u32) -> bool {
        !any_row(self.requests, unfinalized_deposit(txid, vout))
    }

    /// No split that is under way spends this output.
    pub open spec fn no_claim_on(self, txid: [u8; 32], vout: u32) -> bool {
        !any_row(self.splits, live_claim(txid, vout))
    }

    /// What coin selection may draw from: confirmed deep enough, not the
    /// deposit of a request that is not final, not claimed by a split.
    pub open spec fn spendable(self) -> spec_fn(VaultUtxoView) -> bool {
        |v: VaultUtxoView|
            v.state == VaultUtxoState::Available && self.no_deposit_on(v.txid, v.vout)
                && self.no_claim_on(v.txid, v.vout)
    }

    /// The payout change that this output is.
    pub open spec fn change_of(self, txid: [u8; 32], vout: u32) -> Option<ChangeOutpointView> {
        match first_row(self.change_outpoints, change_at(txid, vout)) {
            Some(i) => Some(self.change_outpoints[i]),
            None => None,
        }
    }

    /// An output that is this service's own and only has to mature: change of
    /// a payout, or a chunk of a split that is still expected.
    pub open spec fn own_unconfirmed(self, now: i64) -> spec_fn(VaultUtxoView) -> bool {
        |v: VaultUtxoView|
            v.state == VaultUtxoState::Unconfirmed && (any_row(self.payouts, payout_tx(v.txid))
                || any_row(self.splits, explainable_split(v.txid, now)))
    }

    /// Payout change that may be spent before it is confirmed deep enough.
    pub open spec fn zero_conf_eligible(self, v: VaultUtxoView, max_depth: u32) -> bool {
        &&& max_depth > 0
        &&& v.state == VaultUtxoState::Unconfirmed
        &&& v.zero_conf_hold_reason is None
        &&& self.change_of(v.txid, v.vout) matches Some(o) && (v.confirmations >= 1
            || o.unconfirmed_ancestor_depth <= max_depth)
    }

    /// What a payout may reserve.
    pub open spec fn reservable(self, max_depth: u32) -> spec_fn(VaultUtxoView) -> bool {
        |v: VaultUtxoView|
            (v.state == VaultUtxoState::Available || self.zero_conf_eligible(v, max_depth))
                && self.no_claim_on(v.txid, v.vout)
    }

    /// The ledger with other vault outputs.
    pub open spec fn with_utxos(self, rows: Seq<VaultUtxoView>) -> LedgerView {
        LedgerView { vault_utxos: rows, ..self }
    }
}

/// A split with this transaction whose chunks are still expected.
pub open spec fn explainable_split(txid: [u8; 32], now: i64) -> spec_fn(VaultSplitView) -> bool {
    |s: VaultSplitView| s.txid == Some(txid) && chunks_explainable(s, now)
}

/// Whether a split's chunks are still expected.
pub fn split_chunks_still_explainable(s: &VaultSplitRow, now: i64) -> (r: bool)
    ensures
        r == chunks_explainable(s@, now),
{
    if !matches!(s.state, SplitState::Broadcast | SplitState::Confirmed) {
        return false;
    }
    match s.missing_inputs_since {
        Some(t) => t as i128 + SPLIT_MISSING_INPUTS_GRACE_SECS as i128 > now as i128,
        None => true,
    }
}

/// The larger output first, then by outpoint.
pub open spec fn coin_order() -> spec_fn(CoinView, CoinView) -> bool {
    |a: CoinView, b: CoinView|
        a.amount_atomic > b.amount_atomic || (a.amount_atomic == b.amount_atomic && (if a.txid
            == b.txid {
            a.vout <= b.vout
        } else {
            bytes_le(a.txid@, b.txid@)
        }))
}

proof fn lemma_txid_order(a: [u8; 32], b: [u8; 32], c: [u8; 32])
    ensures
        bytes_le(a@, b@) || bytes_le(b@, a@),
        bytes_le(a@, b@) && bytes_le(b@, c@) ==> bytes_le(a@, c@),
        bytes_le(a@, b@) && bytes_le(b@, a@) ==> a == b,
{
    lemma_bytes_order(a@, b@, c@);
    if a@ == b@ {
        assert(a =~= b);
    }
}

/// The order of coins is total.
pub proof fn lemma_coin_order_total()
    ensures
        total_order(coin_order()),
{
    assert forall|a: CoinView, b: CoinView| #[trigger] coin_order()(a, b) || coin_order()(b, a) by {
        lemma_txid_order(a.txid, b.txid, b.txid);
    }
    assert forall|a: CoinView, b: CoinView, c: CoinView| #[trigger]
        coin_order()(a, b) && #[trigger] coin_order()(b, c) implies coin_order()(a, c) by {
        lemma_txid_order(a.txid, b.txid, c.txid);
        lemma_txid_order(b.txid, c.txid, a.txid);
        lemma_txid_order(c.txid, a.txid, b.txid);
    }
}

/// The larger candidate first, then by outpoint.
pub open spec fn candidate_order() -> spec_fn(ZeroConfView, ZeroConfView) -> bool {
    |a: ZeroConfView, b: ZeroConfView| coin_order()(a.utxo, b.utxo)
}

/// A vault output as a coin.
pub open spec fn as_coin() -> spec_fn(VaultUtxoView) -> CoinView {
    |v: VaultUtxoView|
        CoinView {
            txid: v.txid,
            vout: v.vout,
            amount_atomic: v.amount_atomic as u64,
            script_pubkey_hex: v.script_pubkey_hex,
        }
}

fn coin_le(a: &VaultUtxo, b: &VaultUtxo) -> (r: bool)
    ensures
        r == coin_order()(a@, b@),
{
    if a.amount_atomic != b.amount_atomic {
        return a.amount_atomic > b.amount_atomic;
    }
    if eq32(&a.txid, &b.txid) {
        a.vout <= b.vout
    } else {
        le32(&a.txid, &b.txid)
    }
}

/// How the vault's outputs stand, in value and in number.
#[derive(Clone, Copy, Debug, Default, PartialEq, Eq, Structural)]
pub struct UtxoPoolHealth {
    pub mature_available_atomic: u64,
    pub own_unconfirmed_change_atomic: u64,
    pub available_utxo_count: u32,
    pub unconfirmed_change_utxo_count: u32,
    pub zero_conf_change_candidate_atomic: u64,
    pub zero_conf_change_candidate_count: u32,
    pub zero_conf_change_held_count: u32,
}

/// The value of an output.
pub open spec fn utxo_amount() -> spec_fn(VaultUtxoView) -> int {
    |v: VaultUtxoView| v.amount_atomic as int
}

/// An output that has not matured.
pub open spec fn immature() -> spec_fn(VaultUtxoView) -> bool {
    |v: VaultUtxoView| v.state == VaultUtxoState::Unconfirmed
}

impl LedgerView {
    /// Immature payout change, on hold or not.
    pub open spec fn immature_change(self, held: bool) -> spec_fn(VaultUtxoView) -> bool {
        |v: VaultUtxoView|
            v.state == VaultUtxoState::Unconfirmed && self.change_of(v.txid, v.vout) is Some && (
            v.zero_conf_hold_reason is Some) == held
    }

    /// The summed value of the outputs that satisfy `q`.
    pub open spec fn utxo_sum(self, q: spec_fn(VaultUtxoView) -> bool) -> int {
        sum_rows(self.vault_utxos, q, utxo_amount())
    }

    /// How many outputs satisfy `q`.
    pub open spec fn utxo_count(self, q: spec_fn(VaultUtxoView) -> bool) -> nat {
        count_rows(self.vault_utxos, q)
    }
}

/// A sum that can be stored.
pub open spec fn fits(n: int) -> bool {
    i64::MIN <= n <= i64::MAX
}

impl Ledger {
    /// Whether no deposit that is not final rests on this output.
    pub(crate) fn unfinalized_goldcoin_deposit_exclusion(
        &self,
        txid: &[u8; 32],
        vout: u32,
    ) -> (r: bool)
        ensures
            r == self@.no_deposit_on(*txid, vout),
    {
        !any_where(
            &self.requests,
            |x: &BridgeRequest| -> (b: bool) ensures b == unfinalized_deposit(*txid, vout)(x@) {
                x.direction.source_is_goldcoin() && is32(&x.source_txid, txid) && x.source_vout
                    == Some(vout) && matches!(x.state, RequestState::DepositObserved | RequestState::Confirming)
            },
            Ghost(unfinalized_deposit(*txid, vout)),
        )
    }

    /// Whether no split that is under way spends this output.
    pub(crate) fn live_split_claim_exclusion(&self, txid: &[u8; 32], vout: u32) -> (r: bool)
        ensures
            r == self@.no_claim_on(*txid, vout),
    {
        !any_where(
            &self.splits,
            |x: &VaultSplitRow| -> (b: bool) ensures b == live_claim(*txid, vout)(x@) {
                eq32(&x.source_txid, txid) && x.source_vout == vout && matches!(x.state, SplitState::Built | SplitState::Signed | SplitState::Broadcast)
            },
            Ghost(live_claim(*txid, vout)),
        )
    }

    fn is_spendable(&self, v: &VaultUtxoEntry) -> (r: bool)
        ensures
            r == self@.spendable()(v@),
    {
        matches!(v.state, VaultUtxoState::Available)
            && self.unfinalized_goldcoin_deposit_exclusion(&v.txid, v.vout)
            && self.live_split_claim_exclusion(&v.txid, v.vout)
    }

    fn find_change(&self, txid: &[u8; 32], vout: u32) -> (r: Option<usize>)
        ensures
            match r {
                Some(i) => i < self.change_outpoints@.len() && self@.change_of(*txid, vout)
                    == Some(self.change_outpoints@[i as int]@),
                None => self@.change_of(*txid, vout) is None,
            },
    {
        find_where(
            &self.change_outpoints,
            |x: &ChangeOutpointRow| -> (b: bool) ensures b == change_at(*txid, vout)(x@) {
                eq32(&x.txid, txid) && x.vout == vout
            },
            Ghost(change_at(*txid, vout)),
        )
    }

    /// How many outputs coin selection may draw from.
    pub(crate) fn count_available_vault_utxos(&self) -> (r: i64)
        ensures
            r == self@.utxo_count(self@.spendable()) as i64,
    {
        count_where(
            &self.vault_utxos,
            |v: &VaultUtxoEntry| -> (b: bool) ensures b == self@.spendable()(v@) {
                self.is_spendable(v)
            },
            Ghost(self@.spendable()),
        ) as i64
    }

    /// What coin selection may draw from, the larger first, then by outpoint.
    pub fn available_vault_utxos(&self) -> (r: Vec<VaultUtxo>)
        ensures
            sorted_by(values(r@), coin_order()),
            values(r@).to_multiset() == select_rows(
                self@.vault_utxos,
                self@.spendable(),
            ).map_values(as_coin()).to_multiset(),
    {
        let rows = collect_where(
            &self.vault_utxos,
            |v: &VaultUtxoEntry| -> (b: bool) ensures b == self@.spendable()(v@) {
                self.is_spendable(v)
            },
            |v: &VaultUtxoEntry| -> (u: VaultUtxo) ensures u@ == as_coin()(v@) {
                VaultUtxo {
                    txid: v.txid,
                    vout: v.vout,
                    amount_atomic: v.amount_atomic as u64,
                    script_pubkey_hex: v.script_pubkey_hex.clone(),
                }
            },
            Ghost(self@.spendable()),
            Ghost(as_coin()),
        );
        proof {
            lemma_coin_order_total();
        }
        sort_rows(
            rows,
            |a: &VaultUtxo, b: &VaultUtxo| -> (r: bool) ensures r == coin_order()(a@, b@) {
                coin_le(a, b)
            },
            Ghost(coin_order()),
        )
    }

    fn is_zero_conf_eligible(&self, v: &VaultUtxoEntry, max_depth: u32) -> (r: bool)
        ensures
            r == self@.zero_conf_eligible(v@, max_depth),
    {
        if max_depth == 0 || !matches!(v.state, VaultUtxoState::Unconfirmed)
            || v.zero_conf_hold_reason.is_some() {
            return false;
        }
        match self.find_change(&v.txid, v.vout) {
            Some(i) => v.confirmations >= 1
                || self.change_outpoints[i].unconfirmed_ancestor_depth <= max_depth as i64,
            None => false,
        }
    }

    /// Whether a payout may reserve this output.
    pub(crate) fn is_reservable(&self, v: &VaultUtxoEntry, max_depth: u32) -> (r: bool)
        ensures
            r == self@.reservable(max_depth)(v@),
    {
        (matches!(v.state, VaultUtxoState::Available) || self.is_zero_conf_eligible(v, max_depth))
            && self.live_split_claim_exclusion(&v.txid, v.vout)
    }

    /// The payout change that may be spent before it is confirmed deep
    /// enough; empty where `max_depth` is zero.
    pub fn zero_conf_change_vault_utxos(&self, max_depth: u32) -> (r: Vec<VaultUtxo>)
        ensures
            sorted_by(values(r@), coin_order()),
            values(r@).to_multiset() == select_rows(
                self@.vault_utxos,
                self@.zero_conf_pool(max_depth),
            ).map_values(as_coin()).to_multiset(),
            max_depth == 0 ==> r@.len() == 0,
    {
        let rows = collect_where(
            &self.vault_utxos,
            |v: &VaultUtxoEntry| -> (b: bool) ensures b == self@.zero_conf_pool(max_depth)(v@) {
                self.is_zero_conf_eligible(v, max_depth)
                    && self.unfinalized_goldcoin_deposit_exclusion(&v.txid, v.vout)
            },
            |v: &VaultUtxoEntry| -> (u: VaultUtxo) ensures u@ == as_coin()(v@) {
                VaultUtxo {
                    txid: v.txid,
                    vout: v.vout,
                    amount_atomic: v.amount_atomic as u64,
                    script_pubkey_hex: v.script_pubkey_hex.clone(),
                }
            },
            Ghost(self@.zero_conf_pool(max_depth)),
            Ghost(as_coin()),
        );
        proof {
            lemma_coin_order_total();
            if max_depth == 0 {
                lemma_select_none(self@.vault_utxos, self@.zero_conf_pool(max_depth));
            }
        }
        let out = sort_rows(
            rows,
            |a: &VaultUtxo, b: &VaultUtxo| -> (r: bool) ensures r == coin_order()(a@, b@) {
                coin_le(a, b)
            },
            Ghost(coin_order()),
        );
        proof {
            broadcast use vstd::seq_lib::group_to_multiset_ensures;
            assert(values(out@).to_multiset().len() == values(out@).len());
            assert(values(rows@).to_multiset().len() == values(rows@).len());
        }
        out
    }

    /// The payout change that may be spent before it is confirmed deep
    /// enough, each with its depth and its confirmations.
    pub fn zero_conf_change_vault_utxos_with_depth(
        &self,
        max_depth: u32,
    ) -> (r: Vec<ZeroConfChangeCandidate>)
        ensures
            sorted_by(values(r@), candidate_order()),
            values(r@).to_multiset() == select_rows(
                self@.vault_utxos,
                self@.zero_conf_pool(max_depth),
            ).map_values(self@.as_candidate()).to_multiset(),
            max_depth == 0 ==> r@.len() == 0,
    {
        let rows = collect_where(
            &self.vault_utxos,
            |v: &VaultUtxoEntry| -> (b: bool) ensures b == self@.zero_conf_pool(max_depth)(v@) {
                self.is_zero_conf_eligible(v, max_depth)
                    && self.unfinalized_goldcoin_deposit_exclusion(&v.txid, v.vout)
            },
            |v: &VaultUtxoEntry| -> (u: ZeroConfChangeCandidate)
                ensures u@ == self@.as_candidate()(v@) { self.candidate(v) },
            Ghost(self@.zero_conf_pool(max_depth)),
            Ghost(self@.as_candidate()),
        );
        proof {
            lemma_coin_order_total();
            lemma_candidate_order_total();
            if max_depth == 0 {
                lemma_select_none(self@.vault_utxos, self@.zero_conf_pool(max_depth));
            }
        }
        let out = sort_rows(
            rows,
            |a: &ZeroConfChangeCandidate, b: &ZeroConfChangeCandidate| -> (r: bool)
                ensures r == candidate_order()(a@, b@) { coin_le(&a.utxo, &b.utxo) },
            Ghost(candidate_order()),
        );
        proof {
            broadcast use vstd::seq_lib::group_to_multiset_ensures;
            assert(values(out@).to_multiset().len() == values(out@).len());
            assert(values(rows@).to_multiset().len() == values(rows@).len());
        }
        out
    }

    fn candidate(&self, v: &VaultUtxoEntry) -> (u: ZeroConfChangeCandidate)
        ensures
            u@ == self@.as_candidate()(v@),
    {
        let depth: u32 = match self.find_change(&v.txid, v.vout) {
            Some(i) => self.change_outpoints[i].unconfirmed_ancestor_depth as u32,
            None => 0,
        };
        ZeroConfChangeCandidate {
            utxo: VaultUtxo {
                txid: v.txid,
                vout: v.vout,
                amount_atomic: v.amount_atomic as u64,
                script_pubkey_hex: v.script_pubkey_hex.clone(),
            },
            unconfirmed_ancestor_depth: depth,
            confirmations: v.confirmations,
        }
    }

    /// The transactions, each once, whose payout change has no confirmation.
    pub fn zero_conf_parent_txids(&self) -> (r: Vec<[u8; 32]>)
        ensures
            r@.no_duplicates(),
            forall|t: [u8; 32]| r@.contains(t) <==> any_row(self@.vault_utxos, self@.zero_conf_child(t)),
    {
        let mut out: Vec<[u8; 32]> = Vec::new();
        let mut i: usize = 0;
        while i < self.vault_utxos.len()
            invariant
                i <= self.vault_utxos@.len(),
                out@.no_duplicates(),
                forall|t: [u8; 32]| out@.contains(t) <==> exists|j: int|
                    0 <= j < i && self@.zero_conf_child(t)(#[trigger] self@.vault_utxos[j]),
            decreases self.vault_utxos@.len() - i,
        {
            let v = &self.vault_utxos[i];
            let ghost vv = self@.vault_utxos[i as int];
            assert(vv == v@);
            if matches!(v.state, VaultUtxoState::Unconfirmed) && v.confirmations == 0
                && self.find_change(&v.txid, v.vout).is_some() {
                let mut known = false;
                let mut k: usize = 0;
                while k < out.len()
                    invariant
                        k <= out@.len(),
                        known == exists|j: int| 0 <= j < k && #[trigger] out@[j] == v.txid,
                    decreases out@.len() - k,
                {
                    if eq32(&out[k], &v.txid) {
                        assert(out@[k as int] == v.txid);
                        known = true;
                    }
                    k = k + 1;
                }
                let ghost before = out@;
                if !known {
                    out.push(v.txid);
                    proof {
                        assert(out@[before.len() as int] == vv.txid);
                    }
                }
                proof {
                    assert forall|t: [u8; 32]| out@.contains(t) <==> exists|j: int|
                        0 <= j < i + 1 && self@.zero_conf_child(t)(
                            #[trigger] self@.vault_utxos[j],
                        ) by {
                        assert(out@.contains(t) <==> before.contains(t) || t == vv.txid) by {
                            if before.contains(t) {
                                let w = choose|w: int| 0 <= w < before.len() && before[w] == t;
                                assert(out@[w] == t);
                            }
                            if out@.contains(t) {
                                let w = choose|w: int| 0 <= w < out@.len() && out@[w] == t;
                                if w < before.len() {
                                    assert(before[w] == t);
                                }
                            }
                        }
                        assert(self@.zero_conf_child(t)(vv) <==> t == vv.txid);
                    }
                }
            } else {
                proof {
                    assert forall|t: [u8; 32]| out@.contains(t) <==> exists|j: int|
                        0 <= j < i + 1 && self@.zero_conf_child(t)(
                            #[trigger] self@.vault_utxos[j],
                        ) by {
                        assert(!self@.zero_conf_child(t)(vv));
                    }
                }
            }
            i = i + 1;
        }
        out
    }

    /// Puts every immature output of `txid` on hold for `reason`, or takes it
    /// off.
    pub fn set_zero_conf_hold(&mut self, txid: [u8; 32], reason: Option<&str>)
        ensures
            final(self)@ == old(self)@.with_utxos(
                old(self)@.vault_utxos.map_values(
                    zero_conf_held(
                        txid,
                        match reason {
                            Some(s) => Some(s@),
                            None => None,
                        },
                    ),
                ),
            ),
    {
        let ghost why: Option<Seq<char>> = match reason {
            Some(s) => Some(s@),
            None => None,
        };
        let ghost f = zero_conf_held(txid, why);
        let ghost l0 = self@;
        let mut i: usize = 0;
        while i < self.vault_utxos.len()
            invariant
                i <= self.vault_utxos@.len(),
                self.vault_utxos@.len() == l0.vault_utxos.len(),
                f == zero_conf_held(txid, why),
                why == (match reason {
                    Some(s) => Some(s@),
                    None => None,
                }),
                self@ == l0.with_utxos(self@.vault_utxos),
                forall|j: int| 0 <= j < i ==> (#[trigger] self@.vault_utxos[j]) == f(
                    l0.vault_utxos[j],
                ),
                forall|j: int|
                    i <= j < self@.vault_utxos.len() ==> (#[trigger] self@.vault_utxos[j])
                        == l0.vault_utxos[j],
            decreases self.vault_utxos@.len() - i,
        {
            let ghost before = self@.vault_utxos;
            assert(before[i as int] == self.vault_utxos@[i as int]@);
            if matches!(self.vault_utxos[i].state, VaultUtxoState::Unconfirmed) && eq32(
                &self.vault_utxos[i].txid,
                &txid,
            ) {
                self.vault_utxos[i].zero_conf_hold_reason = own_text(reason);
            }
            proof {
                assert(self@.vault_utxos =~= before.update(i as int, f(before[i as int])));
            }
            i = i + 1;
        }
        assert(self@.vault_utxos =~= l0.vault_utxos.map_values(f));
    }

    /// The summed value of the outputs that have not matured.
    pub fn immature_vault_utxo_total(&self) -> (r: Result<u64, LedgerError>)
        ensures
            r == (if fits(self@.utxo_sum(immature())) {
                Ok(self@.utxo_sum(immature()) as u64)
            } else {
                Err(LedgerError::AmountOutOfRange)
            }),
    {
        let n: i128 = sum_where(
            &self.vault_utxos,
            |v: &VaultUtxoEntry| -> (b: bool) ensures b == immature()(v@) {
                matches!(v.state, VaultUtxoState::Unconfirmed)
            },
            |v: &VaultUtxoEntry| -> (a: i64) ensures a == utxo_amount()(v@) { v.amount_atomic },
            Ghost(immature()),
            Ghost(utxo_amount()),
        );
        match narrow(n) {
            Some(t) => Ok(t as u64),
            None => Err(LedgerError::AmountOutOfRange),
        }
    }

    fn has_explainable_split(&self, txid: &[u8; 32], now: i64) -> (r: bool)
        ensures
            r == any_row(self@.splits, explainable_split(*txid, now)),
    {
        any_where(
            &self.splits,
            |s: &VaultSplitRow| -> (b: bool) ensures b == explainable_split(*txid, now)(s@) {
                is32(&s.txid, txid) && split_chunks_still_explainable(s, now)
            },
            Ghost(explainable_split(*txid, now)),
        )
    }

    fn is_own_unconfirmed(&self, v: &VaultUtxoEntry, now: i64) -> (r: bool)
        ensures
            r == self@.own_unconfirmed(now)(v@),
    {
        matches!(v.state, VaultUtxoState::Unconfirmed) && (any_where(
            &self.payouts,
            |p: &PayoutRow| -> (b: bool) ensures b == payout_tx(v.txid)(p@) {
                is32(&p.txid, &v.txid)
            },
            Ghost(payout_tx(v.txid)),
        ) || self.has_explainable_split(&v.txid, now))
    }

    /// The summed value of the immature outputs that are this service's own.
    pub fn own_unconfirmed_change_atomic(&self, now: i64) -> (r: Result<u64, LedgerError>)
        ensures
            r == self@.own_change(now),
    {
        let n: i128 = sum_where(
            &self.vault_utxos,
            |v: &VaultUtxoEntry| -> (b: bool) ensures b == self@.own_unconfirmed(now)(v@) {
                self.is_own_unconfirmed(v, now)
            },
            |v: &VaultUtxoEntry| -> (a: i64) ensures a == utxo_amount()(v@) { v.amount_atomic },
            Ghost(self@.own_unconfirmed(now)),
            Ghost(utxo_amount()),
        );
        match narrow(n) {
            Some(t) => Ok(t as u64),
            None => Err(LedgerError::AmountOutOfRange),
        }
    }

    /// How many chunks of splits are still expected and have not matured.
    pub fn unconfirmed_split_chunk_count(&self, now: i64) -> (r: u32)
        ensures
            r == self@.utxo_count(self@.immature_chunk(now)) as u32,
    {
        count_where(
            &self.vault_utxos,
            |v: &VaultUtxoEntry| -> (b: bool) ensures b == self@.immature_chunk(now)(v@) {
                matches!(v.state, VaultUtxoState::Unconfirmed) && self.has_explainable_split(&v.txid, now)
            },
            Ghost(self@.immature_chunk(now)),
        ) as u32
    }

    /// How the vault's outputs stand.
    pub fn utxo_pool_health(&self, now: i64) -> (r: Result<UtxoPoolHealth, LedgerError>)
        ensures
            r == self@.pool_health(now),
    {
        let mature: i128 = sum_where(
            &self.vault_utxos,
            |v: &VaultUtxoEntry| -> (b: bool) ensures b == self@.spendable()(v@) {
                self.is_spendable(v)
            },
            |v: &VaultUtxoEntry| -> (a: i64) ensures a == utxo_amount()(v@) { v.amount_atomic },
            Ghost(self@.spendable()),
            Ghost(utxo_amount()),
        );
        let available_utxo_count: u32 = count_where(
            &self.vault_utxos,
            |v: &VaultUtxoEntry| -> (b: bool) ensures b == self@.spendable()(v@) {
                self.is_spendable(v)
            },
            Ghost(self@.spendable()),
        ) as u32;
        let unconfirmed_change_utxo_count: u32 = count_where(
            &self.vault_utxos,
            |v: &VaultUtxoEntry| -> (b: bool) ensures b == self@.own_unconfirmed(now)(v@) {
                self.is_own_unconfirmed(v, now)
            },
            Ghost(self@.own_unconfirmed(now)),
        ) as u32;
        let candidates: i128 = sum_where(
            &self.vault_utxos,
            |v: &VaultUtxoEntry| -> (b: bool) ensures b == self@.immature_change(false)(v@) {
                matches!(v.state, VaultUtxoState::Unconfirmed) && self.find_change(&v.txid, v.vout).is_some()
                    && v.zero_conf_hold_reason.is_none()
            },
            |v: &VaultUtxoEntry| -> (a: i64) ensures a == utxo_amount()(v@) { v.amount_atomic },
            Ghost(self@.immature_change(false)),
            Ghost(utxo_amount()),
        );
        let zero_conf_change_candidate_count: u32 = count_where(
            &self.vault_utxos,
            |v: &VaultUtxoEntry| -> (b: bool) ensures b == self@.immature_change(false)(v@) {
                matches!(v.state, VaultUtxoState::Unconfirmed) && self.find_change(&v.txid, v.vout).is_some()
                    && v.zero_conf_hold_reason.is_none()
            },
            Ghost(self@.immature_change(false)),
        ) as u32;
        let zero_conf_change_held_count: u32 = count_where(
            &self.vault_utxos,
            |v: &VaultUtxoEntry| -> (b: bool) ensures b == self@.immature_change(true)(v@) {
                matches!(v.state, VaultUtxoState::Unconfirmed) && self.find_change(&v.txid, v.vout).is_some()
                    && v.zero_conf_hold_reason.is_some()
            },
            Ghost(self@.immature_change(true)),
        ) as u32;
        match (narrow(mature), self.own_unconfirmed_change_atomic(now), narrow(candidates)) {
            (Some(m), Ok(own), Some(c)) => Ok(
                UtxoPoolHealth {
                    mature_available_atomic: m as u64,
                    own_unconfirmed_change_atomic: own,
                    available_utxo_count,
                    unconfirmed_change_utxo_count,
                    zero_conf_change_candidate_atomic: c as u64,
                    zero_conf_change_candidate_count,
                    zero_conf_change_held_count,
                },
            ),
            _ => Err(LedgerError::AmountOutOfRange),
        }
    }

    /// The output at this outpoint.
    pub fn get_vault_utxo(&self, txid: [u8; 32], vout: u32) -> (r: Option<VaultUtxoRow>)
        ensures
            match r {
                Some(u) => self@.utxo(txid, vout) matches Some(v) && u@ == (VaultUtxoRowView {
                    amount_atomic: v.amount_atomic as u64,
                    script_pubkey_hex: v.script_pubkey_hex,
                    state: v.state,
                }),
                None => self@.utxo(txid, vout) is None,
            },
    {
        match self.find_utxo(&txid, vout) {
            Some(i) => {
                let v = &self.vault_utxos[i];
                Some(
                    VaultUtxoRow {
                        amount_atomic: v.amount_atomic as u64,
                        script_pubkey_hex: v.script_pubkey_hex.clone(),
                        state: v.state,
                    },
                )
            },
            None => None,
        }
    }

    /// Where the output at this outpoint stands in its table.
    pub(crate) fn find_utxo(&self, txid: &[u8; 32], vout: u32) -> (r: Option<usize>)
        ensures
            match r {
                Some(i) => {
                    &&& i < self.vault_utxos@.len()
                    &&& first_row(self@.vault_utxos, at_outpoint(*txid, vout)) == Some(i as int)
                    &&& self@.utxo(*txid, vout) == Some(self.vault_utxos@[i as int]@)
                },
                None => first_row(self@.vault_utxos, at_outpoint(*txid, vout)) is None
                    && self@.utxo(*txid, vout) is None,
            },
    {
        find_where(
            &self.vault_utxos,
            |v: &VaultUtxoEntry| -> (b: bool) ensures b == at_outpoint(*txid, vout)(v@) {
                eq32(&v.txid, txid) && v.vout == vout
            },
            Ghost(at_outpoint(*txid, vout)),
        )
    }
}

/// What [`Ledger::set_zero_conf_hold`] makes of an output.
pub open spec fn zero_conf_held(
    txid: [u8; 32],
    reason: Option<Seq<char>>,
) -> spec_fn(VaultUtxoView) -> VaultUtxoView {
    |v: VaultUtxoView|
        if v.txid == txid && v.state == VaultUtxoState::Unconfirmed {
            VaultUtxoView { zero_conf_hold_reason: reason, ..v }
        } else {
            v
        }
}

proof fn lemma_candidate_order_total()
    ensures
        total_order(candidate_order()),
{
    lemma_coin_order_total();
    assert forall|a: ZeroConfView, b: ZeroConfView| #[trigger]
        candidate_order()(a, b) || candidate_order()(b, a) by {
        assert(coin_order()(a.utxo, b.utxo) || coin_order()(b.utxo, a.utxo));
    }
    assert forall|a: ZeroConfView, b: ZeroConfView, c: ZeroConfView| #[trigger]
        candidate_order()(a, b) && #[trigger] candidate_order()(b, c) implies candidate_order()(
        a,
        c,
    ) by {
        assert(coin_order()(a.utxo, b.utxo) && coin_order()(b.utxo, c.utxo));
    }
}

/// Where no row satisfies `q`, nothing is selected.
pub proof fn lemma_select_none<T>(rows: Seq<T>, q: spec_fn(T) -> bool)
    requires
        forall|x: T| !#[trigger] q(x),
    ensures
        select_rows(rows, q).len() == 0,
    decreases rows.len(),
{
    if rows.len() > 0 {
        assert(!q(rows.last()));
        lemma_select_none(rows.drop_last(), q);
    }
}

impl LedgerView {
    /// The output at this outpoint.
    pub open spec fn utxo(self, txid: [u8; 32], vout: u32) -> Option<VaultUtxoView> {
        match first_row(self.vault_utxos, at_outpoint(txid, vout)) {
            Some(i) => Some(self.vault_utxos[i]),
            None => None,
        }
    }

    /// Payout change that may be spent early and backs no deposit.
    pub open spec fn zero_conf_pool(self, max_depth: u32) -> spec_fn(VaultUtxoView) -> bool {
        |v: VaultUtxoView|
            self.zero_conf_eligible(v, max_depth) && self.no_deposit_on(v.txid, v.vout)
    }

    /// A vault output as a candidate for early spending.
    pub open spec fn as_candidate(self) -> spec_fn(VaultUtxoView) -> ZeroConfView {
        |v: VaultUtxoView|
            ZeroConfView {
                utxo: as_coin()(v),
                unconfirmed_ancestor_depth: match self.change_of(v.txid, v.vout) {
                    Some(o) => o.unconfirmed_ancestor_depth as u32,
                    None => 0,
                },
                confirmations: v.confirmations,
            }
    }

    /// Payout change of `txid` without a confirmation.
    pub open spec fn zero_conf_child(self, txid: [u8; 32]) -> spec_fn(VaultUtxoView) -> bool {
        |v: VaultUtxoView|
            v.txid == txid && v.state == VaultUtxoState::Unconfirmed && v.confirmations == 0
                && self.change_of(v.txid, v.vout) is Some
    }

    /// A chunk of a split that is still expected and has not matured.
    pub open spec fn immature_chunk(self, now: i64) -> spec_fn(VaultUtxoView) -> bool {
        |v: VaultUtxoView|
            v.state == VaultUtxoState::Unconfirmed && any_row(
                self.splits,
                explainable_split(v.txid, now),
            )
    }

    /// The summed value of the immature outputs that are this service's own.
    pub open spec fn own_change(self, now: i64) -> Result<u64, LedgerError> {
        if fits(self.utxo_sum(self.own_unconfirmed(now))) {
            Ok(self.utxo_sum(self.own_unconfirmed(now)) as u64)
        } else {
            Err(LedgerError::AmountOutOfRange)
        }
    }

    /// How the vault's outputs stand.
    pub open spec fn pool_health(self, now: i64) -> Result<UtxoPoolHealth, LedgerError> {
        if fits(self.utxo_sum(self.spendable())) && fits(self.utxo_sum(self.own_unconfirmed(now)))
            && fits(self.utxo_sum(self.immature_change(false))) {
            Ok(
                UtxoPoolHealth {
                    mature_available_atomic: self.utxo_sum(self.spendable()) as u64,
                    own_unconfirmed_change_atomic: self.utxo_sum(
                        self.own_unconfirmed(now),
                    ) as u64,
                    available_utxo_count: self.utxo_count(self.spendable()) as u32,
                    unconfirmed_change_utxo_count: self.utxo_count(
                        self.own_unconfirmed(now),
                    ) as u32,
                    zero_conf_change_candidate_atomic: self.utxo_sum(
                        self.immature_change(false),
                    ) as u64,
                    zero_conf_change_candidate_count: self.utxo_count(
                        self.immature_change(false),
                    ) as u32,
                    zero_conf_change_held_count: self.utxo_count(self.immature_change(true)) as u32,
                },
            )
        } else {
            Err(LedgerError::AmountOutOfRange)
        }
    }
}

} // verus!
