//! Vault outputs as they are seen, and as they are reserved.
use vstd::prelude::*;
use crate::error::LedgerError;
use crate::ledger::{Ledger, LedgerView};
use crate::rows::{
    CoinView, ObservedVaultUtxo, ObservedView, VaultSplitRow, VaultSplitView, VaultUtxo,
    VaultUtxoEntry, VaultUtxoView,
};
use crate::table::{
    any_row, any_where, eq32, find_where, first_row, is32, lemma_first_row_is_first, values,
};
use crate::types::{SplitState, VaultUtxoState};
use crate::vault::at_outpoint;

verus! {

/// The rows of a table that was copied have the same values.
fn dup_utxos(rows: &Vec<VaultUtxoEntry>) -> (r: Vec<VaultUtxoEntry>)
    ensures
        values(r@) == values(rows@),
{
    let mut out: Vec<VaultUtxoEntry> = Vec::new();
    let mut i: usize = 0;
    while i < rows.len()
        invariant
            i <= rows@.len(),
            out@.len() == i,
            forall|j: int| 0 <= j < i ==> (#[trigger] out@[j])@ == rows@[j]@,
        decreases rows@.len() - i,
    {
        out.push(rows[i].clone());
        i = i + 1;
    }
    assert(values(out@) =~= values(rows@));
    out
}

/// An output reserved for a request.
pub open spec fn reserved_row(v: VaultUtxoView, id: i64, now: i64) -> VaultUtxoView {
    VaultUtxoView {
        state: VaultUtxoState::Reserved,
        reserved_by: Some(id),
        reserved_at: Some(now),
        ..v
    }
}

/// The output at a coin's outpoint, where it satisfies `ok`.
pub open spec fn takable(coin: CoinView, ok: spec_fn(VaultUtxoView) -> bool) -> spec_fn(
    VaultUtxoView,
) -> bool {
    |v: VaultUtxoView| v.txid == coin.txid && v.vout == coin.vout && ok(v)
}

/// The outputs after the first `k` coins were reserved, each where its output
/// satisfied `ok` at that point.
pub open spec fn reserve_prefix(
    rows: Seq<VaultUtxoView>,
    ok: spec_fn(VaultUtxoView) -> bool,
    coins: Seq<CoinView>,
    k: int,
    id: i64,
    now: i64,
) -> Seq<VaultUtxoView>
    decreases k,
{
    if k <= 0 {
        rows
    } else {
        let t = reserve_prefix(rows, ok, coins, k - 1, id, now);
        match first_row(t, takable(coins[k - 1], ok)) {
            Some(i) => t.update(i, reserved_row(t[i], id, now)),
            None => t,
        }
    }
}

/// Coin `k` cannot be reserved once those before it were.
pub open spec fn not_takable(
    rows: Seq<VaultUtxoView>,
    ok: spec_fn(VaultUtxoView) -> bool,
    coins: Seq<CoinView>,
    k: int,
    id: i64,
    now: i64,
) -> bool {
    first_row(reserve_prefix(rows, ok, coins, k, id, now), takable(coins[k], ok)) is None
}

/// How many of the first `k` coins can be reserved.
pub open spec fn taken_count(
    rows: Seq<VaultUtxoView>,
    ok: spec_fn(VaultUtxoView) -> bool,
    coins: Seq<CoinView>,
    k: int,
    id: i64,
    now: i64,
) -> int
    decreases k,
{
    if k <= 0 {
        0
    } else {
        taken_count(rows, ok, coins, k - 1, id, now) + if not_takable(
            rows,
            ok,
            coins,
            k - 1,
            id,
            now,
        ) {
            0int
        } else {
            1int
        }
    }
}

/// The first coin from `k` on that cannot be reserved.
pub open spec fn first_not_takable(
    rows: Seq<VaultUtxoView>,
    ok: spec_fn(VaultUtxoView) -> bool,
    coins: Seq<CoinView>,
    k: int,
    id: i64,
    now: i64,
) -> Option<int>
    decreases coins.len() - k,
{
    if k >= coins.len() {
        None
    } else if not_takable(rows, ok, coins, k, id, now) {
        Some(k)
    } else {
        first_not_takable(rows, ok, coins, k + 1, id, now)
    }
}

/// Reserves the output of `coin` where `p`, which tests `ok`, holds of it.
fn reserve_one<P: Fn(&VaultUtxoEntry) -> bool>(
    rows: &mut Vec<VaultUtxoEntry>,
    coin: &VaultUtxo,
    id: i64,
    now: i64,
    p: P,
    Ghost(ok): Ghost<spec_fn(VaultUtxoView) -> bool>,
) -> (r: bool)
    requires
        forall|x: &VaultUtxoEntry| #[trigger] call_requires(p, (x,)),
        forall|x: &VaultUtxoEntry, b: bool| #[trigger] call_ensures(p, (x,), b) ==> b == ok(x@),
    ensures
        match first_row(values(old(rows)@), takable(coin@, ok)) {
            Some(i) => r && values(final(rows)@) == values(old(rows)@).update(
                i,
                reserved_row(values(old(rows)@)[i], id, now),
            ),
            None => !r && values(final(rows)@) == values(old(rows)@),
        },
{
    let ghost before = values(rows@);
    match find_where(
        rows,
        |v: &VaultUtxoEntry| -> (b: bool) ensures b == takable(coin@, ok)(v@) {
            eq32(&v.txid, &coin.txid) && v.vout == coin.vout && p(v)
        },
        Ghost(takable(coin@, ok)),
    ) {
        Some(i) => {
            rows[i].state = VaultUtxoState::Reserved;
            rows[i].reserved_by = Some(id);
            rows[i].reserved_at = Some(now);
            proof {
                assert(values(rows@) =~= before.update(
                    i as int,
                    reserved_row(before[i as int], id, now),
                ));
            }
            true
        },
        None => false,
    }
}

/// An output that is confirmed deep enough and free.
pub open spec fn is_available() -> spec_fn(VaultUtxoView) -> bool {
    |v: VaultUtxoView| v.state == VaultUtxoState::Available
}

impl Ledger {
    /// Reserves every coin for a request where its output is available, or
    /// none of them. Returns the first coin whose output is not.
    pub(crate) fn reserve_available(&mut self, coins: &Vec<VaultUtxo>, id: i64, now: i64) -> (r:
        Result<(), usize>)
        ensures
            match r {
                Ok(_) => {
                    &&& first_not_takable(
                        old(self)@.vault_utxos,
                        is_available(),
                        values(coins@),
                        0,
                        id,
                        now,
                    ) is None
                    &&& final(self)@ == old(self)@.with_utxos(
                        reserve_prefix(
                            old(self)@.vault_utxos,
                            is_available(),
                            values(coins@),
                            coins@.len() as int,
                            id,
                            now,
                        ),
                    )
                },
                Err(k) => {
                    &&& k < coins@.len()
                    &&& first_not_takable(
                        old(self)@.vault_utxos,
                        is_available(),
                        values(coins@),
                        0,
                        id,
                        now,
                    ) == Some(k as int)
                    &&& final(self)@ == old(self)@
                },
            },
            final(self).requests == old(self).requests,
    {
        let ghost rows0 = self@.vault_utxos;
        let ghost cv = values(coins@);
        let ghost first = first_not_takable(rows0, is_available(), cv, 0, id, now);
        let mut work = dup_utxos(&self.vault_utxos);
        let mut k: usize = 0;
        while k < coins.len()
            invariant
                k <= coins@.len(),
                cv == values(coins@),
                values(work@) == reserve_prefix(rows0, is_available(), cv, k as int, id, now),
                first == first_not_takable(rows0, is_available(), cv, k as int, id, now),
                first == first_not_takable(rows0, is_available(), cv, 0, id, now),
                rows0 == old(self)@.vault_utxos,
                *self == *old(self),
            decreases coins@.len() - k,
        {
            assert(cv[k as int] == coins@[k as int]@);
            let taken = reserve_one(
                &mut work,
                &coins[k],
                id,
                now,
                |v: &VaultUtxoEntry| -> (b: bool) ensures b == is_available()(v@) {
                    matches!(v.state, VaultUtxoState::Available)
                },
                Ghost(is_available()),
            );
            if !taken {
                assert(first == Some(k as int));
                return Err(k);
            }
            k = k + 1;
        }
        self.vault_utxos = work;
        Ok(())
    }

    /// Reserves every coin for a request where its output may be reserved, or
    /// none of them.
    pub fn reserve_vault_utxos(
        &mut self,
        request_id: i64,
        selected: &Vec<VaultUtxo>,
        zero_conf_max_depth: u32,
        now: i64,
    ) -> (r: Result<(), LedgerError>)
        ensures
            ({
                let rows = old(self)@.vault_utxos;
                let ok = old(self)@.reservable(zero_conf_max_depth);
                let coins = values(selected@);
                let n = selected@.len() as int;
                let taken = taken_count(rows, ok, coins, n, request_id, now);
                &&& r == (if taken == n {
                    Ok::<(), LedgerError>(())
                } else {
                    Err(
                        LedgerError::VaultUtxoUnavailable {
                            requested: n as usize,
                            available: taken as usize,
                        },
                    )
                })
                &&& final(self)@ == (if r is Ok {
                    old(self)@.with_utxos(reserve_prefix(rows, ok, coins, n, request_id, now))
                } else {
                    old(self)@
                })
            }),
    {
        let ghost rows0 = self@.vault_utxos;
        let ghost cv = values(selected@);
        let ghost ok = self@.reservable(zero_conf_max_depth);
        let mut work = dup_utxos(&self.vault_utxos);
        let mut reserved_count: usize = 0;
        let mut k: usize = 0;
        while k < selected.len()
            invariant
                k <= selected@.len(),
                cv == values(selected@),
                ok == self@.reservable(zero_conf_max_depth),
                values(work@) == reserve_prefix(rows0, ok, cv, k as int, request_id, now),
                reserved_count == taken_count(rows0, ok, cv, k as int, request_id, now),
                reserved_count <= k,
            decreases selected@.len() - k,
        {
            assert(cv[k as int] == selected@[k as int]@);
            let taken = reserve_one(
                &mut work,
                &selected[k],
                request_id,
                now,
                |v: &VaultUtxoEntry| -> (b: bool)
                    ensures b == self@.reservable(zero_conf_max_depth)(v@) {
                    self.is_reservable(v, zero_conf_max_depth)
                },
                Ghost(ok),
            );
            if taken {
                reserved_count = reserved_count + 1;
            }
            k = k + 1;
        }
        if reserved_count != selected.len() {
            return Err(
                LedgerError::VaultUtxoUnavailable {
                    requested: selected.len(),
                    available: reserved_count,
                },
            );
        }
        self.vault_utxos = work;
        Ok(())
    }
}

/// The state in which an output is seen: deep enough or not.
pub open spec fn seen_state(confirmations: i64, min_confirmations: i64) -> VaultUtxoState {
    if confirmations >= min_confirmations {
        VaultUtxoState::Available
    } else {
        VaultUtxoState::Unconfirmed
    }
}

/// An output that is known, seen again. A reserved one stays reserved; a spent
/// one stays spent where this service signed for it.
pub open spec fn seen_again(v: VaultUtxoView, o: ObservedView, min_confirmations: i64) -> VaultUtxoView {
    VaultUtxoView {
        confirmations: o.confirmations,
        state: if v.state == VaultUtxoState::Reserved {
            VaultUtxoState::Reserved
        } else if v.state == VaultUtxoState::Spent && (v.spent_by_txid is Some
            || v.reserved_by is Some) {
            VaultUtxoState::Spent
        } else {
            seen_state(o.confirmations, min_confirmations)
        },
        ..v
    }
}

/// An output that is seen for the first time.
pub open spec fn first_seen(o: ObservedView, min_confirmations: i64, now: i64) -> VaultUtxoView {
    VaultUtxoView {
        txid: o.utxo.txid,
        vout: o.utxo.vout,
        amount_atomic: o.utxo.amount_atomic as i64,
        script_pubkey_hex: o.script_pubkey_hex,
        confirmations: o.confirmations,
        first_seen_at: now,
        state: seen_state(o.confirmations, min_confirmations),
        reserved_by: None,
        reserved_at: None,
        spent_by_txid: None,
        zero_conf_hold_reason: None,
    }
}

/// The outputs after one more was seen.
pub open spec fn with_seen(
    rows: Seq<VaultUtxoView>,
    o: ObservedView,
    min_confirmations: i64,
    now: i64,
) -> Seq<VaultUtxoView> {
    match first_row(rows, at_outpoint(o.utxo.txid, o.utxo.vout)) {
        Some(i) => rows.update(i, seen_again(rows[i], o, min_confirmations)),
        None => rows.push(first_seen(o, min_confirmations, now)),
    }
}

/// The outputs after the first `k` of `observed` were seen.
pub open spec fn seen_prefix(
    rows: Seq<VaultUtxoView>,
    observed: Seq<ObservedView>,
    k: int,
    min_confirmations: i64,
    now: i64,
) -> Seq<VaultUtxoView>
    decreases k,
{
    if k <= 0 {
        rows
    } else {
        with_seen(
            seen_prefix(rows, observed, k - 1, min_confirmations, now),
            observed[k - 1],
            min_confirmations,
            now,
        )
    }
}

/// An output that was seen at this outpoint.
pub open spec fn seen_at(txid: [u8; 32], vout: u32) -> spec_fn(ObservedView) -> bool {
    |o: ObservedView| o.utxo.txid == txid && o.utxo.vout == vout
}

/// A broadcast split with this transaction.
pub open spec fn broadcast_split_tx(txid: [u8; 32]) -> spec_fn(VaultSplitView) -> bool {
    |s: VaultSplitView| s.txid == Some(txid) && s.state == SplitState::Broadcast
}

impl LedgerView {
    /// What becomes of an output once everything that is unspent was seen: one
    /// that was tracked and is not there any more is spent, unless it is a
    /// chunk of a split that is still under way.
    pub open spec fn unless_seen(self, observed: Seq<ObservedView>) -> spec_fn(
        VaultUtxoView,
    ) -> VaultUtxoView {
        |v: VaultUtxoView|
            if (v.state == VaultUtxoState::Available || v.state == VaultUtxoState::Unconfirmed)
                && !any_row(observed, seen_at(v.txid, v.vout)) && !any_row(
                self.splits,
                broadcast_split_tx(v.txid),
            ) {
                VaultUtxoView { state: VaultUtxoState::Spent, ..v }
            } else {
                v
            }
    }

    /// The ledger after the vault's unspent outputs were seen.
    pub open spec fn synced(
        self,
        observed: Seq<ObservedView>,
        min_confirmations: i64,
        now: i64,
    ) -> LedgerView {
        self.with_utxos(
            seen_prefix(
                self.vault_utxos,
                observed,
                observed.len() as int,
                min_confirmations,
                now,
            ).map_values(self.unless_seen(observed)),
        )
    }
}

impl Ledger {
    fn see(&mut self, o: &ObservedVaultUtxo, min_confirmations: i64, now: i64)
        ensures
            final(self)@ == old(self)@.with_utxos(
                with_seen(old(self)@.vault_utxos, o@, min_confirmations, now),
            ),
    {
        let ghost l0 = self@;
        let state = if o.confirmations >= min_confirmations {
            VaultUtxoState::Available
        } else {
            VaultUtxoState::Unconfirmed
        };
        match self.find_utxo(&o.utxo.txid, o.utxo.vout) {
            Some(i) => {
                let was = self.vault_utxos[i].state;
                let kept = matches!(was, VaultUtxoState::Reserved) || (matches!(was, VaultUtxoState::Spent)
                    && (self.vault_utxos[i].spent_by_txid.is_some()
                    || self.vault_utxos[i].reserved_by.is_some()));
                self.vault_utxos[i].confirmations = o.confirmations;
                if !kept {
                    self.vault_utxos[i].state = state;
                }
                proof {
                    assert(self@.vault_utxos =~= l0.vault_utxos.update(
                        i as int,
                        seen_again(l0.vault_utxos[i as int], o@, min_confirmations),
                    ));
                }
            },
            None => {
                self.vault_utxos.push(
                    VaultUtxoEntry {
                        txid: o.utxo.txid,
                        vout: o.utxo.vout,
                        amount_atomic: o.utxo.amount_atomic as i64,
                        script_pubkey_hex: o.script_pubkey_hex.clone(),
                        confirmations: o.confirmations,
                        first_seen_at: now,
                        state,
                        reserved_by: None,
                        reserved_at: None,
                        spent_by_txid: None,
                        zero_conf_hold_reason: None,
                    },
                );
                proof {
                    assert(self@.vault_utxos =~= l0.vault_utxos.push(
                        first_seen(o@, min_confirmations, now),
                    ));
                }
            },
        }
    }

    fn gone(&self, v: &VaultUtxoEntry, observed: &Vec<ObservedVaultUtxo>) -> (r: bool)
        ensures
            r == ((v@.state == VaultUtxoState::Available || v@.state
                == VaultUtxoState::Unconfirmed) && !any_row(
                values(observed@),
                seen_at(v@.txid, v@.vout),
            ) && !any_row(self@.splits, broadcast_split_tx(v@.txid))),
    {
        matches!(v.state, VaultUtxoState::Available | VaultUtxoState::Unconfirmed) && !any_where(
            observed,
            |o: &ObservedVaultUtxo| -> (b: bool) ensures b == seen_at(v.txid, v.vout)(o@) {
                eq32(&o.utxo.txid, &v.txid) && o.utxo.vout == v.vout
            },
            Ghost(seen_at(v.txid, v.vout)),
        ) && !any_where(
            &self.splits,
            |s: &VaultSplitRow| -> (b: bool) ensures b == broadcast_split_tx(v.txid)(s@) {
                is32(&s.txid, &v.txid) && matches!(s.state, SplitState::Broadcast)
            },
            Ghost(broadcast_split_tx(v.txid)),
        )
    }

    /// Takes over what the chain reports as the vault's unspent outputs.
    pub fn sync_vault_utxos(
        &mut self,
        observed: &Vec<ObservedVaultUtxo>,
        min_confirmations: i64,
        now: i64,
    )
        ensures
            final(self)@ == old(self)@.synced(values(observed@), min_confirmations, now),
    {
        let ghost l0 = self@;
        let ghost ov = values(observed@);
        let mut k: usize = 0;
        while k < observed.len()
            invariant
                k <= observed@.len(),
                ov == values(observed@),
                self@ == l0.with_utxos(
                    seen_prefix(l0.vault_utxos, ov, k as int, min_confirmations, now),
                ),
            decreases observed@.len() - k,
        {
            assert(ov[k as int] == observed@[k as int]@);
            self.see(&observed[k], min_confirmations, now);
            k = k + 1;
        }
        let ghost l1 = self@;
        let ghost f = l0.unless_seen(ov);
        let mut i: usize = 0;
        while i < self.vault_utxos.len()
            invariant
                i <= self.vault_utxos@.len(),
                ov == values(observed@),
                f == l0.unless_seen(ov),
                l1.splits == l0.splits,
                self.vault_utxos@.len() == l1.vault_utxos.len(),
                self@ == l1.with_utxos(self@.vault_utxos),
                forall|j: int|
                    0 <= j < i ==> (#[trigger] self@.vault_utxos[j]) == f(l1.vault_utxos[j]),
                forall|j: int|
                    i <= j < l1.vault_utxos.len() ==> (#[trigger] self@.vault_utxos[j])
                        == l1.vault_utxos[j],
            decreases self.vault_utxos@.len() - i,
        {
            let ghost before = self@.vault_utxos;
            assert(before[i as int] == self.vault_utxos@[i as int]@);
            if self.gone(&self.vault_utxos[i], observed) {
                self.vault_utxos[i].state = VaultUtxoState::Spent;
            }
            proof {
                assert(self@.vault_utxos =~= before.update(i as int, f(before[i as int])));
            }
            i = i + 1;
        }
        proof {
            assert(self@.vault_utxos =~= l1.vault_utxos.map_values(f));
        }
    }
}

/// No two outputs stand at one outpoint.
pub open spec fn outpoints_differ(rows: Seq<VaultUtxoView>) -> bool {
    forall|i: int, j: int|
        0 <= i < j < rows.len() ==> !((#[trigger] rows[i]).txid == (#[trigger] rows[j]).txid
            && rows[i].vout == rows[j].vout)
}

proof fn lemma_seen_keeps_outpoints(
    rows: Seq<VaultUtxoView>,
    observed: Seq<ObservedView>,
    k: int,
    min_confirmations: i64,
    now: i64,
)
    requires
        outpoints_differ(rows),
        0 <= k <= observed.len(),
    ensures
        outpoints_differ(seen_prefix(rows, observed, k, min_confirmations, now)),
    decreases k,
{
    if k > 0 {
        lemma_seen_keeps_outpoints(rows, observed, k - 1, min_confirmations, now);
        let t = seen_prefix(rows, observed, k - 1, min_confirmations, now);
        let o = observed[k - 1];
        let p = at_outpoint(o.utxo.txid, o.utxo.vout);
        lemma_first_row_is_first(t, p);
        if first_row(t, p) is None {
            assert forall|i: int| 0 <= i < t.len() implies !p(#[trigger] t[i]) by {
                assert(!any_row(t, p));
            }
        }
    }
}

/// Seeing the vault's outputs never makes two of one outpoint.
pub proof fn law_sync_keeps_outpoints_apart(
    l: LedgerView,
    observed: Seq<ObservedView>,
    min_confirmations: i64,
    now: i64,
)
    requires
        outpoints_differ(l.vault_utxos),
    ensures
        outpoints_differ(l.synced(observed, min_confirmations, now).vault_utxos),
{
    lemma_seen_keeps_outpoints(
        l.vault_utxos,
        observed,
        observed.len() as int,
        min_confirmations,
        now,
    );
}

/// An output that a request holds, or that this service spent.
pub open spec fn pinned(v: VaultUtxoView) -> bool {
    v.state == VaultUtxoState::Reserved || (v.state == VaultUtxoState::Spent && (
    v.spent_by_txid is Some || v.reserved_by is Some))
}

proof fn lemma_seen_keeps_pinned(
    rows: Seq<VaultUtxoView>,
    observed: Seq<ObservedView>,
    k: int,
    min_confirmations: i64,
    now: i64,
    i: int,
)
    requires
        0 <= k <= observed.len(),
        0 <= i < rows.len(),
        pinned(rows[i]),
    ensures
        ({
            let t = seen_prefix(rows, observed, k, min_confirmations, now);
            &&& i < t.len()
            &&& t[i] == VaultUtxoView { confirmations: t[i].confirmations, ..rows[i] }
        }),
    decreases k,
{
    if k > 0 {
        lemma_seen_keeps_pinned(rows, observed, k - 1, min_confirmations, now, i);
        let t = seen_prefix(rows, observed, k - 1, min_confirmations, now);
        let o = observed[k - 1];
        lemma_first_row_is_first(t, at_outpoint(o.utxo.txid, o.utxo.vout));
    }
}

/// An output that this service signed for and spent is never spendable again,
/// whatever the chain reports.
pub proof fn law_signed_spend_is_never_undone(
    l: LedgerView,
    observed: Seq<ObservedView>,
    min_confirmations: i64,
    now: i64,
    i: int,
)
    requires
        0 <= i < l.vault_utxos.len(),
        l.vault_utxos[i].state == VaultUtxoState::Spent,
        l.vault_utxos[i].spent_by_txid is Some || l.vault_utxos[i].reserved_by is Some,
    ensures
        ({
            let v = l.synced(observed, min_confirmations, now).vault_utxos[i];
            v == VaultUtxoView { confirmations: v.confirmations, ..l.vault_utxos[i] }
        }),
{
    lemma_seen_keeps_pinned(
        l.vault_utxos,
        observed,
        observed.len() as int,
        min_confirmations,
        now,
        i,
    );
}

/// A reserved output stays reserved for its request, whatever the chain
/// reports.
pub proof fn law_sync_keeps_reservations(
    l: LedgerView,
    observed: Seq<ObservedView>,
    min_confirmations: i64,
    now: i64,
    i: int,
)
    requires
        0 <= i < l.vault_utxos.len(),
        l.vault_utxos[i].state == VaultUtxoState::Reserved,
    ensures
        ({
            let v = l.synced(observed, min_confirmations, now).vault_utxos[i];
            v == VaultUtxoView { confirmations: v.confirmations, ..l.vault_utxos[i] }
        }),
{
    lemma_seen_keeps_pinned(
        l.vault_utxos,
        observed,
        observed.len() as int,
        min_confirmations,
        now,
        i,
    );
}

proof fn lemma_reserving_keeps_rows(
    rows: Seq<VaultUtxoView>,
    ok: spec_fn(VaultUtxoView) -> bool,
    coins: Seq<CoinView>,
    k: int,
    id: i64,
    now: i64,
)
    requires
        0 <= k <= coins.len(),
    ensures
        ({
            let t = reserve_prefix(rows, ok, coins, k, id, now);
            &&& t.len() == rows.len()
            &&& forall|i: int|
                0 <= i < rows.len() ==> (#[trigger] t[i]).txid == rows[i].txid && t[i].vout
                    == rows[i].vout && (rows[i].state == VaultUtxoState::Reserved ==> t[i].state
                    == VaultUtxoState::Reserved)
        }),
    decreases k,
{
    if k > 0 {
        lemma_reserving_keeps_rows(rows, ok, coins, k - 1, id, now);
        let t = reserve_prefix(rows, ok, coins, k - 1, id, now);
        lemma_first_row_is_first(t, takable(coins[k - 1], ok));
    }
}

proof fn lemma_taken_count(
    rows: Seq<VaultUtxoView>,
    ok: spec_fn(VaultUtxoView) -> bool,
    coins: Seq<CoinView>,
    k: int,
    id: i64,
    now: i64,
    j: int,
)
    requires
        0 <= j < k <= coins.len(),
    ensures
        taken_count(rows, ok, coins, k, id, now) <= k,
        not_takable(rows, ok, coins, j, id, now) ==> taken_count(rows, ok, coins, k, id, now) < k,
    decreases k,
{
    if j < k - 1 {
        lemma_taken_count(rows, ok, coins, k - 1, id, now, j);
    } else if k - 1 > 0 {
        lemma_taken_count(rows, ok, coins, k - 1, id, now, 0);
    } else {
        assert(taken_count(rows, ok, coins, 0, id, now) == 0);
    }
}

proof fn lemma_taken_is_reserved(
    rows: Seq<VaultUtxoView>,
    ok: spec_fn(VaultUtxoView) -> bool,
    coins: Seq<CoinView>,
    k: int,
    id: i64,
    now: i64,
    j: int,
) -> (i: int)
    requires
        0 <= j < k <= coins.len(),
        !not_takable(rows, ok, coins, j, id, now),
    ensures
        ({
            let t = reserve_prefix(rows, ok, coins, k, id, now);
            &&& 0 <= i < t.len()
            &&& t[i].txid == coins[j].txid && t[i].vout == coins[j].vout
            &&& t[i].state == VaultUtxoState::Reserved
        }),
    decreases k,
{
    let t = reserve_prefix(rows, ok, coins, k - 1, id, now);
    lemma_first_row_is_first(t, takable(coins[k - 1], ok));
    if j < k - 1 {
        lemma_taken_is_reserved(rows, ok, coins, k - 1, id, now, j)
    } else {
        first_row(t, takable(coins[j], ok)).unwrap()
    }
}

/// An output serves one request: once coins are reserved for a request, none of
/// them can be reserved for another, or for the same one again.
pub proof fn law_an_output_serves_one_request(
    l: LedgerView,
    id: i64,
    coins: Seq<CoinView>,
    max_depth: u32,
    now: i64,
    other: i64,
    other_coins: Seq<CoinView>,
    other_depth: u32,
    later: i64,
    i: int,
    j: int,
)
    requires
        outpoints_differ(l.vault_utxos),
        taken_count(l.vault_utxos, l.reservable(max_depth), coins, coins.len() as int, id, now)
            == coins.len(),
        0 <= i < coins.len(),
        0 <= j < other_coins.len(),
        coins[i].txid == other_coins[j].txid,
        coins[i].vout == other_coins[j].vout,
    ensures
        ({
            let m = l.with_utxos(
                reserve_prefix(
                    l.vault_utxos,
                    l.reservable(max_depth),
                    coins,
                    coins.len() as int,
                    id,
                    now,
                ),
            );
            taken_count(
                m.vault_utxos,
                m.reservable(other_depth),
                other_coins,
                other_coins.len() as int,
                other,
                later,
            ) < other_coins.len()
        }),
{
    let n = coins.len() as int;
    let ok = l.reservable(max_depth);
    let m = l.with_utxos(reserve_prefix(l.vault_utxos, ok, coins, n, id, now));
    let again = m.reservable(other_depth);
    lemma_taken_count(l.vault_utxos, ok, coins, n, id, now, i);
    let at = lemma_taken_is_reserved(l.vault_utxos, ok, coins, n, id, now, i);
    lemma_reserving_keeps_rows(l.vault_utxos, ok, coins, n, id, now);
    lemma_reserving_keeps_rows(m.vault_utxos, again, other_coins, j, other, later);
    let t = reserve_prefix(m.vault_utxos, again, other_coins, j, other, later);
    let p = takable(other_coins[j], again);
    lemma_first_row_is_first(t, p);
    if first_row(t, p) is Some {
        let k = first_row(t, p).unwrap();
        assert(p(t[k]));
        assert(t[k].txid == l.vault_utxos[k].txid && t[k].vout == l.vault_utxos[k].vout);
        assert(t[at].txid == l.vault_utxos[at].txid && t[at].vout == l.vault_utxos[at].vout);
        assert(k == at);
        assert(t[at].state == VaultUtxoState::Reserved);
        assert(!again(t[at]));
    }
    lemma_taken_count(
        m.vault_utxos,
        again,
        other_coins,
        other_coins.len() as int,
        other,
        later,
        j,
    );
}

} // verus!
