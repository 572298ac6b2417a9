//! Splitting large outputs of the vault into smaller ones.
use vstd::prelude::*;
use crate::error::LedgerError;
use crate::ledger::{Ledger, LedgerView};
use crate::rows::{
    BroadcastSplitView, BroadcastVaultUtxoSplit, CoinView, PendingSplitView,
    PendingVaultUtxoSplit, SplitSnapshotView, UnconfirmedBroadcastSplit, UnconfirmedSplitView,
    VaultSplitRow, VaultSplitView, VaultUtxo, VaultUtxoEntry, VaultUtxoSplitSnapshot,
    VaultUtxoView, dup_text,
};
use crate::table::{
    any_row, any_where, collect_where, eq32, find_where, first_row, is32, is_first,
    lemma_first_row, lemma_first_row_is_first, max_rows, max_where, select_rows, sort_rows,
    sorted_by, values,
};
use crate::types::{SplitState, VaultUtxoState};
use crate::vault::{SPLIT_MISSING_INPUTS_GRACE_SECS, at_outpoint, live_claim};

verus! {

/// How an output is to be split.
#[derive(Debug)]
pub struct SplitPlan {
    /// The output that is split.
    pub source: VaultUtxo,
    /// The amounts that it is split into.
    pub outputs: Vec<u64>,
    /// What the miner gets.
    pub fee_atomic: u64,
}

impl SplitPlan {
    /// Into how many outputs the source is split.
    pub fn output_count(&self) -> (r: usize)
        ensures
            r == self.outputs@.len(),
    {
        self.outputs.len()
    }
}

/// Splits by number.
pub open spec fn split_by_id(id: i64) -> spec_fn(VaultSplitView) -> bool {
    |s: VaultSplitView| s.id == id
}

/// A split of this output that was not abandoned.
pub open spec fn live_split_of(txid: [u8; 32], vout: u32) -> spec_fn(VaultSplitView) -> bool {
    |s: VaultSplitView|
        s.source_txid == txid && s.source_vout == vout && s.state != SplitState::Abandoned
}

/// A split whose transaction is known to the chain.
pub open spec fn sent_split(txid: [u8; 32]) -> spec_fn(VaultSplitView) -> bool {
    |s: VaultSplitView|
        s.txid == Some(txid) && (s.state == SplitState::Broadcast || s.state
            == SplitState::Confirmed)
}

/// What is told of a split.
pub open spec fn split_snapshot(s: VaultSplitView) -> SplitSnapshotView {
    SplitSnapshotView {
        id: s.id,
        source_amount_atomic: s.source_amount_atomic as u64,
        chunk_count: s.chunk_count,
        chunk_target_atomic: s.chunk_target_atomic as u64,
        fee_atomic: s.fee_atomic as u64,
        unsigned_tx_hex: s.unsigned_tx_hex,
        signed_tx_hex: s.signed_tx_hex,
        txid: s.txid,
        state: s.state,
    }
}

/// The outputs of a split's transaction, as they enter the table of outputs:
/// one that is already there stays as it is.
pub open spec fn with_chunks(
    rows: Seq<VaultUtxoView>,
    txid: [u8; 32],
    amounts: Seq<u64>,
    k: int,
    script: Seq<char>,
    now: i64,
) -> Seq<VaultUtxoView>
    decreases k,
{
    if k <= 0 {
        rows
    } else {
        let before = with_chunks(rows, txid, amounts, k - 1, script, now);
        if any_row(before, at_outpoint(txid, (k - 1) as u32)) {
            before
        } else {
            before.push(chunk(txid, (k - 1) as u32, amounts[k - 1] as i64, script, now))
        }
    }
}

/// An output of a split's transaction that was just sent.
pub open spec fn chunk(
    txid: [u8; 32],
    vout: u32,
    amount: i64,
    script: Seq<char>,
    now: i64,
) -> VaultUtxoView {
    VaultUtxoView {
        txid,
        vout,
        amount_atomic: amount,
        script_pubkey_hex: script,
        confirmations: 0,
        first_seen_at: now,
        state: VaultUtxoState::Unconfirmed,
        reserved_by: None,
        reserved_at: None,
        spent_by_txid: None,
        zero_conf_hold_reason: None,
    }
}

/// What the broadcast of a split makes of its source.
pub open spec fn split_source(v: VaultUtxoView, txid: [u8; 32]) -> VaultUtxoView {
    if v.state == VaultUtxoState::Available {
        VaultUtxoView { state: VaultUtxoState::Spent, spent_by_txid: Some(txid), ..v }
    } else if v.spent_by_txid is None {
        VaultUtxoView { spent_by_txid: Some(txid), ..v }
    } else {
        v
    }
}

/// What abandoning a split makes of an output: one of its transaction that was
/// not spent counts as gone.
pub open spec fn abandoned_chunk(txid: [u8; 32]) -> spec_fn(VaultUtxoView) -> VaultUtxoView {
    |v: VaultUtxoView|
        if v.txid == txid && (v.state == VaultUtxoState::Unconfirmed || v.state
            == VaultUtxoState::Available) {
            VaultUtxoView { state: VaultUtxoState::Spent, ..v }
        } else {
            v
        }
}

/// The split is in no state from which this step leads on.
pub open spec fn stuck<T>(id: i64, state: SplitState) -> Result<T, LedgerError> {
    Err(LedgerError::VaultUtxoSplitNotRecoverable { id, state })
}

impl LedgerView {
    /// Split `id`.
    pub open spec fn split(self, id: i64) -> Option<VaultSplitView> {
        match first_row(self.splits, split_by_id(id)) {
            Some(i) => Some(self.splits[i]),
            None => None,
        }
    }

    /// The ledger with `row` in the place of split `id`.
    pub open spec fn with_split(self, id: i64, row: VaultSplitView) -> LedgerView {
        match first_row(self.splits, split_by_id(id)) {
            Some(i) => LedgerView { splits: self.splits.update(i, row), ..self },
            None => self,
        }
    }

    /// The ledger with another output at this outpoint.
    pub open spec fn with_utxo(self, txid: [u8; 32], vout: u32, row: VaultUtxoView) -> LedgerView {
        match first_row(self.vault_utxos, at_outpoint(txid, vout)) {
            Some(i) => self.with_utxos(self.vault_utxos.update(i, row)),
            None => self,
        }
    }

    /// Whether a split of this output can begin, and under which number.
    pub open spec fn begin_split_result(self, source: CoinView) -> Result<i64, LedgerError> {
        if any_row(self.splits, live_split_of(source.txid, source.vout)) {
            Err(LedgerError::VaultUtxoAlreadySplit { txid: source.txid, vout: source.vout })
        } else {
            match self.utxo(source.txid, source.vout) {
                None => Err(LedgerError::VaultUtxoNotFound { txid: source.txid, vout: source.vout }),
                Some(v) => if v.state != VaultUtxoState::Available {
                    Err(
                        LedgerError::VaultUtxoNotSplittable {
                            txid: source.txid,
                            vout: source.vout,
                            state: v.state,
                        },
                    )
                } else if self.next_split_id == i64::MAX {
                    Err(LedgerError::NumbersExhausted)
                } else {
                    Ok(self.next_split_id)
                },
            }
        }
    }

    /// The ledger after a split began.
    pub open spec fn split_begun(
        self,
        source: CoinView,
        count: int,
        chunk_target: u64,
        fee: u64,
        unsigned_tx: Seq<char>,
        note: Seq<char>,
        now: i64,
    ) -> LedgerView {
        LedgerView {
            splits: self.splits.push(
                VaultSplitView {
                    id: self.next_split_id,
                    source_txid: source.txid,
                    source_vout: source.vout,
                    source_amount_atomic: source.amount_atomic as i64,
                    chunk_count: count as i64,
                    chunk_target_atomic: chunk_target as i64,
                    fee_atomic: fee as i64,
                    unsigned_tx_hex: unsigned_tx,
                    signed_tx_hex: None,
                    txid: None,
                    state: SplitState::Built,
                    note,
                    built_at: now,
                    signed_at: None,
                    broadcast_at: None,
                    confirmed_at: None,
                    abandoned_at: None,
                    abandon_reason: None,
                    missing_inputs_since: None,
                },
            ),
            next_split_id: (self.next_split_id + 1) as i64,
            ..self
        }
    }

    /// Whether the signature of a split can be recorded.
    pub open spec fn sign_split_result(self, id: i64) -> Result<(), LedgerError> {
        match self.split(id) {
            Some(s) => if s.state == SplitState::Built {
                Ok(())
            } else {
                Err(LedgerError::VaultUtxoSplitNotFound(id))
            },
            None => Err(LedgerError::VaultUtxoSplitNotFound(id)),
        }
    }

    /// Whether the broadcast of a split can be recorded.
    pub open spec fn send_split_result(self, id: i64) -> Result<(), LedgerError> {
        match self.split(id) {
            None => Err(LedgerError::VaultUtxoSplitNotFound(id)),
            Some(s) => if s.state != SplitState::Signed && s.state != SplitState::Broadcast {
                stuck(id, s.state)
            } else {
                match self.utxo(s.source_txid, s.source_vout) {
                    None => Err(
                        LedgerError::VaultUtxoNotFound { txid: s.source_txid, vout: s.source_vout },
                    ),
                    Some(v) => if v.state == VaultUtxoState::Available || v.state
                        == VaultUtxoState::Spent {
                        Ok(())
                    } else {
                        Err(
                            LedgerError::VaultUtxoNotSplittable {
                                txid: s.source_txid,
                                vout: s.source_vout,
                                state: v.state,
                            },
                        )
                    },
                }
            },
        }
    }

    /// The ledger after the broadcast of a split was recorded.
    pub open spec fn split_sent(
        self,
        id: i64,
        txid: [u8; 32],
        amounts: Seq<u64>,
        script: Seq<char>,
        now: i64,
    ) -> LedgerView {
        let s = self.split(id).unwrap();
        let v = self.utxo(s.source_txid, s.source_vout).unwrap();
        let l = self.with_split(
            id,
            VaultSplitView {
                state: SplitState::Broadcast,
                txid: Some(txid),
                broadcast_at: if s.broadcast_at is Some {
                    s.broadcast_at
                } else {
                    Some(now)
                },
                ..s
            },
        ).with_utxo(s.source_txid, s.source_vout, split_source(v, txid));
        l.with_utxos(
            with_chunks(l.vault_utxos, txid, amounts, amounts.len() as int, script, now),
        )
    }

    /// Whether a split can be recorded as confirmed.
    pub open spec fn confirm_split_result(self, id: i64) -> Result<(), LedgerError> {
        match self.split(id) {
            None => Err(LedgerError::VaultUtxoSplitNotFound(id)),
            Some(s) => if s.state == SplitState::Broadcast {
                Ok(())
            } else {
                stuck(id, s.state)
            },
        }
    }

    /// Whether a split can be abandoned.
    pub open spec fn abandon_split_result(self, id: i64) -> Result<(), LedgerError> {
        match self.split(id) {
            None => Err(LedgerError::VaultUtxoSplitNotFound(id)),
            Some(s) => if s.state == SplitState::Confirmed {
                stuck(id, s.state)
            } else {
                Ok(())
            },
        }
    }

    /// The ledger after a split was abandoned.
    pub open spec fn split_abandoned(
        self,
        id: i64,
        reason: Seq<char>,
        observed: Option<[u8; 32]>,
        now: i64,
    ) -> LedgerView {
        let s = self.split(id).unwrap();
        let txid = if s.txid is Some {
            s.txid
        } else {
            observed
        };
        if s.state == SplitState::Abandoned {
            self
        } else {
            let l = self.with_split(
                id,
                VaultSplitView {
                    state: SplitState::Abandoned,
                    abandoned_at: Some(now),
                    abandon_reason: Some(reason),
                    txid,
                    ..s
                },
            );
            match txid {
                Some(t) => l.with_utxos(self.vault_utxos.map_values(abandoned_chunk(t))),
                None => l,
            }
        }
    }

    /// Whether an abandoned split can be taken up again: no other one of its
    /// output may have begun since.
    pub open spec fn readopt_split_result(self, id: i64) -> Result<(), LedgerError> {
        match self.split(id) {
            None => Err(LedgerError::VaultUtxoSplitNotFound(id)),
            Some(s) => if s.state != SplitState::Abandoned || s.txid is None {
                stuck(id, s.state)
            } else if any_row(self.splits, live_split_of(s.source_txid, s.source_vout)) {
                Err(LedgerError::NotUnique)
            } else {
                Ok(())
            },
        }
    }
}

/// An output of this transaction.
pub open spec fn of_tx(txid: [u8; 32]) -> spec_fn(VaultUtxoView) -> bool {
    |v: VaultUtxoView| v.txid == txid
}

/// An abandoned split whose transaction may still confirm.
pub open spec fn abandoned_sent() -> spec_fn(VaultSplitView) -> bool {
    |s: VaultSplitView| s.state == SplitState::Abandoned && s.txid is Some
}

/// A broadcast split whose source has been missing for the grace period.
pub open spec fn flagged_dead(now: i64) -> spec_fn(VaultSplitView) -> bool {
    |s: VaultSplitView|
        s.state == SplitState::Broadcast && s.txid is Some && (s.missing_inputs_since matches Some(
            t,
        ) && t + SPLIT_MISSING_INPUTS_GRACE_SECS <= now)
}

impl Ledger {
    /// Where split `id` stands in its table.
    fn find_split(&self, id: i64) -> (r: Option<usize>)
        ensures
            match r {
                Some(i) => {
                    &&& i < self.splits@.len()
                    &&& first_row(self@.splits, split_by_id(id)) == Some(i as int)
                    &&& self@.split(id) == Some(self.splits@[i as int]@)
                    &&& self@.splits[i as int] == self.splits@[i as int]@
                },
                None => self@.split(id) is None,
            },
    {
        find_where(
            &self.splits,
            |s: &VaultSplitRow| -> (b: bool) ensures b == split_by_id(id)(s@) { s.id == id },
            Ghost(split_by_id(id)),
        )
    }

    fn find_live_split(&self, txid: &[u8; 32], vout: u32) -> (r: Option<usize>)
        ensures
            match r {
                Some(i) => {
                    &&& i < self.splits@.len()
                    &&& first_row(self@.splits, live_split_of(*txid, vout)) == Some(i as int)
                    &&& self@.splits[i as int] == self.splits@[i as int]@
                    &&& any_row(self@.splits, live_split_of(*txid, vout))
                },
                None => first_row(self@.splits, live_split_of(*txid, vout)) is None && !any_row(
                    self@.splits,
                    live_split_of(*txid, vout),
                ),
            },
    {
        find_where(
            &self.splits,
            |s: &VaultSplitRow| -> (b: bool) ensures b == live_split_of(*txid, vout)(s@) {
                eq32(&s.source_txid, txid) && s.source_vout == vout && !matches!(
                    s.state,
                    SplitState::Abandoned
                )
            },
            Ghost(live_split_of(*txid, vout)),
        )
    }

    /// The split of this output, if one is under way or done.
    pub fn get_vault_utxo_split(&self, source_txid: [u8; 32], source_vout: u32) -> (r: Option<
        VaultUtxoSplitSnapshot,
    >)
        ensures
            match (r, first_row(self@.splits, live_split_of(source_txid, source_vout))) {
                (Some(x), Some(i)) => x@ == split_snapshot(self@.splits[i]),
                (None, None) => true,
                _ => false,
            },
    {
        match self.find_live_split(&source_txid, source_vout) {
            Some(i) => {
                let s = &self.splits[i];
                Some(
                    VaultUtxoSplitSnapshot {
                        id: s.id,
                        source_amount_atomic: s.source_amount_atomic as u64,
                        chunk_count: s.chunk_count,
                        chunk_target_atomic: s.chunk_target_atomic as u64,
                        fee_atomic: s.fee_atomic as u64,
                        unsigned_tx_hex: s.unsigned_tx_hex.clone(),
                        signed_tx_hex: dup_text(&s.signed_tx_hex),
                        txid: s.txid,
                        state: s.state,
                    },
                )
            },
            None => None,
        }
    }

    /// Begins the split of an available output and returns its number.
    pub fn record_vault_utxo_split_built(
        &mut self,
        plan: &SplitPlan,
        chunk_target_atomic: u64,
        unsigned_tx_hex: &str,
        note: &str,
        now: i64,
    ) -> (r: Result<i64, LedgerError>)
        ensures
            r == old(self)@.begin_split_result(plan.source@),
            final(self)@ == (if r is Ok {
                old(self)@.split_begun(
                    plan.source@,
                    plan.outputs@.len() as int,
                    chunk_target_atomic,
                    plan.fee_atomic,
                    unsigned_tx_hex@,
                    note@,
                    now,
                )
            } else {
                old(self)@
            }),
    {
        let txid = plan.source.txid;
        let vout = plan.source.vout;
        if self.find_live_split(&txid, vout).is_some() {
            return Err(LedgerError::VaultUtxoAlreadySplit { txid, vout });
        }
        match self.find_utxo(&txid, vout) {
            None => {
                return Err(LedgerError::VaultUtxoNotFound { txid, vout });
            },
            Some(i) => {
                let state = self.vault_utxos[i].state;
                if !matches!(state, VaultUtxoState::Available) {
                    return Err(LedgerError::VaultUtxoNotSplittable { txid, vout, state });
                }
            },
        }
        if self.next_split_id == i64::MAX {
            return Err(LedgerError::NumbersExhausted);
        }
        let id = self.next_split_id;
        let ghost l0 = self@;
        let count: usize = plan.output_count();
        self.splits.push(
            VaultSplitRow {
                id,
                source_txid: txid,
                source_vout: vout,
                source_amount_atomic: plan.source.amount_atomic as i64,
                chunk_count: count as i64,
                chunk_target_atomic: chunk_target_atomic as i64,
                fee_atomic: plan.fee_atomic as i64,
                unsigned_tx_hex: unsigned_tx_hex.to_owned(),
                signed_tx_hex: None,
                txid: None,
                state: SplitState::Built,
                note: note.to_owned(),
                built_at: now,
                signed_at: None,
                broadcast_at: None,
                confirmed_at: None,
                abandoned_at: None,
                abandon_reason: None,
                missing_inputs_since: None,
            },
        );
        self.next_split_id = id + 1;
        proof {
            let want = l0.split_begun(
                plan.source@,
                count as int,
                chunk_target_atomic,
                plan.fee_atomic,
                unsigned_tx_hex@,
                note@,
                now,
            );
            assert(self@.splits =~= want.splits);
        }
        Ok(id)
    }

    /// Records the signed transaction of a split.
    pub fn record_vault_utxo_split_signed(&mut self, id: i64, signed_tx_hex: &str, now: i64) -> (r:
        Result<(), LedgerError>)
        ensures
            r == old(self)@.sign_split_result(id),
            final(self)@ == (if r is Ok {
                old(self)@.with_split(
                    id,
                    VaultSplitView {
                        signed_tx_hex: Some(signed_tx_hex@),
                        state: SplitState::Signed,
                        signed_at: Some(now),
                        ..old(self)@.split(id).unwrap()
                    },
                )
            } else {
                old(self)@
            }),
    {
        match self.find_split(id) {
            Some(i) => {
                if !matches!(self.splits[i].state, SplitState::Built) {
                    return Err(LedgerError::VaultUtxoSplitNotFound(id));
                }
                let ghost l0 = self@;
                self.splits[i].signed_tx_hex = Some(signed_tx_hex.to_owned());
                self.splits[i].state = SplitState::Signed;
                self.splits[i].signed_at = Some(now);
                proof {
                    assert(self@.splits =~= l0.splits.update(
                        i as int,
                        VaultSplitView {
                            signed_tx_hex: Some(signed_tx_hex@),
                            state: SplitState::Signed,
                            signed_at: Some(now),
                            ..l0.splits[i as int]
                        },
                    ));
                }
                Ok(())
            },
            None => Err(LedgerError::VaultUtxoSplitNotFound(id)),
        }
    }

    fn split_source_checked(&self, txid: [u8; 32], vout: u32) -> (r: Result<usize, LedgerError>)
        ensures
            match r {
                Ok(i) => {
                    &&& i < self.vault_utxos@.len()
                    &&& first_row(self@.vault_utxos, at_outpoint(txid, vout)) == Some(i as int)
                    &&& self@.utxo(txid, vout) == Some(self.vault_utxos@[i as int]@)
                    &&& (self.vault_utxos@[i as int]@.state == VaultUtxoState::Available
                        || self.vault_utxos@[i as int]@.state == VaultUtxoState::Spent)
                },
                Err(e) => match self@.utxo(txid, vout) {
                    None => e == (LedgerError::VaultUtxoNotFound { txid, vout }),
                    Some(v) => v.state != VaultUtxoState::Available && v.state
                        != VaultUtxoState::Spent && e == (LedgerError::VaultUtxoNotSplittable {
                        txid,
                        vout,
                        state: v.state,
                    }),
                },
            },
    {
        match self.find_utxo(&txid, vout) {
            None => Err(LedgerError::VaultUtxoNotFound { txid, vout }),
            Some(i) => {
                let state = self.vault_utxos[i].state;
                if matches!(state, VaultUtxoState::Available | VaultUtxoState::Spent) {
                    Ok(i)
                } else {
                    Err(LedgerError::VaultUtxoNotSplittable { txid, vout, state })
                }
            },
        }
    }

    fn spend_split_source(&mut self, i: usize, txid: [u8; 32])
        requires
            i < old(self).vault_utxos@.len(),
        ensures
            final(self)@ == old(self)@.with_utxos(
                old(self)@.vault_utxos.update(
                    i as int,
                    split_source(old(self).vault_utxos@[i as int]@, txid),
                ),
            ),
    {
        let ghost l0 = self@;
        let available = matches!(self.vault_utxos[i].state, VaultUtxoState::Available);
        if available || self.vault_utxos[i].spent_by_txid.is_none() {
            self.vault_utxos[i].spent_by_txid = Some(txid);
        }
        if available {
            self.vault_utxos[i].state = VaultUtxoState::Spent;
        }
        proof {
            assert(self@.vault_utxos =~= l0.vault_utxos.update(
                i as int,
                split_source(old(self).vault_utxos@[i as int]@, txid),
            ));
        }
    }

    fn add_chunks(&mut self, txid: [u8; 32], amounts: &Vec<u64>, script: &str, now: i64)
        ensures
            final(self)@ == old(self)@.with_utxos(
                with_chunks(
                    old(self)@.vault_utxos,
                    txid,
                    amounts@,
                    amounts@.len() as int,
                    script@,
                    now,
                ),
            ),
    {
        let ghost l0 = self@;
        let mut k: usize = 0;
        while k < amounts.len()
            invariant
                k <= amounts@.len(),
                self@ == l0.with_utxos(
                    with_chunks(l0.vault_utxos, txid, amounts@, k as int, script@, now),
                ),
            decreases amounts@.len() - k,
        {
            let vout = k as u32;
            let there = any_where(
                &self.vault_utxos,
                |v: &VaultUtxoEntry| -> (b: bool) ensures b == at_outpoint(txid, vout)(v@) {
                    eq32(&v.txid, &txid) && v.vout == vout
                },
                Ghost(at_outpoint(txid, vout)),
            );
            let ghost before = self@.vault_utxos;
            if !there {
                self.vault_utxos.push(
                    VaultUtxoEntry {
                        txid,
                        vout,
                        amount_atomic: amounts[k] as i64,
                        script_pubkey_hex: script.to_owned(),
                        confirmations: 0,
                        first_seen_at: now,
                        state: VaultUtxoState::Unconfirmed,
                        reserved_by: None,
                        reserved_at: None,
                        spent_by_txid: None,
                        zero_conf_hold_reason: None,
                    },
                );
            }
            proof {
                assert(self@.vault_utxos =~= with_chunks(
                    l0.vault_utxos,
                    txid,
                    amounts@,
                    k + 1,
                    script@,
                    now,
                ));
            }
            k = k + 1;
        }
    }

    /// Records the broadcast of a split: its source is spent, and what it was
    /// split into is known. Recording it again changes no output twice.
    pub fn record_vault_utxo_split_broadcast(
        &mut self,
        id: i64,
        txid: [u8; 32],
        output_amounts: &Vec<u64>,
        vault_script_pubkey_hex: &str,
        now: i64,
    ) -> (r: Result<(), LedgerError>)
        ensures
            r == old(self)@.send_split_result(id),
            final(self)@ == (if r is Ok {
                old(self)@.split_sent(id, txid, output_amounts@, vault_script_pubkey_hex@, now)
            } else {
                old(self)@
            }),
    {
        let k = match self.find_split(id) {
            Some(k) => k,
            None => {
                return Err(LedgerError::VaultUtxoSplitNotFound(id));
            },
        };
        let state = self.splits[k].state;
        if !matches!(state, SplitState::Signed | SplitState::Broadcast) {
            return Err(LedgerError::VaultUtxoSplitNotRecoverable { id, state });
        }
        let i = match self.split_source_checked(
            self.splits[k].source_txid,
            self.splits[k].source_vout,
        ) {
            Ok(i) => i,
            Err(e) => {
                return Err(e);
            },
        };
        let ghost l0 = self@;
        let ghost s = l0.split(id).unwrap();
        self.splits[k].state = SplitState::Broadcast;
        self.splits[k].txid = Some(txid);
        if self.splits[k].broadcast_at.is_none() {
            self.splits[k].broadcast_at = Some(now);
        }
        let ghost row = VaultSplitView {
            state: SplitState::Broadcast,
            txid: Some(txid),
            broadcast_at: if s.broadcast_at is Some {
                s.broadcast_at
            } else {
                Some(now)
            },
            ..s
        };
        proof {
            assert(self@.splits =~= l0.splits.update(k as int, row));
            assert(self@ == l0.with_split(id, row));
        }
        self.spend_split_source(i, txid);
        self.add_chunks(txid, output_amounts, vault_script_pubkey_hex, now);
        Ok(())
    }

    /// Records that a split is confirmed.
    pub fn record_vault_utxo_split_confirmed(&mut self, id: i64, now: i64) -> (r: Result<
        (),
        LedgerError,
    >)
        ensures
            r == old(self)@.confirm_split_result(id),
            final(self)@ == (if r is Ok {
                old(self)@.with_split(
                    id,
                    VaultSplitView {
                        state: SplitState::Confirmed,
                        confirmed_at: Some(now),
                        missing_inputs_since: None,
                        ..old(self)@.split(id).unwrap()
                    },
                )
            } else {
                old(self)@
            }),
    {
        match self.find_split(id) {
            Some(i) => {
                let state = self.splits[i].state;
                if !matches!(state, SplitState::Broadcast) {
                    return Err(LedgerError::VaultUtxoSplitNotRecoverable { id, state });
                }
                let ghost l0 = self@;
                self.splits[i].state = SplitState::Confirmed;
                self.splits[i].confirmed_at = Some(now);
                self.splits[i].missing_inputs_since = None;
                proof {
                    assert(self@.splits =~= l0.splits.update(
                        i as int,
                        VaultSplitView {
                            state: SplitState::Confirmed,
                            confirmed_at: Some(now),
                            missing_inputs_since: None,
                            ..l0.splits[i as int]
                        },
                    ));
                }
                Ok(())
            },
            None => Err(LedgerError::VaultUtxoSplitNotFound(id)),
        }
    }

    fn drop_chunks(&mut self, txid: [u8; 32])
        ensures
            final(self)@ == old(self)@.with_utxos(
                old(self)@.vault_utxos.map_values(abandoned_chunk(txid)),
            ),
    {
        let ghost l0 = self@;
        let ghost f = abandoned_chunk(txid);
        let mut i: usize = 0;
        while i < self.vault_utxos.len()
            invariant
                i <= self.vault_utxos@.len(),
                f == abandoned_chunk(txid),
                self.vault_utxos@.len() == l0.vault_utxos.len(),
                self@ == l0.with_utxos(self@.vault_utxos),
                forall|j: int|
                    0 <= j < i ==> (#[trigger] self@.vault_utxos[j]) == f(l0.vault_utxos[j]),
                forall|j: int|
                    i <= j < l0.vault_utxos.len() ==> (#[trigger] self@.vault_utxos[j])
                        == l0.vault_utxos[j],
            decreases self.vault_utxos@.len() - i,
        {
            let ghost before = self@.vault_utxos;
            assert(before[i as int] == self.vault_utxos@[i as int]@);
            if eq32(&self.vault_utxos[i].txid, &txid) && matches!(
                self.vault_utxos[i].state,
                VaultUtxoState::Unconfirmed | VaultUtxoState::Available
            ) {
                self.vault_utxos[i].state = VaultUtxoState::Spent;
            }
            proof {
                assert(self@.vault_utxos =~= before.update(i as int, f(before[i as int])));
            }
            i = i + 1;
        }
        assert(self@.vault_utxos =~= l0.vault_utxos.map_values(f));
    }

    /// Gives a split up. A second time changes nothing.
    pub fn abandon_vault_utxo_split(
        &mut self,
        id: i64,
        reason: &str,
        observed_txid: Option<[u8; 32]>,
        now: i64,
    ) -> (r: Result<(), LedgerError>)
        ensures
            r == old(self)@.abandon_split_result(id),
            final(self)@ == (if r is Ok {
                old(self)@.split_abandoned(id, reason@, observed_txid, now)
            } else {
                old(self)@
            }),
    {
        let i = match self.find_split(id) {
            Some(i) => i,
            None => {
                return Err(LedgerError::VaultUtxoSplitNotFound(id));
            },
        };
        let state = self.splits[i].state;
        if matches!(state, SplitState::Abandoned) {
            return Ok(());
        }
        if matches!(state, SplitState::Confirmed) {
            return Err(LedgerError::VaultUtxoSplitNotRecoverable { id, state });
        }
        let ghost l0 = self@;
        let ghost s = l0.split(id).unwrap();
        let txid = if self.splits[i].txid.is_some() {
            self.splits[i].txid
        } else {
            observed_txid
        };
        self.splits[i].state = SplitState::Abandoned;
        self.splits[i].abandoned_at = Some(now);
        self.splits[i].abandon_reason = Some(reason.to_owned());
        self.splits[i].txid = txid;
        let ghost row = VaultSplitView {
            state: SplitState::Abandoned,
            abandoned_at: Some(now),
            abandon_reason: Some(reason@),
            txid,
            ..s
        };
        proof {
            assert(self@.splits =~= l0.splits.update(i as int, row));
            assert(self@ == l0.with_split(id, row));
        }
        match txid {
            Some(t) => self.drop_chunks(t),
            None => {},
        }
        Ok(())
    }

    /// Takes an abandoned split up again whose transaction was seen after all.
    pub fn readopt_vault_utxo_split(&mut self, id: i64, _now: i64) -> (r: Result<(), LedgerError>)
        ensures
            r == old(self)@.readopt_split_result(id),
            final(self)@ == (if r is Ok {
                old(self)@.with_split(
                    id,
                    VaultSplitView {
                        state: SplitState::Broadcast,
                        missing_inputs_since: None,
                        ..old(self)@.split(id).unwrap()
                    },
                )
            } else {
                old(self)@
            }),
    {
        let i = match self.find_split(id) {
            Some(i) => i,
            None => {
                return Err(LedgerError::VaultUtxoSplitNotFound(id));
            },
        };
        let state = self.splits[i].state;
        if !matches!(state, SplitState::Abandoned) || self.splits[i].txid.is_none() {
            return Err(LedgerError::VaultUtxoSplitNotRecoverable { id, state });
        }
        if self.find_live_split(&self.splits[i].source_txid, self.splits[i].source_vout).is_some() {
            return Err(LedgerError::NotUnique);
        }
        let ghost l0 = self@;
        self.splits[i].state = SplitState::Broadcast;
        self.splits[i].missing_inputs_since = None;
        proof {
            assert(self@.splits =~= l0.splits.update(
                i as int,
                VaultSplitView {
                    state: SplitState::Broadcast,
                    missing_inputs_since: None,
                    ..l0.splits[i as int]
                },
            ));
        }
        Ok(())
    }

    /// Records since when the source of a broadcast split has been missing.
    pub fn set_split_missing_inputs(&mut self, id: i64, now: i64)
        ensures
            final(self)@ == (match old(self)@.split(id) {
                Some(s) => if s.state == SplitState::Broadcast && s.missing_inputs_since is None {
                    old(self)@.with_split(
                        id,
                        VaultSplitView { missing_inputs_since: Some(now), ..s },
                    )
                } else {
                    old(self)@
                },
                None => old(self)@,
            }),
    {
        match self.find_split(id) {
            Some(i) => {
                if matches!(self.splits[i].state, SplitState::Broadcast)
                    && self.splits[i].missing_inputs_since.is_none() {
                    let ghost l0 = self@;
                    self.splits[i].missing_inputs_since = Some(now);
                    proof {
                        assert(self@.splits =~= l0.splits.update(
                            i as int,
                            VaultSplitView {
                                missing_inputs_since: Some(now),
                                ..l0.splits[i as int]
                            },
                        ));
                    }
                }
            },
            None => {},
        }
    }

    /// Forgets that the source of a split was missing.
    pub fn clear_split_missing_inputs(&mut self, id: i64)
        ensures
            final(self)@ == (match old(self)@.split(id) {
                Some(s) => old(self)@.with_split(
                    id,
                    VaultSplitView { missing_inputs_since: None, ..s },
                ),
                None => old(self)@,
            }),
    {
        match self.find_split(id) {
            Some(i) => {
                let ghost l0 = self@;
                self.splits[i].missing_inputs_since = None;
                proof {
                    assert(self@.splits =~= l0.splits.update(
                        i as int,
                        VaultSplitView { missing_inputs_since: None, ..l0.splits[i as int] },
                    ));
                }
            },
            None => {},
        }
    }

    /// The deepest confirmation of an output of this transaction.
    pub fn max_confirmations_for_txid(&self, txid: [u8; 32]) -> (r: Option<i64>)
        ensures
            r == max_rows(
                self@.vault_utxos,
                of_tx(txid),
                |v: VaultUtxoView| v.confirmations,
            ),
    {
        max_where(
            &self.vault_utxos,
            |v: &VaultUtxoEntry| -> (b: bool) ensures b == of_tx(txid)(v@) {
                eq32(&v.txid, &txid)
            },
            |v: &VaultUtxoEntry| -> (n: i64) ensures n == v@.confirmations { v.confirmations },
            Ghost(of_tx(txid)),
            Ghost(|v: VaultUtxoView| v.confirmations),
        )
    }

    /// The split whose transaction this is, if it was broadcast.
    pub fn get_broadcast_vault_utxo_split(&self, split_txid: [u8; 32]) -> (r: Option<
        BroadcastVaultUtxoSplit,
    >)
        ensures
            match (r, first_row(self@.splits, sent_split(split_txid))) {
                (Some(x), Some(i)) => x@ == (BroadcastSplitView {
                    source_amount_atomic: self@.splits[i].source_amount_atomic as u64,
                    fee_atomic: self@.splits[i].fee_atomic as u64,
                    chunk_count: self@.splits[i].chunk_count,
                }),
                (None, None) => true,
                _ => false,
            },
    {
        match find_where(
            &self.splits,
            |s: &VaultSplitRow| -> (b: bool) ensures b == sent_split(split_txid)(s@) {
                is32(&s.txid, &split_txid) && matches!(
                    s.state,
                    SplitState::Broadcast | SplitState::Confirmed
                )
            },
            Ghost(sent_split(split_txid)),
        ) {
            Some(i) => {
                let s = &self.splits[i];
                Some(
                    BroadcastVaultUtxoSplit {
                        source_amount_atomic: s.source_amount_atomic as u64,
                        fee_atomic: s.fee_atomic as u64,
                        chunk_count: s.chunk_count,
                    },
                )
            },
            None => None,
        }
    }
}

/// What is told of a split that was given up.
pub open spec fn as_abandoned() -> spec_fn(VaultSplitView) -> (i64, Seq<u8>, Option<i64>) {
    |s: VaultSplitView| (s.id, s.txid.unwrap()@, s.abandoned_at)
}

/// The number and the transaction of a split.
pub open spec fn as_flagged() -> spec_fn(VaultSplitView) -> (i64, Seq<u8>) {
    |s: VaultSplitView| (s.id, s.txid.unwrap()@)
}

/// A broadcast split with its transaction.
pub open spec fn broadcast_split() -> spec_fn(VaultSplitView) -> bool {
    |s: VaultSplitView| s.state == SplitState::Broadcast && s.txid is Some
}

/// What is told of a split that waits for its confirmation.
pub open spec fn as_unconfirmed() -> spec_fn(VaultSplitView) -> UnconfirmedSplitView {
    |s: VaultSplitView|
        UnconfirmedSplitView { id: s.id, txid: s.txid.unwrap(), signed_tx_hex: s.signed_tx_hex }
}

/// A split that was not broadcast.
pub open spec fn pending_split() -> spec_fn(VaultSplitView) -> bool {
    |s: VaultSplitView| s.state == SplitState::Built || s.state == SplitState::Signed
}

/// What is told of a split that was not broadcast.
pub open spec fn as_pending() -> spec_fn(VaultSplitView) -> PendingSplitView {
    |s: VaultSplitView|
        PendingSplitView {
            id: s.id,
            source_txid: s.source_txid,
            source_vout: s.source_vout,
            state: s.state,
        }
}

impl Ledger {
    /// The abandoned splits whose transaction may still confirm: number,
    /// transaction, and when it was given up.
    pub fn abandoned_splits_with_txid(&self) -> (r: Vec<(i64, [u8; 32], Option<i64>)>)
        ensures
            sorted_by(values(r@), |a: (i64, Seq<u8>, Option<i64>), b: (i64, Seq<u8>, Option<i64>)| a.0 <= b.0),
            values(r@).to_multiset() == select_rows(self@.splits, abandoned_sent()).map_values(
                as_abandoned(),
            ).to_multiset(),
    {
        let rows = collect_where(
            &self.splits,
            |s: &VaultSplitRow| -> (b: bool) ensures b == abandoned_sent()(s@) {
                matches!(s.state, SplitState::Abandoned) && s.txid.is_some()
            },
            |s: &VaultSplitRow| -> (x: (i64, [u8; 32], Option<i64>))
                requires s@.txid is Some
                ensures x@ == as_abandoned()(s@) {
                (s.id, s.txid.unwrap(), s.abandoned_at)
            },
            Ghost(abandoned_sent()),
            Ghost(as_abandoned()),
        );
        sort_rows(
            rows,
            |a: &(i64, [u8; 32], Option<i64>), b: &(i64, [u8; 32], Option<i64>)| -> (r: bool)
                ensures r == (a@.0 <= b@.0) { a.0 <= b.0 },
            Ghost(|a: (i64, Seq<u8>, Option<i64>), b: (i64, Seq<u8>, Option<i64>)| a.0 <= b.0),
        )
    }

    /// The splits whose source has been missing for the grace period: number
    /// and transaction.
    pub fn flagged_dead_splits(&self, now: i64) -> (r: Vec<(i64, [u8; 32])>)
        ensures
            sorted_by(values(r@), |a: (i64, Seq<u8>), b: (i64, Seq<u8>)| a.0 <= b.0),
            values(r@).to_multiset() == select_rows(self@.splits, flagged_dead(now)).map_values(
                as_flagged(),
            ).to_multiset(),
    {
        let rows = collect_where(
            &self.splits,
            |s: &VaultSplitRow| -> (b: bool) ensures b == flagged_dead(now)(s@) {
                matches!(s.state, SplitState::Broadcast) && s.txid.is_some() && match s.missing_inputs_since {
                    Some(t) => t as i128 + SPLIT_MISSING_INPUTS_GRACE_SECS as i128 <= now as i128,
                    None => false,
                }
            },
            |s: &VaultSplitRow| -> (x: (i64, [u8; 32]))
                requires s@.txid is Some
                ensures x@ == as_flagged()(s@) { (s.id, s.txid.unwrap()) },
            Ghost(flagged_dead(now)),
            Ghost(as_flagged()),
        );
        sort_rows(
            rows,
            |a: &(i64, [u8; 32]), b: &(i64, [u8; 32])| -> (r: bool) ensures r == (a@.0 <= b@.0) {
                a.0 <= b.0
            },
            Ghost(|a: (i64, Seq<u8>), b: (i64, Seq<u8>)| a.0 <= b.0),
        )
    }

    /// The splits that were broadcast and wait for their confirmation.
    pub fn broadcast_vault_utxo_splits(&self) -> (r: Vec<UnconfirmedBroadcastSplit>)
        ensures
            sorted_by(values(r@), |a: UnconfirmedSplitView, b: UnconfirmedSplitView| a.id <= b.id),
            values(r@).to_multiset() == select_rows(self@.splits, broadcast_split()).map_values(
                as_unconfirmed(),
            ).to_multiset(),
    {
        let rows = collect_where(
            &self.splits,
            |s: &VaultSplitRow| -> (b: bool) ensures b == broadcast_split()(s@) {
                matches!(s.state, SplitState::Broadcast) && s.txid.is_some()
            },
            |s: &VaultSplitRow| -> (x: UnconfirmedBroadcastSplit)
                requires s@.txid is Some
                ensures x@ == as_unconfirmed()(s@) {
                UnconfirmedBroadcastSplit {
                    id: s.id,
                    txid: s.txid.unwrap(),
                    signed_tx_hex: dup_text(&s.signed_tx_hex),
                }
            },
            Ghost(broadcast_split()),
            Ghost(as_unconfirmed()),
        );
        sort_rows(
            rows,
            |a: &UnconfirmedBroadcastSplit, b: &UnconfirmedBroadcastSplit| -> (r: bool)
                ensures r == (a@.id <= b@.id) { a.id <= b.id },
            Ghost(|a: UnconfirmedSplitView, b: UnconfirmedSplitView| a.id <= b.id),
        )
    }

    /// The splits that were not broadcast.
    pub fn pending_vault_utxo_splits(&self) -> (r: Vec<PendingVaultUtxoSplit>)
        ensures
            sorted_by(values(r@), |a: PendingSplitView, b: PendingSplitView| a.id <= b.id),
            values(r@).to_multiset() == select_rows(self@.splits, pending_split()).map_values(
                as_pending(),
            ).to_multiset(),
    {
        let rows = collect_where(
            &self.splits,
            |s: &VaultSplitRow| -> (b: bool) ensures b == pending_split()(s@) {
                matches!(s.state, SplitState::Built | SplitState::Signed)
            },
            |s: &VaultSplitRow| -> (x: PendingVaultUtxoSplit) ensures x@ == as_pending()(s@) {
                PendingVaultUtxoSplit {
                    id: s.id,
                    source_txid: s.source_txid,
                    source_vout: s.source_vout,
                    state: s.state,
                }
            },
            Ghost(pending_split()),
            Ghost(as_pending()),
        );
        sort_rows(
            rows,
            |a: &PendingVaultUtxoSplit, b: &PendingVaultUtxoSplit| -> (r: bool)
                ensures r == (a@.id <= b@.id) { a.id <= b.id },
            Ghost(|a: PendingSplitView, b: PendingSplitView| a.id <= b.id),
        )
    }
}

/// While a split of an output is under way, no payout can take that output and
/// no second split of it begins.
pub proof fn law_a_split_claims_its_source(
    l: LedgerView,
    source: CoinView,
    count: int,
    chunk_target: u64,
    fee: u64,
    unsigned_tx: Seq<char>,
    note: Seq<char>,
    now: i64,
    v: VaultUtxoView,
)
    requires
        l.begin_split_result(source) is Ok,
        at_outpoint(source.txid, source.vout)(v),
    ensures
        ({
            let m = l.split_begun(source, count, chunk_target, fee, unsigned_tx, note, now);
            &&& !m.spendable()(v)
            &&& m.begin_split_result(source) == Err::<i64, LedgerError>(
                LedgerError::VaultUtxoAlreadySplit { txid: source.txid, vout: source.vout },
            )
        }),
{
    let m = l.split_begun(source, count, chunk_target, fee, unsigned_tx, note, now);
    let k = l.splits.len() as int;
    assert(live_claim(source.txid, source.vout)(m.splits[k]));
    assert(live_split_of(source.txid, source.vout)(m.splits[k]));
    assert(any_row(m.splits, live_claim(source.txid, source.vout)));
    assert(any_row(m.splits, live_split_of(source.txid, source.vout)));
}

proof fn lemma_with_split(l: LedgerView, id: i64, row: VaultSplitView)
    requires
        l.split(id) is Some,
        row.id == id,
    ensures
        l.with_split(id, row).split(id) == Some(row),
        first_row(l.with_split(id, row).splits, split_by_id(id)) == first_row(
            l.splits,
            split_by_id(id),
        ),
{
    let p = split_by_id(id);
    let m = l.with_split(id, row);
    lemma_first_row_is_first(l.splits, p);
    let i = first_row(l.splits, p).unwrap();
    assert(is_first(m.splits, p, i)) by {
        assert forall|j: int| 0 <= j < i implies !p(#[trigger] m.splits[j]) by {
            assert(!p(l.splits[j]));
        }
    }
    lemma_first_row(m.splits, p, i);
}

/// Giving a split up twice is the same as once.
pub proof fn law_abandoning_is_done_once(
    l: LedgerView,
    id: i64,
    reason: Seq<char>,
    observed: Option<[u8; 32]>,
    now: i64,
    again: Seq<char>,
    observed_again: Option<[u8; 32]>,
    later: i64,
)
    requires
        l.abandon_split_result(id) is Ok,
    ensures
        ({
            let m = l.split_abandoned(id, reason, observed, now);
            &&& m.abandon_split_result(id) is Ok
            &&& m.split_abandoned(id, again, observed_again, later) == m
        }),
{
    let s = l.split(id).unwrap();
    let m = l.split_abandoned(id, reason, observed, now);
    lemma_first_row_is_first(l.splits, split_by_id(id));
    if s.state != SplitState::Abandoned {
        let txid = if s.txid is Some {
            s.txid
        } else {
            observed
        };
        let row = VaultSplitView {
            state: SplitState::Abandoned,
            abandoned_at: Some(now),
            abandon_reason: Some(reason),
            txid,
            ..s
        };
        lemma_with_split(l, id, row);
        assert(m.splits == l.with_split(id, row).splits);
    }
}

/// A confirmed split is final: it can be neither given up nor sent again.
pub proof fn law_a_confirmed_split_is_final(l: LedgerView, id: i64)
    requires
        l.split(id) matches Some(s) && s.state == SplitState::Confirmed,
    ensures
        l.abandon_split_result(id) is Err,
        l.send_split_result(id) is Err,
        l.readopt_split_result(id) is Err,
        l.sign_split_result(id) is Err,
{
}

proof fn lemma_chunks_there(
    rows: Seq<VaultUtxoView>,
    txid: [u8; 32],
    amounts: Seq<u64>,
    k: int,
    script: Seq<char>,
    now: i64,
    j: int,
)
    requires
        0 <= j < k,
    ensures
        any_row(
            with_chunks(rows, txid, amounts, k, script, now),
            at_outpoint(txid, j as u32),
        ),
    decreases k,
{
    let p = at_outpoint(txid, j as u32);
    let before = with_chunks(rows, txid, amounts, k - 1, script, now);
    let after = with_chunks(rows, txid, amounts, k, script, now);
    if j < k - 1 {
        lemma_chunks_there(rows, txid, amounts, k - 1, script, now, j);
        let i = choose|i: int| 0 <= i < before.len() && p(#[trigger] before[i]);
        assert(p(after[i]));
    } else if !any_row(before, p) {
        assert(p(after[before.len() as int]));
    }
}

proof fn lemma_chunks_settled(
    rows: Seq<VaultUtxoView>,
    txid: [u8; 32],
    amounts: Seq<u64>,
    k: int,
    script: Seq<char>,
    now: i64,
)
    requires
        forall|j: int| 0 <= j < k ==> any_row(rows, #[trigger] at_outpoint(txid, j as u32)),
    ensures
        with_chunks(rows, txid, amounts, k, script, now) == rows,
    decreases k,
{
    if k > 0 {
        lemma_chunks_settled(rows, txid, amounts, k - 1, script, now);
        assert(any_row(rows, at_outpoint(txid, (k - 1) as u32)));
    }
}

proof fn lemma_chunks_prefix(
    rows: Seq<VaultUtxoView>,
    txid: [u8; 32],
    amounts: Seq<u64>,
    k: int,
    script: Seq<char>,
    now: i64,
)
    ensures
        rows.len() <= with_chunks(rows, txid, amounts, k, script, now).len(),
        forall|i: int|
            0 <= i < rows.len() ==> #[trigger] with_chunks(rows, txid, amounts, k, script, now)[i]
                == rows[i],
    decreases k,
{
    if k > 0 {
        lemma_chunks_prefix(rows, txid, amounts, k - 1, script, now);
    }
}

/// Recording the same broadcast again changes nothing.
pub proof fn law_a_split_is_sent_once(
    l: LedgerView,
    id: i64,
    txid: [u8; 32],
    amounts: Seq<u64>,
    script: Seq<char>,
    now: i64,
    later: i64,
)
    requires
        l.send_split_result(id) is Ok,
    ensures
        ({
            let m = l.split_sent(id, txid, amounts, script, now);
            &&& m.send_split_result(id) is Ok
            &&& m.split_sent(id, txid, amounts, script, later) == m
        }),
{
    let s = l.split(id).unwrap();
    let v = l.utxo(s.source_txid, s.source_vout).unwrap();
    let row = VaultSplitView {
        state: SplitState::Broadcast,
        txid: Some(txid),
        broadcast_at: if s.broadcast_at is Some {
            s.broadcast_at
        } else {
            Some(now)
        },
        ..s
    };
    let p = at_outpoint(s.source_txid, s.source_vout);
    let n = amounts.len() as int;
    lemma_first_row_is_first(l.splits, split_by_id(id));
    lemma_first_row_is_first(l.vault_utxos, p);
    lemma_with_split(l, id, row);
    let i = first_row(l.vault_utxos, p).unwrap();
    let spent = l.vault_utxos.update(i, split_source(v, txid));
    let m = l.split_sent(id, txid, amounts, script, now);
    assert(m.vault_utxos == with_chunks(spent, txid, amounts, n, script, now));
    lemma_chunks_prefix(spent, txid, amounts, n, script, now);
    assert(is_first(m.vault_utxos, p, i)) by {
        assert forall|j: int| 0 <= j < i implies !p(#[trigger] m.vault_utxos[j]) by {
            assert(m.vault_utxos[j] == spent[j]);
            assert(!p(l.vault_utxos[j]));
        }
        assert(m.vault_utxos[i] == spent[i]);
    }
    lemma_first_row(m.vault_utxos, p, i);
    assert(m.splits == l.with_split(id, row).splits);
    assert(m.split(id) == Some(row));
    let w = m.utxo(s.source_txid, s.source_vout).unwrap();
    assert(w == split_source(v, txid));
    assert(split_source(w, txid) == w);
    assert forall|j: int| 0 <= j < n implies any_row(
        m.vault_utxos,
        #[trigger] at_outpoint(txid, j as u32),
    ) by {
        lemma_chunks_there(spent, txid, amounts, n, script, now, j);
    }
    assert(m.vault_utxos.update(i, w) =~= m.vault_utxos);
    lemma_chunks_settled(m.vault_utxos, txid, amounts, n, script, later);
    let row2 = VaultSplitView {
        state: SplitState::Broadcast,
        txid: Some(txid),
        broadcast_at: row.broadcast_at,
        ..row
    };
    assert(row2 == row);
    let k = first_row(m.splits, split_by_id(id)).unwrap();
    assert(m.splits.update(k, row) =~= m.splits);
}

proof fn lemma_new_chunks(
    rows: Seq<VaultUtxoView>,
    txid: [u8; 32],
    amounts: Seq<u64>,
    k: int,
    script: Seq<char>,
    now: i64,
)
    requires
        0 <= k <= amounts.len() <= u32::MAX,
        forall|i: int| 0 <= i < rows.len() ==> (#[trigger] rows[i]).txid != txid,
    ensures
        with_chunks(rows, txid, amounts, k, script, now) == rows + Seq::new(
            k as nat,
            |i: int| chunk(txid, i as u32, amounts[i] as i64, script, now),
        ),
    decreases k,
{
    let added = |i: int| chunk(txid, i as u32, amounts[i] as i64, script, now);
    if k <= 0 {
        assert(rows + Seq::new(0, added) =~= rows);
    } else {
        lemma_new_chunks(rows, txid, amounts, k - 1, script, now);
        let before = with_chunks(rows, txid, amounts, k - 1, script, now);
        let p = at_outpoint(txid, (k - 1) as u32);
        if any_row(before, p) {
            let i = choose|i: int| 0 <= i < before.len() && p(#[trigger] before[i]);
            if i < rows.len() {
                assert(before[i] == rows[i]);
            } else {
                assert(before[i] == added(i - rows.len()));
            }
        }
        assert(before.push(added(k - 1)) =~= rows + Seq::new(k as nat, added));
    }
}

/// Recording that a signed split was sent spends its source for good, also one
/// that only left the node's view, and adds exactly the outputs of its transaction, which is new to the vault, none of
/// them confirmed. Recording it again changes nothing.
pub proof fn law_a_sent_split_records_its_outputs(
    l: LedgerView,
    id: i64,
    txid: [u8; 32],
    amounts: Seq<u64>,
    script: Seq<char>,
    now: i64,
    later: i64,
)
    requires
        l.split(id) matches Some(s) && s.state == SplitState::Signed && (l.utxo(
            s.source_txid,
            s.source_vout,
        ) matches Some(v) && (v.state == VaultUtxoState::Available || (v.state
            == VaultUtxoState::Spent && v.spent_by_txid is None))),
        forall|i: int| 0 <= i < l.vault_utxos.len() ==> (#[trigger] l.vault_utxos[i]).txid != txid,
        amounts.len() <= u32::MAX,
    ensures
        l.send_split_result(id) == Ok::<(), LedgerError>(()),
        ({
            let s = l.split(id).unwrap();
            let at = first_row(l.vault_utxos, at_outpoint(s.source_txid, s.source_vout)).unwrap();
            let m = l.split_sent(id, txid, amounts, script, now);
            &&& m.split(id) matches Some(t) && t.state == SplitState::Broadcast && t.txid == Some(
                txid,
            )
            &&& m.vault_utxos == l.vault_utxos.update(
                at,
                VaultUtxoView {
                    state: VaultUtxoState::Spent,
                    spent_by_txid: Some(txid),
                    ..l.vault_utxos[at]
                },
            ) + Seq::new(
                amounts.len(),
                |i: int| chunk(txid, i as u32, amounts[i] as i64, script, now),
            )
            &&& m.send_split_result(id) == Ok::<(), LedgerError>(())
            &&& m.split_sent(id, txid, amounts, script, later) == m
        }),
{
    let s = l.split(id).unwrap();
    let v = l.utxo(s.source_txid, s.source_vout).unwrap();
    let p = at_outpoint(s.source_txid, s.source_vout);
    lemma_first_row_is_first(l.splits, split_by_id(id));
    lemma_first_row_is_first(l.vault_utxos, p);
    let at = first_row(l.vault_utxos, p).unwrap();
    let row = VaultSplitView {
        state: SplitState::Broadcast,
        txid: Some(txid),
        broadcast_at: if s.broadcast_at is Some {
            s.broadcast_at
        } else {
            Some(now)
        },
        ..s
    };
    lemma_with_split(l, id, row);
    let m = l.split_sent(id, txid, amounts, script, now);
    assert(m.splits == l.with_split(id, row).splits);
    assert(m.split(id) == Some(row));
    let spent = l.vault_utxos.update(at, split_source(v, txid));
    assert forall|i: int| 0 <= i < spent.len() implies (#[trigger] spent[i]).txid != txid by {
        assert(l.vault_utxos[i].txid != txid);
    }
    lemma_new_chunks(spent, txid, amounts, amounts.len() as int, script, now);
    law_a_split_is_sent_once(l, id, txid, amounts, script, now, later);
}

} // verus!
