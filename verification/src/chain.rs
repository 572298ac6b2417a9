//! What was seen of the chains, and what is undone when a block is orphaned.
use vstd::prelude::*;
use crate::error::LedgerError;
use crate::finality::unsighted;
use crate::json::{number_list, render_numbers};
use crate::ledger::{
    ChainIndexView, Ledger, LedgerView, by_id, lemma_request_id, lemma_with_request,
};
use crate::rows::{
    BridgeRequest, IndexedBlockRow, IndexedBlockView, PostFinalityReorgRow,
    PostFinalityReorgView, ReorgEventRow, ReorgEventView, RequestView, UnmatchedDepositRow,
    UnmatchedDepositView, VaultSplitRow,
};
use crate::splits::sent_split;
use crate::table::{
    any_row, any_where, collect_where, concat, decimal, decimal_i64, decimal_u64, eq32,
    find_where, first_row, is32, is_first, lemma_first_row, lemma_first_row_is_first,
    lemma_selected, max_rows, max_where, select_rows, values,
};
use crate::types::{RequestState, ReserveDirection, SplitState};

verus! {

/// What became of an unmatched deposit that was looked at again.
#[derive(Clone, Copy, Debug, PartialEq, Eq, Structural)]
pub enum ReconcileUnmatchedDepositOutcome {
    Reconciled,
    AlreadyReconciled,
}

/// The indexed block at this height.
pub open spec fn at_height(height: i64) -> spec_fn(IndexedBlockView) -> bool {
    |b: IndexedBlockView| b.height == height
}

/// An indexed block at this height or below.
pub open spec fn up_to(height: i64) -> spec_fn(IndexedBlockView) -> bool {
    |b: IndexedBlockView| b.height <= height
}

/// A request whose deposit is not final and lies above this height.
pub open spec fn orphaned(height: i64) -> spec_fn(RequestView) -> bool {
    |q: RequestView|
        {
            &&& q.direction.spec_source_is_goldcoin()
            &&& q.state == RequestState::DepositObserved || q.state == RequestState::Confirming
            &&& q.source_block_height matches Some(h) && h > height
        }
}

/// A request whose deposit was taken for final and lies above this height.
pub open spec fn orphaned_late(height: i64) -> spec_fn(RequestView) -> bool {
    |q: RequestView|
        {
            &&& q.direction.spec_source_is_goldcoin()
            &&& q.source_finalized_at is Some
            &&& q.source_block_height matches Some(h) && h > height
        }
}

/// The number of a request.
pub open spec fn id_of() -> spec_fn(RequestView) -> i64 {
    |q: RequestView| q.id
}

/// An unmatched deposit at this outpoint.
pub open spec fn unmatched_at(txid: [u8; 32], vout: u32) -> spec_fn(UnmatchedDepositView) -> bool {
    |d: UnmatchedDepositView| d.txid == txid && d.vout == vout
}

/// Why both reserves are paused after a final deposit was orphaned.
pub open spec fn orphaned_late_reason(fork_height: i64, old_tip: i64, count: int, event: i64) -> Seq<
    char,
> {
    "post-finality Goldcoin reorg detected: fork_height="@ + decimal(fork_height as int)
        + " (old tip "@ + decimal(old_tip as int) + "), "@ + decimal(count)
        + " already-finalized request(s) affected — see post_finality_reorg_events #"@ + decimal(
        event as int,
    )
}

impl LedgerView {
    /// The ledger with another index of the chains.
    pub open spec fn with_chain(self, chain: ChainIndexView) -> LedgerView {
        LedgerView { chain, ..self }
    }

    /// The indexed block at this height.
    pub open spec fn block_at(self, height: i64) -> Option<IndexedBlockView> {
        match first_row(self.chain.blocks, at_height(height)) {
            Some(i) => Some(self.chain.blocks[i]),
            None => None,
        }
    }

    /// The highest indexed block: its height and hash.
    pub open spec fn tip(self) -> Option<(i64, [u8; 32])> {
        match max_rows(self.chain.blocks, |b: IndexedBlockView| true, |b: IndexedBlockView| b.height) {
            Some(h) => match self.block_at(h) {
                Some(b) => Some((h, b.hash)),
                None => None,
            },
            None => None,
        }
    }

    /// The ledger with a block in its index, in the place of one at the same
    /// height.
    pub open spec fn with_block(self, b: IndexedBlockView) -> LedgerView {
        let blocks = match first_row(self.chain.blocks, at_height(b.height)) {
            Some(i) => self.chain.blocks.update(i, b),
            None => self.chain.blocks.push(b),
        };
        self.with_chain(ChainIndexView { blocks, ..self.chain })
    }

    /// The requests whose deposits are orphaned by a fork at this height.
    pub open spec fn orphans(self, height: i64) -> Seq<i64> {
        select_rows(self.requests, orphaned(height)).map_values(id_of())
    }

    /// The ledger after the deposits of the first `k` of these requests were
    /// orphaned.
    pub open spec fn reorged_all(self, ids: Seq<i64>, k: int, now: i64) -> LedgerView
        decreases k,
    {
        if k <= 0 {
            self
        } else {
            let l = self.reorged_all(ids, k - 1, now);
            if l.request(ids[k - 1]) is Some {
                l.reorged(ids[k - 1], now)
            } else {
                l
            }
        }
    }

    /// The ledger after the chain was rolled back to this height.
    pub open spec fn rolled_back(
        self,
        fork_height: i64,
        fork_hash: [u8; 32],
        old_tip_height: i64,
        old_tip_hash: [u8; 32],
        now: i64,
    ) -> LedgerView {
        let ids = self.orphans(fork_height);
        let l = self.reorged_all(ids, ids.len() as int, now);
        l.with_chain(
            ChainIndexView {
                blocks: select_rows(self.chain.blocks, up_to(fork_height)),
                reorgs: self.chain.reorgs.push(
                    ReorgEventView {
                        detected_at: now,
                        fork_height,
                        old_tip_height,
                        old_tip_hash,
                        new_tip_height: fork_height,
                        new_tip_hash: fork_hash,
                        orphaned_count: ids.len() as i64,
                    },
                ),
                ..self.chain
            },
        )
    }

    /// The ledger with the record of a final deposit that was orphaned.
    pub open spec fn with_late_orphans(self, fork_height: i64, old_tip: i64, ids: Seq<i64>, now: i64) -> LedgerView {
        self.with_chain(
            ChainIndexView {
                post_finality: self.chain.post_finality.push(
                    PostFinalityReorgView {
                        detected_at: now,
                        fork_height,
                        old_tip_height: old_tip,
                        affected_request_ids: number_list(ids),
                        auto_paused: true,
                    },
                ),
                ..self.chain
            },
        )
    }

    /// The unmatched deposit at this outpoint.
    pub open spec fn unmatched(self, txid: [u8; 32], vout: u32) -> Option<UnmatchedDepositView> {
        match first_row(self.chain.unmatched, unmatched_at(txid, vout)) {
            Some(i) => Some(self.chain.unmatched[i]),
            None => None,
        }
    }

    /// What comes of an unmatched deposit that is looked at again: it is
    /// explained if it is the output of a split with the amount that the split
    /// gave it.
    pub open spec fn reconcile_result(
        self,
        txid: [u8; 32],
        vout: u32,
        expected_amount: Option<u64>,
    ) -> Result<ReconcileUnmatchedDepositOutcome, LedgerError> {
        match self.unmatched(txid, vout) {
            None => Err(LedgerError::UnmatchedDepositNotFound { txid, vout }),
            Some(d) => if d.reconciled_at is Some {
                Ok(ReconcileUnmatchedDepositOutcome::AlreadyReconciled)
            } else if any_row(self.splits, sent_split(txid)) && expected_amount == Some(
                d.amount_atomic as u64,
            ) {
                Ok(ReconcileUnmatchedDepositOutcome::Reconciled)
            } else {
                Err(LedgerError::UnmatchedDepositNotAKnownSplitOutput { txid, vout })
            },
        }
    }

    /// The ledger after an unmatched deposit was explained.
    pub open spec fn reconciled(self, txid: [u8; 32], vout: u32, note: Seq<char>, now: i64) -> LedgerView {
        match first_row(self.chain.unmatched, unmatched_at(txid, vout)) {
            Some(i) => self.with_chain(
                ChainIndexView {
                    unmatched: self.chain.unmatched.update(
                        i,
                        UnmatchedDepositView {
                            reconciled_at: Some(now),
                            reconciliation_note: Some(note),
                            ..self.chain.unmatched[i]
                        },
                    ),
                    ..self.chain
                },
            ),
            None => self,
        }
    }
}

impl Ledger {
    fn find_block(&self, height: i64) -> (r: Option<usize>)
        ensures
            match r {
                Some(i) => {
                    &&& i < self.chain.blocks@.len()
                    &&& first_row(self@.chain.blocks, at_height(height)) == Some(i as int)
                    &&& self@.block_at(height) == Some(self.chain.blocks@[i as int]@)
                },
                None => self@.block_at(height) is None && first_row(
                    self@.chain.blocks,
                    at_height(height),
                ) is None,
            },
    {
        find_where(
            &self.chain.blocks,
            |b: &IndexedBlockRow| -> (r: bool) ensures r == at_height(height)(b@) {
                b.height == height
            },
            Ghost(at_height(height)),
        )
    }

    /// The highest indexed block: its height and hash.
    pub fn goldcoin_chain_tip(&self) -> (r: Option<(i64, [u8; 32])>)
        ensures
            r == self@.tip(),
    {
        let best = max_where(
            &self.chain.blocks,
            |b: &IndexedBlockRow| -> (r: bool) ensures r { true },
            |b: &IndexedBlockRow| -> (h: i64) ensures h == b@.height { b.height },
            Ghost(|b: IndexedBlockView| true),
            Ghost(|b: IndexedBlockView| b.height),
        );
        match best {
            Some(h) => match self.find_block(h) {
                Some(i) => Some((h, self.chain.blocks[i].hash)),
                None => None,
            },
            None => None,
        }
    }

    /// The hash of the indexed block at this height.
    pub fn goldcoin_block_hash_at(&self, height: i64) -> (r: Option<[u8; 32]>)
        ensures
            r == (match self@.block_at(height) {
                Some(b) => Some(b.hash),
                None => None,
            }),
    {
        match self.find_block(height) {
            Some(i) => Some(self.chain.blocks[i].hash),
            None => None,
        }
    }

    /// Indexes a block, in the place of one at the same height.
    pub fn goldcoin_ingest_block(
        &mut self,
        height: i64,
        hash: [u8; 32],
        prev_hash: [u8; 32],
        block_time: i64,
        now: i64,
    )
        ensures
            final(self)@ == old(self)@.with_block(
                IndexedBlockView { height, hash, prev_hash, block_time, indexed_at: now },
            ),
    {
        let ghost l0 = self@;
        let row = IndexedBlockRow { height, hash, prev_hash, block_time, indexed_at: now };
        let ghost v = row@;
        match self.find_block(height) {
            Some(i) => {
                self.chain.blocks[i] = row;
                proof {
                    assert(self@.chain.blocks =~= l0.chain.blocks.update(i as int, v));
                }
            },
            None => {
                self.chain.blocks.push(row);
                proof {
                    assert(self@.chain.blocks =~= l0.chain.blocks.push(v));
                }
            },
        }
    }

    fn orphan_ids(&self, height: i64) -> (r: Vec<i64>)
        ensures
            r@ == self@.orphans(height),
    {
        let r: Vec<i64> = collect_where(
            &self.requests,
            |q: &BridgeRequest| -> (b: bool) ensures b == orphaned(height)(q@) {
                q.direction.source_is_goldcoin() && matches!(
                    q.state,
                    RequestState::DepositObserved | RequestState::Confirming
                ) && match q.source_block_height {
                    Some(h) => h > height,
                    None => false,
                }
            },
            |q: &BridgeRequest| -> (n: i64) ensures n == id_of()(q@) { q.id },
            Ghost(orphaned(height)),
            Ghost(id_of()),
        );
        proof {
            assert(values(r@) =~= r@);
        }
        r
    }

    fn drop_blocks_above(&mut self, height: i64)
        ensures
            final(self)@ == old(self)@.with_chain(
                ChainIndexView {
                    blocks: select_rows(old(self)@.chain.blocks, up_to(height)),
                    ..old(self)@.chain
                },
            ),
    {
        let kept = collect_where(
            &self.chain.blocks,
            |b: &IndexedBlockRow| -> (r: bool) ensures r == up_to(height)(b@) {
                b.height <= height
            },
            |b: &IndexedBlockRow| -> (d: IndexedBlockRow) ensures d@ == b@ { b.clone() },
            Ghost(up_to(height)),
            Ghost(|b: IndexedBlockView| b),
        );
        proof {
            let sel = select_rows(self@.chain.blocks, up_to(height));
            assert(sel.map_values(|b: IndexedBlockView| b) =~= sel);
        }
        self.chain.blocks = kept;
    }

    /// Rolls the chain back to a fork: the requests whose deposits were seen
    /// above it and were not final wait for them again. Returns how many.
    pub fn goldcoin_rollback_reorg(
        &mut self,
        fork_height: i64,
        fork_hash: [u8; 32],
        old_tip_height: i64,
        old_tip_hash: [u8; 32],
        now: i64,
    ) -> (r: i64)
        ensures
            r == old(self)@.orphans(fork_height).len() as i64,
            final(self)@ == old(self)@.rolled_back(
                fork_height,
                fork_hash,
                old_tip_height,
                old_tip_hash,
                now,
            ),
    {
        let ghost l0 = self@;
        let ids = self.orphan_ids(fork_height);
        let mut k: usize = 0;
        while k < ids.len()
            invariant
                k <= ids@.len(),
                self@ == l0.reorged_all(ids@, k as int, now),
            decreases ids@.len() - k,
        {
            match self.find_request(ids[k]) {
                Some(i) => self.unsight(ids[k], i, now),
                None => {},
            }
            k = k + 1;
        }
        proof {
            lemma_reorged_all_keeps(l0, ids@, ids@.len() as int, now);
        }
        self.drop_blocks_above(fork_height);
        let n: usize = ids.len();
        let row = ReorgEventRow {
            detected_at: now,
            fork_height,
            old_tip_height,
            old_tip_hash,
            new_tip_height: fork_height,
            new_tip_hash: fork_hash,
            orphaned_count: n as i64,
        };
        let ghost v = row@;
        let ghost before = self@.chain.reorgs;
        self.chain.reorgs.push(row);
        proof {
            assert(self@.chain.reorgs =~= before.push(v));
        }
        n as i64
    }

    /// The requests whose deposits were taken for final and lie above this
    /// height.
    pub fn detect_post_finality_reorg(&self, fork_height: i64) -> (r: Vec<i64>)
        ensures
            r@ == select_rows(self@.requests, orphaned_late(fork_height)).map_values(id_of()),
    {
        let r: Vec<i64> = collect_where(
            &self.requests,
            |q: &BridgeRequest| -> (b: bool) ensures b == orphaned_late(fork_height)(q@) {
                q.direction.source_is_goldcoin() && q.source_finalized_at.is_some()
                    && match q.source_block_height {
                    Some(h) => h > fork_height,
                    None => false,
                }
            },
            |q: &BridgeRequest| -> (n: i64) ensures n == id_of()(q@) { q.id },
            Ghost(orphaned_late(fork_height)),
            Ghost(id_of()),
        );
        proof {
            assert(values(r@) =~= r@);
        }
        r
    }

    fn late_reason(fork_height: i64, old_tip: i64, count: u64, event: i64) -> (r: String)
        ensures
            r@ == orphaned_late_reason(fork_height, old_tip, count as int, event),
    {
        let a = decimal_i64(fork_height);
        let s = concat("post-finality Goldcoin reorg detected: fork_height=", a.as_str());
        let s = concat(s.as_str(), " (old tip ");
        let b = decimal_i64(old_tip);
        let s = concat(s.as_str(), b.as_str());
        let s = concat(s.as_str(), "), ");
        let c = decimal_u64(count);
        let s = concat(s.as_str(), c.as_str());
        let s = concat(
            s.as_str(),
            " already-finalized request(s) affected — see post_finality_reorg_events #",
        );
        let d = decimal_i64(event);
        concat(s.as_str(), d.as_str())
    }

    /// Records that final deposits were orphaned, and pauses both reserves
    /// that they concern. Returns the number of the record.
    pub fn record_post_finality_reorg(
        &mut self,
        fork_height: i64,
        old_tip_height: i64,
        affected_request_ids: &Vec<i64>,
        now: i64,
    ) -> (r: Result<i64, LedgerError>)
        ensures
            ({
                let event = (old(self)@.chain.post_finality.len() + 1) as i64;
                let why = Some(
                    orphaned_late_reason(
                        fork_height,
                        old_tip_height,
                        affected_request_ids@.len() as int,
                        event,
                    ),
                );
                let l1 = old(self)@.with_late_orphans(
                    fork_height,
                    old_tip_height,
                    affected_request_ids@,
                    now,
                );
                let l2 = l1.with_pause(ReserveDirection::GoldcoinReserve, true, why);
                let l3 = l2.with_pause(ReserveDirection::SolanaReserve, true, why);
                if old(self)@.reserves.row(ReserveDirection::GoldcoinReserve) is None {
                    r == Err::<i64, LedgerError>(
                        LedgerError::ReserveNotInitialized(ReserveDirection::GoldcoinReserve),
                    ) && final(self)@ == old(self)@
                } else if old(self)@.reserves.row(ReserveDirection::SolanaReserve) is None {
                    r == Err::<i64, LedgerError>(
                        LedgerError::ReserveNotInitialized(ReserveDirection::SolanaReserve),
                    ) && final(self)@ == old(self)@
                } else {
                    r == Ok::<i64, LedgerError>(event) && final(self)@ == l3
                }
            }),
    {
        let ghost l0 = self@;
        if self.reserves.goldcoin.is_none() {
            return Err(LedgerError::ReserveNotInitialized(ReserveDirection::GoldcoinReserve));
        }
        if self.reserves.solana.is_none() {
            return Err(LedgerError::ReserveNotInitialized(ReserveDirection::SolanaReserve));
        }
        let ids = render_numbers(affected_request_ids);
        let row = PostFinalityReorgRow {
            detected_at: now,
            fork_height,
            old_tip_height,
            affected_request_ids: ids,
            auto_paused: true,
        };
        let ghost v = row@;
        self.chain.post_finality.push(row);
        proof {
            assert(self@.chain.post_finality =~= l0.chain.post_finality.push(v));
        }
        let n: usize = self.chain.post_finality.len();
        let event = n as i64;
        let count: usize = affected_request_ids.len();
        let why = Self::late_reason(fork_height, old_tip_height, count as u64, event);
        let _ = self.set_paused(ReserveDirection::GoldcoinReserve, true, Some(why.as_str()));
        let _ = self.set_paused(ReserveDirection::SolanaReserve, true, Some(why.as_str()));
        Ok(event)
    }

    /// How often final deposits were orphaned.
    pub fn post_finality_reorg_event_count(&self) -> (r: i64)
        ensures
            r == self@.chain.post_finality.len() as i64,
    {
        let n: usize = self.chain.post_finality.len();
        n as i64
    }

    /// How often the chain was rolled back.
    pub fn goldcoin_reorg_event_count(&self) -> (r: i64)
        ensures
            r == self@.chain.reorgs.len() as i64,
    {
        let n: usize = self.chain.reorgs.len();
        n as i64
    }

    fn find_unmatched(&self, txid: &[u8; 32], vout: u32) -> (r: Option<usize>)
        ensures
            match r {
                Some(i) => {
                    &&& i < self.chain.unmatched@.len()
                    &&& first_row(self@.chain.unmatched, unmatched_at(*txid, vout)) == Some(
                        i as int,
                    )
                    &&& self@.unmatched(*txid, vout) == Some(self.chain.unmatched@[i as int]@)
                    &&& any_row(self@.chain.unmatched, unmatched_at(*txid, vout))
                },
                None => self@.unmatched(*txid, vout) is None && first_row(
                    self@.chain.unmatched,
                    unmatched_at(*txid, vout),
                ) is None && !any_row(self@.chain.unmatched, unmatched_at(*txid, vout)),
            },
    {
        find_where(
            &self.chain.unmatched,
            |d: &UnmatchedDepositRow| -> (r: bool) ensures r == unmatched_at(*txid, vout)(d@) {
                eq32(&d.txid, txid) && d.vout == vout
            },
            Ghost(unmatched_at(*txid, vout)),
        )
    }

    /// Keeps a payment to the vault that matches no request. One that is
    /// already kept stays as it is.
    pub fn record_unmatched_goldcoin_deposit(
        &mut self,
        txid: [u8; 32],
        vout: u32,
        amount_atomic: u64,
        block_height: i64,
        reason: &str,
        now: i64,
    )
        ensures
            final(self)@ == (if any_row(old(self)@.chain.unmatched, unmatched_at(txid, vout)) {
                old(self)@
            } else {
                old(self)@.with_chain(
                    ChainIndexView {
                        unmatched: old(self)@.chain.unmatched.push(
                            UnmatchedDepositView {
                                txid,
                                vout,
                                amount_atomic: amount_atomic as i64,
                                block_height,
                                reason: reason@,
                                discovered_at: now,
                                reconciled_at: None,
                                reconciliation_note: None,
                            },
                        ),
                        ..old(self)@.chain
                    },
                )
            }),
    {
        if self.find_unmatched(&txid, vout).is_some() {
            return ;
        }
        let ghost l0 = self@;
        let row = UnmatchedDepositRow {
            txid,
            vout,
            amount_atomic: amount_atomic as i64,
            block_height,
            reason: reason.to_owned(),
            discovered_at: now,
            reconciled_at: None,
            reconciliation_note: None,
        };
        let ghost v = row@;
        self.chain.unmatched.push(row);
        proof {
            assert(self@.chain.unmatched =~= l0.chain.unmatched.push(v));
        }
    }

    /// Looks at an unmatched deposit again. `expected_amount` is what the split
    /// with this transaction gave its output `vout`, if it has one.
    pub fn reconcile_unmatched_goldcoin_deposit(
        &mut self,
        txid: [u8; 32],
        vout: u32,
        expected_amount: Option<u64>,
        note: &str,
        now: i64,
    ) -> (r: Result<ReconcileUnmatchedDepositOutcome, LedgerError>)
        ensures
            r == old(self)@.reconcile_result(txid, vout, expected_amount),
            final(self)@ == (if r == Ok::<ReconcileUnmatchedDepositOutcome, LedgerError>(
                ReconcileUnmatchedDepositOutcome::Reconciled,
            ) {
                old(self)@.reconciled(txid, vout, note@, now)
            } else {
                old(self)@
            }),
    {
        let i = match self.find_unmatched(&txid, vout) {
            Some(i) => i,
            None => {
                return Err(LedgerError::UnmatchedDepositNotFound { txid, vout });
            },
        };
        if self.chain.unmatched[i].reconciled_at.is_some() {
            return Ok(ReconcileUnmatchedDepositOutcome::AlreadyReconciled);
        }
        let known = any_where(
            &self.splits,
            |s: &VaultSplitRow| -> (b: bool) ensures b == sent_split(txid)(s@) {
                is32(&s.txid, &txid) && matches!(
                    s.state,
                    SplitState::Broadcast | SplitState::Confirmed
                )
            },
            Ghost(sent_split(txid)),
        );
        let amount = self.chain.unmatched[i].amount_atomic as u64;
        if !known || expected_amount != Some(amount) {
            return Err(LedgerError::UnmatchedDepositNotAKnownSplitOutput { txid, vout });
        }
        let ghost l0 = self@;
        self.chain.unmatched[i].reconciled_at = Some(now);
        self.chain.unmatched[i].reconciliation_note = Some(note.to_owned());
        proof {
            assert(self@.chain.unmatched =~= l0.chain.unmatched.update(
                i as int,
                UnmatchedDepositView {
                    reconciled_at: Some(now),
                    reconciliation_note: Some(note@),
                    ..l0.chain.unmatched[i as int]
                },
            ));
        }
        Ok(ReconcileUnmatchedDepositOutcome::Reconciled)
    }

    /// How many Solana obligations were synced.
    pub fn last_synced_obligation_count(&self) -> (r: u64)
        ensures
            r == (match self@.chain.obligation_count {
                Some(n) => n,
                None => 0,
            }),
    {
        match self.chain.obligation_count {
            Some(n) => n,
            None => 0,
        }
    }

    /// Records how many Solana obligations were synced, and at which slot.
    pub fn set_last_synced_obligation_count(&mut self, count: u64, slot: u64, now: i64)
        ensures
            final(self)@ == old(self)@.with_chain(
                ChainIndexView {
                    obligation_count: Some(count),
                    obligation_slot: Some(slot),
                    obligation_synced_at: Some(now),
                    ..old(self)@.chain
                },
            ),
    {
        self.chain.obligation_count = Some(count);
        self.chain.obligation_slot = Some(slot);
        self.chain.obligation_synced_at = Some(now);
    }
}

proof fn lemma_reorged_all_keeps(l: LedgerView, ids: Seq<i64>, k: int, now: i64)
    ensures
        l.reorged_all(ids, k, now).chain == l.chain,
        l.reorged_all(ids, k, now).reserves == l.reserves,
    decreases k,
{
    if k > 0 {
        lemma_reorged_all_keeps(l, ids, k - 1, now);
    }
}

proof fn lemma_reorged_all_spares(l: LedgerView, ids: Seq<i64>, k: int, now: i64, id: i64)
    requires
        forall|j: int| 0 <= j < k ==> #[trigger] ids[j] != id,
    ensures
        l.reorged_all(ids, k, now).request(id) == l.request(id),
    decreases k,
{
    if k > 0 {
        lemma_reorged_all_spares(l, ids, k - 1, now, id);
        let m = l.reorged_all(ids, k - 1, now);
        let other = ids[k - 1];
        if m.request(other) is Some {
            lemma_request_id(m, other);
            let q = m.request(other).unwrap();
            lemma_with_request(m, other, unsighted(q));
            assert(m.reorged(other, now).requests == m.with_request(
                other,
                unsighted(q),
            ).requests);
            assert(m.with_request(other, unsighted(q)).request(id) == m.request(id));
        }
    }
}

/// Rolling the chain back changes no reserve, and no request but those whose
/// deposits were seen above the fork and were not final.
pub proof fn law_rollback_spares_the_rest(
    l: LedgerView,
    fork_height: i64,
    fork_hash: [u8; 32],
    old_tip_height: i64,
    old_tip_hash: [u8; 32],
    now: i64,
    id: i64,
)
    requires
        l.numbered(),
        l.request(id) matches Some(q) && !orphaned(fork_height)(q),
    ensures
        ({
            let m = l.rolled_back(fork_height, fork_hash, old_tip_height, old_tip_hash, now);
            &&& m.reserves == l.reserves
            &&& m.request(id) == l.request(id)
        }),
{
    let p = orphaned(fork_height);
    let sel = select_rows(l.requests, p);
    let ids = l.orphans(fork_height);
    lemma_first_row_is_first(l.requests, by_id(id));
    let at = l.pos(id).unwrap();
    assert forall|j: int| 0 <= j < ids.len() implies #[trigger] ids[j] != id by {
        lemma_selected(l.requests, p, j);
        let i = choose|i: int| 0 <= i < l.requests.len() && #[trigger] l.requests[i] == sel[j];
        if ids[j] == id {
            assert(l.requests[i].id == id && l.requests[at].id == id);
            assert(i == at);
        }
    }
    lemma_reorged_all_spares(l, ids, ids.len() as int, now, id);
    lemma_reorged_all_keeps(l, ids, ids.len() as int, now);
}

/// After a rollback the index holds no block above the fork.
pub proof fn law_rollback_forgets_orphaned_blocks(
    l: LedgerView,
    fork_height: i64,
    fork_hash: [u8; 32],
    old_tip_height: i64,
    old_tip_hash: [u8; 32],
    now: i64,
    height: i64,
)
    requires
        height > fork_height,
    ensures
        l.rolled_back(
            fork_height,
            fork_hash,
            old_tip_height,
            old_tip_hash,
            now,
        ).block_at(height) is None,
{
    let m = l.rolled_back(fork_height, fork_hash, old_tip_height, old_tip_hash, now);
    lemma_first_row_is_first(m.chain.blocks, at_height(height));
    if m.block_at(height) is Some {
        let i = first_row(m.chain.blocks, at_height(height)).unwrap();
        lemma_selected(l.chain.blocks, up_to(fork_height), i);
    }
}

/// A block that was indexed is what is read back at its height.
pub proof fn law_an_indexed_block_is_read_back(l: LedgerView, b: IndexedBlockView)
    ensures
        l.with_block(b).block_at(b.height) == Some(b),
{
    let p = at_height(b.height);
    let m = l.with_block(b);
    lemma_first_row_is_first(l.chain.blocks, p);
    let i = match first_row(l.chain.blocks, p) {
        Some(i) => i,
        None => l.chain.blocks.len() as int,
    };
    assert(is_first(m.chain.blocks, p, i)) by {
        assert forall|j: int| 0 <= j < i implies !p(#[trigger] m.chain.blocks[j]) by {
            assert(!p(l.chain.blocks[j]));
        }
    }
    lemma_first_row(m.chain.blocks, p, i);
}

} // verus!
