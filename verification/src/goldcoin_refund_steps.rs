//! A Goldcoin refund from its signature to its confirmation.
use vstd::prelude::*;
use crate::error::{GlcRefundRefusal, LedgerError};
use crate::goldcoin_refund::glc_refused;
use crate::holds::glc_refund_for;
use crate::ledger::{Ledger, LedgerView, step_because};
use crate::rows::{
    GoldcoinRefundRow, GoldcoinRefundView, LogEntry, RefundInputRow, RefundInputView, RequestView,
    VaultUtxoEntry, VaultUtxoView,
};
use crate::table::{
    any_row, any_where, collect_where, eq32, first_row, is_first, lemma_first_row,
    lemma_first_row_is_first, select_rows, sort_rows, sorted_by, values,
};
use crate::types::{GoldcoinRefundState, RequestState, ReserveDirection, VaultUtxoState};

verus! {

/// An input of a request's refund from this transaction.
pub open spec fn input_txid(id: i64, txid: [u8; 32]) -> spec_fn(RefundInputView) -> bool {
    |x: RefundInputView| x.request_id == id && x.txid == txid
}

/// An input of a request's refund with this output number.
pub open spec fn input_vout(id: i64, vout: u32) -> spec_fn(RefundInputView) -> bool {
    |x: RefundInputView| x.request_id == id && x.vout == vout
}

impl LedgerView {
    /// What a broadcast refund makes of an output: one that was reserved for
    /// it is spent.
    pub open spec fn spent_by_refund(self, id: i64, txid: [u8; 32]) -> spec_fn(
        VaultUtxoView,
    ) -> VaultUtxoView {
        |v: VaultUtxoView|
            if any_row(self.refund_inputs, input_txid(id, v.txid)) && any_row(
                self.refund_inputs,
                input_vout(id, v.vout),
            ) && v.reserved_by == Some(id) {
                VaultUtxoView { state: VaultUtxoState::Spent, spent_by_txid: Some(txid), ..v }
            } else {
                v
            }
    }

    /// Whether a refund's signature can be recorded.
    pub open spec fn sign_glc_result(self, id: i64) -> Result<(), LedgerError> {
        match self.glc_refund(id) {
            None => Err(LedgerError::GoldcoinRefundNotFound(id)),
            Some(x) => if x.state == GoldcoinRefundState::Built || x.state
                == GoldcoinRefundState::Signed {
                Ok(())
            } else {
                Err(
                    LedgerError::GoldcoinRefundWrongState {
                        id,
                        expected: GoldcoinRefundState::Built,
                        actual: x.state,
                    },
                )
            },
        }
    }

    /// Whether a refund's broadcast can be recorded: a transaction that was
    /// recorded is never replaced by another.
    pub open spec fn broadcast_glc_result(self, id: i64, txid: [u8; 32]) -> Result<
        (),
        LedgerError,
    > {
        match self.glc_refund(id) {
            None => Err(LedgerError::GoldcoinRefundNotFound(id)),
            Some(x) => match x.txid {
                Some(t) => if t == txid {
                    Ok(())
                } else {
                    glc_refused(
                        id,
                        GlcRefundRefusal::TransactionDiffers { recorded: t, broadcast: txid },
                    )
                },
                None => if x.state == GoldcoinRefundState::Signed {
                    Ok(())
                } else {
                    Err(
                        LedgerError::GoldcoinRefundWrongState {
                            id,
                            expected: GoldcoinRefundState::Signed,
                            actual: x.state,
                        },
                    )
                },
            },
        }
    }

    /// The ledger with another state of request `id`, where there is one.
    pub open spec fn with_state(self, id: i64, state: RequestState) -> LedgerView {
        match self.request(id) {
            Some(q) => self.with_request(id, RequestView { state, ..q }),
            None => self,
        }
    }

    /// The ledger after a refund's broadcast was recorded.
    pub open spec fn glc_refund_broadcast(self, id: i64, txid: [u8; 32], now: i64) -> LedgerView {
        let x = self.glc_refund(id).unwrap();
        if x.txid is Some {
            self
        } else {
            self.with_glc_refund(
                id,
                GoldcoinRefundView {
                    txid: Some(txid),
                    broadcast_at: Some(now),
                    state: GoldcoinRefundState::Broadcast,
                    ..x
                },
            ).with_utxos(self.vault_utxos.map_values(self.spent_by_refund(id, txid))).with_state(
                id,
                RequestState::RefundBroadcast,
            ).with_log(
                LogEntry {
                    request_id: id,
                    from_state: Some(RequestState::RefundPending),
                    to_state: RequestState::RefundBroadcast,
                    at: now,
                    reason: Some("glc_refund_broadcast"@),
                    actor: "operator"@,
                },
            )
        }
    }

    /// Whether a broadcast refund can be recorded as confirmed.
    pub open spec fn settle_glc_result(self, id: i64) -> Result<(), LedgerError> {
        let x = self.glc_refund(id).unwrap();
        if x.reservation_released {
            Ok(())
        } else {
            match self.request(id) {
                None => Err(LedgerError::NoSuchRow),
                Some(q) => if self.reserved_fits(
                    q.direction.spec_destination_reserve(),
                    -q.net_destination_atomic,
                ) {
                    Ok(())
                } else {
                    Err(LedgerError::AmountOutOfRange)
                },
            }
        }
    }

    /// The ledger after a broadcast refund was recorded as confirmed: what was
    /// promised for the request is released, once.
    pub open spec fn glc_refund_settled(self, id: i64, confirmations: i64, now: i64) -> LedgerView {
        let x = self.glc_refund(id).unwrap();
        let l = self.with_glc_refund(
            id,
            GoldcoinRefundView {
                state: GoldcoinRefundState::Refunded,
                refunded_at: Some(now),
                confirmations,
                reservation_released: true,
                ..x
            },
        );
        let l = if x.reservation_released {
            l
        } else {
            let q = self.request(id).unwrap();
            l.add_reserved(q.direction.spec_destination_reserve(), -q.net_destination_atomic)
        };
        l.with_state(id, RequestState::Refunded).with_log(
            step_because(
                id,
                Some(RequestState::RefundBroadcast),
                RequestState::Refunded,
                now,
                "glc_refund_confirmed"@,
            ),
        )
    }

    /// The ledger with other confirmations of a refund.
    pub open spec fn with_refund_depth(self, id: i64, confirmations: i64) -> LedgerView {
        match self.glc_refund(id) {
            Some(x) => self.with_glc_refund(id, GoldcoinRefundView { confirmations, ..x }),
            None => self,
        }
    }

    /// Whether a refund can be recorded as confirmed.
    pub open spec fn confirm_glc_result(self, id: i64) -> Result<(), LedgerError> {
        match self.glc_refund(id) {
            None => Err(LedgerError::GoldcoinRefundNotFound(id)),
            Some(x) => if x.state == GoldcoinRefundState::Refunded {
                Ok(())
            } else if x.state != GoldcoinRefundState::Broadcast {
                Err(
                    LedgerError::GoldcoinRefundWrongState {
                        id,
                        expected: GoldcoinRefundState::Broadcast,
                        actual: x.state,
                    },
                )
            } else {
                self.settle_glc_result(id)
            },
        }
    }

    /// The ledger after a refund was recorded as confirmed.
    pub open spec fn glc_refund_confirmed(self, id: i64, confirmations: i64, now: i64) -> LedgerView {
        if self.glc_refund(id).unwrap().state == GoldcoinRefundState::Refunded {
            self.with_refund_depth(id, confirmations)
        } else {
            self.glc_refund_settled(id, confirmations, now)
        }
    }

    /// What comes of a depth that was seen of a refund: whether it settled the
    /// refund now.
    pub open spec fn reconcile_glc_result(
        self,
        id: i64,
        confirmations: i64,
        required: i64,
    ) -> Result<bool, LedgerError> {
        match self.glc_refund(id) {
            None => Err(LedgerError::GoldcoinRefundNotFound(id)),
            Some(x) => if x.state == GoldcoinRefundState::Refunded {
                Ok(false)
            } else if x.state != GoldcoinRefundState::Broadcast {
                Err(
                    LedgerError::GoldcoinRefundWrongState {
                        id,
                        expected: GoldcoinRefundState::Broadcast,
                        actual: x.state,
                    },
                )
            } else if confirmations < required {
                Ok(false)
            } else {
                match self.settle_glc_result(id) {
                    Ok(_) => Ok(true),
                    Err(e) => Err(e),
                }
            },
        }
    }
}

impl Ledger {
    /// Records the signed transaction of a refund. A second time changes
    /// nothing.
    pub fn record_goldcoin_refund_signed(
        &mut self,
        request_id: i64,
        signed_tx_hex: &str,
        now: i64,
    ) -> (r: Result<(), LedgerError>)
        ensures
            r == old(self)@.sign_glc_result(request_id),
            final(self)@ == (if r is Ok && old(self)@.glc_refund(request_id).unwrap().state
                == GoldcoinRefundState::Built {
                old(self)@.with_glc_refund(
                    request_id,
                    GoldcoinRefundView {
                        signed_tx_hex: Some(signed_tx_hex@),
                        signed_at: Some(now),
                        state: GoldcoinRefundState::Signed,
                        ..old(self)@.glc_refund(request_id).unwrap()
                    },
                )
            } else {
                old(self)@
            }),
    {
        let k = match self.find_goldcoin_refund(request_id) {
            Some(k) => k,
            None => {
                return Err(LedgerError::GoldcoinRefundNotFound(request_id));
            },
        };
        let state = self.goldcoin_refunds[k].state;
        if matches!(state, GoldcoinRefundState::Signed) {
            return Ok(());
        }
        if !matches!(state, GoldcoinRefundState::Built) {
            return Err(
                LedgerError::GoldcoinRefundWrongState {
                    id: request_id,
                    expected: GoldcoinRefundState::Built,
                    actual: state,
                },
            );
        }
        let ghost l0 = self@;
        self.goldcoin_refunds[k].signed_tx_hex = Some(signed_tx_hex.to_owned());
        self.goldcoin_refunds[k].signed_at = Some(now);
        self.goldcoin_refunds[k].state = GoldcoinRefundState::Signed;
        proof {
            assert(self@.goldcoin_refunds =~= l0.goldcoin_refunds.update(
                k as int,
                GoldcoinRefundView {
                    signed_tx_hex: Some(signed_tx_hex@),
                    signed_at: Some(now),
                    state: GoldcoinRefundState::Signed,
                    ..l0.goldcoin_refunds[k as int]
                },
            ));
        }
        Ok(())
    }

    fn is_refund_input(&self, id: i64, v: &VaultUtxoEntry) -> (r: bool)
        ensures
            r == (any_row(self@.refund_inputs, input_txid(id, v@.txid)) && any_row(
                self@.refund_inputs,
                input_vout(id, v@.vout),
            ) && v@.reserved_by == Some(id)),
    {
        v.reserved_by == Some(id) && any_where(
            &self.refund_inputs,
            |x: &RefundInputRow| -> (b: bool) ensures b == input_txid(id, v.txid)(x@) {
                x.request_id == id && eq32(&x.txid, &v.txid)
            },
            Ghost(input_txid(id, v.txid)),
        ) && any_where(
            &self.refund_inputs,
            |x: &RefundInputRow| -> (b: bool) ensures b == input_vout(id, v.vout)(x@) {
                x.request_id == id && x.vout == v.vout
            },
            Ghost(input_vout(id, v.vout)),
        )
    }

    fn spend_refund_inputs(&mut self, id: i64, txid: [u8; 32])
        ensures
            final(self)@ == old(self)@.with_utxos(
                old(self)@.vault_utxos.map_values(old(self)@.spent_by_refund(id, txid)),
            ),
            final(self).requests == old(self).requests,
    {
        let ghost l0 = self@;
        let ghost f = l0.spent_by_refund(id, txid);
        let mut i: usize = 0;
        while i < self.vault_utxos.len()
            invariant
                i <= self.vault_utxos@.len(),
                f == l0.spent_by_refund(id, txid),
                self.vault_utxos@.len() == l0.vault_utxos.len(),
                self.requests == old(self).requests,
                self@ == l0.with_utxos(self@.vault_utxos),
                forall|j: int|
                    0 <= j < i ==> (#[trigger] self@.vault_utxos[j]) == f(l0.vault_utxos[j]),
                forall|j: int|
                    i <= j < l0.vault_utxos.len() ==> (#[trigger] self@.vault_utxos[j])
                        == l0.vault_utxos[j],
            decreases self.vault_utxos@.len() - i,
        {
            let ghost before = self@.vault_utxos;
            assert(before[i as int] == self.vault_utxos@[i as int]@);
            if self.is_refund_input(id, &self.vault_utxos[i]) {
                self.vault_utxos[i].state = VaultUtxoState::Spent;
                self.vault_utxos[i].spent_by_txid = Some(txid);
            }
            proof {
                assert(self@.vault_utxos =~= before.update(i as int, f(before[i as int])));
            }
            i = i + 1;
        }
        assert(self@.vault_utxos =~= l0.vault_utxos.map_values(f));
    }

    /// Writes another state of request `id`, where there is one.
    pub(crate) fn put_state(&mut self, id: i64, state: RequestState)
        ensures
            final(self)@ == old(self)@.with_state(id, state),
            final(self).requests@.len() == old(self).requests@.len(),
    {
        match self.find_request(id) {
            Some(i) => {
                let ghost l0 = self@;
                self.requests[i].state = state;
                proof {
                    assert(self@.requests =~= l0.requests.update(
                        i as int,
                        RequestView { state, ..l0.requests[i as int] },
                    ));
                }
            },
            None => {},
        }
    }

    /// Records the transaction of a refund. The same one again changes
    /// nothing; another one is refused.
    pub fn record_goldcoin_refund_broadcast(
        &mut self,
        request_id: i64,
        txid: [u8; 32],
        now: i64,
    ) -> (r: Result<(), LedgerError>)
        ensures
            r == old(self)@.broadcast_glc_result(request_id, txid),
            final(self)@ == (if r is Ok {
                old(self)@.glc_refund_broadcast(request_id, txid, now)
            } else {
                old(self)@
            }),
    {
        let k = match self.find_goldcoin_refund(request_id) {
            Some(k) => k,
            None => {
                return Err(LedgerError::GoldcoinRefundNotFound(request_id));
            },
        };
        match self.goldcoin_refunds[k].txid {
            Some(t) => {
                if eq32(&t, &txid) {
                    return Ok(());
                }
                return Err(
                    LedgerError::GlcRefundNotEligible {
                        id: request_id,
                        detail: GlcRefundRefusal::TransactionDiffers {
                            recorded: t,
                            broadcast: txid,
                        },
                    },
                );
            },
            None => {},
        }
        let state = self.goldcoin_refunds[k].state;
        if !matches!(state, GoldcoinRefundState::Signed) {
            return Err(
                LedgerError::GoldcoinRefundWrongState {
                    id: request_id,
                    expected: GoldcoinRefundState::Signed,
                    actual: state,
                },
            );
        }
        let ghost l0 = self@;
        self.goldcoin_refunds[k].txid = Some(txid);
        self.goldcoin_refunds[k].broadcast_at = Some(now);
        self.goldcoin_refunds[k].state = GoldcoinRefundState::Broadcast;
        proof {
            assert(self@.goldcoin_refunds =~= l0.goldcoin_refunds.update(
                k as int,
                GoldcoinRefundView {
                    txid: Some(txid),
                    broadcast_at: Some(now),
                    state: GoldcoinRefundState::Broadcast,
                    ..l0.goldcoin_refunds[k as int]
                },
            ));
        }
        proof {
            assert(self@.spent_by_refund(request_id, txid) =~= l0.spent_by_refund(
                request_id,
                txid,
            ));
        }
        self.spend_refund_inputs(request_id, txid);
        self.put_state(request_id, RequestState::RefundBroadcast);
        self.log_transition(
            request_id,
            Some(RequestState::RefundPending),
            RequestState::RefundBroadcast,
            now,
            Some("glc_refund_broadcast"),
            "operator",
        );
        Ok(())
    }

    /// Records how deep a refund is confirmed.
    pub fn update_goldcoin_refund_confirmations(&mut self, request_id: i64, confirmations: i64)
        ensures
            final(self)@ == old(self)@.with_refund_depth(request_id, confirmations),
    {
        match self.find_goldcoin_refund(request_id) {
            Some(k) => {
                let ghost l0 = self@;
                self.goldcoin_refunds[k].confirmations = confirmations;
                proof {
                    assert(self@.goldcoin_refunds =~= l0.goldcoin_refunds.update(
                        k as int,
                        GoldcoinRefundView { confirmations, ..l0.goldcoin_refunds[k as int] },
                    ));
                }
            },
            None => {},
        }
    }

    fn commit_goldcoin_refund_terminal(
        &mut self,
        id: i64,
        k: usize,
        confirmations: i64,
        now: i64,
    ) -> (r: Result<(), LedgerError>)
        requires
            k < old(self).goldcoin_refunds@.len(),
            first_row(old(self)@.goldcoin_refunds, glc_refund_for(id)) == Some(k as int),
            old(self)@.goldcoin_refunds[k as int] == old(self).goldcoin_refunds@[k as int]@,
        ensures
            r == old(self)@.settle_glc_result(id),
            final(self)@ == (if r is Ok {
                old(self)@.glc_refund_settled(id, confirmations, now)
            } else {
                old(self)@
            }),
    {
        let released = self.goldcoin_refunds[k].reservation_released;
        let mut reserve = ReserveDirection::GoldcoinReserve;
        let mut net: i64 = 0;
        if !released {
            match self.find_request(id) {
                Some(i) => {
                    reserve = self.requests[i].direction.destination_reserve();
                    net = self.requests[i].net_destination_atomic;
                },
                None => {
                    return Err(LedgerError::NoSuchRow);
                },
            }
            if !self.release_would_fit(reserve, net) {
                return Err(LedgerError::AmountOutOfRange);
            }
        }
        let ghost l0 = self@;
        self.goldcoin_refunds[k].state = GoldcoinRefundState::Refunded;
        self.goldcoin_refunds[k].refunded_at = Some(now);
        self.goldcoin_refunds[k].confirmations = confirmations;
        self.goldcoin_refunds[k].reservation_released = true;
        proof {
            assert(self@.goldcoin_refunds =~= l0.goldcoin_refunds.update(
                k as int,
                GoldcoinRefundView {
                    state: GoldcoinRefundState::Refunded,
                    refunded_at: Some(now),
                    confirmations,
                    reservation_released: true,
                    ..l0.goldcoin_refunds[k as int]
                },
            ));
        }
        if !released {
            self.release_reserved(reserve, net);
        }
        self.put_state(id, RequestState::Refunded);
        self.log_transition(
            id,
            Some(RequestState::RefundBroadcast),
            RequestState::Refunded,
            now,
            Some("glc_refund_confirmed"),
            "system",
        );
        Ok(())
    }

    /// Records that a deposit was given back and releases what was promised
    /// for its request, once.
    pub fn record_goldcoin_refund_confirmed(
        &mut self,
        request_id: i64,
        confirmations: i64,
        now: i64,
    ) -> (r: Result<(), LedgerError>)
        ensures
            r == old(self)@.confirm_glc_result(request_id),
            final(self)@ == (if r is Ok {
                old(self)@.glc_refund_confirmed(request_id, confirmations, now)
            } else {
                old(self)@
            }),
    {
        let k = match self.find_goldcoin_refund(request_id) {
            Some(k) => k,
            None => {
                return Err(LedgerError::GoldcoinRefundNotFound(request_id));
            },
        };
        let state = self.goldcoin_refunds[k].state;
        if matches!(state, GoldcoinRefundState::Refunded) {
            self.update_goldcoin_refund_confirmations(request_id, confirmations);
            return Ok(());
        }
        if !matches!(state, GoldcoinRefundState::Broadcast) {
            return Err(
                LedgerError::GoldcoinRefundWrongState {
                    id: request_id,
                    expected: GoldcoinRefundState::Broadcast,
                    actual: state,
                },
            );
        }
        self.commit_goldcoin_refund_terminal(request_id, k, confirmations, now)
    }

    /// Records how deep a refund is confirmed, and where that is deep enough,
    /// that the deposit was given back. Returns whether that happened now.
    pub fn reconcile_goldcoin_refund_confirmations(
        &mut self,
        request_id: i64,
        confirmations: i64,
        required_confirmations: i64,
        now: i64,
    ) -> (r: Result<bool, LedgerError>)
        ensures
            r == old(self)@.reconcile_glc_result(
                request_id,
                confirmations,
                required_confirmations,
            ),
            final(self)@ == (match r {
                Ok(true) => old(self)@.glc_refund_settled(request_id, confirmations, now),
                Ok(false) => old(self)@.with_refund_depth(request_id, confirmations),
                Err(_) => old(self)@,
            }),
    {
        let k = match self.find_goldcoin_refund(request_id) {
            Some(k) => k,
            None => {
                return Err(LedgerError::GoldcoinRefundNotFound(request_id));
            },
        };
        let state = self.goldcoin_refunds[k].state;
        if matches!(state, GoldcoinRefundState::Refunded) {
            self.update_goldcoin_refund_confirmations(request_id, confirmations);
            return Ok(false);
        }
        if !matches!(state, GoldcoinRefundState::Broadcast) {
            return Err(
                LedgerError::GoldcoinRefundWrongState {
                    id: request_id,
                    expected: GoldcoinRefundState::Broadcast,
                    actual: state,
                },
            );
        }
        if confirmations < required_confirmations {
            self.update_goldcoin_refund_confirmations(request_id, confirmations);
            return Ok(false);
        }
        match self.commit_goldcoin_refund_terminal(request_id, k, confirmations, now) {
            Ok(_) => Ok(true),
            Err(e) => Err(e),
        }
    }

    /// The Goldcoin refund of a request.
    pub fn get_goldcoin_refund(&self, request_id: i64) -> (r: Option<GoldcoinRefundRow>)
        ensures
            match r {
                Some(x) => self@.glc_refund(request_id) == Some(x@),
                None => self@.glc_refund(request_id) is None,
            },
    {
        match self.find_goldcoin_refund(request_id) {
            Some(k) => Some(self.goldcoin_refunds[k].clone()),
            None => None,
        }
    }

    /// The Goldcoin refunds, the newest first, or only those not confirmed.
    pub fn list_goldcoin_refunds(&self, open_only: bool) -> (r: Vec<GoldcoinRefundRow>)
        ensures
            sorted_by(values(r@), newest_first()),
            values(r@).to_multiset() == select_rows(
                self@.goldcoin_refunds,
                listed_glc_refund(open_only),
            ).to_multiset(),
    {
        let rows = collect_where(
            &self.goldcoin_refunds,
            |x: &GoldcoinRefundRow| -> (b: bool) ensures b == listed_glc_refund(open_only)(x@) {
                !open_only || !matches!(x.state, GoldcoinRefundState::Refunded)
            },
            |x: &GoldcoinRefundRow| -> (d: GoldcoinRefundRow) ensures d@ == x@ { x.clone() },
            Ghost(listed_glc_refund(open_only)),
            Ghost(|x: GoldcoinRefundView| x),
        );
        proof {
            let sel = select_rows(self@.goldcoin_refunds, listed_glc_refund(open_only));
            assert(sel.map_values(|x: GoldcoinRefundView| x) =~= sel);
        }
        sort_rows(
            rows,
            |a: &GoldcoinRefundRow, b: &GoldcoinRefundRow| -> (r: bool)
                ensures r == newest_first()(a@, b@) {
                a.built_at > b.built_at || (a.built_at == b.built_at && a.request_id
                    >= b.request_id)
            },
            Ghost(newest_first()),
        )
    }

    /// The inputs of a refund, in the order in which they were built in.
    pub fn get_goldcoin_refund_inputs(&self, request_id: i64) -> (r: Vec<RefundInputRow>)
        ensures
            sorted_by(values(r@), input_order()),
            values(r@).to_multiset() == select_rows(
                self@.refund_inputs,
                |x: RefundInputView| x.request_id == request_id,
            ).to_multiset(),
    {
        let ghost p = |x: RefundInputView| x.request_id == request_id;
        let rows = collect_where(
            &self.refund_inputs,
            |x: &RefundInputRow| -> (b: bool) ensures b == p(x@) { x.request_id == request_id },
            |x: &RefundInputRow| -> (d: RefundInputRow) ensures d@ == x@ { x.clone() },
            Ghost(p),
            Ghost(|x: RefundInputView| x),
        );
        proof {
            let sel = select_rows(self@.refund_inputs, p);
            assert(sel.map_values(|x: RefundInputView| x) =~= sel);
        }
        sort_rows(
            rows,
            |a: &RefundInputRow, b: &RefundInputRow| -> (r: bool)
                ensures r == input_order()(a@, b@) { a.input_order <= b.input_order },
            Ghost(input_order()),
        )
    }

    /// The requests whose Goldcoin refund is in this state, in order.
    pub fn goldcoin_refunds_in_state(&self, state: GoldcoinRefundState) -> (r: Vec<i64>)
        ensures
            sorted_by(values(r@), |a: i64, b: i64| a <= b),
            values(r@).to_multiset() == select_rows(
                self@.goldcoin_refunds,
                |x: GoldcoinRefundView| x.state == state,
            ).map_values(|x: GoldcoinRefundView| x.request_id).to_multiset(),
    {
        let ghost p = |x: GoldcoinRefundView| x.state == state;
        let ghost g = |x: GoldcoinRefundView| x.request_id;
        let rows: Vec<i64> = collect_where(
            &self.goldcoin_refunds,
            |x: &GoldcoinRefundRow| -> (b: bool) ensures b == p(x@) { x.state == state },
            |x: &GoldcoinRefundRow| -> (n: i64) ensures n == g(x@) { x.request_id },
            Ghost(p),
            Ghost(g),
        );
        sort_rows(
            rows,
            |a: &i64, b: &i64| -> (r: bool) ensures r == (*a <= *b) { *a <= *b },
            Ghost(|a: i64, b: i64| a <= b),
        )
    }
}

/// The refund built last first, then the higher request number.
pub open spec fn newest_first() -> spec_fn(GoldcoinRefundView, GoldcoinRefundView) -> bool {
    |a: GoldcoinRefundView, b: GoldcoinRefundView|
        a.built_at > b.built_at || (a.built_at == b.built_at && a.request_id >= b.request_id)
}

/// Every refund, or only one that is not confirmed.
pub open spec fn listed_glc_refund(open_only: bool) -> spec_fn(GoldcoinRefundView) -> bool {
    |x: GoldcoinRefundView| !open_only || x.state != GoldcoinRefundState::Refunded
}

/// The order in which inputs were built in.
pub open spec fn input_order() -> spec_fn(RefundInputView, RefundInputView) -> bool {
    |a: RefundInputView, b: RefundInputView| a.input_order <= b.input_order
}

proof fn lemma_with_glc_refund(l: LedgerView, id: i64, row: GoldcoinRefundView)
    requires
        l.glc_refund(id) is Some,
        row.request_id == id,
    ensures
        l.with_glc_refund(id, row).glc_refund(id) == Some(row),
{
    let p = glc_refund_for(id);
    let m = l.with_glc_refund(id, row);
    lemma_first_row_is_first(l.goldcoin_refunds, p);
    let i = first_row(l.goldcoin_refunds, p).unwrap();
    assert(is_first(m.goldcoin_refunds, p, i)) by {
        assert forall|j: int| 0 <= j < i implies !p(#[trigger] m.goldcoin_refunds[j]) by {
            assert(!p(l.goldcoin_refunds[j]));
        }
    }
    lemma_first_row(m.goldcoin_refunds, p, i);
}

/// The reservation of a refunded request is released once: confirming again
/// changes the recorded depth and nothing in the books.
pub proof fn law_reservation_is_released_once(
    l: LedgerView,
    id: i64,
    first: i64,
    second: i64,
    now: i64,
    later: i64,
)
    requires
        l.confirm_glc_result(id) is Ok,
    ensures
        ({
            let m = l.glc_refund_confirmed(id, first, now);
            &&& m.glc_refund(id) matches Some(x) && x.state == GoldcoinRefundState::Refunded
            &&& m.confirm_glc_result(id) is Ok
            &&& m.glc_refund_confirmed(id, second, later).reserves == m.reserves
        }),
{
    let x = l.glc_refund(id).unwrap();
    let m = l.glc_refund_confirmed(id, first, now);
    lemma_first_row_is_first(l.goldcoin_refunds, glc_refund_for(id));
    if x.state == GoldcoinRefundState::Refunded {
        lemma_with_glc_refund(l, id, GoldcoinRefundView { confirmations: first, ..x });
    } else {
        let row = GoldcoinRefundView {
            state: GoldcoinRefundState::Refunded,
            refunded_at: Some(now),
            confirmations: first,
            reservation_released: true,
            ..x
        };
        lemma_with_glc_refund(l, id, row);
        assert(m.goldcoin_refunds == l.with_glc_refund(id, row).goldcoin_refunds);
        assert(m.glc_refund(id) == Some(row));
    }
}

/// A refund that was broadcast keeps its transaction: broadcasting the same
/// one again changes nothing, and another one is refused.
pub proof fn law_a_refund_has_one_transaction(
    l: LedgerView,
    id: i64,
    txid: [u8; 32],
    other: [u8; 32],
    now: i64,
    later: i64,
)
    requires
        l.broadcast_glc_result(id, txid) is Ok,
    ensures
        ({
            let m = l.glc_refund_broadcast(id, txid, now);
            &&& m.broadcast_glc_result(id, txid) is Ok
            &&& m.glc_refund_broadcast(id, txid, later) == m
            &&& other != txid ==> m.broadcast_glc_result(id, other) is Err
        }),
{
    let x = l.glc_refund(id).unwrap();
    let m = l.glc_refund_broadcast(id, txid, now);
    lemma_first_row_is_first(l.goldcoin_refunds, glc_refund_for(id));
    if x.txid is None {
        let row = GoldcoinRefundView {
            txid: Some(txid),
            broadcast_at: Some(now),
            state: GoldcoinRefundState::Broadcast,
            ..x
        };
        lemma_with_glc_refund(l, id, row);
        assert(m.goldcoin_refunds == l.with_glc_refund(id, row).goldcoin_refunds);
        assert(m.glc_refund(id) == Some(row));
    }
}

/// Below the required depth a refund is left as recoverable as it was: only
/// the recorded depth changes.
pub proof fn law_shallow_refunds_stay_open(
    l: LedgerView,
    id: i64,
    confirmations: i64,
    required: i64,
)
    requires
        confirmations < required,
    ensures
        l.reconcile_glc_result(id, confirmations, required) != Ok::<bool, LedgerError>(true),
{
}

} // verus!
