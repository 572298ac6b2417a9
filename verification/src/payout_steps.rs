//! A Goldcoin payout from its broadcast to its completion.
use vstd::prelude::*;
use crate::error::LedgerError;
use crate::ledger::{Ledger, LedgerView, lemma_request_id, lemma_with_request, step};
use crate::payouts::change_amounts;
use crate::resume::payout_for;
use crate::rows::{
    ChangeOutpointRow, ChangeOutpointView, PayoutChangeView, PayoutInputRow, PayoutInputView,
    PayoutRow, PayoutView, RequestView, VaultUtxoView, bytes_vec,
};
use crate::table::{
    any_row, any_where, eq32, first_row, is_first, lemma_first_row, lemma_first_row_is_first,
    max_rows, max_where,
};
use crate::types::{PayoutState, RequestState, ReserveDirection, VaultUtxoState};
use crate::vault::change_at;

verus! {

/// An input of this request's payout at this outpoint.
pub open spec fn input_at(id: i64, txid: [u8; 32], vout: u32) -> spec_fn(PayoutInputView) -> bool {
    |x: PayoutInputView| x.request_id == id && x.txid == txid && x.vout == vout
}

/// The unconfirmed payout of a request.
pub open spec fn unconfirmed_payout(id: i64) -> spec_fn(PayoutView) -> bool {
    |p: PayoutView| p.request_id == id && p.confirmations == 0
}

/// The change outputs of a payout's transaction, as they become known: the
/// first output pays the recipient, so change is counted from the second.
pub open spec fn with_changes(
    rows: Seq<ChangeOutpointView>,
    id: i64,
    txid: [u8; 32],
    amounts: Seq<i64>,
    depth: i64,
    k: int,
) -> Seq<ChangeOutpointView>
    decreases k,
{
    if k <= 0 {
        rows
    } else {
        let before = with_changes(rows, id, txid, amounts, depth, k - 1);
        if any_row(before, change_at(txid, k as u32)) {
            before
        } else {
            before.push(change_row(id, txid, k as u32, amounts[k - 1], depth))
        }
    }
}

/// A change output of a payout's transaction.
pub open spec fn change_row(
    id: i64,
    txid: [u8; 32],
    vout: u32,
    amount: i64,
    depth: i64,
) -> ChangeOutpointView {
    ChangeOutpointView {
        txid,
        vout,
        request_id: id,
        amount_atomic: amount,
        unconfirmed_ancestor_depth: depth,
    }
}

/// What a depth that was seen makes of a payout.
pub open spec fn payout_seen(p: PayoutView, confirmations: i64, tip_height: i64) -> PayoutView {
    PayoutView {
        confirmations: if (p.state == PayoutState::Broadcast || p.state == PayoutState::Confirmed)
            && p.confirmations < confirmations {
            confirmations
        } else {
            p.confirmations
        },
        mined_height: if confirmations > 0 && p.mined_height is None {
            Some((tip_height - confirmations + 1) as i64)
        } else {
            p.mined_height
        },
        ..p
    }
}

/// What a depth that was seen makes of a request.
pub open spec fn destination_seen(q: RequestView, confirmations: i64) -> RequestView {
    if (q.state == RequestState::DestinationSubmitted || q.state
        == RequestState::DestinationConfirmed) && q.destination_confirmations < confirmations {
        RequestView { destination_confirmations: confirmations, ..q }
    } else {
        q
    }
}

/// What the completion of a payout makes of an output.
pub open spec fn spent_by_payout(id: i64, txid: Option<[u8; 32]>) -> spec_fn(
    VaultUtxoView,
) -> VaultUtxoView {
    |v: VaultUtxoView|
        if v.reserved_by == Some(id) {
            VaultUtxoView { state: VaultUtxoState::Spent, spent_by_txid: txid, ..v }
        } else {
            v
        }
}

impl LedgerView {
    /// A change output of an unconfirmed payout that the payout of `id`
    /// spends.
    pub open spec fn parent_change(self, id: i64) -> spec_fn(ChangeOutpointView) -> bool {
        |o: ChangeOutpointView|
            any_row(self.payout_inputs, input_at(id, o.txid, o.vout)) && any_row(
                self.payouts,
                unconfirmed_payout(o.request_id),
            )
    }

    /// How many unconfirmed payouts the inputs of this one descend from at
    /// most.
    pub open spec fn parent_depth(self, id: i64) -> i64 {
        match max_rows(
            self.change_outpoints,
            self.parent_change(id),
            |o: ChangeOutpointView| o.unconfirmed_ancestor_depth,
        ) {
            Some(d) => d,
            None => 0,
        }
    }

    /// Whether the broadcast of a payout can be recorded.
    pub open spec fn send_payout_result(self, id: i64) -> Result<(), LedgerError> {
        match self.payout(id) {
            None => Err(LedgerError::PayoutNotFound(id)),
            Some(p) => if p.state == PayoutState::Signed && self.request(id) is None {
                Err(LedgerError::NoSuchRow)
            } else {
                Ok(())
            },
        }
    }

    /// The ledger after the broadcast of a payout with this change was
    /// recorded.
    pub open spec fn payout_sent(self, id: i64, txid: [u8; 32], amounts: Seq<i64>, now: i64) -> LedgerView {
        let p = self.payout(id).unwrap();
        let q = self.request(id).unwrap();
        if p.state != PayoutState::Signed {
            self
        } else {
            let l = self.with_payout(
                id,
                PayoutView {
                    state: PayoutState::Broadcast,
                    txid: Some(txid),
                    broadcast_at: Some(now),
                    ..p
                },
            ).with_request(
                id,
                RequestView {
                    state: RequestState::DestinationSubmitted,
                    destination_txid: Some(txid@),
                    ..q
                },
            ).with_log(step(id, Some(q.state), RequestState::DestinationSubmitted, now));
            LedgerView {
                change_outpoints: with_changes(
                    self.change_outpoints,
                    id,
                    txid,
                    amounts,
                    (self.parent_depth(id) + 1) as i64,
                    amounts.len() as int,
                ),
                ..l
            }
        }
    }

    /// Whether a payout reaches the required depth now.
    pub open spec fn payout_matures(self, id: i64, confirmations: i64, required: i64) -> bool {
        confirmations >= required && (self.payout(id) matches Some(p) && p.state
            == PayoutState::Broadcast)
    }

    /// The ledger after a depth of a payout was seen.
    pub open spec fn payout_depth_seen(
        self,
        id: i64,
        confirmations: i64,
        tip_height: i64,
        required: i64,
        now: i64,
    ) -> LedgerView {
        let l = match self.payout(id) {
            Some(p) => self.with_payout(
                id,
                if self.payout_matures(id, confirmations, required) {
                    PayoutView {
                        state: PayoutState::Confirmed,
                        ..payout_seen(p, confirmations, tip_height)
                    }
                } else {
                    payout_seen(p, confirmations, tip_height)
                },
            ),
            None => self,
        };
        match self.request(id) {
            Some(q) => if self.payout_matures(id, confirmations, required) {
                l.with_request(
                    id,
                    RequestView {
                        state: RequestState::DestinationConfirmed,
                        ..destination_seen(q, confirmations)
                    },
                ).with_log(step(id, Some(q.state), RequestState::DestinationConfirmed, now))
            } else {
                l.with_request(id, destination_seen(q, confirmations))
            },
            None => l,
        }
    }

    /// Whether the completion of a payout can be recorded.
    pub open spec fn complete_payout_result(self, id: i64) -> Result<(), LedgerError> {
        match self.request(id) {
            None => Err(LedgerError::NoSuchRow),
            Some(q) => if q.state == RequestState::Settled {
                Ok(())
            } else {
                match self.payout(id) {
                    Some(p) => if p.onchain_completion_signature is None {
                        Err(LedgerError::CompletionNotSubmitted(id))
                    } else if self.settle_fits(
                        ReserveDirection::GoldcoinReserve,
                        q.net_destination_atomic as int,
                    ) && self.fee_fits(
                        ReserveDirection::SolanaReserve,
                        q.fee_amount_atomic as int,
                    ) {
                        Ok(())
                    } else {
                        Err(LedgerError::AmountOutOfRange)
                    },
                    None => Err(LedgerError::CompletionNotSubmitted(id)),
                }
            },
        }
    }

    /// The ledger after the completion of a payout was recorded.
    pub open spec fn payout_completed(self, id: i64, now: i64) -> LedgerView {
        let q = self.request(id).unwrap();
        let p = self.payout(id).unwrap();
        if q.state == RequestState::Settled {
            self
        } else {
            self.with_payout(
                id,
                PayoutView {
                    state: PayoutState::Completed,
                    completed_at: Some(now),
                    onchain_completed_at: Some(now),
                    ..p
                },
            ).with_request(
                id,
                RequestView { state: RequestState::Settled, settled_at: Some(now), ..q },
            ).with_log(step(id, Some(q.state), RequestState::Settled, now)).settle(
                ReserveDirection::GoldcoinReserve,
                q.net_destination_atomic as int,
            ).add_fee(ReserveDirection::SolanaReserve, q.fee_amount_atomic as int).with_utxos(
                self.vault_utxos.map_values(spent_by_payout(id, p.txid)),
            )
        }
    }
}

impl Ledger {
    fn is_parent_change(&self, id: i64, o: &ChangeOutpointRow) -> (r: bool)
        ensures
            r == self@.parent_change(id)(o@),
    {
        any_where(
            &self.payout_inputs,
            |x: &PayoutInputRow| -> (b: bool) ensures b == input_at(id, o.txid, o.vout)(x@) {
                x.request_id == id && eq32(&x.txid, &o.txid) && x.vout == o.vout
            },
            Ghost(input_at(id, o.txid, o.vout)),
        ) && any_where(
            &self.payouts,
            |p: &PayoutRow| -> (b: bool) ensures b == unconfirmed_payout(o.request_id)(p@) {
                p.request_id == o.request_id && p.confirmations == 0
            },
            Ghost(unconfirmed_payout(o.request_id)),
        )
    }

    fn parent_depth(&self, id: i64) -> (r: i64)
        ensures
            r == self@.parent_depth(id),
    {
        match max_where(
            &self.change_outpoints,
            |o: &ChangeOutpointRow| -> (b: bool) ensures b == self@.parent_change(id)(o@) {
                self.is_parent_change(id, o)
            },
            |o: &ChangeOutpointRow| -> (n: i64) ensures n == o@.unconfirmed_ancestor_depth {
                o.unconfirmed_ancestor_depth
            },
            Ghost(self@.parent_change(id)),
            Ghost(|o: ChangeOutpointView| o.unconfirmed_ancestor_depth),
        ) {
            Some(d) => d,
            None => 0,
        }
    }

    fn add_change_outpoints(&mut self, id: i64, txid: [u8; 32], amounts: &Vec<i64>, depth: i64)
        ensures
            final(self)@ == (LedgerView {
                change_outpoints: with_changes(
                    old(self)@.change_outpoints,
                    id,
                    txid,
                    amounts@,
                    depth,
                    amounts@.len() as int,
                ),
                ..old(self)@
            }),
            final(self).requests == old(self).requests,
            final(self).payouts == old(self).payouts,
    {
        let ghost l0 = self@;
        let mut k: usize = 0;
        while k < amounts.len()
            invariant
                k <= amounts@.len(),
                self.requests == old(self).requests,
                self.payouts == old(self).payouts,
                self@ == (LedgerView {
                    change_outpoints: with_changes(
                        l0.change_outpoints,
                        id,
                        txid,
                        amounts@,
                        depth,
                        k as int,
                    ),
                    ..l0
                }),
            decreases amounts@.len() - k,
        {
            let n: usize = k + 1;
            let vout = n as u32;
            let there = any_where(
                &self.change_outpoints,
                |o: &ChangeOutpointRow| -> (b: bool) ensures b == change_at(txid, vout)(o@) {
                    eq32(&o.txid, &txid) && o.vout == vout
                },
                Ghost(change_at(txid, vout)),
            );
            if !there {
                self.change_outpoints.push(
                    ChangeOutpointRow {
                        txid,
                        vout,
                        request_id: id,
                        amount_atomic: amounts[k],
                        unconfirmed_ancestor_depth: depth,
                    },
                );
            }
            proof {
                assert(self@.change_outpoints =~= with_changes(
                    l0.change_outpoints,
                    id,
                    txid,
                    amounts@,
                    depth,
                    k + 1,
                ));
            }
            k = n;
        }
    }

    fn write_sent(&mut self, id: i64, k: usize, i: usize, txid: [u8; 32], now: i64)
        requires
            k < old(self).payouts@.len(),
            first_row(old(self)@.payouts, payout_for(id)) == Some(k as int),
            old(self)@.payouts[k as int] == old(self).payouts@[k as int]@,
            old(self).at_row(id, i),
        ensures
            final(self)@ == old(self)@.with_payout(
                id,
                PayoutView {
                    state: PayoutState::Broadcast,
                    txid: Some(txid),
                    broadcast_at: Some(now),
                    ..old(self)@.payout(id).unwrap()
                },
            ).with_request(
                id,
                RequestView {
                    state: RequestState::DestinationSubmitted,
                    destination_txid: Some(txid@),
                    ..old(self)@.request(id).unwrap()
                },
            ).with_log(
                step(
                    id,
                    Some(old(self)@.request(id).unwrap().state),
                    RequestState::DestinationSubmitted,
                    now,
                ),
            ),
    {
        let ghost l0 = self@;
        let was = self.requests[i].state;
        let bytes = bytes_vec(&txid);
        self.payouts[k].state = PayoutState::Broadcast;
        self.payouts[k].txid = Some(txid);
        self.payouts[k].broadcast_at = Some(now);
        self.requests[i].state = RequestState::DestinationSubmitted;
        self.requests[i].destination_txid = Some(bytes);
        proof {
            assert(self@.payouts =~= l0.payouts.update(
                k as int,
                PayoutView {
                    state: PayoutState::Broadcast,
                    txid: Some(txid),
                    broadcast_at: Some(now),
                    ..l0.payouts[k as int]
                },
            ));
            assert(self@.requests =~= l0.requests.update(
                i as int,
                RequestView {
                    state: RequestState::DestinationSubmitted,
                    destination_txid: Some(txid@),
                    ..l0.requests[i as int]
                },
            ));
        }
        self.log_transition(
            id,
            Some(was),
            RequestState::DestinationSubmitted,
            now,
            None,
            "system",
        );
    }

    /// Records the broadcast of a payout: its change is known from now on.
    /// Beyond the state from which it is sent, this changes nothing.
    pub fn record_goldcoin_payout_broadcast(
        &mut self,
        request_id: i64,
        txid: [u8; 32],
        now: i64,
    ) -> (r: Result<(), LedgerError>)
        requires
            old(self)@.payout(request_id) matches Some(p) ==> p.state != PayoutState::Built && (
            p.state == PayoutState::Signed ==> old(self)@.parent_depth(request_id) < i64::MAX && (
            old(self)@.request(request_id) matches Some(q) ==> q.state
                == RequestState::SettlementAuthorized)),
        ensures
            r == old(self)@.send_payout_result(request_id),
            r is Err ==> final(self)@ == old(self)@,
            r is Ok ==> exists|rows: Seq<PayoutChangeView>| #[trigger]
                old(self)@.changes_in_order(request_id, rows) && final(self)@ == old(
                    self,
                )@.payout_sent(
                    request_id,
                    txid,
                    change_amounts(rows, old(self)@.payout(request_id).unwrap().change_atomic),
                    now,
                ),
    {
        let k = match self.find_payout(request_id) {
            Some(k) => k,
            None => {
                return Err(LedgerError::PayoutNotFound(request_id));
            },
        };
        let amounts = self.goldcoin_payout_change_outputs(
            request_id,
            self.payouts[k].change_atomic,
        );
        let ghost l0 = self@;
        let ghost total = l0.payout(request_id).unwrap().change_atomic;
        let ghost rows = choose|rows: Seq<PayoutChangeView>| #[trigger]
            l0.changes_in_order(request_id, rows) && amounts@ == change_amounts(rows, total);
        assert(l0.changes_in_order(request_id, rows));
        if !matches!(self.payouts[k].state, PayoutState::Signed) {
            return Ok(());
        }
        let i = match self.find_request(request_id) {
            Some(i) => i,
            None => {
                return Err(LedgerError::NoSuchRow);
            },
        };
        let depth: i64 = self.parent_depth(request_id);
        self.write_sent(request_id, k, i, txid, now);
        self.add_change_outpoints(request_id, txid, &amounts, depth + 1);
        Ok(())
    }

    fn write_payout_depth(&mut self, id: i64, confirmations: i64, tip_height: i64, matures: bool)
        requires
            confirmations > 0 ==> i64::MIN <= tip_height - confirmations + 1 <= i64::MAX,
        ensures
            final(self)@ == (match old(self)@.payout(id) {
                Some(p) => old(self)@.with_payout(
                    id,
                    if matures {
                        PayoutView {
                            state: PayoutState::Confirmed,
                            ..payout_seen(p, confirmations, tip_height)
                        }
                    } else {
                        payout_seen(p, confirmations, tip_height)
                    },
                ),
                None => old(self)@,
            }),
            final(self).requests == old(self).requests,
    {
        match self.find_payout(id) {
            Some(k) => {
                let ghost l0 = self@;
                let open = matches!(
                    self.payouts[k].state,
                    PayoutState::Broadcast | PayoutState::Confirmed
                );
                if open && self.payouts[k].confirmations < confirmations {
                    self.payouts[k].confirmations = confirmations;
                }
                if confirmations > 0 && self.payouts[k].mined_height.is_none() {
                    let h: i128 = tip_height as i128 - confirmations as i128 + 1;
                    self.payouts[k].mined_height = Some(h as i64);
                }
                if matures {
                    self.payouts[k].state = PayoutState::Confirmed;
                }
                proof {
                    assert(self@.payouts =~= l0.payouts.update(
                        k as int,
                        if matures {
                            PayoutView {
                                state: PayoutState::Confirmed,
                                ..payout_seen(l0.payouts[k as int], confirmations, tip_height)
                            }
                        } else {
                            payout_seen(l0.payouts[k as int], confirmations, tip_height)
                        },
                    ));
                }
            },
            None => {},
        }
    }

    fn write_destination_depth(&mut self, id: i64, confirmations: i64, matures: bool, now: i64)
        ensures
            final(self)@ == (match old(self)@.request(id) {
                Some(q) => if matures {
                    old(self)@.with_request(
                        id,
                        RequestView {
                            state: RequestState::DestinationConfirmed,
                            ..destination_seen(q, confirmations)
                        },
                    ).with_log(step(id, Some(q.state), RequestState::DestinationConfirmed, now))
                } else {
                    old(self)@.with_request(id, destination_seen(q, confirmations))
                },
                None => old(self)@,
            }),
    {
        match self.find_request(id) {
            Some(i) => {
                let ghost l0 = self@;
                let was = self.requests[i].state;
                if matches!(
                    was,
                    RequestState::DestinationSubmitted | RequestState::DestinationConfirmed
                ) && self.requests[i].destination_confirmations < confirmations {
                    self.requests[i].destination_confirmations = confirmations;
                }
                if matures {
                    self.requests[i].state = RequestState::DestinationConfirmed;
                }
                proof {
                    assert(self@.requests =~= l0.requests.update(
                        i as int,
                        if matures {
                            RequestView {
                                state: RequestState::DestinationConfirmed,
                                ..destination_seen(l0.requests[i as int], confirmations)
                            }
                        } else {
                            destination_seen(l0.requests[i as int], confirmations)
                        },
                    ));
                }
                if matures {
                    self.log_transition(
                        id,
                        Some(was),
                        RequestState::DestinationConfirmed,
                        now,
                        None,
                        "system",
                    );
                }
            },
            None => {},
        }
    }

    /// Records how deep a payout is confirmed. Returns whether it reached the
    /// required depth now.
    pub fn update_goldcoin_payout_confirmations(
        &mut self,
        request_id: i64,
        confirmations: i64,
        tip_height: i64,
        required_depth: i64,
        now: i64,
    ) -> (r: Result<bool, LedgerError>)
        requires
            confirmations > 0 ==> i64::MIN <= tip_height - confirmations + 1 <= i64::MAX,
        ensures
            r == (if old(self)@.payout_matures(request_id, confirmations, required_depth) {
                if old(self)@.request(request_id) is Some {
                    Ok(true)
                } else {
                    Err(LedgerError::NoSuchRow)
                }
            } else {
                Ok(false)
            }),
            final(self)@ == (if r is Ok {
                old(self)@.payout_depth_seen(
                    request_id,
                    confirmations,
                    tip_height,
                    required_depth,
                    now,
                )
            } else {
                old(self)@
            }),
    {
        let matures = confirmations >= required_depth && match self.find_payout(request_id) {
            Some(k) => matches!(self.payouts[k].state, PayoutState::Broadcast),
            None => false,
        };
        if matures && self.find_request(request_id).is_none() {
            return Err(LedgerError::NoSuchRow);
        }
        self.write_payout_depth(request_id, confirmations, tip_height, matures);
        self.write_destination_depth(request_id, confirmations, matures, now);
        Ok(matures)
    }

    /// Records that the completion of a payout was sent to Solana.
    pub fn record_goldcoin_completion_submitted(
        &mut self,
        request_id: i64,
        signature: [u8; 64],
        now: i64,
    ) -> (r: Result<(), LedgerError>)
        requires
            old(self)@.payout(request_id) matches Some(p) ==> p.state == PayoutState::Confirmed
                || p.state == PayoutState::Completed,
        ensures
            r == (if old(self)@.payout(request_id) is Some {
                Ok(())
            } else {
                Err(LedgerError::PayoutNotFound(request_id))
            }),
            final(self)@ == (match old(self)@.payout(request_id) {
                Some(p) => if p.state == PayoutState::Completed {
                    old(self)@
                } else {
                    old(self)@.with_payout(
                        request_id,
                        PayoutView {
                            onchain_completion_signature: Some(signature),
                            onchain_completion_submitted_at: Some(now),
                            ..p
                        },
                    )
                },
                None => old(self)@,
            }),
    {
        match self.find_payout(request_id) {
            Some(k) => {
                if matches!(self.payouts[k].state, PayoutState::Completed) {
                    return Ok(());
                }
                let ghost l0 = self@;
                self.payouts[k].onchain_completion_signature = Some(signature);
                self.payouts[k].onchain_completion_submitted_at = Some(now);
                proof {
                    assert(self@.payouts =~= l0.payouts.update(
                        k as int,
                        PayoutView {
                            onchain_completion_signature: Some(signature),
                            onchain_completion_submitted_at: Some(now),
                            ..l0.payouts[k as int]
                        },
                    ));
                }
                Ok(())
            },
            None => Err(LedgerError::PayoutNotFound(request_id)),
        }
    }

    fn spend_reserved(&mut self, id: i64, txid: Option<[u8; 32]>)
        ensures
            final(self)@ == old(self)@.with_utxos(
                old(self)@.vault_utxos.map_values(spent_by_payout(id, txid)),
            ),
    {
        let ghost l0 = self@;
        let ghost f = spent_by_payout(id, txid);
        let mut i: usize = 0;
        while i < self.vault_utxos.len()
            invariant
                i <= self.vault_utxos@.len(),
                f == spent_by_payout(id, txid),
                self.vault_utxos@.len() == l0.vault_utxos.len(),
                self@ == l0.with_utxos(self@.vault_utxos),
                forall|j: int|
                    0 <= j < i ==> (#[trigger] self@.vault_utxos[j]) == f(l0.vault_utxos[j]),
                forall|j: int|
                    i <= j < l0.vault_utxos.len() ==> (#[trigger] self@.vault_utxos[j])
                        == l0.vault_utxos[j],
            decreases self.vault_utxos@.len() - i,
        {
            let ghost before = self@.vault_utxos;
            assert(before[i as int] == self.vault_utxos@[i as int]@);
            if self.vault_utxos[i].reserved_by == Some(id) {
                self.vault_utxos[i].state = VaultUtxoState::Spent;
                self.vault_utxos[i].spent_by_txid = txid;
            }
            proof {
                assert(self@.vault_utxos =~= before.update(i as int, f(before[i as int])));
            }
            i = i + 1;
        }
        assert(self@.vault_utxos =~= l0.vault_utxos.map_values(f));
    }

    fn write_completed(&mut self, id: i64, k: usize, i: usize, now: i64)
        requires
            k < old(self).payouts@.len(),
            first_row(old(self)@.payouts, payout_for(id)) == Some(k as int),
            old(self)@.payouts[k as int] == old(self).payouts@[k as int]@,
            old(self).at_row(id, i),
        ensures
            final(self)@ == old(self)@.with_payout(
                id,
                PayoutView {
                    state: PayoutState::Completed,
                    completed_at: Some(now),
                    onchain_completed_at: Some(now),
                    ..old(self)@.payout(id).unwrap()
                },
            ).with_request(
                id,
                RequestView {
                    state: RequestState::Settled,
                    settled_at: Some(now),
                    ..old(self)@.request(id).unwrap()
                },
            ).with_log(
                step(
                    id,
                    Some(old(self)@.request(id).unwrap().state),
                    RequestState::Settled,
                    now,
                ),
            ),
    {
        let ghost l0 = self@;
        let was = self.requests[i].state;
        self.payouts[k].state = PayoutState::Completed;
        self.payouts[k].completed_at = Some(now);
        self.payouts[k].onchain_completed_at = Some(now);
        self.requests[i].state = RequestState::Settled;
        self.requests[i].settled_at = Some(now);
        proof {
            assert(self@.payouts =~= l0.payouts.update(
                k as int,
                PayoutView {
                    state: PayoutState::Completed,
                    completed_at: Some(now),
                    onchain_completed_at: Some(now),
                    ..l0.payouts[k as int]
                },
            ));
            assert(self@.requests =~= l0.requests.update(
                i as int,
                RequestView {
                    state: RequestState::Settled,
                    settled_at: Some(now),
                    ..l0.requests[i as int]
                },
            ));
        }
        self.log_transition(id, Some(was), RequestState::Settled, now, None, "system");
    }

    /// Records that the completion of a payout is confirmed and takes the
    /// payout out of the books. Done once, it changes nothing more.
    pub fn mark_goldcoin_completion_confirmed(&mut self, request_id: i64, now: i64) -> (r: Result<
        (),
        LedgerError,
    >)
        requires
            old(self)@.request(request_id) matches Some(q) ==> q.state == RequestState::Settled
                || q.state == RequestState::DestinationConfirmed,
        ensures
            r == old(self)@.complete_payout_result(request_id),
            final(self)@ == (if r is Ok {
                old(self)@.payout_completed(request_id, now)
            } else {
                old(self)@
            }),
    {
        let i = match self.find_request(request_id) {
            Some(i) => i,
            None => {
                return Err(LedgerError::NoSuchRow);
            },
        };
        if matches!(self.requests[i].state, RequestState::Settled) {
            return Ok(());
        }
        let k = match self.find_payout(request_id) {
            Some(k) => k,
            None => {
                return Err(LedgerError::CompletionNotSubmitted(request_id));
            },
        };
        if self.payouts[k].onchain_completion_signature.is_none() {
            return Err(LedgerError::CompletionNotSubmitted(request_id));
        }
        let amount = self.requests[i].net_destination_atomic;
        let fee = self.requests[i].fee_amount_atomic;
        let txid = self.payouts[k].txid;
        if !self.settle_would_fit(ReserveDirection::GoldcoinReserve, amount)
            || !self.fee_would_fit(ReserveDirection::SolanaReserve, fee) {
            return Err(LedgerError::AmountOutOfRange);
        }
        self.write_completed(request_id, k, i, now);
        self.settle(ReserveDirection::GoldcoinReserve, amount);
        self.add_fee(ReserveDirection::SolanaReserve, fee);
        self.spend_reserved(request_id, txid);
        Ok(())
    }
}

/// A completed payout leaves every reserve as solvent as it was, and the vault
/// with exactly as much that is neither protected nor promised.
pub proof fn law_a_payout_keeps_solvency(l: LedgerView, id: i64, now: i64)
    requires
        l.complete_payout_result(id) is Ok,
        l.solvent(),
    ensures
        l.payout_completed(id, now).solvent(),
        l.reserves.row(ReserveDirection::GoldcoinReserve) matches Some(r) ==> l.payout_completed(
            id,
            now,
        ).reserves.row(ReserveDirection::GoldcoinReserve).unwrap().headroom() == r.headroom(),
{
    let m = l.payout_completed(id, now);
    assert forall|d: ReserveDirection| (#[trigger] m.reserves.row(d)) is Some implies m.reserves.row(
        d,
    ).unwrap().solvent() by {
        assert(l.reserves.row(d) is Some ==> l.reserves.row(d).unwrap().solvent());
    }
}

/// A payout is taken out of the books once.
pub proof fn law_a_payout_completes_once(l: LedgerView, id: i64, now: i64, later: i64)
    requires
        l.complete_payout_result(id) is Ok,
    ensures
        ({
            let m = l.payout_completed(id, now);
            &&& m.request(id) matches Some(q) && q.state == RequestState::Settled
            &&& m.complete_payout_result(id) is Ok
            &&& m.payout_completed(id, later) == m
        }),
{
    let q = l.request(id).unwrap();
    lemma_request_id(l, id);
    if q.state != RequestState::Settled {
        let row = RequestView { state: RequestState::Settled, settled_at: Some(now), ..q };
        lemma_with_request(l, id, row);
        let m = l.payout_completed(id, now);
        assert(m.requests == l.with_request(id, row).requests);
        assert(m.request(id) == Some(row));
    }
}

/// A row written over a payout is what is read back for its request.
pub proof fn lemma_with_payout(l: LedgerView, id: i64, row: PayoutView)
    requires
        l.payout(id) is Some,
        row.request_id == id,
    ensures
        l.with_payout(id, row).payout(id) == Some(row),
{
    let p = payout_for(id);
    let m = l.with_payout(id, row);
    lemma_first_row_is_first(l.payouts, p);
    let i = first_row(l.payouts, p).unwrap();
    assert(is_first(m.payouts, p, i)) by {
        assert forall|j: int| 0 <= j < i implies !p(#[trigger] m.payouts[j]) by {
            assert(!p(l.payouts[j]));
        }
    }
    lemma_first_row(m.payouts, p, i);
}

/// A payout has one transaction: recording a broadcast again, with whatever
/// transaction, changes nothing.
pub proof fn law_a_payout_is_sent_once(
    l: LedgerView,
    id: i64,
    txid: [u8; 32],
    amounts: Seq<i64>,
    now: i64,
    other: [u8; 32],
    other_amounts: Seq<i64>,
    later: i64,
)
    requires
        l.send_payout_result(id) is Ok,
    ensures
        ({
            let m = l.payout_sent(id, txid, amounts, now);
            &&& m.send_payout_result(id) is Ok
            &&& m.payout_sent(id, other, other_amounts, later) == m
        }),
{
    let p = l.payout(id).unwrap();
    lemma_first_row_is_first(l.payouts, payout_for(id));
    if p.state == PayoutState::Signed {
        let row = PayoutView {
            state: PayoutState::Broadcast,
            txid: Some(txid),
            broadcast_at: Some(now),
            ..p
        };
        lemma_with_payout(l, id, row);
        let m = l.payout_sent(id, txid, amounts, now);
        assert(m.payouts == l.with_payout(id, row).payouts);
        assert(m.payout(id) == Some(row));
    }
}

proof fn lemma_new_changes(
    rows: Seq<ChangeOutpointView>,
    id: i64,
    txid: [u8; 32],
    amounts: Seq<i64>,
    depth: i64,
    k: int,
)
    requires
        0 <= k <= amounts.len() <= u32::MAX,
        forall|i: int| 0 <= i < rows.len() ==> (#[trigger] rows[i]).txid != txid,
    ensures
        with_changes(rows, id, txid, amounts, depth, k) == rows + Seq::new(
            k as nat,
            |i: int| change_row(id, txid, (i + 1) as u32, amounts[i], depth),
        ),
    decreases k,
{
    let added = |i: int| change_row(id, txid, (i + 1) as u32, amounts[i], depth);
    if k <= 0 {
        assert(rows + Seq::new(0, added) =~= rows);
    } else {
        lemma_new_changes(rows, id, txid, amounts, depth, k - 1);
        let before = with_changes(rows, id, txid, amounts, depth, k - 1);
        let p = change_at(txid, k as u32);
        if any_row(before, p) {
            let i = choose|i: int| 0 <= i < before.len() && p(#[trigger] before[i]);
            if i < rows.len() {
                assert(before[i] == rows[i]);
            } else {
                assert(before[i] == added(i - rows.len()));
            }
        }
        assert(before.push(added(k - 1)) =~= rows + Seq::new(k as nat, added));
    }
}

/// Recording that a signed payout was sent moves the payout and its request on,
/// and records its change: with a transaction that is new, exactly the outputs
/// after the first, each a step deeper than the deepest unconfirmed change that
/// it spends. Recording it again changes nothing.
pub proof fn law_a_sent_payout_records_its_change(
    l: LedgerView,
    id: i64,
    txid: [u8; 32],
    amounts: Seq<i64>,
    now: i64,
    later: i64,
)
    requires
        l.payout(id) matches Some(p) && p.state == PayoutState::Signed,
        l.request(id) matches Some(q) && q.state == RequestState::SettlementAuthorized,
        forall|i: int|
            0 <= i < l.change_outpoints.len() ==> (#[trigger] l.change_outpoints[i]).txid != txid,
        amounts.len() <= u32::MAX,
        l.parent_depth(id) < i64::MAX,
    ensures
        l.send_payout_result(id) == Ok::<(), LedgerError>(()),
        ({
            let m = l.payout_sent(id, txid, amounts, now);
            let depth = (l.parent_depth(id) + 1) as i64;
            &&& m.payout(id) matches Some(p) && p.state == PayoutState::Broadcast && p.txid
                == Some(txid)
            &&& m.request(id) matches Some(q) && q.state == RequestState::DestinationSubmitted
                && q.destination_txid == Some(txid@)
            &&& m.change_outpoints == l.change_outpoints + Seq::new(
                amounts.len(),
                |i: int| change_row(id, txid, (i + 1) as u32, amounts[i], depth),
            )
            &&& m.send_payout_result(id) == Ok::<(), LedgerError>(())
            &&& m.payout_sent(id, txid, amounts, later) == m
        }),
{
    let p = l.payout(id).unwrap();
    let q = l.request(id).unwrap();
    let row = PayoutView {
        state: PayoutState::Broadcast,
        txid: Some(txid),
        broadcast_at: Some(now),
        ..p
    };
    let moved = RequestView {
        state: RequestState::DestinationSubmitted,
        destination_txid: Some(txid@),
        ..q
    };
    let m = l.payout_sent(id, txid, amounts, now);
    lemma_first_row_is_first(l.payouts, payout_for(id));
    lemma_with_payout(l, id, row);
    lemma_request_id(l, id);
    lemma_with_request(l, id, moved);
    assert(m.payouts == l.with_payout(id, row).payouts);
    assert(m.payout(id) == Some(row));
    assert(m.requests == l.with_request(id, moved).requests);
    assert(m.request(id) == Some(moved));
    lemma_new_changes(
        l.change_outpoints,
        id,
        txid,
        amounts,
        (l.parent_depth(id) + 1) as i64,
        amounts.len() as int,
    );
    law_a_payout_is_sent_once(l, id, txid, amounts, now, txid, amounts, later);
}

/// The depth that is recorded of a payout never falls.
pub proof fn law_recorded_depth_never_falls(
    p: PayoutView,
    q: RequestView,
    confirmations: i64,
    tip_height: i64,
)
    ensures
        payout_seen(p, confirmations, tip_height).confirmations >= p.confirmations,
        destination_seen(q, confirmations).destination_confirmations
            >= q.destination_confirmations,
        p.mined_height is Some ==> payout_seen(p, confirmations, tip_height).mined_height
            == p.mined_height,
{
}

} // verus!
