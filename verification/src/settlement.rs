//! Settling requests in the books, and what is on its way out of a reserve.
use vstd::prelude::*;
use crate::error::LedgerError;
use crate::ledger::{Ledger, LedgerView, ReserveRow, lemma_request_id, lemma_with_request, step};
use crate::rows::{RequestView, bytes_vec};
use crate::table::{add_checked, sub_checked};
use crate::types::{Direction, RequestState, ReserveDirection};
use crate::vault::fits;

verus! {

impl LedgerView {
    /// The amounts that settling `amount` out of `d` leaves can be stored.
    pub open spec fn settle_fits(self, d: ReserveDirection, amount: int) -> bool {
        self.reserves.row(d) matches Some(r) ==> fits(r.reserved_liquidity - amount) && fits(
            r.pending_obligations - amount,
        ) && fits(r.settled_liquidity_total + amount) && fits(r.total_reserve_balance - amount)
    }

    /// The ledger after `amount` was paid out of `d`: it is promised and owed
    /// no more, and gone from the balance.
    pub open spec fn settle(self, d: ReserveDirection, amount: int) -> LedgerView {
        match self.reserves.row(d) {
            Some(r) => self.with_reserve(
                d,
                ReserveRow {
                    reserved_liquidity: (r.reserved_liquidity - amount) as i64,
                    pending_obligations: (r.pending_obligations - amount) as i64,
                    settled_liquidity_total: (r.settled_liquidity_total + amount) as i64,
                    total_reserve_balance: (r.total_reserve_balance - amount) as i64,
                    ..r
                },
            ),
            None => self,
        }
    }

    /// The fees that `fee` more makes can be stored.
    pub open spec fn fee_fits(self, d: ReserveDirection, fee: int) -> bool {
        self.reserves.row(d) matches Some(r) ==> fits(r.accrued_fees_atomic + fee)
    }

    /// The ledger with `fee` more earned on `d`.
    pub open spec fn add_fee(self, d: ReserveDirection, fee: int) -> LedgerView {
        match self.reserves.row(d) {
            Some(r) => self.with_reserve(
                d,
                ReserveRow { accrued_fees_atomic: (r.accrued_fees_atomic + fee) as i64, ..r },
            ),
            None => self,
        }
    }

    /// Whether the confirmation of a release can be recorded.
    pub open spec fn release_confirmed_result(self, id: i64) -> Result<(), LedgerError> {
        match self.request(id) {
            None => Err(LedgerError::NoSuchRow),
            Some(q) => if q.state != RequestState::DestinationSubmitted || (self.settle_fits(
                ReserveDirection::SolanaReserve,
                q.net_destination_atomic as int,
            ) && self.fee_fits(q.direction.spec_source_reserve(), q.fee_amount_atomic as int)) {
                Ok(())
            } else {
                Err(LedgerError::AmountOutOfRange)
            },
        }
    }

    /// The ledger after the confirmation of a release was recorded.
    pub open spec fn release_confirmed(self, id: i64, now: i64) -> LedgerView {
        let q = self.request(id).unwrap();
        if q.state != RequestState::DestinationSubmitted {
            self
        } else {
            let done = q.direction.spec_settles_on_release();
            let l = self.with_request(
                id,
                if done {
                    RequestView { state: RequestState::Settled, settled_at: Some(now), ..q }
                } else {
                    RequestView { state: RequestState::DestinationConfirmed, ..q }
                },
            ).with_log(step(id, Some(q.state), RequestState::DestinationConfirmed, now));
            let l = if done {
                l.with_log(
                    step(
                        id,
                        Some(RequestState::DestinationConfirmed),
                        RequestState::Settled,
                        now,
                    ),
                )
            } else {
                l
            };
            l.settle(ReserveDirection::SolanaReserve, q.net_destination_atomic as int).add_fee(
                q.direction.spec_source_reserve(),
                q.fee_amount_atomic as int,
            )
        }
    }
}

/// A request into Solana that stands where the confirmation of its release can
/// be recorded, or where that was done.
pub open spec fn release_expected(q: RequestView) -> bool {
    &&& q.direction.spec_destination_reserve() == ReserveDirection::SolanaReserve
    &&& q.state == RequestState::DestinationSubmitted || q.state == RequestState::Settled || (
    q.state == RequestState::DestinationConfirmed && !q.direction.spec_settles_on_release())
}

impl Ledger {
    pub(crate) fn settle_would_fit(&self, d: ReserveDirection, amount: i64) -> (r: bool)
        ensures
            r == self@.settle_fits(d, amount as int),
    {
        match self.reserves.get(d) {
            Some(row) => sub_checked(row.reserved_liquidity, amount).is_some() && sub_checked(
                row.pending_obligations,
                amount,
            ).is_some() && add_checked(row.settled_liquidity_total, amount).is_some()
                && sub_checked(row.total_reserve_balance, amount).is_some(),
            None => true,
        }
    }

    pub(crate) fn settle(&mut self, d: ReserveDirection, amount: i64)
        requires
            old(self)@.settle_fits(d, amount as int),
        ensures
            final(self)@ == old(self)@.settle(d, amount as int),
            final(self).requests == old(self).requests,
    {
        match self.reserves.get(d) {
            Some(row) => {
                self.put_reserve(
                    d,
                    ReserveRow {
                        reserved_liquidity: row.reserved_liquidity - amount,
                        pending_obligations: row.pending_obligations - amount,
                        settled_liquidity_total: row.settled_liquidity_total + amount,
                        total_reserve_balance: row.total_reserve_balance - amount,
                        ..row
                    },
                );
            },
            None => {},
        }
    }

    pub(crate) fn fee_would_fit(&self, d: ReserveDirection, fee: i64) -> (r: bool)
        ensures
            r == self@.fee_fits(d, fee as int),
    {
        match self.reserves.get(d) {
            Some(row) => add_checked(row.accrued_fees_atomic, fee).is_some(),
            None => true,
        }
    }

    pub(crate) fn add_fee(&mut self, d: ReserveDirection, fee: i64)
        requires
            old(self)@.fee_fits(d, fee as int),
        ensures
            final(self)@ == old(self)@.add_fee(d, fee as int),
            final(self).requests == old(self).requests,
    {
        match self.reserves.get(d) {
            Some(row) => {
                self.put_reserve(
                    d,
                    ReserveRow { accrued_fees_atomic: row.accrued_fees_atomic + fee, ..row },
                );
            },
            None => {},
        }
    }

    /// Records that a release was sent to Solana. Beyond the state from which
    /// it is sent, this changes nothing.
    pub fn record_release_submitted(&mut self, request_id: i64, signature: [u8; 64], now: i64) -> (r:
        Result<(), LedgerError>)
        requires
            old(self)@.request(request_id) matches Some(q)
                ==> q.direction.spec_destination_reserve() == ReserveDirection::SolanaReserve,
        ensures
            r == (if old(self)@.request(request_id) is Some {
                Ok(())
            } else {
                Err(LedgerError::NoSuchRow)
            }),
            final(self)@ == (match old(self)@.request(request_id) {
                Some(q) => if q.state == RequestState::SourceFinalized {
                    old(self)@.with_request(
                        request_id,
                        RequestView {
                            state: RequestState::DestinationSubmitted,
                            destination_txid: Some(signature@),
                            ..q
                        },
                    ).with_log(
                        step(
                            request_id,
                            Some(q.state),
                            RequestState::DestinationSubmitted,
                            now,
                        ),
                    )
                } else {
                    old(self)@
                },
                None => old(self)@,
            }),
    {
        let i = match self.find_request(request_id) {
            Some(i) => i,
            None => {
                return Err(LedgerError::NoSuchRow);
            },
        };
        if !matches!(self.requests[i].state, RequestState::SourceFinalized) {
            return Ok(());
        }
        let ghost l0 = self@;
        let bytes = bytes_vec(&signature);
        self.requests[i].state = RequestState::DestinationSubmitted;
        self.requests[i].destination_txid = Some(bytes);
        proof {
            assert(self@.requests =~= l0.requests.update(
                i as int,
                RequestView {
                    state: RequestState::DestinationSubmitted,
                    destination_txid: Some(signature@),
                    ..l0.requests[i as int]
                },
            ));
        }
        self.log_transition(
            request_id,
            Some(RequestState::SourceFinalized),
            RequestState::DestinationSubmitted,
            now,
            None,
            "system",
        );
        Ok(())
    }

    fn write_confirmed_row(&mut self, id: i64, i: usize, done: bool, now: i64)
        requires
            old(self).at_row(id, i),
        ensures
            final(self)@ == ({
                let q = old(self)@.request(id).unwrap();
                old(self)@.with_request(
                    id,
                    if done {
                        RequestView { state: RequestState::Settled, settled_at: Some(now), ..q }
                    } else {
                        RequestView { state: RequestState::DestinationConfirmed, ..q }
                    },
                )
            }),
    {
        let ghost l0 = self@;
        if done {
            self.requests[i].state = RequestState::Settled;
            self.requests[i].settled_at = Some(now);
            proof {
                assert(self@.requests =~= l0.requests.update(
                    i as int,
                    RequestView {
                        state: RequestState::Settled,
                        settled_at: Some(now),
                        ..l0.requests[i as int]
                    },
                ));
            }
        } else {
            self.requests[i].state = RequestState::DestinationConfirmed;
            proof {
                assert(self@.requests =~= l0.requests.update(
                    i as int,
                    RequestView { state: RequestState::DestinationConfirmed, ..l0.requests[i as int] },
                ));
            }
        }
    }

    fn write_release(&mut self, id: i64, i: usize, done: bool, now: i64)
        requires
            old(self).at_row(id, i),
        ensures
            final(self)@ == ({
                let q = old(self)@.request(id).unwrap();
                let l = old(self)@.with_request(
                    id,
                    if done {
                        RequestView { state: RequestState::Settled, settled_at: Some(now), ..q }
                    } else {
                        RequestView { state: RequestState::DestinationConfirmed, ..q }
                    },
                ).with_log(step(id, Some(q.state), RequestState::DestinationConfirmed, now));
                if done {
                    l.with_log(
                        step(
                            id,
                            Some(RequestState::DestinationConfirmed),
                            RequestState::Settled,
                            now,
                        ),
                    )
                } else {
                    l
                }
            }),
    {
        let was = self.requests[i].state;
        self.write_confirmed_row(id, i, done, now);
        self.log_transition(
            id,
            Some(was),
            RequestState::DestinationConfirmed,
            now,
            None,
            "system",
        );
        if done {
            self.log_transition(
                id,
                Some(RequestState::DestinationConfirmed),
                RequestState::Settled,
                now,
                None,
                "system",
            );
        }
    }

    /// Records that a release is confirmed and takes it out of the books.
    /// Done once, it changes nothing more.
    pub fn mark_release_confirmed(&mut self, request_id: i64, now: i64) -> (r: Result<
        (),
        LedgerError,
    >)
        requires
            old(self)@.request(request_id) matches Some(q) ==> release_expected(q),
        ensures
            r == old(self)@.release_confirmed_result(request_id),
            final(self)@ == (if r is Ok {
                old(self)@.release_confirmed(request_id, now)
            } else {
                old(self)@
            }),
    {
        let i = match self.find_request(request_id) {
            Some(i) => i,
            None => {
                return Err(LedgerError::NoSuchRow);
            },
        };
        if !matches!(self.requests[i].state, RequestState::DestinationSubmitted) {
            return Ok(());
        }
        let amount = self.requests[i].net_destination_atomic;
        let fee = self.requests[i].fee_amount_atomic;
        let source = self.requests[i].direction.source_reserve();
        let done = self.requests[i].direction.settles_on_release();
        if !self.settle_would_fit(ReserveDirection::SolanaReserve, amount) || !self.fee_would_fit(
            source,
            fee,
        ) {
            return Err(LedgerError::AmountOutOfRange);
        }
        self.write_release(request_id, i, done, now);
        self.settle(ReserveDirection::SolanaReserve, amount);
        self.add_fee(source, fee);
        Ok(())
    }

    /// How deep the destination transaction of a request is confirmed.
    pub fn destination_confirmations(&self, request_id: i64) -> (r: Result<i64, LedgerError>)
        ensures
            r == (match self@.request(request_id) {
                Some(q) => Ok(q.destination_confirmations),
                None => Err(LedgerError::RequestNotFound(request_id)),
            }),
    {
        match self.find_request(request_id) {
            Some(i) => Ok(self.requests[i].destination_confirmations),
            None => Err(LedgerError::RequestNotFound(request_id)),
        }
    }
}

/// A release that is confirmed leaves the reserve exactly as solvent as it
/// was: what is paid out of the balance was promised before.
pub proof fn law_a_release_keeps_solvency(l: LedgerView, id: i64, now: i64)
    requires
        l.release_confirmed_result(id) is Ok,
        l.solvent(),
    ensures
        l.release_confirmed(id, now).solvent(),
        l.reserves.row(ReserveDirection::SolanaReserve) matches Some(r) ==> l.release_confirmed(
            id,
            now,
        ).reserves.row(ReserveDirection::SolanaReserve).unwrap().headroom() == r.headroom(),
{
    let m = l.release_confirmed(id, now);
    assert forall|d: ReserveDirection| (#[trigger] m.reserves.row(d)) is Some implies m.reserves.row(
        d,
    ).unwrap().solvent() by {
        assert(l.reserves.row(d) is Some ==> l.reserves.row(d).unwrap().solvent());
    }
}

/// A release that is confirmed leaves what is promised, owed and held by exactly
/// what it paid and adds that to what was settled, so nothing more can be
/// promised than before; the fee is earned where the deposit was made. A request
/// from Goldcoin is settled by it, one from Robinhood waits for its deposit to be
/// closed. Recording it again changes nothing.
pub proof fn law_a_release_moves_its_amount(
    l: LedgerView,
    id: i64,
    now: i64,
    later: i64,
    source: ReserveRow,
    solana: ReserveRow,
)
    requires
        l.request(id) matches Some(q) && q.state == RequestState::DestinationSubmitted && (
        q.direction == Direction::GlcToSol || q.direction == Direction::RhnToSol)
            && l.reserves.row(q.direction.spec_source_reserve()) == Some(source),
        l.reserves.row(ReserveDirection::SolanaReserve) == Some(solana),
        l.settle_fits(
            ReserveDirection::SolanaReserve,
            l.request(id).unwrap().net_destination_atomic as int,
        ),
        l.fee_fits(
            l.request(id).unwrap().direction.spec_source_reserve(),
            l.request(id).unwrap().fee_amount_atomic as int,
        ),
    ensures
        l.release_confirmed_result(id) == Ok::<(), LedgerError>(()),
        ({
            let q = l.request(id).unwrap();
            let n = q.net_destination_atomic;
            let m = l.release_confirmed(id, now);
            let paid = m.reserves.row(ReserveDirection::SolanaReserve).unwrap();
            &&& paid.reserved_liquidity == solana.reserved_liquidity - n
            &&& paid.pending_obligations == solana.pending_obligations - n
            &&& paid.total_reserve_balance == solana.total_reserve_balance - n
            &&& paid.settled_liquidity_total == solana.settled_liquidity_total + n
            &&& paid.headroom() == solana.headroom()
            &&& m.reserves.row(q.direction.spec_source_reserve()).unwrap().accrued_fees_atomic
                == source.accrued_fees_atomic + q.fee_amount_atomic
            &&& m.request(id).unwrap().state == (if q.direction == Direction::GlcToSol {
                RequestState::Settled
            } else {
                RequestState::DestinationConfirmed
            })
            &&& m.release_confirmed_result(id) == Ok::<(), LedgerError>(())
            &&& m.release_confirmed(id, later) == m
        }),
{
    let q = l.request(id).unwrap();
    lemma_request_id(l, id);
    let row = if q.direction.spec_settles_on_release() {
        RequestView { state: RequestState::Settled, settled_at: Some(now), ..q }
    } else {
        RequestView { state: RequestState::DestinationConfirmed, ..q }
    };
    lemma_with_request(l, id, row);
    let m = l.release_confirmed(id, now);
    assert(m.requests == l.with_request(id, row).requests);
    assert(m.request(id) == Some(row));
    law_a_release_settles_once(l, id, now, later);
}

/// A release is taken out of the books once.
pub proof fn law_a_release_settles_once(l: LedgerView, id: i64, now: i64, later: i64)
    requires
        l.release_confirmed_result(id) is Ok,
    ensures
        ({
            let m = l.release_confirmed(id, now);
            &&& m.release_confirmed_result(id) is Ok
            &&& m.release_confirmed(id, later) == m
        }),
{
    let q = l.request(id).unwrap();
    lemma_request_id(l, id);
    if q.state == RequestState::DestinationSubmitted {
        let row = if q.direction.spec_settles_on_release() {
            RequestView { state: RequestState::Settled, settled_at: Some(now), ..q }
        } else {
            RequestView { state: RequestState::DestinationConfirmed, ..q }
        };
        lemma_with_request(l, id, row);
        let m = l.release_confirmed(id, now);
        assert(m.requests == l.with_request(id, row).requests);
        assert(m.request(id) == Some(row));
    }
}

} // verus!
