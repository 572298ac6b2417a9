//! What is on its way out of a reserve and not yet out of its books.
use vstd::prelude::*;
use crate::error::LedgerError;
use crate::ledger::{Ledger, LedgerView, by_id};
use crate::rows::{
    BridgeRequest, PayoutRow, PayoutView, RebalanceRow, RebalanceView, RequestView,
    RobinhoodTxRow, RobinhoodTxView, SolanaRefund, SolanaRefundView, VaultSplitRow,
    VaultSplitView,
};
use crate::table::{
    any_row, any_where, concat, count_rows, count_where, decimal, decimal_u64, find_where,
    first_row, lemma_first_row_is_first, lemma_sum_update, narrow, sum_rows, sum_where,
};
use crate::types::{
    PayoutState, RebalanceState, RequestState, ReserveDirection, RobinhoodTxKind,
    RobinhoodTxState, SolanaRefundState,
};
use crate::vault::{chunks_explainable, fits, split_chunks_still_explainable};

verus! {

/// The sum of two amounts, no more than the largest amount.
pub open spec fn plus(a: u64, b: u64) -> u64 {
    if a + b > u64::MAX {
        u64::MAX
    } else {
        (a + b) as u64
    }
}

/// A request whose destination is `d` and whose payment was sent and is not in
/// the books.
pub open spec fn on_its_way(d: ReserveDirection) -> spec_fn(RequestView) -> bool {
    |q: RequestView|
        {
            &&& q.direction.spec_destination_reserve() == d
            &&& q.state == RequestState::DestinationSubmitted || (q.state
                == RequestState::DestinationConfirmed
                && !q.direction.spec_debited_at_confirmation())
        }
}

/// What a request pays.
pub open spec fn net_of() -> spec_fn(RequestView) -> int {
    |q: RequestView| q.net_destination_atomic as int
}

/// A Solana refund that was broadcast.
pub open spec fn refund_sent() -> spec_fn(SolanaRefundView) -> bool {
    |x: SolanaRefundView| x.state == SolanaRefundState::Broadcast
}

/// A payout in this state.
pub open spec fn payout_in(state: PayoutState) -> spec_fn(PayoutView) -> bool {
    |x: PayoutView| x.state == state
}

/// A split whose chunks are still expected.
pub open spec fn explained_split(now: i64) -> spec_fn(VaultSplitView) -> bool {
    |s: VaultSplitView| chunks_explainable(s, now)
}

/// An operation on Robinhood that was broadcast, and is no incident: what
/// became final has not been so for `incident_secs`.
pub open spec fn sent_to_robinhood(t: RobinhoodTxView, now: i64, incident_secs: i64) -> bool {
    t.state == RobinhoodTxState::Broadcast || t.state == RobinhoodTxState::Included || (t.state
        == RobinhoodTxState::Finalized && (t.finalized_at matches Some(f) && f > now
        - incident_secs))
}

/// Rebalances by number.
pub open spec fn rebalance_by_id(id: i64) -> spec_fn(RebalanceView) -> bool {
    |b: RebalanceView| b.id == id
}

/// The inputs of a payout: what it pays, returns and costs.
pub open spec fn spec_payout_cost(x: PayoutView) -> int {
    x.payout_atomic + x.change_atomic + x.fee_atomic
}

/// The inputs of a payout, where that is an amount that can be stored.
pub open spec fn stored_cost() -> spec_fn(PayoutView) -> int {
    |x: PayoutView|
        if fits(spec_payout_cost(x)) {
            spec_payout_cost(x)
        } else {
            0
        }
}

/// A broadcast payout whose inputs are no amount that can be stored.
pub open spec fn unstorable_payout() -> spec_fn(PayoutView) -> bool {
    |x: PayoutView| x.state == PayoutState::Broadcast && !fits(spec_payout_cost(x))
}

fn payout_cost(x: &PayoutRow) -> (r: i128)
    ensures
        r == spec_payout_cost(x@),
{
    x.payout_atomic as i128 + x.change_atomic as i128 + x.fee_atomic as i128
}

impl LedgerView {
    /// Rebalance `id`.
    pub open spec fn rebalance(self, id: i64) -> Option<RebalanceView> {
        match first_row(self.proposals.rebalances, rebalance_by_id(id)) {
            Some(i) => Some(self.proposals.rebalances[i]),
            None => None,
        }
    }

    /// A payout on Robinhood whose request is not in the books.
    pub open spec fn rhn_payout_sent(self, now: i64, incident_secs: i64) -> spec_fn(
        RobinhoodTxView,
    ) -> bool {
        |t: RobinhoodTxView|
            {
                &&& t.kind == RobinhoodTxKind::Payout
                &&& sent_to_robinhood(t, now, incident_secs)
                &&& t.request_id matches Some(id) && self.request(id) matches Some(q) && q.state
                    != RequestState::DestinationConfirmed && q.state != RequestState::Settled
            }
    }

    /// What such a payout pays.
    pub open spec fn rhn_payout_value(self) -> spec_fn(RobinhoodTxView) -> int {
        |t: RobinhoodTxView|
            match t.request_id {
                Some(id) => match self.request(id) {
                    Some(q) => q.net_destination_atomic as int,
                    None => 0,
                },
                None => 0,
            }
    }

    /// A withdrawal to the treasury whose rebalance is not in the books.
    pub open spec fn rhn_withdraw_sent(self, now: i64, incident_secs: i64) -> spec_fn(
        RobinhoodTxView,
    ) -> bool {
        |t: RobinhoodTxView|
            {
                &&& t.kind == RobinhoodTxKind::TreasuryWithdraw
                &&& sent_to_robinhood(t, now, incident_secs)
                &&& t.rebalance_request_id matches Some(id) && self.rebalance(id) matches Some(b)
                    && b.state != RebalanceState::Confirmed
            }
    }

    /// What such a withdrawal takes.
    pub open spec fn rhn_withdraw_value(self) -> spec_fn(RobinhoodTxView) -> int {
        |t: RobinhoodTxView|
            match t.rebalance_request_id {
                Some(id) => match self.rebalance(id) {
                    Some(b) => b.amount_atomic as int,
                    None => 0,
                },
                None => 0,
            }
    }

    /// What was sent out on Robinhood and is not in the books.
    pub open spec fn rhn_in_flight(self, now: i64, incident_secs: i64) -> Result<u64, LedgerError> {
        let a = sum_rows(
            self.robinhood_txs,
            self.rhn_payout_sent(now, incident_secs),
            self.rhn_payout_value(),
        );
        let b = sum_rows(
            self.robinhood_txs,
            self.rhn_withdraw_sent(now, incident_secs),
            self.rhn_withdraw_value(),
        );
        if fits(a) && fits(b) {
            Ok(plus(a as u64, b as u64))
        } else {
            Err(LedgerError::AmountOutOfRange)
        }
    }

    /// The inputs of the payouts that were broadcast and are not confirmed, if
    /// that is an amount that can be stored, as each one's must be.
    pub open spec fn sent_payout_value(self) -> Option<i64> {
        let n = sum_rows(self.payouts, payout_in(PayoutState::Broadcast), stored_cost());
        if any_row(self.payouts, unstorable_payout()) || !fits(n) {
            None
        } else {
            Some(n as i64)
        }
    }

    /// What the vault has spent and not got back.
    pub open spec fn vault_in_flight(self, now: i64) -> Result<u64, LedgerError> {
        let fees = sum_rows(
            self.payouts,
            payout_in(PayoutState::Confirmed),
            |x: PayoutView| x.fee_atomic as int,
        );
        let splits = sum_rows(
            self.splits,
            explained_split(now),
            |s: VaultSplitView| s.fee_atomic as int,
        );
        match self.own_change(now) {
            Err(e) => Err(e),
            Ok(change) => match self.sent_payout_value() {
                Some(sent) => if fits(fees) && fits(splits) {
                    Ok(plus(plus(plus(sent as u64, change), fees as u64), splits as u64))
                } else {
                    Err(LedgerError::AmountOutOfRange)
                },
                None => Err(LedgerError::AmountOutOfRange),
            },
        }
    }

    /// What the Solana refunds that were broadcast give back.
    pub open spec fn refunds_in_flight(self) -> int {
        sum_rows(
            self.solana_refunds,
            refund_sent(),
            |x: SolanaRefundView| (x.amount_solana_atomic as i64) as int,
        )
    }

    /// What is on its way out of a reserve and not yet out of its books.
    pub open spec fn in_flight(self, d: ReserveDirection, now: i64, incident_secs: i64) -> Result<
        u64,
        LedgerError,
    > {
        let base = sum_rows(self.requests, on_its_way(d), net_of());
        if !fits(base) {
            Err(LedgerError::AmountOutOfRange)
        } else {
            match d {
                ReserveDirection::SolanaReserve => if fits(self.refunds_in_flight()) {
                    Ok(plus(base as u64, self.refunds_in_flight() as u64))
                } else {
                    Err(LedgerError::AmountOutOfRange)
                },
                ReserveDirection::GoldcoinReserve => match self.vault_in_flight(now) {
                    Ok(v) => Ok(plus(base as u64, v)),
                    Err(e) => Err(e),
                },
                ReserveDirection::RobinhoodReserve => match self.rhn_in_flight(
                    now,
                    incident_secs,
                ) {
                    Ok(v) => Ok(plus(base as u64, v)),
                    Err(e) => Err(e),
                },
            }
        }
    }
}

fn is_sent_to_robinhood(t: &RobinhoodTxRow, now: i64, incident_secs: i64) -> (r: bool)
    ensures
        r == sent_to_robinhood(t@, now, incident_secs),
{
    match t.state {
        RobinhoodTxState::Broadcast | RobinhoodTxState::Included => true,
        RobinhoodTxState::Finalized => match t.finalized_at {
            Some(f) => f as i128 > now as i128 - incident_secs as i128,
            None => false,
        },
        _ => false,
    }
}

impl Ledger {
    /// Where rebalance `id` stands in its table.
    pub(crate) fn find_rebalance(&self, id: i64) -> (r: Option<usize>)
        ensures
            match r {
                Some(i) => {
                    &&& i < self.proposals.rebalances@.len()
                    &&& first_row(self@.proposals.rebalances, rebalance_by_id(id)) == Some(i as int)
                    &&& self@.rebalance(id) == Some(self.proposals.rebalances@[i as int]@)
                    &&& self@.proposals.rebalances[i as int]
                        == self.proposals.rebalances@[i as int]@
                    &&& self.proposals.rebalances@[i as int].id == id
                },
                None => self@.rebalance(id) is None,
            },
    {
        find_where(
            &self.proposals.rebalances,
            |b: &RebalanceRow| -> (r: bool) ensures r == rebalance_by_id(id)(b@) { b.id == id },
            Ghost(rebalance_by_id(id)),
        )
    }

    fn is_rhn_payout_sent(&self, t: &RobinhoodTxRow, now: i64, incident_secs: i64) -> (r: bool)
        ensures
            r == self@.rhn_payout_sent(now, incident_secs)(t@),
    {
        t.kind == RobinhoodTxKind::Payout && is_sent_to_robinhood(t, now, incident_secs)
            && match t.request_id {
            Some(id) => match self.find_request(id) {
                Some(i) => !matches!(
                    self.requests[i].state,
                    RequestState::DestinationConfirmed | RequestState::Settled
                ),
                None => false,
            },
            None => false,
        }
    }

    fn rhn_payout_amount(&self, t: &RobinhoodTxRow) -> (r: i64)
        ensures
            r == self@.rhn_payout_value()(t@),
    {
        match t.request_id {
            Some(id) => match self.find_request(id) {
                Some(i) => self.requests[i].net_destination_atomic,
                None => 0,
            },
            None => 0,
        }
    }

    fn is_rhn_withdraw_sent(&self, t: &RobinhoodTxRow, now: i64, incident_secs: i64) -> (r: bool)
        ensures
            r == self@.rhn_withdraw_sent(now, incident_secs)(t@),
    {
        t.kind == RobinhoodTxKind::TreasuryWithdraw && is_sent_to_robinhood(t, now, incident_secs)
            && match t.rebalance_request_id {
            Some(id) => match self.find_rebalance(id) {
                Some(i) => !matches!(
                    self.proposals.rebalances[i].state,
                    RebalanceState::Confirmed
                ),
                None => false,
            },
            None => false,
        }
    }

    fn rhn_withdraw_amount(&self, t: &RobinhoodTxRow) -> (r: i64)
        ensures
            r == self@.rhn_withdraw_value()(t@),
    {
        match t.rebalance_request_id {
            Some(id) => match self.find_rebalance(id) {
                Some(i) => self.proposals.rebalances[i].amount_atomic,
                None => 0,
            },
            None => 0,
        }
    }

    /// What was sent out on Robinhood and is not in the books.
    pub(crate) fn robinhood_outbound_in_flight_atomic(&self, now: i64, incident_secs: i64) -> (r:
        Result<u64, LedgerError>)
        ensures
            r == self@.rhn_in_flight(now, incident_secs),
    {
        let a: i128 = sum_where(
            &self.robinhood_txs,
            |t: &RobinhoodTxRow| -> (b: bool)
                ensures b == self@.rhn_payout_sent(now, incident_secs)(t@) {
                self.is_rhn_payout_sent(t, now, incident_secs)
            },
            |t: &RobinhoodTxRow| -> (n: i64) ensures n == self@.rhn_payout_value()(t@) {
                self.rhn_payout_amount(t)
            },
            Ghost(self@.rhn_payout_sent(now, incident_secs)),
            Ghost(self@.rhn_payout_value()),
        );
        let b: i128 = sum_where(
            &self.robinhood_txs,
            |t: &RobinhoodTxRow| -> (b: bool)
                ensures b == self@.rhn_withdraw_sent(now, incident_secs)(t@) {
                self.is_rhn_withdraw_sent(t, now, incident_secs)
            },
            |t: &RobinhoodTxRow| -> (n: i64) ensures n == self@.rhn_withdraw_value()(t@) {
                self.rhn_withdraw_amount(t)
            },
            Ghost(self@.rhn_withdraw_sent(now, incident_secs)),
            Ghost(self@.rhn_withdraw_value()),
        );
        match (narrow(a), narrow(b)) {
            (Some(x), Some(y)) => Ok((x as u64).saturating_add(y as u64)),
            _ => Err(LedgerError::AmountOutOfRange),
        }
    }

    fn sent_payouts(&self) -> (r: Option<i64>)
        ensures
            r == self@.sent_payout_value(),
    {
        if any_where(
            &self.payouts,
            |x: &PayoutRow| -> (b: bool) ensures b == unstorable_payout()(x@) {
                matches!(x.state, PayoutState::Broadcast) && narrow(payout_cost(x)).is_none()
            },
            Ghost(unstorable_payout()),
        ) {
            return None;
        }
        let n: i128 = sum_where(
            &self.payouts,
            |x: &PayoutRow| -> (b: bool) ensures b == payout_in(PayoutState::Broadcast)(x@) {
                matches!(x.state, PayoutState::Broadcast)
            },
            |x: &PayoutRow| -> (n: i64) ensures n == stored_cost()(x@) {
                match narrow(payout_cost(x)) {
                    Some(n) => n,
                    None => 0,
                }
            },
            Ghost(payout_in(PayoutState::Broadcast)),
            Ghost(stored_cost()),
        );
        narrow(n)
    }

    fn vault_value_in_flight(&self, now: i64) -> (r: Result<u64, LedgerError>)
        ensures
            r == self@.vault_in_flight(now),
    {
        let sent = self.sent_payouts();
        let change = match self.own_unconfirmed_change_atomic(now) {
            Ok(c) => c,
            Err(e) => {
                return Err(e);
            },
        };
        let fees: i128 = sum_where(
            &self.payouts,
            |x: &PayoutRow| -> (b: bool) ensures b == payout_in(PayoutState::Confirmed)(x@) {
                matches!(x.state, PayoutState::Confirmed)
            },
            |x: &PayoutRow| -> (n: i64) ensures n == x@.fee_atomic { x.fee_atomic },
            Ghost(payout_in(PayoutState::Confirmed)),
            Ghost(|x: PayoutView| x.fee_atomic as int),
        );
        let splits: i128 = sum_where(
            &self.splits,
            |s: &VaultSplitRow| -> (b: bool) ensures b == explained_split(now)(s@) {
                split_chunks_still_explainable(s, now)
            },
            |s: &VaultSplitRow| -> (n: i64) ensures n == s@.fee_atomic { s.fee_atomic },
            Ghost(explained_split(now)),
            Ghost(|s: VaultSplitView| s.fee_atomic as int),
        );
        match (sent, narrow(fees), narrow(splits)) {
            (Some(a), Some(b), Some(c)) => Ok(
                (a as u64).saturating_add(change).saturating_add(b as u64).saturating_add(c as u64),
            ),
            _ => Err(LedgerError::AmountOutOfRange),
        }
    }

    /// What is on its way out of a reserve and not yet out of its books.
    /// `incident_secs` says after how long an operation on Robinhood that
    /// became final and was never taken out of the books is an incident.
    pub fn pending_destination_settlement_amount(
        &self,
        direction: ReserveDirection,
        now: i64,
        incident_secs: i64,
    ) -> (r: Result<u64, LedgerError>)
        ensures
            r == self@.in_flight(direction, now, incident_secs),
    {
        let n: i128 = sum_where(
            &self.requests,
            |q: &BridgeRequest| -> (b: bool) ensures b == on_its_way(direction)(q@) {
                q.direction.destination_reserve() == direction && (matches!(
                    q.state,
                    RequestState::DestinationSubmitted
                ) || (matches!(q.state, RequestState::DestinationConfirmed)
                    && !q.direction.destination_debited_at_destination_confirmed()))
            },
            |q: &BridgeRequest| -> (n: i64) ensures n == net_of()(q@) { q.net_destination_atomic },
            Ghost(on_its_way(direction)),
            Ghost(net_of()),
        );
        let base = match narrow(n) {
            Some(b) => b as u64,
            None => {
                return Err(LedgerError::AmountOutOfRange);
            },
        };
        match direction {
            ReserveDirection::SolanaReserve => {
                let v: i128 = sum_where(
                    &self.solana_refunds,
                    |x: &SolanaRefund| -> (b: bool) ensures b == refund_sent()(x@) {
                        matches!(x.state, SolanaRefundState::Broadcast)
                    },
                    |x: &SolanaRefund| -> (n: i64) ensures n == x@.amount_solana_atomic as i64 {
                        x.amount_solana_atomic as i64
                    },
                    Ghost(refund_sent()),
                    Ghost(|x: SolanaRefundView| (x.amount_solana_atomic as i64) as int),
                );
                match narrow(v) {
                    Some(v) => Ok(base.saturating_add(v as u64)),
                    None => Err(LedgerError::AmountOutOfRange),
                }
            },
            ReserveDirection::GoldcoinReserve => match self.vault_value_in_flight(now) {
                Ok(v) => Ok(base.saturating_add(v)),
                Err(e) => Err(e),
            },
            ReserveDirection::RobinhoodReserve => match self.robinhood_outbound_in_flight_atomic(
                now,
                incident_secs,
            ) {
                Ok(v) => Ok(base.saturating_add(v)),
                Err(e) => Err(e),
            },
        }
    }
}

/// How much there is of everything on the Robinhood side.
#[derive(Clone, Copy, Debug, PartialEq, Eq, Structural)]
pub struct RobinhoodActivity {
    pub deposit_observations: u64,
    pub transactions: u64,
    /// Requests from or to Robinhood.
    pub requests: u64,
    /// Rebalances of the Robinhood reserve.
    pub rebalances: u64,
}

impl Default for RobinhoodActivity {
    fn default() -> (r: Self)
        ensures
            r.deposit_observations == 0,
            r.transactions == 0,
            r.requests == 0,
            r.rebalances == 0,
    {
        RobinhoodActivity { deposit_observations: 0, transactions: 0, requests: 0, rebalances: 0 }
    }
}

impl RobinhoodActivity {
    /// Whether there is nothing.
    pub fn is_empty(&self) -> (r: bool)
        ensures
            r == (self.deposit_observations == 0 && self.transactions == 0 && self.requests == 0
                && self.rebalances == 0),
    {
        self.deposit_observations == 0 && self.transactions == 0 && self.requests == 0
            && self.rebalances == 0
    }

    /// How much there is, in words.
    pub open spec fn spec_text(self) -> Seq<char> {
        decimal(self.deposit_observations as int) + " deposit observation(s), "@ + decimal(
            self.transactions as int,
        ) + " outbound operation(s), "@ + decimal(self.requests as int)
            + " bridge request(s), "@ + decimal(self.rebalances as int)
            + " rebalance request(s)"@
    }

    /// How much there is, in words.
    pub fn text(&self) -> (r: String)
        ensures
            r@ == self.spec_text(),
    {
        let s = decimal_u64(self.deposit_observations);
        let s = concat(s.as_str(), " deposit observation(s), ");
        let n = decimal_u64(self.transactions);
        let s = concat(s.as_str(), n.as_str());
        let s = concat(s.as_str(), " outbound operation(s), ");
        let n = decimal_u64(self.requests);
        let s = concat(s.as_str(), n.as_str());
        let s = concat(s.as_str(), " bridge request(s), ");
        let n = decimal_u64(self.rebalances);
        let s = concat(s.as_str(), n.as_str());
        concat(s.as_str(), " rebalance request(s)")
    }
}

/// A request from or to Robinhood.
pub open spec fn touches_robinhood() -> spec_fn(RequestView) -> bool {
    |q: RequestView|
        q.direction.spec_source_reserve() == ReserveDirection::RobinhoodReserve
            || q.direction.spec_destination_reserve() == ReserveDirection::RobinhoodReserve
}

/// A rebalance of this reserve.
pub open spec fn rebalance_of(d: ReserveDirection) -> spec_fn(RebalanceView) -> bool {
    |b: RebalanceView| b.direction == d
}

impl Ledger {
    /// How much there is of everything on the Robinhood side.
    pub fn robinhood_activity(&self) -> (r: RobinhoodActivity)
        ensures
            r.deposit_observations == self@.robinhood_deposits.len(),
            r.transactions == self@.robinhood_txs.len(),
            r.requests == count_rows(self@.requests, touches_robinhood()),
            r.rebalances == count_rows(
                self@.proposals.rebalances,
                rebalance_of(ReserveDirection::RobinhoodReserve),
            ),
    {
        let requests: usize = count_where(
            &self.requests,
            |q: &BridgeRequest| -> (b: bool) ensures b == touches_robinhood()(q@) {
                q.direction.source_reserve() == ReserveDirection::RobinhoodReserve
                    || q.direction.destination_reserve() == ReserveDirection::RobinhoodReserve
            },
            Ghost(touches_robinhood()),
        );
        let rebalances: usize = count_where(
            &self.proposals.rebalances,
            |b: &RebalanceRow| -> (r: bool)
                ensures r == rebalance_of(ReserveDirection::RobinhoodReserve)(b@) {
                b.direction == ReserveDirection::RobinhoodReserve
            },
            Ghost(rebalance_of(ReserveDirection::RobinhoodReserve)),
        );
        let deposits: usize = self.robinhood_deposits.len();
        let transactions: usize = self.robinhood_txs.len();
        RobinhoodActivity {
            deposit_observations: deposits as u64,
            transactions: transactions as u64,
            requests: requests as u64,
            rebalances: rebalances as u64,
        }
    }
}

/// A release stops being counted as on its way out at the moment at which it
/// leaves the books, and by the same amount.
pub proof fn law_a_release_is_explained_until_it_is_booked(l: LedgerView, id: i64, now: i64)
    requires
        l.release_confirmed_result(id) is Ok,
        l.request(id) matches Some(q) && q.state == RequestState::DestinationSubmitted
            && q.direction.spec_destination_reserve() == ReserveDirection::SolanaReserve,
    ensures
        ({
            let d = ReserveDirection::SolanaReserve;
            let net = l.request(id).unwrap().net_destination_atomic;
            let m = l.release_confirmed(id, now);
            &&& sum_rows(m.requests, on_its_way(d), net_of()) == sum_rows(
                l.requests,
                on_its_way(d),
                net_of(),
            ) - net
            &&& l.reserves.row(d) matches Some(r) ==> m.reserves.row(d).unwrap().total_reserve_balance
                == r.total_reserve_balance - net
        }),
{
    let d = ReserveDirection::SolanaReserve;
    let q = l.request(id).unwrap();
    let m = l.release_confirmed(id, now);
    lemma_first_row_is_first(l.requests, by_id(id));
    let i = l.pos(id).unwrap();
    lemma_sum_update(l.requests, on_its_way(d), net_of(), i, m.requests[i]);
    assert(m.requests =~= l.requests.update(i, m.requests[i]));
}

} // verus!
