//! Lists and pages of requests and of their steps.
use vstd::prelude::*;
use crate::holds::id_order;
use crate::ledger::{Ledger, LedgerView};
use crate::rows::{
    BridgeRequest, ExplorerEventRow, ExplorerEventView, LogEntry, RequestView,
    RobinhoodDepositRow, RobinhoodDepositView, StateLogRow, dup_text,
};
use crate::table::{
    any_row, any_where, bytes_eq, collect_where, count_rows, count_where, newest, newest_where,
    select_rows, sort_rows, sorted_by, text_of, values,
};
use crate::types::{Direction, RequestState};

verus! {

/// A step of a request: from which state, to which, when and why.
pub type StateLogEntry = (Option<RequestState>, RequestState, i64, Option<String>);

/// An address whose transfers are asked for.
#[derive(Clone, Copy, Debug)]
pub enum TransferAddressFilter {
    Solana([u8; 32]),
    Evm([u8; 20]),
}

/// A request in this direction and state.
pub open spec fn request_in(direction: Direction, state: RequestState) -> spec_fn(
    RequestView,
) -> bool {
    |q: RequestView| q.direction == direction && q.state == state
}

/// The highest number first.
pub open spec fn latest_request() -> spec_fn(RequestView, RequestView) -> bool {
    |a: RequestView, b: RequestView| a.id >= b.id
}

/// A deposit on Robinhood that was folded into this request, by this wallet,
/// and whose block stands.
pub open spec fn deposited_by(id: i64, wallet: [u8; 20]) -> spec_fn(RobinhoodDepositView) -> bool {
    |o: RobinhoodDepositView|
        o.folded_request_id == Some(id) && !o.reorged && o.depositor == wallet
}

impl LedgerView {
    /// A request in which this address takes part.
    pub open spec fn takes_part(self, q: RequestView, address: TransferAddressFilter) -> bool {
        match address {
            TransferAddressFilter::Solana(a) => match q.direction {
                Direction::GlcToSol | Direction::RhnToSol => q.recipient == a@,
                Direction::SolToGlc | Direction::SolToRhn => q.requester == Some(a),
                _ => false,
            },
            TransferAddressFilter::Evm(a) => match q.direction {
                Direction::GlcToRhn | Direction::SolToRhn => q.recipient == a@,
                Direction::RhnToGlc | Direction::RhnToSol => any_row(
                    self.robinhood_deposits,
                    deposited_by(q.id, a),
                ),
                _ => false,
            },
        }
    }

    /// A request that is asked for.
    pub open spec fn wanted_transfer(
        self,
        address: Option<TransferAddressFilter>,
        state: Option<RequestState>,
        before_id: Option<i64>,
    ) -> spec_fn(RequestView) -> bool {
        |q: RequestView|
            {
                &&& address matches Some(a) ==> self.takes_part(q, a)
                &&& state matches Some(s) ==> q.state == s
                &&& before_id matches Some(b) ==> q.id < b
            }
    }

    /// These are the requests that satisfy `p`, the highest number first.
    pub open spec fn requests_latest_first(
        self,
        p: spec_fn(RequestView) -> bool,
        rows: Seq<RequestView>,
    ) -> bool {
        &&& sorted_by(rows, latest_request())
        &&& rows.to_multiset() == select_rows(self.requests, p).to_multiset()
    }

    /// A step that is asked for: its request must still be known.
    pub open spec fn wanted_event(
        self,
        direction: Option<Direction>,
        to_state: Option<RequestState>,
        before_id: Option<i64>,
    ) -> spec_fn(int, LogEntry) -> bool {
        |i: int, e: LogEntry|
            {
                &&& self.request(e.request_id) matches Some(q) && (direction matches Some(d)
                    ==> q.direction == d)
                &&& to_state matches Some(s) ==> e.to_state == s
                &&& before_id matches Some(b) ==> i + 1 < b
            }
    }

    /// A step with its number and the direction of its request.
    pub open spec fn event(self, i: int) -> ExplorerEventView {
        let e = self.state_log[i];
        ExplorerEventView {
            id: (i + 1) as i64,
            request_id: e.request_id,
            direction: self.request(e.request_id).unwrap().direction,
            from_state: e.from_state,
            to_state: e.to_state,
            at: e.at,
            reason: e.reason,
        }
    }
}

/// A step of this request.
pub open spec fn step_of(id: i64) -> spec_fn(LogEntry) -> bool {
    |e: LogEntry| e.request_id == id
}

/// What is told of a step.
pub open spec fn tells(x: StateLogEntry, e: LogEntry) -> bool {
    &&& x.0 == e.from_state
    &&& x.1 == e.to_state
    &&& x.2 == e.at
    &&& text_of(x.3) == e.reason
}

/// How far up a list must be cut to hold no more than `limit`.
pub open spec fn cut(len: nat, limit: u32) -> int {
    if len < limit {
        len as int
    } else {
        limit as int
    }
}

impl Ledger {
    /// The requests in this direction and state, in the order of their
    /// numbers.
    pub fn requests_by_state(&self, direction: Direction, state: RequestState) -> (r: Vec<
        BridgeRequest,
    >)
        ensures
            sorted_by(values(r@), id_order()),
            values(r@).to_multiset() == select_rows(
                self@.requests,
                request_in(direction, state),
            ).to_multiset(),
    {
        let rows = collect_where(
            &self.requests,
            |q: &BridgeRequest| -> (b: bool) ensures b == request_in(direction, state)(q@) {
                q.direction == direction && q.state == state
            },
            |q: &BridgeRequest| -> (d: BridgeRequest) ensures d@ == q@ { q.clone() },
            Ghost(request_in(direction, state)),
            Ghost(|q: RequestView| q),
        );
        proof {
            let sel = select_rows(self@.requests, request_in(direction, state));
            assert(sel.map_values(|q: RequestView| q) =~= sel);
        }
        sort_rows(
            rows,
            |a: &BridgeRequest, b: &BridgeRequest| -> (r: bool)
                ensures r == id_order()(a@, b@) { a.id <= b.id },
            Ghost(id_order()),
        )
    }

    /// How many requests in this direction stand in each state that occurs.
    pub fn request_state_counts(&self, direction: Direction) -> (r: Vec<(RequestState, i64)>)
        ensures
            forall|k: int|
                0 <= k < r@.len() ==> (#[trigger] r@[k]).1 == count_rows(
                    self@.requests,
                    request_in(direction, r@[k].0),
                ) as i64,
            forall|j: int, k: int|
                0 <= j < k < r@.len() ==> (#[trigger] r@[j]).0 != (#[trigger] r@[k]).0,
            forall|i: int|
                0 <= i < self@.requests.len() && (#[trigger] self@.requests[i]).direction
                    == direction ==> exists|k: int|
                    0 <= k < r@.len() && (#[trigger] r@[k]).0 == self@.requests[i].state,
            forall|k: int|
                0 <= k < r@.len() ==> any_row(
                    self@.requests,
                    request_in(direction, (#[trigger] r@[k]).0),
                ),
    {
        let ghost rows = self@.requests;
        let mut out: Vec<(RequestState, i64)> = Vec::new();
        let mut i: usize = 0;
        while i < self.requests.len()
            invariant
                i <= self.requests@.len(),
                rows == self@.requests,
                rows.len() == self.requests@.len(),
                forall|k: int|
                    0 <= k < out@.len() ==> (#[trigger] out@[k]).1 == count_rows(
                        rows,
                        request_in(direction, out@[k].0),
                    ) as i64,
                forall|j: int, k: int|
                    0 <= j < k < out@.len() ==> (#[trigger] out@[j]).0 != (#[trigger] out@[k]).0,
                forall|j: int|
                    0 <= j < i && (#[trigger] rows[j]).direction == direction ==> exists|k: int|
                        0 <= k < out@.len() && (#[trigger] out@[k]).0 == rows[j].state,
                forall|k: int|
                    0 <= k < out@.len() ==> any_row(
                        rows,
                        request_in(direction, (#[trigger] out@[k]).0),
                    ),
            decreases self.requests@.len() - i,
        {
            let q = &self.requests[i];
            assert(rows[i as int] == q@);
            let state = q.state;
            if q.direction == direction {
                let mut there = false;
                let mut k: usize = 0;
                while k < out.len()
                    invariant
                        k <= out@.len(),
                        there == exists|j: int| 0 <= j < k && (#[trigger] out@[j]).0 == state,
                    decreases out@.len() - k,
                {
                    if out[k].0 == state {
                        there = true;
                    }
                    k = k + 1;
                }
                if !there {
                    let n: usize = count_where(
                        &self.requests,
                        |x: &BridgeRequest| -> (b: bool)
                            ensures b == request_in(direction, state)(x@) {
                            x.direction == direction && x.state == state
                        },
                        Ghost(request_in(direction, state)),
                    );
                    let ghost before = out@;
                    out.push((state, n as i64));
                    proof {
                        assert(request_in(direction, state)(rows[i as int]));
                        assert forall|j: int|
                            0 <= j < i + 1 && (#[trigger] rows[j]).direction
                                == direction implies exists|k: int|
                            0 <= k < out@.len() && (#[trigger] out@[k]).0 == rows[j].state by {
                            if j < i {
                                let k = choose|k: int|
                                    0 <= k < before.len() && (#[trigger] before[k]).0
                                        == rows[j].state;
                                assert(out@[k] == before[k]);
                            } else {
                                assert(out@[before.len() as int].0 == state);
                            }
                        }
                    }
                }
            }
            i = i + 1;
        }
        out
    }

    fn has_part(&self, q: &BridgeRequest, address: &TransferAddressFilter) -> (r: bool)
        ensures
            r == self@.takes_part(q@, *address),
    {
        match address {
            TransferAddressFilter::Solana(a) => match q.direction {
                Direction::GlcToSol | Direction::RhnToSol => bytes_eq(q.recipient.as_slice(), a),
                Direction::SolToGlc | Direction::SolToRhn => crate::table::is32(&q.requester, a),
                _ => false,
            },
            TransferAddressFilter::Evm(a) => match q.direction {
                Direction::GlcToRhn | Direction::SolToRhn => bytes_eq(q.recipient.as_slice(), a),
                Direction::RhnToGlc | Direction::RhnToSol => any_where(
                    &self.robinhood_deposits,
                    |o: &RobinhoodDepositRow| -> (b: bool)
                        ensures b == deposited_by(q.id, *a)(o@) {
                        o.folded_request_id == Some(q.id) && !o.reorged && eq20(&o.depositor, a)
                    },
                    Ghost(deposited_by(q.id, *a)),
                ),
                _ => false,
            },
        }
    }

    /// The latest requests in which an address takes part, or all, in one
    /// state or in any, before the one with this number where one is named.
    pub fn transfers_page(
        &self,
        address: Option<TransferAddressFilter>,
        state: Option<RequestState>,
        before_id: Option<i64>,
        limit: u32,
    ) -> (r: Vec<BridgeRequest>)
        ensures
            exists|rows: Seq<RequestView>| #[trigger]
                self@.requests_latest_first(
                    self@.wanted_transfer(address, state, before_id),
                    rows,
                ) && values(r@) == rows.take(cut(rows.len(), limit)),
    {
        let ghost p = self@.wanted_transfer(address, state, before_id);
        let rows = collect_where(
            &self.requests,
            |q: &BridgeRequest| -> (b: bool) ensures b == p(q@) {
                (match &address {
                    Some(a) => self.has_part(q, a),
                    None => true,
                }) && (match state {
                    Some(s) => q.state == s,
                    None => true,
                }) && (match before_id {
                    Some(b) => q.id < b,
                    None => true,
                })
            },
            |q: &BridgeRequest| -> (d: BridgeRequest) ensures d@ == q@ { q.clone() },
            Ghost(p),
            Ghost(|q: RequestView| q),
        );
        proof {
            let sel = select_rows(self@.requests, p);
            assert(sel.map_values(|q: RequestView| q) =~= sel);
        }
        let mut all = sort_rows(
            rows,
            |a: &BridgeRequest, b: &BridgeRequest| -> (r: bool)
                ensures r == latest_request()(a@, b@) { a.id >= b.id },
            Ghost(latest_request()),
        );
        let ghost sorted = values(all@);
        if all.len() > limit as usize {
            all.truncate(limit as usize);
        }
        proof {
            assert(self@.requests_latest_first(p, sorted));
            assert(values(all@) =~= sorted.take(cut(sorted.len(), limit)));
        }
        all
    }

    /// The steps of a request, in the order in which they were taken.
    pub fn state_log(&self, request_id: i64) -> (r: Vec<StateLogEntry>)
        ensures
            r@.len() == select_rows(self@.state_log, step_of(request_id)).len(),
            forall|k: int|
                0 <= k < r@.len() ==> tells(
                    #[trigger] r@[k],
                    select_rows(self@.state_log, step_of(request_id))[k],
                ),
    {
        let rows = collect_where(
            &self.state_log,
            |e: &StateLogRow| -> (b: bool) ensures b == step_of(request_id)(e@) {
                e.request_id == request_id
            },
            |e: &StateLogRow| -> (d: StateLogRow) ensures d@ == e@ { e.clone() },
            Ghost(step_of(request_id)),
            Ghost(|e: LogEntry| e),
        );
        let ghost sel = select_rows(self@.state_log, step_of(request_id));
        proof {
            assert(sel.map_values(|e: LogEntry| e) =~= sel);
        }
        let mut out: Vec<StateLogEntry> = Vec::new();
        let mut i: usize = 0;
        while i < rows.len()
            invariant
                i <= rows@.len(),
                values(rows@) == sel,
                out@.len() == i,
                forall|k: int| 0 <= k < i ==> tells(#[trigger] out@[k], sel[k]),
            decreases rows@.len() - i,
        {
            let e = &rows[i];
            assert(values(rows@)[i as int] == e@);
            out.push((e.from_state, e.to_state, e.at, dup_text(&e.reason)));
            i = i + 1;
        }
        out
    }

    fn is_wanted_event(
        &self,
        i: usize,
        e: &StateLogRow,
        direction: Option<Direction>,
        to_state: Option<RequestState>,
        before_id: Option<i64>,
    ) -> (r: bool)
        ensures
            r == self@.wanted_event(direction, to_state, before_id)(i as int, e@),
    {
        (match self.find_request(e.request_id) {
            Some(k) => match direction {
                Some(d) => self.requests[k].direction == d,
                None => true,
            },
            None => false,
        }) && (match to_state {
            Some(s) => e.to_state == s,
            None => true,
        }) && (match before_id {
            Some(b) => (i as i128) + 1 < b as i128,
            None => true,
        })
    }

    /// The latest steps of the requests in one direction or in any, into one
    /// state or into any, before the one with this number where one is named,
    /// the newest first.
    pub fn explorer_events_page(
        &self,
        direction: Option<Direction>,
        to_state: Option<RequestState>,
        before_id: Option<i64>,
        limit: u32,
    ) -> (r: Vec<ExplorerEventRow>)
        ensures
            values(r@) == newest(
                self@.state_log,
                self@.wanted_event(direction, to_state, before_id),
                limit as nat,
            ).map_values(|i: int| self@.event(i)),
    {
        let ghost rows = self@.state_log;
        let ghost p = self@.wanted_event(direction, to_state, before_id);
        let ghost g = |i: int| self@.event(i);
        let at = newest_where(
            &self.state_log,
            |i: usize, e: &StateLogRow| -> (b: bool) ensures b == p(i as int, e@) {
                self.is_wanted_event(i, e, direction, to_state, before_id)
            },
            limit,
            Ghost(p),
        );
        let ghost want = newest(rows, p, limit as nat);
        let mut out: Vec<ExplorerEventRow> = Vec::new();
        let mut k: usize = 0;
        assert(values(out@) =~= want.take(0).map_values(g));
        while k < at.len()
            invariant
                k <= at@.len(),
                rows == self@.state_log,
                p == self@.wanted_event(direction, to_state, before_id),
                g == |i: int| self@.event(i),
                want == newest(rows, p, limit as nat),
                at@.map_values(|i: usize| i as int) == want,
                forall|k: int| 0 <= k < at@.len() ==> (#[trigger] at@[k]) < self.state_log@.len(),
                values(out@) == want.take(k as int).map_values(g),
            decreases at@.len() - k,
        {
            let i = at[k];
            assert(i < self.state_log.len());
            let e = &self.state_log[i];
            proof {
                assert(want[k as int] == i);
                assert(rows[i as int] == e@);
                lemma_newest_satisfies(rows, p, limit as nat, k as int);
            }
            match self.find_request(e.request_id) {
                Some(j) => {
                    let ghost before = out@;
                    let n: usize = i + 1;
                    let x = ExplorerEventRow {
                        id: n as i64,
                        request_id: e.request_id,
                        direction: self.requests[j].direction,
                        from_state: e.from_state,
                        to_state: e.to_state,
                        at: e.at,
                        reason: dup_text(&e.reason),
                    };
                    let ghost v = x@;
                    out.push(x);
                    proof {
                        assert(v == g(want[k as int]));
                        assert(values(out@) =~= values(before).push(v));
                        assert(values(out@) =~= want.take(k + 1).map_values(g));
                    }
                },
                None => {
                    proof {
                        assert(false);
                    }
                },
            }
            k = k + 1;
        }
        assert(want.take(want.len() as int) =~= want);
        out
    }
}

fn eq20(a: &[u8; 20], b: &[u8; 20]) -> (r: bool)
    ensures
        r == (*a == *b),
{
    let same = bytes_eq(a, b);
    proof {
        if a@ == b@ {
            assert(*a =~= *b);
        }
    }
    same
}

proof fn lemma_newest_satisfies<T>(
    rows: Seq<T>,
    p: spec_fn(int, T) -> bool,
    limit: nat,
    k: int,
)
    requires
        0 <= k < newest(rows, p, limit).len(),
    ensures
        ({
            let i = newest(rows, p, limit)[k];
            0 <= i < rows.len() && p(i, rows[i])
        }),
    decreases rows.len(),
{
    if rows.len() > 0 && limit > 0 {
        let rest = rows.drop_last();
        if p(rows.len() - 1, rows.last()) {
            if k > 0 {
                lemma_newest_satisfies(rest, p, (limit - 1) as nat, k - 1);
            }
        } else {
            lemma_newest_satisfies(rest, p, limit, k);
        }
    }
}

} // verus!
