//! What the lists and pages of requests hold, and in which order.
use vstd::prelude::*;
use crate::holds::id_order;
use crate::ledger::LedgerView;
use crate::queries::{TransferAddressFilter, cut, request_in, step_of};
use crate::rows::{ExplorerEventView, LogEntry, RequestView};
use crate::table::{
    lemma_selected, lemma_selects_all, newest, select_rows, sorted_by,
};
use crate::types::{Direction, RequestState};

verus! {

/// Two lists with the same items, however often and in whatever order, hold the
/// same items.
pub proof fn lemma_same_items<T>(a: Seq<T>, b: Seq<T>)
    requires
        a.to_multiset() == b.to_multiset(),
    ensures
        a.len() == b.len(),
        forall|x: T| #[trigger] a.contains(x) <==> b.contains(x),
{
    broadcast use vstd::seq_lib::group_to_multiset_ensures;
    assert(a.len() == a.to_multiset().len());
    assert(b.len() == b.to_multiset().len());
    assert forall|x: T| #[trigger] a.contains(x) <==> b.contains(x) by {
        assert(a.contains(x) <==> a.to_multiset().count(x) > 0);
        assert(b.contains(x) <==> b.to_multiset().count(x) > 0);
    }
}

/// What is selected is exactly what stands in the table and is asked for.
pub proof fn lemma_selection<T>(rows: Seq<T>, p: spec_fn(T) -> bool)
    ensures
        forall|x: T| #[trigger] select_rows(rows, p).contains(x) <==> rows.contains(x) && p(x),
        select_rows(rows, p).len() <= rows.len(),
    decreases rows.len(),
{
    let sel = select_rows(rows, p);
    assert forall|x: T| #[trigger] sel.contains(x) <==> rows.contains(x) && p(x) by {
        if sel.contains(x) {
            let j = choose|j: int| 0 <= j < sel.len() && sel[j] == x;
            lemma_selected(rows, p, j);
        }
        if rows.contains(x) && p(x) {
            let i = choose|i: int| 0 <= i < rows.len() && rows[i] == x;
            lemma_selects_all(rows, p, i);
        }
    }
    if rows.len() > 0 {
        lemma_selection(rows.drop_last(), p);
    }
}

/// A page of transfers holds what was asked for, and nothing else: by its
/// wallets, where one is named, by its state, and by its number. A wallet on
/// Solana takes part as the one that is paid there or that paid in there; one on
/// Robinhood as the one that is paid there, or that made the deposit which was
/// folded into the request and whose block stands. The page has the highest
/// numbers first, is no longer than asked for, and leaves out only what comes after
/// a full page.
pub proof fn law_a_page_holds_what_is_asked_for(
    l: LedgerView,
    address: Option<TransferAddressFilter>,
    state: Option<RequestState>,
    before_id: Option<i64>,
    limit: u32,
    rows: Seq<RequestView>,
    q: RequestView,
)
    requires
        l.requests_latest_first(l.wanted_transfer(address, state, before_id), rows),
        l.requests.contains(q),
    ensures
        ({
            let page = rows.take(cut(rows.len(), limit));
            let deposited = |a: [u8; 20]|
                exists|j: int|
                    0 <= j < l.robinhood_deposits.len() && (
                    #[trigger] l.robinhood_deposits[j]).folded_request_id == Some(q.id)
                        && !l.robinhood_deposits[j].reorged && l.robinhood_deposits[j].depositor
                        == a;
            let by_address = match address {
                None => true,
                Some(TransferAddressFilter::Solana(a)) => ((q.direction == Direction::GlcToSol
                    || q.direction == Direction::RhnToSol) && q.recipient == a@) || ((q.direction
                    == Direction::SolToGlc || q.direction == Direction::SolToRhn) && q.requester
                    == Some(a)),
                Some(TransferAddressFilter::Evm(a)) => ((q.direction == Direction::GlcToRhn
                    || q.direction == Direction::SolToRhn) && q.recipient == a@) || ((q.direction
                    == Direction::RhnToGlc || q.direction == Direction::RhnToSol) && deposited(a)),
            };
            let asked = by_address && (state is None || state == Some(q.state)) && (before_id is None
                || q.id < before_id.unwrap());
            &&& page.len() <= limit
            &&& page.contains(q) ==> asked
            &&& asked && !page.contains(q) ==> page.len() == limit && forall|k: int|
                0 <= k < page.len() ==> (#[trigger] page[k]).id >= q.id
            &&& asked && limit >= l.requests.len() ==> page.contains(q)
            &&& forall|i: int, j: int|
                0 <= i < j < page.len() ==> (#[trigger] page[i]).id >= (#[trigger] page[j]).id
            &&& forall|k: int| 0 <= k < page.len() ==> l.requests.contains(#[trigger] page[k])
        }),
{
    let p = l.wanted_transfer(address, state, before_id);
    let n = cut(rows.len(), limit);
    let page = rows.take(n);
    lemma_same_items(rows, select_rows(l.requests, p));
    lemma_selection(l.requests, p);
    if page.contains(q) {
        let k = choose|k: int| 0 <= k < page.len() && page[k] == q;
        assert(rows[k] == q);
        assert(rows.contains(q));
    }
    if p(q) {
        assert(rows.contains(q));
        let k = choose|k: int| 0 <= k < rows.len() && rows[k] == q;
        if k < n {
            assert(page[k] == q);
        }
        assert forall|i: int| 0 <= i < page.len() && k >= n implies (#[trigger] page[i]).id >= q.id by {
            assert(rows[i] == page[i]);
        }
    }
    assert forall|i: int| 0 <= i < page.len() implies l.requests.contains(#[trigger] page[i]) by {
        assert(rows[i] == page[i]);
        assert(rows.contains(rows[i]));
    }
}

/// The deposits that one wallet made on Robinhood are all found by that wallet,
/// into whichever chain they went.
pub proof fn law_a_depositor_finds_their_transfers(
    l: LedgerView,
    i: int,
    j: int,
    limit: u32,
    rows: Seq<RequestView>,
)
    requires
        0 <= i < l.requests.len(),
        0 <= j < l.robinhood_deposits.len(),
        l.requests[i].direction == Direction::RhnToGlc || l.requests[i].direction
            == Direction::RhnToSol,
        l.robinhood_deposits[j].folded_request_id == Some(l.requests[i].id),
        !l.robinhood_deposits[j].reorged,
        limit >= l.requests.len(),
        l.requests_latest_first(
            l.wanted_transfer(
                Some(TransferAddressFilter::Evm(l.robinhood_deposits[j].depositor)),
                None,
                None,
            ),
            rows,
        ),
    ensures
        rows.take(cut(rows.len(), limit)).contains(l.requests[i]),
{
    let a = l.robinhood_deposits[j].depositor;
    assert(l.requests.contains(l.requests[i]));
    law_a_page_holds_what_is_asked_for(
        l,
        Some(TransferAddressFilter::Evm(a)),
        None,
        None,
        limit,
        rows,
        l.requests[i],
    );
}

/// The list of the requests in one direction and state holds exactly those, in
/// the order of their numbers.
pub proof fn law_requests_are_listed_by_state(
    l: LedgerView,
    direction: Direction,
    state: RequestState,
    list: Seq<RequestView>,
    q: RequestView,
)
    requires
        sorted_by(list, id_order()),
        list.to_multiset() == select_rows(l.requests, request_in(direction, state)).to_multiset(),
    ensures
        list.contains(q) <==> l.requests.contains(q) && q.direction == direction && q.state
            == state,
        forall|i: int, j: int|
            0 <= i < j < list.len() ==> (#[trigger] list[i]).id <= (#[trigger] list[j]).id,
{
    lemma_same_items(list, select_rows(l.requests, request_in(direction, state)));
    lemma_selection(l.requests, request_in(direction, state));
}

proof fn lemma_newest<T>(rows: Seq<T>, p: spec_fn(int, T) -> bool, limit: nat)
    ensures
        ({
            let s = newest(rows, p, limit);
            &&& s.len() <= limit
            &&& forall|k: int|
                0 <= k < s.len() ==> 0 <= (#[trigger] s[k]) < rows.len() && p(s[k], rows[s[k]])
            &&& forall|j: int, k: int| 0 <= j < k < s.len() ==> #[trigger] s[j] > #[trigger] s[k]
            &&& forall|i: int|
                0 <= i < rows.len() && p(i, #[trigger] rows[i]) && !s.contains(i) ==> s.len()
                    == limit && forall|k: int| 0 <= k < s.len() ==> #[trigger] s[k] > i
        }),
    decreases rows.len(),
{
    let s = newest(rows, p, limit);
    if rows.len() > 0 && limit > 0 {
        let rest = rows.drop_last();
        let top = rows.len() - 1;
        if p(top, rows.last()) {
            let t = newest(rest, p, (limit - 1) as nat);
            lemma_newest(rest, p, (limit - 1) as nat);
            assert forall|k: int| 0 <= k < s.len() implies 0 <= (#[trigger] s[k]) < rows.len() && p(
                s[k],
                rows[s[k]],
            ) by {
                if k > 0 {
                    assert(s[k] == t[k - 1]);
                    assert(rest[t[k - 1]] == rows[t[k - 1]]);
                }
            }
            assert forall|j: int, k: int| 0 <= j < k < s.len() implies #[trigger] s[j]
                > #[trigger] s[k] by {
                assert(s[k] == t[k - 1]);
                if j > 0 {
                    assert(s[j] == t[j - 1]);
                }
            }
            assert forall|i: int|
                0 <= i < rows.len() && p(i, #[trigger] rows[i]) && !s.contains(i) implies s.len()
                == limit && forall|k: int| 0 <= k < s.len() ==> #[trigger] s[k] > i by {
                assert(s[0] == top);
                assert(i < top);
                assert(rest[i] == rows[i]);
                if t.contains(i) {
                    let k = choose|k: int| 0 <= k < t.len() && t[k] == i;
                    assert(s[k + 1] == i);
                }
                assert forall|k: int| 0 <= k < s.len() implies #[trigger] s[k] > i by {
                    if k > 0 {
                        assert(s[k] == t[k - 1]);
                    }
                }
            }
        } else {
            lemma_newest(rest, p, limit);
            assert forall|k: int| 0 <= k < s.len() implies 0 <= (#[trigger] s[k]) < rows.len() && p(
                s[k],
                rows[s[k]],
            ) by {
                assert(rest[s[k]] == rows[s[k]]);
            }
            assert forall|i: int|
                0 <= i < rows.len() && p(i, #[trigger] rows[i]) && !s.contains(i) implies s.len()
                == limit && forall|k: int| 0 <= k < s.len() ==> #[trigger] s[k] > i by {
                assert(i < top);
                assert(rest[i] == rows[i]);
            }
        }
    }
}

/// A page of steps tells of those that were asked for, by the direction of their
/// request, the state that they led to, and their number, the newest first. It is
/// no longer than asked for and leaves out only what is older than a full page. A
/// step is told as it was logged.
pub proof fn law_a_page_of_steps_is_exact(
    l: LedgerView,
    direction: Option<Direction>,
    to_state: Option<RequestState>,
    before_id: Option<i64>,
    limit: nat,
    i: int,
)
    requires
        0 <= i < l.state_log.len() < i64::MAX,
    ensures
        ({
            let page = newest(l.state_log, l.wanted_event(direction, to_state, before_id), limit);
            let shown = page.map_values(|i: int| l.event(i));
            let e = l.state_log[i];
            let asked = l.request(e.request_id) is Some && (direction is None || direction == Some(
                l.request(e.request_id).unwrap().direction,
            )) && (to_state is None || to_state == Some(e.to_state)) && (before_id is None || i + 1
                < before_id.unwrap());
            &&& page.len() <= limit && shown.len() == page.len()
            &&& page.contains(i) ==> asked
            &&& asked && !page.contains(i) ==> page.len() == limit && forall|k: int|
                0 <= k < page.len() ==> #[trigger] page[k] > i
            &&& forall|j: int, k: int|
                0 <= j < k < page.len() ==> #[trigger] page[j] > #[trigger] page[k]
            &&& forall|k: int|
                0 <= k < shown.len() && page[k] == i ==> #[trigger] shown[k] == (
                ExplorerEventView {
                    id: (i + 1) as i64,
                    request_id: e.request_id,
                    direction: l.request(e.request_id).unwrap().direction,
                    from_state: e.from_state,
                    to_state: e.to_state,
                    at: e.at,
                    reason: e.reason,
                })
        }),
{
    let p = l.wanted_event(direction, to_state, before_id);
    lemma_newest(l.state_log, p, limit);
    let page = newest(l.state_log, p, limit);
    if page.contains(i) {
        let k = choose|k: int| 0 <= k < page.len() && page[k] == i;
        assert(p(page[k], l.state_log[page[k]]));
    }
}

/// The steps of a request are exactly those that were logged for it, in the
/// order in which they were logged.
pub proof fn law_the_steps_of_a_request_are_its_own(log: Seq<LogEntry>, id: i64, e: LogEntry)
    ensures
        select_rows(log, step_of(id)).contains(e) <==> log.contains(e) && e.request_id == id,
        select_rows(log.push(e), step_of(id)) == (if e.request_id == id {
            select_rows(log, step_of(id)).push(e)
        } else {
            select_rows(log, step_of(id))
        }),
{
    lemma_selection(log, step_of(id));
    assert(log.push(e).drop_last() =~= log);
}

} // verus!
