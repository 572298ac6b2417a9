//! The ledger's tables and the steps from which every operation is made.
use vstd::prelude::*;
use crate::rows::{
    AdminAuditEntry, AdminAuditView, AttestationRow, AttestationView, BridgeRequest,
    ChangeOutpointRow, ChangeOutpointView, CustodyLogRow, CustodyLogView, CustodyRow,
    CustodyView, FindingRow, FindingView, GoldcoinRefundRow, GoldcoinRefundView,
    IndexedBlockRow, IndexedBlockView, LogEntry, PayoutChangeRow, PayoutChangeView,
    PayoutInputRow, PayoutInputView, PayoutRow, PayoutView, PostFinalityReorgRow,
    PostFinalityReorgView, RebalanceLogRow, RebalanceLogView, RebalanceRow, RebalanceView,
    RefundInputRow, RefundInputView, ReorgEventRow, ReorgEventView, RequestView,
    ReserveReasons, ReserveReasonsView, RobinhoodDepositRow, RobinhoodDepositView,
    RobinhoodTxRow, RobinhoodTxView, RouteAdmissionRow, RouteAdmissionView, RouteLedgerRow,
    RouteLedgerView, SignatureGrantRow, SignatureGrantView, SolanaRefund, SolanaRefundView,
    StateLogRow, UnmatchedDepositRow, UnmatchedDepositView, VaultSplitRow, VaultSplitView,
    VaultUtxoEntry, VaultUtxoView, own_text,
};
use crate::table::{
    add_checked, sub_checked, find_where, first_row, is_first, lemma_first_row,
    lemma_first_row_is_first, values,
};
use crate::types::{RequestState, ReserveDirection, Route};

verus! {

/// The books of one reserve.
#[derive(Clone, Copy, Debug, PartialEq, Eq, Structural)]
pub struct ReserveRow {
    pub total_reserve_balance: i64,
    pub balance_refreshed_at: i64,
    pub protected_minimum: i64,
    pub target_reserve: i64,
    pub warning_reserve: i64,
    pub critical_reserve: i64,
    pub reserved_liquidity: i64,
    pub pending_obligations: i64,
    pub settled_liquidity_total: i64,
    pub accrued_fees_atomic: i64,
    pub paused: bool,
    pub admission_closed: bool,
    pub liquidity_admission_closed: bool,
    pub liquidity_admission_closed_at: Option<i64>,
    pub admission_buffer_atomic: i64,
    pub admission_reopen_atomic: i64,
    pub utxo_pool_min_available_count: u32,
    pub utxo_pool_warning_count: u32,
}

impl ReserveRow {
    /// What is neither protected nor promised.
    pub open spec fn headroom(self) -> int {
        self.total_reserve_balance - self.protected_minimum - self.reserved_liquidity
    }

    /// The accounting invariant: the balance covers what is protected and
    /// what is promised.
    pub open spec fn solvent(self) -> bool {
        self.total_reserve_balance >= self.protected_minimum + self.reserved_liquidity
    }

    /// What is neither protected nor promised, or `None` where that is no
    /// `i64`.
    pub fn headroom_checked(&self) -> (r: Option<i64>)
        ensures
            r == (if i64::MIN <= self.headroom() <= i64::MAX {
                Some(self.headroom() as i64)
            } else {
                None
            }),
    {
        let h: i128 = self.total_reserve_balance as i128 - self.protected_minimum as i128
            - self.reserved_liquidity as i128;
        if h < i64::MIN as i128 || h > i64::MAX as i128 {
            None
        } else {
            Some(h as i64)
        }
    }
}

/// The books of the three reserves; a reserve that was never configured has
/// none.
#[derive(Clone, Copy, Debug, PartialEq, Eq, Structural)]
pub struct ReserveTable {
    pub goldcoin: Option<ReserveRow>,
    pub solana: Option<ReserveRow>,
    pub robinhood: Option<ReserveRow>,
}

impl ReserveTable {
    /// The books of `d`.
    pub open spec fn row(self, d: ReserveDirection) -> Option<ReserveRow> {
        match d {
            ReserveDirection::GoldcoinReserve => self.goldcoin,
            ReserveDirection::SolanaReserve => self.solana,
            ReserveDirection::RobinhoodReserve => self.robinhood,
        }
    }

    /// The table with other books for `d`.
    pub open spec fn with_row(self, d: ReserveDirection, row: ReserveRow) -> ReserveTable {
        match d {
            ReserveDirection::GoldcoinReserve => ReserveTable { goldcoin: Some(row), ..self },
            ReserveDirection::SolanaReserve => ReserveTable { solana: Some(row), ..self },
            ReserveDirection::RobinhoodReserve => ReserveTable { robinhood: Some(row), ..self },
        }
    }

    /// The books of `d`.
    pub fn get(&self, d: ReserveDirection) -> (r: Option<ReserveRow>)
        ensures
            r == self.row(d),
    {
        match d {
            ReserveDirection::GoldcoinReserve => self.goldcoin,
            ReserveDirection::SolanaReserve => self.solana,
            ReserveDirection::RobinhoodReserve => self.robinhood,
        }
    }

    /// Other books for `d`.
    pub fn put(&mut self, d: ReserveDirection, row: ReserveRow)
        ensures
            *final(self) == old(self).with_row(d, row),
    {
        match d {
            ReserveDirection::GoldcoinReserve => self.goldcoin = Some(row),
            ReserveDirection::SolanaReserve => self.solana = Some(row),
            ReserveDirection::RobinhoodReserve => self.robinhood = Some(row),
        }
    }
}

/// What the indexers have seen of the chains.
#[derive(Debug)]
pub struct ChainIndex {
    pub blocks: Vec<IndexedBlockRow>,
    pub reorgs: Vec<ReorgEventRow>,
    pub post_finality: Vec<PostFinalityReorgRow>,
    pub unmatched: Vec<UnmatchedDepositRow>,
    /// How many Solana obligations were synced, once any were.
    pub obligation_count: Option<u64>,
    /// At which slot.
    pub obligation_slot: Option<u64>,
    /// When.
    pub obligation_synced_at: Option<i64>,
}

/// The value of a [`ChainIndex`].
#[verifier::ext_equal]
pub struct ChainIndexView {
    pub blocks: Seq<IndexedBlockView>,
    pub reorgs: Seq<ReorgEventView>,
    pub post_finality: Seq<PostFinalityReorgView>,
    pub unmatched: Seq<UnmatchedDepositView>,
    pub obligation_count: Option<u64>,
    pub obligation_slot: Option<u64>,
    pub obligation_synced_at: Option<i64>,
}

impl View for ChainIndex {
    type V = ChainIndexView;

    open spec fn view(&self) -> ChainIndexView {
        ChainIndexView {
            blocks: values(self.blocks@),
            reorgs: values(self.reorgs@),
            post_finality: values(self.post_finality@),
            unmatched: values(self.unmatched@),
            obligation_count: self.obligation_count,
            obligation_slot: self.obligation_slot,
            obligation_synced_at: self.obligation_synced_at,
        }
    }
}

/// Proposals to move value or keys outside the settlement of requests.
#[derive(Debug)]
pub struct Proposals {
    pub rebalances: Vec<RebalanceRow>,
    pub rebalance_log: Vec<RebalanceLogRow>,
    pub custody: Vec<CustodyRow>,
    pub custody_log: Vec<CustodyLogRow>,
    /// The number that the next rebalance gets.
    pub next_rebalance_id: i64,
    /// The number that the next custody transition gets.
    pub next_custody_id: i64,
}

/// The value of a [`Proposals`].
#[verifier::ext_equal]
pub struct ProposalsView {
    pub rebalances: Seq<RebalanceView>,
    pub rebalance_log: Seq<RebalanceLogView>,
    pub custody: Seq<CustodyView>,
    pub custody_log: Seq<CustodyLogView>,
    pub next_rebalance_id: i64,
    pub next_custody_id: i64,
}

impl View for Proposals {
    type V = ProposalsView;

    open spec fn view(&self) -> ProposalsView {
        ProposalsView {
            rebalances: values(self.rebalances@),
            rebalance_log: values(self.rebalance_log@),
            custody: values(self.custody@),
            custody_log: values(self.custody_log@),
            next_rebalance_id: self.next_rebalance_id,
            next_custody_id: self.next_custody_id,
        }
    }
}

/// Records that are only ever added to.
#[derive(Debug)]
pub struct AuditTrail {
    pub attestations: Vec<AttestationRow>,
    pub grants: Vec<SignatureGrantRow>,
    pub findings: Vec<FindingRow>,
    pub admin: Vec<AdminAuditEntry>,
}

/// The value of a [`AuditTrail`].
#[verifier::ext_equal]
pub struct AuditTrailView {
    pub attestations: Seq<AttestationView>,
    pub grants: Seq<SignatureGrantView>,
    pub findings: Seq<FindingView>,
    pub admin: Seq<AdminAuditView>,
}

impl View for AuditTrail {
    type V = AuditTrailView;

    open spec fn view(&self) -> AuditTrailView {
        AuditTrailView {
            attestations: values(self.attestations@),
            grants: values(self.grants@),
            findings: values(self.findings@),
            admin: values(self.admin@),
        }
    }
}

/// The ledger.
#[derive(Debug)]
pub struct Ledger {
    /// The program that holds the Solana side of the bridge.
    pub solana_program_id: [u8; 32],
    pub reserves: ReserveTable,
    pub pause_reasons: ReserveReasons,
    pub admission_reasons: ReserveReasons,
    /// The number that the next request gets.
    pub next_request_id: i64,
    /// The number that the next split gets.
    pub next_split_id: i64,
    pub routes: Vec<RouteLedgerRow>,
    pub route_admission: Vec<RouteAdmissionRow>,
    pub requests: Vec<BridgeRequest>,
    pub state_log: Vec<StateLogRow>,
    pub vault_utxos: Vec<VaultUtxoEntry>,
    pub splits: Vec<VaultSplitRow>,
    pub payouts: Vec<PayoutRow>,
    pub payout_inputs: Vec<PayoutInputRow>,
    pub payout_changes: Vec<PayoutChangeRow>,
    pub change_outpoints: Vec<ChangeOutpointRow>,
    pub goldcoin_refunds: Vec<GoldcoinRefundRow>,
    pub refund_inputs: Vec<RefundInputRow>,
    pub solana_refunds: Vec<SolanaRefund>,
    pub robinhood_txs: Vec<RobinhoodTxRow>,
    pub robinhood_deposits: Vec<RobinhoodDepositRow>,
    pub chain: ChainIndex,
    pub proposals: Proposals,
    pub audit: AuditTrail,
}

/// The value of a [`Ledger`].
#[verifier::ext_equal]
pub struct LedgerView {
    pub solana_program_id: [u8; 32],
    pub reserves: ReserveTable,
    pub pause_reasons: ReserveReasonsView,
    pub admission_reasons: ReserveReasonsView,
    pub next_request_id: i64,
    pub next_split_id: i64,
    pub routes: Seq<RouteLedgerView>,
    pub route_admission: Seq<RouteAdmissionView>,
    pub requests: Seq<RequestView>,
    pub state_log: Seq<LogEntry>,
    pub vault_utxos: Seq<VaultUtxoView>,
    pub splits: Seq<VaultSplitView>,
    pub payouts: Seq<PayoutView>,
    pub payout_inputs: Seq<PayoutInputView>,
    pub payout_changes: Seq<PayoutChangeView>,
    pub change_outpoints: Seq<ChangeOutpointView>,
    pub goldcoin_refunds: Seq<GoldcoinRefundView>,
    pub refund_inputs: Seq<RefundInputView>,
    pub solana_refunds: Seq<SolanaRefundView>,
    pub robinhood_txs: Seq<RobinhoodTxView>,
    pub robinhood_deposits: Seq<RobinhoodDepositView>,
    pub chain: ChainIndexView,
    pub proposals: ProposalsView,
    pub audit: AuditTrailView,
}

impl View for Ledger {
    type V = LedgerView;

    open spec fn view(&self) -> LedgerView {
        LedgerView {
            solana_program_id: self.solana_program_id,
            reserves: self.reserves,
            pause_reasons: self.pause_reasons@,
            admission_reasons: self.admission_reasons@,
            next_request_id: self.next_request_id,
            next_split_id: self.next_split_id,
            routes: values(self.routes@),
            route_admission: values(self.route_admission@),
            requests: values(self.requests@),
            state_log: values(self.state_log@),
            vault_utxos: values(self.vault_utxos@),
            splits: values(self.splits@),
            payouts: values(self.payouts@),
            payout_inputs: values(self.payout_inputs@),
            payout_changes: values(self.payout_changes@),
            change_outpoints: values(self.change_outpoints@),
            goldcoin_refunds: values(self.goldcoin_refunds@),
            refund_inputs: values(self.refund_inputs@),
            solana_refunds: values(self.solana_refunds@),
            robinhood_txs: values(self.robinhood_txs@),
            robinhood_deposits: values(self.robinhood_deposits@),
            chain: self.chain@,
            proposals: self.proposals@,
            audit: self.audit@,
        }
    }
}

impl LedgerView {
    /// A ledger without requests: every route has its switch, the two that
    /// were there first are on, and no route is closed.
    pub open spec fn fresh(solana_program_id: [u8; 32], now: i64) -> LedgerView {
        let nothing = ReserveReasonsView { goldcoin: None, solana: None, robinhood: None };
        LedgerView {
            solana_program_id,
            reserves: ReserveTable { goldcoin: None, solana: None, robinhood: None },
            pause_reasons: nothing,
            admission_reasons: nothing,
            next_request_id: 1,
            next_split_id: 1,
            routes: seq![
                first_switch(Route::GlcToSol, true, now),
                first_switch(Route::SolToGlc, true, now),
                first_switch(Route::GlcToRhn, false, now),
                first_switch(Route::RhnToGlc, false, now),
                first_switch(Route::SolToRhn, false, now),
                first_switch(Route::RhnToSol, false, now),
            ],
            route_admission: seq![
                first_admission(Route::SolToGlc, now),
                first_admission(Route::RhnToGlc, now),
            ],
            requests: Seq::empty(),
            state_log: Seq::empty(),
            vault_utxos: Seq::empty(),
            splits: Seq::empty(),
            payouts: Seq::empty(),
            payout_inputs: Seq::empty(),
            payout_changes: Seq::empty(),
            change_outpoints: Seq::empty(),
            goldcoin_refunds: Seq::empty(),
            refund_inputs: Seq::empty(),
            solana_refunds: Seq::empty(),
            robinhood_txs: Seq::empty(),
            robinhood_deposits: Seq::empty(),
            chain: ChainIndexView {
                blocks: Seq::empty(),
                reorgs: Seq::empty(),
                post_finality: Seq::empty(),
                unmatched: Seq::empty(),
                obligation_count: None,
                obligation_slot: None,
                obligation_synced_at: None,
            },
            proposals: ProposalsView {
                rebalances: Seq::empty(),
                rebalance_log: Seq::empty(),
                custody: Seq::empty(),
                custody_log: Seq::empty(),
                next_rebalance_id: 1,
                next_custody_id: 1,
            },
            audit: AuditTrailView {
                attestations: Seq::empty(),
                grants: Seq::empty(),
                findings: Seq::empty(),
                admin: Seq::empty(),
            },
        }
    }
}

/// A route's switch as it is first written.
pub open spec fn first_switch(route: Route, enabled: bool, now: i64) -> RouteLedgerView {
    RouteLedgerView { route, enabled, disabled_reason: None, updated_at: now }
}

/// A route's own admission as it is first written.
pub open spec fn first_admission(route: Route, now: i64) -> RouteAdmissionView {
    RouteAdmissionView {
        route,
        admission_closed: false,
        admission_closed_reason: None,
        updated_at: now,
    }
}

fn switch(route: Route, enabled: bool, now: i64) -> (r: RouteLedgerRow)
    ensures
        r@ == first_switch(route, enabled, now),
{
    RouteLedgerRow { route, enabled, disabled_reason: None, updated_at: now }
}

fn open_admission(route: Route, now: i64) -> (r: RouteAdmissionRow)
    ensures
        r@ == first_admission(route, now),
{
    RouteAdmissionRow {
        route,
        admission_closed: false,
        admission_closed_reason: None,
        updated_at: now,
    }
}

fn no_reasons() -> (r: ReserveReasons)
    ensures
        r@ == (ReserveReasonsView { goldcoin: None, solana: None, robinhood: None }),
{
    ReserveReasons { goldcoin: None, solana: None, robinhood: None }
}

impl Ledger {
    /// A ledger without requests. `solana_program_id` is the program that
    /// holds the Solana side of the bridge.
    pub fn open_in_memory(solana_program_id: [u8; 32], now: i64) -> (r: Ledger)
        ensures
            r@ == LedgerView::fresh(solana_program_id, now),
    {
        let mut routes: Vec<RouteLedgerRow> = Vec::new();
        routes.push(switch(Route::GlcToSol, true, now));
        routes.push(switch(Route::SolToGlc, true, now));
        routes.push(switch(Route::GlcToRhn, false, now));
        routes.push(switch(Route::RhnToGlc, false, now));
        routes.push(switch(Route::SolToRhn, false, now));
        routes.push(switch(Route::RhnToSol, false, now));
        let mut route_admission: Vec<RouteAdmissionRow> = Vec::new();
        route_admission.push(open_admission(Route::SolToGlc, now));
        route_admission.push(open_admission(Route::RhnToGlc, now));
        let r = Ledger {
            solana_program_id,
            reserves: ReserveTable { goldcoin: None, solana: None, robinhood: None },
            pause_reasons: no_reasons(),
            admission_reasons: no_reasons(),
            next_request_id: 1,
            next_split_id: 1,
            routes,
            route_admission,
            requests: Vec::new(),
            state_log: Vec::new(),
            vault_utxos: Vec::new(),
            splits: Vec::new(),
            payouts: Vec::new(),
            payout_inputs: Vec::new(),
            payout_changes: Vec::new(),
            change_outpoints: Vec::new(),
            goldcoin_refunds: Vec::new(),
            refund_inputs: Vec::new(),
            solana_refunds: Vec::new(),
            robinhood_txs: Vec::new(),
            robinhood_deposits: Vec::new(),
            chain: ChainIndex {
                blocks: Vec::new(),
                reorgs: Vec::new(),
                post_finality: Vec::new(),
                unmatched: Vec::new(),
                obligation_count: None,
                obligation_slot: None,
                obligation_synced_at: None,
            },
            proposals: Proposals {
                rebalances: Vec::new(),
                rebalance_log: Vec::new(),
                custody: Vec::new(),
                custody_log: Vec::new(),
                next_rebalance_id: 1,
                next_custody_id: 1,
            },
            audit: AuditTrail {
                attestations: Vec::new(),
                grants: Vec::new(),
                findings: Vec::new(),
                admin: Vec::new(),
            },
        };
        proof {
            let want = LedgerView::fresh(solana_program_id, now);
            assert(r@.routes =~= want.routes);
            assert(r@.route_admission =~= want.route_admission);
            assert(r@.chain =~= want.chain);
            assert(r@.proposals =~= want.proposals);
            assert(r@.audit =~= want.audit);
            assert(r@ =~= want);
        }
        r
    }
}

/// Requests by number.
pub open spec fn by_id(id: i64) -> spec_fn(RequestView) -> bool {
    |r: RequestView| r.id == id
}

/// A line of the transition log without a reason, written by the service.
pub open spec fn step(id: i64, from: Option<RequestState>, to: RequestState, at: i64) -> LogEntry {
    LogEntry {
        request_id: id,
        from_state: from,
        to_state: to,
        at,
        reason: None,
        actor: "system"@,
    }
}

/// A line of the transition log with a reason, written by the service.
pub open spec fn step_because(
    id: i64,
    from: Option<RequestState>,
    to: RequestState,
    at: i64,
    reason: Seq<char>,
) -> LogEntry {
    LogEntry {
        request_id: id,
        from_state: from,
        to_state: to,
        at,
        reason: Some(reason),
        actor: "system"@,
    }
}

impl LedgerView {
    /// Where request `id` stands in its table.
    pub open spec fn pos(self, id: i64) -> Option<int> {
        first_row(self.requests, by_id(id))
    }

    /// Request `id`.
    pub open spec fn request(self, id: i64) -> Option<RequestView> {
        match self.pos(id) {
            Some(i) => Some(self.requests[i]),
            None => None,
        }
    }

    /// The ledger with `row` in the place of request `id`.
    pub open spec fn with_request(self, id: i64, row: RequestView) -> LedgerView {
        match self.pos(id) {
            Some(i) => LedgerView { requests: self.requests.update(i, row), ..self },
            None => self,
        }
    }

    /// The ledger with one more request, under the next number.
    pub open spec fn with_new_request(self, row: RequestView) -> LedgerView {
        LedgerView {
            requests: self.requests.push(row),
            next_request_id: (self.next_request_id + 1) as i64,
            ..self
        }
    }

    /// The ledger with one more line in the transition log.
    pub open spec fn with_log(self, e: LogEntry) -> LedgerView {
        LedgerView { state_log: self.state_log.push(e), ..self }
    }

    /// The ledger with other books for `d`.
    pub open spec fn with_reserve(self, d: ReserveDirection, row: ReserveRow) -> LedgerView {
        LedgerView { reserves: self.reserves.with_row(d, row), ..self }
    }

    /// Promising `delta` more out of `d` leaves an amount that can be stored.
    pub open spec fn reserved_fits(self, d: ReserveDirection, delta: int) -> bool {
        self.reserves.row(d) matches Some(r) ==> i64::MIN <= r.reserved_liquidity + delta
            <= i64::MAX
    }

    /// The ledger with `delta` more promised out of `d`.
    pub open spec fn add_reserved(self, d: ReserveDirection, delta: int) -> LedgerView {
        match self.reserves.row(d) {
            Some(r) => self.with_reserve(
                d,
                ReserveRow { reserved_liquidity: (r.reserved_liquidity + delta) as i64, ..r },
            ),
            None => self,
        }
    }

    /// Owing `delta` more out of `d` leaves an amount that can be stored.
    pub open spec fn pending_fits(self, d: ReserveDirection, delta: int) -> bool {
        self.reserves.row(d) matches Some(r) ==> i64::MIN <= r.pending_obligations + delta
            <= i64::MAX
    }

    /// The ledger with `delta` more owed out of `d`.
    pub open spec fn add_pending(self, d: ReserveDirection, delta: int) -> LedgerView {
        match self.reserves.row(d) {
            Some(r) => self.with_reserve(
                d,
                ReserveRow { pending_obligations: (r.pending_obligations + delta) as i64, ..r },
            ),
            None => self,
        }
    }

    /// No two requests share a number, and the next number is new.
    pub open spec fn numbered(self) -> bool {
        &&& forall|i: int, j: int|
            0 <= i < j < self.requests.len() ==> (#[trigger] self.requests[i]).id != (
            #[trigger] self.requests[j]).id
        &&& forall|i: int|
            0 <= i < self.requests.len() ==> (#[trigger] self.requests[i]).id
                < self.next_request_id
    }

    /// Every reserve's balance covers what is protected and what is promised.
    pub open spec fn solvent(self) -> bool {
        forall|d: ReserveDirection| (#[trigger] self.reserves.row(d)) matches Some(r) ==> r.solvent()
    }
}

/// What is read under a number carries that number.
pub proof fn lemma_request_id(l: LedgerView, id: i64)
    ensures
        l.request(id) matches Some(q) ==> q.id == id,
{
    lemma_first_row_is_first(l.requests, by_id(id));
}

/// A row written over a request is what is read back under that number, and
/// nothing else changes.
pub proof fn lemma_with_request(l: LedgerView, id: i64, row: RequestView)
    requires
        l.request(id) is Some,
        row.id == id,
    ensures
        l.with_request(id, row).request(id) == Some(row),
        l.with_request(id, row).pos(id) == l.pos(id),
        forall|k: i64| k != id ==> #[trigger] l.with_request(id, row).request(k) == l.request(k),
{
    lemma_first_row_is_first(l.requests, by_id(id));
    let i = l.pos(id).unwrap();
    let m = l.with_request(id, row);
    assert(is_first(m.requests, by_id(id), i)) by {
        assert forall|j: int| 0 <= j < i implies !by_id(id)(#[trigger] m.requests[j]) by {
            assert(!by_id(id)(l.requests[j]));
        }
    }
    lemma_first_row(m.requests, by_id(id), i);
    assert forall|k: i64| k != id implies #[trigger] m.request(k) == l.request(k) by {
        lemma_first_row_is_first(l.requests, by_id(k));
        lemma_first_row_is_first(m.requests, by_id(k));
        match l.pos(k) {
            Some(j) => {
                assert(j != i);
                assert(is_first(m.requests, by_id(k), j)) by {
                    assert forall|t: int| 0 <= t < j implies !by_id(k)(#[trigger] m.requests[t]) by {
                        assert(!by_id(k)(l.requests[t]));
                    }
                }
                lemma_first_row(m.requests, by_id(k), j);
            },
            None => {
                match m.pos(k) {
                    Some(j) => {
                        assert(by_id(k)(m.requests[j]));
                        assert(j != i);
                        assert(by_id(k)(l.requests[j]));
                    },
                    None => {},
                }
            },
        }
    }
}

impl Ledger {
    /// Request `id` stands at `i`.
    pub open spec fn at_row(&self, id: i64, i: usize) -> bool {
        &&& i < self.requests@.len()
        &&& self@.pos(id) == Some(i as int)
        &&& self.requests@[i as int].id == id
        &&& self@.requests[i as int] == self.requests@[i as int]@
    }

    /// Where request `id` stands in its table.
    pub(crate) fn find_request(&self, id: i64) -> (r: Option<usize>)
        ensures
            match r {
                Some(i) => self.at_row(id, i) && self@.request(id) == Some(
                    self.requests@[i as int]@,
                ),
                None => self@.pos(id) is None && self@.request(id) is None,
            },
    {
        find_where(
            &self.requests,
            |x: &BridgeRequest| -> (b: bool) ensures b == (x@.id == id) { x.id == id },
            Ghost(by_id(id)),
        )
    }

    /// Adds a request under the next number.
    pub(crate) fn push_request(&mut self, row: BridgeRequest)
        requires
            old(self).next_request_id < i64::MAX,
        ensures
            final(self)@ == old(self)@.with_new_request(row@),
    {
        let ghost v = row@;
        self.requests.push(row);
        self.next_request_id = self.next_request_id + 1;
        proof {
            assert(self@.requests =~= old(self)@.requests.push(v));
        }
    }

    /// Adds a line to the transition log.
    pub(crate) fn log_transition(
        &mut self,
        request_id: i64,
        from: Option<RequestState>,
        to: RequestState,
        at: i64,
        reason: Option<&str>,
        actor: &str,
    )
        ensures
            final(self)@ == old(self)@.with_log(
                LogEntry {
                    request_id,
                    from_state: from,
                    to_state: to,
                    at,
                    reason: match reason {
                        Some(s) => Some(s@),
                        None => None,
                    },
                    actor: actor@,
                },
            ),
            final(self).requests == old(self).requests,
    {
        let row = StateLogRow {
            request_id,
            from_state: from,
            to_state: to,
            at,
            reason: own_text(reason),
            actor: actor.to_owned(),
        };
        let ghost v = row@;
        self.state_log.push(row);
        proof {
            assert(self@.state_log =~= old(self)@.state_log.push(v));
        }
    }

    /// Promises `delta` more out of `d`.
    pub(crate) fn add_reserved(&mut self, d: ReserveDirection, delta: i64)
        requires
            old(self)@.reserved_fits(d, delta as int),
        ensures
            final(self)@ == old(self)@.add_reserved(d, delta as int),
            final(self).requests == old(self).requests,
    {
        match self.reserves.get(d) {
            Some(row) => {
                let n: i64 = row.reserved_liquidity + delta;
                self.put_reserve(d, ReserveRow { reserved_liquidity: n, ..row });
            },
            None => {},
        }
    }

    /// Whether promising `delta` more out of `d` leaves an amount that can be
    /// stored.
    pub(crate) fn reserved_would_fit(&self, d: ReserveDirection, delta: i64) -> (r: bool)
        ensures
            r == self@.reserved_fits(d, delta as int),
    {
        match self.reserves.get(d) {
            Some(row) => add_checked(row.reserved_liquidity, delta).is_some(),
            None => true,
        }
    }

    /// Whether taking `delta` off what is promised out of `d` leaves an amount
    /// that can be stored.
    pub(crate) fn release_would_fit(&self, d: ReserveDirection, delta: i64) -> (r: bool)
        ensures
            r == self@.reserved_fits(d, -delta),
    {
        match self.reserves.get(d) {
            Some(row) => sub_checked(row.reserved_liquidity, delta).is_some(),
            None => true,
        }
    }

    /// Takes `delta` off what is promised out of `d`.
    pub(crate) fn release_reserved(&mut self, d: ReserveDirection, delta: i64)
        requires
            old(self)@.reserved_fits(d, -delta),
        ensures
            final(self)@ == old(self)@.add_reserved(d, -delta),
            final(self).requests == old(self).requests,
    {
        match self.reserves.get(d) {
            Some(row) => {
                let n: i64 = row.reserved_liquidity - delta;
                self.put_reserve(d, ReserveRow { reserved_liquidity: n, ..row });
            },
            None => {},
        }
    }

    /// Owes `delta` more out of `d`.
    pub(crate) fn add_pending(&mut self, d: ReserveDirection, delta: i64)
        requires
            old(self)@.pending_fits(d, delta as int),
        ensures
            final(self)@ == old(self)@.add_pending(d, delta as int),
            final(self).requests == old(self).requests,
    {
        match self.reserves.get(d) {
            Some(row) => {
                let n: i64 = row.pending_obligations + delta;
                self.put_reserve(d, ReserveRow { pending_obligations: n, ..row });
            },
            None => {},
        }
    }

    /// Whether owing `delta` more out of `d` leaves an amount that can be
    /// stored.
    pub(crate) fn pending_would_fit(&self, d: ReserveDirection, delta: i64) -> (r: bool)
        ensures
            r == self@.pending_fits(d, delta as int),
    {
        match self.reserves.get(d) {
            Some(row) => add_checked(row.pending_obligations, delta).is_some(),
            None => true,
        }
    }

    /// Writes other books for `d`.
    pub(crate) fn put_reserve(&mut self, d: ReserveDirection, row: ReserveRow)
        ensures
            final(self)@ == old(self)@.with_reserve(d, row),
            final(self).requests == old(self).requests,
    {
        self.reserves.put(d, row);
    }
}

} // verus!
