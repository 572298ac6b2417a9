//! Whether a deposit is admitted, and if not, the one reason why.
use vstd::prelude::*;
use crate::error::LedgerError;
use crate::ledger::{Ledger, LedgerView};
use crate::reasons::{auto_resumable, recoverable_reason, refundable_glc_reason, refundable_in};
use crate::types::{Direction, ReserveDirection, RouteWalletEligibility};

verus! {

/// Which wallets of a transfer have to wait.
#[derive(Clone, Copy, Debug, PartialEq, Eq, Structural)]
pub struct InboundRateLimits {
    pub source_wallet_rate_limited: bool,
    pub recipient_rate_limited: bool,
}

impl Default for InboundRateLimits {
    /// Neither wallet has to wait.
    fn default() -> (r: InboundRateLimits)
        ensures
            r == no_limits(),
    {
        InboundRateLimits { source_wallet_rate_limited: false, recipient_rate_limited: false }
    }
}

/// Neither wallet has to wait.
pub open spec fn no_limits() -> InboundRateLimits {
    InboundRateLimits { source_wallet_rate_limited: false, recipient_rate_limited: false }
}

/// The limits that a wallet check found.
pub open spec fn limits_of(e: RouteWalletEligibility) -> InboundRateLimits {
    InboundRateLimits {
        source_wallet_rate_limited: e.source_retry_after is Some,
        recipient_rate_limited: e.destination_retry_after is Some,
    }
}

impl From<RouteWalletEligibility> for InboundRateLimits {
    fn from(eligibility: RouteWalletEligibility) -> (r: InboundRateLimits) {
        InboundRateLimits {
            source_wallet_rate_limited: eligibility.source_retry_after.is_some(),
            recipient_rate_limited: eligibility.destination_retry_after.is_some(),
        }
    }
}

impl vstd::std_specs::convert::FromSpecImpl<RouteWalletEligibility> for InboundRateLimits {
    open spec fn obeys_from_spec() -> bool {
        true
    }

    open spec fn from_spec(e: RouteWalletEligibility) -> InboundRateLimits {
        limits_of(e)
    }
}

/// Why a deposit is not admitted; the variants stand in the order in which
/// they are tested.
#[derive(Clone, Copy, Debug, PartialEq, Eq, Structural)]
pub enum InboundAdmissionBlocker {
    RouteAdmissionClosed,
    AdmissionClosed,
    ReservePaused,
    SourceWalletRateLimited,
    RecipientRateLimited,
    UtxoLiquidityLow,
    LiquidityBufferLow,
    InsufficientCapacity,
}

impl InboundAdmissionBlocker {
    /// The name shown to operators: never a note, which stands on requests and
    /// is compared letter by letter.
    pub open spec fn spec_name(self) -> Seq<char> {
        match self {
            InboundAdmissionBlocker::RouteAdmissionClosed => "route_admission_closed"@,
            InboundAdmissionBlocker::AdmissionClosed => "reserve_admission_closed"@,
            InboundAdmissionBlocker::ReservePaused => "reserve_paused"@,
            InboundAdmissionBlocker::SourceWalletRateLimited => "source_wallet_window_active"@,
            InboundAdmissionBlocker::RecipientRateLimited => "destination_wallet_window_active"@,
            InboundAdmissionBlocker::UtxoLiquidityLow => "utxo_liquidity_low"@,
            InboundAdmissionBlocker::LiquidityBufferLow => "liquidity_buffer_low"@,
            InboundAdmissionBlocker::InsufficientCapacity => "insufficient_capacity"@,
        }
    }

    /// The note of a request parked for this reason.
    pub open spec fn spec_note(self) -> Seq<char> {
        match self {
            InboundAdmissionBlocker::RouteAdmissionClosed => "route_admission_closed_at_fold"@,
            InboundAdmissionBlocker::AdmissionClosed => "admission_closed_at_fold"@,
            InboundAdmissionBlocker::ReservePaused => "reserve_paused_at_fold"@,
            InboundAdmissionBlocker::SourceWalletRateLimited => "wallet_source_24h_limit"@,
            InboundAdmissionBlocker::RecipientRateLimited => "wallet_destination_24h_limit"@,
            InboundAdmissionBlocker::UtxoLiquidityLow => "utxo_liquidity_low_at_fold"@,
            InboundAdmissionBlocker::LiquidityBufferLow => "liquidity_buffer_low_at_fold"@,
            InboundAdmissionBlocker::InsufficientCapacity => "insufficient_capacity_at_fold"@,
        }
    }

    /// The name shown to operators: never a note, which stands on requests and
    /// is compared letter by letter.
    pub fn as_str(self) -> (r: &'static str)
        ensures
            r@ == self.spec_name(),
    {
        match self {
            InboundAdmissionBlocker::RouteAdmissionClosed => "route_admission_closed",
            InboundAdmissionBlocker::AdmissionClosed => "reserve_admission_closed",
            InboundAdmissionBlocker::ReservePaused => "reserve_paused",
            InboundAdmissionBlocker::SourceWalletRateLimited => "source_wallet_window_active",
            InboundAdmissionBlocker::RecipientRateLimited => "destination_wallet_window_active",
            InboundAdmissionBlocker::UtxoLiquidityLow => "utxo_liquidity_low",
            InboundAdmissionBlocker::LiquidityBufferLow => "liquidity_buffer_low",
            InboundAdmissionBlocker::InsufficientCapacity => "insufficient_capacity",
        }
    }

    /// The note of a request parked for this reason.
    pub fn manual_review_note(self) -> (r: &'static str)
        ensures
            r@ == self.spec_note(),
    {
        match self {
            InboundAdmissionBlocker::RouteAdmissionClosed => "route_admission_closed_at_fold",
            InboundAdmissionBlocker::AdmissionClosed => "admission_closed_at_fold",
            InboundAdmissionBlocker::ReservePaused => "reserve_paused_at_fold",
            InboundAdmissionBlocker::SourceWalletRateLimited => "wallet_source_24h_limit",
            InboundAdmissionBlocker::RecipientRateLimited => "wallet_destination_24h_limit",
            InboundAdmissionBlocker::UtxoLiquidityLow => "utxo_liquidity_low_at_fold",
            InboundAdmissionBlocker::LiquidityBufferLow => "liquidity_buffer_low_at_fold",
            InboundAdmissionBlocker::InsufficientCapacity => "insufficient_capacity_at_fold",
        }
    }
}

/// Everything that an admission decision reads of the ledger.
#[derive(Clone, Copy, Debug, PartialEq, Eq, Structural)]
pub struct InboundAdmissionGates {
    pub route_admission_closed: bool,
    pub paused: bool,
    pub admission_closed: bool,
    pub liquidity_admission_closed: bool,
    pub confirmed_headroom_atomic: i64,
    pub admission_buffer_atomic: i64,
    pub min_available_utxo_count: i64,
    pub available_utxo_count: i64,
}

impl InboundAdmissionGates {
    /// The pool of spendable outputs is above its floor; a floor of zero is
    /// none.
    pub open spec fn utxo_ok(self) -> bool {
        self.min_available_utxo_count == 0 || self.available_utxo_count
            > self.min_available_utxo_count
    }

    /// Paying `net` out leaves the buffer untouched; a buffer of zero or less
    /// is none.
    pub open spec fn buffer_ok(self, net: i64) -> bool {
        self.admission_buffer_atomic <= 0 || self.confirmed_headroom_atomic - net
            >= self.admission_buffer_atomic
    }

    /// The first reason, in the order of the variants, why a deposit that
    /// pays `net` out is not admitted.
    pub open spec fn spec_blocker(
        self,
        net: i64,
        limits: InboundRateLimits,
    ) -> Option<InboundAdmissionBlocker> {
        if self.route_admission_closed {
            Some(InboundAdmissionBlocker::RouteAdmissionClosed)
        } else if self.admission_closed {
            Some(InboundAdmissionBlocker::AdmissionClosed)
        } else if self.paused {
            Some(InboundAdmissionBlocker::ReservePaused)
        } else if limits.source_wallet_rate_limited {
            Some(InboundAdmissionBlocker::SourceWalletRateLimited)
        } else if limits.recipient_rate_limited {
            Some(InboundAdmissionBlocker::RecipientRateLimited)
        } else if !self.utxo_ok() {
            Some(InboundAdmissionBlocker::UtxoLiquidityLow)
        } else if self.liquidity_admission_closed || !self.buffer_ok(net) {
            Some(InboundAdmissionBlocker::LiquidityBufferLow)
        } else if net > self.confirmed_headroom_atomic {
            Some(InboundAdmissionBlocker::InsufficientCapacity)
        } else {
            None
        }
    }

    /// The most that a deposit may pay out, zero where nothing may.
    pub open spec fn spec_max(self) -> int {
        if self.spec_blocker(1, no_limits()) is Some {
            0
        } else {
            let bound = if self.admission_buffer_atomic > 0 {
                self.confirmed_headroom_atomic - self.admission_buffer_atomic
            } else {
                self.confirmed_headroom_atomic as int
            };
            if bound > 0 {
                bound
            } else {
                0
            }
        }
    }

    /// Whether the pool of spendable outputs is above its floor.
    pub fn utxo_liquidity_ok(&self) -> (r: bool)
        ensures
            r == self.utxo_ok(),
    {
        self.min_available_utxo_count == 0 || self.available_utxo_count
            > self.min_available_utxo_count
    }

    /// Whether paying `net_destination_atomic` out leaves the buffer
    /// untouched.
    pub fn liquidity_buffer_ok(&self, net_destination_atomic: i64) -> (r: bool)
        ensures
            r == self.buffer_ok(net_destination_atomic),
    {
        self.admission_buffer_atomic <= 0 || self.confirmed_headroom_atomic as i128
            - net_destination_atomic as i128 >= self.admission_buffer_atomic as i128
    }

    /// The first reason why a deposit is not admitted.
    pub fn blocker(
        &self,
        net_destination_atomic: i64,
        limits: InboundRateLimits,
    ) -> (r: Option<InboundAdmissionBlocker>)
        ensures
            r == self.spec_blocker(net_destination_atomic, limits),
    {
        if self.route_admission_closed {
            Some(InboundAdmissionBlocker::RouteAdmissionClosed)
        } else if self.admission_closed {
            Some(InboundAdmissionBlocker::AdmissionClosed)
        } else if self.paused {
            Some(InboundAdmissionBlocker::ReservePaused)
        } else if limits.source_wallet_rate_limited {
            Some(InboundAdmissionBlocker::SourceWalletRateLimited)
        } else if limits.recipient_rate_limited {
            Some(InboundAdmissionBlocker::RecipientRateLimited)
        } else if !self.utxo_liquidity_ok() {
            Some(InboundAdmissionBlocker::UtxoLiquidityLow)
        } else if self.liquidity_admission_closed || !self.liquidity_buffer_ok(
            net_destination_atomic,
        ) {
            Some(InboundAdmissionBlocker::LiquidityBufferLow)
        } else if net_destination_atomic > self.confirmed_headroom_atomic {
            Some(InboundAdmissionBlocker::InsufficientCapacity)
        } else {
            None
        }
    }

    /// Why not even one unit is admitted on this route.
    pub fn route_blocker(&self) -> (r: Option<InboundAdmissionBlocker>)
        ensures
            r == self.spec_blocker(1, no_limits()),
    {
        self.route_blocker_at(1)
    }

    /// Why a deposit of this size is not admitted on this route, whoever
    /// makes it.
    pub fn route_blocker_at(&self, probe_net_destination_atomic: i64) -> (r: Option<
        InboundAdmissionBlocker,
    >)
        ensures
            r == self.spec_blocker(probe_net_destination_atomic, no_limits()),
    {
        self.blocker(probe_net_destination_atomic, InboundRateLimits::default())
    }

    /// The most that a deposit may pay out, zero where nothing may.
    pub fn max_admissible_net_destination_atomic(&self) -> (r: i64)
        ensures
            r == self.spec_max(),
    {
        if self.route_blocker().is_some() {
            return 0;
        }
        let bound: i64 = if self.admission_buffer_atomic > 0 {
            self.confirmed_headroom_atomic - self.admission_buffer_atomic
        } else {
            self.confirmed_headroom_atomic
        };
        if bound > 0 {
            bound
        } else {
            0
        }
    }
}

impl LedgerView {
    /// The gates of a direction, with the liquidity gate given.
    pub open spec fn gates(
        self,
        direction: Direction,
        liquidity_admission_closed: bool,
    ) -> Result<InboundAdmissionGates, LedgerError> {
        let reserve = direction.spec_destination_reserve();
        match self.reserves.row(reserve) {
            None => Err(LedgerError::ReserveNotInitialized(reserve)),
            Some(row) => if i64::MIN <= row.headroom() <= i64::MAX {
                Ok(
                    InboundAdmissionGates {
                        route_admission_closed: self.route_closed(direction.spec_route()),
                        paused: row.paused,
                        admission_closed: row.admission_closed,
                        liquidity_admission_closed,
                        confirmed_headroom_atomic: row.headroom() as i64,
                        admission_buffer_atomic: row.admission_buffer_atomic,
                        min_available_utxo_count: if reserve == ReserveDirection::GoldcoinReserve {
                            row.utxo_pool_min_available_count as i64
                        } else {
                            0
                        },
                        available_utxo_count: if reserve == ReserveDirection::GoldcoinReserve
                            && row.utxo_pool_min_available_count > 0 {
                            self.utxo_count(self.spendable()) as i64
                        } else {
                            0
                        },
                    },
                )
            } else {
                Err(LedgerError::AmountOutOfRange)
            },
        }
    }

    /// The gates of a direction as they stand.
    pub open spec fn persisted_gates(self, direction: Direction) -> Result<
        InboundAdmissionGates,
        LedgerError,
    > {
        match self.reserves.row(direction.spec_destination_reserve()) {
            None => Err(LedgerError::ReserveNotInitialized(direction.spec_destination_reserve())),
            Some(row) => self.gates(direction, row.liquidity_admission_closed),
        }
    }
}

impl InboundAdmissionGates {
    /// Reads the gates of a direction, with the liquidity gate given.
    pub(crate) fn read(
        ledger: &Ledger,
        direction: Direction,
        liquidity_admission_closed: bool,
    ) -> (r: Result<InboundAdmissionGates, LedgerError>)
        ensures
            r == ledger@.gates(direction, liquidity_admission_closed),
    {
        let reserve = direction.destination_reserve();
        let goldcoin = matches!(reserve, ReserveDirection::GoldcoinReserve);
        let route_admission_closed = ledger.route_admission_closed(direction.route());
        match ledger.reserves.get(reserve) {
            None => Err(LedgerError::ReserveNotInitialized(reserve)),
            Some(row) => match row.headroom_checked() {
                None => Err(LedgerError::AmountOutOfRange),
                Some(headroom) => Ok(
                    InboundAdmissionGates {
                        route_admission_closed,
                        paused: row.paused,
                        admission_closed: row.admission_closed,
                        liquidity_admission_closed,
                        confirmed_headroom_atomic: headroom,
                        admission_buffer_atomic: row.admission_buffer_atomic,
                        min_available_utxo_count: if goldcoin {
                            row.utxo_pool_min_available_count as i64
                        } else {
                            0
                        },
                        available_utxo_count: if goldcoin && row.utxo_pool_min_available_count
                            > 0 {
                            ledger.count_available_vault_utxos()
                        } else {
                            0
                        },
                    },
                ),
            },
        }
    }

    /// Reads the gates of a direction as they stand.
    pub(crate) fn read_persisted(ledger: &Ledger, direction: Direction) -> (r: Result<
        InboundAdmissionGates,
        LedgerError,
    >)
        ensures
            r == ledger@.persisted_gates(direction),
    {
        let reserve = direction.destination_reserve();
        match ledger.reserves.get(reserve) {
            None => Err(LedgerError::ReserveNotInitialized(reserve)),
            Some(row) => Self::read(ledger, direction, row.liquidity_admission_closed),
        }
    }
}

impl Ledger {
    /// The gates of a direction as they stand.
    pub fn inbound_admission_gates(&self, direction: Direction) -> (r: Result<
        InboundAdmissionGates,
        LedgerError,
    >)
        ensures
            r == self@.persisted_gates(direction),
    {
        InboundAdmissionGates::read_persisted(self, direction)
    }

    /// Why not even one unit is admitted in this direction.
    pub fn route_admission_blocker(&self, direction: Direction) -> (r: Result<
        Option<InboundAdmissionBlocker>,
        LedgerError,
    >)
        ensures
            r == (match self@.persisted_gates(direction) {
                Ok(g) => Ok(g.spec_blocker(1, no_limits())),
                Err(e) => Err(e),
            }),
    {
        match self.inbound_admission_gates(direction) {
            Ok(g) => Ok(g.route_blocker()),
            Err(e) => Err(e),
        }
    }
}

/// A closed route refuses every amount of every wallet, and for that reason.
pub proof fn law_closed_route_refuses_everything(
    g: InboundAdmissionGates,
    net: i64,
    limits: InboundRateLimits,
)
    requires
        g.route_admission_closed,
    ensures
        g.spec_blocker(net, limits) == Some(InboundAdmissionBlocker::RouteAdmissionClosed),
        g.spec_max() == 0,
{
}

/// A route's own admission and that of its reserve are both needed: opening
/// one does not override the other.
pub proof fn law_route_and_reserve_gates_are_both_needed(
    g: InboundAdmissionGates,
    net: i64,
    limits: InboundRateLimits,
)
    ensures
        g.route_admission_closed || g.admission_closed || g.paused ==> g.spec_blocker(net, limits)
            is Some,
{
}

/// A deposit is admitted exactly where every gate is open.
pub proof fn law_admitted_iff_every_gate_is_open(
    g: InboundAdmissionGates,
    net: i64,
    limits: InboundRateLimits,
)
    ensures
        g.spec_blocker(net, limits) is None <==> {
            &&& !g.route_admission_closed
            &&& !g.admission_closed
            &&& !g.paused
            &&& limits == no_limits()
            &&& g.utxo_ok()
            &&& !g.liquidity_admission_closed
            &&& g.buffer_ok(net)
            &&& net <= g.confirmed_headroom_atomic
        },
{
}

/// The largest admissible amount is the exact boundary: every positive amount
/// up to it is admitted, and none above it.
pub proof fn law_max_admissible_is_the_boundary(g: InboundAdmissionGates, net: i64)
    requires
        net >= 1,
    ensures
        g.spec_blocker(net, no_limits()) is None <==> net <= g.spec_max(),
{
}

/// Without a floor, the number of outputs never blocks.
pub proof fn law_disabled_floor_never_blocks(
    g: InboundAdmissionGates,
    net: i64,
    limits: InboundRateLimits,
)
    requires
        g.min_available_utxo_count == 0,
    ensures
        g.spec_blocker(net, limits) != Some(InboundAdmissionBlocker::UtxoLiquidityLow),
{
}

/// A smaller deposit is never refused where a larger one is admitted.
pub proof fn law_admission_is_monotonic(
    g: InboundAdmissionGates,
    small: i64,
    large: i64,
    limits: InboundRateLimits,
)
    requires
        small <= large,
        g.spec_blocker(large, limits) is None,
    ensures
        g.spec_blocker(small, limits) is None,
{
}

/// An amount that is admitted leaves the reserve solvent.
pub proof fn law_admitted_amount_leaves_headroom(
    g: InboundAdmissionGates,
    net: i64,
    limits: InboundRateLimits,
)
    requires
        g.spec_blocker(net, limits) is None,
    ensures
        g.confirmed_headroom_atomic - net >= 0,
        g.admission_buffer_atomic > 0 ==> g.confirmed_headroom_atomic - net
            >= g.admission_buffer_atomic,
{
}

/// No two reasons share the name that operators see, nor the note.
pub proof fn law_names_and_notes_tell_reasons_apart(
    a: InboundAdmissionBlocker,
    b: InboundAdmissionBlocker,
)
    ensures
        a.spec_name() == b.spec_name() ==> a == b,
        a.spec_note() == b.spec_note() ==> a == b,
{
    lemma_names_and_notes(a);
    lemma_names_and_notes(b);
    let x = a.spec_name();
    let y = b.spec_name();
    assert(x.len() != y.len() || a == b);
    let n = a.spec_note();
    let m = b.spec_note();
    assert(n.len() != m.len() || n[0] != m[0] || a == b);
}

/// No name that operators see is a note, of the same reason or another.
pub proof fn law_names_are_no_notes(a: InboundAdmissionBlocker, b: InboundAdmissionBlocker)
    ensures
        a.spec_name() != b.spec_note(),
{
    lemma_names_and_notes(a);
    lemma_names_and_notes(b);
    let x = a.spec_name();
    let n = b.spec_note();
    assert(x.len() != n.len() || x[0] != n[0] || x[1] != n[1]);
}

/// A name that operators see, written on a request as its note, lets it
/// neither resume nor be refunded.
pub proof fn law_names_recover_nothing(
    a: InboundAdmissionBlocker,
    direction: Direction,
    liquidity_admission_open: bool,
)
    ensures
        !recoverable_reason(a.spec_name()),
        !auto_resumable(Some(a.spec_name()), liquidity_admission_open),
        !refundable_in(direction, Some(a.spec_name())),
        !refundable_glc_reason(a.spec_name()),
{
    lemma_names_and_notes(a);
    reveal_strlit("wallet_source_24h_limit");
    reveal_strlit("wallet_destination_24h_limit");
    reveal_strlit("route_admission_closed_at_fold");
    reveal_strlit("admission_closed_at_fold");
    reveal_strlit("reserve_paused_at_fold");
    reveal_strlit("utxo_liquidity_low_at_fold");
    reveal_strlit("liquidity_buffer_low_at_fold");
    reveal_strlit("insufficient_capacity_at_fold");
    reveal_strlit("recipient_rate_limited");
    reveal_strlit("source_wallet_rate_limited");
    reveal_strlit("rapid_burst_hold");
    reveal_strlit("route_disabled_at_fold");
    reveal_strlit("deposit_amount_mismatch");
    reveal_strlit("undeliverable destination");
    let x = a.spec_name();
    let undeliverable = "undeliverable destination"@;
    if undeliverable.is_prefix_of(x) {
        assert(x.subrange(0, undeliverable.len() as int)[0] == x[0]);
    }
    assert(x.len() == 22 ==> x[1] == 'o' && x[6] == 'a');
    assert(x.len() == 24 ==> x[0] == 'r');
}

proof fn lemma_names_and_notes(a: InboundAdmissionBlocker)
    ensures
        ({
            let x = a.spec_name();
            let n = a.spec_note();
            match a {
                InboundAdmissionBlocker::RouteAdmissionClosed => x.len() == 22 && x[0] == 'r'
                    && x[1] == 'o' && x[6] == 'a' && n.len() == 30,
                InboundAdmissionBlocker::AdmissionClosed => x.len() == 24 && x[0] == 'r' && n.len()
                    == 24 && n[0] == 'a',
                InboundAdmissionBlocker::ReservePaused => x.len() == 14 && n.len() == 22 && n[0]
                    == 'r' && n[1] == 'e',
                InboundAdmissionBlocker::SourceWalletRateLimited => x.len() == 27 && x[0] == 's'
                    && n.len() == 23,
                InboundAdmissionBlocker::RecipientRateLimited => x.len() == 32 && x[0] == 'd'
                    && n.len() == 28 && n[0] == 'w',
                InboundAdmissionBlocker::UtxoLiquidityLow => x.len() == 18 && n.len() == 26,
                InboundAdmissionBlocker::LiquidityBufferLow => x.len() == 20 && n.len() == 28
                    && n[0] == 'l',
                InboundAdmissionBlocker::InsufficientCapacity => x.len() == 21 && n.len() == 29,
            }
        }),
{
    reveal_strlit("route_admission_closed");
    reveal_strlit("reserve_admission_closed");
    reveal_strlit("reserve_paused");
    reveal_strlit("source_wallet_window_active");
    reveal_strlit("destination_wallet_window_active");
    reveal_strlit("wallet_source_24h_limit");
    reveal_strlit("wallet_destination_24h_limit");
    reveal_strlit("utxo_liquidity_low");
    reveal_strlit("liquidity_buffer_low");
    reveal_strlit("insufficient_capacity");
    reveal_strlit("route_admission_closed_at_fold");
    reveal_strlit("admission_closed_at_fold");
    reveal_strlit("reserve_paused_at_fold");
    reveal_strlit("utxo_liquidity_low_at_fold");
    reveal_strlit("liquidity_buffer_low_at_fold");
    reveal_strlit("insufficient_capacity_at_fold");
}

} // verus!
