//! The books of the reserves, and the switches of reserves and routes.
use vstd::prelude::*;
use crate::error::LedgerError;
use crate::ledger::{Ledger, LedgerView, ReserveRow};
use crate::rows::{
    ReserveReasonsView, RouteAdmissionRow, RouteAdmissionView, RouteLedgerRow, RouteLedgerView,
    dup_text, own_text,
};
use crate::table::{any_row, find_where, first_row, is_first, text_of, values};
use crate::types::{ReserveDirection, Route};

verus! {

/// The row of a route.
pub open spec fn for_route(route: Route) -> spec_fn(RouteLedgerView) -> bool {
    |r: RouteLedgerView| r.route == route
}

/// The admission row of a route.
pub open spec fn admission_for(route: Route) -> spec_fn(RouteAdmissionView) -> bool {
    |r: RouteAdmissionView| r.route == route
}

impl ReserveReasonsView {
    /// The text for `d`.
    pub open spec fn text(self, d: ReserveDirection) -> Option<Seq<char>> {
        match d {
            ReserveDirection::GoldcoinReserve => self.goldcoin,
            ReserveDirection::SolanaReserve => self.solana,
            ReserveDirection::RobinhoodReserve => self.robinhood,
        }
    }

    /// The texts with another for `d`.
    pub open spec fn with_text(self, d: ReserveDirection, t: Option<Seq<char>>) -> ReserveReasonsView {
        match d {
            ReserveDirection::GoldcoinReserve => ReserveReasonsView { goldcoin: t, ..self },
            ReserveDirection::SolanaReserve => ReserveReasonsView { solana: t, ..self },
            ReserveDirection::RobinhoodReserve => ReserveReasonsView { robinhood: t, ..self },
        }
    }
}

/// The value of an optional text.
pub open spec fn opt_text(o: Option<&str>) -> Option<Seq<char>> {
    match o {
        Some(s) => Some(s@),
        None => None,
    }
}

/// Why operators do not switch a route: one of the two oldest has other controls,
/// and one between Solana and Robinhood has nothing to switch.
pub open spec fn why_not_switched(route: Route) -> &'static str {
    if route == Route::GlcToSol || route == Route::SolToGlc {
        "this route's controls are the local pause and admission control (glc-admin pause / close-admission), never a bridge_routes write"
    } else {
        "this route has no settlement machinery (Route::as_direction is None) and can never be executed, so it cannot be enabled"
    }
}

fn say_why_not_switched(route: Route) -> (r: &'static str)
    ensures
        r == why_not_switched(route),
{
    if matches!(route, Route::GlcToSol | Route::SolToGlc) {
        "this route's controls are the local pause and admission control (glc-admin pause / close-admission), never a bridge_routes write"
    } else {
        "this route has no settlement machinery (Route::as_direction is None) and can never be executed, so it cannot be enabled"
    }
}

/// Why a route has no admission of its own.
pub open spec fn why_no_admission(route: Route) -> &'static str {
    if route == Route::SolToRhn || route == Route::RhnToSol {
        "this route has no settlement machinery (Route::as_direction is None) and can never be executed, so it has no admission to open or close"
    } else {
        "route-level admission exists only for the two INBOUND-TO-GOLDCOIN routes (SolToGlc, RhnToGlc); this route's destination reserve is not Goldcoin, so its control is that reserve's own pause"
    }
}

fn say_why_no_admission(route: Route) -> (r: &'static str)
    ensures
        r == why_no_admission(route),
{
    if matches!(route, Route::SolToRhn | Route::RhnToSol) {
        "this route has no settlement machinery (Route::as_direction is None) and can never be executed, so it has no admission to open or close"
    } else {
        "route-level admission exists only for the two INBOUND-TO-GOLDCOIN routes (SolToGlc, RhnToGlc); this route's destination reserve is not Goldcoin, so its control is that reserve's own pause"
    }
}

impl LedgerView {
    /// A route's own admission is closed; a route without a row is open.
    pub open spec fn route_closed(self, route: Route) -> bool {
        match first_row(self.route_admission, admission_for(route)) {
            Some(i) => self.route_admission[i].admission_closed,
            None => false,
        }
    }
}

/// Whether the liquidity gate is closed next: it closes below the buffer and
/// reopens at the reopen threshold; without a buffer it is open.
pub open spec fn next_liquidity_closed(
    currently_closed: bool,
    headroom: int,
    buffer_atomic: i64,
    reopen_atomic: i64,
) -> bool {
    if buffer_atomic <= 0 {
        false
    } else if currently_closed {
        headroom < reopen_atomic
    } else {
        headroom < buffer_atomic
    }
}

/// What an evaluation of the liquidity gate found.
#[derive(Clone, Copy, Debug, PartialEq, Eq, Structural)]
pub struct LiquidityAdmissionGate {
    pub direction: ReserveDirection,
    pub closed: bool,
    pub transitioned: bool,
    pub headroom: i64,
    pub buffer_atomic: i64,
    pub reopen_atomic: i64,
}

impl LedgerView {
    /// The ledger after the liquidity gate of `d` went from `was` to `now_closed`.
    pub open spec fn with_liquidity_gate(
        self,
        d: ReserveDirection,
        was: bool,
        now_closed: bool,
        now: i64,
    ) -> LedgerView {
        match self.reserves.row(d) {
            Some(row) if was != now_closed => self.with_reserve(
                d,
                ReserveRow {
                    liquidity_admission_closed: now_closed,
                    liquidity_admission_closed_at: Some(now),
                    ..row
                },
            ),
            _ => self,
        }
    }

    /// What an evaluation of the liquidity gate of `d` finds.
    pub open spec fn liquidity_gate(self, d: ReserveDirection) -> Result<
        LiquidityAdmissionGate,
        LedgerError,
    > {
        match self.reserves.row(d) {
            None => Err(LedgerError::ReserveNotInitialized(d)),
            Some(row) => if i64::MIN <= row.headroom() <= i64::MAX {
                let closed = d == ReserveDirection::GoldcoinReserve && next_liquidity_closed(
                    row.liquidity_admission_closed,
                    row.headroom(),
                    row.admission_buffer_atomic,
                    row.admission_reopen_atomic,
                );
                Ok(
                    LiquidityAdmissionGate {
                        direction: d,
                        closed,
                        transitioned: d == ReserveDirection::GoldcoinReserve
                            && row.liquidity_admission_closed != closed,
                        headroom: row.headroom() as i64,
                        buffer_atomic: row.admission_buffer_atomic,
                        reopen_atomic: row.admission_reopen_atomic,
                    },
                )
            } else {
                Err(LedgerError::AmountOutOfRange)
            },
        }
    }

    /// The ledger after an evaluation of the liquidity gate of `d`.
    pub open spec fn after_liquidity_gate(self, d: ReserveDirection, now: i64) -> LedgerView {
        match (self.liquidity_gate(d), self.reserves.row(d)) {
            (Ok(g), Some(row)) => if d == ReserveDirection::GoldcoinReserve {
                self.with_liquidity_gate(d, row.liquidity_admission_closed, g.closed, now)
            } else {
                self
            },
            _ => self,
        }
    }
}

impl Ledger {
    /// Adds the books of a reserve, or changes its thresholds and leaves the
    /// rest. The critical level lies above the protected minimum.
    pub fn configure_reserve(
        &mut self,
        direction: ReserveDirection,
        initial_balance: u64,
        protected_minimum: u64,
        target_reserve: u64,
        warning_reserve: u64,
        critical_reserve: u64,
        now: i64,
    )
        requires
            critical_reserve > protected_minimum,
            initial_balance <= i64::MAX,
            target_reserve <= i64::MAX,
            warning_reserve <= i64::MAX,
            critical_reserve <= i64::MAX,
        ensures
            final(self)@ == old(self)@.with_reserve(
                direction,
                match old(self)@.reserves.row(direction) {
                    Some(row) => ReserveRow {
                        protected_minimum: protected_minimum as i64,
                        target_reserve: target_reserve as i64,
                        warning_reserve: warning_reserve as i64,
                        critical_reserve: critical_reserve as i64,
                        ..row
                    },
                    None => ReserveRow {
                        total_reserve_balance: initial_balance as i64,
                        balance_refreshed_at: now,
                        protected_minimum: protected_minimum as i64,
                        target_reserve: target_reserve as i64,
                        warning_reserve: warning_reserve as i64,
                        critical_reserve: critical_reserve as i64,
                        reserved_liquidity: 0,
                        pending_obligations: 0,
                        settled_liquidity_total: 0,
                        accrued_fees_atomic: 0,
                        paused: false,
                        admission_closed: false,
                        liquidity_admission_closed: false,
                        liquidity_admission_closed_at: None,
                        admission_buffer_atomic: 0,
                        admission_reopen_atomic: 0,
                        utxo_pool_min_available_count: 0,
                        utxo_pool_warning_count: 0,
                    },
                },
            ),
    {
        let row = match self.reserves.get(direction) {
            Some(row) => ReserveRow {
                protected_minimum: protected_minimum as i64,
                target_reserve: target_reserve as i64,
                warning_reserve: warning_reserve as i64,
                critical_reserve: critical_reserve as i64,
                ..row
            },
            None => ReserveRow {
                total_reserve_balance: initial_balance as i64,
                balance_refreshed_at: now,
                protected_minimum: protected_minimum as i64,
                target_reserve: target_reserve as i64,
                warning_reserve: warning_reserve as i64,
                critical_reserve: critical_reserve as i64,
                reserved_liquidity: 0,
                pending_obligations: 0,
                settled_liquidity_total: 0,
                accrued_fees_atomic: 0,
                paused: false,
                admission_closed: false,
                liquidity_admission_closed: false,
                liquidity_admission_closed_at: None,
                admission_buffer_atomic: 0,
                admission_reopen_atomic: 0,
                utxo_pool_min_available_count: 0,
                utxo_pool_warning_count: 0,
            },
        };
        self.put_reserve(direction, row);
    }

    /// The observed balance replaces the recorded one.
    pub fn refresh_reserve_balance(
        &mut self,
        direction: ReserveDirection,
        observed_balance: u64,
        now: i64,
    ) -> (r: Result<(), LedgerError>)
        requires
            observed_balance <= i64::MAX,
        ensures
            match old(self)@.reserves.row(direction) {
                Some(row) => r == Ok::<(), LedgerError>(()) && final(self)@
                    == old(self)@.with_reserve(
                    direction,
                    ReserveRow {
                        total_reserve_balance: observed_balance as i64,
                        balance_refreshed_at: now,
                        ..row
                    },
                ),
                None => r == Err::<(), LedgerError>(LedgerError::ReserveNotInitialized(direction))
                    && final(self)@ == old(self)@,
            },
    {
        match self.reserves.get(direction) {
            Some(row) => {
                self.put_reserve(
                    direction,
                    ReserveRow {
                        total_reserve_balance: observed_balance as i64,
                        balance_refreshed_at: now,
                        ..row
                    },
                );
                Ok(())
            },
            None => Err(LedgerError::ReserveNotInitialized(direction)),
        }
    }

    fn put_pause_reason(&mut self, d: ReserveDirection, t: Option<String>)
        ensures
            final(self)@ == (LedgerView {
                pause_reasons: old(self)@.pause_reasons.with_text(d, text_of(t)),
                ..old(self)@
            }),
    {
        match d {
            ReserveDirection::GoldcoinReserve => self.pause_reasons.goldcoin = t,
            ReserveDirection::SolanaReserve => self.pause_reasons.solana = t,
            ReserveDirection::RobinhoodReserve => self.pause_reasons.robinhood = t,
        }
    }

    fn put_admission_reason(&mut self, d: ReserveDirection, t: Option<String>)
        ensures
            final(self)@ == (LedgerView {
                admission_reasons: old(self)@.admission_reasons.with_text(d, text_of(t)),
                ..old(self)@
            }),
    {
        match d {
            ReserveDirection::GoldcoinReserve => self.admission_reasons.goldcoin = t,
            ReserveDirection::SolanaReserve => self.admission_reasons.solana = t,
            ReserveDirection::RobinhoodReserve => self.admission_reasons.robinhood = t,
        }
    }

    /// Pauses a reserve or ends its pause; the reason is the last one given.
    pub fn set_paused(
        &mut self,
        direction: ReserveDirection,
        paused: bool,
        reason: Option<&str>,
    ) -> (r: Result<(), LedgerError>)
        ensures
            match old(self)@.reserves.row(direction) {
                Some(row) => r == Ok::<(), LedgerError>(()) && final(self)@ == old(
                    self,
                )@.with_pause(direction, paused, opt_text(reason)),
                None => r == Err::<(), LedgerError>(LedgerError::ReserveNotInitialized(direction))
                    && final(self)@ == old(self)@,
            },
    {
        match self.reserves.get(direction) {
            Some(row) => {
                self.put_reserve(direction, ReserveRow { paused, ..row });
                self.put_pause_reason(direction, own_text(reason));
                Ok(())
            },
            None => Err(LedgerError::ReserveNotInitialized(direction)),
        }
    }

    /// Whether a reserve is paused.
    pub fn is_paused(&self, direction: ReserveDirection) -> (r: Result<bool, LedgerError>)
        ensures
            r == (match self@.reserves.row(direction) {
                Some(row) => Ok(row.paused),
                None => Err(LedgerError::ReserveNotInitialized(direction)),
            }),
    {
        match self.reserves.get(direction) {
            Some(row) => Ok(row.paused),
            None => Err(LedgerError::ReserveNotInitialized(direction)),
        }
    }

    /// The reason given with the last pause or end of pause.
    pub fn pause_reason(&self, direction: ReserveDirection) -> (r: Result<
        Option<String>,
        LedgerError,
    >)
        ensures
            match r {
                Ok(t) => self@.reserves.row(direction) is Some && text_of(t)
                    == self@.pause_reasons.text(direction),
                Err(e) => self@.reserves.row(direction) is None && e == LedgerError::NoSuchRow,
            },
    {
        if self.reserves.get(direction).is_none() {
            return Err(LedgerError::NoSuchRow);
        }
        Ok(
            match direction {
                ReserveDirection::GoldcoinReserve => dup_text(&self.pause_reasons.goldcoin),
                ReserveDirection::SolanaReserve => dup_text(&self.pause_reasons.solana),
                ReserveDirection::RobinhoodReserve => dup_text(&self.pause_reasons.robinhood),
            },
        )
    }

    /// The reason given with the last change of a reserve's admission.
    pub fn admission_reason(&self, direction: ReserveDirection) -> (r: Result<
        Option<String>,
        LedgerError,
    >)
        ensures
            match r {
                Ok(t) => self@.reserves.row(direction) is Some && text_of(t)
                    == self@.admission_reasons.text(direction),
                Err(e) => self@.reserves.row(direction) is None && e == LedgerError::NoSuchRow,
            },
    {
        if self.reserves.get(direction).is_none() {
            return Err(LedgerError::NoSuchRow);
        }
        Ok(
            match direction {
                ReserveDirection::GoldcoinReserve => dup_text(&self.admission_reasons.goldcoin),
                ReserveDirection::SolanaReserve => dup_text(&self.admission_reasons.solana),
                ReserveDirection::RobinhoodReserve => dup_text(&self.admission_reasons.robinhood),
            },
        )
    }

    /// Closes or opens a reserve's admission; the reason is the last one given.
    pub fn set_admission(
        &mut self,
        direction: ReserveDirection,
        closed: bool,
        reason: Option<&str>,
    ) -> (r: Result<(), LedgerError>)
        ensures
            match old(self)@.reserves.row(direction) {
                Some(row) => r == Ok::<(), LedgerError>(()) && final(self)@ == (LedgerView {
                    admission_reasons: old(self)@.admission_reasons.with_text(
                        direction,
                        opt_text(reason),
                    ),
                    ..old(self)@.with_reserve(
                        direction,
                        ReserveRow { admission_closed: closed, ..row },
                    )
                }),
                None => r == Err::<(), LedgerError>(LedgerError::ReserveNotInitialized(direction))
                    && final(self)@ == old(self)@,
            },
    {
        match self.reserves.get(direction) {
            Some(row) => {
                self.put_reserve(direction, ReserveRow { admission_closed: closed, ..row });
                self.put_admission_reason(direction, own_text(reason));
                Ok(())
            },
            None => Err(LedgerError::ReserveNotInitialized(direction)),
        }
    }

    /// Whether a reserve's admission is closed.
    pub fn is_admission_closed(&self, direction: ReserveDirection) -> (r: Result<
        bool,
        LedgerError,
    >)
        ensures
            r == (match self@.reserves.row(direction) {
                Some(row) => Ok(row.admission_closed),
                None => Err(LedgerError::ReserveNotInitialized(direction)),
            }),
    {
        match self.reserves.get(direction) {
            Some(row) => Ok(row.admission_closed),
            None => Err(LedgerError::ReserveNotInitialized(direction)),
        }
    }

    /// Whether a route is switched on; a route without a row is as
    /// `default_enabled` says.
    pub fn route_enabled(&self, route: Route, default_enabled: bool) -> (r: bool)
        ensures
            r == (match first_row(self@.routes, for_route(route)) {
                Some(i) => self@.routes[i].enabled,
                None => default_enabled,
            }),
    {
        match self.find_route(route) {
            Some(i) => self.routes[i].enabled,
            None => default_enabled,
        }
    }

    fn find_route(&self, route: Route) -> (r: Option<usize>)
        ensures
            match r {
                Some(i) => {
                    &&& i < self.routes@.len()
                    &&& first_row(self@.routes, for_route(route)) == Some(i as int)
                    &&& self@.routes[i as int] == self.routes@[i as int]@
                },
                None => first_row(self@.routes, for_route(route)) is None,
            },
    {
        find_where(
            &self.routes,
            |x: &RouteLedgerRow| -> (b: bool) ensures b == for_route(route)(x@) {
                x.route == route
            },
            Ghost(for_route(route)),
        )
    }

    fn find_route_admission(&self, route: Route) -> (r: Option<usize>)
        ensures
            match r {
                Some(i) => {
                    &&& i < self.route_admission@.len()
                    &&& first_row(self@.route_admission, admission_for(route)) == Some(i as int)
                    &&& self@.route_admission[i as int] == self.route_admission@[i as int]@
                },
                None => first_row(self@.route_admission, admission_for(route)) is None,
            },
    {
        find_where(
            &self.route_admission,
            |x: &RouteAdmissionRow| -> (b: bool) ensures b == admission_for(route)(x@) {
                x.route == route
            },
            Ghost(admission_for(route)),
        )
    }

    /// Switches a route on or off. Only the routes between Goldcoin and
    /// Robinhood can be; switching on forgets the reason.
    pub fn set_route_enabled(
        &mut self,
        route: Route,
        enabled: bool,
        reason: Option<&str>,
        now: i64,
    ) -> (r: Result<(), LedgerError>)
        ensures
            r == (if !route.spec_operator_settable() {
                Err::<(), LedgerError>(LedgerError::RouteNotOperatorSettable { route, detail: why_not_switched(route) })
            } else if first_row(old(self)@.routes, for_route(route)) is None {
                Err(LedgerError::RouteStateNotInitialized(route))
            } else {
                Ok(())
            }),
            r is Err ==> final(self)@ == old(self)@,
            r is Ok ==> {
                let i = first_row(old(self)@.routes, for_route(route)).unwrap();
                final(self)@ == (LedgerView {
                    routes: old(self)@.routes.update(
                        i,
                        RouteLedgerView {
                            enabled,
                            disabled_reason: if enabled {
                                None
                            } else {
                                opt_text(reason)
                            },
                            updated_at: now,
                            ..old(self)@.routes[i]
                        },
                    ),
                    ..old(self)@
                })
            },
    {
        if !route.is_operator_settable() {
            return Err(
                LedgerError::RouteNotOperatorSettable {
                    route,
                    detail: say_why_not_switched(route),
                },
            );
        }
        match self.find_route(route) {
            None => Err(LedgerError::RouteStateNotInitialized(route)),
            Some(i) => {
                let ghost l0 = self@;
                self.routes[i].enabled = enabled;
                self.routes[i].disabled_reason = if enabled {
                    None
                } else {
                    own_text(reason)
                };
                self.routes[i].updated_at = now;
                proof {
                    assert(self@.routes =~= l0.routes.update(
                        i as int,
                        RouteLedgerView {
                            enabled,
                            disabled_reason: if enabled {
                                None
                            } else {
                                opt_text(reason)
                            },
                            updated_at: now,
                            ..l0.routes[i as int]
                        },
                    ));
                }
                Ok(())
            },
        }
    }

    /// Whether a route's own admission is closed.
    pub fn route_admission_closed(&self, route: Route) -> (r: bool)
        ensures
            r == self@.route_closed(route),
    {
        match self.find_route_admission(route) {
            Some(i) => self.route_admission[i].admission_closed,
            None => false,
        }
    }

    /// Closes or opens a route's own admission. Only the routes into Goldcoin
    /// have one; opening forgets the reason.
    pub fn set_route_admission(
        &mut self,
        route: Route,
        closed: bool,
        reason: Option<&str>,
        now: i64,
    ) -> (r: Result<(), LedgerError>)
        ensures
            r == (if !route.spec_admission_settable() {
                Err::<(), LedgerError>(LedgerError::RouteAdmissionNotSettable { route, detail: why_no_admission(route) })
            } else if first_row(old(self)@.route_admission, admission_for(route)) is None {
                Err(LedgerError::RouteAdmissionStateNotInitialized(route))
            } else {
                Ok(())
            }),
            r is Err ==> final(self)@ == old(self)@,
            r is Ok ==> {
                let i = first_row(old(self)@.route_admission, admission_for(route)).unwrap();
                final(self)@ == (LedgerView {
                    route_admission: old(self)@.route_admission.update(
                        i,
                        RouteAdmissionView {
                            admission_closed: closed,
                            admission_closed_reason: if closed {
                                opt_text(reason)
                            } else {
                                None
                            },
                            updated_at: now,
                            ..old(self)@.route_admission[i]
                        },
                    ),
                    ..old(self)@
                })
            },
    {
        if !route.is_admission_settable() {
            return Err(
                LedgerError::RouteAdmissionNotSettable {
                    route,
                    detail: say_why_no_admission(route),
                },
            );
        }
        match self.find_route_admission(route) {
            None => Err(LedgerError::RouteAdmissionStateNotInitialized(route)),
            Some(i) => {
                let ghost l0 = self@;
                self.route_admission[i].admission_closed = closed;
                self.route_admission[i].admission_closed_reason = if closed {
                    own_text(reason)
                } else {
                    None
                };
                self.route_admission[i].updated_at = now;
                proof {
                    assert(self@.route_admission =~= l0.route_admission.update(
                        i as int,
                        RouteAdmissionView {
                            admission_closed: closed,
                            admission_closed_reason: if closed {
                                opt_text(reason)
                            } else {
                                None
                            },
                            updated_at: now,
                            ..l0.route_admission[i as int]
                        },
                    ));
                }
                Ok(())
            },
        }
    }

    /// Sets the floor and the warning level of the pool of outputs.
    pub fn set_utxo_pool_thresholds(
        &mut self,
        direction: ReserveDirection,
        min_available_count: u32,
        warning_count: u32,
    ) -> (r: Result<(), LedgerError>)
        ensures
            match old(self)@.reserves.row(direction) {
                Some(row) => r == Ok::<(), LedgerError>(()) && final(self)@
                    == old(self)@.with_reserve(
                    direction,
                    ReserveRow {
                        utxo_pool_min_available_count: min_available_count,
                        utxo_pool_warning_count: warning_count,
                        ..row
                    },
                ),
                None => r == Err::<(), LedgerError>(LedgerError::ReserveNotInitialized(direction))
                    && final(self)@ == old(self)@,
            },
    {
        match self.reserves.get(direction) {
            Some(row) => {
                self.put_reserve(
                    direction,
                    ReserveRow {
                        utxo_pool_min_available_count: min_available_count,
                        utxo_pool_warning_count: warning_count,
                        ..row
                    },
                );
                Ok(())
            },
            None => Err(LedgerError::ReserveNotInitialized(direction)),
        }
    }

    /// The floor and the warning level of the pool of outputs.
    pub fn utxo_pool_thresholds(&self, direction: ReserveDirection) -> (r: Result<
        (u32, u32),
        LedgerError,
    >)
        ensures
            r == (match self@.reserves.row(direction) {
                Some(row) => Ok((row.utxo_pool_min_available_count, row.utxo_pool_warning_count)),
                None => Err(LedgerError::NoSuchRow),
            }),
    {
        match self.reserves.get(direction) {
            Some(row) => Ok((row.utxo_pool_min_available_count, row.utxo_pool_warning_count)),
            None => Err(LedgerError::NoSuchRow),
        }
    }

    /// What is neither protected nor promised.
    pub fn available_capacity(&self, direction: ReserveDirection) -> (r: Result<i64, LedgerError>)
        ensures
            r == self@.capacity(direction),
    {
        match self.reserves.get(direction) {
            Some(row) => match row.headroom_checked() {
                Some(h) => Ok(h),
                None => Err(LedgerError::AmountOutOfRange),
            },
            None => Err(LedgerError::ReserveNotInitialized(direction)),
        }
    }

    /// What is neither protected nor promised: the figure that admission
    /// decisions rest on.
    pub fn confirmed_admission_headroom(&self, direction: ReserveDirection) -> (r: Result<
        i64,
        LedgerError,
    >)
        ensures
            r == self@.capacity(direction),
    {
        self.available_capacity(direction)
    }

    /// Tests the accounting invariant.
    pub fn check_invariant(&self, direction: ReserveDirection) -> (r: Result<(), LedgerError>)
        ensures
            r == (match self@.reserves.row(direction) {
                None => Err::<(), LedgerError>(LedgerError::ReserveNotInitialized(direction)),
                Some(row) => if row.solvent() {
                    Ok(())
                } else {
                    Err(
                        LedgerError::InvariantViolated {
                            direction,
                            balance: row.total_reserve_balance,
                            protected_minimum: row.protected_minimum,
                            reserved_liquidity: row.reserved_liquidity,
                        },
                    )
                },
            }),
    {
        match self.reserves.get(direction) {
            None => Err(LedgerError::ReserveNotInitialized(direction)),
            Some(row) => {
                if (row.total_reserve_balance as i128) < row.protected_minimum as i128
                    + row.reserved_liquidity as i128 {
                    return Err(
                        LedgerError::InvariantViolated {
                            direction,
                            balance: row.total_reserve_balance,
                            protected_minimum: row.protected_minimum,
                            reserved_liquidity: row.reserved_liquidity,
                        },
                    );
                }
                Ok(())
            },
        }
    }

    /// Tests whether the pool of outputs allows admission to be opened.
    pub fn check_utxo_liquidity_for_admission(
        &self,
        direction: ReserveDirection,
        now: i64,
    ) -> (r: Result<(), LedgerError>)
        ensures
            r == self@.utxo_liquidity_for_admission(direction, now),
    {
        if !matches!(direction, ReserveDirection::GoldcoinReserve) {
            return Ok(());
        }
        match self.reserves.get(direction) {
            None => Err(LedgerError::NoSuchRow),
            Some(row) => match self.utxo_pool_health(now) {
                Err(e) => Err(e),
                Ok(pool) => {
                    let available: i64 = pool.available_utxo_count as i64;
                    let floor: i64 = row.utxo_pool_min_available_count as i64;
                    if floor == 0 || available > floor {
                        Ok(())
                    } else {
                        Err(
                            LedgerError::UtxoLiquidityLowForAdmission {
                                direction,
                                available_utxo_count: available,
                                min_available_count: floor,
                                own_unconfirmed_change_atomic: pool.own_unconfirmed_change_atomic,
                            },
                        )
                    }
                },
            },
        }
    }

    /// Whether the liquidity gate is closed next.
    pub fn next_liquidity_admission_closed(
        currently_closed: bool,
        headroom: i64,
        buffer_atomic: i64,
        reopen_atomic: i64,
    ) -> (r: bool)
        ensures
            r == next_liquidity_closed(
                currently_closed,
                headroom as int,
                buffer_atomic,
                reopen_atomic,
            ),
    {
        if buffer_atomic <= 0 {
            return false;
        }
        if currently_closed {
            headroom < reopen_atomic
        } else {
            headroom < buffer_atomic
        }
    }

    /// Sets the thresholds of the liquidity gate.
    pub fn set_admission_liquidity_thresholds(
        &mut self,
        direction: ReserveDirection,
        buffer_atomic: u64,
        reopen_atomic: u64,
    ) -> (r: Result<(), LedgerError>)
        requires
            reopen_atomic <= i64::MAX,
        ensures
            r == (if reopen_atomic < buffer_atomic {
                Err::<(), LedgerError>(
                    LedgerError::InvalidAdmissionThresholds {
                        direction,
                        buffer_atomic,
                        reopen_atomic,
                    },
                )
            } else if old(self)@.reserves.row(direction) is None {
                Err(LedgerError::ReserveNotInitialized(direction))
            } else {
                Ok(())
            }),
            r is Err ==> final(self)@ == old(self)@,
            r is Ok ==> final(self)@ == old(self)@.with_reserve(
                direction,
                ReserveRow {
                    admission_buffer_atomic: buffer_atomic as i64,
                    admission_reopen_atomic: reopen_atomic as i64,
                    ..old(self)@.reserves.row(direction).unwrap()
                },
            ),
    {
        if reopen_atomic < buffer_atomic {
            return Err(
                LedgerError::InvalidAdmissionThresholds { direction, buffer_atomic, reopen_atomic },
            );
        }
        match self.reserves.get(direction) {
            Some(row) => {
                self.put_reserve(
                    direction,
                    ReserveRow {
                        admission_buffer_atomic: buffer_atomic as i64,
                        admission_reopen_atomic: reopen_atomic as i64,
                        ..row
                    },
                );
                Ok(())
            },
            None => Err(LedgerError::ReserveNotInitialized(direction)),
        }
    }

    /// The thresholds of the liquidity gate: buffer and reopen.
    pub fn admission_liquidity_thresholds(&self, direction: ReserveDirection) -> (r: Result<
        (i64, i64),
        LedgerError,
    >)
        ensures
            r == (match self@.reserves.row(direction) {
                Some(row) => Ok((row.admission_buffer_atomic, row.admission_reopen_atomic)),
                None => Err(LedgerError::ReserveNotInitialized(direction)),
            }),
    {
        match self.reserves.get(direction) {
            Some(row) => Ok((row.admission_buffer_atomic, row.admission_reopen_atomic)),
            None => Err(LedgerError::ReserveNotInitialized(direction)),
        }
    }

    /// Whether the liquidity gate is closed.
    pub fn is_liquidity_admission_closed(&self, direction: ReserveDirection) -> (r: Result<
        bool,
        LedgerError,
    >)
        ensures
            r == (match self@.reserves.row(direction) {
                Some(row) => Ok(row.liquidity_admission_closed),
                None => Err(LedgerError::ReserveNotInitialized(direction)),
            }),
    {
        match self.reserves.get(direction) {
            Some(row) => Ok(row.liquidity_admission_closed),
            None => Err(LedgerError::ReserveNotInitialized(direction)),
        }
    }

    /// Writes the liquidity gate where it changed.
    pub(crate) fn write_liquidity_admission_state(
        &mut self,
        direction: ReserveDirection,
        was_closed: bool,
        now_closed: bool,
        now: i64,
    )
        ensures
            final(self)@ == old(self)@.with_liquidity_gate(direction, was_closed, now_closed, now),
            final(self).requests == old(self).requests,
    {
        if was_closed == now_closed {
            return;
        }
        match self.reserves.get(direction) {
            Some(row) => self.put_reserve(
                direction,
                ReserveRow {
                    liquidity_admission_closed: now_closed,
                    liquidity_admission_closed_at: Some(now),
                    ..row
                },
            ),
            None => {},
        }
    }

    fn liquidity_gate_now(&self, direction: ReserveDirection) -> (r: Result<
        LiquidityAdmissionGate,
        LedgerError,
    >)
        ensures
            r == self@.liquidity_gate(direction),
    {
        match self.reserves.get(direction) {
            None => Err(LedgerError::ReserveNotInitialized(direction)),
            Some(row) => match row.headroom_checked() {
                None => Err(LedgerError::AmountOutOfRange),
                Some(headroom) => {
                    let closed = matches!(direction, ReserveDirection::GoldcoinReserve)
                        && Self::next_liquidity_admission_closed(
                        row.liquidity_admission_closed,
                        headroom,
                        row.admission_buffer_atomic,
                        row.admission_reopen_atomic,
                    );
                    Ok(
                        LiquidityAdmissionGate {
                            direction,
                            closed,
                            transitioned: matches!(direction, ReserveDirection::GoldcoinReserve)
                                && row.liquidity_admission_closed != closed,
                            headroom,
                            buffer_atomic: row.admission_buffer_atomic,
                            reopen_atomic: row.admission_reopen_atomic,
                        },
                    )
                },
            },
        }
    }

    /// Evaluates the liquidity gate and records where it stands. That of any
    /// reserve but Goldcoin's is neither evaluated nor touched.
    pub fn evaluate_liquidity_admission_gate(
        &mut self,
        direction: ReserveDirection,
        now: i64,
    ) -> (r: Result<LiquidityAdmissionGate, LedgerError>)
        ensures
            r == old(self)@.liquidity_gate(direction),
            final(self)@ == old(self)@.after_liquidity_gate(direction, now),
    {
        let gate = match self.liquidity_gate_now(direction) {
            Ok(gate) => gate,
            Err(e) => {
                return Err(e);
            },
        };
        if matches!(direction, ReserveDirection::GoldcoinReserve) {
            match self.reserves.get(direction) {
                Some(row) => self.write_liquidity_admission_state(
                    direction,
                    row.liquidity_admission_closed,
                    gate.closed,
                    now,
                ),
                None => {},
            }
        }
        Ok(gate)
    }

    /// Tests whether the liquidity gate, evaluated now, allows admission to be
    /// opened, and records that it stands open. A refusal moves nothing.
    pub fn check_liquidity_buffer_for_admission(
        &mut self,
        direction: ReserveDirection,
        now: i64,
    ) -> (r: Result<(), LedgerError>)
        ensures
            direction != ReserveDirection::GoldcoinReserve ==> r == Ok::<(), LedgerError>(())
                && final(self)@ == old(self)@,
            direction == ReserveDirection::GoldcoinReserve ==> {
                &&& final(self)@ == (if r is Ok {
                    old(self)@.after_liquidity_gate(direction, now)
                } else {
                    old(self)@
                })
                &&& r == (match old(self)@.liquidity_gate(direction) {
                    Err(e) => Err::<(), LedgerError>(e),
                    Ok(g) => if g.closed {
                        match old(self)@.own_change(now) {
                            Err(e) => Err(e),
                            Ok(own) => Err(
                                LedgerError::LiquidityAdmissionClosedForAdmission {
                                    direction,
                                    headroom: g.headroom,
                                    reopen_atomic: g.reopen_atomic,
                                    own_unconfirmed_change_atomic: own,
                                },
                            ),
                        }
                    } else {
                        Ok(())
                    },
                })
            },
    {
        if !matches!(direction, ReserveDirection::GoldcoinReserve) {
            return Ok(());
        }
        let gate = match self.liquidity_gate_now(direction) {
            Ok(gate) => gate,
            Err(e) => {
                return Err(e);
            },
        };
        if gate.closed {
            return match self.own_unconfirmed_change_atomic(now) {
                Err(e) => Err(e),
                Ok(own) => Err(
                    LedgerError::LiquidityAdmissionClosedForAdmission {
                        direction,
                        headroom: gate.headroom,
                        reopen_atomic: gate.reopen_atomic,
                        own_unconfirmed_change_atomic: own,
                    },
                ),
            };
        }
        match self.evaluate_liquidity_admission_gate(direction, now) {
            Ok(_) => Ok(()),
            Err(e) => Err(e),
        }
    }

    /// Balance, protected minimum, promised and owed amounts of a reserve.
    pub fn reserve_snapshot(&self, direction: ReserveDirection) -> (r: Result<
        (u64, u64, u64, u64),
        LedgerError,
    >)
        ensures
            r == (match self@.reserves.row(direction) {
                Some(row) => Ok(
                    (
                        row.total_reserve_balance as u64,
                        row.protected_minimum as u64,
                        row.reserved_liquidity as u64,
                        row.pending_obligations as u64,
                    ),
                ),
                None => Err(LedgerError::ReserveNotInitialized(direction)),
            }),
    {
        match self.reserves.get(direction) {
            Some(row) => Ok(
                (
                    row.total_reserve_balance as u64,
                    row.protected_minimum as u64,
                    row.reserved_liquidity as u64,
                    row.pending_obligations as u64,
                ),
            ),
            None => Err(LedgerError::ReserveNotInitialized(direction)),
        }
    }

    /// Balance, protected minimum, target, warning and critical level.
    pub fn reserve_thresholds(&self, direction: ReserveDirection) -> (r: Result<
        (u64, u64, u64, u64, u64),
        LedgerError,
    >)
        ensures
            r == (match self@.reserves.row(direction) {
                Some(row) => Ok(
                    (
                        row.total_reserve_balance as u64,
                        row.protected_minimum as u64,
                        row.target_reserve as u64,
                        row.warning_reserve as u64,
                        row.critical_reserve as u64,
                    ),
                ),
                None => Err(LedgerError::ReserveNotInitialized(direction)),
            }),
    {
        match self.reserves.get(direction) {
            Some(row) => Ok(
                (
                    row.total_reserve_balance as u64,
                    row.protected_minimum as u64,
                    row.target_reserve as u64,
                    row.warning_reserve as u64,
                    row.critical_reserve as u64,
                ),
            ),
            None => Err(LedgerError::ReserveNotInitialized(direction)),
        }
    }

    /// The fees that were collected on a reserve.
    pub fn accrued_fees(&self, direction: ReserveDirection) -> (r: Result<u64, LedgerError>)
        ensures
            r == (match self@.reserves.row(direction) {
                Some(row) => Ok(row.accrued_fees_atomic as u64),
                None => Err(LedgerError::ReserveNotInitialized(direction)),
            }),
    {
        match self.reserves.get(direction) {
            Some(row) => Ok(row.accrued_fees_atomic as u64),
            None => Err(LedgerError::ReserveNotInitialized(direction)),
        }
    }

    /// What a reserve has paid out in settlements.
    pub fn settled_liquidity(&self, direction: ReserveDirection) -> (r: Result<u64, LedgerError>)
        ensures
            r == (match self@.reserves.row(direction) {
                Some(row) => Ok(row.settled_liquidity_total as u64),
                None => Err(LedgerError::ReserveNotInitialized(direction)),
            }),
    {
        match self.reserves.get(direction) {
            Some(row) => Ok(row.settled_liquidity_total as u64),
            None => Err(LedgerError::ReserveNotInitialized(direction)),
        }
    }
}

impl LedgerView {
    /// What is neither protected nor promised.
    pub open spec fn capacity(self, d: ReserveDirection) -> Result<i64, LedgerError> {
        match self.reserves.row(d) {
            Some(row) => if i64::MIN <= row.headroom() <= i64::MAX {
                Ok(row.headroom() as i64)
            } else {
                Err(LedgerError::AmountOutOfRange)
            },
            None => Err(LedgerError::ReserveNotInitialized(d)),
        }
    }

    /// The ledger with a reserve paused, or its pause ended.
    pub open spec fn with_pause(
        self,
        d: ReserveDirection,
        paused: bool,
        reason: Option<Seq<char>>,
    ) -> LedgerView {
        match self.reserves.row(d) {
            Some(row) => LedgerView {
                pause_reasons: self.pause_reasons.with_text(d, reason),
                ..self.with_reserve(d, ReserveRow { paused, ..row })
            },
            None => self,
        }
    }

    /// Whether the pool of outputs allows admission to be opened.
    pub open spec fn utxo_liquidity_for_admission(self, d: ReserveDirection, now: i64) -> Result<
        (),
        LedgerError,
    > {
        if d != ReserveDirection::GoldcoinReserve {
            Ok(())
        } else {
            match self.reserves.row(d) {
                None => Err(LedgerError::NoSuchRow),
                Some(row) => match self.pool_health(now) {
                    Err(e) => Err(e),
                    Ok(pool) => if row.utxo_pool_min_available_count == 0
                        || pool.available_utxo_count > row.utxo_pool_min_available_count {
                        Ok(())
                    } else {
                        Err(
                            LedgerError::UtxoLiquidityLowForAdmission {
                                direction: d,
                                available_utxo_count: pool.available_utxo_count as i64,
                                min_available_count: row.utxo_pool_min_available_count as i64,
                                own_unconfirmed_change_atomic: pool.own_unconfirmed_change_atomic,
                            },
                        )
                    },
                },
            }
        }
    }
}

/// The routes' switches, in the order of the routes.
#[derive(Debug, Default, PartialEq, Eq)]
pub struct RouteLedgerState {
    pub rows: Vec<RouteLedgerRow>,
    /// Rows under a name that no route has.
    pub unknown_route_ids: Vec<String>,
}

impl RouteLedgerState {
    /// The row of a route.
    pub fn row(&self, route: Route) -> (r: Option<&RouteLedgerRow>)
        ensures
            match r {
                Some(x) => exists|i: int|
                    is_first(values(self.rows@), for_route(route), i) && *x == self.rows@[i],
                None => !any_row(values(self.rows@), for_route(route)),
            },
    {
        match find_where(
            &self.rows,
            |x: &RouteLedgerRow| -> (b: bool) ensures b == for_route(route)(x@) {
                x.route == route
            },
            Ghost(for_route(route)),
        ) {
            Some(i) => Some(&self.rows[i]),
            None => None,
        }
    }
}

/// The routes' own admission.
#[derive(Debug, Default, PartialEq, Eq)]
pub struct RouteAdmissionState {
    pub rows: Vec<RouteAdmissionRow>,
    /// Rows under a name that no route with an admission has.
    pub unknown_route_ids: Vec<String>,
}

impl RouteAdmissionState {
    /// The row of a route.
    pub fn row(&self, route: Route) -> (r: Option<&RouteAdmissionRow>)
        ensures
            match r {
                Some(x) => exists|i: int|
                    is_first(values(self.rows@), admission_for(route), i) && *x == self.rows@[i],
                None => !any_row(values(self.rows@), admission_for(route)),
            },
    {
        match find_where(
            &self.rows,
            |x: &RouteAdmissionRow| -> (b: bool) ensures b == admission_for(route)(x@) {
                x.route == route
            },
            Ghost(admission_for(route)),
        ) {
            Some(i) => Some(&self.rows[i]),
            None => None,
        }
    }
}

/// Between the two thresholds the liquidity gate stays as it is.
pub proof fn law_liquidity_gate_holds_in_the_band(
    closed: bool,
    headroom: int,
    buffer: i64,
    reopen: i64,
)
    requires
        0 < buffer <= headroom < reopen,
    ensures
        next_liquidity_closed(closed, headroom, buffer, reopen) == closed,
{
}

/// At one headroom, evaluating the liquidity gate again changes nothing.
pub proof fn law_liquidity_gate_does_not_flap(
    closed: bool,
    headroom: int,
    buffer: i64,
    reopen: i64,
)
    requires
        reopen >= buffer,
    ensures
        ({
            let once = next_liquidity_closed(closed, headroom, buffer, reopen);
            next_liquidity_closed(once, headroom, buffer, reopen) == once
        }),
{
}

/// More headroom never closes a gate that less leaves open.
pub proof fn law_liquidity_gate_is_monotonic(
    closed: bool,
    low: int,
    high: int,
    buffer: i64,
    reopen: i64,
)
    requires
        low <= high,
        !next_liquidity_closed(closed, low, buffer, reopen),
    ensures
        !next_liquidity_closed(closed, high, buffer, reopen),
{
}

/// Without a buffer the liquidity gate is open.
pub proof fn law_no_buffer_no_gate(closed: bool, headroom: int, buffer: i64, reopen: i64)
    requires
        buffer <= 0,
    ensures
        !next_liquidity_closed(closed, headroom, buffer, reopen),
{
}

/// The accounting invariant holds of a reserve exactly where nothing negative
/// is available.
pub proof fn law_solvent_iff_capacity_is_not_negative(row: ReserveRow)
    ensures
        row.solvent() <==> row.headroom() >= 0,
{
}

} // verus!
