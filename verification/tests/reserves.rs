//! The reserves, their gates and thresholds.
use bridge_ledger::error::LedgerError;
use bridge_ledger::ledger::Ledger;
use bridge_ledger::types::{ReserveDirection, Route};

const GLC: ReserveDirection = ReserveDirection::GoldcoinReserve;

fn ledger() -> Ledger {
    let mut l = Ledger::open_in_memory([9; 32], 1);
    l.configure_reserve(GLC, 10_000, 1_000, 9_000, 4_000, 2_000, 1);
    l
}

#[test]
fn a_reserve_is_configured_and_refreshed() {
    let mut l = ledger();
    assert_eq!(l.reserve_snapshot(GLC), Ok((10_000, 1_000, 0, 0)));
    assert_eq!(l.reserve_thresholds(GLC), Ok((10_000, 1_000, 9_000, 4_000, 2_000)));
    l.refresh_reserve_balance(GLC, 500, 3).unwrap();
    assert_eq!(l.available_capacity(GLC), Ok(-500));
    assert_eq!(
        l.check_invariant(GLC),
        Err(LedgerError::InvariantViolated {
            direction: GLC,
            balance: 500,
            protected_minimum: 1_000,
            reserved_liquidity: 0
        })
    );
    assert_eq!(
        l.refresh_reserve_balance(ReserveDirection::SolanaReserve, 1, 3),
        Err(LedgerError::ReserveNotInitialized(ReserveDirection::SolanaReserve))
    );
    assert_eq!(
        l.is_paused(ReserveDirection::SolanaReserve),
        Err(LedgerError::ReserveNotInitialized(ReserveDirection::SolanaReserve))
    );
}

#[test]
fn pauses_and_closures_keep_their_reasons() {
    let mut l = ledger();
    l.set_paused(GLC, true, Some("drill")).unwrap();
    assert_eq!(l.pause_reason(GLC).unwrap().as_deref(), Some("drill"));
    l.set_paused(GLC, false, None).unwrap();
    assert_eq!(l.is_paused(GLC), Ok(false));
    assert_eq!(l.pause_reason(GLC), Ok(None));
    l.set_admission(GLC, true, Some("upkeep")).unwrap();
    assert_eq!(l.is_admission_closed(GLC), Ok(true));
    assert_eq!(l.admission_reason(GLC).unwrap().as_deref(), Some("upkeep"));
}

#[test]
fn the_liquidity_gate_waits_for_the_reopen_mark() {
    let next = Ledger::next_liquidity_admission_closed;
    assert!(!next(false, 500, 500, 800));
    assert!(next(false, 499, 500, 800));
    assert!(next(true, 799, 500, 800));
    assert!(!next(true, 800, 500, 800));
    assert!(!next(true, -5, 0, 0));
    let mut l = ledger();
    assert_eq!(
        l.set_admission_liquidity_thresholds(GLC, 500, 499),
        Err(LedgerError::InvalidAdmissionThresholds {
            direction: GLC,
            buffer_atomic: 500,
            reopen_atomic: 499
        })
    );
    l.set_admission_liquidity_thresholds(GLC, 9_500, 9_600).unwrap();
    assert_eq!(l.admission_liquidity_thresholds(GLC), Ok((9_500, 9_600)));
    let g = l.evaluate_liquidity_admission_gate(GLC, 5).unwrap();
    assert!(g.closed && g.transitioned);
    assert_eq!(g.headroom, 9_000);
    assert_eq!(l.is_liquidity_admission_closed(GLC), Ok(true));
    let g = l.evaluate_liquidity_admission_gate(GLC, 6).unwrap();
    assert!(g.closed && !g.transitioned);
    assert_eq!(
        l.check_liquidity_buffer_for_admission(GLC, 7),
        Err(LedgerError::LiquidityAdmissionClosedForAdmission {
            direction: GLC,
            headroom: 9_000,
            reopen_atomic: 9_600,
            own_unconfirmed_change_atomic: 0
        })
    );
    l.refresh_reserve_balance(GLC, 10_600, 8).unwrap();
    assert_eq!(l.check_liquidity_buffer_for_admission(GLC, 9), Ok(()));
    assert_eq!(l.is_liquidity_admission_closed(GLC), Ok(false));
    assert_eq!(l.confirmed_admission_headroom(GLC), Ok(9_600));
}

#[test]
fn the_gate_of_another_reserve_is_left_alone() {
    let mut l = ledger();
    l.configure_reserve(ReserveDirection::SolanaReserve, 10_000, 1_000, 9_000, 4_000, 2_000, 1);
    l.reserves.solana.as_mut().unwrap().liquidity_admission_closed = true;
    let before = l.reserves.solana;
    let g = l.evaluate_liquidity_admission_gate(ReserveDirection::SolanaReserve, 5).unwrap();
    assert!(!g.transitioned);
    assert_eq!(l.reserves.solana, before);
}

#[test]
fn asking_whether_admission_may_open_closes_nothing() {
    let mut l = ledger();
    l.set_admission_liquidity_thresholds(GLC, 9_500, 9_600).unwrap();
    assert!(l.check_liquidity_buffer_for_admission(GLC, 7).is_err());
    assert_eq!(l.is_liquidity_admission_closed(GLC), Ok(false));
    assert_eq!(l.check_liquidity_buffer_for_admission(ReserveDirection::SolanaReserve, 7), Ok(()));
}

#[test]
fn a_short_pool_closes_admission() {
    let mut l = ledger();
    l.set_utxo_pool_thresholds(GLC, 1, 3).unwrap();
    assert_eq!(l.utxo_pool_thresholds(GLC), Ok((1, 3)));
    assert_eq!(
        l.check_utxo_liquidity_for_admission(GLC, 5),
        Err(LedgerError::UtxoLiquidityLowForAdmission {
            direction: GLC,
            available_utxo_count: 0,
            min_available_count: 1,
            own_unconfirmed_change_atomic: 0
        })
    );
    l.set_utxo_pool_thresholds(GLC, 0, 0).unwrap();
    assert_eq!(l.check_utxo_liquidity_for_admission(GLC, 5), Ok(()));
}

#[test]
fn routes_are_switched_where_they_may_be() {
    let mut l = ledger();
    assert!(l.route_enabled(Route::GlcToSol, false));
    assert!(!l.route_enabled(Route::RhnToSol, true));
    assert_eq!(l.set_route_enabled(Route::GlcToRhn, true, None, 5), Ok(()));
    assert!(l.route_enabled(Route::GlcToRhn, false));
    assert_eq!(
        l.set_route_enabled(Route::GlcToSol, false, None, 5),
        Err(LedgerError::RouteNotOperatorSettable {
            route: Route::GlcToSol,
            detail: "this route's controls are the local pause and admission control (glc-admin \
                     pause / close-admission), never a bridge_routes write"
        })
    );
    assert_eq!(
        l.set_route_enabled(Route::RhnToSol, true, None, 5),
        Err(LedgerError::RouteNotOperatorSettable {
            route: Route::RhnToSol,
            detail: "this route has no settlement machinery (Route::as_direction is None) and can \
                     never be executed, so it cannot be enabled"
        })
    );
    assert!(!l.route_admission_closed(Route::RhnToGlc));
    l.set_route_admission(Route::RhnToGlc, true, Some("x"), 6).unwrap();
    assert!(l.route_admission_closed(Route::RhnToGlc));
    assert_eq!(
        l.set_route_admission(Route::GlcToSol, true, None, 6),
        Err(LedgerError::RouteAdmissionNotSettable {
            route: Route::GlcToSol,
            detail: "route-level admission exists only for the two INBOUND-TO-GOLDCOIN routes \
                     (SolToGlc, RhnToGlc); this route's destination reserve is not Goldcoin, so \
                     its control is that reserve's own pause"
        })
    );
    assert_eq!(
        l.set_route_admission(Route::SolToRhn, true, None, 6),
        Err(LedgerError::RouteAdmissionNotSettable {
            route: Route::SolToRhn,
            detail: "this route has no settlement machinery (Route::as_direction is None) and can \
                     never be executed, so it has no admission to open or close"
        })
    );
}
