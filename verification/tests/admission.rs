//! How the admission decision ranks its gates.
use bridge_ledger::admission::{
    InboundAdmissionBlocker, InboundAdmissionGates, InboundRateLimits,
};
use bridge_ledger::ledger::Ledger;

/// Everything open, with headroom and without a floor or a buffer.
fn healthy() -> InboundAdmissionGates {
    InboundAdmissionGates {
        route_admission_closed: false,
        paused: false,
        admission_closed: false,
        liquidity_admission_closed: false,
        confirmed_headroom_atomic: 1_000_000,
        admission_buffer_atomic: 0,
        min_available_utxo_count: 0,
        available_utxo_count: 0,
    }
}

#[test]
fn a_healthy_reserve_admits() {
    assert_eq!(healthy().blocker(1_000, InboundRateLimits::default()), None);
    assert_eq!(healthy().route_blocker(), None);
}

/// Each case closes exactly one gate.
#[test]
fn each_gate_produces_its_own_blocker_and_note() {
    let cases: [(
        InboundAdmissionGates,
        InboundRateLimits,
        InboundAdmissionBlocker,
        &str,
    ); 7] = [
        (
            InboundAdmissionGates {
                route_admission_closed: true,
                ..healthy()
            },
            InboundRateLimits::default(),
            InboundAdmissionBlocker::RouteAdmissionClosed,
            "route_admission_closed_at_fold",
        ),
        (
            InboundAdmissionGates {
                admission_closed: true,
                ..healthy()
            },
            InboundRateLimits::default(),
            InboundAdmissionBlocker::AdmissionClosed,
            "admission_closed_at_fold",
        ),
        (
            InboundAdmissionGates {
                paused: true,
                ..healthy()
            },
            InboundRateLimits::default(),
            InboundAdmissionBlocker::ReservePaused,
            "reserve_paused_at_fold",
        ),
        (
            healthy(),
            InboundRateLimits {
                source_wallet_rate_limited: true,
                recipient_rate_limited: false,
            },
            InboundAdmissionBlocker::SourceWalletRateLimited,
            "wallet_source_24h_limit",
        ),
        (
            healthy(),
            InboundRateLimits {
                source_wallet_rate_limited: false,
                recipient_rate_limited: true,
            },
            InboundAdmissionBlocker::RecipientRateLimited,
            "wallet_destination_24h_limit",
        ),
        (
            InboundAdmissionGates {
                min_available_utxo_count: 5,
                available_utxo_count: 5,
                ..healthy()
            },
            InboundRateLimits::default(),
            InboundAdmissionBlocker::UtxoLiquidityLow,
            "utxo_liquidity_low_at_fold",
        ),
        (
            InboundAdmissionGates {
                liquidity_admission_closed: true,
                ..healthy()
            },
            InboundRateLimits::default(),
            InboundAdmissionBlocker::LiquidityBufferLow,
            "liquidity_buffer_low_at_fold",
        ),
    ];
    for (gates, limits, expected, note) in cases {
        assert_eq!(
            gates.blocker(1_000, limits),
            Some(expected),
            "wrong blocker for {expected:?}"
        );
        assert_eq!(expected.manual_review_note(), note);
    }
}

/// A lack of capacity is reported only where every other gate is open.
#[test]
fn insufficient_capacity_is_the_fallback() {
    let gates = InboundAdmissionGates {
        confirmed_headroom_atomic: 500,
        ..healthy()
    };
    assert_eq!(
        gates.blocker(1_000, InboundRateLimits::default()),
        Some(InboundAdmissionBlocker::InsufficientCapacity)
    );
    assert_eq!(
        InboundAdmissionBlocker::InsufficientCapacity.manual_review_note(),
        "insufficient_capacity_at_fold"
    );
    // A small enough deposit still fits.
    assert_eq!(gates.blocker(500, InboundRateLimits::default()), None);
    assert_eq!(gates.route_blocker(), None);
}

/// With every gate closed the most specific one is reported, and opening it
/// reveals the next.
#[test]
fn the_ranking_is_most_specific_first() {
    let all_closed = InboundAdmissionGates {
        route_admission_closed: true,
        paused: true,
        admission_closed: true,
        liquidity_admission_closed: true,
        confirmed_headroom_atomic: -1,
        admission_buffer_atomic: 10,
        min_available_utxo_count: 5,
        available_utxo_count: 0,
    };
    let both_limits = InboundRateLimits {
        source_wallet_rate_limited: true,
        recipient_rate_limited: true,
    };
    let expected = [
        InboundAdmissionBlocker::RouteAdmissionClosed,
        InboundAdmissionBlocker::AdmissionClosed,
        InboundAdmissionBlocker::ReservePaused,
        InboundAdmissionBlocker::SourceWalletRateLimited,
        InboundAdmissionBlocker::RecipientRateLimited,
        InboundAdmissionBlocker::UtxoLiquidityLow,
        InboundAdmissionBlocker::LiquidityBufferLow,
        InboundAdmissionBlocker::InsufficientCapacity,
    ];
    let mut gates = all_closed;
    let mut limits = both_limits;
    for step in expected {
        assert_eq!(
            gates.blocker(1_000, limits),
            Some(step),
            "expected {step:?} at this point in the ranking"
        );
        match step {
            InboundAdmissionBlocker::RouteAdmissionClosed => gates.route_admission_closed = false,
            InboundAdmissionBlocker::AdmissionClosed => gates.admission_closed = false,
            InboundAdmissionBlocker::ReservePaused => gates.paused = false,
            InboundAdmissionBlocker::SourceWalletRateLimited => {
                limits.source_wallet_rate_limited = false
            }
            InboundAdmissionBlocker::RecipientRateLimited => limits.recipient_rate_limited = false,
            InboundAdmissionBlocker::UtxoLiquidityLow => gates.min_available_utxo_count = 0,
            InboundAdmissionBlocker::LiquidityBufferLow => {
                gates.liquidity_admission_closed = false;
                gates.admission_buffer_atomic = 0;
            }
            InboundAdmissionBlocker::InsufficientCapacity => {}
        }
    }
}

/// What is reported of a route is the decision on the smallest amount.
#[test]
fn route_blocker_is_the_real_decision_at_one_atomic_unit() {
    for headroom in [-5i64, 0, 1, 2, 99, 100, 101, 1_000] {
        for buffer in [0i64, 1, 100] {
            for (min_count, count) in [(0i64, 0i64), (5, 5), (5, 6)] {
                let gates = InboundAdmissionGates {
                    confirmed_headroom_atomic: headroom,
                    admission_buffer_atomic: buffer,
                    min_available_utxo_count: min_count,
                    available_utxo_count: count,
                    ..healthy()
                };
                assert_eq!(
                    gates.route_blocker(),
                    gates.blocker(1, InboundRateLimits::default()),
                    "route_blocker must BE blocker(1, no limits) — headroom {headroom}, \
                     buffer {buffer}, utxo {count}/{min_count}"
                );
            }
        }
    }
}

/// Without a buffer any headroom will do; with one it must exceed the buffer.
#[test]
fn route_availability_is_the_weakest_form_of_the_amount_gates() {
    for headroom in [-1i64, 0, 1, 2] {
        let gates = InboundAdmissionGates {
            confirmed_headroom_atomic: headroom,
            ..healthy()
        };
        assert_eq!(
            gates.route_blocker().is_none(),
            headroom > 0,
            "with no buffer, any admission at all requires headroom > 0 (headroom {headroom})"
        );
    }
    for headroom in [99i64, 100, 101] {
        let gates = InboundAdmissionGates {
            confirmed_headroom_atomic: headroom,
            admission_buffer_atomic: 100,
            ..healthy()
        };
        assert_eq!(
            gates.route_blocker().is_none(),
            headroom > 100,
            "with a buffer of 100, any admission at all requires headroom > 100 \
             (headroom {headroom})"
        );
    }
}

/// A floor of zero outputs never blocks, however empty the vault is.
#[test]
fn a_disabled_utxo_floor_never_blocks() {
    let gates = InboundAdmissionGates {
        min_available_utxo_count: 0,
        available_utxo_count: 0,
        ..healthy()
    };
    assert_eq!(gates.route_blocker(), None);
}

/// A route admits only where both its own admission and its reserve are open.
#[test]
fn route_and_reserve_gates_are_anded_never_substituted() {
    let cases = [
        // (route closed, reserve paused, reserve admission closed, expected)
        (false, false, false, None),
        (
            true,
            false,
            false,
            Some(InboundAdmissionBlocker::RouteAdmissionClosed),
        ),
        (
            false,
            true,
            false,
            Some(InboundAdmissionBlocker::ReservePaused),
        ),
        (
            false,
            false,
            true,
            Some(InboundAdmissionBlocker::AdmissionClosed),
        ),
        // Where both are closed the route's own admission is reported.
        (
            true,
            true,
            false,
            Some(InboundAdmissionBlocker::RouteAdmissionClosed),
        ),
        (
            true,
            false,
            true,
            Some(InboundAdmissionBlocker::RouteAdmissionClosed),
        ),
        (
            true,
            true,
            true,
            Some(InboundAdmissionBlocker::RouteAdmissionClosed),
        ),
    ];
    for (route_closed, paused, admission_closed, expected) in cases {
        let gates = InboundAdmissionGates {
            route_admission_closed: route_closed,
            paused,
            admission_closed,
            ..healthy()
        };
        assert_eq!(
            gates.route_blocker(),
            expected,
            "route_closed={route_closed} paused={paused} admission_closed={admission_closed}"
        );
    }
}

/// Opening the reserve does not open a route that is closed itself.
#[test]
fn reopening_the_reserve_does_not_open_a_closed_route() {
    let mut gates = InboundAdmissionGates {
        route_admission_closed: true,
        paused: true,
        admission_closed: true,
        ..healthy()
    };
    assert_eq!(
        gates.route_blocker(),
        Some(InboundAdmissionBlocker::RouteAdmissionClosed)
    );

    // The reserve is opened step by step; the route stays closed.
    gates.paused = false;
    assert_eq!(
        gates.route_blocker(),
        Some(InboundAdmissionBlocker::RouteAdmissionClosed)
    );
    gates.admission_closed = false;
    assert_eq!(
        gates.route_blocker(),
        Some(InboundAdmissionBlocker::RouteAdmissionClosed),
        "a fully open reserve must not open a route an operator closed"
    );

    // Only its own admission opens it.
    gates.route_admission_closed = false;
    assert_eq!(gates.route_blocker(), None);
}

/// An open route admits nothing onto a paused reserve.
#[test]
fn an_open_route_does_not_override_the_reserve_wide_stop() {
    let gates = InboundAdmissionGates {
        route_admission_closed: false,
        paused: true,
        ..healthy()
    };
    assert_eq!(
        gates.route_blocker(),
        Some(InboundAdmissionBlocker::ReservePaused),
        "reserve-wide pause must remain the emergency stop"
    );
}

/// A closed route refuses the smallest and the largest deposit alike.
#[test]
fn a_closed_route_refuses_every_amount() {
    let gates = InboundAdmissionGates {
        route_admission_closed: true,
        ..healthy()
    };
    for amount in [1i64, 1_000, 999_999] {
        assert_eq!(
            gates.blocker(amount, InboundRateLimits::default()),
            Some(InboundAdmissionBlocker::RouteAdmissionClosed),
            "amount {amount}"
        );
    }
}

/// No two reasons share a name, and no name is a note: the notes stand on
/// requests, and what may resume or be refunded is told by comparing them.
#[test]
fn blocker_display_names_are_distinct_and_not_manual_review_notes() {
    let all = [
        InboundAdmissionBlocker::RouteAdmissionClosed,
        InboundAdmissionBlocker::AdmissionClosed,
        InboundAdmissionBlocker::ReservePaused,
        InboundAdmissionBlocker::SourceWalletRateLimited,
        InboundAdmissionBlocker::RecipientRateLimited,
        InboundAdmissionBlocker::UtxoLiquidityLow,
        InboundAdmissionBlocker::LiquidityBufferLow,
        InboundAdmissionBlocker::InsufficientCapacity,
    ];
    let mut names: Vec<&str> = all.iter().map(|b| b.as_str()).collect();
    names.sort_unstable();
    let count = names.len();
    names.dedup();
    assert_eq!(names.len(), count, "blocker display names must be distinct");

    // A closed route and a closed reserve are told apart.
    assert_ne!(
        InboundAdmissionBlocker::RouteAdmissionClosed.as_str(),
        InboundAdmissionBlocker::AdmissionClosed.as_str()
    );
    assert_ne!(
        InboundAdmissionBlocker::RouteAdmissionClosed.manual_review_note(),
        InboundAdmissionBlocker::AdmissionClosed.manual_review_note()
    );

    for a in all {
        for b in all {
            assert_ne!(a.as_str(), b.manual_review_note(), "a name must not be a note");
        }
        assert!(!Ledger::is_recoverable_manual_review_reason(Some(a.as_str())));
        assert!(Ledger::is_recoverable_manual_review_reason(Some(a.manual_review_note())));
    }
}

/// What is reported of a route at a size is the decision on that size.
#[test]
fn route_blocker_at_is_the_real_decision_at_that_size() {
    for headroom in [-5i64, 0, 1, 46_999, 47_000, 47_001, 297_000, 1_000_000] {
        for buffer in [0i64, 1, 250_000] {
            for probe in [1i64, 47_000, 1_000_000] {
                let gates = InboundAdmissionGates {
                    confirmed_headroom_atomic: headroom,
                    admission_buffer_atomic: buffer,
                    ..healthy()
                };
                assert_eq!(
                    gates.route_blocker_at(probe),
                    gates.blocker(probe, InboundRateLimits::default()),
                    "headroom {headroom}, buffer {buffer}, probe {probe}"
                );
            }
        }
    }
    let g = healthy();
    assert_eq!(g.route_blocker_at(1), g.route_blocker());
}

/// Headroom just above the buffer admits one unit and refuses a normal deposit.
#[test]
fn a_tiny_probe_can_say_open_while_a_normal_transfer_is_refused() {
    let gates = InboundAdmissionGates {
        confirmed_headroom_atomic: 280_252,
        admission_buffer_atomic: 250_000,
        ..healthy()
    };
    assert_eq!(gates.route_blocker(), None, "the weakest form is satisfied");
    assert_eq!(
        gates.route_blocker_at(47_000),
        Some(InboundAdmissionBlocker::LiquidityBufferLow),
        "a normal deposit is not"
    );
    assert_eq!(
        InboundAdmissionBlocker::LiquidityBufferLow.as_str(),
        "liquidity_buffer_low"
    );
    // With that much more headroom the same deposit fits.
    let recovered = InboundAdmissionGates {
        confirmed_headroom_atomic: 297_000,
        ..gates
    };
    assert_eq!(recovered.route_blocker_at(47_000), None);
    assert_eq!(
        recovered.route_blocker_at(47_001),
        Some(InboundAdmissionBlocker::LiquidityBufferLow)
    );
}

/// The largest admissible amount is admitted and the next one is not.
#[test]
fn max_admissible_net_is_the_exact_boundary_of_the_decision() {
    for headroom in [
        -1i64, 0, 1, 2, 249_999, 250_000, 250_001, 280_252, 1_000_000,
    ] {
        for buffer in [0i64, 1, 250_000] {
            let gates = InboundAdmissionGates {
                confirmed_headroom_atomic: headroom,
                admission_buffer_atomic: buffer,
                ..healthy()
            };
            let max = gates.max_admissible_net_destination_atomic();
            assert!(max >= 0);
            if max > 0 {
                assert_eq!(
                    gates.route_blocker_at(max),
                    None,
                    "headroom {headroom}, buffer {buffer}: max {max} must be admitted"
                );
                assert_ne!(
                    gates.route_blocker_at(max + 1),
                    None,
                    "headroom {headroom}, buffer {buffer}: max {max} must be maximal"
                );
            } else {
                assert_ne!(
                    gates.route_blocker_at(1),
                    None,
                    "headroom {headroom}, buffer {buffer}: a zero max means nothing is admitted"
                );
            }
        }
    }
    let tight = InboundAdmissionGates {
        confirmed_headroom_atomic: 280_252,
        admission_buffer_atomic: 250_000,
        ..healthy()
    };
    assert_eq!(tight.max_admissible_net_destination_atomic(), 30_252);

    // A closed gate leaves nothing, however large the headroom.
    for closed in [
        InboundAdmissionGates {
            route_admission_closed: true,
            ..healthy()
        },
        InboundAdmissionGates {
            admission_closed: true,
            ..healthy()
        },
        InboundAdmissionGates {
            paused: true,
            ..healthy()
        },
        InboundAdmissionGates {
            liquidity_admission_closed: true,
            ..healthy()
        },
        InboundAdmissionGates {
            min_available_utxo_count: 5,
            available_utxo_count: 5,
            ..healthy()
        },
    ] {
        assert_eq!(
            closed.max_admissible_net_destination_atomic(),
            0,
            "{closed:?}"
        );
    }
}
