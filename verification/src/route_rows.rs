//! The routes' switches and admission as they are recorded, for display.
use vstd::prelude::*;
use crate::ledger::Ledger;
use crate::reserves::{RouteAdmissionState, RouteLedgerState};
use crate::rows::{
    RouteAdmissionRecord, RouteAdmissionRecordView, RouteAdmissionRow, RouteAdmissionView,
    RouteLedgerRow, RouteLedgerView, RouteRecord, RouteRecordView, dup_text,
};
use crate::table::{collect_where, select_rows, sort_rows, sorted_by, values};
use crate::types::Route;

verus! {

impl Route {
    /// The place of a route among all.
    pub open spec fn spec_rank(self) -> int {
        match self {
            Route::GlcToSol => 0,
            Route::SolToGlc => 1,
            Route::GlcToRhn => 2,
            Route::RhnToGlc => 3,
            Route::SolToRhn => 4,
            Route::RhnToSol => 5,
        }
    }

    /// The place of a route among all.
    pub fn rank(self) -> (r: u8)
        ensures
            r == self.spec_rank(),
    {
        match self {
            Route::GlcToSol => 0,
            Route::SolToGlc => 1,
            Route::GlcToRhn => 2,
            Route::RhnToGlc => 3,
            Route::SolToRhn => 4,
            Route::RhnToSol => 5,
        }
    }
}

/// A record under the name of a route.
pub open spec fn known_route() -> spec_fn(RouteRecordView) -> bool {
    |x: RouteRecordView| x.route is Some
}

/// A record under a name that no route has.
pub open spec fn unknown_route() -> spec_fn(RouteRecordView) -> bool {
    |x: RouteRecordView| x.route is None
}

/// The switch of a route.
pub open spec fn as_switch() -> spec_fn(RouteRecordView) -> RouteLedgerView {
    |x: RouteRecordView|
        RouteLedgerView {
            route: x.route.unwrap(),
            enabled: x.enabled,
            disabled_reason: x.disabled_reason,
            updated_at: x.updated_at,
        }
}

/// Switches in the order of the routes.
pub open spec fn switch_order() -> spec_fn(RouteLedgerView, RouteLedgerView) -> bool {
    |a: RouteLedgerView, b: RouteLedgerView| a.route.spec_rank() <= b.route.spec_rank()
}

/// A record under the name of a route whose own admission can be closed.
pub open spec fn admission_record() -> spec_fn(RouteAdmissionRecordView) -> bool {
    |x: RouteAdmissionRecordView| x.route matches Some(r) && r.spec_admission_settable()
}

/// Any other record.
pub open spec fn stray_record() -> spec_fn(RouteAdmissionRecordView) -> bool {
    |x: RouteAdmissionRecordView| !(x.route matches Some(r) && r.spec_admission_settable())
}

/// The admission of a route.
pub open spec fn as_admission() -> spec_fn(RouteAdmissionRecordView) -> RouteAdmissionView {
    |x: RouteAdmissionRecordView|
        RouteAdmissionView {
            route: x.route.unwrap(),
            admission_closed: x.admission_closed,
            admission_closed_reason: x.admission_closed_reason,
            updated_at: x.updated_at,
        }
}

/// Admissions in the order of the routes.
pub open spec fn admission_order() -> spec_fn(RouteAdmissionView, RouteAdmissionView) -> bool {
    |a: RouteAdmissionView, b: RouteAdmissionView| a.route.spec_rank() <= b.route.spec_rank()
}

impl Ledger {
    /// The recorded switches of the routes, in the order of the routes, and
    /// the names that no route has; nothing where no table of them exists.
    pub fn route_ledger_rows(records: Option<Vec<RouteRecord>>) -> (r: Option<RouteLedgerState>)
        ensures
            match (r, records) {
                (Some(s), Some(raw)) => {
                    &&& sorted_by(values(s.rows@), switch_order())
                    &&& values(s.rows@).to_multiset() == select_rows(
                        values(raw@),
                        known_route(),
                    ).map_values(as_switch()).to_multiset()
                    &&& values(s.unknown_route_ids@) == select_rows(
                        values(raw@),
                        unknown_route(),
                    ).map_values(|x: RouteRecordView| x.route_id)
                },
                (None, None) => true,
                _ => false,
            },
    {
        let raw = match records {
            Some(raw) => raw,
            None => {
                return None;
            },
        };
        let rows = collect_where(
            &raw,
            |x: &RouteRecord| -> (b: bool) ensures b == known_route()(x@) { x.route.is_some() },
            |x: &RouteRecord| -> (y: RouteLedgerRow)
                requires x@.route is Some
                ensures y@ == as_switch()(x@) {
                RouteLedgerRow {
                    route: x.route.unwrap(),
                    enabled: x.enabled,
                    disabled_reason: dup_text(&x.disabled_reason),
                    updated_at: x.updated_at,
                }
            },
            Ghost(known_route()),
            Ghost(as_switch()),
        );
        let rows = sort_rows(
            rows,
            |a: &RouteLedgerRow, b: &RouteLedgerRow| -> (r: bool)
                ensures r == switch_order()(a@, b@) { a.route.rank() <= b.route.rank() },
            Ghost(switch_order()),
        );
        let unknown_route_ids = collect_where(
            &raw,
            |x: &RouteRecord| -> (b: bool) ensures b == unknown_route()(x@) { x.route.is_none() },
            |x: &RouteRecord| -> (y: String) ensures y@ == x@.route_id { x.route_id.clone() },
            Ghost(unknown_route()),
            Ghost(|x: RouteRecordView| x.route_id),
        );
        Some(RouteLedgerState { rows, unknown_route_ids })
    }

    /// The recorded admission of the routes whose own admission can be
    /// closed, in the order of the routes, and every other name; nothing where
    /// no table of them exists.
    pub fn route_admission_rows(records: Option<Vec<RouteAdmissionRecord>>) -> (r: Option<
        RouteAdmissionState,
    >)
        ensures
            match (r, records) {
                (Some(s), Some(raw)) => {
                    &&& sorted_by(values(s.rows@), admission_order())
                    &&& values(s.rows@).to_multiset() == select_rows(
                        values(raw@),
                        admission_record(),
                    ).map_values(as_admission()).to_multiset()
                    &&& values(s.unknown_route_ids@) == select_rows(
                        values(raw@),
                        stray_record(),
                    ).map_values(|x: RouteAdmissionRecordView| x.route_id)
                },
                (None, None) => true,
                _ => false,
            },
    {
        let raw = match records {
            Some(raw) => raw,
            None => {
                return None;
            },
        };
        let rows = collect_where(
            &raw,
            |x: &RouteAdmissionRecord| -> (b: bool) ensures b == admission_record()(x@) {
                match x.route {
                    Some(r) => r.is_admission_settable(),
                    None => false,
                }
            },
            |x: &RouteAdmissionRecord| -> (y: RouteAdmissionRow)
                requires x@.route is Some
                ensures y@ == as_admission()(x@) {
                RouteAdmissionRow {
                    route: x.route.unwrap(),
                    admission_closed: x.admission_closed,
                    admission_closed_reason: dup_text(&x.admission_closed_reason),
                    updated_at: x.updated_at,
                }
            },
            Ghost(admission_record()),
            Ghost(as_admission()),
        );
        let rows = sort_rows(
            rows,
            |a: &RouteAdmissionRow, b: &RouteAdmissionRow| -> (r: bool)
                ensures r == admission_order()(a@, b@) { a.route.rank() <= b.route.rank() },
            Ghost(admission_order()),
        );
        let unknown_route_ids = collect_where(
            &raw,
            |x: &RouteAdmissionRecord| -> (b: bool) ensures b == stray_record()(x@) {
                match x.route {
                    Some(r) => !r.is_admission_settable(),
                    None => true,
                }
            },
            |x: &RouteAdmissionRecord| -> (y: String) ensures y@ == x@.route_id {
                x.route_id.clone()
            },
            Ghost(stray_record()),
            Ghost(|x: RouteAdmissionRecordView| x.route_id),
        );
        Some(RouteAdmissionState { rows, unknown_route_ids })
    }
}

} // verus!
