//! Records that are only ever added to: attestations, signatures granted,
//! findings of reconciliation, and what administrators did.
use vstd::prelude::*;
use crate::error::LedgerError;
use crate::ledger::{AuditTrailView, Ledger, LedgerView};
use crate::rows::{
    AdminAuditEntry, AdminAuditRow, AdminAuditRowView, AdminAuditView, AttestationRecord,
    AttestationRecordView, AttestationRow, AttestationView, FindingRow, FindingView,
    ReconciliationFindingRow, ReconciliationFindingView, SignatureGrantRow, SignatureGrantView,
    bytes_vec, dup_text,
};
use crate::table::{
    any_row, any_where, newest, newest_where, text_eq, text_of, values,
};
use crate::types::ReserveDirection;

verus! {

/// What `sha2::Sha256::digest` makes of these bytes.
pub uninterp spec fn sha256(message: Seq<u8>) -> Seq<u8>;

/// Calls `sha2::Sha256::digest`. The result depends on the bytes alone and is
/// 32 bytes long; which bytes they are is left unsaid.
#[verifier::external_body]
fn sha256_of(message: &[u8]) -> (r: Vec<u8>)
    ensures
        r@ == sha256(message@),
        r@.len() == 32,
{
    <sha2::Sha256 as sha2::Digest>::digest(message).to_vec()
}

/// An attestation of this action on this request.
pub open spec fn attests(id: i64, action: Seq<char>) -> spec_fn(AttestationView) -> bool {
    |a: AttestationView| a.request_id == id && a.action_type == action
}

/// Which lines of the administrators' log are asked for.
#[derive(Debug)]
pub struct AdminAuditFilter {
    /// Only lines before this one.
    pub before_id: Option<i64>,
    /// Only lines of this action.
    pub action: Option<String>,
    /// Only lines of this administrator.
    pub actor: Option<String>,
    /// How many lines; 50 where that is not said, and always from 1 to 200.
    pub limit: Option<u32>,
}

impl AdminAuditFilter {
    /// How many lines at most.
    pub open spec fn spec_page(&self) -> nat {
        match self.limit {
            Some(n) => if n < 1 {
                1
            } else if n > 200 {
                200
            } else {
                n as nat
            },
            None => 50,
        }
    }

    /// How many lines at most.
    pub fn page(&self) -> (r: u32)
        ensures
            r == self.spec_page(),
    {
        match self.limit {
            Some(n) => if n < 1 {
                1
            } else if n > 200 {
                200
            } else {
                n
            },
            None => 50,
        }
    }

    /// A line that is asked for.
    pub open spec fn wants(&self) -> spec_fn(int, AdminAuditView) -> bool {
        |i: int, e: AdminAuditView|
            {
                &&& self.before_id matches Some(b) ==> i + 1 < b
                &&& text_of(self.action) matches Some(a) ==> e.action == a
                &&& text_of(self.actor) matches Some(a) ==> e.actor == a
            }
    }
}

/// A finding that is asked for.
pub open spec fn wanted_finding(direction: Option<ReserveDirection>, before_id: Option<i64>) -> spec_fn(
    int,
    FindingView,
) -> bool {
    |i: int, f: FindingView|
        {
            &&& direction matches Some(d) ==> f.direction == d
            &&& before_id matches Some(b) ==> i + 1 < b
        }
}

/// A finding with its number.
pub open spec fn numbered_finding(i: int, f: FindingView) -> ReconciliationFindingView {
    ReconciliationFindingView {
        id: (i + 1) as i64,
        direction: f.direction,
        detected_at: f.detected_at,
        expected: f.expected,
        observed: f.observed,
        delta: f.delta,
        classification: f.classification,
        auto_paused: f.auto_paused,
    }
}

/// Whether a line of the administrators' log says who did what, and why.
pub open spec fn complete_entry(e: AdminAuditView) -> bool {
    e.actor.len() > 0 && e.action.len() > 0 && (e.note matches Some(n) && n.len() > 0)
}

/// A line of the administrators' log with its number.
pub open spec fn numbered_admin(i: int, e: AdminAuditView) -> AdminAuditRowView {
    AdminAuditRowView {
        id: (i + 1) as i64,
        at: e.at,
        actor: e.actor,
        action: e.action,
        target: e.target,
        old_value: e.old_value,
        new_value: e.new_value,
        note: e.note,
        error: e.error,
    }
}

/// An attestation with its number.
pub open spec fn numbered_attestation(i: int, a: AttestationView) -> AttestationRecordView {
    AttestationRecordView {
        id: (i + 1) as i64,
        request_id: a.request_id,
        action_type: a.action_type,
        canonical_message: a.canonical_message,
        message_hash: a.message_hash,
        created_at: a.created_at,
    }
}

impl LedgerView {
    /// The ledger with other records.
    pub open spec fn with_audit(self, audit: AuditTrailView) -> LedgerView {
        LedgerView { audit, ..self }
    }

    /// The ledger after the attestation of an action was kept: the first one
    /// stays.
    pub open spec fn attested(
        self,
        id: i64,
        action: Seq<char>,
        message: Seq<u8>,
        hash: Seq<u8>,
        now: i64,
    ) -> LedgerView {
        if any_row(self.audit.attestations, attests(id, action)) {
            self
        } else {
            self.with_audit(
                AuditTrailView {
                    attestations: self.audit.attestations.push(
                        AttestationView {
                            request_id: id,
                            action_type: action,
                            canonical_message: message,
                            message_hash: hash,
                            created_at: now,
                        },
                    ),
                    ..self.audit
                },
            )
        }
    }
}

impl Ledger {
    /// Keeps what was attested of an action on a request, with its hash. The
    /// first attestation of an action stays.
    pub fn record_attestation(
        &mut self,
        request_id: i64,
        action_type: &str,
        message: &[u8],
        now: i64,
    )
        ensures
            final(self)@ == old(self)@.attested(
                request_id,
                action_type@,
                message@,
                sha256(message@),
                now,
            ),
    {
        let hash = sha256_of(message);
        self.record_attestation_hash(request_id, action_type, message, hash, now);
    }

    /// Keeps what was attested of an action on a request, under a hash that
    /// was computed before.
    pub fn record_attestation_hash(
        &mut self,
        request_id: i64,
        action_type: &str,
        message: &[u8],
        message_hash: Vec<u8>,
        now: i64,
    )
        ensures
            final(self)@ == old(self)@.attested(
                request_id,
                action_type@,
                message@,
                message_hash@,
                now,
            ),
    {
        if any_where(
            &self.audit.attestations,
            |a: &AttestationRow| -> (b: bool) ensures b == attests(request_id, action_type@)(a@) {
                a.request_id == request_id && text_eq(a.action_type.as_str(), action_type)
            },
            Ghost(attests(request_id, action_type@)),
        ) {
            return ;
        }
        let row = AttestationRow {
            request_id,
            action_type: action_type.to_owned(),
            canonical_message: bytes_vec(message),
            message_hash,
            created_at: now,
        };
        let ghost v = row@;
        let ghost before = self@.audit.attestations;
        self.audit.attestations.push(row);
        proof {
            assert(self@.audit.attestations =~= before.push(v));
        }
    }

    /// Every attestation, in the order in which they were kept.
    pub fn all_attestation_records(&self) -> (r: Vec<AttestationRecord>)
        ensures
            values(r@) == Seq::new(
                self@.audit.attestations.len(),
                |i: int| numbered_attestation(i, self@.audit.attestations[i]),
            ),
    {
        let ghost rows = self@.audit.attestations;
        let ghost want = Seq::new(rows.len(), |i: int| numbered_attestation(i, rows[i]));
        let mut out: Vec<AttestationRecord> = Vec::new();
        let mut i: usize = 0;
        assert(values(out@) =~= want.take(0));
        while i < self.audit.attestations.len()
            invariant
                i <= self.audit.attestations@.len(),
                rows == self@.audit.attestations,
                want == Seq::new(rows.len(), |i: int| numbered_attestation(i, rows[i])),
                values(out@) == want.take(i as int),
            decreases self.audit.attestations@.len() - i,
        {
            let a = &self.audit.attestations[i];
            let n: usize = i + 1;
            assert(rows[i as int] == a@);
            let ghost before = out@;
            let x = AttestationRecord {
                id: n as i64,
                request_id: a.request_id,
                action_type: a.action_type.clone(),
                canonical_message: bytes_vec(a.canonical_message.as_slice()),
                message_hash: bytes_vec(a.message_hash.as_slice()),
                created_at: a.created_at,
            };
            let ghost v = x@;
            out.push(x);
            proof {
                assert(v == want[i as int]);
                assert(values(out@) =~= values(before).push(v));
                assert(values(out@) =~= want.take(i + 1));
            }
            i = n;
        }
        assert(want.take(want.len() as int) =~= want);
        out
    }

    /// Keeps that a signature was granted.
    pub fn record_signature_grant(
        &mut self,
        action_type: &str,
        identity: &str,
        request_id: Option<i64>,
        severity: &str,
        now: i64,
    )
        ensures
            final(self)@ == old(self)@.with_audit(
                AuditTrailView {
                    grants: old(self)@.audit.grants.push(
                        SignatureGrantView {
                            at: now,
                            action_type: action_type@,
                            identity: identity@,
                            request_id,
                            severity: severity@,
                        },
                    ),
                    ..old(self)@.audit
                },
            ),
    {
        let row = SignatureGrantRow {
            at: now,
            action_type: action_type.to_owned(),
            identity: identity.to_owned(),
            request_id,
            severity: severity.to_owned(),
        };
        let ghost v = row@;
        let ghost before = self@.audit.grants;
        self.audit.grants.push(row);
        proof {
            assert(self@.audit.grants =~= before.push(v));
        }
    }

    /// Keeps what reconciliation found of a reserve.
    pub fn record_reconciliation_finding(
        &mut self,
        direction: ReserveDirection,
        expected: i64,
        observed: i64,
        delta: i64,
        classification: &str,
        auto_paused: bool,
        now: i64,
    )
        ensures
            final(self)@ == old(self)@.with_audit(
                AuditTrailView {
                    findings: old(self)@.audit.findings.push(
                        FindingView {
                            detected_at: now,
                            direction,
                            expected,
                            observed,
                            delta,
                            classification: classification@,
                            auto_paused,
                        },
                    ),
                    ..old(self)@.audit
                },
            ),
    {
        let row = FindingRow {
            detected_at: now,
            direction,
            expected,
            observed,
            delta,
            classification: classification.to_owned(),
            auto_paused,
        };
        let ghost v = row@;
        let ghost before = self@.audit.findings;
        self.audit.findings.push(row);
        proof {
            assert(self@.audit.findings =~= before.push(v));
        }
    }

    /// The latest findings of one reserve or of all, before the one with this
    /// number where one is named, the newest first.
    pub fn reconciliation_findings_page(
        &self,
        direction: Option<ReserveDirection>,
        before_id: Option<i64>,
        limit: u32,
    ) -> (r: Vec<ReconciliationFindingRow>)
        ensures
            values(r@) == newest(
                self@.audit.findings,
                wanted_finding(direction, before_id),
                limit as nat,
            ).map_values(|i: int| numbered_finding(i, self@.audit.findings[i])),
    {
        let ghost rows = self@.audit.findings;
        let ghost g = |i: int| numbered_finding(i, rows[i]);
        let at = newest_where(
            &self.audit.findings,
            |i: usize, f: &FindingRow| -> (b: bool)
                ensures b == wanted_finding(direction, before_id)(i as int, f@) {
                (match direction {
                    Some(d) => f.direction == d,
                    None => true,
                }) && (match before_id {
                    Some(b) => (i as i128) + 1 < b as i128,
                    None => true,
                })
            },
            limit,
            Ghost(wanted_finding(direction, before_id)),
        );
        let ghost want = newest(rows, wanted_finding(direction, before_id), limit as nat);
        let mut out: Vec<ReconciliationFindingRow> = Vec::new();
        let mut k: usize = 0;
        assert(values(out@) =~= want.take(0).map_values(g));
        while k < at.len()
            invariant
                k <= at@.len(),
                rows == self@.audit.findings,
                g == |i: int| numbered_finding(i, rows[i]),
                at@.map_values(|i: usize| i as int) == want,
                forall|k: int|
                    0 <= k < at@.len() ==> (#[trigger] at@[k]) < self.audit.findings@.len(),
                values(out@) == want.take(k as int).map_values(g),
            decreases at@.len() - k,
        {
            let i = at[k];
            assert(i < self.audit.findings.len());
            let f = &self.audit.findings[i];
            assert(want[k as int] == i);
            assert(rows[i as int] == f@);
            let ghost before = out@;
            let n: usize = i + 1;
            let x = ReconciliationFindingRow {
                id: n as i64,
                direction: f.direction,
                detected_at: f.detected_at,
                expected: f.expected,
                observed: f.observed,
                delta: f.delta,
                classification: f.classification.clone(),
                auto_paused: f.auto_paused,
            };
            let ghost v = x@;
            out.push(x);
            proof {
                assert(v == g(want[k as int]));
                assert(values(out@) =~= values(before).push(v));
                assert(values(out@) =~= want.take(k + 1).map_values(g));
            }
            k = k + 1;
        }
        assert(want.take(want.len() as int) =~= want);
        out
    }

    /// Adds a line to the administrators' log and returns its number. A line
    /// without an actor, an action or a note is refused.
    pub fn append_admin_audit(&mut self, entry: &AdminAuditEntry) -> (r: Result<i64, LedgerError>)
        ensures
            r == (if complete_entry(entry@) {
                Ok((old(self)@.audit.admin.len() + 1) as i64)
            } else {
                Err(LedgerError::AuditEntryIncomplete)
            }),
            final(self)@ == (if r is Ok {
                old(self)@.with_audit(
                    AuditTrailView {
                        admin: old(self)@.audit.admin.push(entry@),
                        ..old(self)@.audit
                    },
                )
            } else {
                old(self)@
            }),
    {
        let noted = match &entry.note {
            Some(n) => n.as_str().unicode_len() > 0,
            None => false,
        };
        if entry.actor.as_str().unicode_len() == 0 || entry.action.as_str().unicode_len() == 0
            || !noted {
            return Err(LedgerError::AuditEntryIncomplete);
        }
        let row = entry.clone();
        let ghost before = self@.audit.admin;
        self.audit.admin.push(row);
        proof {
            assert(self@.audit.admin =~= before.push(entry@));
        }
        let n: usize = self.audit.admin.len();
        Ok(n as i64)
    }

    /// The latest lines of the administrators' log that are asked for, the
    /// newest first.
    pub fn list_admin_audit(&self, filter: &AdminAuditFilter) -> (r: Vec<AdminAuditRow>)
        ensures
            values(r@) == newest(
                self@.audit.admin,
                filter.wants(),
                filter.spec_page(),
            ).map_values(|i: int| numbered_admin(i, self@.audit.admin[i])),
    {
        let ghost rows = self@.audit.admin;
        let ghost g = |i: int| numbered_admin(i, rows[i]);
        let at = newest_where(
            &self.audit.admin,
            |i: usize, e: &AdminAuditEntry| -> (b: bool)
                ensures b == filter.wants()(i as int, e@) {
                (match filter.before_id {
                    Some(b) => (i as i128) + 1 < b as i128,
                    None => true,
                }) && (match &filter.action {
                    Some(a) => text_eq(e.action.as_str(), a.as_str()),
                    None => true,
                }) && (match &filter.actor {
                    Some(a) => text_eq(e.actor.as_str(), a.as_str()),
                    None => true,
                })
            },
            filter.page(),
            Ghost(filter.wants()),
        );
        let ghost want = newest(rows, filter.wants(), filter.spec_page());
        let mut out: Vec<AdminAuditRow> = Vec::new();
        let mut k: usize = 0;
        assert(values(out@) =~= want.take(0).map_values(g));
        while k < at.len()
            invariant
                k <= at@.len(),
                rows == self@.audit.admin,
                g == |i: int| numbered_admin(i, rows[i]),
                at@.map_values(|i: usize| i as int) == want,
                forall|k: int| 0 <= k < at@.len() ==> (#[trigger] at@[k]) < self.audit.admin@.len(),
                values(out@) == want.take(k as int).map_values(g),
            decreases at@.len() - k,
        {
            let i = at[k];
            assert(i < self.audit.admin.len());
            let e = &self.audit.admin[i];
            assert(want[k as int] == i);
            assert(rows[i as int] == e@);
            let ghost before = out@;
            let n: usize = i + 1;
            let x = AdminAuditRow {
                id: n as i64,
                at: e.at,
                actor: e.actor.clone(),
                action: e.action.clone(),
                target: e.target.clone(),
                old_value: dup_text(&e.old_value),
                new_value: dup_text(&e.new_value),
                note: dup_text(&e.note),
                error: dup_text(&e.error),
            };
            let ghost v = x@;
            out.push(x);
            proof {
                assert(v == g(want[k as int]));
                assert(values(out@) =~= values(before).push(v));
                assert(values(out@) =~= want.take(k + 1).map_values(g));
            }
            k = k + 1;
        }
        assert(want.take(want.len() as int) =~= want);
        out
    }
}

/// What was attested of an action is never replaced: attesting it again, with
/// whatever message, changes nothing.
pub proof fn law_an_attestation_is_kept_once(
    l: LedgerView,
    id: i64,
    action: Seq<char>,
    message: Seq<u8>,
    hash: Seq<u8>,
    now: i64,
    other: Seq<u8>,
    other_hash: Seq<u8>,
    later: i64,
)
    ensures
        ({
            let m = l.attested(id, action, message, hash, now);
            m.attested(id, action, other, other_hash, later) == m
        }),
{
    let m = l.attested(id, action, message, hash, now);
    if !any_row(l.audit.attestations, attests(id, action)) {
        assert(attests(id, action)(m.audit.attestations[l.audit.attestations.len() as int]));
    }
}

} // verus!
