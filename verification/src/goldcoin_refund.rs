//! A parked Goldcoin deposit is given back on Goldcoin.
use vstd::prelude::*;
use crate::coins::{first_not_takable, is_available, reserve_prefix};
use crate::error::{GlcRefundRefusal, LedgerError, RobinhoodPayoutEvidence};
use crate::holds::glc_refund_for;
use crate::ledger::{Ledger, LedgerView, lemma_request_id, lemma_with_request};
use crate::reasons::{reason_prefix, refundable_glc_reason};
use crate::resume::{payout_for, rhn_tx_for};
use crate::rows::{
    BridgeRequest, CoinView, GoldcoinRefundRow, GoldcoinRefundView, LogEntry, RefundInputRow,
    RefundInputView, RequestView, RobinhoodTxRow, RobinhoodTxView, VaultUtxo, dup_text,
};
use crate::table::{
    any_row, blank, collect_where, eq32, find_where, first_row, is_blank, lemma_first_row_is_first,
    select_rows, text_of, values,
};
use crate::types::{Direction, GoldcoinRefundState, RequestState, RobinhoodTxKind};

verus! {

/// What the ledger holds for and against a Goldcoin refund, condition by
/// condition, and the first that stands against it.
#[derive(Debug)]
pub struct GlcRefundDbChecks {
    pub request_found: bool,
    pub direction: Option<Direction>,
    pub direction_is_goldcoin_sourced: bool,
    pub direction_is_glc_to_sol: bool,
    pub state_is_manual_review: bool,
    pub reason_is_refundable: bool,
    pub has_source_outpoint: bool,
    pub no_goldcoin_payout: bool,
    pub no_destination_txid: bool,
    pub no_settlement_claim: bool,
    pub no_robinhood_payout_started: bool,
    pub robinhood_payout_evidence: Vec<RobinhoodPayoutEvidence>,
    pub no_existing_refund: bool,
    pub durable_observed_amount_atomic: Option<u64>,
    pub stored_deposit_script_pubkey_hex: Option<String>,
    pub refusal: Option<GlcRefundRefusal>,
}

/// The value of [`GlcRefundDbChecks`].
#[verifier::ext_equal]
pub struct GlcRefundChecksView {
    pub request_found: bool,
    pub direction: Option<Direction>,
    pub direction_is_goldcoin_sourced: bool,
    pub direction_is_glc_to_sol: bool,
    pub state_is_manual_review: bool,
    pub reason_is_refundable: bool,
    pub has_source_outpoint: bool,
    pub no_goldcoin_payout: bool,
    pub no_destination_txid: bool,
    pub no_settlement_claim: bool,
    pub no_robinhood_payout_started: bool,
    pub robinhood_payout_evidence: Seq<RobinhoodPayoutEvidence>,
    pub no_existing_refund: bool,
    pub durable_observed_amount_atomic: Option<u64>,
    pub stored_deposit_script_pubkey_hex: Option<Seq<char>>,
    pub refusal: Option<GlcRefundRefusal>,
}

impl View for GlcRefundDbChecks {
    type V = GlcRefundChecksView;

    open spec fn view(&self) -> GlcRefundChecksView {
        GlcRefundChecksView {
            request_found: self.request_found,
            direction: self.direction,
            direction_is_goldcoin_sourced: self.direction_is_goldcoin_sourced,
            direction_is_glc_to_sol: self.direction_is_glc_to_sol,
            state_is_manual_review: self.state_is_manual_review,
            reason_is_refundable: self.reason_is_refundable,
            has_source_outpoint: self.has_source_outpoint,
            no_goldcoin_payout: self.no_goldcoin_payout,
            no_destination_txid: self.no_destination_txid,
            no_settlement_claim: self.no_settlement_claim,
            no_robinhood_payout_started: self.no_robinhood_payout_started,
            robinhood_payout_evidence: values(self.robinhood_payout_evidence@),
            no_existing_refund: self.no_existing_refund,
            durable_observed_amount_atomic: self.durable_observed_amount_atomic,
            stored_deposit_script_pubkey_hex: text_of(self.stored_deposit_script_pubkey_hex),
            refusal: self.refusal,
        }
    }
}

impl GlcRefundDbChecks {
    /// Whether nothing in the ledger stands against the refund.
    pub fn all_passed(&self) -> (r: bool)
        ensures
            r == (self@.refusal is None),
    {
        self.refusal.is_none()
    }
}

/// A payment on Robinhood as evidence against a refund.
pub open spec fn as_evidence() -> spec_fn(RobinhoodTxView) -> RobinhoodPayoutEvidence {
    |t: RobinhoodTxView| RobinhoodPayoutEvidence { tx_id: t.id, state: t.state }
}

/// The note names a reason with which a Goldcoin deposit may be given back.
pub open spec fn note_refundable(note: Option<Seq<char>>) -> bool {
    note matches Some(n) && refundable_glc_reason(reason_prefix(n))
}

/// What is found of a request that is not there.
pub open spec fn no_such_request() -> GlcRefundChecksView {
    GlcRefundChecksView {
        request_found: false,
        direction: None,
        direction_is_goldcoin_sourced: false,
        direction_is_glc_to_sol: false,
        state_is_manual_review: false,
        reason_is_refundable: false,
        has_source_outpoint: false,
        no_goldcoin_payout: false,
        no_destination_txid: false,
        no_settlement_claim: false,
        no_robinhood_payout_started: false,
        robinhood_payout_evidence: Seq::empty(),
        no_existing_refund: false,
        durable_observed_amount_atomic: None,
        stored_deposit_script_pubkey_hex: None,
        refusal: Some(GlcRefundRefusal::RequestNotFound),
    }
}

/// A Goldcoin refund of the deposit at this outpoint.
pub open spec fn glc_refund_from(txid: [u8; 32], vout: u32) -> spec_fn(GoldcoinRefundView) -> bool {
    |p: GoldcoinRefundView| p.source_txid == txid && p.source_vout == vout
}

impl LedgerView {
    /// The Goldcoin refund of a request or, where it has none, of its deposit
    /// under another request.
    pub open spec fn standing_glc_refund(self, id: i64, q: RequestView) -> Option<
        GoldcoinRefundView,
    > {
        match (self.glc_refund(id), q.source_txid, q.source_vout) {
            (Some(x), _, _) => Some(x),
            (None, Some(t), Some(v)) => match first_row(
                self.goldcoin_refunds,
                glc_refund_from(t, v),
            ) {
                Some(i) => Some(self.goldcoin_refunds[i]),
                None => None,
            },
            _ => None,
        }
    }

    /// The Goldcoin refund of a request.
    pub open spec fn glc_refund(self, id: i64) -> Option<GoldcoinRefundView> {
        match first_row(self.goldcoin_refunds, glc_refund_for(id)) {
            Some(i) => Some(self.goldcoin_refunds[i]),
            None => None,
        }
    }

    /// The ledger with `row` in the place of a request's Goldcoin refund.
    pub open spec fn with_glc_refund(self, id: i64, row: GoldcoinRefundView) -> LedgerView {
        match first_row(self.goldcoin_refunds, glc_refund_for(id)) {
            Some(i) => LedgerView {
                goldcoin_refunds: self.goldcoin_refunds.update(i, row),
                ..self
            },
            None => self,
        }
    }

    /// The payments on Robinhood that stand against a refund.
    pub open spec fn evidence(self, id: i64) -> Seq<RobinhoodPayoutEvidence> {
        select_rows(self.robinhood_txs, rhn_tx_for(id, RobinhoodTxKind::Payout)).map_values(
            as_evidence(),
        )
    }

    /// The first condition, in this order, that stands against a refund.
    pub open spec fn glc_refusal(self, id: i64, q: RequestView) -> Option<GlcRefundRefusal> {
        if !q.direction.spec_source_is_goldcoin() {
            Some(GlcRefundRefusal::NotGoldcoinSourced(q.direction))
        } else if q.state != RequestState::ManualReview {
            Some(GlcRefundRefusal::NotManualReview(q.state))
        } else if !note_refundable(q.manual_review_note) {
            Some(GlcRefundRefusal::ReasonNotRefundable)
        } else if !(q.source_txid is Some && q.source_vout is Some) {
            Some(GlcRefundRefusal::NoSourceOutpoint)
        } else if any_row(self.payouts, payout_for(id)) {
            Some(GlcRefundRefusal::PayoutExists)
        } else if q.destination_txid is Some {
            Some(GlcRefundRefusal::DestinationTransactionExists)
        } else if q.settlement_claim_hash is Some {
            Some(GlcRefundRefusal::SettlementClaimExists)
        } else if self.evidence(id).len() > 0 {
            Some(GlcRefundRefusal::RobinhoodPayoutBegun(self.evidence(id)[0]))
        } else if self.standing_glc_refund(id, q) is Some {
            Some(GlcRefundRefusal::RefundExists(self.standing_glc_refund(id, q).unwrap().state))
        } else {
            match self.hold_blocker(id) {
                Some(b) => Some(GlcRefundRefusal::Held(b)),
                None => None,
            }
        }
    }

    /// What the ledger holds for and against a Goldcoin refund.
    pub open spec fn glc_checks(self, id: i64) -> GlcRefundChecksView {
        match self.request(id) {
            None => no_such_request(),
            Some(q) => GlcRefundChecksView {
                request_found: true,
                direction: Some(q.direction),
                direction_is_goldcoin_sourced: q.direction.spec_source_is_goldcoin(),
                direction_is_glc_to_sol: q.direction == Direction::GlcToSol,
                state_is_manual_review: q.state == RequestState::ManualReview,
                reason_is_refundable: note_refundable(q.manual_review_note),
                has_source_outpoint: q.source_txid is Some && q.source_vout is Some,
                no_goldcoin_payout: !any_row(self.payouts, payout_for(id)),
                no_destination_txid: q.destination_txid is None,
                no_settlement_claim: q.settlement_claim_hash is None,
                no_robinhood_payout_started: self.evidence(id).len() == 0,
                robinhood_payout_evidence: self.evidence(id),
                no_existing_refund: self.standing_glc_refund(id, q) is None,
                durable_observed_amount_atomic: match q.observed_amount_atomic {
                    Some(a) => Some(a as u64),
                    None => None,
                },
                stored_deposit_script_pubkey_hex: q.deposit_script_pubkey_hex,
                refusal: self.glc_refusal(id, q),
            },
        }
    }
}

impl Ledger {
    /// Where the Goldcoin refund of a request stands in its table.
    pub(crate) fn find_goldcoin_refund(&self, id: i64) -> (r: Option<usize>)
        ensures
            match r {
                Some(i) => {
                    &&& i < self.goldcoin_refunds@.len()
                    &&& first_row(self@.goldcoin_refunds, glc_refund_for(id)) == Some(i as int)
                    &&& self@.goldcoin_refunds[i as int] == self.goldcoin_refunds@[i as int]@
                },
                None => first_row(self@.goldcoin_refunds, glc_refund_for(id)) is None,
            },
    {
        find_where(
            &self.goldcoin_refunds,
            |x: &GoldcoinRefundRow| -> (b: bool) ensures b == glc_refund_for(id)(x@) {
                x.request_id == id
            },
            Ghost(glc_refund_for(id)),
        )
    }

    fn standing_refund_state(&self, id: i64, q: &BridgeRequest) -> (r: Option<GoldcoinRefundState>)
        ensures
            r == (match self@.standing_glc_refund(id, q@) {
                Some(x) => Some(x.state),
                None => None,
            }),
    {
        match self.find_goldcoin_refund(id) {
            Some(k) => {
                return Some(self.goldcoin_refunds[k].state);
            },
            None => {},
        }
        match (q.source_txid, q.source_vout) {
            (Some(txid), Some(vout)) => {
                let at = find_where(
                    &self.goldcoin_refunds,
                    |x: &GoldcoinRefundRow| -> (b: bool) ensures b == glc_refund_from(txid, vout)(x@)
                        { eq32(&x.source_txid, &txid) && x.source_vout == vout },
                    Ghost(glc_refund_from(txid, vout)),
                );
                match at {
                    Some(k) => Some(self.goldcoin_refunds[k].state),
                    None => None,
                }
            },
            _ => None,
        }
    }

    fn robinhood_payout_evidence(&self, id: i64) -> (r: Vec<RobinhoodPayoutEvidence>)
        ensures
            values(r@) == self@.evidence(id),
    {
        collect_where(
            &self.robinhood_txs,
            |t: &RobinhoodTxRow| -> (b: bool)
                ensures b == rhn_tx_for(id, RobinhoodTxKind::Payout)(t@) {
                t.request_id == Some(id) && t.kind == RobinhoodTxKind::Payout
            },
            |t: &RobinhoodTxRow| -> (e: RobinhoodPayoutEvidence) ensures e@ == as_evidence()(t@) {
                RobinhoodPayoutEvidence { tx_id: t.id, state: t.state }
            },
            Ghost(rhn_tx_for(id, RobinhoodTxKind::Payout)),
            Ghost(as_evidence()),
        )
    }

    /// What the ledger holds for and against a Goldcoin refund. Nothing
    /// changes.
    pub fn glc_refund_db_checks(&self, request_id: i64) -> (r: GlcRefundDbChecks)
        ensures
            r@ == self@.glc_checks(request_id),
    {
        let i = match self.find_request(request_id) {
            Some(i) => i,
            None => {
                let none: Vec<RobinhoodPayoutEvidence> = Vec::new();
                assert(values(none@) =~= Seq::<RobinhoodPayoutEvidence>::empty());
                return GlcRefundDbChecks {
                    request_found: false,
                    direction: None,
                    direction_is_goldcoin_sourced: false,
                    direction_is_glc_to_sol: false,
                    state_is_manual_review: false,
                    reason_is_refundable: false,
                    has_source_outpoint: false,
                    no_goldcoin_payout: false,
                    no_destination_txid: false,
                    no_settlement_claim: false,
                    no_robinhood_payout_started: false,
                    robinhood_payout_evidence: none,
                    no_existing_refund: false,
                    durable_observed_amount_atomic: None,
                    stored_deposit_script_pubkey_hex: None,
                    refusal: Some(GlcRefundRefusal::RequestNotFound),
                };
            },
        };
        let q = &self.requests[i];
        let goldcoin = q.direction.source_is_goldcoin();
        let parked = matches!(q.state, RequestState::ManualReview);
        let refundable = note_allows_refund(q);
        let outpoint = q.source_txid.is_some() && q.source_vout.is_some();
        let payout = self.has_payout(request_id);
        let evidence = self.robinhood_payout_evidence(request_id);
        assert(evidence@.len() == self@.evidence(request_id).len());
        let begun = evidence.len() > 0;
        let existing = self.standing_refund_state(request_id, q);
        let held = self.refund_hold_blocker(request_id);
        let refusal = if !goldcoin {
            Some(GlcRefundRefusal::NotGoldcoinSourced(q.direction))
        } else if !parked {
            Some(GlcRefundRefusal::NotManualReview(q.state))
        } else if !refundable {
            Some(GlcRefundRefusal::ReasonNotRefundable)
        } else if !outpoint {
            Some(GlcRefundRefusal::NoSourceOutpoint)
        } else if payout {
            Some(GlcRefundRefusal::PayoutExists)
        } else if q.destination_txid.is_some() {
            Some(GlcRefundRefusal::DestinationTransactionExists)
        } else if q.settlement_claim_hash.is_some() {
            Some(GlcRefundRefusal::SettlementClaimExists)
        } else if begun {
            assert(values(evidence@)[0] == evidence@[0]@);
            Some(GlcRefundRefusal::RobinhoodPayoutBegun(evidence[0]))
        } else {
            match existing {
                Some(state) => Some(GlcRefundRefusal::RefundExists(state)),
                None => match held {
                    Some(b) => Some(GlcRefundRefusal::Held(b)),
                    None => None,
                },
            }
        };
        GlcRefundDbChecks {
            request_found: true,
            direction: Some(q.direction),
            direction_is_goldcoin_sourced: goldcoin,
            direction_is_glc_to_sol: matches!(q.direction, Direction::GlcToSol),
            state_is_manual_review: parked,
            reason_is_refundable: refundable,
            has_source_outpoint: outpoint,
            no_goldcoin_payout: !payout,
            no_destination_txid: q.destination_txid.is_none(),
            no_settlement_claim: q.settlement_claim_hash.is_none(),
            no_robinhood_payout_started: !begun,
            robinhood_payout_evidence: evidence,
            no_existing_refund: existing.is_none(),
            durable_observed_amount_atomic: match q.observed_amount_atomic {
                Some(a) => Some(a as u64),
                None => None,
            },
            stored_deposit_script_pubkey_hex: dup_text(&q.deposit_script_pubkey_hex),
            refusal,
        }
    }
}

fn note_allows_refund(q: &BridgeRequest) -> (r: bool)
    ensures
        r == note_refundable(q@.manual_review_note),
{
    match &q.manual_review_note {
        Some(n) => Ledger::is_refundable_glc_reason(
            Ledger::manual_review_reason_prefix(n.as_str()),
        ),
        None => false,
    }
}

/// Where a Goldcoin refund comes from and where it goes.
#[derive(Debug)]
pub struct GoldcoinRefundPlan {
    /// What was deposited, read from the chain; all of it is given back.
    pub observed_amount_atomic: u64,
    pub source_input_txid: [u8; 32],
    pub source_input_vout: u32,
    pub refund_dest_p2pkh_hash: [u8; 20],
    pub refund_dest_address: String,
    pub fee_atomic: u64,
    pub inputs: Vec<VaultUtxo>,
    pub unsigned_tx_hex: String,
}

/// A refund that is refused, and why.
pub open spec fn glc_refused<T>(id: i64, detail: GlcRefundRefusal) -> Result<T, LedgerError> {
    Err(LedgerError::GlcRefundNotEligible { id, detail })
}

/// The refund that a plan begins.
pub open spec fn planned_refund(
    id: i64,
    q: RequestView,
    plan: GoldcoinRefundPlan,
    note: Seq<char>,
    created_by: Seq<char>,
    now: i64,
) -> GoldcoinRefundView {
    GoldcoinRefundView {
        request_id: id,
        source_txid: q.source_txid.unwrap(),
        source_vout: q.source_vout.unwrap(),
        observed_amount_atomic: plan.observed_amount_atomic,
        source_input_txid: plan.source_input_txid,
        source_input_vout: plan.source_input_vout,
        refund_dest_p2pkh_hash: plan.refund_dest_p2pkh_hash,
        refund_dest_address: plan.refund_dest_address@,
        refund_amount_atomic: plan.observed_amount_atomic,
        fee_atomic: plan.fee_atomic,
        unsigned_tx_hex: Some(plan.unsigned_tx_hex@),
        signed_tx_hex: None,
        txid: None,
        confirmations: 0,
        state: GoldcoinRefundState::Built,
        manual_review_reason: reason_prefix(q.manual_review_note.unwrap()),
        note,
        created_by,
        built_at: now,
        signed_at: None,
        broadcast_at: None,
        refunded_at: None,
        reservation_released: false,
    }
}

/// The inputs of a refund, in their order.
pub open spec fn refund_input_rows(id: i64, coins: Seq<CoinView>) -> Seq<RefundInputView> {
    Seq::new(
        coins.len(),
        |k: int|
            RefundInputView {
                request_id: id,
                input_order: k as i64,
                txid: coins[k].txid,
                vout: coins[k].vout,
                amount_atomic: coins[k].amount_atomic,
            },
    )
}

impl LedgerView {
    /// Whether a refund can be begun, before its inputs are reserved.
    pub open spec fn begin_glc_check(
        self,
        id: i64,
        note: Seq<char>,
        inputs: nat,
        observed_amount: u64,
    ) -> Result<(), LedgerError> {
        if blank(note) {
            glc_refused(id, GlcRefundRefusal::EmptyNote)
        } else if inputs == 0 {
            glc_refused(id, GlcRefundRefusal::NoInputs)
        } else if self.hold_blocker(id) is Some {
            glc_refused(id, GlcRefundRefusal::Held(self.hold_blocker(id).unwrap()))
        } else {
            match self.request(id) {
                None => Err(LedgerError::RequestNotFound(id)),
                Some(q) => if !q.direction.spec_source_is_goldcoin() {
                    Err(
                        LedgerError::NotAGoldcoinSourcedRequest {
                            id,
                            actual_direction: q.direction,
                        },
                    )
                } else if q.state != RequestState::ManualReview {
                    glc_refused(id, GlcRefundRefusal::NotManualReview(q.state))
                } else if !note_refundable(q.manual_review_note) {
                    glc_refused(id, GlcRefundRefusal::ReasonNotRefundable)
                } else if q.destination_txid is Some || q.settlement_claim_hash is Some {
                    glc_refused(id, GlcRefundRefusal::SettlementBegun)
                } else if self.evidence(id).len() > 0 {
                    glc_refused(id, GlcRefundRefusal::RobinhoodPayoutBegun(self.evidence(id)[0]))
                } else if any_row(self.payouts, payout_for(id)) {
                    glc_refused(id, GlcRefundRefusal::PayoutExists)
                } else if self.standing_glc_refund(id, q) is Some {
                    Err(
                        LedgerError::GoldcoinRefundExists {
                            id,
                            refund_state: self.standing_glc_refund(id, q).unwrap().state,
                        },
                    )
                } else if !(q.source_txid is Some && q.source_vout is Some) {
                    glc_refused(id, GlcRefundRefusal::NoSourceOutpoint)
                } else if q.observed_amount_atomic matches Some(a) && a as u64
                    != observed_amount {
                    glc_refused(
                        id,
                        GlcRefundRefusal::AmountDiffers {
                            observed: observed_amount,
                            recorded: q.observed_amount_atomic.unwrap(),
                        },
                    )
                } else {
                    Ok(())
                },
            }
        }
    }

    /// Whether a refund can be begun.
    pub open spec fn begin_glc_result(
        self,
        id: i64,
        plan: GoldcoinRefundPlan,
        note: Seq<char>,
        now: i64,
    ) -> Result<(), LedgerError> {
        let coins = values(plan.inputs@);
        match self.begin_glc_check(id, note, coins.len(), plan.observed_amount_atomic) {
            Err(e) => Err(e),
            Ok(_) => match first_not_takable(self.vault_utxos, is_available(), coins, 0, id, now) {
                Some(k) => glc_refused(
                    id,
                    GlcRefundRefusal::InputNotAvailable {
                        txid: coins[k].txid,
                        vout: coins[k].vout,
                    },
                ),
                None => Ok(()),
            },
        }
    }

    /// The ledger after a refund was begun: its inputs are reserved. What was
    /// promised for the request stays promised until the refund is confirmed.
    pub open spec fn glc_refund_begun(
        self,
        id: i64,
        plan: GoldcoinRefundPlan,
        note: Seq<char>,
        created_by: Seq<char>,
        now: i64,
    ) -> LedgerView {
        let q = self.request(id).unwrap();
        let coins = values(plan.inputs@);
        LedgerView {
            goldcoin_refunds: self.goldcoin_refunds.push(
                planned_refund(id, q, plan, note, created_by, now),
            ),
            refund_inputs: self.refund_inputs + refund_input_rows(id, coins),
            vault_utxos: reserve_prefix(
                self.vault_utxos,
                is_available(),
                coins,
                coins.len() as int,
                id,
                now,
            ),
            ..self
        }.with_request(id, RequestView { state: RequestState::RefundPending, ..q }).with_log(
            LogEntry {
                request_id: id,
                from_state: Some(RequestState::ManualReview),
                to_state: RequestState::RefundPending,
                at: now,
                reason: Some("glc_refund_started"@),
                actor: created_by,
            },
        )
    }
}

impl Ledger {
    fn check_begin_glc(&self, id: i64, note: &str, inputs: usize, observed_amount: u64) -> (r:
        Result<usize, LedgerError>)
        ensures
            match r {
                Ok(i) => self@.begin_glc_check(id, note@, inputs as nat, observed_amount) is Ok
                    && self.at_row(id, i),
                Err(e) => self@.begin_glc_check(id, note@, inputs as nat, observed_amount) == Err::<
                    (),
                    LedgerError,
                >(e),
            },
    {
        if is_blank(note) {
            return Err(
                LedgerError::GlcRefundNotEligible { id, detail: GlcRefundRefusal::EmptyNote },
            );
        }
        if inputs == 0 {
            return Err(
                LedgerError::GlcRefundNotEligible { id, detail: GlcRefundRefusal::NoInputs },
            );
        }
        match self.refund_hold_blocker(id) {
            Some(b) => {
                return Err(
                    LedgerError::GlcRefundNotEligible { id, detail: GlcRefundRefusal::Held(b) },
                );
            },
            None => {},
        }
        let i = match self.find_request(id) {
            Some(i) => i,
            None => {
                return Err(LedgerError::RequestNotFound(id));
            },
        };
        let q = &self.requests[i];
        if !q.direction.source_is_goldcoin() {
            return Err(
                LedgerError::NotAGoldcoinSourcedRequest { id, actual_direction: q.direction },
            );
        }
        if !matches!(q.state, RequestState::ManualReview) {
            return Err(
                LedgerError::GlcRefundNotEligible {
                    id,
                    detail: GlcRefundRefusal::NotManualReview(q.state),
                },
            );
        }
        if !note_allows_refund(q) {
            return Err(
                LedgerError::GlcRefundNotEligible {
                    id,
                    detail: GlcRefundRefusal::ReasonNotRefundable,
                },
            );
        }
        if q.destination_txid.is_some() || q.settlement_claim_hash.is_some() {
            return Err(
                LedgerError::GlcRefundNotEligible { id, detail: GlcRefundRefusal::SettlementBegun },
            );
        }
        let evidence = self.robinhood_payout_evidence(id);
        assert(evidence@.len() == self@.evidence(id).len());
        if evidence.len() > 0 {
            assert(values(evidence@)[0] == evidence@[0]@);
            return Err(
                LedgerError::GlcRefundNotEligible {
                    id,
                    detail: GlcRefundRefusal::RobinhoodPayoutBegun(evidence[0]),
                },
            );
        }
        if self.has_payout(id) {
            return Err(
                LedgerError::GlcRefundNotEligible { id, detail: GlcRefundRefusal::PayoutExists },
            );
        }
        match self.standing_refund_state(id, q) {
            Some(refund_state) => {
                return Err(LedgerError::GoldcoinRefundExists { id, refund_state });
            },
            None => {},
        }
        if !(q.source_txid.is_some() && q.source_vout.is_some()) {
            return Err(
                LedgerError::GlcRefundNotEligible { id, detail: GlcRefundRefusal::NoSourceOutpoint },
            );
        }
        match q.observed_amount_atomic {
            Some(a) => {
                if a as u64 != observed_amount {
                    return Err(
                        LedgerError::GlcRefundNotEligible {
                            id,
                            detail: GlcRefundRefusal::AmountDiffers {
                                observed: observed_amount,
                                recorded: a,
                            },
                        },
                    );
                }
            },
            None => {},
        }
        Ok(i)
    }

    fn push_refund_inputs(&mut self, id: i64, coins: &Vec<VaultUtxo>)
        ensures
            final(self)@ == (LedgerView {
                refund_inputs: old(self)@.refund_inputs + refund_input_rows(id, values(coins@)),
                ..old(self)@
            }),
            final(self).requests == old(self).requests,
    {
        let ghost l0 = self@;
        let ghost all = refund_input_rows(id, values(coins@));
        let mut k: usize = 0;
        proof {
            assert(l0.refund_inputs + all.take(0) =~= l0.refund_inputs);
        }
        while k < coins.len()
            invariant
                k <= coins@.len(),
                all == refund_input_rows(id, values(coins@)),
                self@ == (LedgerView {
                    refund_inputs: l0.refund_inputs + all.take(k as int),
                    ..l0
                }),
                self.requests == old(self).requests,
            decreases coins@.len() - k,
        {
            let row = RefundInputRow {
                request_id: id,
                input_order: k as i64,
                txid: coins[k].txid,
                vout: coins[k].vout,
                amount_atomic: coins[k].amount_atomic,
            };
            let ghost before = self@.refund_inputs;
            assert(row@ == all[k as int]);
            self.refund_inputs.push(row);
            proof {
                assert(self@.refund_inputs =~= before.push(all[k as int]));
                assert(self@.refund_inputs =~= l0.refund_inputs + all.take(k + 1));
            }
            k = k + 1;
        }
        assert(all.take(coins@.len() as int) =~= all);
    }

    /// Begins the refund of a parked Goldcoin deposit: records it, reserves
    /// its inputs, and moves the request on.
    pub fn begin_goldcoin_refund(
        &mut self,
        request_id: i64,
        plan: &GoldcoinRefundPlan,
        note: &str,
        created_by: &str,
        now: i64,
    ) -> (r: Result<(), LedgerError>)
        ensures
            r == old(self)@.begin_glc_result(request_id, *plan, note@, now),
            final(self)@ == (if r is Ok {
                old(self)@.glc_refund_begun(request_id, *plan, note@, created_by@, now)
            } else {
                old(self)@
            }),
    {
        let i = match self.check_begin_glc(
            request_id,
            note,
            plan.inputs.len(),
            plan.observed_amount_atomic,
        ) {
            Ok(i) => i,
            Err(e) => {
                return Err(e);
            },
        };
        let ghost l0 = self@;
        let ghost q = l0.requests[i as int];
        let ghost coins = values(plan.inputs@);
        match self.reserve_available(&plan.inputs, request_id, now) {
            Ok(_) => {},
            Err(k) => {
                assert(coins[k as int] == plan.inputs@[k as int]@);
                return Err(
                    LedgerError::GlcRefundNotEligible {
                        id: request_id,
                        detail: GlcRefundRefusal::InputNotAvailable {
                            txid: plan.inputs[k].txid,
                            vout: plan.inputs[k].vout,
                        },
                    },
                );
            },
        }
        let reason: String = match &self.requests[i].manual_review_note {
            Some(n) => Self::manual_review_reason_prefix(n.as_str()).to_owned(),
            None => String::new(),
        };
        let row = GoldcoinRefundRow {
            request_id,
            source_txid: self.requests[i].source_txid.unwrap(),
            source_vout: self.requests[i].source_vout.unwrap(),
            observed_amount_atomic: plan.observed_amount_atomic,
            source_input_txid: plan.source_input_txid,
            source_input_vout: plan.source_input_vout,
            refund_dest_p2pkh_hash: plan.refund_dest_p2pkh_hash,
            refund_dest_address: plan.refund_dest_address.clone(),
            refund_amount_atomic: plan.observed_amount_atomic,
            fee_atomic: plan.fee_atomic,
            unsigned_tx_hex: Some(plan.unsigned_tx_hex.clone()),
            signed_tx_hex: None,
            txid: None,
            confirmations: 0,
            state: GoldcoinRefundState::Built,
            manual_review_reason: reason,
            note: note.to_owned(),
            created_by: created_by.to_owned(),
            built_at: now,
            signed_at: None,
            broadcast_at: None,
            refunded_at: None,
            reservation_released: false,
        };
        let ghost v = row@;
        assert(v == planned_refund(request_id, q, *plan, note@, created_by@, now));
        self.goldcoin_refunds.push(row);
        proof {
            assert(self@.goldcoin_refunds =~= l0.goldcoin_refunds.push(v));
        }
        self.push_refund_inputs(request_id, &plan.inputs);
        let ghost l1 = self@;
        self.requests[i].state = RequestState::RefundPending;
        proof {
            assert(self@.requests =~= l1.requests.update(
                i as int,
                RequestView { state: RequestState::RefundPending, ..q },
            ));
        }
        self.log_transition(
            request_id,
            Some(RequestState::ManualReview),
            RequestState::RefundPending,
            now,
            Some("glc_refund_started"),
            created_by,
        );
        Ok(())
    }
}

/// What passes every check can be begun, given a note, inputs that are
/// available, and an amount that agrees with what was recorded.
pub proof fn law_passed_checks_can_be_begun(
    l: LedgerView,
    id: i64,
    note: Seq<char>,
    inputs: nat,
    observed: u64,
)
    requires
        l.glc_checks(id).refusal is None,
        !blank(note),
        inputs > 0,
        l.glc_checks(id).durable_observed_amount_atomic matches Some(a) ==> a == observed,
    ensures
        l.begin_glc_check(id, note, inputs, observed) is Ok,
{
}

/// What can be begun passes every check: what is reported and
/// what is decided agree.
pub proof fn law_what_can_be_begun_passes_the_checks(
    l: LedgerView,
    id: i64,
    note: Seq<char>,
    inputs: nat,
    observed: u64,
)
    requires
        l.begin_glc_check(id, note, inputs, observed) is Ok,
    ensures
        l.glc_checks(id).refusal is None,
{
}

/// Beginning a refund frees nothing: what was promised and owed stays so.
pub proof fn law_beginning_a_refund_frees_nothing(
    l: LedgerView,
    id: i64,
    plan: GoldcoinRefundPlan,
    note: Seq<char>,
    by: Seq<char>,
    now: i64,
)
    requires
        l.begin_glc_result(id, plan, note, now) is Ok,
    ensures
        l.glc_refund_begun(id, plan, note, by, now).reserves == l.reserves,
{
}

/// A refund is begun once: with the refund on record, no other is begun for the
/// request, whatever its plan.
pub proof fn law_a_goldcoin_refund_is_begun_once(
    l: LedgerView,
    id: i64,
    plan: GoldcoinRefundPlan,
    note: Seq<char>,
    by: Seq<char>,
    now: i64,
    again: GoldcoinRefundPlan,
    again_note: Seq<char>,
    later: i64,
)
    requires
        l.begin_glc_result(id, plan, note, now) is Ok,
    ensures
        l.glc_refund_begun(id, plan, note, by, now).begin_glc_result(
            id,
            again,
            again_note,
            later,
        ) is Err,
        !(l.glc_refund_begun(id, plan, note, by, now).glc_checks(id).refusal is None),
{
    let q = l.request(id).unwrap();
    let row = RequestView { state: RequestState::RefundPending, ..q };
    let m = l.glc_refund_begun(id, plan, note, by, now);
    lemma_request_id(l, id);
    lemma_with_request(l, id, row);
    assert(m.requests == l.with_request(id, row).requests);
    assert(m.pos(id) == l.with_request(id, row).pos(id));
    assert(m.request(id) == Some(row));
}

/// A deposit is given back once: with a refund of it on record, none is begun
/// for any request that it is bound to.
pub proof fn law_a_goldcoin_deposit_is_refunded_once(
    l: LedgerView,
    id: i64,
    plan: GoldcoinRefundPlan,
    note: Seq<char>,
    by: Seq<char>,
    now: i64,
    other: i64,
    again: GoldcoinRefundPlan,
    again_note: Seq<char>,
    later: i64,
)
    requires
        l.begin_glc_result(id, plan, note, now) is Ok,
        l.request(other) matches Some(p) && p.source_txid == l.request(id).unwrap().source_txid
            && p.source_vout == l.request(id).unwrap().source_vout,
    ensures
        l.glc_refund_begun(id, plan, note, by, now).begin_glc_result(
            other,
            again,
            again_note,
            later,
        ) is Err,
        !(l.glc_refund_begun(id, plan, note, by, now).glc_checks(other).refusal is None),
{
    if other == id {
        law_a_goldcoin_refund_is_begun_once(l, id, plan, note, by, now, again, again_note, later);
    } else {
        let q = l.request(id).unwrap();
        let row = RequestView { state: RequestState::RefundPending, ..q };
        let m = l.glc_refund_begun(id, plan, note, by, now);
        lemma_request_id(l, id);
        lemma_with_request(l, id, row);
        assert(m.requests == l.with_request(id, row).requests);
        assert(m.request(other) == l.with_request(id, row).request(other));
        let mine = glc_refund_from(q.source_txid.unwrap(), q.source_vout.unwrap());
        let last = m.goldcoin_refunds.len() - 1;
        assert(mine(m.goldcoin_refunds[last]));
        assert(any_row(m.goldcoin_refunds, mine));
        lemma_first_row_is_first(m.goldcoin_refunds, mine);
        assert(m.standing_glc_refund(other, l.request(other).unwrap()) is Some);
    }
}

} // verus!
