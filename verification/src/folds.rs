//! Solana deposits enter the ledger here, once each and final: admitted, or
//! parked with the reason why not.
use vstd::prelude::*;
use crate::admission::{
    InboundAdmissionBlocker, InboundAdmissionGates, InboundRateLimits, limits_of,
};
use crate::error::LedgerError;
use crate::ledger::{Ledger, LedgerView, step_because};
use crate::requests::{burst_held, fresh_request, new_request};
use crate::reserves::next_liquidity_closed;
use crate::rows::{BridgeRequest, RequestView, bytes_vec};
use crate::table::{
    any_row, find_where, first_row, is_first, lemma_first_row, lemma_first_row_is_first, text_of,
};
use crate::types::{
    Direction, ManualReviewDisposition, RapidBurstMatch, RequestAmounts, RequestState,
    ReserveDirection, RouteWalletEligibility, SourceChain,
};

verus! {

/// What came of a Solana deposit.
#[derive(Clone, Copy, Debug, PartialEq, Eq, Structural)]
pub enum SolFoldOutcome {
    FoldedFinalized { request_id: i64 },
    AlreadyFolded { request_id: i64 },
    FoldedManualReview { request_id: i64 },
}

/// The request of a Solana deposit.
pub open spec fn of_obligation(index: u64) -> spec_fn(RequestView) -> bool {
    |r: RequestView|
        r.source_chain == SourceChain::Solana && r.source_obligation_index == Some(index)
}

/// Everything about a Solana deposit that its request records.
pub struct SolDeposit {
    pub direction: Direction,
    pub obligation_index: u64,
    pub amounts: RequestAmounts,
    pub requester: [u8; 32],
    pub recipient: Seq<u8>,
}

/// The request of a Solana deposit that is parked with `note`, or admitted.
pub open spec fn folded_request(
    id: i64,
    d: SolDeposit,
    note: Option<Seq<char>>,
    program: [u8; 32],
    now: i64,
) -> RequestView {
    RequestView {
        source_obligation_index: Some(d.obligation_index),
        source_confirmations: 1,
        source_finalized_at: Some(now),
        manual_review_note: note,
        source_chain: SourceChain::Solana,
        source_contract: Some(program@),
        source_wallet: Some(d.requester@),
        ..fresh_request(
            id,
            d.direction,
            folded_state(note),
            d.amounts,
            d.recipient,
            Some(d.requester),
            now,
        )
    }
}

/// A deposit that is parked waits for review; one that is admitted is final.
pub open spec fn folded_state(note: Option<Seq<char>>) -> RequestState {
    if note is None {
        RequestState::SourceFinalized
    } else {
        RequestState::ManualReview
    }
}

impl LedgerView {
    /// Whether the liquidity gate of `d` is closed next.
    pub open spec fn next_gate(self, d: ReserveDirection) -> bool {
        match self.reserves.row(d) {
            Some(row) => next_liquidity_closed(
                row.liquidity_admission_closed,
                row.headroom(),
                row.admission_buffer_atomic,
                row.admission_reopen_atomic,
            ),
            None => false,
        }
    }

    /// Why a deposit is not admitted, with the liquidity gate as it stands
    /// next.
    pub open spec fn fold_blocker(
        self,
        direction: Direction,
        net: i64,
        eligibility: RouteWalletEligibility,
    ) -> Result<Option<InboundAdmissionBlocker>, LedgerError> {
        match self.gates(direction, self.next_gate(direction.spec_destination_reserve())) {
            Ok(g) => Ok(g.spec_blocker(net, limits_of(eligibility))),
            Err(e) => Err(e),
        }
    }

    /// The ledger with the liquidity gate of `d` as it stands next.
    pub open spec fn with_next_gate(self, d: ReserveDirection, now: i64) -> LedgerView {
        match self.reserves.row(d) {
            Some(row) => self.with_liquidity_gate(
                d,
                row.liquidity_admission_closed,
                self.next_gate(d),
                now,
            ),
            None => self,
        }
    }

    /// An admitted deposit's payout can be promised and owed.
    pub open spec fn commitment_fits(self, d: ReserveDirection, net: int) -> bool {
        self.reserved_fits(d, net) && self.pending_fits(d, net)
    }

    /// The ledger after a Solana deposit was recorded, under a burst hold
    /// where one was recognised.
    pub open spec fn folded(
        self,
        d: SolDeposit,
        note: Option<Seq<char>>,
        why: Seq<char>,
        burst: Option<RapidBurstMatch>,
        now: i64,
    ) -> LedgerView {
        let id = self.next_request_id;
        let reserve = d.direction.spec_destination_reserve();
        let net = d.amounts.net_destination_atomic as int;
        let row = folded_request(id, d, note, self.solana_program_id, now);
        let l = self.with_next_gate(reserve, now).with_new_request(
            match burst {
                Some(m) => burst_held(row, m, now),
                None => row,
            },
        ).with_log(step_because(id, None, folded_state(note), now, why));
        let l = if burst is Some {
            l.with_log(
                step_because(
                    id,
                    Some(RequestState::ManualReview),
                    RequestState::ManualReview,
                    now,
                    "rapid_burst_hold"@,
                ),
            )
        } else {
            l
        };
        if note is None {
            l.add_reserved(reserve, net).add_pending(reserve, net)
        } else {
            l
        }
    }

    /// What comes of a Solana deposit that is parked with `note`, or admitted.
    pub open spec fn fold_outcome(
        self,
        d: SolDeposit,
        note: Result<Option<Seq<char>>, LedgerError>,
    ) -> Result<SolFoldOutcome, LedgerError> {
        match first_row(self.requests, of_obligation(d.obligation_index)) {
            Some(i) => Ok(SolFoldOutcome::AlreadyFolded { request_id: self.requests[i].id }),
            None => match note {
                Err(e) => Err(e),
                Ok(n) => if self.next_request_id == i64::MAX {
                    Err(LedgerError::NumbersExhausted)
                } else if n is Some {
                    Ok(SolFoldOutcome::FoldedManualReview { request_id: self.next_request_id })
                } else if !self.commitment_fits(
                    d.direction.spec_destination_reserve(),
                    d.amounts.net_destination_atomic as int,
                ) {
                    Err(LedgerError::AmountOutOfRange)
                } else {
                    Ok(SolFoldOutcome::FoldedFinalized { request_id: self.next_request_id })
                },
            },
        }
    }

    /// The ledger after a Solana deposit was offered.
    pub open spec fn after_fold(
        self,
        d: SolDeposit,
        note: Result<Option<Seq<char>>, LedgerError>,
        why: Seq<char>,
        burst: Option<RapidBurstMatch>,
        now: i64,
    ) -> LedgerView {
        match self.fold_outcome(d, note) {
            Ok(SolFoldOutcome::AlreadyFolded { .. }) => self,
            Ok(_) => self.folded(d, note.unwrap(), why, burst, now),
            Err(_) => self,
        }
    }

    /// The note with which a deposit for Goldcoin is parked: a burst comes
    /// first, then a refusal given from outside, then the admission decision.
    pub open spec fn sol_to_glc_note(
        self,
        net: i64,
        eligibility: RouteWalletEligibility,
        refusal: Option<Seq<char>>,
        burst: Option<RapidBurstMatch>,
    ) -> Result<Option<Seq<char>>, LedgerError> {
        match self.fold_blocker(Direction::SolToGlc, net, eligibility) {
            Err(e) => Err(e),
            Ok(blocker) => Ok(
                if burst is Some {
                    Some("rapid_burst_hold"@)
                } else if refusal is Some {
                    refusal
                } else {
                    match blocker {
                        Some(b) => Some(b.spec_note()),
                        None => None,
                    }
                },
            ),
        }
    }

    /// The note with which a deposit for Robinhood is parked: a burst comes
    /// first, then a refusal given from outside, a destination that cannot be
    /// paid, a route that is off, and the admission decision.
    pub open spec fn sol_to_rhn_note(
        self,
        net: i64,
        eligibility: RouteWalletEligibility,
        deliverable: bool,
        route_open: bool,
        refusal: Option<Seq<char>>,
        burst: Option<RapidBurstMatch>,
    ) -> Result<Option<Seq<char>>, LedgerError> {
        match self.fold_blocker(Direction::SolToRhn, net, eligibility) {
            Err(e) => Err(e),
            Ok(blocker) => Ok(
                if burst is Some {
                    Some("rapid_burst_hold"@)
                } else if refusal is Some {
                    refusal
                } else if !deliverable {
                    Some("undeliverable destination"@)
                } else if !route_open {
                    Some("route_disabled_at_fold"@)
                } else {
                    match blocker {
                        Some(b) => Some(b.spec_note()),
                        None => None,
                    }
                },
            ),
        }
    }
}

/// The value of an optional text.
pub open spec fn seen_text(o: Option<&str>) -> Option<Seq<char>> {
    match o {
        Some(s) => Some(s@),
        None => None,
    }
}

/// The bytes to which a deposit for Robinhood is paid: the decoded address, or
/// what stood in its place.
pub open spec fn rhn_recipient(evm: Option<[u8; 20]>, raw: Seq<u8>) -> Seq<u8> {
    match evm {
        Some(a) => a@,
        None => raw,
    }
}

impl Ledger {
    fn find_obligation(&self, index: u64) -> (r: Option<usize>)
        ensures
            match r {
                Some(i) => i < self.requests@.len() && first_row(
                    self@.requests,
                    of_obligation(index),
                ) == Some(i as int) && self@.requests[i as int] == self.requests@[i as int]@,
                None => first_row(self@.requests, of_obligation(index)) is None,
            },
    {
        find_where(
            &self.requests,
            |x: &BridgeRequest| -> (b: bool) ensures b == of_obligation(index)(x@) {
                x.source_chain == SourceChain::Solana && x.source_obligation_index == Some(index)
            },
            Ghost(of_obligation(index)),
        )
    }

    fn gate_next(&self, d: ReserveDirection) -> (r: Result<bool, LedgerError>)
        ensures
            match self@.reserves.row(d) {
                None => r == Err::<bool, LedgerError>(LedgerError::ReserveNotInitialized(d)),
                Some(row) => if i64::MIN <= row.headroom() <= i64::MAX {
                    r == Ok::<bool, LedgerError>(self@.next_gate(d))
                } else {
                    r == Err::<bool, LedgerError>(LedgerError::AmountOutOfRange)
                },
            },
    {
        match self.reserves.get(d) {
            None => Err(LedgerError::ReserveNotInitialized(d)),
            Some(row) => match row.headroom_checked() {
                None => Err(LedgerError::AmountOutOfRange),
                Some(headroom) => Ok(
                    Self::next_liquidity_admission_closed(
                        row.liquidity_admission_closed,
                        headroom,
                        row.admission_buffer_atomic,
                        row.admission_reopen_atomic,
                    ),
                ),
            },
        }
    }

    fn decide_fold(
        &self,
        direction: Direction,
        net: i64,
        eligibility: RouteWalletEligibility,
    ) -> (r: Result<Option<InboundAdmissionBlocker>, LedgerError>)
        ensures
            r == self@.fold_blocker(direction, net, eligibility),
    {
        let closed = match self.gate_next(direction.destination_reserve()) {
            Ok(c) => c,
            Err(e) => {
                return Err(e);
            },
        };
        match InboundAdmissionGates::read(self, direction, closed) {
            Ok(g) => Ok(g.blocker(net, InboundRateLimits::from(eligibility))),
            Err(e) => Err(e),
        }
    }

    /// Brings the liquidity gate of `d` up to date.
    pub(crate) fn write_next_gate(&mut self, d: ReserveDirection, now: i64)
        requires
            old(self)@.reserves.row(d) matches Some(row) ==> i64::MIN <= row.headroom()
                <= i64::MAX,
        ensures
            final(self)@ == old(self)@.with_next_gate(d, now),
            final(self).requests == old(self).requests,
    {
        match self.gate_next(d) {
            Ok(closed) => {
                let was = match self.reserves.get(d) {
                    Some(row) => row.liquidity_admission_closed,
                    None => false,
                };
                self.write_liquidity_admission_state(d, was, closed, now);
            },
            Err(_) => {},
        }
    }

    fn record_fold(
        &mut self,
        direction: Direction,
        obligation_index: u64,
        amounts: RequestAmounts,
        requester: [u8; 32],
        recipient: Vec<u8>,
        note: Option<String>,
        why: &str,
        burst: Option<RapidBurstMatch>,
        now: i64,
    ) -> (r: Result<SolFoldOutcome, LedgerError>)
        requires
            amounts.storable(),
            first_row(old(self)@.requests, of_obligation(obligation_index)) is None,
            old(self)@.reserves.row(direction.spec_destination_reserve()) matches Some(row)
                ==> i64::MIN <= row.headroom() <= i64::MAX,
        ensures
            ({
                let d = SolDeposit {
                    direction,
                    obligation_index,
                    amounts,
                    requester,
                    recipient: recipient@,
                };
                &&& r == old(self)@.fold_outcome(d, Ok(text_of(note)))
                &&& final(self)@ == old(self)@.after_fold(d, Ok(text_of(note)), why@, burst, now)
            }),
    {
        let ghost d = SolDeposit {
            direction,
            obligation_index,
            amounts,
            requester,
            recipient: recipient@,
        };
        let ghost l0 = self@;
        let ghost n = text_of(note);
        if self.next_request_id == i64::MAX {
            return Err(LedgerError::NumbersExhausted);
        }
        let id: i64 = self.next_request_id;
        let reserve = direction.destination_reserve();
        let net: i64 = amounts.net_destination_atomic as i64;
        let admitted = note.is_none();
        if admitted && !(self.reserved_would_fit(reserve, net) && self.pending_would_fit(
            reserve,
            net,
        )) {
            return Err(LedgerError::AmountOutOfRange);
        }
        let state = if admitted {
            RequestState::SourceFinalized
        } else {
            RequestState::ManualReview
        };
        let mut row = new_request(
            id,
            direction,
            state,
            amounts,
            recipient,
            Some(requester),
            now,
        );
        row.source_obligation_index = Some(obligation_index);
        row.source_confirmations = 1;
        row.source_finalized_at = Some(now);
        row.manual_review_note = note;
        row.source_chain = SourceChain::Solana;
        row.source_contract = Some(bytes_vec(self.solana_program_id.as_slice()));
        row.source_wallet = Some(bytes_vec(requester.as_slice()));
        assert(row@ == folded_request(id, d, n, l0.solana_program_id, now));
        match burst {
            Some(m) => {
                row.manual_review_disposition = ManualReviewDisposition::RapidBurstHold;
                row.hold_reason = Some(m.rule.hold_reason().to_owned());
                row.held_by = Some("system".to_owned());
                row.hold_started_at = Some(now);
                row.review_after = Some(m.review_after);
            },
            None => {},
        }
        self.write_next_gate(reserve, now);
        self.push_request(row);
        self.log_transition(id, None, state, now, Some(why), "system");
        if burst.is_some() {
            self.log_transition(
                id,
                Some(RequestState::ManualReview),
                RequestState::ManualReview,
                now,
                Some("rapid_burst_hold"),
                "system",
            );
        }
        if admitted {
            self.add_reserved(reserve, net);
            self.add_pending(reserve, net);
            Ok(SolFoldOutcome::FoldedFinalized { request_id: id })
        } else {
            Ok(SolFoldOutcome::FoldedManualReview { request_id: id })
        }
    }

    /// Records a Solana deposit for Goldcoin, once. It is admitted where no
    /// burst was recognised, no refusal is given and every gate is open, and
    /// parked otherwise. What the wallet and burst checks found is given.
    pub fn fold_sol_deposit(
        &mut self,
        obligation_index: u64,
        amounts: RequestAmounts,
        requester: [u8; 32],
        recipient_glc_address: &[u8],
        refusal: Option<&str>,
        eligibility: RouteWalletEligibility,
        burst: Option<RapidBurstMatch>,
        now: i64,
    ) -> (r: Result<SolFoldOutcome, LedgerError>)
        requires
            amounts.storable(),
        ensures
            ({
                let d = SolDeposit {
                    direction: Direction::SolToGlc,
                    obligation_index,
                    amounts,
                    requester,
                    recipient: recipient_glc_address@,
                };
                let note = old(self)@.sol_to_glc_note(
                    amounts.net_destination_atomic as i64,
                    eligibility,
                    seen_text(refusal),
                    burst,
                );
                &&& r == old(self)@.fold_outcome(d, note)
                &&& final(self)@ == old(self)@.after_fold(
                    d,
                    note,
                    "retroactive_fold_sol_deposit"@,
                    burst,
                    now,
                )
            }),
    {
        match self.find_obligation(obligation_index) {
            Some(i) => {
                return Ok(SolFoldOutcome::AlreadyFolded { request_id: self.requests[i].id });
            },
            None => {},
        }
        let net: i64 = amounts.net_destination_atomic as i64;
        let blocker = match self.decide_fold(Direction::SolToGlc, net, eligibility) {
            Ok(b) => b,
            Err(e) => {
                return Err(e);
            },
        };
        let note: Option<String> = if burst.is_some() {
            Some("rapid_burst_hold".to_owned())
        } else {
            match refusal {
                Some(t) => Some(t.to_owned()),
                None => match blocker {
                    Some(b) => Some(b.manual_review_note().to_owned()),
                    None => None,
                },
            }
        };
        self.record_fold(
            Direction::SolToGlc,
            obligation_index,
            amounts,
            requester,
            bytes_vec(recipient_glc_address),
            note,
            "retroactive_fold_sol_deposit",
            burst,
            now,
        )
    }

    /// Records a Solana deposit for Robinhood, once. It is admitted where no
    /// burst was recognised, no refusal is given, its destination can be
    /// paid, its route is on and every gate is open, and parked otherwise.
    pub fn fold_sol_deposit_to_robinhood(
        &mut self,
        obligation_index: u64,
        amounts: RequestAmounts,
        requester: [u8; 32],
        recipient_evm: Option<[u8; 20]>,
        raw_destination: &[u8],
        route_open: bool,
        refusal: Option<&str>,
        eligibility: RouteWalletEligibility,
        burst: Option<RapidBurstMatch>,
        now: i64,
    ) -> (r: Result<SolFoldOutcome, LedgerError>)
        requires
            amounts.storable(),
            amounts.net_destination_atomic == amounts.net_atomic,
        ensures
            ({
                let d = SolDeposit {
                    direction: Direction::SolToRhn,
                    obligation_index,
                    amounts,
                    requester,
                    recipient: rhn_recipient(recipient_evm, raw_destination@),
                };
                let note = old(self)@.sol_to_rhn_note(
                    amounts.net_destination_atomic as i64,
                    eligibility,
                    recipient_evm is Some,
                    route_open,
                    seen_text(refusal),
                    burst,
                );
                &&& r == old(self)@.fold_outcome(d, note)
                &&& final(self)@ == old(self)@.after_fold(
                    d,
                    note,
                    "retroactive_fold_sol_deposit_to_robinhood"@,
                    burst,
                    now,
                )
            }),
    {
        match self.find_obligation(obligation_index) {
            Some(i) => {
                return Ok(SolFoldOutcome::AlreadyFolded { request_id: self.requests[i].id });
            },
            None => {},
        }
        let net: i64 = amounts.net_destination_atomic as i64;
        let blocker = match self.decide_fold(Direction::SolToRhn, net, eligibility) {
            Ok(b) => b,
            Err(e) => {
                return Err(e);
            },
        };
        let note: Option<String> = if burst.is_some() {
            Some("rapid_burst_hold".to_owned())
        } else {
            match refusal {
                Some(t) => Some(t.to_owned()),
                None => if recipient_evm.is_none() {
                    Some("undeliverable destination".to_owned())
                } else if !route_open {
                    Some("route_disabled_at_fold".to_owned())
                } else {
                    match blocker {
                        Some(b) => Some(b.manual_review_note().to_owned()),
                        None => None,
                    }
                },
            }
        };
        let recipient: Vec<u8> = match recipient_evm {
            Some(a) => bytes_vec(a.as_slice()),
            None => bytes_vec(raw_destination),
        };
        self.record_fold(
            Direction::SolToRhn,
            obligation_index,
            amounts,
            requester,
            recipient,
            note,
            "retroactive_fold_sol_deposit_to_robinhood",
            burst,
            now,
        )
    }
}

/// A deposit is recorded once: offered again, whatever is found of it then,
/// it is reported as recorded and nothing changes.
pub proof fn law_fold_is_recorded_once(
    l: LedgerView,
    d: SolDeposit,
    note: Result<Option<Seq<char>>, LedgerError>,
    why: Seq<char>,
    burst: Option<RapidBurstMatch>,
    now: i64,
    again: Result<Option<Seq<char>>, LedgerError>,
    again_burst: Option<RapidBurstMatch>,
    later: i64,
)
    requires
        l.fold_outcome(d, note) is Ok,
    ensures
        ({
            let m = l.after_fold(d, note, why, burst, now);
            &&& m.fold_outcome(d, again) matches Ok(SolFoldOutcome::AlreadyFolded { .. })
            &&& m.after_fold(d, again, why, again_burst, later) == m
        }),
{
    let m = l.after_fold(d, note, why, burst, now);
    let p = of_obligation(d.obligation_index);
    match first_row(l.requests, p) {
        Some(_) => {},
        None => {
            let k = l.requests.len() as int;
            assert(m.requests.len() == k + 1);
            assert(p(m.requests[k]));
            crate::table::lemma_first_row_is_first(m.requests, p);
            assert(any_row(m.requests, p));
        },
    }
}

/// A parked deposit takes no capacity: nothing is promised for it and nothing
/// owed.
pub proof fn law_a_park_takes_no_capacity(
    l: LedgerView,
    d: SolDeposit,
    note: Seq<char>,
    why: Seq<char>,
    burst: Option<RapidBurstMatch>,
    now: i64,
    r: ReserveDirection,
)
    requires
        l.reserves.row(r) is Some,
    ensures
        ({
            let m = l.folded(d, Some(note), why, burst, now);
            &&& m.reserves.row(r).unwrap().reserved_liquidity == l.reserves.row(
                r,
            ).unwrap().reserved_liquidity
            &&& m.reserves.row(r).unwrap().pending_obligations == l.reserves.row(
                r,
            ).unwrap().pending_obligations
            &&& m.reserves.row(r).unwrap().headroom() == l.reserves.row(r).unwrap().headroom()
        }),
{
}

/// A deposit for Goldcoin is admitted exactly where the admission decision
/// that is shown to the public admits it, no refusal is given and no burst was
/// recognised.
pub proof fn law_fold_agrees_with_the_admission_decision(
    l: LedgerView,
    net: i64,
    eligibility: RouteWalletEligibility,
    refusal: Option<Seq<char>>,
    burst: Option<RapidBurstMatch>,
)
    requires
        l.gates(
            Direction::SolToGlc,
            l.next_gate(ReserveDirection::GoldcoinReserve),
        ) is Ok,
    ensures
        ({
            let g = l.gates(
                Direction::SolToGlc,
                l.next_gate(ReserveDirection::GoldcoinReserve),
            ).unwrap();
            l.sol_to_glc_note(net, eligibility, refusal, burst) == Ok::<
                Option<Seq<char>>,
                LedgerError,
            >(None) <==> g.spec_blocker(net, limits_of(eligibility)) is None && refusal is None
                && burst is None
        }),
{
}

/// A Solana deposit for Goldcoin that is new is recorded whatever is found of
/// it. It is admitted exactly where no burst was recognised, no refusal is given
/// and every gate is open, and then its payout is promised and owed; parked, it
/// takes no capacity. Offered again, it is reported under the number that it
/// has, and nothing changes.
pub proof fn law_a_new_deposit_is_folded(
    l: LedgerView,
    d: SolDeposit,
    eligibility: RouteWalletEligibility,
    refusal: Option<Seq<char>>,
    burst: Option<RapidBurstMatch>,
    why: Seq<char>,
    now: i64,
    again: Result<Option<Seq<char>>, LedgerError>,
    again_burst: Option<RapidBurstMatch>,
    later: i64,
)
    requires
        d.direction == Direction::SolToGlc,
        d.amounts.storable(),
        !any_row(l.requests, of_obligation(d.obligation_index)),
        l.gates(Direction::SolToGlc, l.next_gate(ReserveDirection::GoldcoinReserve)) is Ok,
        l.next_request_id < i64::MAX,
        l.commitment_fits(
            ReserveDirection::GoldcoinReserve,
            d.amounts.net_destination_atomic as int,
        ),
    ensures
        ({
            let net = d.amounts.net_destination_atomic;
            let g = l.gates(
                Direction::SolToGlc,
                l.next_gate(ReserveDirection::GoldcoinReserve),
            ).unwrap();
            let admitted = burst is None && refusal is None && g.spec_blocker(
                net as i64,
                limits_of(eligibility),
            ) is None;
            let note = l.sol_to_glc_note(net as i64, eligibility, refusal, burst);
            let m = l.after_fold(d, note, why, burst, now);
            let id = l.next_request_id;
            let before = l.reserves.row(ReserveDirection::GoldcoinReserve).unwrap();
            let after = m.reserves.row(ReserveDirection::GoldcoinReserve).unwrap();
            &&& l.fold_outcome(d, note) == Ok::<SolFoldOutcome, LedgerError>(
                if admitted {
                    SolFoldOutcome::FoldedFinalized { request_id: id }
                } else {
                    SolFoldOutcome::FoldedManualReview { request_id: id }
                },
            )
            &&& m.requests.len() == l.requests.len() + 1
            &&& m.requests.last().id == id && of_obligation(d.obligation_index)(m.requests.last())
            &&& after.reserved_liquidity == before.reserved_liquidity + (if admitted {
                net as int
            } else {
                0
            })
            &&& after.pending_obligations == before.pending_obligations + (if admitted {
                net as int
            } else {
                0
            })
            &&& m.fold_outcome(d, again) == Ok::<SolFoldOutcome, LedgerError>(
                SolFoldOutcome::AlreadyFolded { request_id: id },
            )
            &&& m.after_fold(d, again, why, again_burst, later) == m
        }),
{
    let p = of_obligation(d.obligation_index);
    let note = l.sol_to_glc_note(
        d.amounts.net_destination_atomic as i64,
        eligibility,
        refusal,
        burst,
    );
    let m = l.after_fold(d, note, why, burst, now);
    lemma_first_row_is_first(l.requests, p);
    let k = l.requests.len() as int;
    assert(is_first(m.requests, p, k)) by {
        assert forall|j: int| 0 <= j < k implies !p(#[trigger] m.requests[j]) by {
            assert(m.requests[j] == l.requests[j]);
        }
    }
    lemma_first_row(m.requests, p, k);
}

/// Folding keeps every reserve solvent: an admitted deposit is covered by the
/// reserve that pays it.
pub proof fn law_fold_keeps_solvency(
    l: LedgerView,
    d: SolDeposit,
    eligibility: RouteWalletEligibility,
    note: Option<Seq<char>>,
    why: Seq<char>,
    burst: Option<RapidBurstMatch>,
    now: i64,
)
    requires
        l.solvent(),
        d.amounts.storable(),
        note is None ==> l.fold_blocker(
            d.direction,
            d.amounts.net_destination_atomic as i64,
            eligibility,
        ) == Ok::<Option<InboundAdmissionBlocker>, LedgerError>(None),
        note is None ==> l.commitment_fits(
            d.direction.spec_destination_reserve(),
            d.amounts.net_destination_atomic as int,
        ),
    ensures
        l.folded(d, note, why, burst, now).solvent(),
{
    let m = l.folded(d, note, why, burst, now);
    assert forall|r: ReserveDirection| (#[trigger] m.reserves.row(r)) is Some implies m.reserves.row(
        r,
    ).unwrap().solvent() by {
        assert(l.reserves.row(r) is Some && l.reserves.row(r).unwrap().solvent());
    }
}

} // verus!
