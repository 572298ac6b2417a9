//! The life of a request up to its final deposit: reserving, expiring,
//! cancelling, and watching a Goldcoin deposit.
use vstd::prelude::*;
use crate::error::{LedgerError, LedgerErrorView, seen};
use crate::ledger::{
    Ledger, LedgerView, ReserveRow, ReserveTable, lemma_with_request, step, step_because,
};
use crate::rows::{
    BridgeRequest, LogEntry, RequestView, bytes_vec, bytes_of, dup_bytes, dup_opt_bytes,
};
use crate::table::{
    SUM_BOUND, any_row, any_where, bytes_eq, collect_where, concat, count_rows, count_where, decimal, decimal_i64,
    decimal_u64, find_where, first_row, is32, lemma_select_step, lemma_take_all, narrow,
    select_rows, sum_rows, sum_where, text_eq, text_is, text_of, values,
};
use crate::types::{
    Direction, ManualReviewDisposition, RapidBurstMatch, RapidBurstRule, RequestAmounts,
    RequestState, ReserveDirection, RouteWalletEligibility, SourceChain, WalletRole,
};

verus! {

/// A request as it is first recorded, by the service, on the Goldcoin side.
pub open spec fn fresh_request(
    id: i64,
    direction: Direction,
    state: RequestState,
    amounts: RequestAmounts,
    recipient: Seq<u8>,
    requester: Option<[u8; 32]>,
    now: i64,
) -> RequestView {
    RequestView {
        id,
        direction,
        state,
        gross_amount_atomic: amounts.gross_atomic as i64,
        fee_bps: amounts.fee_bps as i64,
        fee_amount_atomic: amounts.fee_atomic as i64,
        net_amount_atomic: amounts.net_atomic as i64,
        net_destination_atomic: amounts.net_destination_atomic as i64,
        recipient,
        requester,
        created_at: now,
        reserved_at: Some(now),
        reservation_expires_at: None,
        source_txid: None,
        source_vout: None,
        source_obligation_index: None,
        source_block_height: None,
        source_block_hash: None,
        source_confirmations: 0,
        source_finalized_at: None,
        failure_reason: None,
        manual_review_note: None,
        source_chain: SourceChain::Goldcoin,
        source_contract: None,
        source_wallet: None,
        auto_resume_hold_note: None,
        auto_resume_hold_until: None,
        manual_review_disposition: ManualReviewDisposition::Normal,
        hold_reason: None,
        held_by: None,
        hold_started_at: None,
        review_after: None,
        operator_decision: None,
        operator_decision_at: None,
        operator_note: None,
        destination_txid: None,
        destination_confirmations: 0,
        settlement_claim_hash: None,
        settled_at: None,
        observed_amount_atomic: None,
        deposit_address: None,
        deposit_script_pubkey_hex: None,
        deposit_redeem_script_hex: None,
    }
}

/// A request as it is first recorded.
pub(crate) fn new_request(
    id: i64,
    direction: Direction,
    state: RequestState,
    amounts: RequestAmounts,
    recipient: Vec<u8>,
    requester: Option<[u8; 32]>,
    now: i64,
) -> (r: BridgeRequest)
    ensures
        r@ == fresh_request(id, direction, state, amounts, recipient@, requester, now),
{
    BridgeRequest {
        id,
        direction,
        state,
        gross_amount_atomic: amounts.gross_atomic as i64,
        fee_bps: amounts.fee_bps as i64,
        fee_amount_atomic: amounts.fee_atomic as i64,
        net_amount_atomic: amounts.net_atomic as i64,
        net_destination_atomic: amounts.net_destination_atomic as i64,
        recipient,
        requester,
        created_at: now,
        reserved_at: Some(now),
        reservation_expires_at: None,
        source_txid: None,
        source_vout: None,
        source_obligation_index: None,
        source_block_height: None,
        source_block_hash: None,
        source_confirmations: 0,
        source_finalized_at: None,
        failure_reason: None,
        manual_review_note: None,
        source_chain: SourceChain::Goldcoin,
        source_contract: None,
        source_wallet: None,
        auto_resume_hold_note: None,
        auto_resume_hold_until: None,
        manual_review_disposition: ManualReviewDisposition::Normal,
        hold_reason: None,
        held_by: None,
        hold_started_at: None,
        review_after: None,
        operator_decision: None,
        operator_decision_at: None,
        operator_note: None,
        destination_txid: None,
        destination_confirmations: 0,
        settlement_claim_hash: None,
        settled_at: None,
        observed_amount_atomic: None,
        deposit_address: None,
        deposit_script_pubkey_hex: None,
        deposit_redeem_script_hex: None,
    }
}

/// What came of a wish to reserve liquidity.
#[derive(Clone, Copy, Debug, PartialEq, Eq, Structural)]
pub enum CreateRequestOutcome {
    Reserved { request_id: i64 },
    InsufficientLiquidity { available_capacity: i64 },
    Paused,
    WalletLimited { eligibility: RouteWalletEligibility },
}

impl LedgerView {
    /// What comes of a wish to reserve liquidity for a transfer, given what
    /// the wallet check found.
    pub open spec fn create_outcome(
        self,
        direction: Direction,
        amounts: RequestAmounts,
        eligibility: RouteWalletEligibility,
    ) -> Result<CreateRequestOutcome, LedgerError> {
        let reserve = direction.spec_destination_reserve();
        match self.reserves.row(reserve) {
            None => Err(LedgerError::NoSuchRow),
            Some(row) => if row.paused {
                Ok(CreateRequestOutcome::Paused)
            } else if !eligibility.spec_eligible() {
                Ok(CreateRequestOutcome::WalletLimited { eligibility })
            } else if !(i64::MIN <= row.headroom() <= i64::MAX) {
                Err(LedgerError::AmountOutOfRange)
            } else if amounts.net_destination_atomic > row.headroom() {
                Ok(
                    CreateRequestOutcome::InsufficientLiquidity {
                        available_capacity: row.headroom() as i64,
                    },
                )
            } else if !self.reserved_fits(reserve, amounts.net_destination_atomic as int) {
                Err(LedgerError::AmountOutOfRange)
            } else if self.next_request_id == i64::MAX {
                Err(LedgerError::NumbersExhausted)
            } else {
                Ok(CreateRequestOutcome::Reserved { request_id: self.next_request_id })
            },
        }
    }

    /// The ledger with a new request that waits for its deposit and whose
    /// payout is promised.
    pub open spec fn with_reservation(
        self,
        direction: Direction,
        amounts: RequestAmounts,
        recipient: Seq<u8>,
        requester: Option<[u8; 32]>,
        source_wallet: Option<Seq<u8>>,
        expires_at: i64,
        now: i64,
    ) -> LedgerView {
        let id = self.next_request_id;
        self.with_new_request(
            RequestView {
                reservation_expires_at: Some(expires_at),
                source_wallet,
                ..fresh_request(
                    id,
                    direction,
                    RequestState::AwaitingDeposit,
                    amounts,
                    recipient,
                    requester,
                    now,
                )
            },
        ).with_log(step(id, None, RequestState::LiquidityReserved, now)).with_log(
            step(
                id,
                Some(RequestState::LiquidityReserved),
                RequestState::AwaitingDeposit,
                now,
            ),
        ).add_reserved(
            direction.spec_destination_reserve(),
            amounts.net_destination_atomic as int,
        )
    }
}

/// A wallet, where one is given that is not empty.
pub open spec fn given_wallet(w: Option<&[u8]>) -> Option<Seq<u8>> {
    match w {
        Some(b) => if b@.len() == 0 {
            None
        } else {
            Some(b@)
        },
        None => None,
    }
}

fn own_wallet(w: Option<&[u8]>) -> (r: Option<Vec<u8>>)
    ensures
        bytes_of(r) == given_wallet(w),
{
    match w {
        Some(b) => if b.len() == 0 {
            None
        } else {
            Some(bytes_vec(b))
        },
        None => None,
    }
}

impl Ledger {
    /// Reserves liquidity for a transfer whose source wallet is not known.
    pub fn create_request(
        &mut self,
        direction: Direction,
        amounts: RequestAmounts,
        recipient: &[u8],
        requester: Option<[u8; 32]>,
        eligibility: RouteWalletEligibility,
        reservation_ttl_secs: i64,
        now: i64,
    ) -> (r: Result<CreateRequestOutcome, LedgerError>)
        requires
            amounts.storable(),
            i64::MIN <= now + reservation_ttl_secs <= i64::MAX,
        ensures
            r == old(self)@.create_outcome(direction, amounts, eligibility),
            final(self)@ == (if r matches Ok(CreateRequestOutcome::Reserved { .. }) {
                old(self)@.with_reservation(
                    direction,
                    amounts,
                    recipient@,
                    requester,
                    None,
                    (now + reservation_ttl_secs) as i64,
                    now,
                )
            } else {
                old(self)@
            }),
    {
        self.create_request_from(
            direction,
            amounts,
            recipient,
            requester,
            None,
            eligibility,
            reservation_ttl_secs,
            now,
        )
    }

    /// Reserves liquidity for a transfer: a paused reserve, a wallet that has
    /// to wait and a lack of headroom refuse it, in this order. What the
    /// wallet check found is given.
    pub fn create_request_from(
        &mut self,
        direction: Direction,
        amounts: RequestAmounts,
        recipient: &[u8],
        requester: Option<[u8; 32]>,
        source_wallet: Option<&[u8]>,
        eligibility: RouteWalletEligibility,
        reservation_ttl_secs: i64,
        now: i64,
    ) -> (r: Result<CreateRequestOutcome, LedgerError>)
        requires
            amounts.storable(),
            i64::MIN <= now + reservation_ttl_secs <= i64::MAX,
        ensures
            r == old(self)@.create_outcome(direction, amounts, eligibility),
            final(self)@ == (if r matches Ok(CreateRequestOutcome::Reserved { .. }) {
                old(self)@.with_reservation(
                    direction,
                    amounts,
                    recipient@,
                    requester,
                    given_wallet(source_wallet),
                    (now + reservation_ttl_secs) as i64,
                    now,
                )
            } else {
                old(self)@
            }),
    {
        let reserve = direction.destination_reserve();
        let row = match self.reserves.get(reserve) {
            Some(row) => row,
            None => {
                return Err(LedgerError::NoSuchRow);
            },
        };
        if row.paused {
            return Ok(CreateRequestOutcome::Paused);
        }
        if !eligibility.is_eligible() {
            return Ok(CreateRequestOutcome::WalletLimited { eligibility });
        }
        let available: i64 = match row.headroom_checked() {
            Some(h) => h,
            None => {
                return Err(LedgerError::AmountOutOfRange);
            },
        };
        let net: i64 = amounts.net_destination_atomic as i64;
        if net > available {
            return Ok(
                CreateRequestOutcome::InsufficientLiquidity { available_capacity: available },
            );
        }
        if !self.reserved_would_fit(reserve, net) {
            return Err(LedgerError::AmountOutOfRange);
        }
        if self.next_request_id == i64::MAX {
            return Err(LedgerError::NumbersExhausted);
        }
        let id: i64 = self.next_request_id;
        let mut request = new_request(
            id,
            direction,
            RequestState::AwaitingDeposit,
            amounts,
            bytes_vec(recipient),
            requester,
            now,
        );
        request.reservation_expires_at = Some(now + reservation_ttl_secs);
        request.source_wallet = own_wallet(source_wallet);
        self.push_request(request);
        self.log_transition(id, None, RequestState::LiquidityReserved, now, None, "system");
        self.log_transition(
            id,
            Some(RequestState::LiquidityReserved),
            RequestState::AwaitingDeposit,
            now,
            None,
            "system",
        );
        self.add_reserved(reserve, net);
        Ok(CreateRequestOutcome::Reserved { request_id: id })
    }
}

/// A reservation whose time is up.
pub open spec fn lapsed(now: i64) -> spec_fn(RequestView) -> bool {
    |r: RequestView|
        (r.state == RequestState::AwaitingDeposit || r.state == RequestState::LiquidityReserved)
            && (r.reservation_expires_at matches Some(t) && t <= now)
}

/// A reservation out of `d` whose time is up.
pub open spec fn lapsed_on(now: i64, d: ReserveDirection) -> spec_fn(RequestView) -> bool {
    |r: RequestView| lapsed(now)(r) && r.direction.spec_destination_reserve() == d
}

/// What a request promises to pay out.
pub open spec fn promised() -> spec_fn(RequestView) -> int {
    |r: RequestView| r.net_destination_atomic as int
}

/// A request after reservations were expired at `now`.
pub open spec fn expired_row(now: i64) -> spec_fn(RequestView) -> RequestView {
    |r: RequestView|
        if lapsed(now)(r) {
            RequestView { state: RequestState::Expired, ..r }
        } else {
            r
        }
}

/// The line logged for a reservation that was expired at `now`.
pub open spec fn expired_line(now: i64) -> spec_fn(RequestView) -> LogEntry {
    |r: RequestView|
        step_because(
            r.id,
            Some(r.state),
            RequestState::Expired,
            now,
            "reservation_ttl_elapsed"@,
        )
}

/// Books with `n` less promised.
pub open spec fn less_reserved(row: Option<ReserveRow>, n: int) -> Option<ReserveRow> {
    match row {
        Some(r) => Some(
            ReserveRow { reserved_liquidity: (r.reserved_liquidity - n) as i64, ..r },
        ),
        None => None,
    }
}

impl LedgerView {
    /// What the lapsed reservations promised out of `d`.
    pub open spec fn lapsed_total(self, now: i64, d: ReserveDirection) -> int {
        sum_rows(self.requests, lapsed_on(now, d), promised())
    }

    /// Releasing the lapsed reservations leaves amounts that can be stored.
    pub open spec fn expiry_fits(self, now: i64) -> bool {
        forall|d: ReserveDirection| #[trigger] self.reserved_fits(d, -self.lapsed_total(now, d))
    }

    /// The ledger after the lapsed reservations were expired.
    pub open spec fn expired_at(self, now: i64) -> LedgerView {
        LedgerView {
            requests: self.requests.map_values(expired_row(now)),
            state_log: self.state_log + select_rows(self.requests, lapsed(now)).map_values(
                expired_line(now),
            ),
            reserves: ReserveTable {
                goldcoin: less_reserved(
                    self.reserves.goldcoin,
                    self.lapsed_total(now, ReserveDirection::GoldcoinReserve),
                ),
                solana: less_reserved(
                    self.reserves.solana,
                    self.lapsed_total(now, ReserveDirection::SolanaReserve),
                ),
                robinhood: less_reserved(
                    self.reserves.robinhood,
                    self.lapsed_total(now, ReserveDirection::RobinhoodReserve),
                ),
            },
            ..self
        }
    }
}

fn is_lapsed(x: &BridgeRequest, now: i64) -> (b: bool)
    ensures
        b == lapsed(now)(x@),
{
    matches!(x.state, RequestState::AwaitingDeposit | RequestState::LiquidityReserved)
        && match x.reservation_expires_at {
        Some(t) => t <= now,
        None => false,
    }
}

fn less_promised(row: Option<ReserveRow>, n: i128) -> (r: Option<Option<ReserveRow>>)
    requires
        -SUM_BOUND <= n <= SUM_BOUND,
    ensures
        r == (if row is Some && !(i64::MIN <= row.unwrap().reserved_liquidity - n <= i64::MAX) {
            None
        } else {
            Some(less_reserved(row, n as int))
        }),
{
    match row {
        None => Some(None),
        Some(x) => {
            match narrow(x.reserved_liquidity as i128 - n) {
                Some(m) => Some(Some(ReserveRow { reserved_liquidity: m, ..x })),
                None => None,
            }
        },
    }
}

impl Ledger {
    fn lapsed_sum(&self, now: i64, d: ReserveDirection) -> (r: i128)
        ensures
            r == self@.lapsed_total(now, d),
            -SUM_BOUND <= r <= SUM_BOUND,
    {
        sum_where(
            &self.requests,
            |x: &BridgeRequest| -> (b: bool) ensures b == lapsed_on(now, d)(x@) {
                is_lapsed(x, now) && x.direction.destination_reserve() == d
            },
            |x: &BridgeRequest| -> (n: i64) ensures n == promised()(x@) {
                x.net_destination_atomic
            },
            Ghost(lapsed_on(now, d)),
            Ghost(promised()),
        )
    }

    /// Expires the reservations whose time is up and releases what they
    /// promised. Returns how many there were.
    pub fn expire_reservations(&mut self, now: i64) -> (r: Result<u32, LedgerError>)
        ensures
            r == (if old(self)@.expiry_fits(now) {
                Ok(count_rows(old(self)@.requests, lapsed(now)) as u32)
            } else {
                Err(LedgerError::AmountOutOfRange)
            }),
            final(self)@ == (if r is Ok {
                old(self)@.expired_at(now)
            } else {
                old(self)@
            }),
    {
        let ghost l0 = self@;
        let g: i128 = self.lapsed_sum(now, ReserveDirection::GoldcoinReserve);
        let s: i128 = self.lapsed_sum(now, ReserveDirection::SolanaReserve);
        let h: i128 = self.lapsed_sum(now, ReserveDirection::RobinhoodReserve);
        proof {
            assert(l0.reserved_fits(
                ReserveDirection::GoldcoinReserve,
                -l0.lapsed_total(now, ReserveDirection::GoldcoinReserve),
            ) || !l0.expiry_fits(now));
            assert(l0.reserved_fits(
                ReserveDirection::SolanaReserve,
                -l0.lapsed_total(now, ReserveDirection::SolanaReserve),
            ) || !l0.expiry_fits(now));
            assert(l0.reserved_fits(
                ReserveDirection::RobinhoodReserve,
                -l0.lapsed_total(now, ReserveDirection::RobinhoodReserve),
            ) || !l0.expiry_fits(now));
        }
        let goldcoin = match less_promised(self.reserves.goldcoin, g) {
            Some(x) => x,
            None => {
                return Err(LedgerError::AmountOutOfRange);
            },
        };
        let solana = match less_promised(self.reserves.solana, s) {
            Some(x) => x,
            None => {
                return Err(LedgerError::AmountOutOfRange);
            },
        };
        let robinhood = match less_promised(self.reserves.robinhood, h) {
            Some(x) => x,
            None => {
                return Err(LedgerError::AmountOutOfRange);
            },
        };
        assert(l0.expiry_fits(now));
        let count: u32 = count_where(
            &self.requests,
            |x: &BridgeRequest| -> (b: bool) ensures b == lapsed(now)(x@) { is_lapsed(x, now) },
            Ghost(lapsed(now)),
        ) as u32;
        let mut i: usize = 0;
        proof {
            lemma_take_all(l0.requests);
            assert(self@.state_log =~= l0.state_log + Seq::<RequestView>::empty().map_values(
                expired_line(now),
            ));
        }
        while i < self.requests.len()
            invariant
                i <= self.requests@.len(),
                self.requests@.len() == l0.requests.len(),
                self@ == (LedgerView {
                    requests: self@.requests,
                    state_log: self@.state_log,
                    ..l0
                }),
                forall|j: int|
                    0 <= j < i ==> (#[trigger] self@.requests[j]) == expired_row(now)(
                        l0.requests[j],
                    ),
                forall|j: int|
                    i <= j < l0.requests.len() ==> (#[trigger] self@.requests[j])
                        == l0.requests[j],
                self@.state_log == l0.state_log + select_rows(
                    l0.requests.take(i as int),
                    lapsed(now),
                ).map_values(expired_line(now)),
            decreases self.requests@.len() - i,
        {
            let ghost before = self@;
            assert(before.requests[i as int] == self.requests@[i as int]@);
            proof {
                lemma_select_step(l0.requests, lapsed(now), i as int);
            }
            if is_lapsed(&self.requests[i], now) {
                let id: i64 = self.requests[i].id;
                let was = self.requests[i].state;
                self.requests[i].state = RequestState::Expired;
                proof {
                    assert(self@.requests =~= before.requests.update(
                        i as int,
                        expired_row(now)(before.requests[i as int]),
                    ));
                }
                self.log_transition(
                    id,
                    Some(was),
                    RequestState::Expired,
                    now,
                    Some("reservation_ttl_elapsed"),
                    "system",
                );
                proof {
                    let sel = select_rows(l0.requests.take(i as int), lapsed(now));
                    assert(sel.push(l0.requests[i as int]).map_values(expired_line(now))
                        =~= sel.map_values(expired_line(now)).push(
                        expired_line(now)(l0.requests[i as int]),
                    ));
                    assert(self@.state_log =~= l0.state_log + sel.push(
                        l0.requests[i as int],
                    ).map_values(expired_line(now)));
                }
            }
            i = i + 1;
        }
        proof {
            assert(self@.requests =~= l0.requests.map_values(expired_row(now)));
        }
        self.reserves.goldcoin = goldcoin;
        self.reserves.solana = solana;
        self.reserves.robinhood = robinhood;
        Ok(count)
    }
}

impl Ledger {
    /// Cancels a request whose deposit has not arrived and releases what it
    /// promised.
    pub fn cancel_request(&mut self, id: i64, now: i64, note: &str) -> (r: Result<(), LedgerError>)
        requires
            old(self)@.request(id) matches Some(q) ==> q.state == RequestState::LiquidityReserved
                || q.state == RequestState::AwaitingDeposit,
        ensures
            r == old(self)@.cancel_result(id),
            final(self)@ == (if r is Ok {
                old(self)@.cancelled(id, now, note@)
            } else {
                old(self)@
            }),
    {
        let i = match self.find_request(id) {
            Some(i) => i,
            None => {
                return Err(LedgerError::RequestNotFound(id));
            },
        };
        let reserve = self.requests[i].direction.destination_reserve();
        let amount: i64 = self.requests[i].net_destination_atomic;
        let state = self.requests[i].state;
        if !self.release_would_fit(reserve, amount) {
            return Err(LedgerError::AmountOutOfRange);
        }
        let ghost l0 = self@;
        self.requests[i].state = RequestState::Cancelled;
        self.requests[i].manual_review_note = Some(note.to_owned());
        proof {
            assert(self@.requests =~= l0.requests.update(
                i as int,
                RequestView {
                    state: RequestState::Cancelled,
                    manual_review_note: Some(note@),
                    ..l0.requests[i as int]
                },
            ));
        }
        self.log_transition(id, Some(state), RequestState::Cancelled, now, Some(note), "operator");
        self.release_reserved(reserve, amount);
        Ok(())
    }

    /// Request `id`.
    pub fn get_request(&self, id: i64) -> (r: Option<BridgeRequest>)
        ensures
            match r {
                Some(q) => self@.request(id) == Some(q@),
                None => self@.request(id) is None,
            },
    {
        match self.find_request(id) {
            Some(i) => Some(self.requests[i].clone()),
            None => None,
        }
    }

    /// Records the deposit address of a Goldcoin-sourced request, once.
    pub fn set_goldcoin_deposit_address(
        &mut self,
        request_id: i64,
        address: &str,
        script_pubkey_hex: &str,
        redeem_script_hex: &str,
    ) -> (r: Result<(), LedgerError>)
        ensures
            seen(r) == old(self)@.deposit_address_result(request_id, address@, script_pubkey_hex@),
            final(self)@ == (if r is Ok {
                old(self)@.with_deposit_address(
                    request_id,
                    address@,
                    script_pubkey_hex@,
                    redeem_script_hex@,
                )
            } else {
                old(self)@
            }),
    {
        let i = match self.find_request(request_id) {
            Some(i) => i,
            None => {
                return Err(LedgerError::RequestNotFound(request_id));
            },
        };
        let direction = self.requests[i].direction;
        if !direction.source_is_goldcoin() {
            return Err(
                LedgerError::NotAGoldcoinSourcedRequest {
                    id: request_id,
                    actual_direction: direction,
                },
            );
        }
        match &self.requests[i].deposit_address {
            Some(existing) => {
                if text_eq(existing.as_str(), address) {
                    return Ok(());
                }
                return Err(
                    LedgerError::DepositAddressAlreadySet {
                        id: request_id,
                        existing: existing.clone(),
                        attempted: address.to_owned(),
                    },
                );
            },
            None => {},
        }
        if any_where(
            &self.requests,
            |x: &BridgeRequest| -> (b: bool)
                ensures b == other_script_owner(request_id, script_pubkey_hex@)(x@)
            { x.id != request_id && text_is(&x.deposit_script_pubkey_hex, script_pubkey_hex) },
            Ghost(other_script_owner(request_id, script_pubkey_hex@)),
        ) {
            return Err(LedgerError::NotUnique);
        }
        let ghost l0 = self@;
        self.requests[i].deposit_address = Some(address.to_owned());
        self.requests[i].deposit_script_pubkey_hex = Some(script_pubkey_hex.to_owned());
        self.requests[i].deposit_redeem_script_hex = Some(redeem_script_hex.to_owned());
        proof {
            assert(self@.requests =~= l0.requests.update(
                i as int,
                RequestView {
                    deposit_address: Some(address@),
                    deposit_script_pubkey_hex: Some(script_pubkey_hex@),
                    deposit_redeem_script_hex: Some(redeem_script_hex@),
                    ..l0.requests[i as int]
                },
            ));
        }
        Ok(())
    }

    /// The Goldcoin-sourced request whose deposits go to this script.
    pub fn find_goldcoin_deposit_request_by_script(&self, script_pubkey_hex: &str) -> (r: Option<
        (i64, Direction),
    >)
        ensures
            r == (match first_row(self@.requests, deposits_to(script_pubkey_hex@)) {
                Some(i) => Some((self@.requests[i].id, self@.requests[i].direction)),
                None => None,
            }),
    {
        match find_where(
            &self.requests,
            |x: &BridgeRequest| -> (b: bool) ensures b == deposits_to(script_pubkey_hex@)(x@) {
                x.direction.source_is_goldcoin() && text_is(
                    &x.deposit_script_pubkey_hex,
                    script_pubkey_hex,
                )
            },
            Ghost(deposits_to(script_pubkey_hex@)),
        ) {
            Some(i) => Some((self.requests[i].id, self.requests[i].direction)),
            None => None,
        }
    }

    /// The scripts of all Goldcoin deposit addresses.
    pub fn all_goldcoin_deposit_script_pubkeys(&self) -> (r: Vec<String>)
        ensures
            values(r@) == select_rows(
                self@.requests,
                |q: RequestView|
                    q.direction.spec_source_is_goldcoin() && q.deposit_script_pubkey_hex is Some,
            ).map_values(|q: RequestView| q.deposit_script_pubkey_hex.unwrap_or(Seq::empty())),
    {
        let ghost p = |q: RequestView|
            q.direction.spec_source_is_goldcoin() && q.deposit_script_pubkey_hex is Some;
        let ghost g = |q: RequestView| q.deposit_script_pubkey_hex.unwrap_or(Seq::empty());
        collect_where(
            &self.requests,
            |x: &BridgeRequest| -> (b: bool) ensures b == p(x@) {
                x.direction.source_is_goldcoin() && x.deposit_script_pubkey_hex.is_some()
            },
            |x: &BridgeRequest| -> (t: String) ensures t@ == g(x@) {
                text_or_empty(&x.deposit_script_pubkey_hex)
            },
            Ghost(p),
            Ghost(g),
        )
    }

    /// All Goldcoin deposit addresses.
    pub fn all_goldcoin_deposit_addresses(&self) -> (r: Vec<String>)
        ensures
            values(r@) == select_rows(
                self@.requests,
                |q: RequestView|
                    q.direction.spec_source_is_goldcoin() && q.deposit_address is Some,
            ).map_values(|q: RequestView| q.deposit_address.unwrap_or(Seq::empty())),
    {
        let ghost p = |q: RequestView|
            q.direction.spec_source_is_goldcoin() && q.deposit_address is Some;
        let ghost g = |q: RequestView| q.deposit_address.unwrap_or(Seq::empty());
        collect_where(
            &self.requests,
            |x: &BridgeRequest| -> (b: bool) ensures b == p(x@) {
                x.direction.source_is_goldcoin() && x.deposit_address.is_some()
            },
            |x: &BridgeRequest| -> (t: String) ensures t@ == g(x@) {
                text_or_empty(&x.deposit_address)
            },
            Ghost(p),
            Ghost(g),
        )
    }

    /// The transaction that paid a request out.
    pub fn get_destination_txid(&self, request_id: i64) -> (r: Option<Vec<u8>>)
        ensures
            bytes_of(r) == (match self@.request(request_id) {
                Some(q) => q.destination_txid,
                None => None,
            }),
    {
        match self.find_request(request_id) {
            Some(i) => dup_opt_bytes(&self.requests[i].destination_txid),
            None => None,
        }
    }
}

fn text_or_empty(o: &Option<String>) -> (r: String)
    ensures
        r@ == text_of(*o).unwrap_or(Seq::empty()),
{
    match o {
        Some(s) => s.clone(),
        None => String::new(),
    }
}

/// A Goldcoin-sourced request whose deposits go to this script.
pub open spec fn deposits_to(script: Seq<char>) -> spec_fn(RequestView) -> bool {
    |r: RequestView|
        r.direction.spec_source_is_goldcoin() && r.deposit_script_pubkey_hex == Some(script)
}

/// Another request whose deposits go to this script.
pub open spec fn other_script_owner(id: i64, script: Seq<char>) -> spec_fn(RequestView) -> bool {
    |r: RequestView| r.id != id && r.deposit_script_pubkey_hex == Some(script)
}

impl LedgerView {
    /// Whether a request can be cancelled.
    pub open spec fn cancel_result(self, id: i64) -> Result<(), LedgerError> {
        match self.request(id) {
            None => Err(LedgerError::RequestNotFound(id)),
            Some(q) => if self.reserved_fits(
                q.direction.spec_destination_reserve(),
                -q.net_destination_atomic,
            ) {
                Ok(())
            } else {
                Err(LedgerError::AmountOutOfRange)
            },
        }
    }

    /// The ledger after a request was cancelled.
    pub open spec fn cancelled(self, id: i64, now: i64, note: Seq<char>) -> LedgerView {
        let q = self.request(id).unwrap();
        self.with_request(
            id,
            RequestView {
                state: RequestState::Cancelled,
                manual_review_note: Some(note),
                ..q
            },
        ).with_log(
            LogEntry {
                request_id: id,
                from_state: Some(q.state),
                to_state: RequestState::Cancelled,
                at: now,
                reason: Some(note),
                actor: "operator"@,
            },
        ).add_reserved(q.direction.spec_destination_reserve(), -q.net_destination_atomic)
    }

    /// Whether `address` may stand as the deposit address of a request.
    pub open spec fn deposit_address_result(
        self,
        id: i64,
        address: Seq<char>,
        script: Seq<char>,
    ) -> Result<(), LedgerErrorView> {
        match self.request(id) {
            None => Err(LedgerError::RequestNotFound(id)@),
            Some(q) => if !q.direction.spec_source_is_goldcoin() {
                Err(
                    LedgerError::NotAGoldcoinSourcedRequest { id, actual_direction: q.direction }@,
                )
            } else if q.deposit_address matches Some(a) && a != address {
                Err(
                    LedgerErrorView::DepositAddressAlreadySet {
                        id,
                        existing: q.deposit_address.unwrap(),
                        attempted: address,
                    },
                )
            } else if q.deposit_address is None && any_row(
                self.requests,
                other_script_owner(id, script),
            ) {
                Err(LedgerError::NotUnique@)
            } else {
                Ok(())
            },
        }
    }

    /// The ledger after a request was given its deposit address.
    pub open spec fn with_deposit_address(
        self,
        id: i64,
        address: Seq<char>,
        script: Seq<char>,
        redeem_script: Seq<char>,
    ) -> LedgerView {
        let q = self.request(id).unwrap();
        if q.deposit_address is None {
            self.with_request(
                id,
                RequestView {
                    deposit_address: Some(address),
                    deposit_script_pubkey_hex: Some(script),
                    deposit_redeem_script_hex: Some(redeem_script),
                    ..q
                },
            )
        } else {
            self
        }
    }

    /// No two requests take their deposits at the same script.
    pub open spec fn scripts_apart(self) -> bool {
        forall|i: int, j: int|
            0 <= i < j < self.requests.len() && (
            #[trigger] self.requests[i]).deposit_script_pubkey_hex is Some ==> (
            #[trigger] self.requests[j]).deposit_script_pubkey_hex
                != self.requests[i].deposit_script_pubkey_hex
    }
}

/// What came of a Goldcoin deposit that was seen.
#[derive(Clone, Copy, Debug, PartialEq, Eq)]
pub enum GlcObservationOutcome {
    Recorded,
    AlreadyRecorded,
    NoMatchingRequest,
    AmountMismatch { expected: u64, observed: u64 },
    LateDepositRecreated,
    LateDepositNoCapacity,
    /// Parked with this note: a wallet has to wait.
    WalletLimited { reason: &'static str, retry_after: i64 },
    RapidBurstHeld { rule: RapidBurstRule, review_after: i64 },
}

/// A wallet that funded a deposit, with what the wallet check and the burst
/// check found of it.
#[derive(Debug)]
pub struct TracedWallet {
    pub wallet: Vec<u8>,
    pub retry_after: Option<i64>,
    pub burst: Option<RapidBurstMatch>,
}

/// The value of a [`TracedWallet`].
pub struct TracedView {
    pub wallet: Seq<u8>,
    pub retry_after: Option<i64>,
    pub burst: Option<RapidBurstMatch>,
}

impl View for TracedWallet {
    type V = TracedView;

    open spec fn view(&self) -> TracedView {
        TracedView { wallet: self.wallet@, retry_after: self.retry_after, burst: self.burst }
    }
}

/// The wallet is among `seen`.
pub open spec fn traced_already(seen: Seq<TracedView>, wallet: Seq<u8>) -> bool {
    exists|i: int| 0 <= i < seen.len() && (#[trigger] seen[i]).wallet == wallet
}

/// The wallets that are not empty, each where it first occurs.
pub open spec fn traced(ws: Seq<TracedView>) -> Seq<TracedView>
    decreases ws.len(),
{
    if ws.len() == 0 {
        Seq::empty()
    } else {
        let t = traced(ws.drop_last());
        if ws.last().wallet.len() == 0 || traced_already(t, ws.last().wallet) {
            t
        } else {
            t.push(ws.last())
        }
    }
}

/// The latest time until which one of the wallets has to wait.
pub open spec fn latest_retry(ts: Seq<TracedView>) -> Option<i64>
    decreases ts.len(),
{
    if ts.len() == 0 {
        None
    } else {
        match (latest_retry(ts.drop_last()), ts.last().retry_after) {
            (None, t) => t,
            (t, None) => t,
            (Some(a), Some(b)) => if a >= b {
                Some(a)
            } else {
                Some(b)
            },
        }
    }
}

/// The first burst among the wallets.
pub open spec fn first_burst(ts: Seq<TracedView>) -> Option<RapidBurstMatch>
    decreases ts.len(),
{
    if ts.len() == 0 {
        None
    } else {
        match first_burst(ts.drop_last()) {
            Some(m) => Some(m),
            None => ts.last().burst,
        }
    }
}

/// What the checks found of a deposit as a whole.
pub struct DepositChecks {
    pub primary_source_wallet: Option<Seq<u8>>,
    pub eligibility: RouteWalletEligibility,
    pub burst: Option<RapidBurstMatch>,
}

/// What the checks found of a deposit, wallet by wallet, taken together: the
/// source waits as long as any of its wallets, and the first burst counts.
pub open spec fn deposit_checks(
    ws: Seq<TracedView>,
    destination_retry_after: Option<i64>,
    untraced_burst: Option<RapidBurstMatch>,
) -> DepositChecks {
    let t = traced(ws);
    DepositChecks {
        primary_source_wallet: if t.len() == 0 {
            None
        } else {
            Some(t[0].wallet)
        },
        eligibility: RouteWalletEligibility {
            source_retry_after: latest_retry(t),
            destination_retry_after,
        },
        burst: if t.len() == 0 {
            untraced_burst
        } else {
            first_burst(t)
        },
    }
}

/// What comes of a deposit that a request waits for.
pub open spec fn classify_deposit(
    q: RequestView,
    observed_amount: u64,
    checks: DepositChecks,
    late: bool,
) -> GlcObservationOutcome {
    if observed_amount != q.gross_amount_atomic as u64 {
        GlcObservationOutcome::AmountMismatch {
            expected: q.gross_amount_atomic as u64,
            observed: observed_amount,
        }
    } else {
        match checks.burst {
            Some(m) => GlcObservationOutcome::RapidBurstHeld {
                rule: m.rule,
                review_after: m.review_after,
            },
            None => match checks.eligibility.spec_blocker() {
                Some((role, retry_after)) => GlcObservationOutcome::WalletLimited {
                    reason: role.spec_limit_reason(),
                    retry_after,
                },
                None => if late {
                    GlcObservationOutcome::LateDepositRecreated
                } else {
                    GlcObservationOutcome::Recorded
                },
            },
        }
    }
}

/// A deposit that is parked is kept with its amount, which must be one that can
/// be stored.
pub open spec fn if_storable(
    outcome: GlcObservationOutcome,
    observed_amount: u64,
) -> Result<GlcObservationOutcome, LedgerError> {
    if observed_amount > i64::MAX && (outcome is AmountMismatch || outcome is RapidBurstHeld
        || outcome is WalletLimited) {
        Err(LedgerError::AmountOutOfRange)
    } else {
        Ok(outcome)
    }
}

/// The note of a request whose deposit had another amount.
pub open spec fn mismatch_note(expected: i64, observed: u64) -> Seq<char> {
    "deposit_amount_mismatch: expected "@ + decimal(expected as int) + " observed "@ + decimal(
        observed as int,
    )
}

/// Where a deposit was seen.
#[derive(Clone, Copy, Debug, PartialEq, Eq)]
pub struct Sighting {
    pub txid: [u8; 32],
    pub vout: u32,
    pub observed_amount: u64,
    pub block_height: i64,
    pub block_hash: [u8; 32],
}

/// A request with its deposit recorded.
pub open spec fn sighted(q: RequestView, at: Sighting) -> RequestView {
    RequestView {
        source_txid: Some(at.txid),
        source_vout: Some(at.vout),
        source_block_height: Some(at.block_height),
        source_block_hash: Some(at.block_hash),
        ..q
    }
}

/// A wallet that was traced, or else the one that was recorded.
pub open spec fn or_recorded(w: Option<Seq<u8>>, recorded: Option<Seq<u8>>) -> Option<Seq<u8>> {
    match w {
        Some(b) => Some(b),
        None => recorded,
    }
}

/// A request under a burst hold.
pub open spec fn burst_held(q: RequestView, m: RapidBurstMatch, now: i64) -> RequestView {
    RequestView {
        manual_review_disposition: ManualReviewDisposition::RapidBurstHold,
        hold_reason: Some(m.rule.spec_hold_reason()),
        held_by: Some("system"@),
        hold_started_at: Some(now),
        review_after: Some(m.review_after),
        ..q
    }
}

impl LedgerView {
    /// The ledger with a parked request put under a burst hold.
    pub open spec fn with_burst_hold(self, id: i64, m: RapidBurstMatch, now: i64) -> LedgerView {
        match self.request(id) {
            Some(q) => self.with_request(id, burst_held(q, m, now)).with_log(
                step_because(
                    id,
                    Some(RequestState::ManualReview),
                    RequestState::ManualReview,
                    now,
                    "rapid_burst_hold"@,
                ),
            ),
            None => self,
        }
    }

    /// The ledger after a request that had expired was promised its payout
    /// again.
    pub open spec fn recreated(self, id: i64, now: i64) -> LedgerView {
        let q = self.request(id).unwrap();
        self.with_request(
            id,
            RequestView {
                state: RequestState::AwaitingDeposit,
                reserved_at: Some(now),
                reservation_expires_at: None,
                ..q
            },
        ).with_log(
            step_because(
                id,
                Some(RequestState::Expired),
                RequestState::LiquidityReserved,
                now,
                "late_deposit_recreated"@,
            ),
        ).with_log(
            step(
                id,
                Some(RequestState::LiquidityReserved),
                RequestState::AwaitingDeposit,
                now,
            ),
        ).add_reserved(q.direction.spec_destination_reserve(), q.net_destination_atomic as int)
    }

    /// What comes of a Goldcoin deposit for request `id`.
    pub open spec fn observation(
        self,
        id: i64,
        at: Sighting,
        checks: DepositChecks,
    ) -> Result<GlcObservationOutcome, LedgerError> {
        match self.request(id) {
            None => Ok(GlcObservationOutcome::NoMatchingRequest),
            Some(q) => if (q.state == RequestState::DepositObserved || q.state
                == RequestState::Confirming) && q.source_txid == Some(at.txid) && q.source_vout
                == Some(at.vout) {
                Ok(GlcObservationOutcome::AlreadyRecorded)
            } else if !q.direction.spec_source_is_goldcoin() {
                Ok(GlcObservationOutcome::NoMatchingRequest)
            } else if q.state == RequestState::Expired {
                let reserve = q.direction.spec_destination_reserve();
                match self.reserves.row(reserve) {
                    None => Err(LedgerError::NoSuchRow),
                    Some(row) => if !(i64::MIN <= row.headroom() <= i64::MAX) {
                        Err(LedgerError::AmountOutOfRange)
                    } else if q.net_destination_atomic > row.headroom() {
                        Ok(GlcObservationOutcome::LateDepositNoCapacity)
                    } else if !self.reserved_fits(reserve, q.net_destination_atomic as int) {
                        Err(LedgerError::AmountOutOfRange)
                    } else {
                        if_storable(
                            classify_deposit(q, at.observed_amount, checks, true),
                            at.observed_amount,
                        )
                    },
                }
            } else if q.state != RequestState::AwaitingDeposit {
                Ok(GlcObservationOutcome::NoMatchingRequest)
            } else {
                if_storable(
                    classify_deposit(q, at.observed_amount, checks, false),
                    at.observed_amount,
                )
            },
        }
    }

    /// The ledger after a deposit came too late and no payout could be
    /// promised again.
    pub open spec fn parked_late(self, id: i64, at: Sighting, now: i64) -> LedgerView {
        self.with_request(
            id,
            RequestView {
                state: RequestState::ManualReview,
                manual_review_note: Some("late_deposit_no_capacity"@),
                ..sighted(self.request(id).unwrap(), at)
            },
        ).with_log(
            step_because(
                id,
                Some(RequestState::Expired),
                RequestState::ManualReview,
                now,
                "late_deposit_no_capacity"@,
            ),
        )
    }

    /// The ledger after a deposit of another amount was parked.
    pub open spec fn parked_mismatch(self, id: i64, at: Sighting, now: i64) -> LedgerView {
        let p = self.request(id).unwrap();
        self.with_request(
            id,
            RequestView {
                state: RequestState::ManualReview,
                manual_review_note: Some(mismatch_note(p.gross_amount_atomic, at.observed_amount)),
                observed_amount_atomic: Some(at.observed_amount as i64),
                ..sighted(p, at)
            },
        ).with_log(
            step_because(
                id,
                Some(RequestState::AwaitingDeposit),
                RequestState::ManualReview,
                now,
                "deposit_amount_mismatch"@,
            ),
        )
    }

    /// The ledger after a deposit was parked with `note`.
    pub open spec fn parked_deposit(
        self,
        id: i64,
        at: Sighting,
        wallet: Option<Seq<u8>>,
        note: Seq<char>,
        now: i64,
    ) -> LedgerView {
        let p = self.request(id).unwrap();
        self.with_request(
            id,
            RequestView {
                state: RequestState::ManualReview,
                manual_review_note: Some(note),
                observed_amount_atomic: Some(at.observed_amount as i64),
                source_wallet: or_recorded(wallet, p.source_wallet),
                ..sighted(p, at)
            },
        ).with_log(
            step_because(
                id,
                Some(RequestState::AwaitingDeposit),
                RequestState::ManualReview,
                now,
                note,
            ),
        )
    }

    /// The ledger after a deposit was taken and waits for confirmations.
    pub open spec fn confirming_deposit(
        self,
        id: i64,
        at: Sighting,
        wallet: Option<Seq<u8>>,
        now: i64,
    ) -> LedgerView {
        let p = self.request(id).unwrap();
        self.with_request(
            id,
            RequestView {
                state: RequestState::Confirming,
                source_confirmations: 1,
                source_wallet: or_recorded(wallet, p.source_wallet),
                ..sighted(p, at)
            },
        ).with_log(
            step(id, Some(RequestState::AwaitingDeposit), RequestState::DepositObserved, now),
        ).with_log(step(id, Some(RequestState::DepositObserved), RequestState::Confirming, now))
    }

    /// The ledger after a Goldcoin deposit for request `id` was seen.
    pub open spec fn after_observation(
        self,
        id: i64,
        at: Sighting,
        checks: DepositChecks,
        now: i64,
    ) -> LedgerView {
        let l = if self.request(id).unwrap().state == RequestState::Expired {
            self.recreated(id, now)
        } else {
            self
        };
        let wallet = checks.primary_source_wallet;
        match self.observation(id, at, checks) {
            Err(_) => self,
            Ok(GlcObservationOutcome::NoMatchingRequest) => self,
            Ok(GlcObservationOutcome::AlreadyRecorded) => self,
            Ok(GlcObservationOutcome::LateDepositNoCapacity) => self.parked_late(id, at, now),
            Ok(GlcObservationOutcome::AmountMismatch { .. }) => l.parked_mismatch(id, at, now),
            Ok(GlcObservationOutcome::RapidBurstHeld { .. }) => l.parked_deposit(
                id,
                at,
                wallet,
                "rapid_burst_hold"@,
                now,
            ).with_burst_hold(id, checks.burst.unwrap(), now),
            Ok(GlcObservationOutcome::WalletLimited { reason, .. }) => l.parked_deposit(
                id,
                at,
                wallet,
                reason@,
                now,
            ),
            Ok(_) => l.confirming_deposit(id, at, wallet, now),
        }
    }
}

/// Takes together what the checks found of a deposit's wallets.
fn fold_checks(
    ws: &Vec<TracedWallet>,
    destination_retry_after: Option<i64>,
    untraced_burst: Option<RapidBurstMatch>,
) -> (r: (Option<Vec<u8>>, RouteWalletEligibility, Option<RapidBurstMatch>))
    ensures
        ({
            let c = deposit_checks(values(ws@), destination_retry_after, untraced_burst);
            &&& bytes_of(r.0) == c.primary_source_wallet
            &&& r.1 == c.eligibility
            &&& r.2 == c.burst
        }),
{
    let ghost all = values(ws@);
    let mut seen: Vec<usize> = Vec::new();
    let mut retry: Option<i64> = None;
    let mut burst: Option<RapidBurstMatch> = None;
    let mut i: usize = 0;
    proof {
        lemma_take_all(all);
    }
    while i < ws.len()
        invariant
            i <= ws@.len(),
            all == values(ws@),
            seen@.len() == traced(all.take(i as int)).len(),
            forall|k: int|
                0 <= k < seen@.len() ==> (#[trigger] seen@[k]) < ws@.len() && traced(
                    all.take(i as int),
                )[k] == ws@[seen@[k] as int]@,
            retry == latest_retry(traced(all.take(i as int))),
            burst == first_burst(traced(all.take(i as int))),
        decreases ws@.len() - i,
    {
        let ghost t = traced(all.take(i as int));
        proof {
            assert(all.take(i + 1).drop_last() =~= all.take(i as int));
            assert(all.take(i + 1).last() == ws@[i as int]@);
        }
        let mut known = ws[i].wallet.len() == 0;
        let mut k: usize = 0;
        while k < seen.len()
            invariant
                k <= seen@.len(),
                i < ws@.len(),
                seen@.len() == t.len(),
                forall|k: int|
                    0 <= k < seen@.len() ==> (#[trigger] seen@[k]) < ws@.len() && t[k]
                        == ws@[seen@[k] as int]@,
                known == (ws@[i as int].wallet@.len() == 0 || exists|j: int|
                    0 <= j < k && (#[trigger] t[j]).wallet == ws@[i as int].wallet@),
            decreases seen@.len() - k,
        {
            assert(seen@[k as int] < ws@.len() && t[k as int] == ws@[seen@[k as int] as int]@);
            if bytes_eq(ws[seen[k]].wallet.as_slice(), ws[i].wallet.as_slice()) {
                known = true;
            }
            k = k + 1;
        }
        if !known {
            proof {
                assert(!traced_already(t, ws@[i as int].wallet@));
                assert(t.push(ws@[i as int]@).drop_last() =~= t);
                assert(t.push(ws@[i as int]@).last() == ws@[i as int]@);
            }
            seen.push(i);
            retry = match (retry, ws[i].retry_after) {
                (None, t) => t,
                (t, None) => t,
                (Some(a), Some(b)) => if a >= b {
                    Some(a)
                } else {
                    Some(b)
                },
            };
            burst = match burst {
                Some(m) => Some(m),
                None => ws[i].burst,
            };
        } else {
            assert(ws@[i as int].wallet@.len() == 0 || traced_already(t, ws@[i as int].wallet@));
        }
        i = i + 1;
    }
    let primary = if seen.len() == 0 {
        None
    } else {
        assert(seen@[0] < ws@.len());
        Some(dup_bytes(&ws[seen[0]].wallet))
    };
    let eligibility = RouteWalletEligibility {
        source_retry_after: retry,
        destination_retry_after,
    };
    let found = if seen.len() == 0 {
        untraced_burst
    } else {
        burst
    };
    (primary, eligibility, found)
}

impl Ledger {
    /// Puts a parked request under a burst hold.
    pub(crate) fn mark_rapid_burst_hold(&mut self, id: i64, i: usize, m: RapidBurstMatch, now: i64)
        requires
            old(self).at_row(id, i),
        ensures
            final(self)@ == old(self)@.with_burst_hold(id, m, now),
    {
        let ghost l0 = self@;
        self.requests[i].manual_review_disposition = ManualReviewDisposition::RapidBurstHold;
        self.requests[i].hold_reason = Some(m.rule.hold_reason().to_owned());
        self.requests[i].held_by = Some("system".to_owned());
        self.requests[i].hold_started_at = Some(now);
        self.requests[i].review_after = Some(m.review_after);
        proof {
            assert(self@.requests =~= l0.requests.update(
                i as int,
                burst_held(l0.requests[i as int], m, now),
            ));
        }
        self.log_transition(
            id,
            Some(RequestState::ManualReview),
            RequestState::ManualReview,
            now,
            Some("rapid_burst_hold"),
            "system",
        );
    }

    /// Records that a deposit was seen, without the wallets that funded it.
    pub fn record_glc_deposit_observed(
        &mut self,
        request_id: i64,
        at: Sighting,
        destination_retry_after: Option<i64>,
        untraced_burst: Option<RapidBurstMatch>,
        now: i64,
    ) -> (r: Result<GlcObservationOutcome, LedgerError>)
        ensures
            ({
                let checks = deposit_checks(
                    Seq::empty(),
                    destination_retry_after,
                    untraced_burst,
                );
                &&& r == old(self)@.observation(request_id, at, checks)
                &&& final(self)@ == old(self)@.after_observation(request_id, at, checks, now)
            }),
    {
        let none: Vec<TracedWallet> = Vec::new();
        proof {
            assert(values(none@) =~= Seq::<TracedView>::empty());
        }
        self.record_glc_deposit_observed_from(
            request_id,
            at,
            &none,
            destination_retry_after,
            untraced_burst,
            now,
        )
    }

    /// Records that a deposit was seen. A deposit for an expired request is
    /// promised its payout again where the reserve allows; a deposit of
    /// another amount, of a burst, or of a wallet that has to wait is parked.
    pub fn record_glc_deposit_observed_from(
        &mut self,
        request_id: i64,
        at: Sighting,
        source_wallets: &Vec<TracedWallet>,
        destination_retry_after: Option<i64>,
        untraced_burst: Option<RapidBurstMatch>,
        now: i64,
    ) -> (r: Result<GlcObservationOutcome, LedgerError>)
        ensures
            ({
                let checks = deposit_checks(
                    values(source_wallets@),
                    destination_retry_after,
                    untraced_burst,
                );
                &&& r == old(self)@.observation(request_id, at, checks)
                &&& final(self)@ == old(self)@.after_observation(request_id, at, checks, now)
            }),
    {
        let ghost checks = deposit_checks(
            values(source_wallets@),
            destination_retry_after,
            untraced_burst,
        );
        let i = match self.find_request(request_id) {
            Some(i) => i,
            None => {
                return Ok(GlcObservationOutcome::NoMatchingRequest);
            },
        };
        let state = self.requests[i].state;
        let direction = self.requests[i].direction;
        let reserve = direction.destination_reserve();
        let net: i64 = self.requests[i].net_destination_atomic;
        let gross: i64 = self.requests[i].gross_amount_atomic;
        if matches!(state, RequestState::DepositObserved | RequestState::Confirming) && is32(
            &self.requests[i].source_txid,
            &at.txid,
        ) && self.requests[i].source_vout == Some(at.vout) {
            return Ok(GlcObservationOutcome::AlreadyRecorded);
        }
        if !direction.source_is_goldcoin() {
            return Ok(GlcObservationOutcome::NoMatchingRequest);
        }
        let (primary, eligibility, burst) = fold_checks(
            source_wallets,
            destination_retry_after,
            untraced_burst,
        );
        let late = matches!(state, RequestState::Expired);
        if late {
            let row = match self.reserves.get(reserve) {
                Some(row) => row,
                None => {
                    return Err(LedgerError::NoSuchRow);
                },
            };
            let available: i64 = match row.headroom_checked() {
                Some(h) => h,
                None => {
                    return Err(LedgerError::AmountOutOfRange);
                },
            };
            if net > available {
                self.park_late(request_id, i, at, now);
                return Ok(GlcObservationOutcome::LateDepositNoCapacity);
            }
            if !self.reserved_would_fit(reserve, net) {
                return Err(LedgerError::AmountOutOfRange);
            }
        } else if !matches!(state, RequestState::AwaitingDeposit) {
            return Ok(GlcObservationOutcome::NoMatchingRequest);
        }
        let parked = at.observed_amount != gross as u64 || burst.is_some()
            || eligibility.blocker().is_some();
        if parked && at.observed_amount > i64::MAX as u64 {
            return Err(LedgerError::AmountOutOfRange);
        }
        if late {
            self.recreate(request_id, i, now);
        }
        if at.observed_amount != gross as u64 {
            self.park_mismatch(request_id, i, at, now);
            return Ok(
                GlcObservationOutcome::AmountMismatch {
                    expected: gross as u64,
                    observed: at.observed_amount,
                },
            );
        }
        match burst {
            Some(m) => {
                self.park_deposit(request_id, i, at, primary, "rapid_burst_hold", now);
                self.mark_rapid_burst_hold(request_id, i, m, now);
                return Ok(
                    GlcObservationOutcome::RapidBurstHeld {
                        rule: m.rule,
                        review_after: m.review_after,
                    },
                );
            },
            None => {},
        }
        match eligibility.blocker() {
            Some((role, retry_after)) => {
                let reason = role.limit_reason();
                self.park_deposit(request_id, i, at, primary, reason, now);
                return Ok(GlcObservationOutcome::WalletLimited { reason, retry_after });
            },
            None => {},
        }
        self.confirm_deposit(request_id, i, at, primary, now);
        if late {
            Ok(GlcObservationOutcome::LateDepositRecreated)
        } else {
            Ok(GlcObservationOutcome::Recorded)
        }
    }

    fn recreate(&mut self, id: i64, i: usize, now: i64)
        requires
            old(self).at_row(id, i),
            ({
                let q = old(self)@.request(id).unwrap();
                old(self)@.reserved_fits(
                    q.direction.spec_destination_reserve(),
                    q.net_destination_atomic as int,
                )
            }),
        ensures
            final(self)@ == old(self)@.recreated(id, now),
            final(self).at_row(id, i),
            final(self)@.request(id).unwrap().gross_amount_atomic == old(self)@.request(
                id,
            ).unwrap().gross_amount_atomic,
    {
        let ghost l0 = self@;
        let ghost q = l0.requests[i as int];
        let ghost row = RequestView {
            state: RequestState::AwaitingDeposit,
            reserved_at: Some(now),
            reservation_expires_at: None,
            ..q
        };
        let reserve = self.requests[i].direction.destination_reserve();
        let net: i64 = self.requests[i].net_destination_atomic;
        self.requests[i].state = RequestState::AwaitingDeposit;
        self.requests[i].reserved_at = Some(now);
        self.requests[i].reservation_expires_at = None;
        proof {
            assert(self@.requests =~= l0.requests.update(i as int, row));
            lemma_with_request(l0, id, row);
        }
        self.log_transition(
            id,
            Some(RequestState::Expired),
            RequestState::LiquidityReserved,
            now,
            Some("late_deposit_recreated"),
            "system",
        );
        self.log_transition(
            id,
            Some(RequestState::LiquidityReserved),
            RequestState::AwaitingDeposit,
            now,
            None,
            "system",
        );
        self.add_reserved(reserve, net);
    }

    fn park_late(&mut self, id: i64, i: usize, at: Sighting, now: i64)
        requires
            old(self).at_row(id, i),
        ensures
            final(self)@ == old(self)@.parked_late(id, at, now),
    {
        let ghost l0 = self@;
        let ghost q = l0.requests[i as int];
        self.requests[i].state = RequestState::ManualReview;
        self.requests[i].manual_review_note = Some("late_deposit_no_capacity".to_owned());
        proof {
            assert(self@.requests[i as int] == self.requests@[i as int]@);
        }
        self.sight(i, at);
        proof {
            assert(self@.requests =~= l0.requests.update(
                i as int,
                RequestView {
                    state: RequestState::ManualReview,
                    manual_review_note: Some("late_deposit_no_capacity"@),
                    ..sighted(q, at)
                },
            ));
        }
        self.log_transition(
            id,
            Some(RequestState::Expired),
            RequestState::ManualReview,
            now,
            Some("late_deposit_no_capacity"),
            "system",
        );
    }

    fn park_mismatch(&mut self, id: i64, i: usize, at: Sighting, now: i64)
        requires
            old(self).at_row(id, i),
        ensures
            final(self)@ == old(self)@.parked_mismatch(id, at, now),
    {
        let ghost l0 = self@;
        let ghost p = l0.requests[i as int];
        let gross: i64 = self.requests[i].gross_amount_atomic;
        let head = concat("deposit_amount_mismatch: expected ", decimal_i64(gross).as_str());
        let middle = concat(head.as_str(), " observed ");
        let note = concat(middle.as_str(), decimal_u64(at.observed_amount).as_str());
        self.requests[i].state = RequestState::ManualReview;
        self.requests[i].manual_review_note = Some(note);
        self.requests[i].observed_amount_atomic = Some(at.observed_amount as i64);
        proof {
            assert(self@.requests[i as int] == self.requests@[i as int]@);
        }
        self.sight(i, at);
        proof {
            assert(self@.requests =~= l0.requests.update(
                i as int,
                RequestView {
                    state: RequestState::ManualReview,
                    manual_review_note: Some(
                        mismatch_note(p.gross_amount_atomic, at.observed_amount),
                    ),
                    observed_amount_atomic: Some(at.observed_amount as i64),
                    ..sighted(p, at)
                },
            ));
        }
        self.log_transition(
            id,
            Some(RequestState::AwaitingDeposit),
            RequestState::ManualReview,
            now,
            Some("deposit_amount_mismatch"),
            "system",
        );
    }

    fn park_deposit(
        &mut self,
        id: i64,
        i: usize,
        at: Sighting,
        wallet: Option<Vec<u8>>,
        note: &str,
        now: i64,
    )
        requires
            old(self).at_row(id, i),
        ensures
            final(self)@ == old(self)@.parked_deposit(id, at, bytes_of(wallet), note@, now),
            final(self).at_row(id, i),
    {
        let ghost l0 = self@;
        let ghost p = l0.requests[i as int];
        let ghost row = RequestView {
            state: RequestState::ManualReview,
            manual_review_note: Some(note@),
            observed_amount_atomic: Some(at.observed_amount as i64),
            source_wallet: or_recorded(bytes_of(wallet), p.source_wallet),
            ..sighted(p, at)
        };
        self.requests[i].state = RequestState::ManualReview;
        self.requests[i].manual_review_note = Some(note.to_owned());
        self.requests[i].observed_amount_atomic = Some(at.observed_amount as i64);
        if wallet.is_some() {
            self.requests[i].source_wallet = wallet;
        }
        proof {
            assert(self@.requests[i as int] == self.requests@[i as int]@);
        }
        self.sight(i, at);
        proof {
            assert(self@.requests =~= l0.requests.update(i as int, row));
            lemma_with_request(l0, id, row);
        }
        self.log_transition(
            id,
            Some(RequestState::AwaitingDeposit),
            RequestState::ManualReview,
            now,
            Some(note),
            "system",
        );
    }

    fn confirm_deposit(
        &mut self,
        id: i64,
        i: usize,
        at: Sighting,
        wallet: Option<Vec<u8>>,
        now: i64,
    )
        requires
            old(self).at_row(id, i),
        ensures
            final(self)@ == old(self)@.confirming_deposit(id, at, bytes_of(wallet), now),
    {
        let ghost l0 = self@;
        let ghost p = l0.requests[i as int];
        let ghost row = RequestView {
            state: RequestState::Confirming,
            source_confirmations: 1,
            source_wallet: or_recorded(bytes_of(wallet), p.source_wallet),
            ..sighted(p, at)
        };
        self.requests[i].state = RequestState::Confirming;
        self.requests[i].source_confirmations = 1;
        if wallet.is_some() {
            self.requests[i].source_wallet = wallet;
        }
        proof {
            assert(self@.requests[i as int] == self.requests@[i as int]@);
        }
        self.sight(i, at);
        proof {
            assert(self@.requests =~= l0.requests.update(i as int, row));
        }
        self.log_transition(
            id,
            Some(RequestState::AwaitingDeposit),
            RequestState::DepositObserved,
            now,
            None,
            "system",
        );
        self.log_transition(
            id,
            Some(RequestState::DepositObserved),
            RequestState::Confirming,
            now,
            None,
            "system",
        );
    }

    fn sight(&mut self, i: usize, at: Sighting)
        requires
            i < old(self).requests@.len(),
        ensures
            final(self)@ == (LedgerView {
                requests: old(self)@.requests.update(
                    i as int,
                    sighted(old(self)@.requests[i as int], at),
                ),
                ..old(self)@
            }),
            final(self).requests@.len() == old(self).requests@.len(),
            final(self).requests@[i as int].id == old(self).requests@[i as int].id,
    {
        let ghost l0 = self@;
        self.requests[i].source_txid = Some(at.txid);
        self.requests[i].source_vout = Some(at.vout);
        self.requests[i].source_block_height = Some(at.block_height);
        self.requests[i].source_block_hash = Some(at.block_hash);
        proof {
            assert(self@.requests =~= l0.requests.update(
                i as int,
                sighted(l0.requests[i as int], at),
            ));
        }
    }
}

} // verus!
