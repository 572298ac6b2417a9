//! Goldcoin payouts: how they are built, signed and read.
use vstd::prelude::*;
use crate::error::LedgerError;
use crate::ledger::{Ledger, LedgerView, step};
use crate::resume::{payout_for, sol_refund_for};
use crate::solana_refund::VerifiedRefundInputs;
use crate::rows::{
    CoinView, GoldcoinPayoutSnapshot, PayoutChangeRow, PayoutChangeView, PayoutInputRow,
    PayoutInputView, PayoutRow, PayoutSnapshotView, PayoutView, RequestView, VaultUtxo,
    dup_text,
};
use crate::table::{
    any_row, any_where, collect_where, eq32, find_where, first_row, lemma_first_row,
    lemma_first_row_is_first, select_rows, sort_rows, sorted_by, values,
};
use crate::types::{PayoutState, RequestState, VaultUtxoState};

verus! {

/// How a payout is to be made.
#[derive(Debug)]
pub struct PayoutPlan {
    /// The outputs that it spends.
    pub inputs: Vec<VaultUtxo>,
    /// What the recipient gets.
    pub payout_atomic: u64,
    /// What comes back to the vault, output by output.
    pub change_outputs: Vec<u64>,
    /// What the miner gets.
    pub fee_atomic: u64,
    /// Whom it pays.
    pub dest_p2pkh_hash: [u8; 20],
}

/// The sum of the first `k` amounts.
pub open spec fn sum_to(amounts: Seq<u64>, k: int) -> int
    decreases k,
{
    if k <= 0 {
        0
    } else {
        sum_to(amounts, k - 1) + amounts[k - 1]
    }
}

proof fn lemma_sum_grows(amounts: Seq<u64>, i: int, j: int)
    requires
        i <= j,
    ensures
        sum_to(amounts, i) <= sum_to(amounts, j),
    decreases j - i,
{
    if i < j {
        lemma_sum_grows(amounts, i, j - 1);
    }
}

impl PayoutPlan {
    /// What comes back to the vault.
    pub open spec fn change(&self) -> int {
        sum_to(self.change_outputs@, self.change_outputs@.len() as int)
    }

    /// What comes back to the vault.
    pub fn total_change_atomic(&self) -> (r: u64)
        requires
            self.change() <= u64::MAX,
        ensures
            r == self.change(),
    {
        let mut total: u64 = 0;
        let mut k: usize = 0;
        while k < self.change_outputs.len()
            invariant
                k <= self.change_outputs@.len(),
                total == sum_to(self.change_outputs@, k as int),
                self.change() <= u64::MAX,
            decreases self.change_outputs@.len() - k,
        {
            proof {
                lemma_sum_grows(self.change_outputs@, k + 1, self.change_outputs@.len() as int);
            }
            total = total + self.change_outputs[k];
            k = k + 1;
        }
        total
    }
}

/// A payout with everything needed to build and sign its transaction again.
#[derive(Debug, PartialEq, Eq)]
pub struct GoldcoinPayoutFull {
    pub commitment_hash: [u8; 32],
    pub payout_atomic: u64,
    pub change_atomic: u64,
    pub change_outputs: Vec<u64>,
    pub fee_atomic: u64,
    pub dest_p2pkh_hash: [u8; 20],
    pub unsigned_tx_hex: Option<String>,
    pub signed_tx_hex: Option<String>,
    pub state: PayoutState,
}

/// The value of a [`GoldcoinPayoutFull`].
#[verifier::ext_equal]
pub struct PayoutFullView {
    pub commitment_hash: [u8; 32],
    pub payout_atomic: u64,
    pub change_atomic: u64,
    pub change_outputs: Seq<u64>,
    pub fee_atomic: u64,
    pub dest_p2pkh_hash: [u8; 20],
    pub unsigned_tx_hex: Option<Seq<char>>,
    pub signed_tx_hex: Option<Seq<char>>,
    pub state: PayoutState,
}

impl View for GoldcoinPayoutFull {
    type V = PayoutFullView;

    open spec fn view(&self) -> PayoutFullView {
        PayoutFullView {
            commitment_hash: self.commitment_hash,
            payout_atomic: self.payout_atomic,
            change_atomic: self.change_atomic,
            change_outputs: self.change_outputs@,
            fee_atomic: self.fee_atomic,
            dest_p2pkh_hash: self.dest_p2pkh_hash,
            unsigned_tx_hex: crate::table::text_of(self.unsigned_tx_hex),
            signed_tx_hex: crate::table::text_of(self.signed_tx_hex),
            state: self.state,
        }
    }
}

/// An input of some payout at this outpoint.
pub open spec fn paid_from(txid: [u8; 32], vout: u32) -> spec_fn(PayoutInputView) -> bool {
    |x: PayoutInputView| x.txid == txid && x.vout == vout
}

/// An input of this request's payout.
pub open spec fn input_of(id: i64) -> spec_fn(PayoutInputView) -> bool {
    |x: PayoutInputView| x.request_id == id
}

/// A change output of this request's payout.
pub open spec fn change_for(id: i64) -> spec_fn(PayoutChangeView) -> bool {
    |x: PayoutChangeView| x.request_id == id
}

/// The order of a payout's inputs.
pub open spec fn payout_input_order() -> spec_fn(PayoutInputView, PayoutInputView) -> bool {
    |a: PayoutInputView, b: PayoutInputView| a.input_order <= b.input_order
}

/// The order of a payout's change outputs.
pub open spec fn change_order() -> spec_fn(PayoutChangeView, PayoutChangeView) -> bool {
    |a: PayoutChangeView, b: PayoutChangeView| a.output_order <= b.output_order
}

/// The rows that payout inputs are recorded as.
pub open spec fn input_rows(id: i64, inputs: Seq<CoinView>) -> Seq<PayoutInputView> {
    Seq::new(
        inputs.len(),
        |i: int|
            PayoutInputView {
                request_id: id,
                input_order: i as i64,
                txid: inputs[i].txid,
                vout: inputs[i].vout,
                amount_atomic: inputs[i].amount_atomic as i64,
            },
    )
}

/// The rows that change outputs are recorded as.
pub open spec fn change_rows(id: i64, amounts: Seq<u64>) -> Seq<PayoutChangeView> {
    Seq::new(
        amounts.len(),
        |i: int|
            PayoutChangeView {
                request_id: id,
                output_order: i as i64,
                amount_atomic: amounts[i] as i64,
            },
    )
}

/// What is told of a payout.
pub open spec fn payout_snapshot(p: PayoutView) -> PayoutSnapshotView {
    PayoutSnapshotView {
        payout_atomic: p.payout_atomic as u64,
        txid: p.txid,
        state: p.state,
        confirmations: p.confirmations,
        mined_height: p.mined_height,
        onchain_completion_signature: p.onchain_completion_signature,
        onchain_completion_submitted_at: p.onchain_completion_submitted_at,
    }
}

/// One of the first `k` inputs is already an input of a payout, or stands among
/// them twice.
pub open spec fn inputs_clash(rows: Seq<PayoutInputView>, inputs: Seq<CoinView>, k: int) -> bool {
    exists|i: int|
        0 <= i < k && any_row(
            rows + input_rows(0, inputs).take(i),
            paid_from((#[trigger] inputs[i]).txid, inputs[i].vout),
        )
}

impl LedgerView {
    /// The payout of request `id`.
    pub open spec fn payout(self, id: i64) -> Option<PayoutView> {
        match first_row(self.payouts, payout_for(id)) {
            Some(i) => Some(self.payouts[i]),
            None => None,
        }
    }

    /// The ledger with `row` in the place of the payout of `id`.
    pub open spec fn with_payout(self, id: i64, row: PayoutView) -> LedgerView {
        match first_row(self.payouts, payout_for(id)) {
            Some(i) => LedgerView { payouts: self.payouts.update(i, row), ..self },
            None => self,
        }
    }

    /// Whether a payout from these inputs can be recorded.
    pub open spec fn build_payout_result(self, id: i64, inputs: Seq<CoinView>) -> Result<
        (),
        LedgerError,
    > {
        if any_row(self.payouts, payout_for(id)) {
            Err(LedgerError::PayoutAlreadyExists(id))
        } else {
            match first_row(self.solana_refunds, sol_refund_for(id)) {
                Some(i) => Err(
                    LedgerError::RefundLifecycleExists {
                        id,
                        refund_state: self.solana_refunds[i].state.spec_str(),
                    },
                ),
                None => if inputs_clash(self.payout_inputs, inputs, inputs.len() as int) {
                    Err(LedgerError::NotUnique)
                } else {
                    Ok(())
                },
            }
        }
    }

    /// The ledger after a payout was recorded.
    pub open spec fn payout_built(
        self,
        id: i64,
        inputs: Seq<CoinView>,
        payout_atomic: u64,
        change_outputs: Seq<u64>,
        fee_atomic: u64,
        dest: [u8; 20],
        commitment_hash: [u8; 32],
        unsigned_tx: Seq<char>,
        now: i64,
    ) -> LedgerView {
        LedgerView {
            payouts: self.payouts.push(
                PayoutView {
                    request_id: id,
                    commitment_hash,
                    payout_atomic: payout_atomic as i64,
                    change_atomic: sum_to(change_outputs, change_outputs.len() as int) as i64,
                    fee_atomic: fee_atomic as i64,
                    dest_p2pkh_hash: dest,
                    unsigned_tx_hex: Some(unsigned_tx),
                    signed_tx_hex: None,
                    txid: None,
                    state: PayoutState::Built,
                    confirmations: 0,
                    mined_height: None,
                    built_at: now,
                    signed_at: None,
                    broadcast_at: None,
                    completed_at: None,
                    onchain_completion_signature: None,
                    onchain_completion_submitted_at: None,
                    onchain_completed_at: None,
                },
            ),
            payout_inputs: self.payout_inputs + input_rows(id, inputs),
            payout_changes: self.payout_changes + change_rows(id, change_outputs),
            ..self
        }
    }

    /// Whether the signature of a payout can be recorded.
    pub open spec fn sign_payout_result(self, id: i64) -> Result<(), LedgerError> {
        match self.payout(id) {
            Some(p) => if p.state != PayoutState::Built {
                Err(LedgerError::PayoutNotFound(id))
            } else if self.request(id) is None {
                Err(LedgerError::NoSuchRow)
            } else {
                Ok(())
            },
            None => Err(LedgerError::PayoutNotFound(id)),
        }
    }

    /// The ledger after the signature of a payout was recorded.
    pub open spec fn payout_signed(self, id: i64, signed_tx: Seq<char>, now: i64) -> LedgerView {
        let q = self.request(id).unwrap();
        self.with_payout(
            id,
            PayoutView {
                signed_tx_hex: Some(signed_tx),
                state: PayoutState::Signed,
                signed_at: Some(now),
                ..self.payout(id).unwrap()
            },
        ).with_request(id, RequestView { state: RequestState::SettlementAuthorized, ..q }).with_log(
            step(id, Some(q.state), RequestState::SettlementAuthorized, now),
        )
    }

    /// These are the change outputs of a payout, in order.
    pub open spec fn changes_in_order(self, id: i64, rows: Seq<PayoutChangeView>) -> bool {
        &&& sorted_by(rows, change_order())
        &&& rows.to_multiset() == select_rows(self.payout_changes, change_for(id)).to_multiset()
    }

    /// These are the inputs of a payout, in order.
    pub open spec fn inputs_in_order(self, id: i64, rows: Seq<PayoutInputView>) -> bool {
        &&& sorted_by(rows, payout_input_order())
        &&& rows.to_multiset() == select_rows(self.payout_inputs, input_of(id)).to_multiset()
    }

    /// The output that an input names.
    pub open spec fn input_coin(self, x: PayoutInputView) -> CoinView {
        CoinView {
            txid: x.txid,
            vout: x.vout,
            amount_atomic: x.amount_atomic as u64,
            script_pubkey_hex: self.utxo(x.txid, x.vout).unwrap().script_pubkey_hex,
        }
    }

    /// Whether an input is an output that is no longer reserved for `id`, or
    /// that the vault does not know.
    pub open spec fn drifted(self, id: i64, x: PayoutInputView) -> bool {
        match self.utxo(x.txid, x.vout) {
            Some(v) => v.state != VaultUtxoState::Reserved || v.reserved_by != Some(id),
            None => true,
        }
    }

    /// The outputs that a payout spends, with its inputs in this order: each
    /// must still be reserved for it.
    pub open spec fn payout_inputs_result(self, id: i64, rows: Seq<PayoutInputView>) -> Result<
        Seq<CoinView>,
        LedgerError,
    > {
        match first_row(rows, |x: PayoutInputView| self.drifted(id, x)) {
            Some(k) => Err(
                LedgerError::VaultUtxoReservationDrifted {
                    request_id: id,
                    txid: rows[k].txid,
                    vout: rows[k].vout,
                },
            ),
            None => if rows.len() == 0 {
                Err(LedgerError::PayoutNotFound(id))
            } else {
                Ok(rows.map_values(|x: PayoutInputView| self.input_coin(x)))
            },
        }
    }
}

/// The amounts of change outputs, or the total where none is recorded one by
/// one.
pub open spec fn change_amounts(rows: Seq<PayoutChangeView>, total: i64) -> Seq<i64> {
    if rows.len() > 0 {
        rows.map_values(|x: PayoutChangeView| x.amount_atomic)
    } else if total > 0 {
        seq![total]
    } else {
        Seq::empty()
    }
}

impl Ledger {
    /// Where the payout of `id` stands in its table.
    pub(crate) fn find_payout(&self, id: i64) -> (r: Option<usize>)
        ensures
            match r {
                Some(i) => {
                    &&& i < self.payouts@.len()
                    &&& first_row(self@.payouts, payout_for(id)) == Some(i as int)
                    &&& self@.payout(id) == Some(self.payouts@[i as int]@)
                    &&& self@.payouts[i as int] == self.payouts@[i as int]@
                    &&& any_row(self@.payouts, payout_for(id))
                },
                None => self@.payout(id) is None && first_row(self@.payouts, payout_for(id)) is None
                    && !any_row(self@.payouts, payout_for(id)),
            },
    {
        find_where(
            &self.payouts,
            |x: &PayoutRow| -> (b: bool) ensures b == payout_for(id)(x@) { x.request_id == id },
            Ghost(payout_for(id)),
        )
    }

    /// What is known of the payout of a request.
    pub fn get_goldcoin_payout(&self, request_id: i64) -> (r: Option<GoldcoinPayoutSnapshot>)
        ensures
            match (r, self@.payout(request_id)) {
                (Some(x), Some(p)) => x@ == payout_snapshot(p),
                (None, None) => true,
                _ => false,
            },
    {
        match self.find_payout(request_id) {
            Some(i) => {
                let p = &self.payouts[i];
                Some(
                    GoldcoinPayoutSnapshot {
                        payout_atomic: p.payout_atomic as u64,
                        txid: p.txid,
                        state: p.state,
                        confirmations: p.confirmations,
                        mined_height: p.mined_height,
                        onchain_completion_signature: p.onchain_completion_signature,
                        onchain_completion_submitted_at: p.onchain_completion_submitted_at,
                    },
                )
            },
            None => None,
        }
    }

    fn inputs_known(&self, inputs: &Vec<VaultUtxo>) -> (r: bool)
        ensures
            r == inputs_clash(self@.payout_inputs, values(inputs@), inputs@.len() as int),
    {
        let ghost rows = self@.payout_inputs;
        let ghost iv = values(inputs@);
        let mut i: usize = 0;
        while i < inputs.len()
            invariant
                i <= inputs@.len(),
                rows == self@.payout_inputs,
                iv == values(inputs@),
                !inputs_clash(rows, iv, i as int),
            decreases inputs@.len() - i,
        {
            let c = &inputs[i];
            assert(iv[i as int] == c@);
            let ghost p = paid_from(iv[i as int].txid, iv[i as int].vout);
            let ghost earlier = input_rows(0, iv).take(i as int);
            let taken = any_where(
                &self.payout_inputs,
                |x: &PayoutInputRow| -> (b: bool) ensures b == paid_from(c.txid, c.vout)(x@) {
                    eq32(&x.txid, &c.txid) && x.vout == c.vout
                },
                Ghost(paid_from(c.txid, c.vout)),
            );
            let mut twice = false;
            let mut j: usize = 0;
            while j < i
                invariant
                    j <= i < inputs@.len(),
                    iv == values(inputs@),
                    c == inputs@[i as int],
                    p == paid_from(c.txid, c.vout),
                    earlier == input_rows(0, iv).take(i as int),
                    twice == exists|t: int| 0 <= t < j && p(#[trigger] earlier[t]),
                decreases i - j,
            {
                assert(iv[j as int] == inputs@[j as int]@);
                let same = eq32(&inputs[j].txid, &c.txid) && inputs[j].vout == c.vout;
                assert(same == p(earlier[j as int]));
                if same {
                    twice = true;
                }
                j = j + 1;
            }
            proof {
                let all = rows + earlier;
                if taken {
                    let t = choose|t: int| 0 <= t < rows.len() && p(#[trigger] rows[t]);
                    assert(p(all[t]));
                }
                if twice {
                    let t = choose|t: int| 0 <= t < i && p(#[trigger] earlier[t]);
                    assert(p(all[rows.len() + t]));
                }
                if any_row(all, p) {
                    let t = choose|t: int| 0 <= t < all.len() && p(#[trigger] all[t]);
                    if t < rows.len() {
                        assert(p(rows[t]));
                    } else {
                        assert(p(earlier[t - rows.len()]));
                    }
                }
                assert(any_row(all, p) == (taken || twice));
            }
            if taken || twice {
                proof {
                    assert(inputs_clash(rows, iv, iv.len() as int));
                }
                return true;
            }
            i = i + 1;
        }
        false
    }

    fn add_payout_inputs(&mut self, id: i64, inputs: &Vec<VaultUtxo>)
        ensures
            final(self)@ == (LedgerView {
                payout_inputs: old(self)@.payout_inputs + input_rows(id, values(inputs@)),
                ..old(self)@
            }),
    {
        let ghost l0 = self@;
        let ghost want = input_rows(id, values(inputs@));
        assert(self@.payout_inputs =~= l0.payout_inputs + want.take(0));
        let mut i: usize = 0;
        while i < inputs.len()
            invariant
                i <= inputs@.len(),
                want == input_rows(id, values(inputs@)),
                self@ == (LedgerView {
                    payout_inputs: l0.payout_inputs + want.take(i as int),
                    ..l0
                }),
            decreases inputs@.len() - i,
        {
            let ghost before = self@.payout_inputs;
            assert(values(inputs@)[i as int] == inputs@[i as int]@);
            self.payout_inputs.push(
                PayoutInputRow {
                    request_id: id,
                    input_order: i as i64,
                    txid: inputs[i].txid,
                    vout: inputs[i].vout,
                    amount_atomic: inputs[i].amount_atomic as i64,
                },
            );
            proof {
                assert(self@.payout_inputs =~= before.push(want[i as int]));
                assert(self@.payout_inputs =~= l0.payout_inputs + want.take(i + 1));
            }
            i = i + 1;
        }
        assert(want.take(want.len() as int) =~= want);
    }

    fn add_payout_changes(&mut self, id: i64, amounts: &Vec<u64>)
        ensures
            final(self)@ == (LedgerView {
                payout_changes: old(self)@.payout_changes + change_rows(id, amounts@),
                ..old(self)@
            }),
    {
        let ghost l0 = self@;
        let ghost want = change_rows(id, amounts@);
        assert(self@.payout_changes =~= l0.payout_changes + want.take(0));
        let mut i: usize = 0;
        while i < amounts.len()
            invariant
                i <= amounts@.len(),
                want == change_rows(id, amounts@),
                self@ == (LedgerView {
                    payout_changes: l0.payout_changes + want.take(i as int),
                    ..l0
                }),
            decreases amounts@.len() - i,
        {
            let ghost before = self@.payout_changes;
            self.payout_changes.push(
                PayoutChangeRow {
                    request_id: id,
                    output_order: i as i64,
                    amount_atomic: amounts[i] as i64,
                },
            );
            proof {
                assert(self@.payout_changes =~= before.push(want[i as int]));
                assert(self@.payout_changes =~= l0.payout_changes + want.take(i + 1));
            }
            i = i + 1;
        }
        assert(want.take(want.len() as int) =~= want);
    }

    /// Records a payout that was built. A request has one payout, and an output
    /// of the vault is the input of one.
    pub fn record_goldcoin_payout_built(
        &mut self,
        request_id: i64,
        plan: &PayoutPlan,
        commitment_hash: [u8; 32],
        unsigned_tx_hex: &str,
        now: i64,
    ) -> (r: Result<(), LedgerError>)
        requires
            plan.change() <= u64::MAX,
        ensures
            r == old(self)@.build_payout_result(request_id, values(plan.inputs@)),
            final(self)@ == (if r is Ok {
                old(self)@.payout_built(
                    request_id,
                    values(plan.inputs@),
                    plan.payout_atomic,
                    plan.change_outputs@,
                    plan.fee_atomic,
                    plan.dest_p2pkh_hash,
                    commitment_hash,
                    unsigned_tx_hex@,
                    now,
                )
            } else {
                old(self)@
            }),
    {
        if self.find_payout(request_id).is_some() {
            return Err(LedgerError::PayoutAlreadyExists(request_id));
        }
        match self.find_solana_refund(request_id) {
            Some(i) => {
                let refund_state = self.solana_refunds[i].state.as_str();
                return Err(LedgerError::RefundLifecycleExists { id: request_id, refund_state });
            },
            None => {},
        }
        if self.inputs_known(&plan.inputs) {
            return Err(LedgerError::NotUnique);
        }
        let change: u64 = plan.total_change_atomic();
        let row = PayoutRow {
            request_id,
            commitment_hash,
            payout_atomic: plan.payout_atomic as i64,
            change_atomic: change as i64,
            fee_atomic: plan.fee_atomic as i64,
            dest_p2pkh_hash: plan.dest_p2pkh_hash,
            unsigned_tx_hex: Some(unsigned_tx_hex.to_owned()),
            signed_tx_hex: None,
            txid: None,
            state: PayoutState::Built,
            confirmations: 0,
            mined_height: None,
            built_at: now,
            signed_at: None,
            broadcast_at: None,
            completed_at: None,
            onchain_completion_signature: None,
            onchain_completion_submitted_at: None,
            onchain_completed_at: None,
        };
        let ghost l0 = self@;
        let ghost v = row@;
        self.payouts.push(row);
        proof {
            assert(self@.payouts =~= l0.payouts.push(v));
        }
        self.add_payout_inputs(request_id, &plan.inputs);
        self.add_payout_changes(request_id, &plan.change_outputs);
        Ok(())
    }

    /// Records the signed transaction of a payout, which authorizes the
    /// settlement of its request.
    pub fn record_goldcoin_payout_signed(
        &mut self,
        request_id: i64,
        signed_tx_hex: &str,
        now: i64,
    ) -> (r: Result<(), LedgerError>)
        requires
            old(self)@.sign_payout_result(request_id) is Ok ==> old(self)@.request(
                request_id,
            ).unwrap().state == RequestState::SourceFinalized,
        ensures
            r == old(self)@.sign_payout_result(request_id),
            final(self)@ == (if r is Ok {
                old(self)@.payout_signed(request_id, signed_tx_hex@, now)
            } else {
                old(self)@
            }),
    {
        let k = match self.find_payout(request_id) {
            Some(k) => k,
            None => {
                return Err(LedgerError::PayoutNotFound(request_id));
            },
        };
        if !matches!(self.payouts[k].state, PayoutState::Built) {
            return Err(LedgerError::PayoutNotFound(request_id));
        }
        let i = match self.find_request(request_id) {
            Some(i) => i,
            None => {
                return Err(LedgerError::NoSuchRow);
            },
        };
        let state = self.requests[i].state;
        let ghost l0 = self@;
        self.payouts[k].signed_tx_hex = Some(signed_tx_hex.to_owned());
        self.payouts[k].state = PayoutState::Signed;
        self.payouts[k].signed_at = Some(now);
        self.requests[i].state = RequestState::SettlementAuthorized;
        proof {
            assert(self@.payouts =~= l0.payouts.update(
                k as int,
                PayoutView {
                    signed_tx_hex: Some(signed_tx_hex@),
                    state: PayoutState::Signed,
                    signed_at: Some(now),
                    ..l0.payouts[k as int]
                },
            ));
            assert(self@.requests =~= l0.requests.update(
                i as int,
                RequestView { state: RequestState::SettlementAuthorized, ..l0.requests[i as int] },
            ));
        }
        self.log_transition(
            request_id,
            Some(state),
            RequestState::SettlementAuthorized,
            now,
            None,
            "system",
        );
        Ok(())
    }

    /// Records another signature of a payout that was signed and not
    /// broadcast.
    pub fn record_goldcoin_payout_resigned(
        &mut self,
        request_id: i64,
        signed_tx_hex: &str,
        now: i64,
    ) -> (r: Result<(), LedgerError>)
        ensures
            r == (match old(self)@.payout(request_id) {
                Some(p) => if p.state == PayoutState::Signed {
                    Ok(())
                } else {
                    Err(LedgerError::PayoutNotFound(request_id))
                },
                None => Err(LedgerError::PayoutNotFound(request_id)),
            }),
            final(self)@ == (if r is Ok {
                old(self)@.with_payout(
                    request_id,
                    PayoutView {
                        signed_tx_hex: Some(signed_tx_hex@),
                        signed_at: Some(now),
                        ..old(self)@.payout(request_id).unwrap()
                    },
                )
            } else {
                old(self)@
            }),
    {
        match self.find_payout(request_id) {
            Some(k) => {
                if !matches!(self.payouts[k].state, PayoutState::Signed) {
                    return Err(LedgerError::PayoutNotFound(request_id));
                }
                let ghost l0 = self@;
                self.payouts[k].signed_tx_hex = Some(signed_tx_hex.to_owned());
                self.payouts[k].signed_at = Some(now);
                proof {
                    assert(self@.payouts =~= l0.payouts.update(
                        k as int,
                        PayoutView {
                            signed_tx_hex: Some(signed_tx_hex@),
                            signed_at: Some(now),
                            ..l0.payouts[k as int]
                        },
                    ));
                }
                Ok(())
            },
            None => Err(LedgerError::PayoutNotFound(request_id)),
        }
    }

    /// The change outputs of a payout, in order.
    fn ordered_changes(&self, id: i64) -> (r: Vec<PayoutChangeRow>)
        ensures
            self@.changes_in_order(id, values(r@)),
    {
        let rows = collect_where(
            &self.payout_changes,
            |x: &PayoutChangeRow| -> (b: bool) ensures b == change_for(id)(x@) {
                x.request_id == id
            },
            |x: &PayoutChangeRow| -> (d: PayoutChangeRow) ensures d@ == x@ { x.clone() },
            Ghost(change_for(id)),
            Ghost(|x: PayoutChangeView| x),
        );
        proof {
            let sel = select_rows(self@.payout_changes, change_for(id));
            assert(sel.map_values(|x: PayoutChangeView| x) =~= sel);
        }
        sort_rows(
            rows,
            |a: &PayoutChangeRow, b: &PayoutChangeRow| -> (r: bool)
                ensures r == change_order()(a@, b@) { a.output_order <= b.output_order },
            Ghost(change_order()),
        )
    }

    /// What comes back to the vault from a payout, output by output, in order;
    /// the total where it is not recorded one by one.
    pub(crate) fn goldcoin_payout_change_outputs(&self, id: i64, total: i64) -> (r: Vec<i64>)
        ensures
            exists|rows: Seq<PayoutChangeView>| #[trigger]
                self@.changes_in_order(id, rows) && r@ == change_amounts(rows, total),
    {
        let rows = self.ordered_changes(id);
        let ghost rv = values(rows@);
        let ghost want = rv.map_values(|x: PayoutChangeView| x.amount_atomic);
        let mut out: Vec<i64> = Vec::new();
        if rows.len() == 0 {
            if total > 0 {
                out.push(total);
            }
            proof {
                assert(out@ =~= change_amounts(rv, total));
            }
            return out;
        }
        let mut i: usize = 0;
        while i < rows.len()
            invariant
                i <= rows@.len(),
                rv == values(rows@),
                want == rv.map_values(|x: PayoutChangeView| x.amount_atomic),
                out@ == want.take(i as int),
            decreases rows@.len() - i,
        {
            assert(rv[i as int] == rows@[i as int]@);
            out.push(rows[i].amount_atomic);
            proof {
                assert(out@ =~= want.take(i + 1));
            }
            i = i + 1;
        }
        assert(want.take(want.len() as int) =~= want);
        assert(out@ == change_amounts(rv, total));
        out
    }

    /// A payout with everything needed to build and sign its transaction
    /// again.
    pub fn get_goldcoin_payout_full(&self, request_id: i64) -> (r: Option<GoldcoinPayoutFull>)
        ensures
            match (r, self@.payout(request_id)) {
                (Some(x), Some(p)) => exists|rows: Seq<PayoutChangeView>| #[trigger]
                    self@.changes_in_order(request_id, rows) && x@ == (PayoutFullView {
                        commitment_hash: p.commitment_hash,
                        payout_atomic: p.payout_atomic as u64,
                        change_atomic: p.change_atomic as u64,
                        change_outputs: change_amounts(rows, p.change_atomic).map_values(
                            |a: i64| a as u64,
                        ),
                        fee_atomic: p.fee_atomic as u64,
                        dest_p2pkh_hash: p.dest_p2pkh_hash,
                        unsigned_tx_hex: p.unsigned_tx_hex,
                        signed_tx_hex: p.signed_tx_hex,
                        state: p.state,
                    }),
                (None, None) => true,
                _ => false,
            },
    {
        let k = match self.find_payout(request_id) {
            Some(k) => k,
            None => {
                return None;
            },
        };
        let p = &self.payouts[k];
        let amounts = self.goldcoin_payout_change_outputs(request_id, p.change_atomic);
        let ghost rows = choose|rows: Seq<PayoutChangeView>| #[trigger]
            self@.changes_in_order(request_id, rows) && amounts@ == change_amounts(
                rows,
                p.change_atomic,
            );
        let ghost want = amounts@.map_values(|a: i64| a as u64);
        let mut change_outputs: Vec<u64> = Vec::new();
        let mut i: usize = 0;
        while i < amounts.len()
            invariant
                i <= amounts@.len(),
                want == amounts@.map_values(|a: i64| a as u64),
                change_outputs@ == want.take(i as int),
            decreases amounts@.len() - i,
        {
            change_outputs.push(amounts[i] as u64);
            proof {
                assert(change_outputs@ =~= want.take(i + 1));
            }
            i = i + 1;
        }
        assert(want.take(want.len() as int) =~= want);
        let full = GoldcoinPayoutFull {
            commitment_hash: p.commitment_hash,
            payout_atomic: p.payout_atomic as u64,
            change_atomic: p.change_atomic as u64,
            change_outputs,
            fee_atomic: p.fee_atomic as u64,
            dest_p2pkh_hash: p.dest_p2pkh_hash,
            unsigned_tx_hex: dup_text(&p.unsigned_tx_hex),
            signed_tx_hex: dup_text(&p.signed_tx_hex),
            state: p.state,
        };
        proof {
            assert(self@.changes_in_order(request_id, rows));
        }
        Some(full)
    }

    fn ordered_inputs(&self, id: i64) -> (r: Vec<PayoutInputRow>)
        ensures
            self@.inputs_in_order(id, values(r@)),
    {
        let rows = collect_where(
            &self.payout_inputs,
            |x: &PayoutInputRow| -> (b: bool) ensures b == input_of(id)(x@) { x.request_id == id },
            |x: &PayoutInputRow| -> (d: PayoutInputRow) ensures d@ == x@ { x.clone() },
            Ghost(input_of(id)),
            Ghost(|x: PayoutInputView| x),
        );
        proof {
            let sel = select_rows(self@.payout_inputs, input_of(id));
            assert(sel.map_values(|x: PayoutInputView| x) =~= sel);
        }
        sort_rows(
            rows,
            |a: &PayoutInputRow, b: &PayoutInputRow| -> (r: bool)
                ensures r == payout_input_order()(a@, b@) { a.input_order <= b.input_order },
            Ghost(payout_input_order()),
        )
    }

    /// The outputs that a payout spends, in the order of its transaction. Each
    /// must be in the vault, still reserved for it.
    pub fn get_goldcoin_payout_inputs(&self, request_id: i64) -> (r: Result<
        Vec<VaultUtxo>,
        LedgerError,
    >)
        ensures
            exists|rows: Seq<PayoutInputView>| #[trigger]
                self@.inputs_in_order(request_id, rows) && match (
                    r,
                    self@.payout_inputs_result(request_id, rows),
                ) {
                    (Ok(x), Ok(want)) => values(x@) == want,
                    (Err(e), Err(want)) => e == want,
                    _ => false,
                },
    {
        let rows = self.ordered_inputs(request_id);
        let ghost rv = values(rows@);
        let ghost p = |x: PayoutInputView| self@.drifted(request_id, x);
        let mut out: Vec<VaultUtxo> = Vec::new();
        let mut i: usize = 0;
        while i < rows.len()
            invariant
                i <= rows@.len(),
                rv == values(rows@),
                p == |x: PayoutInputView| self@.drifted(request_id, x),
                self@.inputs_in_order(request_id, rv),
                out@.len() == i,
                forall|j: int| 0 <= j < i ==> (#[trigger] out@[j])@ == self@.input_coin(rv[j]),
                forall|j: int| 0 <= j < i ==> !p(#[trigger] rv[j]),
            decreases rows@.len() - i,
        {
            let x = &rows[i];
            assert(rv[i as int] == x@);
            match self.find_utxo(&x.txid, x.vout) {
                Some(k) => {
                    let v = &self.vault_utxos[k];
                    if !matches!(v.state, VaultUtxoState::Reserved) || v.reserved_by != Some(
                        request_id,
                    ) {
                        proof {
                            assert(p(rv[i as int]));
                            lemma_first_row(rv, p, i as int);
                        }
                        return Err(
                            LedgerError::VaultUtxoReservationDrifted {
                                request_id,
                                txid: x.txid,
                                vout: x.vout,
                            },
                        );
                    }
                    let coin = VaultUtxo {
                        txid: x.txid,
                        vout: x.vout,
                        amount_atomic: x.amount_atomic as u64,
                        script_pubkey_hex: v.script_pubkey_hex.clone(),
                    };
                    assert(coin@ == self@.input_coin(rv[i as int]));
                    out.push(coin);
                },
                None => {
                    proof {
                        assert(p(rv[i as int]));
                        lemma_first_row(rv, p, i as int);
                    }
                    return Err(
                        LedgerError::VaultUtxoReservationDrifted {
                            request_id,
                            txid: x.txid,
                            vout: x.vout,
                        },
                    );
                },
            }
            assert(!p(rv[i as int]));
            i = i + 1;
        }
        proof {
            lemma_first_row_is_first(rv, p);
        }
        if rows.len() == 0 {
            return Err(LedgerError::PayoutNotFound(request_id));
        }
        assert(values(out@) =~= rv.map_values(|x: PayoutInputView| self@.input_coin(x)));
        Ok(out)
    }

    /// The requests whose payout is in this state, in order.
    pub fn goldcoin_payouts_in_state(&self, state: PayoutState) -> (r: Vec<i64>)
        ensures
            sorted_by(values(r@), |a: i64, b: i64| a <= b),
            values(r@).to_multiset() == select_rows(
                self@.payouts,
                |x: PayoutView| x.state == state,
            ).map_values(|x: PayoutView| x.request_id).to_multiset(),
    {
        let ghost p = |x: PayoutView| x.state == state;
        let ghost g = |x: PayoutView| x.request_id;
        let rows: Vec<i64> = collect_where(
            &self.payouts,
            |x: &PayoutRow| -> (b: bool) ensures b == p(x@) { x.state == state },
            |x: &PayoutRow| -> (n: i64) ensures n == g(x@) { x.request_id },
            Ghost(p),
            Ghost(g),
        );
        sort_rows(
            rows,
            |a: &i64, b: &i64| -> (r: bool) ensures r == (*a <= *b) { *a <= *b },
            Ghost(|a: i64, b: i64| a <= b),
        )
    }
}

/// A request is paid out once, and an output of the vault pays for one payout:
/// after a payout was recorded, no other is recorded for its request, nor any
/// from its inputs.
pub proof fn law_nothing_is_paid_twice(
    l: LedgerView,
    id: i64,
    inputs: Seq<CoinView>,
    payout_atomic: u64,
    change_outputs: Seq<u64>,
    fee_atomic: u64,
    dest: [u8; 20],
    commitment_hash: [u8; 32],
    unsigned_tx: Seq<char>,
    now: i64,
    other: i64,
    other_inputs: Seq<CoinView>,
    i: int,
    j: int,
)
    requires
        l.build_payout_result(id, inputs) is Ok,
        0 <= i < inputs.len(),
        0 <= j < other_inputs.len(),
        inputs[i].txid == other_inputs[j].txid,
        inputs[i].vout == other_inputs[j].vout,
    ensures
        ({
            let m = l.payout_built(
                id,
                inputs,
                payout_atomic,
                change_outputs,
                fee_atomic,
                dest,
                commitment_hash,
                unsigned_tx,
                now,
            );
            &&& m.build_payout_result(id, inputs) == Err::<(), LedgerError>(
                LedgerError::PayoutAlreadyExists(id),
            )
            &&& m.build_payout_result(other, other_inputs) is Err
        }),
{
    let m = l.payout_built(
        id,
        inputs,
        payout_atomic,
        change_outputs,
        fee_atomic,
        dest,
        commitment_hash,
        unsigned_tx,
        now,
    );
    assert(payout_for(id)(m.payouts[l.payouts.len() as int]));
    let p = paid_from(other_inputs[j].txid, other_inputs[j].vout);
    let all = m.payout_inputs + input_rows(0, other_inputs).take(j);
    let k = l.payout_inputs.len() + i;
    assert(m.payout_inputs[k] == input_rows(id, inputs)[i]);
    assert(all[k] == m.payout_inputs[k]);
    assert(p(all[k]));
    assert(inputs_clash(m.payout_inputs, other_inputs, other_inputs.len() as int));
}

/// A request that is being refunded is never paid out, and one that is being
/// paid out is never refunded.
pub proof fn law_payouts_and_refunds_exclude_each_other(
    l: LedgerView,
    id: i64,
    inputs: Seq<CoinView>,
    v: VerifiedRefundInputs,
)
    ensures
        l.sol_refund(id) is Some ==> l.build_payout_result(id, inputs) is Err,
        any_row(l.payouts, payout_for(id)) ==> l.begin_refund_result(id, v) is Err,
        any_row(l.payouts, payout_for(id)) ==> l.glc_checks(id).refusal is Some,
{
}

} // verus!
