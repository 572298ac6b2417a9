//! The rows of the ledger's tables that hold text or bytes, each with the
//! value it stands for: text as characters, bytes as a sequence.
use vstd::prelude::*;
use crate::table::text_of;
use crate::types::{
    Direction, RequestState, SourceChain, ManualReviewDisposition, OperatorDecision,
    VaultUtxoState, SplitState, PayoutState, GoldcoinRefundState, SolanaRefundState, Route,
    ReserveDirection, RobinhoodTxKind, RobinhoodTxState, RebalanceKind, RebalanceState,
    CustodyTransitionKind, CustodyTransitionState,
};

verus! {

/// The value behind an optional byte column.
pub open spec fn bytes_of(o: Option<Vec<u8>>) -> Option<Seq<u8>> {
    match o {
        Some(b) => Some(b@),
        None => None,
    }
}

/// A second copy of an optional text.
pub fn dup_text(o: &Option<String>) -> (r: Option<String>)
    ensures
        text_of(r) == text_of(*o),
{
    match o {
        Some(s) => Some(s.clone()),
        None => None,
    }
}

/// A second copy of a byte string.
pub fn dup_bytes(v: &Vec<u8>) -> (r: Vec<u8>)
    ensures
        r@ == v@,
{
    bytes_vec(v.as_slice())
}

/// A byte string with the contents of a slice.
pub fn bytes_vec(v: &[u8]) -> (r: Vec<u8>)
    ensures
        r@ == v@,
{
    let mut r: Vec<u8> = Vec::new();
    let mut i: usize = 0;
    while i < v.len()
        invariant
            i <= v.len(),
            r@ == v@.take(i as int),
        decreases v.len() - i,
    {
        r.push(v[i]);
        proof {
            assert(v@.take(i + 1) =~= v@.take(i as int).push(v@[i as int]));
        }
        i = i + 1;
    }
    proof {
        assert(v@.take(v@.len() as int) =~= v@);
    }
    r
}

/// A second copy of an optional byte string.
pub fn dup_opt_bytes(o: &Option<Vec<u8>>) -> (r: Option<Vec<u8>>)
    ensures
        bytes_of(r) == bytes_of(*o),
{
    match o {
        Some(v) => Some(dup_bytes(v)),
        None => None,
    }
}

/// An owned text for an optional one.
pub fn own_text(o: Option<&str>) -> (r: Option<String>)
    ensures
        text_of(r) == (match o {
            Some(s) => Some(s@),
            None => None,
        }),
{
    match o {
        Some(s) => Some(s.to_owned()),
        None => None,
    }
}

/// One bridge request. Amounts are held as the ledger stores them.
#[derive(Debug, PartialEq, Eq)]
pub struct BridgeRequest {
    pub id: i64,
    pub direction: Direction,
    pub state: RequestState,
    pub gross_amount_atomic: i64,
    pub fee_bps: i64,
    pub fee_amount_atomic: i64,
    pub net_amount_atomic: i64,
    pub net_destination_atomic: i64,
    pub recipient: Vec<u8>,
    pub requester: Option<[u8; 32]>,
    pub created_at: i64,
    pub reserved_at: Option<i64>,
    pub reservation_expires_at: Option<i64>,
    pub source_txid: Option<[u8; 32]>,
    pub source_vout: Option<u32>,
    pub source_obligation_index: Option<u64>,
    pub source_block_height: Option<i64>,
    pub source_block_hash: Option<[u8; 32]>,
    pub source_confirmations: i64,
    pub source_finalized_at: Option<i64>,
    pub failure_reason: Option<String>,
    pub manual_review_note: Option<String>,
    pub source_chain: SourceChain,
    pub source_contract: Option<Vec<u8>>,
    pub source_wallet: Option<Vec<u8>>,
    pub auto_resume_hold_note: Option<String>,
    pub auto_resume_hold_until: Option<i64>,
    pub manual_review_disposition: ManualReviewDisposition,
    pub hold_reason: Option<String>,
    pub held_by: Option<String>,
    pub hold_started_at: Option<i64>,
    pub review_after: Option<i64>,
    pub operator_decision: Option<OperatorDecision>,
    pub operator_decision_at: Option<i64>,
    pub operator_note: Option<String>,
    pub destination_txid: Option<Vec<u8>>,
    pub destination_confirmations: i64,
    pub settlement_claim_hash: Option<[u8; 32]>,
    pub settled_at: Option<i64>,
    pub observed_amount_atomic: Option<i64>,
    pub deposit_address: Option<String>,
    pub deposit_script_pubkey_hex: Option<String>,
    pub deposit_redeem_script_hex: Option<String>,
}

/// The value of a [`BridgeRequest`].
#[verifier::ext_equal]
pub struct RequestView {
    pub id: i64,
    pub direction: Direction,
    pub state: RequestState,
    pub gross_amount_atomic: i64,
    pub fee_bps: i64,
    pub fee_amount_atomic: i64,
    pub net_amount_atomic: i64,
    pub net_destination_atomic: i64,
    pub recipient: Seq<u8>,
    pub requester: Option<[u8; 32]>,
    pub created_at: i64,
    pub reserved_at: Option<i64>,
    pub reservation_expires_at: Option<i64>,
    pub source_txid: Option<[u8; 32]>,
    pub source_vout: Option<u32>,
    pub source_obligation_index: Option<u64>,
    pub source_block_height: Option<i64>,
    pub source_block_hash: Option<[u8; 32]>,
    pub source_confirmations: i64,
    pub source_finalized_at: Option<i64>,
    pub failure_reason: Option<Seq<char>>,
    pub manual_review_note: Option<Seq<char>>,
    pub source_chain: SourceChain,
    pub source_contract: Option<Seq<u8>>,
    pub source_wallet: Option<Seq<u8>>,
    pub auto_resume_hold_note: Option<Seq<char>>,
    pub auto_resume_hold_until: Option<i64>,
    pub manual_review_disposition: ManualReviewDisposition,
    pub hold_reason: Option<Seq<char>>,
    pub held_by: Option<Seq<char>>,
    pub hold_started_at: Option<i64>,
    pub review_after: Option<i64>,
    pub operator_decision: Option<OperatorDecision>,
    pub operator_decision_at: Option<i64>,
    pub operator_note: Option<Seq<char>>,
    pub destination_txid: Option<Seq<u8>>,
    pub destination_confirmations: i64,
    pub settlement_claim_hash: Option<[u8; 32]>,
    pub settled_at: Option<i64>,
    pub observed_amount_atomic: Option<i64>,
    pub deposit_address: Option<Seq<char>>,
    pub deposit_script_pubkey_hex: Option<Seq<char>>,
    pub deposit_redeem_script_hex: Option<Seq<char>>,
}

impl View for BridgeRequest {
    type V = RequestView;

    open spec fn view(&self) -> RequestView {
        RequestView {
            id: self.id,
            direction: self.direction,
            state: self.state,
            gross_amount_atomic: self.gross_amount_atomic,
            fee_bps: self.fee_bps,
            fee_amount_atomic: self.fee_amount_atomic,
            net_amount_atomic: self.net_amount_atomic,
            net_destination_atomic: self.net_destination_atomic,
            recipient: self.recipient@,
            requester: self.requester,
            created_at: self.created_at,
            reserved_at: self.reserved_at,
            reservation_expires_at: self.reservation_expires_at,
            source_txid: self.source_txid,
            source_vout: self.source_vout,
            source_obligation_index: self.source_obligation_index,
            source_block_height: self.source_block_height,
            source_block_hash: self.source_block_hash,
            source_confirmations: self.source_confirmations,
            source_finalized_at: self.source_finalized_at,
            failure_reason: text_of(self.failure_reason),
            manual_review_note: text_of(self.manual_review_note),
            source_chain: self.source_chain,
            source_contract: bytes_of(self.source_contract),
            source_wallet: bytes_of(self.source_wallet),
            auto_resume_hold_note: text_of(self.auto_resume_hold_note),
            auto_resume_hold_until: self.auto_resume_hold_until,
            manual_review_disposition: self.manual_review_disposition,
            hold_reason: text_of(self.hold_reason),
            held_by: text_of(self.held_by),
            hold_started_at: self.hold_started_at,
            review_after: self.review_after,
            operator_decision: self.operator_decision,
            operator_decision_at: self.operator_decision_at,
            operator_note: text_of(self.operator_note),
            destination_txid: bytes_of(self.destination_txid),
            destination_confirmations: self.destination_confirmations,
            settlement_claim_hash: self.settlement_claim_hash,
            settled_at: self.settled_at,
            observed_amount_atomic: self.observed_amount_atomic,
            deposit_address: text_of(self.deposit_address),
            deposit_script_pubkey_hex: text_of(self.deposit_script_pubkey_hex),
            deposit_redeem_script_hex: text_of(self.deposit_redeem_script_hex),
        }
    }
}

impl Clone for BridgeRequest {
    /// A second row with the same value.
    fn clone(&self) -> (r: Self)
        ensures
            r@ == self@,
    {
        BridgeRequest {
            id: self.id,
            direction: self.direction,
            state: self.state,
            gross_amount_atomic: self.gross_amount_atomic,
            fee_bps: self.fee_bps,
            fee_amount_atomic: self.fee_amount_atomic,
            net_amount_atomic: self.net_amount_atomic,
            net_destination_atomic: self.net_destination_atomic,
            recipient: dup_bytes(&self.recipient),
            requester: self.requester,
            created_at: self.created_at,
            reserved_at: self.reserved_at,
            reservation_expires_at: self.reservation_expires_at,
            source_txid: self.source_txid,
            source_vout: self.source_vout,
            source_obligation_index: self.source_obligation_index,
            source_block_height: self.source_block_height,
            source_block_hash: self.source_block_hash,
            source_confirmations: self.source_confirmations,
            source_finalized_at: self.source_finalized_at,
            failure_reason: dup_text(&self.failure_reason),
            manual_review_note: dup_text(&self.manual_review_note),
            source_chain: self.source_chain,
            source_contract: dup_opt_bytes(&self.source_contract),
            source_wallet: dup_opt_bytes(&self.source_wallet),
            auto_resume_hold_note: dup_text(&self.auto_resume_hold_note),
            auto_resume_hold_until: self.auto_resume_hold_until,
            manual_review_disposition: self.manual_review_disposition,
            hold_reason: dup_text(&self.hold_reason),
            held_by: dup_text(&self.held_by),
            hold_started_at: self.hold_started_at,
            review_after: self.review_after,
            operator_decision: self.operator_decision,
            operator_decision_at: self.operator_decision_at,
            operator_note: dup_text(&self.operator_note),
            destination_txid: dup_opt_bytes(&self.destination_txid),
            destination_confirmations: self.destination_confirmations,
            settlement_claim_hash: self.settlement_claim_hash,
            settled_at: self.settled_at,
            observed_amount_atomic: self.observed_amount_atomic,
            deposit_address: dup_text(&self.deposit_address),
            deposit_script_pubkey_hex: dup_text(&self.deposit_script_pubkey_hex),
            deposit_redeem_script_hex: dup_text(&self.deposit_redeem_script_hex),
        }
    }
}

/// One line of a request's transition log.
#[derive(Debug, PartialEq, Eq)]
pub struct StateLogRow {
    pub request_id: i64,
    pub from_state: Option<RequestState>,
    pub to_state: RequestState,
    pub at: i64,
    pub reason: Option<String>,
    pub actor: String,
}

/// The value of a [`StateLogRow`].
#[verifier::ext_equal]
pub struct LogEntry {
    pub request_id: i64,
    pub from_state: Option<RequestState>,
    pub to_state: RequestState,
    pub at: i64,
    pub reason: Option<Seq<char>>,
    pub actor: Seq<char>,
}

impl View for StateLogRow {
    type V = LogEntry;

    open spec fn view(&self) -> LogEntry {
        LogEntry {
            request_id: self.request_id,
            from_state: self.from_state,
            to_state: self.to_state,
            at: self.at,
            reason: text_of(self.reason),
            actor: self.actor@,
        }
    }
}

impl Clone for StateLogRow {
    /// A second row with the same value.
    fn clone(&self) -> (r: Self)
        ensures
            r@ == self@,
    {
        StateLogRow {
            request_id: self.request_id,
            from_state: self.from_state,
            to_state: self.to_state,
            at: self.at,
            reason: dup_text(&self.reason),
            actor: self.actor.clone(),
        }
    }
}

/// One operator text per reserve.
#[derive(Debug, PartialEq, Eq)]
pub struct ReserveReasons {
    pub goldcoin: Option<String>,
    pub solana: Option<String>,
    pub robinhood: Option<String>,
}

/// The value of a [`ReserveReasons`].
#[verifier::ext_equal]
pub struct ReserveReasonsView {
    pub goldcoin: Option<Seq<char>>,
    pub solana: Option<Seq<char>>,
    pub robinhood: Option<Seq<char>>,
}

impl View for ReserveReasons {
    type V = ReserveReasonsView;

    open spec fn view(&self) -> ReserveReasonsView {
        ReserveReasonsView {
            goldcoin: text_of(self.goldcoin),
            solana: text_of(self.solana),
            robinhood: text_of(self.robinhood),
        }
    }
}

impl Clone for ReserveReasons {
    /// A second row with the same value.
    fn clone(&self) -> (r: Self)
        ensures
            r@ == self@,
    {
        ReserveReasons {
            goldcoin: dup_text(&self.goldcoin),
            solana: dup_text(&self.solana),
            robinhood: dup_text(&self.robinhood),
        }
    }
}

/// One output that the Goldcoin vault holds or held.
#[derive(Debug, PartialEq, Eq)]
pub struct VaultUtxoEntry {
    pub txid: [u8; 32],
    pub vout: u32,
    pub amount_atomic: i64,
    pub script_pubkey_hex: String,
    pub confirmations: i64,
    pub first_seen_at: i64,
    pub state: VaultUtxoState,
    pub reserved_by: Option<i64>,
    pub reserved_at: Option<i64>,
    pub spent_by_txid: Option<[u8; 32]>,
    pub zero_conf_hold_reason: Option<String>,
}

/// The value of a [`VaultUtxoEntry`].
#[verifier::ext_equal]
pub struct VaultUtxoView {
    pub txid: [u8; 32],
    pub vout: u32,
    pub amount_atomic: i64,
    pub script_pubkey_hex: Seq<char>,
    pub confirmations: i64,
    pub first_seen_at: i64,
    pub state: VaultUtxoState,
    pub reserved_by: Option<i64>,
    pub reserved_at: Option<i64>,
    pub spent_by_txid: Option<[u8; 32]>,
    pub zero_conf_hold_reason: Option<Seq<char>>,
}

impl View for VaultUtxoEntry {
    type V = VaultUtxoView;

    open spec fn view(&self) -> VaultUtxoView {
        VaultUtxoView {
            txid: self.txid,
            vout: self.vout,
            amount_atomic: self.amount_atomic,
            script_pubkey_hex: self.script_pubkey_hex@,
            confirmations: self.confirmations,
            first_seen_at: self.first_seen_at,
            state: self.state,
            reserved_by: self.reserved_by,
            reserved_at: self.reserved_at,
            spent_by_txid: self.spent_by_txid,
            zero_conf_hold_reason: text_of(self.zero_conf_hold_reason),
        }
    }
}

impl Clone for VaultUtxoEntry {
    /// A second row with the same value.
    fn clone(&self) -> (r: Self)
        ensures
            r@ == self@,
    {
        VaultUtxoEntry {
            txid: self.txid,
            vout: self.vout,
            amount_atomic: self.amount_atomic,
            script_pubkey_hex: self.script_pubkey_hex.clone(),
            confirmations: self.confirmations,
            first_seen_at: self.first_seen_at,
            state: self.state,
            reserved_by: self.reserved_by,
            reserved_at: self.reserved_at,
            spent_by_txid: self.spent_by_txid,
            zero_conf_hold_reason: dup_text(&self.zero_conf_hold_reason),
        }
    }
}

/// One attempt to split a vault output into chunks.
#[derive(Debug, PartialEq, Eq)]
pub struct VaultSplitRow {
    pub id: i64,
    pub source_txid: [u8; 32],
    pub source_vout: u32,
    pub source_amount_atomic: i64,
    pub chunk_count: i64,
    pub chunk_target_atomic: i64,
    pub fee_atomic: i64,
    pub unsigned_tx_hex: String,
    pub signed_tx_hex: Option<String>,
    pub txid: Option<[u8; 32]>,
    pub state: SplitState,
    pub note: String,
    pub built_at: i64,
    pub signed_at: Option<i64>,
    pub broadcast_at: Option<i64>,
    pub confirmed_at: Option<i64>,
    pub abandoned_at: Option<i64>,
    pub abandon_reason: Option<String>,
    pub missing_inputs_since: Option<i64>,
}

/// The value of a [`VaultSplitRow`].
#[verifier::ext_equal]
pub struct VaultSplitView {
    pub id: i64,
    pub source_txid: [u8; 32],
    pub source_vout: u32,
    pub source_amount_atomic: i64,
    pub chunk_count: i64,
    pub chunk_target_atomic: i64,
    pub fee_atomic: i64,
    pub unsigned_tx_hex: Seq<char>,
    pub signed_tx_hex: Option<Seq<char>>,
    pub txid: Option<[u8; 32]>,
    pub state: SplitState,
    pub note: Seq<char>,
    pub built_at: i64,
    pub signed_at: Option<i64>,
    pub broadcast_at: Option<i64>,
    pub confirmed_at: Option<i64>,
    pub abandoned_at: Option<i64>,
    pub abandon_reason: Option<Seq<char>>,
    pub missing_inputs_since: Option<i64>,
}

impl View for VaultSplitRow {
    type V = VaultSplitView;

    open spec fn view(&self) -> VaultSplitView {
        VaultSplitView {
            id: self.id,
            source_txid: self.source_txid,
            source_vout: self.source_vout,
            source_amount_atomic: self.source_amount_atomic,
            chunk_count: self.chunk_count,
            chunk_target_atomic: self.chunk_target_atomic,
            fee_atomic: self.fee_atomic,
            unsigned_tx_hex: self.unsigned_tx_hex@,
            signed_tx_hex: text_of(self.signed_tx_hex),
            txid: self.txid,
            state: self.state,
            note: self.note@,
            built_at: self.built_at,
            signed_at: self.signed_at,
            broadcast_at: self.broadcast_at,
            confirmed_at: self.confirmed_at,
            abandoned_at: self.abandoned_at,
            abandon_reason: text_of(self.abandon_reason),
            missing_inputs_since: self.missing_inputs_since,
        }
    }
}

impl Clone for VaultSplitRow {
    /// A second row with the same value.
    fn clone(&self) -> (r: Self)
        ensures
            r@ == self@,
    {
        VaultSplitRow {
            id: self.id,
            source_txid: self.source_txid,
            source_vout: self.source_vout,
            source_amount_atomic: self.source_amount_atomic,
            chunk_count: self.chunk_count,
            chunk_target_atomic: self.chunk_target_atomic,
            fee_atomic: self.fee_atomic,
            unsigned_tx_hex: self.unsigned_tx_hex.clone(),
            signed_tx_hex: dup_text(&self.signed_tx_hex),
            txid: self.txid,
            state: self.state,
            note: self.note.clone(),
            built_at: self.built_at,
            signed_at: self.signed_at,
            broadcast_at: self.broadcast_at,
            confirmed_at: self.confirmed_at,
            abandoned_at: self.abandoned_at,
            abandon_reason: dup_text(&self.abandon_reason),
            missing_inputs_since: self.missing_inputs_since,
        }
    }
}

/// One Goldcoin payout.
#[derive(Debug, PartialEq, Eq)]
pub struct PayoutRow {
    pub request_id: i64,
    pub commitment_hash: [u8; 32],
    pub payout_atomic: i64,
    pub change_atomic: i64,
    pub fee_atomic: i64,
    pub dest_p2pkh_hash: [u8; 20],
    pub unsigned_tx_hex: Option<String>,
    pub signed_tx_hex: Option<String>,
    pub txid: Option<[u8; 32]>,
    pub state: PayoutState,
    pub confirmations: i64,
    pub mined_height: Option<i64>,
    pub built_at: i64,
    pub signed_at: Option<i64>,
    pub broadcast_at: Option<i64>,
    pub completed_at: Option<i64>,
    pub onchain_completion_signature: Option<[u8; 64]>,
    pub onchain_completion_submitted_at: Option<i64>,
    pub onchain_completed_at: Option<i64>,
}

/// The value of a [`PayoutRow`].
#[verifier::ext_equal]
pub struct PayoutView {
    pub request_id: i64,
    pub commitment_hash: [u8; 32],
    pub payout_atomic: i64,
    pub change_atomic: i64,
    pub fee_atomic: i64,
    pub dest_p2pkh_hash: [u8; 20],
    pub unsigned_tx_hex: Option<Seq<char>>,
    pub signed_tx_hex: Option<Seq<char>>,
    pub txid: Option<[u8; 32]>,
    pub state: PayoutState,
    pub confirmations: i64,
    pub mined_height: Option<i64>,
    pub built_at: i64,
    pub signed_at: Option<i64>,
    pub broadcast_at: Option<i64>,
    pub completed_at: Option<i64>,
    pub onchain_completion_signature: Option<[u8; 64]>,
    pub onchain_completion_submitted_at: Option<i64>,
    pub onchain_completed_at: Option<i64>,
}

impl View for PayoutRow {
    type V = PayoutView;

    open spec fn view(&self) -> PayoutView {
        PayoutView {
            request_id: self.request_id,
            commitment_hash: self.commitment_hash,
            payout_atomic: self.payout_atomic,
            change_atomic: self.change_atomic,
            fee_atomic: self.fee_atomic,
            dest_p2pkh_hash: self.dest_p2pkh_hash,
            unsigned_tx_hex: text_of(self.unsigned_tx_hex),
            signed_tx_hex: text_of(self.signed_tx_hex),
            txid: self.txid,
            state: self.state,
            confirmations: self.confirmations,
            mined_height: self.mined_height,
            built_at: self.built_at,
            signed_at: self.signed_at,
            broadcast_at: self.broadcast_at,
            completed_at: self.completed_at,
            onchain_completion_signature: self.onchain_completion_signature,
            onchain_completion_submitted_at: self.onchain_completion_submitted_at,
            onchain_completed_at: self.onchain_completed_at,
        }
    }
}

impl Clone for PayoutRow {
    /// A second row with the same value.
    fn clone(&self) -> (r: Self)
        ensures
            r@ == self@,
    {
        PayoutRow {
            request_id: self.request_id,
            commitment_hash: self.commitment_hash,
            payout_atomic: self.payout_atomic,
            change_atomic: self.change_atomic,
            fee_atomic: self.fee_atomic,
            dest_p2pkh_hash: self.dest_p2pkh_hash,
            unsigned_tx_hex: dup_text(&self.unsigned_tx_hex),
            signed_tx_hex: dup_text(&self.signed_tx_hex),
            txid: self.txid,
            state: self.state,
            confirmations: self.confirmations,
            mined_height: self.mined_height,
            built_at: self.built_at,
            signed_at: self.signed_at,
            broadcast_at: self.broadcast_at,
            completed_at: self.completed_at,
            onchain_completion_signature: self.onchain_completion_signature,
            onchain_completion_submitted_at: self.onchain_completion_submitted_at,
            onchain_completed_at: self.onchain_completed_at,
        }
    }
}

/// One refund of a Goldcoin deposit.
#[derive(Debug, PartialEq, Eq)]
pub struct GoldcoinRefundRow {
    pub request_id: i64,
    pub source_txid: [u8; 32],
    pub source_vout: u32,
    pub observed_amount_atomic: u64,
    pub source_input_txid: [u8; 32],
    pub source_input_vout: u32,
    pub refund_dest_p2pkh_hash: [u8; 20],
    pub refund_dest_address: String,
    pub refund_amount_atomic: u64,
    pub fee_atomic: u64,
    pub unsigned_tx_hex: Option<String>,
    pub signed_tx_hex: Option<String>,
    pub txid: Option<[u8; 32]>,
    pub confirmations: i64,
    pub state: GoldcoinRefundState,
    pub manual_review_reason: String,
    pub note: String,
    pub created_by: String,
    pub built_at: i64,
    pub signed_at: Option<i64>,
    pub broadcast_at: Option<i64>,
    pub refunded_at: Option<i64>,
    pub reservation_released: bool,
}

/// The value of a [`GoldcoinRefundRow`].
#[verifier::ext_equal]
pub struct GoldcoinRefundView {
    pub request_id: i64,
    pub source_txid: [u8; 32],
    pub source_vout: u32,
    pub observed_amount_atomic: u64,
    pub source_input_txid: [u8; 32],
    pub source_input_vout: u32,
    pub refund_dest_p2pkh_hash: [u8; 20],
    pub refund_dest_address: Seq<char>,
    pub refund_amount_atomic: u64,
    pub fee_atomic: u64,
    pub unsigned_tx_hex: Option<Seq<char>>,
    pub signed_tx_hex: Option<Seq<char>>,
    pub txid: Option<[u8; 32]>,
    pub confirmations: i64,
    pub state: GoldcoinRefundState,
    pub manual_review_reason: Seq<char>,
    pub note: Seq<char>,
    pub created_by: Seq<char>,
    pub built_at: i64,
    pub signed_at: Option<i64>,
    pub broadcast_at: Option<i64>,
    pub refunded_at: Option<i64>,
    pub reservation_released: bool,
}

impl View for GoldcoinRefundRow {
    type V = GoldcoinRefundView;

    open spec fn view(&self) -> GoldcoinRefundView {
        GoldcoinRefundView {
            request_id: self.request_id,
            source_txid: self.source_txid,
            source_vout: self.source_vout,
            observed_amount_atomic: self.observed_amount_atomic,
            source_input_txid: self.source_input_txid,
            source_input_vout: self.source_input_vout,
            refund_dest_p2pkh_hash: self.refund_dest_p2pkh_hash,
            refund_dest_address: self.refund_dest_address@,
            refund_amount_atomic: self.refund_amount_atomic,
            fee_atomic: self.fee_atomic,
            unsigned_tx_hex: text_of(self.unsigned_tx_hex),
            signed_tx_hex: text_of(self.signed_tx_hex),
            txid: self.txid,
            confirmations: self.confirmations,
            state: self.state,
            manual_review_reason: self.manual_review_reason@,
            note: self.note@,
            created_by: self.created_by@,
            built_at: self.built_at,
            signed_at: self.signed_at,
            broadcast_at: self.broadcast_at,
            refunded_at: self.refunded_at,
            reservation_released: self.reservation_released,
        }
    }
}

impl Clone for GoldcoinRefundRow {
    /// A second row with the same value.
    fn clone(&self) -> (r: Self)
        ensures
            r@ == self@,
    {
        GoldcoinRefundRow {
            request_id: self.request_id,
            source_txid: self.source_txid,
            source_vout: self.source_vout,
            observed_amount_atomic: self.observed_amount_atomic,
            source_input_txid: self.source_input_txid,
            source_input_vout: self.source_input_vout,
            refund_dest_p2pkh_hash: self.refund_dest_p2pkh_hash,
            refund_dest_address: self.refund_dest_address.clone(),
            refund_amount_atomic: self.refund_amount_atomic,
            fee_atomic: self.fee_atomic,
            unsigned_tx_hex: dup_text(&self.unsigned_tx_hex),
            signed_tx_hex: dup_text(&self.signed_tx_hex),
            txid: self.txid,
            confirmations: self.confirmations,
            state: self.state,
            manual_review_reason: self.manual_review_reason.clone(),
            note: self.note.clone(),
            created_by: self.created_by.clone(),
            built_at: self.built_at,
            signed_at: self.signed_at,
            broadcast_at: self.broadcast_at,
            refunded_at: self.refunded_at,
            reservation_released: self.reservation_released,
        }
    }
}

/// One refund of a Solana deposit.
#[derive(Debug, PartialEq, Eq)]
pub struct SolanaRefund {
    pub request_id: i64,
    pub obligation_index: u64,
    pub nonce: u64,
    pub amount_solana_atomic: u64,
    pub requester: [u8; 32],
    pub destination_token_account: [u8; 32],
    pub reserve_mint: [u8; 32],
    pub token_program: [u8; 32],
    pub manual_review_reason: String,
    pub note: String,
    pub created_by: String,
    pub state: SolanaRefundState,
    pub attestation_epoch: Option<u64>,
    pub refund_signature: Option<String>,
    pub recent_blockhash: Option<String>,
    pub created_at: i64,
    pub broadcast_at: Option<i64>,
    pub confirmed_at: Option<i64>,
}

/// The value of a [`SolanaRefund`].
#[verifier::ext_equal]
pub struct SolanaRefundView {
    pub request_id: i64,
    pub obligation_index: u64,
    pub nonce: u64,
    pub amount_solana_atomic: u64,
    pub requester: [u8; 32],
    pub destination_token_account: [u8; 32],
    pub reserve_mint: [u8; 32],
    pub token_program: [u8; 32],
    pub manual_review_reason: Seq<char>,
    pub note: Seq<char>,
    pub created_by: Seq<char>,
    pub state: SolanaRefundState,
    pub attestation_epoch: Option<u64>,
    pub refund_signature: Option<Seq<char>>,
    pub recent_blockhash: Option<Seq<char>>,
    pub created_at: i64,
    pub broadcast_at: Option<i64>,
    pub confirmed_at: Option<i64>,
}

impl View for SolanaRefund {
    type V = SolanaRefundView;

    open spec fn view(&self) -> SolanaRefundView {
        SolanaRefundView {
            request_id: self.request_id,
            obligation_index: self.obligation_index,
            nonce: self.nonce,
            amount_solana_atomic: self.amount_solana_atomic,
            requester: self.requester,
            destination_token_account: self.destination_token_account,
            reserve_mint: self.reserve_mint,
            token_program: self.token_program,
            manual_review_reason: self.manual_review_reason@,
            note: self.note@,
            created_by: self.created_by@,
            state: self.state,
            attestation_epoch: self.attestation_epoch,
            refund_signature: text_of(self.refund_signature),
            recent_blockhash: text_of(self.recent_blockhash),
            created_at: self.created_at,
            broadcast_at: self.broadcast_at,
            confirmed_at: self.confirmed_at,
        }
    }
}

impl Clone for SolanaRefund {
    /// A second row with the same value.
    fn clone(&self) -> (r: Self)
        ensures
            r@ == self@,
    {
        SolanaRefund {
            request_id: self.request_id,
            obligation_index: self.obligation_index,
            nonce: self.nonce,
            amount_solana_atomic: self.amount_solana_atomic,
            requester: self.requester,
            destination_token_account: self.destination_token_account,
            reserve_mint: self.reserve_mint,
            token_program: self.token_program,
            manual_review_reason: self.manual_review_reason.clone(),
            note: self.note.clone(),
            created_by: self.created_by.clone(),
            state: self.state,
            attestation_epoch: self.attestation_epoch,
            refund_signature: dup_text(&self.refund_signature),
            recent_blockhash: dup_text(&self.recent_blockhash),
            created_at: self.created_at,
            broadcast_at: self.broadcast_at,
            confirmed_at: self.confirmed_at,
        }
    }
}

/// Whether a route is switched on.
#[derive(Debug, PartialEq, Eq)]
pub struct RouteLedgerRow {
    pub route: Route,
    pub enabled: bool,
    pub disabled_reason: Option<String>,
    pub updated_at: i64,
}

/// The value of a [`RouteLedgerRow`].
#[verifier::ext_equal]
pub struct RouteLedgerView {
    pub route: Route,
    pub enabled: bool,
    pub disabled_reason: Option<Seq<char>>,
    pub updated_at: i64,
}

impl View for RouteLedgerRow {
    type V = RouteLedgerView;

    open spec fn view(&self) -> RouteLedgerView {
        RouteLedgerView {
            route: self.route,
            enabled: self.enabled,
            disabled_reason: text_of(self.disabled_reason),
            updated_at: self.updated_at,
        }
    }
}

impl Clone for RouteLedgerRow {
    /// A second row with the same value.
    fn clone(&self) -> (r: Self)
        ensures
            r@ == self@,
    {
        RouteLedgerRow {
            route: self.route,
            enabled: self.enabled,
            disabled_reason: dup_text(&self.disabled_reason),
            updated_at: self.updated_at,
        }
    }
}

/// Whether a route's own admission is closed.
#[derive(Debug, PartialEq, Eq)]
pub struct RouteAdmissionRow {
    pub route: Route,
    pub admission_closed: bool,
    pub admission_closed_reason: Option<String>,
    pub updated_at: i64,
}

/// The value of a [`RouteAdmissionRow`].
#[verifier::ext_equal]
pub struct RouteAdmissionView {
    pub route: Route,
    pub admission_closed: bool,
    pub admission_closed_reason: Option<Seq<char>>,
    pub updated_at: i64,
}

impl View for RouteAdmissionRow {
    type V = RouteAdmissionView;

    open spec fn view(&self) -> RouteAdmissionView {
        RouteAdmissionView {
            route: self.route,
            admission_closed: self.admission_closed,
            admission_closed_reason: text_of(self.admission_closed_reason),
            updated_at: self.updated_at,
        }
    }
}

impl Clone for RouteAdmissionRow {
    /// A second row with the same value.
    fn clone(&self) -> (r: Self)
        ensures
            r@ == self@,
    {
        RouteAdmissionRow {
            route: self.route,
            admission_closed: self.admission_closed,
            admission_closed_reason: dup_text(&self.admission_closed_reason),
            updated_at: self.updated_at,
        }
    }
}

/// One input of a payout, in the order in which it was built in.
#[derive(Debug, PartialEq, Eq)]
pub struct PayoutInputRow {
    pub request_id: i64,
    pub input_order: i64,
    pub txid: [u8; 32],
    pub vout: u32,
    pub amount_atomic: i64,
}

/// The value of a [`PayoutInputRow`].
#[verifier::ext_equal]
pub struct PayoutInputView {
    pub request_id: i64,
    pub input_order: i64,
    pub txid: [u8; 32],
    pub vout: u32,
    pub amount_atomic: i64,
}

impl View for PayoutInputRow {
    type V = PayoutInputView;

    open spec fn view(&self) -> PayoutInputView {
        PayoutInputView {
            request_id: self.request_id,
            input_order: self.input_order,
            txid: self.txid,
            vout: self.vout,
            amount_atomic: self.amount_atomic,
        }
    }
}

impl Clone for PayoutInputRow {
    /// A second row with the same value.
    fn clone(&self) -> (r: Self)
        ensures
            r@ == self@,
    {
        PayoutInputRow {
            request_id: self.request_id,
            input_order: self.input_order,
            txid: self.txid,
            vout: self.vout,
            amount_atomic: self.amount_atomic,
        }
    }
}

/// One change output of a payout, in the order in which it was built in.
#[derive(Debug, PartialEq, Eq)]
pub struct PayoutChangeRow {
    pub request_id: i64,
    pub output_order: i64,
    pub amount_atomic: i64,
}

/// The value of a [`PayoutChangeRow`].
#[verifier::ext_equal]
pub struct PayoutChangeView {
    pub request_id: i64,
    pub output_order: i64,
    pub amount_atomic: i64,
}

impl View for PayoutChangeRow {
    type V = PayoutChangeView;

    open spec fn view(&self) -> PayoutChangeView {
        PayoutChangeView {
            request_id: self.request_id,
            output_order: self.output_order,
            amount_atomic: self.amount_atomic,
        }
    }
}

impl Clone for PayoutChangeRow {
    /// A second row with the same value.
    fn clone(&self) -> (r: Self)
        ensures
            r@ == self@,
    {
        PayoutChangeRow {
            request_id: self.request_id,
            output_order: self.output_order,
            amount_atomic: self.amount_atomic,
        }
    }
}

/// A change output of a broadcast payout, by its outpoint.
#[derive(Debug, PartialEq, Eq)]
pub struct ChangeOutpointRow {
    pub txid: [u8; 32],
    pub vout: u32,
    pub request_id: i64,
    pub amount_atomic: i64,
    pub unconfirmed_ancestor_depth: i64,
}

/// The value of a [`ChangeOutpointRow`].
#[verifier::ext_equal]
pub struct ChangeOutpointView {
    pub txid: [u8; 32],
    pub vout: u32,
    pub request_id: i64,
    pub amount_atomic: i64,
    pub unconfirmed_ancestor_depth: i64,
}

impl View for ChangeOutpointRow {
    type V = ChangeOutpointView;

    open spec fn view(&self) -> ChangeOutpointView {
        ChangeOutpointView {
            txid: self.txid,
            vout: self.vout,
            request_id: self.request_id,
            amount_atomic: self.amount_atomic,
            unconfirmed_ancestor_depth: self.unconfirmed_ancestor_depth,
        }
    }
}

impl Clone for ChangeOutpointRow {
    /// A second row with the same value.
    fn clone(&self) -> (r: Self)
        ensures
            r@ == self@,
    {
        ChangeOutpointRow {
            txid: self.txid,
            vout: self.vout,
            request_id: self.request_id,
            amount_atomic: self.amount_atomic,
            unconfirmed_ancestor_depth: self.unconfirmed_ancestor_depth,
        }
    }
}

/// One input of a Goldcoin refund.
#[derive(Debug, PartialEq, Eq)]
pub struct RefundInputRow {
    pub request_id: i64,
    pub input_order: i64,
    pub txid: [u8; 32],
    pub vout: u32,
    pub amount_atomic: u64,
}

/// The value of a [`RefundInputRow`].
#[verifier::ext_equal]
pub struct RefundInputView {
    pub request_id: i64,
    pub input_order: i64,
    pub txid: [u8; 32],
    pub vout: u32,
    pub amount_atomic: u64,
}

impl View for RefundInputRow {
    type V = RefundInputView;

    open spec fn view(&self) -> RefundInputView {
        RefundInputView {
            request_id: self.request_id,
            input_order: self.input_order,
            txid: self.txid,
            vout: self.vout,
            amount_atomic: self.amount_atomic,
        }
    }
}

impl Clone for RefundInputRow {
    /// A second row with the same value.
    fn clone(&self) -> (r: Self)
        ensures
            r@ == self@,
    {
        RefundInputRow {
            request_id: self.request_id,
            input_order: self.input_order,
            txid: self.txid,
            vout: self.vout,
            amount_atomic: self.amount_atomic,
        }
    }
}

/// One outbound operation on Robinhood.
#[derive(Debug, PartialEq, Eq)]
pub struct RobinhoodTxRow {
    pub id: i64,
    pub request_id: Option<i64>,
    pub rebalance_request_id: Option<i64>,
    pub kind: RobinhoodTxKind,
    pub state: RobinhoodTxState,
    pub finalized_at: Option<i64>,
}

/// The value of a [`RobinhoodTxRow`].
#[verifier::ext_equal]
pub struct RobinhoodTxView {
    pub id: i64,
    pub request_id: Option<i64>,
    pub rebalance_request_id: Option<i64>,
    pub kind: RobinhoodTxKind,
    pub state: RobinhoodTxState,
    pub finalized_at: Option<i64>,
}

impl View for RobinhoodTxRow {
    type V = RobinhoodTxView;

    open spec fn view(&self) -> RobinhoodTxView {
        RobinhoodTxView {
            id: self.id,
            request_id: self.request_id,
            rebalance_request_id: self.rebalance_request_id,
            kind: self.kind,
            state: self.state,
            finalized_at: self.finalized_at,
        }
    }
}

impl Clone for RobinhoodTxRow {
    /// A second row with the same value.
    fn clone(&self) -> (r: Self)
        ensures
            r@ == self@,
    {
        RobinhoodTxRow {
            id: self.id,
            request_id: self.request_id,
            rebalance_request_id: self.rebalance_request_id,
            kind: self.kind,
            state: self.state,
            finalized_at: self.finalized_at,
        }
    }
}

/// One deposit seen on Robinhood.
#[derive(Debug, PartialEq, Eq)]
pub struct RobinhoodDepositRow {
    pub folded_request_id: Option<i64>,
    pub reorged: bool,
    pub depositor: [u8; 20],
}

/// The value of a [`RobinhoodDepositRow`].
#[verifier::ext_equal]
pub struct RobinhoodDepositView {
    pub folded_request_id: Option<i64>,
    pub reorged: bool,
    pub depositor: [u8; 20],
}

impl View for RobinhoodDepositRow {
    type V = RobinhoodDepositView;

    open spec fn view(&self) -> RobinhoodDepositView {
        RobinhoodDepositView {
            folded_request_id: self.folded_request_id,
            reorged: self.reorged,
            depositor: self.depositor,
        }
    }
}

impl Clone for RobinhoodDepositRow {
    /// A second row with the same value.
    fn clone(&self) -> (r: Self)
        ensures
            r@ == self@,
    {
        RobinhoodDepositRow {
            folded_request_id: self.folded_request_id,
            reorged: self.reorged,
            depositor: self.depositor,
        }
    }
}

/// One indexed Goldcoin block.
#[derive(Debug, PartialEq, Eq)]
pub struct IndexedBlockRow {
    pub height: i64,
    pub hash: [u8; 32],
    pub prev_hash: [u8; 32],
    pub block_time: i64,
    pub indexed_at: i64,
}

/// The value of a [`IndexedBlockRow`].
#[verifier::ext_equal]
pub struct IndexedBlockView {
    pub height: i64,
    pub hash: [u8; 32],
    pub prev_hash: [u8; 32],
    pub block_time: i64,
    pub indexed_at: i64,
}

impl View for IndexedBlockRow {
    type V = IndexedBlockView;

    open spec fn view(&self) -> IndexedBlockView {
        IndexedBlockView {
            height: self.height,
            hash: self.hash,
            prev_hash: self.prev_hash,
            block_time: self.block_time,
            indexed_at: self.indexed_at,
        }
    }
}

impl Clone for IndexedBlockRow {
    /// A second row with the same value.
    fn clone(&self) -> (r: Self)
        ensures
            r@ == self@,
    {
        IndexedBlockRow {
            height: self.height,
            hash: self.hash,
            prev_hash: self.prev_hash,
            block_time: self.block_time,
            indexed_at: self.indexed_at,
        }
    }
}

/// One rollback of the indexed Goldcoin chain.
#[derive(Debug, PartialEq, Eq)]
pub struct ReorgEventRow {
    pub detected_at: i64,
    pub fork_height: i64,
    pub old_tip_height: i64,
    pub old_tip_hash: [u8; 32],
    pub new_tip_height: i64,
    pub new_tip_hash: [u8; 32],
    pub orphaned_count: i64,
}

/// The value of a [`ReorgEventRow`].
#[verifier::ext_equal]
pub struct ReorgEventView {
    pub detected_at: i64,
    pub fork_height: i64,
    pub old_tip_height: i64,
    pub old_tip_hash: [u8; 32],
    pub new_tip_height: i64,
    pub new_tip_hash: [u8; 32],
    pub orphaned_count: i64,
}

impl View for ReorgEventRow {
    type V = ReorgEventView;

    open spec fn view(&self) -> ReorgEventView {
        ReorgEventView {
            detected_at: self.detected_at,
            fork_height: self.fork_height,
            old_tip_height: self.old_tip_height,
            old_tip_hash: self.old_tip_hash,
            new_tip_height: self.new_tip_height,
            new_tip_hash: self.new_tip_hash,
            orphaned_count: self.orphaned_count,
        }
    }
}

impl Clone for ReorgEventRow {
    /// A second row with the same value.
    fn clone(&self) -> (r: Self)
        ensures
            r@ == self@,
    {
        ReorgEventRow {
            detected_at: self.detected_at,
            fork_height: self.fork_height,
            old_tip_height: self.old_tip_height,
            old_tip_hash: self.old_tip_hash,
            new_tip_height: self.new_tip_height,
            new_tip_hash: self.new_tip_hash,
            orphaned_count: self.orphaned_count,
        }
    }
}

/// One reorganisation that reached below a finalized deposit.
#[derive(Debug, PartialEq, Eq)]
pub struct PostFinalityReorgRow {
    pub detected_at: i64,
    pub fork_height: i64,
    pub old_tip_height: i64,
    pub affected_request_ids: String,
    pub auto_paused: bool,
}

/// The value of a [`PostFinalityReorgRow`].
#[verifier::ext_equal]
pub struct PostFinalityReorgView {
    pub detected_at: i64,
    pub fork_height: i64,
    pub old_tip_height: i64,
    pub affected_request_ids: Seq<char>,
    pub auto_paused: bool,
}

impl View for PostFinalityReorgRow {
    type V = PostFinalityReorgView;

    open spec fn view(&self) -> PostFinalityReorgView {
        PostFinalityReorgView {
            detected_at: self.detected_at,
            fork_height: self.fork_height,
            old_tip_height: self.old_tip_height,
            affected_request_ids: self.affected_request_ids@,
            auto_paused: self.auto_paused,
        }
    }
}

impl Clone for PostFinalityReorgRow {
    /// A second row with the same value.
    fn clone(&self) -> (r: Self)
        ensures
            r@ == self@,
    {
        PostFinalityReorgRow {
            detected_at: self.detected_at,
            fork_height: self.fork_height,
            old_tip_height: self.old_tip_height,
            affected_request_ids: self.affected_request_ids.clone(),
            auto_paused: self.auto_paused,
        }
    }
}

/// One Goldcoin deposit that no request asked for.
#[derive(Debug, PartialEq, Eq)]
pub struct UnmatchedDepositRow {
    pub txid: [u8; 32],
    pub vout: u32,
    pub amount_atomic: i64,
    pub block_height: i64,
    pub reason: String,
    pub discovered_at: i64,
    pub reconciled_at: Option<i64>,
    pub reconciliation_note: Option<String>,
}

/// The value of a [`UnmatchedDepositRow`].
#[verifier::ext_equal]
pub struct UnmatchedDepositView {
    pub txid: [u8; 32],
    pub vout: u32,
    pub amount_atomic: i64,
    pub block_height: i64,
    pub reason: Seq<char>,
    pub discovered_at: i64,
    pub reconciled_at: Option<i64>,
    pub reconciliation_note: Option<Seq<char>>,
}

impl View for UnmatchedDepositRow {
    type V = UnmatchedDepositView;

    open spec fn view(&self) -> UnmatchedDepositView {
        UnmatchedDepositView {
            txid: self.txid,
            vout: self.vout,
            amount_atomic: self.amount_atomic,
            block_height: self.block_height,
            reason: self.reason@,
            discovered_at: self.discovered_at,
            reconciled_at: self.reconciled_at,
            reconciliation_note: text_of(self.reconciliation_note),
        }
    }
}

impl Clone for UnmatchedDepositRow {
    /// A second row with the same value.
    fn clone(&self) -> (r: Self)
        ensures
            r@ == self@,
    {
        UnmatchedDepositRow {
            txid: self.txid,
            vout: self.vout,
            amount_atomic: self.amount_atomic,
            block_height: self.block_height,
            reason: self.reason.clone(),
            discovered_at: self.discovered_at,
            reconciled_at: self.reconciled_at,
            reconciliation_note: dup_text(&self.reconciliation_note),
        }
    }
}

/// One finding of a reconciliation pass.
#[derive(Debug, PartialEq, Eq)]
pub struct FindingRow {
    pub detected_at: i64,
    pub direction: ReserveDirection,
    pub expected: i64,
    pub observed: i64,
    pub delta: i64,
    pub classification: String,
    pub auto_paused: bool,
}

/// The value of a [`FindingRow`].
#[verifier::ext_equal]
pub struct FindingView {
    pub detected_at: i64,
    pub direction: ReserveDirection,
    pub expected: i64,
    pub observed: i64,
    pub delta: i64,
    pub classification: Seq<char>,
    pub auto_paused: bool,
}

impl View for FindingRow {
    type V = FindingView;

    open spec fn view(&self) -> FindingView {
        FindingView {
            detected_at: self.detected_at,
            direction: self.direction,
            expected: self.expected,
            observed: self.observed,
            delta: self.delta,
            classification: self.classification@,
            auto_paused: self.auto_paused,
        }
    }
}

impl Clone for FindingRow {
    /// A second row with the same value.
    fn clone(&self) -> (r: Self)
        ensures
            r@ == self@,
    {
        FindingRow {
            detected_at: self.detected_at,
            direction: self.direction,
            expected: self.expected,
            observed: self.observed,
            delta: self.delta,
            classification: self.classification.clone(),
            auto_paused: self.auto_paused,
        }
    }
}

/// One request to move value into or out of a reserve.
#[derive(Debug, PartialEq, Eq)]
pub struct RebalanceRow {
    pub id: i64,
    pub direction: ReserveDirection,
    pub kind: RebalanceKind,
    pub amount_atomic: i64,
    pub state: RebalanceState,
    pub reason: String,
    pub requested_by: String,
    pub requested_at: i64,
    pub required_approvals: u32,
    pub approved_by: String,
    pub approved_at: Option<i64>,
    pub tx_reference: Option<String>,
    pub executed_at: Option<i64>,
    pub observed_amount_atomic: Option<i64>,
    pub confirmed_at: Option<i64>,
    pub failure_reason: Option<String>,
}

/// The value of a [`RebalanceRow`].
#[verifier::ext_equal]
pub struct RebalanceView {
    pub id: i64,
    pub direction: ReserveDirection,
    pub kind: RebalanceKind,
    pub amount_atomic: i64,
    pub state: RebalanceState,
    pub reason: Seq<char>,
    pub requested_by: Seq<char>,
    pub requested_at: i64,
    pub required_approvals: u32,
    pub approved_by: Seq<char>,
    pub approved_at: Option<i64>,
    pub tx_reference: Option<Seq<char>>,
    pub executed_at: Option<i64>,
    pub observed_amount_atomic: Option<i64>,
    pub confirmed_at: Option<i64>,
    pub failure_reason: Option<Seq<char>>,
}

impl View for RebalanceRow {
    type V = RebalanceView;

    open spec fn view(&self) -> RebalanceView {
        RebalanceView {
            id: self.id,
            direction: self.direction,
            kind: self.kind,
            amount_atomic: self.amount_atomic,
            state: self.state,
            reason: self.reason@,
            requested_by: self.requested_by@,
            requested_at: self.requested_at,
            required_approvals: self.required_approvals,
            approved_by: self.approved_by@,
            approved_at: self.approved_at,
            tx_reference: text_of(self.tx_reference),
            executed_at: self.executed_at,
            observed_amount_atomic: self.observed_amount_atomic,
            confirmed_at: self.confirmed_at,
            failure_reason: text_of(self.failure_reason),
        }
    }
}

impl Clone for RebalanceRow {
    /// A second row with the same value.
    fn clone(&self) -> (r: Self)
        ensures
            r@ == self@,
    {
        RebalanceRow {
            id: self.id,
            direction: self.direction,
            kind: self.kind,
            amount_atomic: self.amount_atomic,
            state: self.state,
            reason: self.reason.clone(),
            requested_by: self.requested_by.clone(),
            requested_at: self.requested_at,
            required_approvals: self.required_approvals,
            approved_by: self.approved_by.clone(),
            approved_at: self.approved_at,
            tx_reference: dup_text(&self.tx_reference),
            executed_at: self.executed_at,
            observed_amount_atomic: self.observed_amount_atomic,
            confirmed_at: self.confirmed_at,
            failure_reason: dup_text(&self.failure_reason),
        }
    }
}

/// One line of a rebalance's transition log.
#[derive(Debug, PartialEq, Eq)]
pub struct RebalanceLogRow {
    pub rebalance_id: i64,
    pub from_state: Option<RebalanceState>,
    pub to_state: RebalanceState,
    pub at: i64,
    pub reason: Option<String>,
    pub actor: String,
}

/// The value of a [`RebalanceLogRow`].
#[verifier::ext_equal]
pub struct RebalanceLogView {
    pub rebalance_id: i64,
    pub from_state: Option<RebalanceState>,
    pub to_state: RebalanceState,
    pub at: i64,
    pub reason: Option<Seq<char>>,
    pub actor: Seq<char>,
}

impl View for RebalanceLogRow {
    type V = RebalanceLogView;

    open spec fn view(&self) -> RebalanceLogView {
        RebalanceLogView {
            rebalance_id: self.rebalance_id,
            from_state: self.from_state,
            to_state: self.to_state,
            at: self.at,
            reason: text_of(self.reason),
            actor: self.actor@,
        }
    }
}

impl Clone for RebalanceLogRow {
    /// A second row with the same value.
    fn clone(&self) -> (r: Self)
        ensures
            r@ == self@,
    {
        RebalanceLogRow {
            rebalance_id: self.rebalance_id,
            from_state: self.from_state,
            to_state: self.to_state,
            at: self.at,
            reason: dup_text(&self.reason),
            actor: self.actor.clone(),
        }
    }
}

/// One change of the keys that hold the reserves.
#[derive(Debug, PartialEq, Eq)]
pub struct CustodyRow {
    pub id: i64,
    pub kind: CustodyTransitionKind,
    pub state: CustodyTransitionState,
    pub old_identities: String,
    pub new_identities: String,
    pub new_threshold: Option<u32>,
    pub reason: String,
    pub requested_by: String,
    pub requested_at: i64,
    pub required_approvals: u32,
    pub approved_by: String,
    pub approved_at: Option<i64>,
    pub identity_verified_by: Option<String>,
    pub identity_verified_at: Option<i64>,
    pub tx_reference: Option<String>,
    pub executed_at: Option<i64>,
    pub confirmed_at: Option<i64>,
    pub failure_reason: Option<String>,
    pub rolled_back_at: Option<i64>,
    pub rollback_reason: Option<String>,
}

/// The value of a [`CustodyRow`].
#[verifier::ext_equal]
pub struct CustodyView {
    pub id: i64,
    pub kind: CustodyTransitionKind,
    pub state: CustodyTransitionState,
    pub old_identities: Seq<char>,
    pub new_identities: Seq<char>,
    pub new_threshold: Option<u32>,
    pub reason: Seq<char>,
    pub requested_by: Seq<char>,
    pub requested_at: i64,
    pub required_approvals: u32,
    pub approved_by: Seq<char>,
    pub approved_at: Option<i64>,
    pub identity_verified_by: Option<Seq<char>>,
    pub identity_verified_at: Option<i64>,
    pub tx_reference: Option<Seq<char>>,
    pub executed_at: Option<i64>,
    pub confirmed_at: Option<i64>,
    pub failure_reason: Option<Seq<char>>,
    pub rolled_back_at: Option<i64>,
    pub rollback_reason: Option<Seq<char>>,
}

impl View for CustodyRow {
    type V = CustodyView;

    open spec fn view(&self) -> CustodyView {
        CustodyView {
            id: self.id,
            kind: self.kind,
            state: self.state,
            old_identities: self.old_identities@,
            new_identities: self.new_identities@,
            new_threshold: self.new_threshold,
            reason: self.reason@,
            requested_by: self.requested_by@,
            requested_at: self.requested_at,
            required_approvals: self.required_approvals,
            approved_by: self.approved_by@,
            approved_at: self.approved_at,
            identity_verified_by: text_of(self.identity_verified_by),
            identity_verified_at: self.identity_verified_at,
            tx_reference: text_of(self.tx_reference),
            executed_at: self.executed_at,
            confirmed_at: self.confirmed_at,
            failure_reason: text_of(self.failure_reason),
            rolled_back_at: self.rolled_back_at,
            rollback_reason: text_of(self.rollback_reason),
        }
    }
}

impl Clone for CustodyRow {
    /// A second row with the same value.
    fn clone(&self) -> (r: Self)
        ensures
            r@ == self@,
    {
        CustodyRow {
            id: self.id,
            kind: self.kind,
            state: self.state,
            old_identities: self.old_identities.clone(),
            new_identities: self.new_identities.clone(),
            new_threshold: self.new_threshold,
            reason: self.reason.clone(),
            requested_by: self.requested_by.clone(),
            requested_at: self.requested_at,
            required_approvals: self.required_approvals,
            approved_by: self.approved_by.clone(),
            approved_at: self.approved_at,
            identity_verified_by: dup_text(&self.identity_verified_by),
            identity_verified_at: self.identity_verified_at,
            tx_reference: dup_text(&self.tx_reference),
            executed_at: self.executed_at,
            confirmed_at: self.confirmed_at,
            failure_reason: dup_text(&self.failure_reason),
            rolled_back_at: self.rolled_back_at,
            rollback_reason: dup_text(&self.rollback_reason),
        }
    }
}

/// One line of a custody transition's log.
#[derive(Debug, PartialEq, Eq)]
pub struct CustodyLogRow {
    pub transition_id: i64,
    pub from_state: Option<CustodyTransitionState>,
    pub to_state: CustodyTransitionState,
    pub at: i64,
    pub reason: Option<String>,
    pub actor: String,
}

/// The value of a [`CustodyLogRow`].
#[verifier::ext_equal]
pub struct CustodyLogView {
    pub transition_id: i64,
    pub from_state: Option<CustodyTransitionState>,
    pub to_state: CustodyTransitionState,
    pub at: i64,
    pub reason: Option<Seq<char>>,
    pub actor: Seq<char>,
}

impl View for CustodyLogRow {
    type V = CustodyLogView;

    open spec fn view(&self) -> CustodyLogView {
        CustodyLogView {
            transition_id: self.transition_id,
            from_state: self.from_state,
            to_state: self.to_state,
            at: self.at,
            reason: text_of(self.reason),
            actor: self.actor@,
        }
    }
}

impl Clone for CustodyLogRow {
    /// A second row with the same value.
    fn clone(&self) -> (r: Self)
        ensures
            r@ == self@,
    {
        CustodyLogRow {
            transition_id: self.transition_id,
            from_state: self.from_state,
            to_state: self.to_state,
            at: self.at,
            reason: dup_text(&self.reason),
            actor: self.actor.clone(),
        }
    }
}

/// The exact bytes that a signer group attested to.
#[derive(Debug, PartialEq, Eq)]
pub struct AttestationRow {
    pub request_id: i64,
    pub action_type: String,
    pub canonical_message: Vec<u8>,
    pub message_hash: Vec<u8>,
    pub created_at: i64,
}

/// The value of a [`AttestationRow`].
#[verifier::ext_equal]
pub struct AttestationView {
    pub request_id: i64,
    pub action_type: Seq<char>,
    pub canonical_message: Seq<u8>,
    pub message_hash: Seq<u8>,
    pub created_at: i64,
}

impl View for AttestationRow {
    type V = AttestationView;

    open spec fn view(&self) -> AttestationView {
        AttestationView {
            request_id: self.request_id,
            action_type: self.action_type@,
            canonical_message: self.canonical_message@,
            message_hash: self.message_hash@,
            created_at: self.created_at,
        }
    }
}

impl Clone for AttestationRow {
    /// A second row with the same value.
    fn clone(&self) -> (r: Self)
        ensures
            r@ == self@,
    {
        AttestationRow {
            request_id: self.request_id,
            action_type: self.action_type.clone(),
            canonical_message: dup_bytes(&self.canonical_message),
            message_hash: dup_bytes(&self.message_hash),
            created_at: self.created_at,
        }
    }
}

/// One use of a signer identity.
#[derive(Debug, PartialEq, Eq)]
pub struct SignatureGrantRow {
    pub at: i64,
    pub action_type: String,
    pub identity: String,
    pub request_id: Option<i64>,
    pub severity: String,
}

/// The value of a [`SignatureGrantRow`].
#[verifier::ext_equal]
pub struct SignatureGrantView {
    pub at: i64,
    pub action_type: Seq<char>,
    pub identity: Seq<char>,
    pub request_id: Option<i64>,
    pub severity: Seq<char>,
}

impl View for SignatureGrantRow {
    type V = SignatureGrantView;

    open spec fn view(&self) -> SignatureGrantView {
        SignatureGrantView {
            at: self.at,
            action_type: self.action_type@,
            identity: self.identity@,
            request_id: self.request_id,
            severity: self.severity@,
        }
    }
}

impl Clone for SignatureGrantRow {
    /// A second row with the same value.
    fn clone(&self) -> (r: Self)
        ensures
            r@ == self@,
    {
        SignatureGrantRow {
            at: self.at,
            action_type: self.action_type.clone(),
            identity: self.identity.clone(),
            request_id: self.request_id,
            severity: self.severity.clone(),
        }
    }
}

/// One administrative action; a failed one carries its error.
#[derive(Debug, PartialEq, Eq)]
pub struct AdminAuditEntry {
    pub at: i64,
    pub actor: String,
    pub action: String,
    pub target: String,
    pub old_value: Option<String>,
    pub new_value: Option<String>,
    pub note: Option<String>,
    pub error: Option<String>,
}

/// The value of a [`AdminAuditEntry`].
#[verifier::ext_equal]
pub struct AdminAuditView {
    pub at: i64,
    pub actor: Seq<char>,
    pub action: Seq<char>,
    pub target: Seq<char>,
    pub old_value: Option<Seq<char>>,
    pub new_value: Option<Seq<char>>,
    pub note: Option<Seq<char>>,
    pub error: Option<Seq<char>>,
}

impl View for AdminAuditEntry {
    type V = AdminAuditView;

    open spec fn view(&self) -> AdminAuditView {
        AdminAuditView {
            at: self.at,
            actor: self.actor@,
            action: self.action@,
            target: self.target@,
            old_value: text_of(self.old_value),
            new_value: text_of(self.new_value),
            note: text_of(self.note),
            error: text_of(self.error),
        }
    }
}

impl Clone for AdminAuditEntry {
    /// A second row with the same value.
    fn clone(&self) -> (r: Self)
        ensures
            r@ == self@,
    {
        AdminAuditEntry {
            at: self.at,
            actor: self.actor.clone(),
            action: self.action.clone(),
            target: self.target.clone(),
            old_value: dup_text(&self.old_value),
            new_value: dup_text(&self.new_value),
            note: dup_text(&self.note),
            error: dup_text(&self.error),
        }
    }
}

/// An output that a transaction can spend.
#[derive(Debug, PartialEq, Eq)]
pub struct VaultUtxo {
    pub txid: [u8; 32],
    pub vout: u32,
    pub amount_atomic: u64,
    pub script_pubkey_hex: String,
}

/// The value of a [`VaultUtxo`].
#[verifier::ext_equal]
pub struct CoinView {
    pub txid: [u8; 32],
    pub vout: u32,
    pub amount_atomic: u64,
    pub script_pubkey_hex: Seq<char>,
}

impl View for VaultUtxo {
    type V = CoinView;

    open spec fn view(&self) -> CoinView {
        CoinView {
            txid: self.txid,
            vout: self.vout,
            amount_atomic: self.amount_atomic,
            script_pubkey_hex: self.script_pubkey_hex@,
        }
    }
}

impl Clone for VaultUtxo {
    /// A second row with the same value.
    fn clone(&self) -> (r: Self)
        ensures
            r@ == self@,
    {
        VaultUtxo {
            txid: self.txid,
            vout: self.vout,
            amount_atomic: self.amount_atomic,
            script_pubkey_hex: self.script_pubkey_hex.clone(),
        }
    }
}

/// A change output of this service that is not yet confirmed deep enough.
#[derive(Debug, PartialEq, Eq)]
pub struct ZeroConfChangeCandidate {
    pub utxo: VaultUtxo,
    pub unconfirmed_ancestor_depth: u32,
    pub confirmations: i64,
}

/// The value of a [`ZeroConfChangeCandidate`].
#[verifier::ext_equal]
pub struct ZeroConfView {
    pub utxo: CoinView,
    pub unconfirmed_ancestor_depth: u32,
    pub confirmations: i64,
}

impl View for ZeroConfChangeCandidate {
    type V = ZeroConfView;

    open spec fn view(&self) -> ZeroConfView {
        ZeroConfView {
            utxo: self.utxo@,
            unconfirmed_ancestor_depth: self.unconfirmed_ancestor_depth,
            confirmations: self.confirmations,
        }
    }
}

impl Clone for ZeroConfChangeCandidate {
    /// A second row with the same value.
    fn clone(&self) -> (r: Self)
        ensures
            r@ == self@,
    {
        ZeroConfChangeCandidate {
            utxo: self.utxo.clone(),
            unconfirmed_ancestor_depth: self.unconfirmed_ancestor_depth,
            confirmations: self.confirmations,
        }
    }
}

/// What a single vault output is.
#[derive(Debug, PartialEq, Eq)]
pub struct VaultUtxoRow {
    pub amount_atomic: u64,
    pub script_pubkey_hex: String,
    pub state: VaultUtxoState,
}

/// The value of a [`VaultUtxoRow`].
#[verifier::ext_equal]
pub struct VaultUtxoRowView {
    pub amount_atomic: u64,
    pub script_pubkey_hex: Seq<char>,
    pub state: VaultUtxoState,
}

impl View for VaultUtxoRow {
    type V = VaultUtxoRowView;

    open spec fn view(&self) -> VaultUtxoRowView {
        VaultUtxoRowView {
            amount_atomic: self.amount_atomic,
            script_pubkey_hex: self.script_pubkey_hex@,
            state: self.state,
        }
    }
}

impl Clone for VaultUtxoRow {
    /// A second row with the same value.
    fn clone(&self) -> (r: Self)
        ensures
            r@ == self@,
    {
        VaultUtxoRow {
            amount_atomic: self.amount_atomic,
            script_pubkey_hex: self.script_pubkey_hex.clone(),
            state: self.state,
        }
    }
}

/// A split that has not been broadcast.
#[derive(Debug, PartialEq, Eq)]
pub struct PendingVaultUtxoSplit {
    pub id: i64,
    pub source_txid: [u8; 32],
    pub source_vout: u32,
    pub state: SplitState,
}

/// The value of a [`PendingVaultUtxoSplit`].
#[verifier::ext_equal]
pub struct PendingSplitView {
    pub id: i64,
    pub source_txid: [u8; 32],
    pub source_vout: u32,
    pub state: SplitState,
}

impl View for PendingVaultUtxoSplit {
    type V = PendingSplitView;

    open spec fn view(&self) -> PendingSplitView {
        PendingSplitView {
            id: self.id,
            source_txid: self.source_txid,
            source_vout: self.source_vout,
            state: self.state,
        }
    }
}

impl Clone for PendingVaultUtxoSplit {
    /// A second row with the same value.
    fn clone(&self) -> (r: Self)
        ensures
            r@ == self@,
    {
        PendingVaultUtxoSplit {
            id: self.id,
            source_txid: self.source_txid,
            source_vout: self.source_vout,
            state: self.state,
        }
    }
}

/// A split that has been broadcast and not confirmed.
#[derive(Debug, PartialEq, Eq)]
pub struct UnconfirmedBroadcastSplit {
    pub id: i64,
    pub txid: [u8; 32],
    pub signed_tx_hex: Option<String>,
}

/// The value of a [`UnconfirmedBroadcastSplit`].
#[verifier::ext_equal]
pub struct UnconfirmedSplitView {
    pub id: i64,
    pub txid: [u8; 32],
    pub signed_tx_hex: Option<Seq<char>>,
}

impl View for UnconfirmedBroadcastSplit {
    type V = UnconfirmedSplitView;

    open spec fn view(&self) -> UnconfirmedSplitView {
        UnconfirmedSplitView {
            id: self.id,
            txid: self.txid,
            signed_tx_hex: text_of(self.signed_tx_hex),
        }
    }
}

impl Clone for UnconfirmedBroadcastSplit {
    /// A second row with the same value.
    fn clone(&self) -> (r: Self)
        ensures
            r@ == self@,
    {
        UnconfirmedBroadcastSplit {
            id: self.id,
            txid: self.txid,
            signed_tx_hex: dup_text(&self.signed_tx_hex),
        }
    }
}

/// What a split attempt is.
#[derive(Debug, PartialEq, Eq)]
pub struct VaultUtxoSplitSnapshot {
    pub id: i64,
    pub source_amount_atomic: u64,
    pub chunk_count: i64,
    pub chunk_target_atomic: u64,
    pub fee_atomic: u64,
    pub unsigned_tx_hex: String,
    pub signed_tx_hex: Option<String>,
    pub txid: Option<[u8; 32]>,
    pub state: SplitState,
}

/// The value of a [`VaultUtxoSplitSnapshot`].
#[verifier::ext_equal]
pub struct SplitSnapshotView {
    pub id: i64,
    pub source_amount_atomic: u64,
    pub chunk_count: i64,
    pub chunk_target_atomic: u64,
    pub fee_atomic: u64,
    pub unsigned_tx_hex: Seq<char>,
    pub signed_tx_hex: Option<Seq<char>>,
    pub txid: Option<[u8; 32]>,
    pub state: SplitState,
}

impl View for VaultUtxoSplitSnapshot {
    type V = SplitSnapshotView;

    open spec fn view(&self) -> SplitSnapshotView {
        SplitSnapshotView {
            id: self.id,
            source_amount_atomic: self.source_amount_atomic,
            chunk_count: self.chunk_count,
            chunk_target_atomic: self.chunk_target_atomic,
            fee_atomic: self.fee_atomic,
            unsigned_tx_hex: self.unsigned_tx_hex@,
            signed_tx_hex: text_of(self.signed_tx_hex),
            txid: self.txid,
            state: self.state,
        }
    }
}

impl Clone for VaultUtxoSplitSnapshot {
    /// A second row with the same value.
    fn clone(&self) -> (r: Self)
        ensures
            r@ == self@,
    {
        VaultUtxoSplitSnapshot {
            id: self.id,
            source_amount_atomic: self.source_amount_atomic,
            chunk_count: self.chunk_count,
            chunk_target_atomic: self.chunk_target_atomic,
            fee_atomic: self.fee_atomic,
            unsigned_tx_hex: self.unsigned_tx_hex.clone(),
            signed_tx_hex: dup_text(&self.signed_tx_hex),
            txid: self.txid,
            state: self.state,
        }
    }
}

/// The figures from which a broadcast split's outputs were made.
#[derive(Debug, PartialEq, Eq)]
pub struct BroadcastVaultUtxoSplit {
    pub source_amount_atomic: u64,
    pub fee_atomic: u64,
    pub chunk_count: i64,
}

/// The value of a [`BroadcastVaultUtxoSplit`].
#[verifier::ext_equal]
pub struct BroadcastSplitView {
    pub source_amount_atomic: u64,
    pub fee_atomic: u64,
    pub chunk_count: i64,
}

impl View for BroadcastVaultUtxoSplit {
    type V = BroadcastSplitView;

    open spec fn view(&self) -> BroadcastSplitView {
        BroadcastSplitView {
            source_amount_atomic: self.source_amount_atomic,
            fee_atomic: self.fee_atomic,
            chunk_count: self.chunk_count,
        }
    }
}

impl Clone for BroadcastVaultUtxoSplit {
    /// A second row with the same value.
    fn clone(&self) -> (r: Self)
        ensures
            r@ == self@,
    {
        BroadcastVaultUtxoSplit {
            source_amount_atomic: self.source_amount_atomic,
            fee_atomic: self.fee_atomic,
            chunk_count: self.chunk_count,
        }
    }
}

/// A finding with its number.
#[derive(Debug, PartialEq, Eq)]
pub struct ReconciliationFindingRow {
    pub id: i64,
    pub direction: ReserveDirection,
    pub detected_at: i64,
    pub expected: i64,
    pub observed: i64,
    pub delta: i64,
    pub classification: String,
    pub auto_paused: bool,
}

/// The value of a [`ReconciliationFindingRow`].
#[verifier::ext_equal]
pub struct ReconciliationFindingView {
    pub id: i64,
    pub direction: ReserveDirection,
    pub detected_at: i64,
    pub expected: i64,
    pub observed: i64,
    pub delta: i64,
    pub classification: Seq<char>,
    pub auto_paused: bool,
}

impl View for ReconciliationFindingRow {
    type V = ReconciliationFindingView;

    open spec fn view(&self) -> ReconciliationFindingView {
        ReconciliationFindingView {
            id: self.id,
            direction: self.direction,
            detected_at: self.detected_at,
            expected: self.expected,
            observed: self.observed,
            delta: self.delta,
            classification: self.classification@,
            auto_paused: self.auto_paused,
        }
    }
}

impl Clone for ReconciliationFindingRow {
    /// A second row with the same value.
    fn clone(&self) -> (r: Self)
        ensures
            r@ == self@,
    {
        ReconciliationFindingRow {
            id: self.id,
            direction: self.direction,
            detected_at: self.detected_at,
            expected: self.expected,
            observed: self.observed,
            delta: self.delta,
            classification: self.classification.clone(),
            auto_paused: self.auto_paused,
        }
    }
}

/// A line of the transition log with its number and its request's direction.
#[derive(Debug, PartialEq, Eq)]
pub struct ExplorerEventRow {
    pub id: i64,
    pub request_id: i64,
    pub direction: Direction,
    pub from_state: Option<RequestState>,
    pub to_state: RequestState,
    pub at: i64,
    pub reason: Option<String>,
}

/// The value of a [`ExplorerEventRow`].
#[verifier::ext_equal]
pub struct ExplorerEventView {
    pub id: i64,
    pub request_id: i64,
    pub direction: Direction,
    pub from_state: Option<RequestState>,
    pub to_state: RequestState,
    pub at: i64,
    pub reason: Option<Seq<char>>,
}

impl View for ExplorerEventRow {
    type V = ExplorerEventView;

    open spec fn view(&self) -> ExplorerEventView {
        ExplorerEventView {
            id: self.id,
            request_id: self.request_id,
            direction: self.direction,
            from_state: self.from_state,
            to_state: self.to_state,
            at: self.at,
            reason: text_of(self.reason),
        }
    }
}

impl Clone for ExplorerEventRow {
    /// A second row with the same value.
    fn clone(&self) -> (r: Self)
        ensures
            r@ == self@,
    {
        ExplorerEventRow {
            id: self.id,
            request_id: self.request_id,
            direction: self.direction,
            from_state: self.from_state,
            to_state: self.to_state,
            at: self.at,
            reason: dup_text(&self.reason),
        }
    }
}

/// An attestation with its number.
#[derive(Debug, PartialEq, Eq)]
pub struct AttestationRecord {
    pub id: i64,
    pub request_id: i64,
    pub action_type: String,
    pub canonical_message: Vec<u8>,
    pub message_hash: Vec<u8>,
    pub created_at: i64,
}

/// The value of a [`AttestationRecord`].
#[verifier::ext_equal]
pub struct AttestationRecordView {
    pub id: i64,
    pub request_id: i64,
    pub action_type: Seq<char>,
    pub canonical_message: Seq<u8>,
    pub message_hash: Seq<u8>,
    pub created_at: i64,
}

impl View for AttestationRecord {
    type V = AttestationRecordView;

    open spec fn view(&self) -> AttestationRecordView {
        AttestationRecordView {
            id: self.id,
            request_id: self.request_id,
            action_type: self.action_type@,
            canonical_message: self.canonical_message@,
            message_hash: self.message_hash@,
            created_at: self.created_at,
        }
    }
}

impl Clone for AttestationRecord {
    /// A second row with the same value.
    fn clone(&self) -> (r: Self)
        ensures
            r@ == self@,
    {
        AttestationRecord {
            id: self.id,
            request_id: self.request_id,
            action_type: self.action_type.clone(),
            canonical_message: dup_bytes(&self.canonical_message),
            message_hash: dup_bytes(&self.message_hash),
            created_at: self.created_at,
        }
    }
}

/// An administrative action with its number.
#[derive(Debug, PartialEq, Eq)]
pub struct AdminAuditRow {
    pub id: i64,
    pub at: i64,
    pub actor: String,
    pub action: String,
    pub target: String,
    pub old_value: Option<String>,
    pub new_value: Option<String>,
    pub note: Option<String>,
    pub error: Option<String>,
}

/// The value of a [`AdminAuditRow`].
#[verifier::ext_equal]
pub struct AdminAuditRowView {
    pub id: i64,
    pub at: i64,
    pub actor: Seq<char>,
    pub action: Seq<char>,
    pub target: Seq<char>,
    pub old_value: Option<Seq<char>>,
    pub new_value: Option<Seq<char>>,
    pub note: Option<Seq<char>>,
    pub error: Option<Seq<char>>,
}

impl View for AdminAuditRow {
    type V = AdminAuditRowView;

    open spec fn view(&self) -> AdminAuditRowView {
        AdminAuditRowView {
            id: self.id,
            at: self.at,
            actor: self.actor@,
            action: self.action@,
            target: self.target@,
            old_value: text_of(self.old_value),
            new_value: text_of(self.new_value),
            note: text_of(self.note),
            error: text_of(self.error),
        }
    }
}

impl Clone for AdminAuditRow {
    /// A second row with the same value.
    fn clone(&self) -> (r: Self)
        ensures
            r@ == self@,
    {
        AdminAuditRow {
            id: self.id,
            at: self.at,
            actor: self.actor.clone(),
            action: self.action.clone(),
            target: self.target.clone(),
            old_value: dup_text(&self.old_value),
            new_value: dup_text(&self.new_value),
            note: dup_text(&self.note),
            error: dup_text(&self.error),
        }
    }
}

/// What an attestation needs of a payout.
#[derive(Debug, PartialEq, Eq)]
pub struct GoldcoinPayoutSnapshot {
    pub payout_atomic: u64,
    pub txid: Option<[u8; 32]>,
    pub state: PayoutState,
    pub confirmations: i64,
    pub mined_height: Option<i64>,
    pub onchain_completion_signature: Option<[u8; 64]>,
    pub onchain_completion_submitted_at: Option<i64>,
}

/// The value of a [`GoldcoinPayoutSnapshot`].
#[verifier::ext_equal]
pub struct PayoutSnapshotView {
    pub payout_atomic: u64,
    pub txid: Option<[u8; 32]>,
    pub state: PayoutState,
    pub confirmations: i64,
    pub mined_height: Option<i64>,
    pub onchain_completion_signature: Option<[u8; 64]>,
    pub onchain_completion_submitted_at: Option<i64>,
}

impl View for GoldcoinPayoutSnapshot {
    type V = PayoutSnapshotView;

    open spec fn view(&self) -> PayoutSnapshotView {
        PayoutSnapshotView {
            payout_atomic: self.payout_atomic,
            txid: self.txid,
            state: self.state,
            confirmations: self.confirmations,
            mined_height: self.mined_height,
            onchain_completion_signature: self.onchain_completion_signature,
            onchain_completion_submitted_at: self.onchain_completion_submitted_at,
        }
    }
}

impl Clone for GoldcoinPayoutSnapshot {
    /// A second row with the same value.
    fn clone(&self) -> (r: Self)
        ensures
            r@ == self@,
    {
        GoldcoinPayoutSnapshot {
            payout_atomic: self.payout_atomic,
            txid: self.txid,
            state: self.state,
            confirmations: self.confirmations,
            mined_height: self.mined_height,
            onchain_completion_signature: self.onchain_completion_signature,
            onchain_completion_submitted_at: self.onchain_completion_submitted_at,
        }
    }
}

/// A vault output as the chain reports it.
#[derive(Debug, PartialEq, Eq)]
pub struct ObservedVaultUtxo {
    pub utxo: VaultUtxo,
    pub confirmations: i64,
    pub script_pubkey_hex: String,
}

/// The value of a [`ObservedVaultUtxo`].
#[verifier::ext_equal]
pub struct ObservedView {
    pub utxo: CoinView,
    pub confirmations: i64,
    pub script_pubkey_hex: Seq<char>,
}

impl View for ObservedVaultUtxo {
    type V = ObservedView;

    open spec fn view(&self) -> ObservedView {
        ObservedView {
            utxo: self.utxo@,
            confirmations: self.confirmations,
            script_pubkey_hex: self.script_pubkey_hex@,
        }
    }
}

impl Clone for ObservedVaultUtxo {
    /// A second row with the same value.
    fn clone(&self) -> (r: Self)
        ensures
            r@ == self@,
    {
        ObservedVaultUtxo {
            utxo: self.utxo.clone(),
            confirmations: self.confirmations,
            script_pubkey_hex: self.script_pubkey_hex.clone(),
        }
    }
}

/// A route's switch under the name that it is stored with, and the route of that name.
#[derive(Debug, PartialEq, Eq)]
pub struct RouteRecord {
    pub route_id: String,
    pub route: Option<Route>,
    pub enabled: bool,
    pub disabled_reason: Option<String>,
    pub updated_at: i64,
}

/// The value of a [`RouteRecord`].
#[verifier::ext_equal]
pub struct RouteRecordView {
    pub route_id: Seq<char>,
    pub route: Option<Route>,
    pub enabled: bool,
    pub disabled_reason: Option<Seq<char>>,
    pub updated_at: i64,
}

impl View for RouteRecord {
    type V = RouteRecordView;

    open spec fn view(&self) -> RouteRecordView {
        RouteRecordView {
            route_id: self.route_id@,
            route: self.route,
            enabled: self.enabled,
            disabled_reason: text_of(self.disabled_reason),
            updated_at: self.updated_at,
        }
    }
}

impl Clone for RouteRecord {
    /// A second row with the same value.
    fn clone(&self) -> (r: Self)
        ensures
            r@ == self@,
    {
        RouteRecord {
            route_id: self.route_id.clone(),
            route: self.route,
            enabled: self.enabled,
            disabled_reason: dup_text(&self.disabled_reason),
            updated_at: self.updated_at,
        }
    }
}

/// A route's own admission under the name that it is stored with, and the route of that name.
#[derive(Debug, PartialEq, Eq)]
pub struct RouteAdmissionRecord {
    pub route_id: String,
    pub route: Option<Route>,
    pub admission_closed: bool,
    pub admission_closed_reason: Option<String>,
    pub updated_at: i64,
}

/// The value of a [`RouteAdmissionRecord`].
#[verifier::ext_equal]
pub struct RouteAdmissionRecordView {
    pub route_id: Seq<char>,
    pub route: Option<Route>,
    pub admission_closed: bool,
    pub admission_closed_reason: Option<Seq<char>>,
    pub updated_at: i64,
}

impl View for RouteAdmissionRecord {
    type V = RouteAdmissionRecordView;

    open spec fn view(&self) -> RouteAdmissionRecordView {
        RouteAdmissionRecordView {
            route_id: self.route_id@,
            route: self.route,
            admission_closed: self.admission_closed,
            admission_closed_reason: text_of(self.admission_closed_reason),
            updated_at: self.updated_at,
        }
    }
}

impl Clone for RouteAdmissionRecord {
    /// A second row with the same value.
    fn clone(&self) -> (r: Self)
        ensures
            r@ == self@,
    {
        RouteAdmissionRecord {
            route_id: self.route_id.clone(),
            route: self.route,
            admission_closed: self.admission_closed,
            admission_closed_reason: dup_text(&self.admission_closed_reason),
            updated_at: self.updated_at,
        }
    }
}

} // verus!
