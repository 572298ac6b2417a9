//! The reserve ledger of a three-chain bridge: tables, the rules that move
//! value between them, and the proofs of those rules.
pub mod admission;
pub mod approvals;
pub mod audit;
pub mod book_laws;
pub mod chain;
pub mod coins;
pub mod custody;
pub mod deposit_laws;
pub mod error;
pub mod finality;
pub mod flow_laws;
pub mod fold_laws;
pub mod folds;
pub mod goldcoin_refund;
pub mod goldcoin_refund_steps;
pub mod holds;
pub mod in_flight;
pub mod json;
pub mod ledger;
pub mod list_laws;
pub mod payout_steps;
pub mod payouts;
pub mod proposal_laws;
pub mod queries;
pub mod query_laws;
pub mod reasons;
pub mod record_laws;
pub mod refund_laws;
pub mod refund_text;
pub mod repeat_laws;
pub mod request_laws;
pub mod requests;
pub mod rebalances;
pub mod reserves;
pub mod resume;
pub mod review_laws;
pub mod review_text;
pub mod route_rows;
pub mod rows;
pub mod settlement;
pub mod solana_refund;
pub mod spend_laws;
pub mod splits;
pub mod table;
pub mod text_laws;
pub mod trail_laws;
pub mod type_laws;
pub mod types;
pub mod vault;
pub mod vault_laws;

use vstd::prelude::*;

verus! {

} // verus!
