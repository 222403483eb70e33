//! Core accounting and authorization logic of a perpetual-futures exchange:
//! position and margin bookkeeping, order lifecycle records, fixed-capacity
//! byte-range storage, canonical record encoding, and the signed permit
//! envelope with its replay-prevention state.

use vstd::prelude::*;

mod cma;
mod cma_codec;
mod codec;
mod error;
mod fill_quote;
mod global;
mod instruction;
mod keys;
mod log_codec;
mod market;
mod market_order_log;
mod market_order_log_wrapper;
mod math;
mod order;
mod order_codec;
mod order_detail_storage;
mod order_storage;
mod order_storage_codec;
mod orderbook;
mod permit_codec;
mod permit;
mod position;
mod safe_zero_copy_order_storage;
mod signer;
mod state_codec;
mod zero_copy_market_order_log;

pub use cma_codec::dec_cma_state;
pub use cma_codec::dec_nonce_window;
pub use cma_codec::enc_cma_state;
pub use cma_codec::enc_global_state;
pub use cma_codec::enc_nonce_window;
pub use cma::CmaFillResult;
pub use cma::CrossMarginAccountV1;
pub use cma::MarginBucket;
pub use cma::MarginScope;
pub use cma::TokenBalance;
pub use cma::CMA_CURRENT_VERSION;
pub use error::EmberError;
pub use error::ProgramError;
pub use fill_quote::sha256_of;
pub use fill_quote::FillQuoteError;
pub use fill_quote::OffchainFillQuote;
pub use fill_quote::SignedFillQuote;
pub use global::GlobalStateV1;
pub use global::GLOBAL_CURRENT_VERSION;
pub use global::GLOBAL_MAX_ADMINS;
pub use global::GLOBAL_MAX_KEEPERS;
pub use instruction::OrderBookLevelInput;
pub use instruction::TestnetIx;
pub use keys::Pubkey;
pub use order::BuilderTag;
pub use order::EventHistory;
pub use order::OrderDetails;
pub use order::OrderFillResult;
pub use order::OrderMarker;
pub use order::OrderOriginator;
pub use order::OrderPrice;
pub use order::OrderSide;
pub use order::OrderTombstone;
pub use order::PegPriceReference;
pub use order::PriceReference;
pub use order::TimeInForce;
pub use order::TriggerCondition;
pub use order::TriggerEntrySize;
pub use order::ORDER_DETAILS_RESERVED_PADDING;
pub use market_order_log::FillLogDetails;
pub use market_order_log::MarketOrderLog;
pub use market_order_log::MarketOrderLogStats;
pub use market_order_log::OrderLogEntry;
pub use market_order_log::OrderUpdateType;
pub use market_order_log_wrapper::MarketOrderLogWrapper;
pub use math::div_trunc_1e8;
pub use math::mul_qty_px_signed;
pub use math::mul_qty_px_to_notional;
pub use orderbook::assert_valid_sigfig;
pub use orderbook::asks_offset;
pub use orderbook::bids_offset;
pub use orderbook::level_offset;
pub use orderbook::quantize_price_to_sigfigs;
pub use orderbook::sigfig_header_offset;
pub use orderbook::sigfig_index;
pub use orderbook::sigfig_section_offset;
pub use orderbook::zero_fill_side;
pub use orderbook::zero_fill_sigfig;
pub use orderbook::OrderBookLevel;
pub use orderbook::OrderBookSide;
pub use orderbook::ORDERBOOK_HEADER_SIZE;
pub use orderbook::ORDERBOOK_LEVELS_PER_SIDE;
pub use orderbook::ORDERBOOK_LEVEL_SIZE;
pub use orderbook::ORDERBOOK_SIDE_SECTION_SIZE;
pub use orderbook::ORDERBOOK_SIGFIG_COUNT;
pub use orderbook::ORDERBOOK_SIGFIG_HEADER_SIZE;
pub use orderbook::ORDERBOOK_SIGFIG_SECTION_SIZE;
pub use orderbook::ORDERBOOK_SNAPSHOT_SIZE;
pub use orderbook::ORDERBOOK_SNAPSHOT_VERSION;
pub use permit::spec_has_scope;
pub use permit::AllowanceState;
pub use permit::ClusterType;
pub use permit::HealthFloor;
pub use permit::HealthMetric;
pub use permit::KeyType;
pub use permit::NonceWindowState;
pub use permit::PermitAction;
pub use permit::PermitConsumedEvent;
pub use permit::PermitDomain;
pub use permit::PermitEnvelopeV1;
pub use permit::ReplayMode;
pub use permit::SequenceState;
pub use permit::SessionState;
pub use permit::UsedNonceState;
pub use permit::ALLOWANCE_STATE_LEN;
pub use permit::NONCE_WINDOW_MAX_K;
pub use permit::NONCE_WINDOW_STATE_LEN;
pub use permit::SCOPE_CANCEL;
pub use permit::SCOPE_FAUCET;
pub use permit::SCOPE_PLACE;
pub use permit::SCOPE_SET_LEVERAGE;
pub use permit::SCOPE_WITHDRAW;
pub use permit::SEQUENCE_STATE_LEN;
pub use permit::SESSION_STATE_LEN;
pub use permit::USED_NONCE_STATE_LEN;
pub use order_codec::dec_order_details;
pub use order_codec::dec_order_marker;
pub use order_codec::enc_order_details;
pub use order_codec::enc_order_marker;
pub use order_codec::max_order_details_borsh_size;
pub use order_detail_storage::OrderDetailStorage;
pub use order_detail_storage::OrderDetailStorageError;
pub use order_detail_storage::OrderDetailStorageStats;
pub use order_detail_storage::INITIAL_ORDER_CAPACITY;
pub use order_detail_storage::ORDER_CAPACITY_INCREMENT;
pub use order_detail_storage::ORDER_DETAILS_RECORD_ESTIMATE;
pub use order_detail_storage::ORDER_STORAGE_BASE_ESTIMATE;
pub use order_detail_storage::SOLANA_MAX_ACCOUNT_SIZE;
pub use order_storage_codec::dec_order_storage;
pub use order_storage_codec::enc_order_storage;
pub use order_storage::OrderStorage;
pub use order_storage::OrderStorageError;
pub use order_storage::OrderStorageStats;
pub use permit_codec::decode_envelope;
pub use permit_codec::decode_fill_quote;
pub use permit_codec::encode_envelope;
pub use permit_codec::enc_envelope;
pub use permit_codec::enc_fill_quote;
pub use position::calculate_equity;
pub use position::calculate_realized_pnl;
pub use position::process_clearing_fill;
pub use position::process_fill;
pub use market::MarketStateV1;
pub use market::MARKET_STATE_CURRENT_VERSION;
pub use safe_zero_copy_order_storage::get_marker_serialized_size;
pub use safe_zero_copy_order_storage::OrderStorageHeader;
pub use safe_zero_copy_order_storage::SafeZeroCopyOrderStorage;
pub use safe_zero_copy_order_storage::SafeZeroCopyStorageStats;
pub use safe_zero_copy_order_storage::SlotEntry;
pub use safe_zero_copy_order_storage::ZeroCopyStorageError;
pub use safe_zero_copy_order_storage::MARKER_ENCODED_SIZE;
pub use safe_zero_copy_order_storage::REG_HEADER_SIZE;
pub use safe_zero_copy_order_storage::SLOT_SIZE;
pub use safe_zero_copy_order_storage::STORAGE_VERSION;
pub use state_codec::dec_allowance_state;
pub use state_codec::dec_market_state;
pub use state_codec::dec_sequence_state;
pub use state_codec::dec_session_state;
pub use state_codec::dec_used_nonce_state;
pub use state_codec::enc_allowance_state;
pub use state_codec::enc_market_state;
pub use state_codec::enc_sequence_state;
pub use state_codec::enc_session_state;
pub use state_codec::enc_used_nonce_state;
pub use signer::bytes_to_hex;
pub use signer::hex_to_bytes;
pub use signer::sign_permit_ed25519;
pub use signer::SignedPermit;
pub use zero_copy_market_order_log::get_entry_serialized_size;
pub use zero_copy_market_order_log::MarketOrderLogHeader;
pub use zero_copy_market_order_log::ZeroCopyMarketOrderLog;
pub use zero_copy_market_order_log::ZeroCopyOrderLogError;
pub use zero_copy_market_order_log::ZeroCopyOrderLogInfo;
pub use zero_copy_market_order_log::LOG_ENTRY_STRIDE;
pub use zero_copy_market_order_log::LOG_HEADER_SIZE;
pub use zero_copy_market_order_log::ORDER_DETAILS_PADDING;
pub use zero_copy_market_order_log::ORDER_LOG_VERSION;
pub use position::Fill;
pub use position::FillResult;

verus! {

} // verus!
