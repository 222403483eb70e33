//! The exchange's instruction set.
//!
//! Instructions are a tagged union whose numeric discriminant is the
//! declaration index.  The host decodes an instruction, checks the signer
//! against the global registry, and drives the state and storage modules.

use vstd::prelude::*;

use crate::keys::Pubkey;
use crate::order::OrderOriginator;
use crate::order::OrderTombstone;
use crate::order::TimeInForce;
use crate::orderbook::ORDERBOOK_LEVELS_PER_SIDE;

verus! {

/// One exchange instruction.
#[derive(Debug, Clone, PartialEq, Eq)]
pub enum TestnetIx {
    /// Initialize the global state.
    InitializeGlobal { min_deposit_size: u64 },
    /// Initialize a new market.
    InitializeMarket {
        market_id: u64,
        oracle: Pubkey,
        tick_size: u64,
        im_bps: u16,
        mm_bps: u16,
        base_token: Pubkey,
        min_order_size: u64,
        max_order_size: Option<u64>,
        max_oi_size: Option<u64>,
        max_user_oi_size: Option<u64>,
        fill_offset: Option<u16>,
    },
    /// Deposit collateral into the cross-margin account.
    Deposit { amount: u64 },
    /// Withdraw collateral from the cross-margin account.
    Withdraw { amount: u64 },
    /// Commit free collateral to a market's bucket.
    CommitCollateral { market_id: u64, amount: u64 },
    /// Uncommit collateral from a market's bucket.
    UncommitCollateral { market_id: u64, amount: u64 },
    /// Run a keeper cycle with the latest bid and ask.
    KeeperCycle { bid: u64, ask: u64 },
    /// Add an admin.
    AddAdmin { target: Pubkey },
    /// Remove an admin.
    RemoveAdmin { target: Pubkey },
    /// Add a keeper.
    AddKeeper { target: Pubkey },
    /// Remove a keeper.
    RemoveKeeper { target: Pubkey },
    /// Echo a value back in the log.
    Ping { amount: u64 },
    /// Initialize a cross-margin account.
    InitCma,
    /// Initialize per-user order-details storage for a market.
    InitOrderDetails { market_id: u64, user: Pubkey, page_offset: u32 },
    /// Liquidate a position by creating and filling an order.
    LiqPosition { market_id: u64, user: Pubkey, order_id: u64, side: u8, qty: u64, price: u64 },
    /// Close the user's net position with an automatically sized order.
    ClosePositionEntry { market_id: u64, order_id: u64, price: u64, tif: TimeInForce },
    /// Update market prices.
    UpdateMarketData {
        market_id: u64,
        last_bid: u64,
        last_ask: u64,
        last_trade_price: u64,
        last_mark_price: u64,
    },
    /// Set the user's own initial-margin rate for a market.
    SetUserMargin { market_id: u64, token: Pubkey, user_set_im_bps: u16 },
    /// Grow per-user order-details storage.
    ReallocOrderDetails { market_id: u64, user: Pubkey, additional_capacity: u32 },
    /// Grow a market order log page.
    ReallocMarketOrderLog { market_id: u64, page: u32, additional_capacity: usize },
    /// Place an order.
    OrderEntry {
        market_id: u64,
        order_id: u64,
        side: u8,
        qty: u64,
        price: u64,
        tif: TimeInForce,
        origin: OrderOriginator,
    },
    /// Cancel an order, recording the given tombstone.
    CancelOrder { market_id: u64, order_id: u64, tombstone: OrderTombstone },
    /// Fill an order (keeper only).
    FillOrder { market_id: u64, user: Pubkey, order_id: u64, fill_qty: u64, fill_price: u64 },
    /// Fill an order using a keeper-signed quote.
    FillOrderQuote { quote_bytes: Vec<u8>, keeper_pubkey: Pubkey },
    /// Reset clearing-house aggregates for a market.
    ResetClearingHouse { market_id: u64 },
    /// Snapshot a user's collateral into the market order log.
    SnapshotCollateral { market_id: u64, user: Pubkey },
    /// Fill an order at market price from the last bid or ask.
    FillAtMarket { market_id: u64, user: Pubkey, order_id: u64 },
    /// Grow a market order log page, bounded by a free-space target.
    ReallocMarketOrderLogV2 {
        market_id: u64,
        page: u32,
        additional_capacity: usize,
        buffer_target: Option<usize>,
    },
    /// Advance the market's current log page.
    IncrementLogPage { market_id: u64 },
    /// Place an order with extended options.
    OrderEntryV2 {
        market_id: u64,
        order_id: u64,
        side: u8,
        qty: u64,
        price: Option<u64>,
        tif: TimeInForce,
        origin: OrderOriginator,
        reduce_only: bool,
        trigger_price: Option<u64>,
        trigger_type: u8,
        price_peg_type: u8,
        builder_code: Option<u16>,
    },
    /// Consume a signed permit envelope.
    ConsumePermit { permit_bytes: Vec<u8>, verify_ix_index: u8 },
    /// Delegate session permissions to another key.
    DelegateSession {
        session: Pubkey,
        expires_unix: i64,
        scopes_bits: u32,
        withdraw_limit_24h: u64,
        per_market_size_limit_lots: i64,
    },
    /// Revoke a session delegation.
    RevokeSession { session: Pubkey },
    /// Create a counted allowance for a session key.
    CreateAllowance {
        id: [u8; 32],
        session: Pubkey,
        uses: u32,
        expires_unix: i64,
        scopes_bits: u32,
    },
    /// Revoke an allowance.
    RevokeAllowance { id: [u8; 32], session: Pubkey },
    /// Initialize the nonce-window and sequence replay records.
    InitNonceWindow { k: u8 },
    /// Credit collateral from the testnet faucet (keeper only).
    FaucetCredit { market_id: u64, amount: u64, recipient: Pubkey },
    /// Update the L2 order-book snapshot for a market (keeper only).
    UpdateOrderBookSnapshot {
        market_id: u64,
        n_sig_figs: u8,
        bids: Vec<OrderBookLevelInput>,
        asks: Vec<OrderBookLevelInput>,
    },
}

/// One submitted order-book level.
#[derive(Debug, Clone, Copy, PartialEq, Eq, Structural)]
pub struct OrderBookLevelInput {
    /// Price in 1e-6 precision.
    pub price: i64,
    /// Aggregate size at this level in 1e-8 precision.
    pub size: u64,
    /// Number of constituent orders.
    pub order_count: u16,
}

impl OrderBookLevelInput {
    /// Whether a submitted side fits within the stored level count.
    pub fn is_length_valid(len: usize) -> (r: bool)
        ensures
            r == (len <= ORDERBOOK_LEVELS_PER_SIDE),
    {
        len <= ORDERBOOK_LEVELS_PER_SIDE
    }
}

} // verus!
