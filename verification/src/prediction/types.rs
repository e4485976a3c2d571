//! Data types of the prediction markets.

use vstd::prelude::*;

use crate::base::address::Address;
use crate::base::symbol::Symbol;
use crate::base::table::TableKey;
use crate::base::vecs::copy_vec;

verus! {

/// 18-decimal precision factor (10^18).
pub const DECIMAL_PRECISION: i128 = 1_000_000_000_000_000_000;

/// Basis-point denominator (10,000 bps = 100%).
pub const BPS_DENOM: i128 = 10_000;

/// Maximum number of outcomes per market.
pub const MAX_OUTCOMES_PER_MARKET: u32 = 10;

/// Maximum number of active markets.
pub const MAX_ACTIVE_MARKETS: u32 = 10_000;

/// Default trading fee in basis points (0.3%).
pub const DEFAULT_TRADING_FEE_BPS: i128 = 30;

/// Minimum liquidity for a market to be tradable, in collateral units.
pub const MIN_LIQUIDITY: i128 = 1_000;

/// Dispute period in seconds (24 hours).
pub const DISPUTE_PERIOD_SECS: u64 = 86_400;

/// LP token scaling factor for fee distribution.
pub const LP_FEE_SCALE: i128 = 1_000_000;

/// Errors returned by the PredictionMarket contract.
#[derive(Clone, Copy, Debug, PartialEq, Eq, Structural)]
pub enum PredictionError {
    /// Contract has already been initialized.
    AlreadyInitialized,
    /// Caller is not the admin.
    Unauthorized,
    /// The market was not found.
    MarketNotFound,
    /// Invalid market parameters (e.g., zero outcomes, invalid times).
    InvalidMarketParams,
    /// The market is not in a tradable state.
    MarketNotTradable,
    /// The outcome index is out of bounds.
    InvalidOutcomeIndex,
    /// Insufficient balance for the operation.
    InsufficientBalance,
    /// The market has already been resolved.
    MarketAlreadyResolved,
    /// The market has not yet been resolved.
    MarketNotResolved,
    /// The outcome token being redeemed is not the winning outcome.
    NotWinningOutcome,
    /// The resolution window has not closed yet.
    ResolutionWindowNotClosed,
    /// The market has been disputed and cannot be resolved until the dispute is settled.
    MarketDisputed,
    /// No dispute exists for this market.
    NoDispute,
    /// The dispute period has expired.
    DisputePeriodExpired,
    /// The dispute period has not yet expired (cannot resolve yet).
    DisputePeriodNotExpired,
    /// Arithmetic overflow or underflow.
    ArithmeticOverflow,
    /// The market cap has been reached.
    MarketCapReached,
    /// No liquidity pool exists for this market.
    NoLiquidityPool,
    /// Insufficient liquidity for the trade.
    InsufficientLiquidity,
    /// The order price is invalid.
    InvalidOrderPrice,
    /// The order amount is invalid.
    InvalidOrderAmount,
    /// Order not found.
    OrderNotFound,
    /// Only the order owner can cancel.
    NotOrderOwner,
    /// The oracle source is not configured for this market.
    OracleNotConfigured,
    /// Slippage tolerance exceeded.
    SlippageExceeded,
    /// Maximum number of outcomes exceeded.
    TooManyOutcomes,
    /// Invalid category.
    InvalidCategory,
    /// Cannot close market that has active positions.
    ActivePositionsExist,
    /// An item already exists (e.g., duplicate dispute).
    AlreadyExists,
}

impl PredictionError {
    /// The number by which a caller outside knows the value.
    pub open spec fn spec_code(self) -> u32 {
        match self {
            PredictionError::AlreadyInitialized => 1,
            PredictionError::Unauthorized => 2,
            PredictionError::MarketNotFound => 3,
            PredictionError::InvalidMarketParams => 4,
            PredictionError::MarketNotTradable => 5,
            PredictionError::InvalidOutcomeIndex => 6,
            PredictionError::InsufficientBalance => 7,
            PredictionError::MarketAlreadyResolved => 8,
            PredictionError::MarketNotResolved => 9,
            PredictionError::NotWinningOutcome => 10,
            PredictionError::ResolutionWindowNotClosed => 11,
            PredictionError::MarketDisputed => 12,
            PredictionError::NoDispute => 13,
            PredictionError::DisputePeriodExpired => 14,
            PredictionError::DisputePeriodNotExpired => 15,
            PredictionError::ArithmeticOverflow => 16,
            PredictionError::MarketCapReached => 17,
            PredictionError::NoLiquidityPool => 18,
            PredictionError::InsufficientLiquidity => 19,
            PredictionError::InvalidOrderPrice => 20,
            PredictionError::InvalidOrderAmount => 21,
            PredictionError::OrderNotFound => 22,
            PredictionError::NotOrderOwner => 23,
            PredictionError::OracleNotConfigured => 24,
            PredictionError::SlippageExceeded => 25,
            PredictionError::TooManyOutcomes => 26,
            PredictionError::InvalidCategory => 27,
            PredictionError::ActivePositionsExist => 28,
            PredictionError::AlreadyExists => 29,
        }
    }

    /// The number by which a caller outside knows the value.
    pub fn code(self) -> (n: u32)
        ensures
            n == self.spec_code(),
    {
        match self {
            PredictionError::AlreadyInitialized => 1,
            PredictionError::Unauthorized => 2,
            PredictionError::MarketNotFound => 3,
            PredictionError::InvalidMarketParams => 4,
            PredictionError::MarketNotTradable => 5,
            PredictionError::InvalidOutcomeIndex => 6,
            PredictionError::InsufficientBalance => 7,
            PredictionError::MarketAlreadyResolved => 8,
            PredictionError::MarketNotResolved => 9,
            PredictionError::NotWinningOutcome => 10,
            PredictionError::ResolutionWindowNotClosed => 11,
            PredictionError::MarketDisputed => 12,
            PredictionError::NoDispute => 13,
            PredictionError::DisputePeriodExpired => 14,
            PredictionError::DisputePeriodNotExpired => 15,
            PredictionError::ArithmeticOverflow => 16,
            PredictionError::MarketCapReached => 17,
            PredictionError::NoLiquidityPool => 18,
            PredictionError::InsufficientLiquidity => 19,
            PredictionError::InvalidOrderPrice => 20,
            PredictionError::InvalidOrderAmount => 21,
            PredictionError::OrderNotFound => 22,
            PredictionError::NotOrderOwner => 23,
            PredictionError::OracleNotConfigured => 24,
            PredictionError::SlippageExceeded => 25,
            PredictionError::TooManyOutcomes => 26,
            PredictionError::InvalidCategory => 27,
            PredictionError::ActivePositionsExist => 28,
            PredictionError::AlreadyExists => 29,
        }
    }
}

/// Market status lifecycle.
#[derive(Clone, Copy, Debug, PartialEq, Eq, Structural)]
pub enum MarketStatus {
    /// Market is accepting trades and LP provision.
    Active,
    /// Resolution window closed; awaiting oracle resolution.
    PendingResolution,
    /// Market has been resolved with a winning outcome.
    Resolved,
    /// Market is under dispute.
    Disputed,
    /// Market was closed early by admin/creator.
    Closed,
    /// Market was cancelled (no trades occurred or admin action).
    Cancelled,
}

/// Market categories for filtering.
#[derive(Clone, Copy, Debug, PartialEq, Eq, Structural)]
pub enum MarketCategory {
    Sports,
    Crypto,
    Politics,
    Events,
    Weather,
    Other,
}

/// Dispute status.
#[derive(Clone, Copy, Debug, PartialEq, Eq, Structural)]
pub enum DisputeStatus {
    /// Dispute has been filed and is under review.
    Pending,
    /// Dispute was accepted; resolution is overturned.
    Accepted,
    /// Dispute was rejected; original resolution stands.
    Rejected,
}

impl TableKey for MarketCategory {
    fn same(&self, other: &MarketCategory) -> (b: bool) {
        *self == *other
    }
}

/// Side of an order.
#[derive(Clone, Copy, Debug, PartialEq, Eq, Structural)]
pub enum OrderSide {
    Buy,
    Sell,
}

/// Status of an order.
#[derive(Clone, Copy, Debug, PartialEq, Eq, Structural)]
pub enum OrderStatus {
    Active,
    PartiallyFilled,
    Filled,
    Cancelled,
}

/// Represents a single outcome in a prediction market.
#[derive(Clone, Copy, Debug, PartialEq, Eq, Structural)]
pub struct Outcome {
    /// The outcome name (e.g., "Yes", "No", "Team A Wins").
    pub name: Symbol,
    /// Index of this outcome (0-based).
    pub index: u32,
}

impl View for Outcome {
    type V = Outcome;

    open spec fn view(&self) -> Outcome {
        *self
    }
}

/// Configuration for a prediction market.
#[derive(Clone, Debug, PartialEq, Eq)]
pub struct Market {
    /// Unique market identifier.
    pub market_id: u64,
    /// Human-readable market question/description.
    pub description: Symbol,
    /// Category for filtering.
    pub category: MarketCategory,
    /// The outcomes for this market.
    pub outcomes: Vec<Outcome>,
    /// Collateral token symbol (e.g., "USDC").
    pub collateral_token: Symbol,
    /// Market status.
    pub status: MarketStatus,
    /// Timestamp when the market was created.
    pub created_at: u64,
    /// Timestamp when trading ends (resolution window starts).
    pub trading_end_time: u64,
    /// Timestamp when the resolution window closes.
    pub resolution_time: u64,
    /// The oracle source for resolving this market.
    pub oracle_source: Symbol,
    /// The resolved outcome index (only valid after resolution).
    pub resolved_outcome: Option<u32>,
    /// Market creator.
    pub creator: Address,
    /// Maximum total supply of outcome tokens (market cap).
    pub max_outcome_supply: i128,
    /// Total collateral deposited in the CPMM pool.
    pub total_collateral: i128,
    /// Trading fee in basis points.
    pub fee_bps: i128,
    /// Whether the market allows early closing.
    pub allow_early_close: bool,
    /// If resolved, timestamp of resolution.
    pub resolved_at: Option<u64>,
}

/// What a `Market` holds, with its lists as sequences.
#[verifier::ext_equal]
pub struct MarketView {
    pub market_id: u64,
    pub description: Symbol,
    pub category: MarketCategory,
    pub outcomes: Seq<Outcome>,
    pub collateral_token: Symbol,
    pub status: MarketStatus,
    pub created_at: u64,
    pub trading_end_time: u64,
    pub resolution_time: u64,
    pub oracle_source: Symbol,
    pub resolved_outcome: Option<u32>,
    pub creator: Address,
    pub max_outcome_supply: i128,
    pub total_collateral: i128,
    pub fee_bps: i128,
    pub allow_early_close: bool,
    pub resolved_at: Option<u64>,
}

impl View for Market {
    type V = MarketView;

    open spec fn view(&self) -> MarketView {
        MarketView {
            market_id: self.market_id,
            description: self.description,
            category: self.category,
            outcomes: self.outcomes@,
            collateral_token: self.collateral_token,
            status: self.status,
            created_at: self.created_at,
            trading_end_time: self.trading_end_time,
            resolution_time: self.resolution_time,
            oracle_source: self.oracle_source,
            resolved_outcome: self.resolved_outcome,
            creator: self.creator,
            max_outcome_supply: self.max_outcome_supply,
            total_collateral: self.total_collateral,
            fee_bps: self.fee_bps,
            allow_early_close: self.allow_early_close,
            resolved_at: self.resolved_at,
        }
    }
}

impl Market {
    /// An equal value of its own.
    pub fn copy(&self) -> (r: Market)
        ensures
            r@ == self@,
    {
        Market {
            market_id: self.market_id,
            description: self.description,
            category: self.category,
            outcomes: copy_vec(&self.outcomes),
            collateral_token: self.collateral_token,
            status: self.status,
            created_at: self.created_at,
            trading_end_time: self.trading_end_time,
            resolution_time: self.resolution_time,
            oracle_source: self.oracle_source,
            resolved_outcome: self.resolved_outcome,
            creator: self.creator,
            max_outcome_supply: self.max_outcome_supply,
            total_collateral: self.total_collateral,
            fee_bps: self.fee_bps,
            allow_early_close: self.allow_early_close,
            resolved_at: self.resolved_at,
        }
    }
}

impl Market {
    /// Check if the market is in a tradable state.
    pub fn is_tradable(&self) -> (b: bool)
        ensures
            b == self@.tradable(),
    {
        self.status == MarketStatus::Active
    }

    /// Check if the resolution window has closed.
    pub fn is_resolution_window_closed(&self, now: u64) -> (b: bool)
        ensures
            b == (now >= self@.resolution_time),
    {
        now >= self.resolution_time
    }

    /// Check if the trading window is open.
    pub fn is_trading_open(&self, now: u64) -> (b: bool)
        ensures
            b == self@.trading_open(now),
    {
        self.status == MarketStatus::Active && now < self.trading_end_time
    }

    /// Get the number of outcomes.
    pub fn num_outcomes(&self) -> (n: u32)
        requires
            self@.outcomes.len() <= u32::MAX,
        ensures
            n == self@.outcomes.len(),
    {
        self.outcomes.len() as u32
    }

    /// Check if this is a binary market (exactly 2 outcomes).
    pub fn is_binary(&self) -> (b: bool)
        ensures
            b == (self@.outcomes.len() == 2),
    {
        self.outcomes.len() == 2
    }
}

impl MarketView {
    /// The market accepts trades and liquidity.
    pub open spec fn tradable(self) -> bool {
        self.status == MarketStatus::Active
    }

    /// The market accepts trades at the given time.
    pub open spec fn trading_open(self, now: u64) -> bool {
        self.status == MarketStatus::Active && now < self.trading_end_time
    }
}

/// The Constant Product Market Maker pool for a market.
///
/// Maintains the invariant: for each outcome, the product of the collateral
/// reserve and the outcome's reserve is its k.
/// Each outcome has its own reserve of outcome tokens and shares a common
/// collateral reserve.
#[derive(Clone, Debug, PartialEq, Eq)]
pub struct LiquidityPool {
    /// Market this pool belongs to.
    pub market_id: u64,
    /// Reserve of collateral (USDC) in the pool.
    pub collateral_reserve: i128,
    /// Reserve of outcome tokens per outcome index.
    pub outcome_reserves: Vec<i128>,
    /// Total LP tokens minted for this pool.
    pub lp_supply: i128,
    /// The constant product of each outcome:
    /// k_per_outcome[i] = collateral_reserve * outcome_reserves[i]
    pub k_per_outcome: Vec<i128>,
    /// Trading fees accumulated (not yet distributed).
    pub fees_accumulated: i128,
    /// Total trading volume through this pool.
    pub total_volume: i128,
}

/// What a `LiquidityPool` holds, with its lists as sequences.
#[verifier::ext_equal]
pub struct LiquidityPoolView {
    pub market_id: u64,
    pub collateral_reserve: i128,
    pub outcome_reserves: Seq<i128>,
    pub lp_supply: i128,
    pub k_per_outcome: Seq<i128>,
    pub fees_accumulated: i128,
    pub total_volume: i128,
}

impl View for LiquidityPool {
    type V = LiquidityPoolView;

    open spec fn view(&self) -> LiquidityPoolView {
        LiquidityPoolView {
            market_id: self.market_id,
            collateral_reserve: self.collateral_reserve,
            outcome_reserves: self.outcome_reserves@,
            lp_supply: self.lp_supply,
            k_per_outcome: self.k_per_outcome@,
            fees_accumulated: self.fees_accumulated,
            total_volume: self.total_volume,
        }
    }
}

impl LiquidityPool {
    /// An equal value of its own.
    pub fn copy(&self) -> (r: LiquidityPool)
        ensures
            r@ == self@,
    {
        LiquidityPool {
            market_id: self.market_id,
            collateral_reserve: self.collateral_reserve,
            outcome_reserves: copy_vec(&self.outcome_reserves),
            lp_supply: self.lp_supply,
            k_per_outcome: copy_vec(&self.k_per_outcome),
            fees_accumulated: self.fees_accumulated,
            total_volume: self.total_volume,
        }
    }
}

/// A limit order in the outcome token order book.
#[derive(Clone, Copy, Debug, PartialEq, Eq, Structural)]
pub struct PredictionOrder {
    /// Unique order ID.
    pub order_id: u64,
    /// Market ID.
    pub market_id: u64,
    /// Owner of the order.
    pub owner: Address,
    /// Outcome index this order is for.
    pub outcome_index: u32,
    /// Buy or Sell side.
    pub side: OrderSide,
    /// Price per outcome token in collateral units (scaled by DECIMAL_PRECISION).
    pub price: i128,
    /// Amount of outcome tokens.
    pub amount: i128,
    /// Remaining amount not yet filled.
    pub remaining: i128,
    /// Current status.
    pub status: OrderStatus,
    /// Ledger timestamp when the order was placed.
    pub created_at: u64,
}

impl View for PredictionOrder {
    type V = PredictionOrder;

    open spec fn view(&self) -> PredictionOrder {
        *self
    }
}

/// The order book for outcome tokens in a market.
#[derive(Clone, Debug, PartialEq, Eq)]
pub struct OutcomeOrderBook {
    /// Market ID.
    pub market_id: u64,
    /// Active buy orders (bids).
    pub bids: Vec<PredictionOrder>,
    /// Active sell orders (asks).
    pub asks: Vec<PredictionOrder>,
}

/// What a `OutcomeOrderBook` holds, with its lists as sequences.
#[verifier::ext_equal]
pub struct OutcomeOrderBookView {
    pub market_id: u64,
    pub bids: Seq<PredictionOrder>,
    pub asks: Seq<PredictionOrder>,
}

impl View for OutcomeOrderBook {
    type V = OutcomeOrderBookView;

    open spec fn view(&self) -> OutcomeOrderBookView {
        OutcomeOrderBookView {
            market_id: self.market_id,
            bids: self.bids@,
            asks: self.asks@,
        }
    }
}

impl OutcomeOrderBook {
    /// An equal value of its own.
    pub fn copy(&self) -> (r: OutcomeOrderBook)
        ensures
            r@ == self@,
    {
        OutcomeOrderBook {
            market_id: self.market_id,
            bids: copy_vec(&self.bids),
            asks: copy_vec(&self.asks),
        }
    }
}

/// A user's position in a prediction market.
#[derive(Clone, Debug, PartialEq, Eq)]
pub struct Position {
    /// Market ID.
    pub market_id: u64,
    /// User address.
    pub user: Address,
    /// Amount of outcome tokens held per outcome index.
    pub outcome_amounts: Vec<i128>,
    /// Average entry price per outcome token.
    pub entry_prices: Vec<i128>,
    /// Total collateral spent on this position.
    pub total_spent: i128,
    /// Whether the position has been settled.
    pub settled: bool,
    /// Profit/loss after settlement (only if settled).
    pub pnl: Option<i128>,
}

/// What a `Position` holds, with its lists as sequences.
#[verifier::ext_equal]
pub struct PositionView {
    pub market_id: u64,
    pub user: Address,
    pub outcome_amounts: Seq<i128>,
    pub entry_prices: Seq<i128>,
    pub total_spent: i128,
    pub settled: bool,
    pub pnl: Option<i128>,
}

impl View for Position {
    type V = PositionView;

    open spec fn view(&self) -> PositionView {
        PositionView {
            market_id: self.market_id,
            user: self.user,
            outcome_amounts: self.outcome_amounts@,
            entry_prices: self.entry_prices@,
            total_spent: self.total_spent,
            settled: self.settled,
            pnl: self.pnl,
        }
    }
}

impl Position {
    /// An equal value of its own.
    pub fn copy(&self) -> (r: Position)
        ensures
            r@ == self@,
    {
        Position {
            market_id: self.market_id,
            user: self.user,
            outcome_amounts: copy_vec(&self.outcome_amounts),
            entry_prices: copy_vec(&self.entry_prices),
            total_spent: self.total_spent,
            settled: self.settled,
            pnl: self.pnl,
        }
    }
}

/// Oracle source configuration for a market.
#[derive(Clone, Copy, Debug, PartialEq, Eq, Structural)]
pub struct OracleSource {
    /// Oracle provider identifier.
    pub provider_id: Symbol,
    /// The data feed endpoint identifier.
    pub feed_id: Symbol,
    /// Maximum staleness allowed (in seconds).
    pub max_staleness: u64,
    /// Whether the oracle is currently active.
    pub is_active: bool,
}

impl View for OracleSource {
    type V = OracleSource;

    open spec fn view(&self) -> OracleSource {
        *self
    }
}

/// Resolution data submitted by oracles.
#[derive(Clone, Copy, Debug, PartialEq, Eq, Structural)]
pub struct ResolutionData {
    /// Market ID.
    pub market_id: u64,
    /// The resolved outcome index.
    pub resolved_outcome: u32,
    /// Oracle provider that submitted the resolution.
    pub oracle_provider: Symbol,
    /// Timestamp of resolution submission.
    pub submitted_at: u64,
    /// Whether this resolution has been confirmed.
    pub confirmed: bool,
}

impl View for ResolutionData {
    type V = ResolutionData;

    open spec fn view(&self) -> ResolutionData {
        *self
    }
}

/// A dispute filed against a market resolution.
#[derive(Clone, Copy, Debug, PartialEq, Eq, Structural)]
pub struct Dispute {
    /// Market ID.
    pub market_id: u64,
    /// Address of the dispute filer.
    pub disputer: Address,
    /// The outcome the disputer claims is correct.
    pub claimed_outcome: u32,
    /// Evidence/reason for the dispute (as a symbol for simplicity).
    pub evidence: Symbol,
    /// Timestamp when the dispute was filed.
    pub filed_at: u64,
    /// Current dispute status.
    pub status: DisputeStatus,
    /// Amount of collateral staked as dispute bond.
    pub bond_amount: i128,
    /// Timestamp when the dispute was resolved (if resolved).
    pub resolved_at: Option<u64>,
}

impl View for Dispute {
    type V = Dispute;

    open spec fn view(&self) -> Dispute {
        *self
    }
}

/// A trade fill event.
#[derive(Clone, Copy, Debug, PartialEq, Eq, Structural)]
pub struct TradeFill {
    /// The order that was matched against.
    pub order_id: u64,
    /// Taker address.
    pub taker: Address,
    /// Maker address.
    pub maker: Address,
    /// Outcome index traded.
    pub outcome_index: u32,
    /// Side of the taker.
    pub side: OrderSide,
    /// Fill price.
    pub price: i128,
    /// Filled quantity.
    pub amount: i128,
    /// Fee charged.
    pub fee: i128,
}

impl View for TradeFill {
    type V = TradeFill;

    open spec fn view(&self) -> TradeFill {
        *self
    }
}

/// Snapshot of the order book for a market.
#[derive(Clone, Copy, Debug, PartialEq, Eq, Structural)]
pub struct OrderBookSnapshot {
    /// Market ID.
    pub market_id: u64,
    /// Number of active bids.
    pub bid_count: u32,
    /// Number of active asks.
    pub ask_count: u32,
    /// Best bid price (0 if empty).
    pub best_bid: i128,
    /// Best ask price (0 if empty).
    pub best_ask: i128,
    /// Spread.
    pub spread: i128,
}

impl View for OrderBookSnapshot {
    type V = OrderBookSnapshot;

    open spec fn view(&self) -> OrderBookSnapshot {
        *self
    }
}

/// Market statistics for queries.
#[derive(Clone, Debug, PartialEq, Eq)]
pub struct MarketStats {
    /// Market ID.
    pub market_id: u64,
    /// Total trading volume.
    pub total_volume: i128,
    /// Total number of trades.
    pub total_trades: u64,
    /// Total fees collected.
    pub total_fees: i128,
    /// Number of participants.
    pub participants: u64,
    /// Current CPMM prices for each outcome.
    pub prices: Vec<i128>,
}

/// What a `MarketStats` holds, with its lists as sequences.
#[verifier::ext_equal]
pub struct MarketStatsView {
    pub market_id: u64,
    pub total_volume: i128,
    pub total_trades: u64,
    pub total_fees: i128,
    pub participants: u64,
    pub prices: Seq<i128>,
}

impl View for MarketStats {
    type V = MarketStatsView;

    open spec fn view(&self) -> MarketStatsView {
        MarketStatsView {
            market_id: self.market_id,
            total_volume: self.total_volume,
            total_trades: self.total_trades,
            total_fees: self.total_fees,
            participants: self.participants,
            prices: self.prices@,
        }
    }
}

impl MarketStats {
    /// An equal value of its own.
    pub fn copy(&self) -> (r: MarketStats)
        ensures
            r@ == self@,
    {
        MarketStats {
            market_id: self.market_id,
            total_volume: self.total_volume,
            total_trades: self.total_trades,
            total_fees: self.total_fees,
            participants: self.participants,
            prices: copy_vec(&self.prices),
        }
    }
}

/// Summary result of a CPMM swap.
#[derive(Clone, Copy, Debug, PartialEq, Eq, Structural)]
pub struct SwapResult {
    /// Amount of outcome tokens received (buy) or sent (sell).
    pub outcome_amount: i128,
    /// Amount of collateral spent (buy) or received (sell).
    pub collateral_amount: i128,
    /// Fee charged in collateral.
    pub fee: i128,
    /// Price impact in basis points.
    pub price_impact_bps: i128,
}

impl View for SwapResult {
    type V = SwapResult;

    open spec fn view(&self) -> SwapResult {
        *self
    }
}

/// LP provision result.
#[derive(Clone, Debug, PartialEq, Eq)]
pub struct LPResult {
    /// Number of LP tokens minted.
    pub lp_tokens_minted: i128,
    /// Amount of collateral deposited.
    pub collateral_deposited: i128,
    /// Amount of outcome tokens deposited per outcome.
    pub outcome_deposits: Vec<i128>,
}

/// What a `LPResult` holds, with its lists as sequences.
#[verifier::ext_equal]
pub struct LPResultView {
    pub lp_tokens_minted: i128,
    pub collateral_deposited: i128,
    pub outcome_deposits: Seq<i128>,
}

impl View for LPResult {
    type V = LPResultView;

    open spec fn view(&self) -> LPResultView {
        LPResultView {
            lp_tokens_minted: self.lp_tokens_minted,
            collateral_deposited: self.collateral_deposited,
            outcome_deposits: self.outcome_deposits@,
        }
    }
}

impl LPResult {
    /// An equal value of its own.
    pub fn copy(&self) -> (r: LPResult)
        ensures
            r@ == self@,
    {
        LPResult {
            lp_tokens_minted: self.lp_tokens_minted,
            collateral_deposited: self.collateral_deposited,
            outcome_deposits: copy_vec(&self.outcome_deposits),
        }
    }
}

} // verus!
