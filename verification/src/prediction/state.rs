//! Storage, events and ledger data of the prediction markets.

use vstd::prelude::*;

use crate::base::address::Address;
use crate::base::symbol::Symbol;
use crate::base::table::Table;
use crate::base::vecs::has_address;
use crate::prediction::orderbook::book_wf;
use crate::prediction::types::{
    Dispute, LiquidityPool, LiquidityPoolView, Market, MarketCategory, MarketView, OracleSource,
    OrderSide, Position, PositionView, PredictionOrder,
    ResolutionData, MAX_OUTCOMES_PER_MARKET,
};

verus! {

/// An event that the contract publishes.
#[derive(Clone, Copy, Debug, PartialEq, Eq, Structural)]
pub enum PredictionEvent {
    /// `MKT_ADD`: a market was created.
    MarketAdded { market_id: u64, description: Symbol, creator: Address },
    /// `LP_ADD`: liquidity was added.
    LiquidityAdded { market_id: u64, provider: Address, collateral: i128, lp_tokens: i128 },
    /// `LP_RMV`: liquidity was removed.
    LiquidityRemoved { market_id: u64, provider: Address, lp_tokens: i128, collateral: i128 },
    /// `BUY`: outcome tokens were bought.
    Bought {
        market_id: u64,
        buyer: Address,
        outcome_index: u32,
        outcome_amount: i128,
        collateral_amount: i128,
    },
    /// `SELL`: outcome tokens were sold.
    Sold {
        market_id: u64,
        seller: Address,
        outcome_index: u32,
        outcome_amount: i128,
        collateral_amount: i128,
    },
    /// `ORD_ADD`: a limit order was placed.
    OrderPlaced {
        market_id: u64,
        order_id: u64,
        outcome_index: u32,
        side: OrderSide,
        price: i128,
        amount: i128,
    },
    /// `ORD_CNCL`: an order was cancelled.
    OrderCancelled { market_id: u64, order_id: u64, caller: Address },
    /// `RESOLVE`: a resolution was submitted.
    Resolved { market_id: u64, resolved_outcome: u32, submitted_at: u64 },
    /// `DISPUTE`: a dispute was filed.
    Disputed { market_id: u64, claimed_outcome: u32, bond_amount: i128 },
    /// `DSP_RES`: a dispute was resolved.
    DisputeResolved { market_id: u64, accepted: bool, claimed_outcome: u32 },
    /// `TRD_END`: trading ended.
    TradingEnded { market_id: u64 },
    /// `MKT_CLS`: a market was closed early.
    MarketClosed { market_id: u64, caller: Address },
    /// `MKT_CNCL`: a market was cancelled.
    MarketCancelled { market_id: u64, admin: Address },
    /// `REDEEM`: winning tokens were redeemed.
    Redeemed { market_id: u64, user: Address, payout: i128, amount: i128 },
    /// `SETTLE`: a position was settled.
    Settled { market_id: u64, user: Address, payout: i128 },
    /// `FEES_DST`: fees were distributed.
    FeesDistributed { market_id: u64, amount: i128 },
}

/// The storage of the contract and the ledger around one call.
#[derive(Debug)]
pub struct PredictionEnv {
    /// Ledger time in seconds.
    pub timestamp: u64,
    /// Addresses that authorised the call.
    pub auths: Vec<Address>,
    /// Events published so far, oldest first.
    pub events: Vec<PredictionEvent>,
    /// The contract administrator.
    pub admin: Option<Address>,
    /// Registered markets by ID.
    pub markets: Table<u64, Market>,
    /// All market IDs, oldest first.
    pub market_list: Vec<u64>,
    /// Outcome token balances by market, user and outcome.
    pub outcome_balances: Table<(u64, Address, u32), i128>,
    /// Liquidity pools by market.
    pub pools: Table<u64, LiquidityPool>,
    /// LP token balances by market and user.
    pub lp_balances: Table<(u64, Address), i128>,
    /// Total LP supply by market.
    pub lp_total_supply: Table<u64, i128>,
    /// User positions by market and user.
    pub positions: Table<(u64, Address), Position>,
    /// Open orders by market, oldest first.
    pub order_books: Table<u64, Vec<PredictionOrder>>,
    /// Orders by market and order ID.
    pub orders: Table<(u64, u64), PredictionOrder>,
    /// Next order ID by market; 1 where there is none.
    pub order_counters: Table<u64, u64>,
    /// Next market ID.
    pub next_market_id: u64,
    /// Oracle sources by market.
    pub oracle_sources: Table<u64, OracleSource>,
    /// Resolution data by market.
    pub resolutions: Table<u64, ResolutionData>,
    /// Disputes by market.
    pub disputes: Table<u64, Dispute>,
    /// Trading volume by market.
    pub trading_volume: Table<u64, i128>,
    /// Market IDs by category, oldest first.
    pub markets_by_category: Table<MarketCategory, Vec<u64>>,
}

/// What a `PredictionEnv` holds, with its tables as maps and its lists as sequences.
#[verifier::ext_equal]
pub struct PredictionState {
    pub timestamp: u64,
    pub auths: Seq<Address>,
    pub events: Seq<PredictionEvent>,
    pub admin: Option<Address>,
    pub markets: Map<u64, MarketView>,
    pub market_list: Seq<u64>,
    pub outcome_balances: Map<(u64, Address, u32), i128>,
    pub pools: Map<u64, LiquidityPoolView>,
    pub lp_balances: Map<(u64, Address), i128>,
    pub lp_total_supply: Map<u64, i128>,
    pub positions: Map<(u64, Address), PositionView>,
    pub order_books: Map<u64, Seq<PredictionOrder>>,
    pub orders: Map<(u64, u64), PredictionOrder>,
    pub order_counters: Map<u64, u64>,
    pub next_market_id: u64,
    pub oracle_sources: Map<u64, OracleSource>,
    pub resolutions: Map<u64, ResolutionData>,
    pub disputes: Map<u64, Dispute>,
    pub trading_volume: Map<u64, i128>,
    pub markets_by_category: Map<MarketCategory, Seq<u64>>,
}

impl View for PredictionEnv {
    type V = PredictionState;

    open spec fn view(&self) -> PredictionState {
        PredictionState {
            timestamp: self.timestamp,
            auths: self.auths@,
            events: self.events@,
            admin: self.admin,
            markets: self.markets@,
            market_list: self.market_list@,
            outcome_balances: self.outcome_balances@,
            pools: self.pools@,
            lp_balances: self.lp_balances@,
            lp_total_supply: self.lp_total_supply@,
            positions: self.positions@,
            order_books: self.order_books@,
            orders: self.orders@,
            order_counters: self.order_counters@,
            next_market_id: self.next_market_id,
            oracle_sources: self.oracle_sources@,
            resolutions: self.resolutions@,
            disputes: self.disputes@,
            trading_volume: self.trading_volume@,
            markets_by_category: self.markets_by_category@,
        }
    }
}

impl PositionView {
    /// The position has one entry price for each outcome.
    pub open spec fn wf(self) -> bool {
        self.entry_prices.len() == self.outcome_amounts.len()
    }
}

impl PredictionState {
    /// The state of a contract that was never called.
    pub open spec fn fresh(timestamp: u64) -> PredictionState {
        PredictionState {
            timestamp,
            auths: Seq::empty(),
            events: Seq::empty(),
            admin: None,
            markets: Map::empty(),
            market_list: Seq::empty(),
            outcome_balances: Map::empty(),
            pools: Map::empty(),
            lp_balances: Map::empty(),
            lp_total_supply: Map::empty(),
            positions: Map::empty(),
            order_books: Map::empty(),
            orders: Map::empty(),
            order_counters: Map::empty(),
            next_market_id: 1,
            oracle_sources: Map::empty(),
            resolutions: Map::empty(),
            disputes: Map::empty(),
            trading_volume: Map::empty(),
            markets_by_category: Map::empty(),
        }
    }

    /// The address authorised the call.
    pub open spec fn authorized(self, a: Address) -> bool {
        self.auths.contains(a)
    }

    /// The address is the administrator.
    pub open spec fn is_admin(self, a: Address) -> bool {
        self.admin == Some(a)
    }

    /// Every record stands under its own key and is well formed.
    pub open spec fn wf(self) -> bool {
        &&& forall|id: u64| #[trigger]
            self.markets.contains_key(id) ==> self.markets[id].market_id == id && 2
                <= self.markets[id].outcomes.len() <= MAX_OUTCOMES_PER_MARKET
        &&& forall|id: u64| #[trigger]
            self.pools.contains_key(id) ==> self.pools[id].market_id == id && self.pools[id].wf()
        &&& forall|k: (u64, Address)| #[trigger]
            self.positions.contains_key(k) ==> self.positions[k].market_id == k.0
                && self.positions[k].user == k.1 && self.positions[k].wf()
        &&& forall|id: u64| #[trigger]
            self.order_books.contains_key(id) ==> book_wf(self.order_books[id])
    }

    /// The state with one more event.
    pub open spec fn emit(self, e: PredictionEvent) -> PredictionState {
        PredictionState { events: self.events.push(e), ..self }
    }
}

impl PredictionEnv {
    /// The storage of a contract that was never called.
    pub fn new(timestamp: u64) -> (env: PredictionEnv)
        ensures
            env@ == PredictionState::fresh(timestamp),
            env@.wf(),
    {
        let env = PredictionEnv {
            timestamp,
            auths: Vec::new(),
            events: Vec::new(),
            admin: None,
            markets: Table::new(),
            market_list: Vec::new(),
            outcome_balances: Table::new(),
            pools: Table::new(),
            lp_balances: Table::new(),
            lp_total_supply: Table::new(),
            positions: Table::new(),
            order_books: Table::new(),
            orders: Table::new(),
            order_counters: Table::new(),
            next_market_id: 1,
            oracle_sources: Table::new(),
            resolutions: Table::new(),
            disputes: Table::new(),
            trading_volume: Table::new(),
            markets_by_category: Table::new(),
        };
        assert(env@ =~= PredictionState::fresh(timestamp));
        env
    }

    /// Whether the address authorised the call.
    pub fn is_authorized(&self, a: Address) -> (b: bool)
        ensures
            b == self@.authorized(a),
    {
        has_address(&self.auths, a)
    }

    /// Publishes an event.
    pub(crate) fn publish(&mut self, e: PredictionEvent)
        ensures
            final(self)@ == old(self)@.emit(e),
    {
        self.events.push(e);
        assert(self@ =~= old(self)@.emit(e));
    }
}

} // verus!
