//! Storage, events and ledger data of the asset contract.

use vstd::prelude::*;

use crate::asset::records::{Asset, AssetPrice, AssetType, RiskLevel, MAX_ASSETS_PER_PORTFOLIO};
use crate::base::address::Address;
use crate::base::symbol::Symbol;
use crate::base::table::{value_or, Table};
use crate::base::vecs::has_address;

verus! {

/// An event that the contract publishes.
#[derive(Clone, Copy, Debug, PartialEq, Eq, Structural)]
pub enum AssetEvent {
    /// `ASSET_ADD`: an asset was added.
    Added { portfolio_id: Symbol, symbol: Symbol, asset_type: AssetType },
    /// `ASSET_RM`: an asset was removed.
    Removed { portfolio_id: Symbol, symbol: Symbol },
    /// `BAL_UPD`: a balance was updated.
    BalanceUpdated {
        portfolio_id: Symbol,
        symbol: Symbol,
        old_balance: i128,
        new_balance: i128,
    },
    /// `META_UPD`: an asset's metadata was updated.
    MetadataUpdated {
        portfolio_id: Symbol,
        symbol: Symbol,
        name: Symbol,
        risk_level: RiskLevel,
        asset_type: AssetType,
    },
    /// `PRICE_SET`: a price was set.
    PriceSet { symbol: Symbol, price: i128 },
}

/// The storage of the contract and the ledger around one call.
#[derive(Debug)]
pub struct AssetEnv {
    /// Ledger time in seconds.
    pub timestamp: u64,
    /// Addresses that authorised the call.
    pub auths: Vec<Address>,
    /// Events published so far, oldest first.
    pub events: Vec<AssetEvent>,
    /// Admin address set by `initialize`.
    pub admin: Option<Address>,
    /// Assets by portfolio and symbol.
    pub entries: Table<(Symbol, Symbol), Asset>,
    /// Assets of a portfolio, oldest first.
    pub portfolio_assets: Table<Symbol, Vec<Asset>>,
    /// Prices by asset symbol.
    pub prices: Table<Symbol, AssetPrice>,
    /// All registered portfolios, oldest first.
    pub portfolios: Vec<Symbol>,
}

/// What a `AssetEnv` holds, with its tables as maps and its lists as sequences.
#[verifier::ext_equal]
pub struct AssetState {
    pub timestamp: u64,
    pub auths: Seq<Address>,
    pub events: Seq<AssetEvent>,
    pub admin: Option<Address>,
    pub entries: Map<(Symbol, Symbol), Asset>,
    pub portfolio_assets: Map<Symbol, Seq<Asset>>,
    pub prices: Map<Symbol, AssetPrice>,
    pub portfolios: Seq<Symbol>,
}

impl View for AssetEnv {
    type V = AssetState;

    open spec fn view(&self) -> AssetState {
        AssetState {
            timestamp: self.timestamp,
            auths: self.auths@,
            events: self.events@,
            admin: self.admin,
            entries: self.entries@,
            portfolio_assets: self.portfolio_assets@,
            prices: self.prices@,
            portfolios: self.portfolios@,
        }
    }
}

/// Some asset of the list has the symbol.
pub open spec fn lists(list: Seq<Asset>, symbol: Symbol) -> bool {
    exists|i: int| 0 <= i < list.len() && (#[trigger] list[i]).symbol == symbol
}

/// No two assets of the list have the same symbol.
pub open spec fn distinct(list: Seq<Asset>) -> bool {
    forall|i: int, j: int|
        0 <= i < j < list.len() ==> (#[trigger] list[i]).symbol != (#[trigger] list[j]).symbol
}

impl AssetState {
    /// The state of a contract that was never called.
    pub open spec fn fresh(timestamp: u64) -> AssetState {
        AssetState {
            timestamp,
            auths: Seq::empty(),
            events: Seq::empty(),
            admin: None,
            entries: Map::empty(),
            portfolio_assets: Map::empty(),
            prices: Map::empty(),
            portfolios: Seq::empty(),
        }
    }

    /// The address authorised the call.
    pub open spec fn authorized(self, a: Address) -> bool {
        self.auths.contains(a)
    }

    /// The assets of a portfolio.
    pub open spec fn assets_of(self, pid: Symbol) -> Seq<Asset> {
        value_or(self.portfolio_assets, pid, Seq::empty())
    }

    /// The list of a portfolio's assets and the entries by symbol say the same,
    /// each asset is listed once, and the list is within its limit.
    pub open spec fn listed_right(self, pid: Symbol) -> bool {
        let list = self.assets_of(pid);
        &&& list.len() <= MAX_ASSETS_PER_PORTFOLIO
        &&& distinct(list)
        &&& forall|i: int|
            0 <= i < list.len() ==> self.entries.contains_key((pid, (#[trigger] list[i]).symbol))
                && self.entries[(pid, list[i].symbol)] == list[i]
        &&& forall|symbol: Symbol| #[trigger]
            self.entries.contains_key((pid, symbol)) ==> lists(list, symbol)
    }

    /// Every portfolio's list is right, every asset stands under its symbol, no
    /// balance is negative and every price is positive.
    pub open spec fn wf(self) -> bool {
        &&& forall|pid: Symbol| #[trigger] self.listed_right(pid)
        &&& forall|k: (Symbol, Symbol)| #[trigger]
            self.entries.contains_key(k) ==> self.entries[k].symbol == k.1 && self.entries[k].balance
                >= 0
        &&& forall|symbol: Symbol| #[trigger]
            self.prices.contains_key(symbol) ==> self.prices[symbol].price > 0
    }

    /// The state after an event was published.
    pub open spec fn emit(self, e: AssetEvent) -> AssetState {
        AssetState { events: self.events.push(e), ..self }
    }
}

impl AssetEnv {
    /// The storage of a contract that was never called.
    pub fn new(timestamp: u64) -> (env: AssetEnv)
        ensures
            env@ == AssetState::fresh(timestamp),
            env@.wf(),
    {
        let env = AssetEnv {
            timestamp,
            auths: Vec::new(),
            events: Vec::new(),
            admin: None,
            entries: Table::new(),
            portfolio_assets: Table::new(),
            prices: Table::new(),
            portfolios: Vec::new(),
        };
        assert(env@ =~= AssetState::fresh(timestamp));
        env
    }

    /// Whether the address authorised the call.
    pub fn is_authorized(&self, a: Address) -> (b: bool)
        ensures
            b == self@.authorized(a),
    {
        has_address(&self.auths, a)
    }

    /// Publish an event.
    pub(crate) fn publish(&mut self, e: AssetEvent)
        ensures
            final(self)@ == old(self)@.emit(e),
    {
        self.events.push(e);
        assert(self@ =~= old(self)@.emit(e));
    }
}

} // verus!
