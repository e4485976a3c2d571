//! Storage, events and ledger data of the price feed.

use vstd::prelude::*;

use crate::base::address::Address;
use crate::base::symbol::Symbol;
use crate::base::table::Table;
use crate::base::vecs::has_address;
use crate::pricefeed::records::{
    AggregationMethod, CachedPrice, OracleProvider, PriceDataPoint, PriceHistoryEntry,
    PriceValidationConfig, DEFAULT_CACHE_TTL_SECONDS, DEFAULT_MAX_DEVIATION_BPS,
    MAX_PRICE_HISTORY,
};
use crate::pricefeed::validation::default_validation_config;

verus! {

/// An event that the contract publishes.
#[derive(Clone, Copy, Debug, PartialEq, Eq, Structural)]
pub enum PriceFeedEvent {
    /// `ORC_ADD`: a provider was registered.
    ProviderAdded { provider_id: Symbol, name: Symbol },
    /// `ORC_ERR`: a provider was not registered.
    ProviderRefused { code: u32 },
    /// `ORC_UPD`: a provider was updated.
    ProviderUpdated { provider_id: Symbol },
    /// `ORC_RMV`: a provider was removed.
    ProviderRemoved { provider_id: Symbol },
    /// `PX_ERR`: a price was refused.
    PriceRefused { asset: Symbol, code: u32 },
    /// `PX_UPD`: a price was submitted.
    PriceUpdated { asset: Symbol, price: i128 },
    /// `PX_BATCH`: prices were submitted in a batch.
    BatchSubmitted { count: u32 },
    /// `PX_ANOM`: a price was found anomalous.
    AnomalyDetected { asset: Symbol, provider_id: Symbol, price: i128 },
    /// `FB_SET`: a fallback price was set.
    FallbackSet { asset: Symbol, price: i128 },
    /// `ASSET_ADD`: an asset is tracked.
    AssetTracked { asset: Symbol },
}

/// The storage of the contract and the ledger around one call.
#[derive(Debug)]
pub struct PriceFeedEnv {
    /// Ledger time in seconds.
    pub timestamp: u64,
    /// Addresses that authorised the call.
    pub auths: Vec<Address>,
    /// Events published so far, oldest first.
    pub events: Vec<PriceFeedEvent>,
    /// Admin address set by `initialize`.
    pub admin: Option<Address>,
    /// Validation configuration.
    pub config: PriceValidationConfig,
    /// Global aggregation method default.
    pub default_method: AggregationMethod,
    /// Registered oracle providers, oldest first.
    pub providers: Vec<OracleProvider>,
    /// Most recent price of an asset from each provider.
    pub data_points: Table<(Symbol, Symbol), PriceDataPoint>,
    /// Latest cached price per asset.
    pub cached: Table<Symbol, CachedPrice>,
    /// Price history per asset, oldest first.
    pub history: Table<Symbol, Vec<PriceHistoryEntry>>,
    /// Tracked assets, oldest first.
    pub watched: Vec<Symbol>,
    /// Fallback prices set by the admin for emergency use.
    pub fallbacks: Table<Symbol, i128>,
}

/// What a `PriceFeedEnv` holds, with its tables as maps and its lists as sequences.
#[verifier::ext_equal]
pub struct PriceFeedState {
    pub timestamp: u64,
    pub auths: Seq<Address>,
    pub events: Seq<PriceFeedEvent>,
    pub admin: Option<Address>,
    pub config: PriceValidationConfig,
    pub default_method: AggregationMethod,
    pub providers: Seq<OracleProvider>,
    pub data_points: Map<(Symbol, Symbol), PriceDataPoint>,
    pub cached: Map<Symbol, CachedPrice>,
    pub history: Map<Symbol, Seq<PriceHistoryEntry>>,
    pub watched: Seq<Symbol>,
    pub fallbacks: Map<Symbol, i128>,
}

impl View for PriceFeedEnv {
    type V = PriceFeedState;

    open spec fn view(&self) -> PriceFeedState {
        PriceFeedState {
            timestamp: self.timestamp,
            auths: self.auths@,
            events: self.events@,
            admin: self.admin,
            config: self.config,
            default_method: self.default_method,
            providers: self.providers@,
            data_points: self.data_points@,
            cached: self.cached@,
            history: self.history@,
            watched: self.watched@,
            fallbacks: self.fallbacks@,
        }
    }
}

impl PriceFeedState {
    /// The state of a contract that was never called.
    pub open spec fn fresh(timestamp: u64) -> PriceFeedState {
        PriceFeedState {
            timestamp,
            auths: Seq::empty(),
            events: Seq::empty(),
            admin: None,
            config: PriceValidationConfig {
                max_deviation_bps: DEFAULT_MAX_DEVIATION_BPS,
                default_ttl_seconds: DEFAULT_CACHE_TTL_SECONDS,
                max_history_entries: MAX_PRICE_HISTORY,
                alert_on_anomaly: true,
            },
            default_method: AggregationMethod::Median,
            providers: Seq::empty(),
            data_points: Map::empty(),
            cached: Map::empty(),
            history: Map::empty(),
            watched: Seq::empty(),
            fallbacks: Map::empty(),
        }
    }

    /// The address authorised the call.
    pub open spec fn authorized(self, a: Address) -> bool {
        self.auths.contains(a)
    }

    /// The address is the administrator, who authorised the call.
    pub open spec fn admin_signed(self, a: Address) -> bool {
        self.admin == Some(a) && self.authorized(a)
    }

    /// No two providers have the same ID, no asset is tracked twice, and the
    /// histories are within their limit.
    pub open spec fn wf(self) -> bool {
        &&& forall|i: int, j: int|
            0 <= i < j < self.providers.len() ==> (#[trigger] self.providers[i]).provider_id != (
            #[trigger] self.providers[j]).provider_id
        &&& self.providers.len() <= u32::MAX
        &&& self.watched.no_duplicates()
        &&& forall|asset: Symbol| #[trigger]
            self.history.contains_key(asset) ==> self.history[asset].len() <= MAX_PRICE_HISTORY
    }

    /// The state after an event was published.
    pub open spec fn emit(self, e: PriceFeedEvent) -> PriceFeedState {
        PriceFeedState { events: self.events.push(e), ..self }
    }
}

impl PriceFeedEnv {
    /// The storage of a contract that was never called.
    pub fn new(timestamp: u64) -> (env: PriceFeedEnv)
        ensures
            env@ == PriceFeedState::fresh(timestamp),
            env@.wf(),
    {
        let env = PriceFeedEnv {
            timestamp,
            auths: Vec::new(),
            events: Vec::new(),
            admin: None,
            config: default_validation_config(),
            default_method: AggregationMethod::Median,
            providers: Vec::new(),
            data_points: Table::new(),
            cached: Table::new(),
            history: Table::new(),
            watched: Vec::new(),
            fallbacks: Table::new(),
        };
        assert(env@ =~= PriceFeedState::fresh(timestamp));
        env
    }

    /// Whether the address authorised the call.
    pub fn is_authorized(&self, a: Address) -> (b: bool)
        ensures
            b == self@.authorized(a),
    {
        has_address(&self.auths, a)
    }

    /// Publish an event.
    pub(crate) fn publish(&mut self, e: PriceFeedEvent)
        ensures
            final(self)@ == old(self)@.emit(e),
    {
        self.events.push(e);
        assert(self@ =~= old(self)@.emit(e));
    }
}

} // verus!
