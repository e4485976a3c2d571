//! Data types of the price feed.

use vstd::prelude::*;

use crate::base::address::Address;
use crate::base::symbol::Symbol;

verus! {

/// Maximum allowed price deviation in basis points (e.g., 5000 = 50%) before
/// a price is flagged as anomalous.
pub const DEFAULT_MAX_DEVIATION_BPS: i128 = 5000;

/// Default time-to-live for cached prices in seconds (5 minutes).
pub const DEFAULT_CACHE_TTL_SECONDS: u64 = 300;

/// Maximum number of historical price points stored per asset.
pub const MAX_PRICE_HISTORY: u32 = 100;

/// Number of decimals used for price representation (8 decimals = 1e8).
pub const PRICE_PRECISION: i128 = 100_000_000;

/// Aggregation strategy when multiple oracle providers report prices.
#[derive(Clone, Copy, Debug, PartialEq, Eq, Structural)]
pub enum AggregationMethod {
    /// Use the median price across all sources (resistant to outliers).
    Median,
    /// Use the most recently updated price.
    Latest,
    /// Time-weighted average price over a configurable window.
    TWAP,
    /// Weighted average using provider trust weights.
    WeightedAverage,
}

/// Status of a price data point.
#[derive(Clone, Copy, Debug, PartialEq, Eq, Structural)]
pub enum PriceStatus {
    /// Price is fresh and valid.
    Fresh,
    /// Price has exceeded the configured TTL.
    Stale,
    /// Price was flagged as anomalous (deviates too much from the median/mean).
    Anomalous,
    /// Price is from a fallback source (primary oracle failed).
    Fallback,
    /// No price data available.
    Unknown,
}

/// An oracle provider registration.
#[derive(Clone, Copy, Debug, PartialEq, Eq, Structural)]
pub struct OracleProvider {
    /// Unique identifier for this oracle provider.
    pub provider_id: Symbol,
    /// Human-readable name.
    pub name: Symbol,
    /// Contract address that serves as the oracle endpoint.
    pub endpoint: Address,
    /// Trust weight for weighted-average aggregation (0–10 000 bps).
    pub trust_weight: u32,
    /// Whether this oracle is currently active.
    pub is_active: bool,
    /// Maximum acceptable staleness in seconds before this oracle is skipped.
    pub max_staleness: u64,
}

impl View for OracleProvider {
    type V = OracleProvider;

    open spec fn view(&self) -> OracleProvider {
        *self
    }
}

/// A single price observation from one oracle provider.
#[derive(Clone, Copy, Debug, PartialEq, Eq, Structural)]
pub struct PriceDataPoint {
    /// The asset being priced (e.g., "USDC", "ETH").
    pub asset: Symbol,
    /// The oracle provider that reported this price.
    pub provider_id: Symbol,
    /// The price in the smallest unit (scaled by PRICE_PRECISION).
    pub price: i128,
    /// Unix timestamp when the price was observed.
    pub timestamp: u64,
    /// Confidence interval in basis points around the price.
    pub confidence_bps: u32,
    /// Status of this price point.
    pub status: PriceStatus,
}

impl View for PriceDataPoint {
    type V = PriceDataPoint;

    open spec fn view(&self) -> PriceDataPoint {
        *self
    }
}

/// Aggregated price for an asset across all oracle sources.
#[derive(Clone, Copy, Debug, PartialEq, Eq, Structural)]
pub struct AggregatedPrice {
    /// The asset being priced.
    pub asset: Symbol,
    /// The aggregated price (scaled by PRICE_PRECISION).
    pub price: i128,
    /// Unix timestamp of the aggregation.
    pub timestamp: u64,
    /// Number of oracle sources that contributed to this price.
    pub num_sources: u32,
    /// Aggregation method used.
    pub method: AggregationMethod,
    /// Overall status (worst status among contributors).
    pub status: PriceStatus,
}

impl View for AggregatedPrice {
    type V = AggregatedPrice;

    open spec fn view(&self) -> AggregatedPrice {
        *self
    }
}

/// A historical price entry for trend analysis.
#[derive(Clone, Copy, Debug, PartialEq, Eq, Structural)]
pub struct PriceHistoryEntry {
    /// The aggregated price at this point in time.
    pub price: i128,
    /// Unix timestamp of this history entry.
    pub timestamp: u64,
    /// Number of sources that contributed.
    pub num_sources: u32,
}

impl View for PriceHistoryEntry {
    type V = PriceHistoryEntry;

    open spec fn view(&self) -> PriceHistoryEntry {
        *self
    }
}

/// Cache entry for a price feed, tracking freshness.
#[derive(Clone, Copy, Debug, PartialEq, Eq, Structural)]
pub struct CachedPrice {
    /// The cached aggregated price.
    pub aggregated: AggregatedPrice,
    /// Unix timestamp when the cache entry was created.
    pub cached_at: u64,
    /// Time-to-live in seconds for this cache entry.
    pub ttl_seconds: u64,
}

impl View for CachedPrice {
    type V = CachedPrice;

    open spec fn view(&self) -> CachedPrice {
        *self
    }
}

/// Configuration for price validation.
#[derive(Clone, Copy, Debug, PartialEq, Eq, Structural)]
pub struct PriceValidationConfig {
    /// Maximum allowed deviation from the median in basis points.
    /// Prices deviating more than this are flagged as anomalous.
    pub max_deviation_bps: i128,
    /// Default cache TTL in seconds.
    pub default_ttl_seconds: u64,
    /// Maximum number of history entries per asset.
    pub max_history_entries: u32,
    /// Whether to emit events on anomalous price detection.
    pub alert_on_anomaly: bool,
}

impl View for PriceValidationConfig {
    type V = PriceValidationConfig;

    open spec fn view(&self) -> PriceValidationConfig {
        *self
    }
}

/// Batch request item for fetching multiple asset prices at once.
#[derive(Clone, Copy, Debug, PartialEq, Eq, Structural)]
pub struct BatchPriceRequest {
    /// The asset to request a price for.
    pub asset: Symbol,
    /// Override for the aggregation method; without one the default applies.
    pub method_override: Option<AggregationMethod>,
}

impl View for BatchPriceRequest {
    type V = BatchPriceRequest;

    open spec fn view(&self) -> BatchPriceRequest {
        *self
    }
}

/// Batch response item with the aggregated price.
#[derive(Clone, Copy, Debug, PartialEq, Eq, Structural)]
pub struct BatchPriceResponse {
    /// The asset.
    pub asset: Symbol,
    /// The aggregated price, if there is one.
    pub price: Option<AggregatedPrice>,
    /// Whether a price was found for this asset.
    pub found: bool,
}

impl View for BatchPriceResponse {
    type V = BatchPriceResponse;

    open spec fn view(&self) -> BatchPriceResponse {
        *self
    }
}

/// Errors returned by the price feed contract.
#[derive(Clone, Copy, Debug, PartialEq, Eq, Structural)]
pub enum PriceFeedError {
    /// Caller is not the admin.
    Unauthorized,
    /// Oracle provider already registered.
    OracleAlreadyExists,
    /// Oracle provider not found.
    OracleNotFound,
    /// Price data is stale (exceeded TTL).
    PriceStale,
    /// Price flagged as anomalous.
    PriceAnomalous,
    /// No price data available for the asset.
    NoPriceData,
    /// No fallback price set for the asset.
    NoFallbackPrice,
    /// Asset not being tracked.
    AssetNotTracked,
    /// Batch request contains too many items.
    BatchTooLarge,
    /// Invalid configuration values.
    InvalidConfig,
    /// Oracle endpoint is not active.
    OracleInactive,
}

impl PriceFeedError {
    /// The number by which a caller outside knows the value.
    pub open spec fn spec_code(self) -> u32 {
        match self {
            PriceFeedError::Unauthorized => 1,
            PriceFeedError::OracleAlreadyExists => 2,
            PriceFeedError::OracleNotFound => 3,
            PriceFeedError::PriceStale => 4,
            PriceFeedError::PriceAnomalous => 5,
            PriceFeedError::NoPriceData => 6,
            PriceFeedError::NoFallbackPrice => 7,
            PriceFeedError::AssetNotTracked => 8,
            PriceFeedError::BatchTooLarge => 9,
            PriceFeedError::InvalidConfig => 10,
            PriceFeedError::OracleInactive => 11,
        }
    }

    /// The number by which a caller outside knows the value.
    pub fn code(self) -> (n: u32)
        ensures
            n == self.spec_code(),
    {
        match self {
            PriceFeedError::Unauthorized => 1,
            PriceFeedError::OracleAlreadyExists => 2,
            PriceFeedError::OracleNotFound => 3,
            PriceFeedError::PriceStale => 4,
            PriceFeedError::PriceAnomalous => 5,
            PriceFeedError::NoPriceData => 6,
            PriceFeedError::NoFallbackPrice => 7,
            PriceFeedError::AssetNotTracked => 8,
            PriceFeedError::BatchTooLarge => 9,
            PriceFeedError::InvalidConfig => 10,
            PriceFeedError::OracleInactive => 11,
        }
    }
}

} // verus!
