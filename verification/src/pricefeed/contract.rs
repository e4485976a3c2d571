//! The price feed contract.

use vstd::prelude::*;

use crate::base::address::Address;
use crate::base::symbol::{sym, symbol_short, Symbol};
use crate::base::vecs::{copy_vec, has_symbol};
use crate::pricefeed::aggregation::lemma_same_sources;
use crate::pricefeed::oracle::{
    active_among, batch_stored, fetched, fetched_upto, price_stored, provider_of,
    provider_registered, provider_removed, provider_updated, submission_fault, OracleManager,
};
use crate::pricefeed::records::{
    AggregatedPrice, AggregationMethod, BatchPriceRequest, BatchPriceResponse, CachedPrice,
    OracleProvider, PriceDataPoint, PriceFeedError, PriceHistoryEntry, PriceValidationConfig,
};
use crate::pricefeed::state::{PriceFeedEnv, PriceFeedEvent, PriceFeedState};
use crate::pricefeed::validation::{
    after_resolving, anomalous, calculate_median, can_resolve, deviation_fits, effective,
    get_fallback_price, get_price_history, history_of, is_anomalous, is_stale, judged, median,
    record_price_history, recorded, resolve_price, resolve_with_method, resolved, stale, validated,
};

verus! {

/// Price Feed Oracle contract for AstraPort.
///
/// Manages oracle providers, ingests price data, validates and caches prices,
/// and provides aggregated prices for portfolio calculations, drift detection,
/// and rebalancing decisions.
pub struct PriceFeedContract;

// ---------------------------------------------------------------------------
// What the calls do
// ---------------------------------------------------------------------------

/// What registering a provider does; a refused one is told by an event.
pub open spec fn oracle_registered(s: PriceFeedState, p: OracleProvider) -> (PriceFeedState, Symbol) {
    match provider_registered(s, p) {
        Ok((t, id)) => (
            t.emit(PriceFeedEvent::ProviderAdded { provider_id: id, name: p.name }),
            sym("ok"@),
        ),
        Err(e) => (s.emit(PriceFeedEvent::ProviderRefused { code: e.spec_code() }), sym("err"@)),
    }
}

/// What updating a provider does.
pub open spec fn oracle_updated(s: PriceFeedState, p: OracleProvider) -> (PriceFeedState, Symbol) {
    match provider_updated(s, p) {
        Ok((t, id)) => (t.emit(PriceFeedEvent::ProviderUpdated { provider_id: id }), sym("ok"@)),
        Err(_) => (s, sym("err"@)),
    }
}

/// What removing a provider does.
pub open spec fn oracle_removed(s: PriceFeedState, id: Symbol) -> (PriceFeedState, Symbol) {
    match provider_removed(s, id) {
        Ok((t, _)) => (t.emit(PriceFeedEvent::ProviderRemoved { provider_id: id }), sym("ok"@)),
        Err(_) => (s, sym("err"@)),
    }
}

/// What submitting a price does: that of a registered and active provider is
/// stored, any other is told by an event.
pub open spec fn price_submitted(s: PriceFeedState, dp: PriceDataPoint) -> (PriceFeedState, Symbol) {
    match submission_fault(s, dp.provider_id) {
        Some(e) => (
            s.emit(PriceFeedEvent::PriceRefused { asset: dp.asset, code: e.spec_code() }),
            sym("err"@),
        ),
        None => (
            price_stored(s, dp).emit(
                PriceFeedEvent::PriceUpdated { asset: dp.asset, price: dp.price },
            ),
            sym("ok"@),
        ),
    }
}

/// What submitting a batch of prices does.
pub open spec fn batch_submitted(s: PriceFeedState, points: Seq<PriceDataPoint>) -> PriceFeedState {
    let b = batch_stored(s, points, points.len() as int);
    b.0.emit(PriceFeedEvent::BatchSubmitted { count: b.1 as u32 })
}

/// The state after a price was cached and recorded.
pub open spec fn kept(s: PriceFeedState, asset: Symbol, price: AggregatedPrice) -> PriceFeedState {
    recorded(
        PriceFeedState {
            cached: s.cached.insert(
                asset,
                CachedPrice {
                    aggregated: price,
                    cached_at: s.timestamp,
                    ttl_seconds: s.config.default_ttl_seconds,
                },
            ),
            ..s
        },
        asset,
        price.price,
        price.num_sources,
    )
}

/// What asking for a price does: where there is one, it is cached and recorded.
pub open spec fn priced(s: PriceFeedState, asset: Symbol) -> PriceFeedState {
    match resolved(s, asset, s.default_method) {
        Ok(price) => kept(after_resolving(s, asset), asset, price),
        Err(_) => after_resolving(s, asset),
    }
}

/// What asking for a price by a method does: one from oracles is cached and
/// recorded, a fallback price is not.
pub open spec fn priced_by(s: PriceFeedState, asset: Symbol, method: AggregationMethod) -> PriceFeedState {
    match resolved(s, asset, method) {
        Ok(price) => if fetched(s, asset).len() == 0 {
            s
        } else {
            kept(after_resolving(s, asset), asset, price)
        },
        Err(_) => s,
    }
}

/// The method that a request of a batch asks for.
pub open spec fn method_of(s: PriceFeedState, request: BatchPriceRequest) -> AggregationMethod {
    match request.method_override {
        Some(m) => m,
        None => s.default_method,
    }
}

/// The response to a request of a batch.
pub open spec fn response_to(s: PriceFeedState, request: BatchPriceRequest) -> BatchPriceResponse {
    match resolved(s, request.asset, method_of(s, request)) {
        Ok(price) => BatchPriceResponse { asset: request.asset, price: Some(price), found: true },
        Err(_) => BatchPriceResponse { asset: request.asset, price: None, found: false },
    }
}

/// The state after the first `n` requests of a batch.
pub open spec fn batch_priced(
    s: PriceFeedState,
    requests: Seq<BatchPriceRequest>,
    n: int,
) -> PriceFeedState
    decreases n,
{
    if n <= 0 {
        s
    } else {
        let before = batch_priced(s, requests, n - 1);
        priced_by(before, requests[n - 1].asset, method_of(s, requests[n - 1]))
    }
}

/// The cached price is within its time-to-live.
pub open spec fn cache_is_fresh(s: PriceFeedState, asset: Symbol) -> bool {
    s.cached.contains_key(asset) && s.timestamp - s.cached[asset].cached_at
        <= s.cached[asset].ttl_seconds
}

/// What tracking an asset does.
pub open spec fn asset_watched(s: PriceFeedState, asset: Symbol) -> PriceFeedState {
    if s.watched.contains(asset) {
        s
    } else {
        PriceFeedState { watched: s.watched.push(asset), ..s }.emit(
            PriceFeedEvent::AssetTracked { asset },
        )
    }
}

/// The position of the first symbol from `from` on, or the length.
pub open spec fn symbol_index(list: Seq<Symbol>, x: Symbol, from: int) -> int
    decreases list.len() - from,
{
    if from >= list.len() {
        list.len() as int
    } else if list[from] == x {
        from
    } else {
        symbol_index(list, x, from + 1)
    }
}

/// What no longer tracking an asset does.
pub open spec fn asset_unwatched(s: PriceFeedState, asset: Symbol) -> PriceFeedState {
    let i = symbol_index(s.watched, asset, 0);
    if i < s.watched.len() {
        PriceFeedState { watched: s.watched.remove(i), ..s }
    } else {
        s
    }
}

/// The states have the same sources of prices: time, providers, prices,
/// configuration, default method and fallback prices.
pub open spec fn same_sources(s: PriceFeedState, t: PriceFeedState) -> bool {
    &&& s.timestamp == t.timestamp
    &&& s.providers == t.providers
    &&& s.data_points == t.data_points
    &&& s.config == t.config
    &&& s.default_method == t.default_method
    &&& s.fallbacks == t.fallbacks
}

proof fn lemma_same_fetched(s: PriceFeedState, t: PriceFeedState, asset: Symbol, n: int)
    requires
        same_sources(s, t),
        0 <= n <= s.providers.len(),
    ensures
        fetched_upto(s, asset, n) == fetched_upto(t, asset, n),
    decreases n,
{
    if n > 0 {
        lemma_same_fetched(s, t, asset, n - 1);
    }
}

/// What a price is depends on the sources alone.
pub proof fn lemma_same_prices(
    s: PriceFeedState,
    t: PriceFeedState,
    asset: Symbol,
    method: AggregationMethod,
)
    requires
        same_sources(s, t),
    ensures
        resolved(s, asset, method) == resolved(t, asset, method),
        can_resolve(s, asset, method) == can_resolve(t, asset, method),
{
    lemma_same_fetched(s, t, asset, s.providers.len() as int);
    let points = fetched(s, asset);
    assert(validated(s, points) =~= validated(t, points)) by {
        if points.len() > 0 {
            let m = median(points)->Some_0;
            assert forall|i: int| 0 <= i < points.len() implies judged(s, #[trigger] points[i], m)
                == judged(t, points[i], m) by {}
        }
    }
    lemma_same_sources(s, t, effective(s, points), method);
}

impl PriceFeedContract {
    // =======================================================================
    // Lifecycle
    // =======================================================================

    /// Initialize the price feed contract with an admin address.
    ///
    /// Can only be called once.
    pub fn initialize(env: &mut PriceFeedEnv, admin: Address) -> (r: Symbol)
        requires
            old(env)@.admin is None,
        ensures
            final(env)@ == (PriceFeedState { admin: Some(admin), ..old(env)@ }),
            r == sym("ok"@),
            old(env)@.wf() ==> final(env)@.wf(),
    {
        env.admin = Some(admin);
        assert(env@ =~= (PriceFeedState { admin: Some(admin), ..old(env)@ }));
        symbol_short("ok")
    }

    // =======================================================================
    // Configuration
    // =======================================================================

    /// Update the validation configuration (admin only).
    pub fn set_validation_config(
        env: &mut PriceFeedEnv,
        admin: Address,
        config: PriceValidationConfig,
    ) -> (r: Symbol)
        requires
            old(env)@.admin_signed(admin),
        ensures
            final(env)@ == (PriceFeedState { config, ..old(env)@ }),
            r == sym("ok"@),
            old(env)@.wf() ==> final(env)@.wf(),
    {
        env.config = config;
        assert(env@ =~= (PriceFeedState { config, ..old(env)@ }));
        symbol_short("ok")
    }

    /// Get the current validation configuration.
    pub fn get_validation_config(env: &PriceFeedEnv) -> (c: PriceValidationConfig)
        ensures
            c == env@.config,
    {
        env.config
    }

    /// Set the default aggregation method (admin only).
    pub fn set_default_aggregation_method(
        env: &mut PriceFeedEnv,
        admin: Address,
        method: AggregationMethod,
    ) -> (r: Symbol)
        requires
            old(env)@.admin_signed(admin),
        ensures
            final(env)@ == (PriceFeedState { default_method: method, ..old(env)@ }),
            r == sym("ok"@),
            old(env)@.wf() ==> final(env)@.wf(),
    {
        env.default_method = method;
        assert(env@ =~= (PriceFeedState { default_method: method, ..old(env)@ }));
        symbol_short("ok")
    }

    /// Get the default aggregation method.
    pub fn get_default_aggregation_method(env: &PriceFeedEnv) -> (m: AggregationMethod)
        ensures
            m == env@.default_method,
    {
        env.default_method
    }

    // =======================================================================
    // Oracle provider management
    // =======================================================================

    /// Register a new oracle provider (admin only).
    pub fn register_oracle(env: &mut PriceFeedEnv, admin: Address, provider: OracleProvider) -> (r:
        Symbol)
        requires
            old(env)@.admin_signed(admin),
            old(env)@.wf(),
            old(env)@.providers.len() < u32::MAX,
        ensures
            (final(env)@, r) == oracle_registered(old(env)@, provider),
            final(env)@.wf(),
    {
        match OracleManager::register_provider(env, provider) {
            Ok(id) => {
                env.publish(
                    PriceFeedEvent::ProviderAdded { provider_id: id, name: provider.name },
                );
                symbol_short("ok")
            },
            Err(e) => {
                env.publish(PriceFeedEvent::ProviderRefused { code: e.code() });
                symbol_short("err")
            },
        }
    }

    /// Update an existing oracle provider (admin only).
    pub fn update_oracle(env: &mut PriceFeedEnv, admin: Address, provider: OracleProvider) -> (r:
        Symbol)
        requires
            old(env)@.admin_signed(admin),
            old(env)@.wf(),
        ensures
            (final(env)@, r) == oracle_updated(old(env)@, provider),
            final(env)@.wf(),
    {
        match OracleManager::update_provider(env, provider) {
            Ok(id) => {
                env.publish(PriceFeedEvent::ProviderUpdated { provider_id: id });
                symbol_short("ok")
            },
            Err(_) => symbol_short("err"),
        }
    }

    /// Remove an oracle provider (admin only).
    pub fn remove_oracle(env: &mut PriceFeedEnv, admin: Address, provider_id: Symbol) -> (r: Symbol)
        requires
            old(env)@.admin_signed(admin),
            old(env)@.wf(),
        ensures
            (final(env)@, r) == oracle_removed(old(env)@, provider_id),
            final(env)@.wf(),
    {
        match OracleManager::remove_provider(env, provider_id) {
            Ok(()) => {
                env.publish(PriceFeedEvent::ProviderRemoved { provider_id });
                symbol_short("ok")
            },
            Err(_) => symbol_short("err"),
        }
    }

    /// Get a single oracle provider by ID.
    pub fn get_oracle(env: &PriceFeedEnv, provider_id: Symbol) -> (r: Option<OracleProvider>)
        ensures
            r == provider_of(env@, provider_id),
    {
        OracleManager::get_provider(env, provider_id)
    }

    /// Get all registered oracle providers.
    pub fn get_all_oracles(env: &PriceFeedEnv) -> (r: Vec<OracleProvider>)
        ensures
            r@ == env@.providers,
    {
        OracleManager::get_all_providers(env)
    }

    /// Get all active oracle providers.
    pub fn get_active_oracles(env: &PriceFeedEnv) -> (r: Vec<OracleProvider>)
        ensures
            r@ == active_among(env@.providers, env@.providers.len() as int),
    {
        OracleManager::get_active_providers(env)
    }

    // =======================================================================
    // Price submission
    // =======================================================================

    /// Submit a price data point from an oracle provider. The provider must be
    /// registered and active.
    pub fn submit_price(env: &mut PriceFeedEnv, data_point: PriceDataPoint) -> (r: Symbol)
        ensures
            (final(env)@, r) == price_submitted(old(env)@, data_point),
            old(env)@.wf() ==> final(env)@.wf(),
    {
        match OracleManager::check_submission(env, data_point.provider_id) {
            Some(e) => {
                env.publish(
                    PriceFeedEvent::PriceRefused { asset: data_point.asset, code: e.code() },
                );
                return symbol_short("err");
            },
            None => {},
        }
        let r: Symbol = OracleManager::submit_price(env, data_point);
        env.publish(
            PriceFeedEvent::PriceUpdated { asset: data_point.asset, price: data_point.price },
        );
        r
    }

    /// Batch submit multiple price data points.
    pub fn batch_submit_prices(env: &mut PriceFeedEnv, data_points: &Vec<PriceDataPoint>) -> (r:
        Symbol)
        requires
            data_points@.len() <= u32::MAX,
        ensures
            final(env)@ == batch_submitted(old(env)@, data_points@),
            r == sym("ok"@),
            old(env)@.wf() ==> final(env)@.wf(),
    {
        let count: usize = OracleManager::batch_submit_prices(env, data_points);
        env.publish(PriceFeedEvent::BatchSubmitted { count: count as u32 });
        symbol_short("ok")
    }

    // =======================================================================
    // Price querying
    // =======================================================================

    /// Get the latest price for an asset from a specific oracle.
    pub fn get_price_from_oracle(env: &PriceFeedEnv, asset: Symbol, provider_id: Symbol) -> (r:
        Option<PriceDataPoint>)
        ensures
            r == (if env@.data_points.contains_key((asset, provider_id)) {
                Some(env@.data_points[(asset, provider_id)])
            } else {
                None
            }),
    {
        OracleManager::fetch_price(env, asset, provider_id)
    }

    fn keep(env: &mut PriceFeedEnv, asset: Symbol, price: AggregatedPrice)
        ensures
            final(env)@ == kept(old(env)@, asset, price),
            old(env)@.wf() ==> final(env)@.wf(),
    {
        let entry = CachedPrice {
            aggregated: price,
            cached_at: env.timestamp,
            ttl_seconds: env.config.default_ttl_seconds,
        };
        env.cached.set(asset, entry);
        assert(env@ =~= (PriceFeedState {
            cached: old(env)@.cached.insert(asset, entry),
            ..old(env)@
        }));
        record_price_history(env, asset, price.price, price.num_sources);
    }

    /// Get the aggregated price for an asset across all active oracles.
    ///
    /// This performs validation (stale/anomalous filtering) and aggregation
    /// using the default method. Results are cached.
    pub fn get_price(env: &mut PriceFeedEnv, asset: Symbol) -> (r: Result<
        AggregatedPrice,
        PriceFeedError,
    >)
        requires
            old(env)@.wf(),
            can_resolve(old(env)@, asset, old(env)@.default_method),
        ensures
            r == resolved(old(env)@, asset, old(env)@.default_method),
            final(env)@ == priced(old(env)@, asset),
            final(env)@.wf(),
    {
        let price: AggregatedPrice = match resolve_price(env, asset) {
            Ok(p) => p,
            Err(e) => return Err(e),
        };
        Self::keep(env, asset, price);
        Ok(price)
    }

    /// Get the price for an asset using a specific aggregation method override.
    pub fn get_price_with_method(
        env: &mut PriceFeedEnv,
        asset: Symbol,
        method: AggregationMethod,
    ) -> (r: Result<AggregatedPrice, PriceFeedError>)
        requires
            old(env)@.wf(),
            can_resolve(old(env)@, asset, method),
        ensures
            r == resolved(old(env)@, asset, method),
            final(env)@ == priced_by(old(env)@, asset, method),
            final(env)@.wf(),
            same_sources(old(env)@, final(env)@),
    {
        let price: AggregatedPrice = match resolve_with_method(env, asset, method) {
            Ok(p) => p,
            Err(e) => return Err(e),
        };
        if OracleManager::fetch_all_for_asset(env, asset).len() == 0 {
            proof {
                lemma_same_fetched(old(env)@, env@, asset, env@.providers.len() as int);
            }
            return Ok(price);
        }
        proof {
            lemma_same_fetched(old(env)@, env@, asset, env@.providers.len() as int);
        }
        Self::keep(env, asset, price);
        Ok(price)
    }

    /// Batch fetch prices for multiple assets.
    pub fn batch_get_prices(env: &mut PriceFeedEnv, requests: &Vec<BatchPriceRequest>) -> (r: Vec<
        BatchPriceResponse,
    >)
        requires
            old(env)@.wf(),
            forall|i: int|
                0 <= i < requests@.len() ==> can_resolve(
                    old(env)@,
                    (#[trigger] requests@[i]).asset,
                    method_of(old(env)@, requests@[i]),
                ),
        ensures
            r@ == requests@.map_values(|q: BatchPriceRequest| response_to(old(env)@, q)),
            final(env)@ == batch_priced(old(env)@, requests@, requests@.len() as int),
            final(env)@.wf(),
            same_sources(old(env)@, final(env)@),
    {
        let mut responses: Vec<BatchPriceResponse> = Vec::new();
        let mut i: usize = 0;
        while i < requests.len()
            invariant
                i <= requests@.len(),
                env@.wf(),
                same_sources(old(env)@, env@),
                forall|k: int|
                    0 <= k < requests@.len() ==> can_resolve(
                        old(env)@,
                        (#[trigger] requests@[k]).asset,
                        method_of(old(env)@, requests@[k]),
                    ),
                responses@.len() == i,
                forall|k: int|
                    0 <= k < i ==> #[trigger] responses@[k] == response_to(
                        old(env)@,
                        requests@[k],
                    ),
                env@ == batch_priced(old(env)@, requests@, i as int),
            decreases requests@.len() - i,
        {
            let request: BatchPriceRequest = requests[i];
            let method: AggregationMethod = match request.method_override {
                Some(m) => m,
                None => env.default_method,
            };
            proof {
                assert(can_resolve(
                    old(env)@,
                    requests@[i as int].asset,
                    method_of(old(env)@, requests@[i as int]),
                ));
                lemma_same_prices(old(env)@, env@, request.asset, method);
            }
            let response: BatchPriceResponse = match Self::get_price_with_method(
                env,
                request.asset,
                method,
            ) {
                Ok(price) => BatchPriceResponse {
                    asset: request.asset,
                    price: Some(price),
                    found: true,
                },
                Err(_) => BatchPriceResponse { asset: request.asset, price: None, found: false },
            };
            responses.push(response);
            i += 1;
        }
        assert(responses@ =~= requests@.map_values(
            |q: BatchPriceRequest| response_to(old(env)@, q),
        ));
        responses
    }

    // =======================================================================
    // Fallback management
    // =======================================================================

    /// Set a fallback price for an asset (admin only).
    ///
    /// Used for emergency situations when oracle data is unavailable.
    pub fn set_fallback_price(env: &mut PriceFeedEnv, admin: Address, asset: Symbol, price: i128) -> (r:
        Symbol)
        requires
            old(env)@.admin_signed(admin),
        ensures
            final(env)@ == (PriceFeedState {
                fallbacks: old(env)@.fallbacks.insert(asset, price),
                ..old(env)@
            }).emit(PriceFeedEvent::FallbackSet { asset, price }),
            r == sym("ok"@),
            old(env)@.wf() ==> final(env)@.wf(),
    {
        env.fallbacks.set(asset, price);
        env.publish(PriceFeedEvent::FallbackSet { asset, price });
        assert(env@ =~= (PriceFeedState {
            fallbacks: old(env)@.fallbacks.insert(asset, price),
            ..old(env)@
        }).emit(PriceFeedEvent::FallbackSet { asset, price }));
        symbol_short("ok")
    }

    /// Get the fallback price for an asset.
    pub fn get_fallback_price(env: &PriceFeedEnv, asset: Symbol) -> (r: Option<i128>)
        ensures
            r == (if env@.fallbacks.contains_key(asset) {
                Some(env@.fallbacks[asset])
            } else {
                None
            }),
    {
        get_fallback_price(env, asset)
    }

    // =======================================================================
    // Price history
    // =======================================================================

    /// Get the price history for an asset.
    pub fn get_price_history(env: &PriceFeedEnv, asset: Symbol) -> (r: Vec<PriceHistoryEntry>)
        ensures
            r@ == history_of(env@, asset),
    {
        get_price_history(env, asset)
    }

    /// Get the number of historical price entries for an asset.
    pub fn get_price_history_length(env: &PriceFeedEnv, asset: Symbol) -> (n: u32)
        requires
            env@.wf(),
        ensures
            n == history_of(env@, asset).len(),
    {
        let history: Vec<PriceHistoryEntry> = get_price_history(env, asset);
        history.len() as u32
    }

    // =======================================================================
    // Cache management
    // =======================================================================

    /// Get the cached price for an asset (may be stale).
    pub fn get_cached_price(env: &PriceFeedEnv, asset: Symbol) -> (r: Option<CachedPrice>)
        ensures
            r == (if env@.cached.contains_key(asset) {
                Some(env@.cached[asset])
            } else {
                None
            }),
    {
        env.cached.copied(asset)
    }

    /// Check if a cached price for an asset is still fresh (within TTL).
    pub fn is_price_fresh(env: &PriceFeedEnv, asset: Symbol) -> (b: bool)
        ensures
            b == cache_is_fresh(env@, asset),
    {
        match env.cached.copied(asset) {
            Some(c) => env.timestamp.saturating_sub(c.cached_at) <= c.ttl_seconds,
            None => false,
        }
    }

    /// Clear the cached price for an asset (admin only).
    pub fn clear_cache(env: &mut PriceFeedEnv, admin: Address, asset: Symbol) -> (r: Symbol)
        requires
            old(env)@.admin_signed(admin),
        ensures
            final(env)@ == (PriceFeedState {
                cached: old(env)@.cached.remove(asset),
                ..old(env)@
            }),
            r == sym("ok"@),
            old(env)@.wf() ==> final(env)@.wf(),
    {
        env.cached.remove(asset);
        assert(env@ =~= (PriceFeedState { cached: old(env)@.cached.remove(asset), ..old(env)@ }));
        symbol_short("ok")
    }

    // =======================================================================
    // Tracked assets
    // =======================================================================

    /// Add an asset to the tracked assets list (admin only).
    pub fn add_tracked_asset(env: &mut PriceFeedEnv, admin: Address, asset: Symbol) -> (r: Symbol)
        requires
            old(env)@.admin_signed(admin),
        ensures
            final(env)@ == asset_watched(old(env)@, asset),
            r == sym("ok"@),
            old(env)@.wf() ==> final(env)@.wf(),
    {
        if !has_symbol(&env.watched, asset) {
            env.watched.push(asset);
            env.publish(PriceFeedEvent::AssetTracked { asset });
            assert(env@ =~= asset_watched(old(env)@, asset));
        }
        symbol_short("ok")
    }

    /// Remove an asset from the tracked assets list (admin only).
    pub fn remove_tracked_asset(env: &mut PriceFeedEnv, admin: Address, asset: Symbol) -> (r:
        Symbol)
        requires
            old(env)@.admin_signed(admin),
        ensures
            final(env)@ == asset_unwatched(old(env)@, asset),
            r == sym("ok"@),
            old(env)@.wf() ==> final(env)@.wf(),
    {
        let mut i: usize = 0;
        while i < env.watched.len() && env.watched[i] != asset
            invariant
                i <= env@.watched.len(),
                env@ == old(env)@,
                symbol_index(env@.watched, asset, i as int) == symbol_index(
                    env@.watched,
                    asset,
                    0,
                ),
            decreases env@.watched.len() - i,
        {
            i += 1;
        }
        if i < env.watched.len() {
            env.watched.remove(i);
            assert(env@ =~= asset_unwatched(old(env)@, asset));
        }
        symbol_short("ok")
    }

    /// Get all tracked assets.
    pub fn get_tracked_assets(env: &PriceFeedEnv) -> (r: Vec<Symbol>)
        ensures
            r@ == env@.watched,
    {
        copy_vec(&env.watched)
    }

    // =======================================================================
    // Validation utilities (exposed for external callers)
    // =======================================================================

    /// Check if a price data point is stale.
    pub fn check_staleness(env: &PriceFeedEnv, data_point: PriceDataPoint) -> (b: bool)
        ensures
            b == stale(env@, data_point),
    {
        is_stale(env, &data_point)
    }

    /// Check if a price is anomalous relative to the prices of the asset.
    pub fn check_anomaly(env: &PriceFeedEnv, price: i128, asset: Symbol) -> (b: bool)
        requires
            match median(fetched(env@, asset)) {
                Some(m) => deviation_fits(price, m),
                None => true,
            },
        ensures
            b == (match median(fetched(env@, asset)) {
                Some(m) => anomalous(price, m, env@.config.max_deviation_bps),
                None => false,
            }),
    {
        let points: Vec<PriceDataPoint> = OracleManager::fetch_all_for_asset(env, asset);
        match calculate_median(&points) {
            Some(m) => is_anomalous(price, m, env.config.max_deviation_bps),
            None => false,
        }
    }
}

} // verus!
