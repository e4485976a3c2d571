//! Staleness and anomaly detection, fallback prices and price history.

use vstd::prelude::*;

use crate::base::arith::{checked_quot, fits, lemma_quot_bounds, quot};
use crate::base::symbol::Symbol;
use crate::base::vecs::copy_vec;
use crate::pricefeed::aggregation::{
    aggregated, can_aggregate, lemma_same_sources, AggregateEngine,
};
use crate::pricefeed::oracle::{fetched, OracleManager};
use crate::pricefeed::records::{
    AggregatedPrice, AggregationMethod, PriceDataPoint, PriceFeedError, PriceHistoryEntry,
    PriceStatus, PriceValidationConfig, DEFAULT_CACHE_TTL_SECONDS, DEFAULT_MAX_DEVIATION_BPS,
    MAX_PRICE_HISTORY,
};
use crate::pricefeed::state::{PriceFeedEnv, PriceFeedEvent, PriceFeedState};

verus! {

/// Basis-point denominator.
pub const BPS_DENOM: i128 = 10_000;

// ---------------------------------------------------------------------------
// Configuration
// ---------------------------------------------------------------------------

/// The configuration of a contract that has none of its own.
pub fn default_validation_config() -> (c: PriceValidationConfig)
    ensures
        c == (PriceValidationConfig {
            max_deviation_bps: DEFAULT_MAX_DEVIATION_BPS,
            default_ttl_seconds: DEFAULT_CACHE_TTL_SECONDS,
            max_history_entries: MAX_PRICE_HISTORY,
            alert_on_anomaly: true,
        }),
{
    PriceValidationConfig {
        max_deviation_bps: DEFAULT_MAX_DEVIATION_BPS,
        default_ttl_seconds: DEFAULT_CACHE_TTL_SECONDS,
        max_history_entries: MAX_PRICE_HISTORY,
        alert_on_anomaly: true,
    }
}

// ---------------------------------------------------------------------------
// Staleness
// ---------------------------------------------------------------------------

/// The price is older than the time-to-live.
pub open spec fn stale(s: PriceFeedState, dp: PriceDataPoint) -> bool {
    s.timestamp - dp.timestamp > s.config.default_ttl_seconds
}

/// Whether a price data point has exceeded the configured time-to-live.
pub fn is_stale(env: &PriceFeedEnv, data_point: &PriceDataPoint) -> (b: bool)
    ensures
        b == stale(env@, *data_point),
{
    env.timestamp.saturating_sub(data_point.timestamp) > env.config.default_ttl_seconds
}

// ---------------------------------------------------------------------------
// Median
// ---------------------------------------------------------------------------

/// A list in ascending order with one more number.
pub open spec fn inserted(list: Seq<i128>, x: i128) -> Seq<i128>
    decreases list.len(),
{
    if list.len() == 0 || list.last() <= x {
        list.push(x)
    } else {
        inserted(list.drop_last(), x).push(list.last())
    }
}

/// The prices of the first `n` points, in ascending order.
pub open spec fn sorted_prices(points: Seq<PriceDataPoint>, n: int) -> Seq<i128>
    decreases n,
{
    if n <= 0 {
        Seq::empty()
    } else {
        inserted(sorted_prices(points, n - 1), points[n - 1].price)
    }
}

/// Half way between two numbers, rounded toward zero.
pub open spec fn half_way(a: i128, b: i128) -> int {
    quot(a + b, 2)
}

/// The middle of a list in ascending order; of an even number of prices, half
/// way between the two middle ones.
pub open spec fn middle(list: Seq<i128>) -> i128 {
    let n = list.len() as int;
    if n % 2 == 1 {
        list[n / 2]
    } else {
        half_way(list[n / 2 - 1], list[n / 2]) as i128
    }
}

/// The median of the prices, if there are any.
pub open spec fn median(points: Seq<PriceDataPoint>) -> Option<i128> {
    if points.len() == 0 {
        None
    } else {
        Some(middle(sorted_prices(points, points.len() as int)))
    }
}

/// A list is in ascending order.
pub open spec fn ascending(list: Seq<i128>) -> bool {
    forall|i: int, j: int| 0 <= i <= j < list.len() ==> list[i] <= list[j]
}

/// Inserting keeps the order.
pub proof fn lemma_inserted(list: Seq<i128>, x: i128)
    requires
        ascending(list),
    ensures
        inserted(list, x).len() == list.len() + 1,
        ascending(inserted(list, x)),
        forall|y: i128| #[trigger] inserted(list, x).contains(y) ==> y == x || list.contains(y),
    decreases list.len(),
{
    if list.len() > 0 && list.last() > x {
        let front = list.drop_last();
        let last = list.last();
        lemma_inserted(front, x);
        let shorter = inserted(front, x);
        let longer = inserted(list, x);
        assert forall|y: i128| #[trigger] shorter.contains(y) implies y <= last by {
            if y != x {
                assert(front.contains(y));
                let i = choose|i: int| 0 <= i < front.len() && front[i] == y;
                assert(list[i] <= list[list.len() - 1]);
            }
        }
        assert forall|i: int, j: int| 0 <= i <= j < longer.len() implies longer[i]
            <= longer[j] by {
            if j == shorter.len() && i < shorter.len() {
                assert(shorter.contains(shorter[i]));
            }
        }
        assert forall|y: i128| #[trigger] longer.contains(y) implies y == x || list.contains(y) by {
            let i = choose|i: int| 0 <= i < longer.len() && longer[i] == y;
            if i < shorter.len() {
                assert(shorter.contains(y));
                if y != x {
                    assert(front.contains(y));
                    let k = choose|k: int| 0 <= k < front.len() && front[k] == y;
                    assert(list[k] == y);
                }
            } else {
                assert(list[list.len() - 1] == y);
            }
        }
    } else {
        let longer = inserted(list, x);
        assert forall|i: int, j: int| 0 <= i <= j < longer.len() implies longer[i]
            <= longer[j] by {
            if j == list.len() && i < list.len() {
                assert(list[i] <= list[list.len() - 1]);
            }
        }
        assert forall|y: i128| #[trigger] longer.contains(y) implies y == x || list.contains(y) by {
            let i = choose|i: int| 0 <= i < longer.len() && longer[i] == y;
            if i < list.len() {
                assert(list[i] == y);
            }
        }
    }
}

/// The sorted prices are as many as the points, in ascending order.
pub proof fn lemma_sorted(points: Seq<PriceDataPoint>, n: int)
    requires
        0 <= n <= points.len(),
    ensures
        sorted_prices(points, n).len() == n,
        ascending(sorted_prices(points, n)),
    decreases n,
{
    if n > 0 {
        lemma_sorted(points, n - 1);
        lemma_inserted(sorted_prices(points, n - 1), points[n - 1].price);
    }
}

fn insert_price(list: &mut Vec<i128>, x: i128)
    ensures
        final(list)@ == inserted(old(list)@, x),
{
    let mut i: usize = list.len();
    assert(list@.take(i as int) =~= list@);
    assert(inserted(list@, x) =~= inserted(list@.take(i as int), x) + list@.skip(i as int));
    while i > 0 && list[i - 1] > x
        invariant
            i <= list@.len(),
            list@ == old(list)@,
            inserted(list@, x) == inserted(list@.take(i as int), x) + list@.skip(i as int),
        decreases i,
    {
        proof {
            let front = list@.take(i as int);
            let shorter = list@.take(i - 1);
            assert(front.drop_last() =~= shorter);
            assert(front.last() == list@[i - 1]);
            assert(inserted(front, x) == inserted(shorter, x).push(list@[i - 1]));
            assert(inserted(front, x) + list@.skip(i as int) =~= inserted(shorter, x)
                + list@.skip(i - 1));
        }
        i -= 1;
    }
    proof {
        let front = list@.take(i as int);
        assert(inserted(front, x) == front.push(x));
        assert(list@.insert(i as int, x) =~= front.push(x) + list@.skip(i as int));
    }
    list.insert(i, x);
}

fn compute_half_way(a: i128, b: i128) -> (r: i128)
    requires
        a <= b,
    ensures
        r == half_way(a, b),
{
    if a >= 0 {
        a + (b - a) / 2
    } else if b < 0 {
        let gap: i128 = b - a;
        let half: i128 = gap / 2;
        proof {
            let t = -(a + b);
            assert(t > 0);
            assert(gap == t + 2 * b);
            assert(half == t / 2 + b);
        }
        b - half
    } else {
        let sum: i128 = a + b;
        proof {
            lemma_quot_bounds(sum as int, 2);
        }
        match checked_quot(sum, 2) {
            Some(x) => x,
            None => 0,
        }
    }
}

/// The median of the prices of a set of data points, if there are any.
pub fn calculate_median(data_points: &Vec<PriceDataPoint>) -> (r: Option<i128>)
    ensures
        r == median(data_points@),
{
    let n: usize = data_points.len();
    if n == 0 {
        return None;
    }
    let mut list: Vec<i128> = Vec::new();
    let mut i: usize = 0;
    assert(list@ =~= sorted_prices(data_points@, 0));
    while i < n
        invariant
            i <= n == data_points@.len(),
            list@ == sorted_prices(data_points@, i as int),
        decreases n - i,
    {
        insert_price(&mut list, data_points[i].price);
        i += 1;
    }
    proof {
        lemma_sorted(data_points@, n as int);
    }
    if n % 2 == 1 {
        Some(list[n / 2])
    } else {
        Some(compute_half_way(list[n / 2 - 1], list[n / 2]))
    }
}

// ---------------------------------------------------------------------------
// Anomalies
// ---------------------------------------------------------------------------

/// The distance of two prices.
pub open spec fn distance(a: int, b: int) -> int {
    if a < b {
        b - a
    } else {
        a - b
    }
}

/// The deviation in basis points can be computed.
pub open spec fn deviation_fits(price: i128, m: i128) -> bool {
    m != i128::MIN && fits(distance(price as int, m as int) * BPS_DENOM)
}

/// The price deviates from the median by more than the limit, in basis points
/// of the median. From a median of zero every other price does.
pub open spec fn anomalous(price: i128, m: i128, max_deviation_bps: i128) -> bool {
    if m == 0 {
        price != 0
    } else {
        distance(price as int, m as int) * BPS_DENOM / distance(m as int, 0) > max_deviation_bps
    }
}

/// Whether a price deviates from the median by more than the limit.
pub fn is_anomalous(price: i128, m: i128, max_deviation_bps: i128) -> (b: bool)
    requires
        deviation_fits(price, m),
    ensures
        b == anomalous(price, m, max_deviation_bps),
{
    if m == 0 {
        return price != 0;
    }
    proof {
        let d = distance(price as int, m as int);
        assert(0 <= d <= d * BPS_DENOM);
    }
    let gap: i128 = if price < m {
        m - price
    } else {
        price - m
    };
    let size: i128 = if m < 0 {
        -m
    } else {
        m
    };
    let scaled: i128 = gap * BPS_DENOM;
    scaled / size > max_deviation_bps
}

/// Whether the deviation of a price from the median can be computed.
pub fn is_measurable(price: i128, m: i128) -> (b: bool)
    ensures
        b == deviation_fits(price, m),
{
    if m == i128::MIN {
        return false;
    }
    let gap: Option<i128> = if price < m {
        m.checked_sub(price)
    } else {
        price.checked_sub(m)
    };
    match gap {
        Some(gap) => gap.checked_mul(BPS_DENOM).is_some(),
        None => false,
    }
}

/// A point with the status that validation gives it.
pub open spec fn judged(s: PriceFeedState, dp: PriceDataPoint, m: i128) -> PriceDataPoint {
    PriceDataPoint {
        status: if anomalous(dp.price, m, s.config.max_deviation_bps) {
            PriceStatus::Anomalous
        } else if stale(s, dp) {
            PriceStatus::Stale
        } else {
            dp.status
        },
        ..dp
    }
}

/// The points with the status that validation gives them.
pub open spec fn validated(s: PriceFeedState, points: Seq<PriceDataPoint>) -> Seq<PriceDataPoint> {
    match median(points) {
        Some(m) => points.map_values(|dp: PriceDataPoint| judged(s, dp, m)),
        None => Seq::empty(),
    }
}

/// The deviation of every price from the median can be computed.
pub open spec fn deviations_fit(points: Seq<PriceDataPoint>) -> bool {
    match median(points) {
        Some(m) => forall|i: int|
            0 <= i < points.len() ==> deviation_fits((#[trigger] points[i]).price, m),
        None => true,
    }
}

/// The state after alerts on the anomalous ones of the first `n` points, where
/// alerts are wanted.
pub open spec fn alerted(
    s: PriceFeedState,
    points: Seq<PriceDataPoint>,
    m: i128,
    n: int,
) -> PriceFeedState
    decreases n,
{
    if n <= 0 {
        s
    } else {
        let before = alerted(s, points, m, n - 1);
        let dp = points[n - 1];
        if s.config.alert_on_anomaly && anomalous(dp.price, m, s.config.max_deviation_bps) {
            before.emit(
                PriceFeedEvent::AnomalyDetected {
                    asset: dp.asset,
                    provider_id: dp.provider_id,
                    price: dp.price,
                },
            )
        } else {
            before
        }
    }
}

/// The state after validation.
pub open spec fn after_validation(s: PriceFeedState, points: Seq<PriceDataPoint>) -> PriceFeedState {
    match median(points) {
        Some(m) => alerted(s, points, m, points.len() as int),
        None => s,
    }
}

/// Alerts change nothing but the events.
pub proof fn lemma_alerts(s: PriceFeedState, points: Seq<PriceDataPoint>, m: i128, n: int)
    ensures
        alerted(s, points, m, n) == (PriceFeedState {
            events: alerted(s, points, m, n).events,
            ..s
        }),
    decreases n,
{
    if n > 0 {
        lemma_alerts(s, points, m, n - 1);
    }
}

/// Give every point its status: anomalous, stale, or the one it has. Where
/// alerts are wanted, an event tells of each anomalous price.
pub fn validate_prices(env: &mut PriceFeedEnv, data_points: &Vec<PriceDataPoint>) -> (r: Vec<
    PriceDataPoint,
>)
    requires
        deviations_fit(data_points@),
    ensures
        r@ == validated(old(env)@, data_points@),
        final(env)@ == after_validation(old(env)@, data_points@),
{
    let mut out: Vec<PriceDataPoint> = Vec::new();
    let m: i128 = match calculate_median(data_points) {
        Some(m) => m,
        None => {
            assert(out@ =~= Seq::empty());
            return out;
        },
    };
    let mut i: usize = 0;
    while i < data_points.len()
        invariant
            i <= data_points@.len(),
            median(data_points@) == Some(m),
            deviations_fit(data_points@),
            out@.len() == i,
            forall|k: int|
                0 <= k < i ==> #[trigger] out@[k] == judged(old(env)@, data_points@[k], m),
            env@ == alerted(old(env)@, data_points@, m, i as int),
        decreases data_points@.len() - i,
    {
        let mut dp: PriceDataPoint = data_points[i];
        proof {
            lemma_alerts(old(env)@, data_points@, m, i as int);
            assert(deviation_fits(data_points@[i as int].price, m));
        }
        if is_anomalous(dp.price, m, env.config.max_deviation_bps) {
            if env.config.alert_on_anomaly {
                env.publish(
                    PriceFeedEvent::AnomalyDetected {
                        asset: dp.asset,
                        provider_id: dp.provider_id,
                        price: dp.price,
                    },
                );
            }
            dp.status = PriceStatus::Anomalous;
        } else if is_stale(env, &dp) {
            dp.status = PriceStatus::Stale;
        }
        out.push(dp);
        i += 1;
    }
    assert(out@ =~= validated(old(env)@, data_points@));
    out
}

/// The first `n` points without the anomalous ones.
pub open spec fn ordinary(points: Seq<PriceDataPoint>, n: int) -> Seq<PriceDataPoint>
    decreases n,
{
    if n <= 0 {
        Seq::empty()
    } else if points[n - 1].status == PriceStatus::Anomalous {
        ordinary(points, n - 1)
    } else {
        ordinary(points, n - 1).push(points[n - 1])
    }
}

/// The points that a price is made of: the validated ones that are not
/// anomalous, or all of them where all are.
pub open spec fn effective(s: PriceFeedState, points: Seq<PriceDataPoint>) -> Seq<PriceDataPoint> {
    let v = validated(s, points);
    let o = ordinary(v, v.len() as int);
    if o.len() == 0 {
        v
    } else {
        o
    }
}

/// No more points are ordinary than there are.
pub proof fn lemma_ordinary_len(points: Seq<PriceDataPoint>, n: int)
    requires
        0 <= n <= points.len(),
    ensures
        ordinary(points, n).len() <= n,
    decreases n,
{
    if n > 0 {
        lemma_ordinary_len(points, n - 1);
    }
}

fn keep_ordinary(points: Vec<PriceDataPoint>) -> (r: Vec<PriceDataPoint>)
    ensures
        r@ == (if ordinary(points@, points@.len() as int).len() == 0 {
            points@
        } else {
            ordinary(points@, points@.len() as int)
        }),
{
    let mut out: Vec<PriceDataPoint> = Vec::new();
    let mut i: usize = 0;
    assert(out@ =~= ordinary(points@, 0));
    while i < points.len()
        invariant
            i <= points@.len(),
            out@ == ordinary(points@, i as int),
        decreases points@.len() - i,
    {
        if points[i].status != PriceStatus::Anomalous {
            out.push(points[i]);
        }
        i += 1;
    }
    if out.len() == 0 {
        points
    } else {
        out
    }
}

// ---------------------------------------------------------------------------
// Resolution
// ---------------------------------------------------------------------------

/// The price of an asset by a method: of the prices that count, without the
/// anomalous ones; else the fallback price.
pub open spec fn resolved(s: PriceFeedState, asset: Symbol, method: AggregationMethod) -> Result<
    AggregatedPrice,
    PriceFeedError,
> {
    let points = fetched(s, asset);
    if points.len() == 0 {
        if s.fallbacks.contains_key(asset) {
            Ok(
                AggregatedPrice {
                    asset,
                    price: s.fallbacks[asset],
                    timestamp: s.timestamp,
                    num_sources: 0,
                    method,
                    status: PriceStatus::Fallback,
                },
            )
        } else {
            Err(PriceFeedError::NoPriceData)
        }
    } else {
        Ok(aggregated(s, effective(s, points), method))
    }
}

/// The price of the asset can be computed by the method.
pub open spec fn can_resolve(s: PriceFeedState, asset: Symbol, method: AggregationMethod) -> bool {
    let points = fetched(s, asset);
    points.len() > 0 ==> deviations_fit(points) && can_aggregate(s, effective(s, points), method)
}

/// Whether the price of an asset can be computed by a method.
pub fn is_resolvable(env: &PriceFeedEnv, asset: Symbol, method: AggregationMethod) -> (b: bool)
    requires
        env@.wf(),
    ensures
        b == can_resolve(env@, asset, method),
{
    let points: Vec<PriceDataPoint> = OracleManager::fetch_all_for_asset(env, asset);
    let m: i128 = match calculate_median(&points) {
        Some(m) => m,
        None => return true,
    };
    let mut judged_points: Vec<PriceDataPoint> = Vec::new();
    let mut i: usize = 0;
    while i < points.len()
        invariant
            i <= points@.len(),
            points@ == fetched(env@, asset),
            median(points@) == Some(m),
            judged_points@.len() == i,
            forall|k: int|
                0 <= k < i ==> #[trigger] judged_points@[k] == judged(env@, points@[k], m),
            forall|k: int| 0 <= k < i ==> deviation_fits((#[trigger] points@[k]).price, m),
        decreases points@.len() - i,
    {
        let mut dp: PriceDataPoint = points[i];
        if !is_measurable(dp.price, m) {
            assert(!deviation_fits(points@[i as int].price, m));
            return false;
        }
        if is_anomalous(dp.price, m, env.config.max_deviation_bps) {
            dp.status = PriceStatus::Anomalous;
        } else if is_stale(env, &dp) {
            dp.status = PriceStatus::Stale;
        }
        judged_points.push(dp);
        i += 1;
    }
    assert(judged_points@ =~= validated(env@, points@));
    let used: Vec<PriceDataPoint> = keep_ordinary(judged_points);
    AggregateEngine::is_computable(env, &used, method)
}

/// What computing a price by a method does besides: alerts on anomalous prices.
pub open spec fn after_resolving(s: PriceFeedState, asset: Symbol) -> PriceFeedState {
    after_validation(s, fetched(s, asset))
}

/// Compute the price of an asset by a method.
pub fn resolve_with_method(
    env: &mut PriceFeedEnv,
    asset: Symbol,
    method: AggregationMethod,
) -> (r: Result<AggregatedPrice, PriceFeedError>)
    requires
        old(env)@.wf(),
        can_resolve(old(env)@, asset, method),
    ensures
        r == resolved(old(env)@, asset, method),
        final(env)@ == after_resolving(old(env)@, asset),
        final(env)@ == (PriceFeedState { events: final(env)@.events, ..old(env)@ }),
{
    let points: Vec<PriceDataPoint> = OracleManager::fetch_all_for_asset(env, asset);
    if points.len() == 0 {
        return match get_fallback_price(env, asset) {
            Some(price) => Ok(
                AggregatedPrice {
                    asset,
                    price,
                    timestamp: env.timestamp,
                    num_sources: 0,
                    method,
                    status: PriceStatus::Fallback,
                },
            ),
            None => Err(PriceFeedError::NoPriceData),
        };
    }
    let judged_points: Vec<PriceDataPoint> = validate_prices(env, &points);
    proof {
        lemma_alerts(
            old(env)@,
            points@,
            median(points@)->Some_0,
            points@.len() as int,
        );
        lemma_ordinary_len(judged_points@, judged_points@.len() as int);
    }
    let used: Vec<PriceDataPoint> = keep_ordinary(judged_points);
    proof {
        lemma_same_sources(old(env)@, env@, used@, method);
    }
    Ok(AggregateEngine::aggregate(env, &used, method))
}

/// Compute the price of an asset by the default method.
pub fn resolve_price(env: &mut PriceFeedEnv, asset: Symbol) -> (r: Result<
    AggregatedPrice,
    PriceFeedError,
>)
    requires
        old(env)@.wf(),
        can_resolve(old(env)@, asset, old(env)@.default_method),
    ensures
        r == resolved(old(env)@, asset, old(env)@.default_method),
        final(env)@ == after_resolving(old(env)@, asset),
        final(env)@ == (PriceFeedState { events: final(env)@.events, ..old(env)@ }),
{
    let method: AggregationMethod = env.default_method;
    resolve_with_method(env, asset, method)
}

// ---------------------------------------------------------------------------
// Fallback prices and history
// ---------------------------------------------------------------------------

/// The fallback price of the asset.
pub fn get_fallback_price(env: &PriceFeedEnv, asset: Symbol) -> (r: Option<i128>)
    ensures
        r == (if env@.fallbacks.contains_key(asset) {
            Some(env@.fallbacks[asset])
        } else {
            None
        }),
{
    env.fallbacks.copied(asset)
}

/// The history of the asset.
pub open spec fn history_of(s: PriceFeedState, asset: Symbol) -> Seq<PriceHistoryEntry> {
    if s.history.contains_key(asset) {
        s.history[asset]
    } else {
        Seq::empty()
    }
}

/// How many entries a history keeps: what the configuration says, up to the limit.
pub open spec fn history_cap(s: PriceFeedState) -> nat {
    if s.config.max_history_entries < MAX_PRICE_HISTORY {
        s.config.max_history_entries as nat
    } else {
        MAX_PRICE_HISTORY as nat
    }
}

/// The newest items of a list, up to a number.
pub open spec fn newest<T>(list: Seq<T>, cap: nat) -> Seq<T> {
    if list.len() <= cap {
        list
    } else {
        list.skip(list.len() - cap)
    }
}

/// The state after a price was recorded; the oldest entries beyond the cap go.
pub open spec fn recorded(
    s: PriceFeedState,
    asset: Symbol,
    price: i128,
    num_sources: u32,
) -> PriceFeedState {
    let entry = PriceHistoryEntry { price, timestamp: s.timestamp, num_sources };
    PriceFeedState {
        history: s.history.insert(
            asset,
            newest(history_of(s, asset).push(entry), history_cap(s)),
        ),
        ..s
    }
}

/// The history of the asset, oldest first.
pub fn get_price_history(env: &PriceFeedEnv, asset: Symbol) -> (r: Vec<PriceHistoryEntry>)
    ensures
        r@ == history_of(env@, asset),
{
    match env.history.get(asset) {
        Some(v) => copy_vec(v),
        None => {
            let v: Vec<PriceHistoryEntry> = Vec::new();
            assert(v@ =~= Seq::empty());
            v
        },
    }
}

/// Record a price in the history of the asset.
pub fn record_price_history(env: &mut PriceFeedEnv, asset: Symbol, price: i128, num_sources: u32)
    ensures
        final(env)@ == recorded(old(env)@, asset, price, num_sources),
        old(env)@.wf() ==> final(env)@.wf(),
{
    let cap: usize = if env.config.max_history_entries < MAX_PRICE_HISTORY {
        env.config.max_history_entries as usize
    } else {
        MAX_PRICE_HISTORY as usize
    };
    let all: Vec<PriceHistoryEntry> = get_price_history(env, asset);
    let entry = PriceHistoryEntry { price, timestamp: env.timestamp, num_sources };
    let mut longer: Vec<PriceHistoryEntry> = all;
    longer.push(entry);
    let n: usize = longer.len();
    let from: usize = if n <= cap {
        0
    } else {
        n - cap
    };
    let mut kept: Vec<PriceHistoryEntry> = Vec::new();
    let mut i: usize = from;
    while i < n
        invariant
            from <= i <= n == longer@.len(),
            kept@ == longer@.subrange(from as int, i as int),
        decreases n - i,
    {
        kept.push(longer[i]);
        i += 1;
        assert(kept@ =~= longer@.subrange(from as int, i as int));
    }
    assert(kept@ =~= newest(longer@, history_cap(env@)));
    env.history.set(asset, kept);
    assert(env@ =~= recorded(old(env)@, asset, price, num_sources));
}

} // verus!
