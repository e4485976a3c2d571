//! What the price feed answers, in terms of the registered providers, their
//! latest prices, the configuration and the time.

use vstd::prelude::*;

use crate::base::arith::{fits, lemma_quot_bounds, lemma_quot_rest, quot};
use crate::base::symbol::{sym, Symbol};
use crate::pricefeed::aggregation::{
    aggregated, by_time, by_trust, can_aggregate, latest, weight_sum, weighted_average, weighted_sum, worst,
};
use crate::pricefeed::contract::{
    asset_unwatched, asset_watched, batch_submitted, cache_is_fresh, kept, oracle_registered,
    oracle_removed, oracle_updated, price_submitted, priced, priced_by, response_to, symbol_index,
};
use crate::pricefeed::laws::{the_latest_is_the_most_recent, the_worst_status_counts};
use crate::pricefeed::oracle::{
    active_among, batch_stored, fetched, fetched_upto, lemma_fetched_len, lemma_provider_index,
    provider_index, provider_of, submission_fault,
};
use crate::pricefeed::records::{
    AggregatedPrice, AggregationMethod, BatchPriceRequest, OracleProvider, PriceDataPoint,
    PriceHistoryEntry, PriceStatus,
};
use crate::pricefeed::state::{PriceFeedEvent, PriceFeedState};
use crate::pricefeed::validation::{
    after_resolving, alerted, anomalous, deviation_fits, effective, history_of, inserted, lemma_alerts,
    lemma_ordinary_len, lemma_sorted, median, ordinary, resolved, sorted_prices, stale, validated,
};

verus! {

// ---------------------------------------------------------------------------
// Averages
// ---------------------------------------------------------------------------

/// The sum of weights.
pub open spec fn total(weights: Seq<int>) -> int
    decreases weights.len(),
{
    if weights.len() == 0 {
        0
    } else {
        total(weights.drop_last()) + weights.last()
    }
}

/// The sum of the prices, each times its weight.
pub open spec fn weighted(points: Seq<PriceDataPoint>, weights: Seq<int>) -> int
    decreases points.len(),
{
    if points.len() == 0 {
        0
    } else {
        weighted(points.drop_last(), weights.drop_last()) + points.last().price * weights.last()
    }
}

/// `q` is `a` over `b`, rounded toward zero.
pub open spec fn is_ratio(q: int, a: int, b: int) -> bool {
    if a >= 0 {
        q * b <= a < (q + 1) * b
    } else {
        (q - 1) * b < a <= q * b
    }
}

proof fn lemma_sums(
    points: Seq<PriceDataPoint>,
    weight: spec_fn(PriceDataPoint) -> int,
    weights: Seq<int>,
    n: int,
)
    requires
        0 <= n <= points.len(),
        weights.len() == points.len(),
        forall|i: int| 0 <= i < points.len() ==> #[trigger] weights[i] == weight(points[i]),
    ensures
        weight_sum(points, weight, n) == total(weights.take(n)),
        weighted_sum(points, weight, n) == weighted(points.take(n), weights.take(n)),
    decreases n,
{
    if n > 0 {
        lemma_sums(points, weight, weights, n - 1);
        assert(points.take(n).drop_last() =~= points.take(n - 1));
        assert(weights.take(n).drop_last() =~= weights.take(n - 1));
        assert(points.take(n).last() == points[n - 1]);
        assert(weights.take(n).last() == weights[n - 1]);
        assert(weights[n - 1] == weight(points[n - 1]));
    }
}

proof fn lemma_average(
    points: Seq<PriceDataPoint>,
    weight: spec_fn(PriceDataPoint) -> int,
    weights: Seq<int>,
)
    requires
        weights.len() == points.len(),
        forall|i: int| 0 <= i < points.len() ==> #[trigger] weights[i] == weight(points[i]),
        fits(weighted(points, weights)),
    ensures
        total(weights) > 0 ==> is_ratio(
            weighted_average(points, weight) as int,
            weighted(points, weights),
            total(weights),
        ),
        total(weights) <= 0 ==> weighted_average(points, weight) == 0,
{
    let n = points.len() as int;
    lemma_sums(points, weight, weights, n);
    assert(points.take(n) =~= points);
    assert(weights.take(n) =~= weights);
    let a = weighted(points, weights);
    let b = total(weights);
    if b > 0 {
        lemma_quot_rest(a, b);
        lemma_quot_bounds(a, b);
        let q = quot(a, b);
        assert((q + 1) * b == q * b + b) by (nonlinear_arith);
        assert((q - 1) * b == q * b - b) by (nonlinear_arith);
    }
}

proof fn lemma_provider(s: PriceFeedState, j: int)
    requires
        s.wf(),
        0 <= j < s.providers.len(),
    ensures
        provider_of(s, s.providers[j].provider_id) == Some(s.providers[j]),
{
    let id = s.providers[j].provider_id;
    lemma_provider_index(s.providers, id, 0);
    let i = provider_index(s.providers, id, 0);
    if i < j {
        assert(s.providers[i].provider_id != s.providers[j].provider_id);
    }
    if i > j {
        assert(s.providers[j].provider_id != id);
    }
}

/// The weight is the trust weight of the registered provider of the point, as
/// it was registered, or a thousand where the provider is not registered.
pub open spec fn is_trust(s: PriceFeedState, dp: PriceDataPoint, w: int) -> bool {
    ||| exists|j: int|
        0 <= j < s.providers.len() && (#[trigger] s.providers[j]).provider_id == dp.provider_id && w
            == s.providers[j].trust_weight
    ||| w == 1_000 && forall|j: int|
        0 <= j < s.providers.len() ==> (#[trigger] s.providers[j]).provider_id != dp.provider_id
}

/// The average by trust is the sum of the prices, each times the trust weight
/// that its provider was registered with, over the sum of these weights,
/// rounded toward zero; without any weight it is nothing.
pub proof fn trust_weights_the_average(
    s: PriceFeedState,
    points: Seq<PriceDataPoint>,
    weights: Seq<int>,
)
    requires
        s.wf(),
        points.len() > 0,
        weights.len() == points.len(),
        forall|i: int|
            0 <= i < points.len() ==> is_trust(s, points[i], #[trigger] weights[i]),
        fits(weighted(points, weights)),
    ensures
        ({
            let a = aggregated(s, points, AggregationMethod::WeightedAverage).price as int;
            &&& total(weights) > 0 ==> is_ratio(a, weighted(points, weights), total(weights))
            &&& total(weights) <= 0 ==> a == 0
        }),
{
    let weight = by_trust(s);
    assert forall|i: int| 0 <= i < points.len() implies #[trigger] weights[i] == weight(
        points[i],
    ) by {
        let dp = points[i];
        assert(is_trust(s, dp, weights[i]));
        lemma_provider_index(s.providers, dp.provider_id, 0);
        if exists|j: int|
            0 <= j < s.providers.len() && (#[trigger] s.providers[j]).provider_id
                == dp.provider_id && weights[i] == s.providers[j].trust_weight {
            let j = choose|j: int|
                0 <= j < s.providers.len() && (#[trigger] s.providers[j]).provider_id
                    == dp.provider_id && weights[i] == s.providers[j].trust_weight;
            lemma_provider(s, j);
        }
    }
    lemma_average(points, weight, weights);
}

/// Of two prices that are not negative, by providers of trust `u` and `v`, the
/// average lies where the trust puts it: it is the first price times `u` plus
/// the second times `v`, over `u` plus `v`.
pub proof fn trust_divides_the_gap_of_two_prices(s: PriceFeedState, i: int, j: int, a: PriceDataPoint, b: PriceDataPoint)
    requires
        s.wf(),
        0 <= i < s.providers.len(),
        0 <= j < s.providers.len(),
        a.provider_id == s.providers[i].provider_id,
        b.provider_id == s.providers[j].provider_id,
        a.price >= 0,
        b.price >= 0,
        s.providers[i].trust_weight + s.providers[j].trust_weight > 0,
        fits(
            a.price * s.providers[i].trust_weight + b.price * s.providers[j].trust_weight,
        ),
    ensures
        ({
            let u = s.providers[i].trust_weight as int;
            let v = s.providers[j].trust_weight as int;
            let x = aggregated(s, seq![a, b], AggregationMethod::WeightedAverage).price as int;
            x * (u + v) <= a.price * u + b.price * v < (x + 1) * (u + v)
        }),
{
    let u = s.providers[i].trust_weight as int;
    let v = s.providers[j].trust_weight as int;
    let points = seq![a, b];
    let weights = seq![u, v];
    assert(points.drop_last() =~= seq![a]);
    assert(weights.drop_last() =~= seq![u]);
    assert(points.drop_last().drop_last() =~= Seq::<PriceDataPoint>::empty());
    assert(weights.drop_last().drop_last() =~= Seq::<int>::empty());
    assert(total(weights.drop_last()) == u) by {
        assert(total(weights.drop_last().drop_last()) == 0);
    }
    assert(total(weights) == u + v);
    assert(weighted(points.drop_last(), weights.drop_last()) == a.price * u) by {
        assert(weighted(points.drop_last().drop_last(), weights.drop_last().drop_last()) == 0);
    }
    assert(weighted(points, weights) == a.price * u + b.price * v);
    assert(a.price * u >= 0 && b.price * v >= 0) by (nonlinear_arith)
        requires
            a.price >= 0,
            b.price >= 0,
            u >= 0,
            v >= 0,
    ;
    assert(is_trust(s, points[0], weights[0])) by {
        assert(s.providers[i].provider_id == a.provider_id);
    }
    assert(is_trust(s, points[1], weights[1])) by {
        assert(s.providers[j].provider_id == b.provider_id);
    }
    trust_weights_the_average(s, points, weights);
}

/// The weight of a price in a time-weighted average: a million less one for
/// each second of its age, and never less than nothing.
pub open spec fn is_time_weight(now: u64, dp: PriceDataPoint, w: int) -> bool {
    &&& dp.timestamp >= now ==> w == 1_000_000
    &&& now - 1_000_000 <= dp.timestamp < now ==> w == 1_000_000 - (now - dp.timestamp)
    &&& dp.timestamp < now - 1_000_000 ==> w == 0
}

/// The time-weighted average is the sum of the prices, each times its weight
/// by age, over the sum of these weights, rounded toward zero.
pub proof fn age_weights_the_average(
    s: PriceFeedState,
    points: Seq<PriceDataPoint>,
    weights: Seq<int>,
)
    requires
        points.len() > 0,
        weights.len() == points.len(),
        forall|i: int|
            0 <= i < points.len() ==> is_time_weight(s.timestamp, points[i], #[trigger] weights[i]),
        fits(weighted(points, weights)),
    ensures
        ({
            let a = aggregated(s, points, AggregationMethod::TWAP).price as int;
            &&& total(weights) > 0 ==> is_ratio(a, weighted(points, weights), total(weights))
            &&& total(weights) <= 0 ==> a == 0
        }),
{
    let weight = by_time(s.timestamp);
    assert forall|i: int| 0 <= i < points.len() implies #[trigger] weights[i] == weight(
        points[i],
    ) by {
        assert(is_time_weight(s.timestamp, points[i], weights[i]));
    }
    lemma_average(points, weight, weights);
}

proof fn lemma_moderate(
    points: Seq<PriceDataPoint>,
    weight: spec_fn(PriceDataPoint) -> int,
    n: int,
)
    requires
        0 <= n <= points.len() <= 1_000,
        forall|i: int|
            0 <= i < points.len() ==> -1_000_000_000_000_000_000_000_000 <= (
            #[trigger] points[i]).price <= 1_000_000_000_000_000_000_000_000,
        forall|i: int| 0 <= i < points.len() ==> 0 <= weight(#[trigger] points[i]) <= u32::MAX,
    ensures
        -n * 5_000_000_000_000_000_000_000_000_000_000_000 <= weighted_sum(points, weight, n) <= n
            * 5_000_000_000_000_000_000_000_000_000_000_000,
        forall|i: int|
            0 <= i < n ==> -5_000_000_000_000_000_000_000_000_000_000_000 <= (
            #[trigger] points[i]).price * weight(points[i])
                <= 5_000_000_000_000_000_000_000_000_000_000_000,
    decreases n,
{
    if n > 0 {
        lemma_moderate(points, weight, n - 1);
        let p = points[n - 1].price as int;
        let w = weight(points[n - 1]);
        assert(-5_000_000_000_000_000_000_000_000_000_000_000 <= p * w
            <= 5_000_000_000_000_000_000_000_000_000_000_000) by (nonlinear_arith)
            requires
                -1_000_000_000_000_000_000_000_000 <= p <= 1_000_000_000_000_000_000_000_000,
                0 <= w <= u32::MAX,
        ;
    }
}

/// Up to a thousand prices of up to twenty-five digits can be aggregated by
/// every method, and their deviation from each other can be measured.
pub proof fn moderate_prices_are_aggregated(
    s: PriceFeedState,
    points: Seq<PriceDataPoint>,
    method: AggregationMethod,
    m: i128,
)
    requires
        0 < points.len() <= 1_000,
        forall|i: int|
            0 <= i < points.len() ==> -1_000_000_000_000_000_000_000_000 <= (
            #[trigger] points[i]).price <= 1_000_000_000_000_000_000_000_000,
        -1_000_000_000_000_000_000_000_000 <= m <= 1_000_000_000_000_000_000_000_000,
    ensures
        can_aggregate(s, points, method),
        deviation_fits(points[0].price, m),
{
    let weight = match method {
        AggregationMethod::TWAP => by_time(s.timestamp),
        _ => by_trust(s),
    };
    assert forall|i: int| 0 <= i < points.len() implies 0 <= weight(#[trigger] points[i])
        <= u32::MAX by {}
    assert forall|n: int| 0 <= n <= points.len() implies fits(
        #[trigger] weighted_sum(points, weight, n),
    ) by {
        lemma_moderate(points, weight, n);
    }
    lemma_moderate(points, weight, points.len() as int);
}

/// The latest price is that of a point that no other is more recent than, the
/// last of these.
pub proof fn the_latest_point_gives_the_price(s: PriceFeedState, points: Seq<PriceDataPoint>)
    requires
        points.len() > 0,
    ensures
        exists|i: int|
            {
                &&& 0 <= i < points.len()
                &&& aggregated(s, points, AggregationMethod::Latest).price == (
                #[trigger] points[i]).price
                &&& forall|j: int|
                    0 <= j < points.len() ==> (#[trigger] points[j]).timestamp < points[i].timestamp
                        || (points[j].timestamp == points[i].timestamp && j <= i)
            },
{
    let n = points.len() as int;
    the_latest_is_the_most_recent(points, n);
    lemma_latest_is_last(points, n);
    let i = latest(points, n);
    assert(aggregated(s, points, AggregationMethod::Latest).price == points[i].price);
}

proof fn lemma_latest_is_last(points: Seq<PriceDataPoint>, n: int)
    requires
        0 < n <= points.len(),
    ensures
        0 <= latest(points, n) < n,
        forall|j: int|
            latest(points, n) < j < n ==> (#[trigger] points[j]).timestamp < points[latest(
                points,
                n,
            )].timestamp,
    decreases n,
{
    if n > 1 {
        lemma_latest_is_last(points, n - 1);
    }
}

proof fn lemma_inserted_multiset(list: Seq<i128>, x: i128)
    ensures
        inserted(list, x).to_multiset() == list.to_multiset().insert(x),
    decreases list.len(),
{
    broadcast use vstd::seq_lib::group_to_multiset_ensures;

    if list.len() > 0 && list.last() > x {
        let front = list.drop_last();
        lemma_inserted_multiset(front, x);
        assert(front.push(list.last()) =~= list);
        assert(list.to_multiset() =~= front.to_multiset().insert(list.last()));
        assert(inserted(list, x).to_multiset() =~= inserted(front, x).to_multiset().insert(
            list.last(),
        ));
    }
}

proof fn lemma_sorted_multiset(points: Seq<PriceDataPoint>, n: int)
    requires
        0 <= n <= points.len(),
    ensures
        sorted_prices(points, n).to_multiset() == points.take(n).map_values(
            |dp: PriceDataPoint| dp.price,
        ).to_multiset(),
    decreases n,
{
    broadcast use vstd::seq_lib::group_to_multiset_ensures;

    let price = |dp: PriceDataPoint| dp.price;
    if n > 0 {
        lemma_sorted_multiset(points, n - 1);
        lemma_inserted_multiset(sorted_prices(points, n - 1), points[n - 1].price);
        assert(points.take(n).map_values(price) =~= points.take(n - 1).map_values(price).push(
            points[n - 1].price,
        ));
    } else {
        assert(points.take(0).map_values(price) =~= sorted_prices(points, 0));
    }
}

/// The median is the middle one of the prices put in ascending order, or half
/// way between the two middle ones, rounded toward zero.
pub proof fn the_median_is_the_middle_price(s: PriceFeedState, points: Seq<PriceDataPoint>)
    requires
        points.len() > 0,
    ensures
        exists|list: Seq<i128>|
            {
                let n = points.len() as int;
                let m = aggregated(s, points, AggregationMethod::Median).price as int;
                &&& #[trigger] list.to_multiset() == points.map_values(
                    |dp: PriceDataPoint| dp.price,
                ).to_multiset()
                &&& list.len() == n
                &&& forall|i: int, j: int| 0 <= i <= j < n ==> list[i] <= list[j]
                &&& n % 2 == 1 ==> m == list[n / 2]
                &&& n % 2 == 0 ==> is_ratio(m, list[n / 2 - 1] + list[n / 2], 2)
            },
        median(points) == Some(aggregated(s, points, AggregationMethod::Median).price),
{
    let n = points.len() as int;
    let list = sorted_prices(points, n);
    lemma_sorted(points, n);
    lemma_sorted_multiset(points, n);
    assert(points.take(n) =~= points);
    if n % 2 == 0 {
        lemma_quot_rest(list[n / 2 - 1] + list[n / 2], 2);
    }
    assert(list.to_multiset() == points.map_values(|dp: PriceDataPoint| dp.price).to_multiset());
}

/// Some point has the status.
pub open spec fn has_status(points: Seq<PriceDataPoint>, status: PriceStatus) -> bool {
    exists|i: int| 0 <= i < points.len() && (#[trigger] points[i]).status == status
}

/// The status of an aggregate is the worst of its points: unknown before
/// anomalous, anomalous before stale, stale before a fallback, and fresh only
/// where all points are.
pub proof fn statuses_rank_from_unknown_to_fresh(points: Seq<PriceDataPoint>)
    ensures
        worst(points, points.len() as int) == if has_status(points, PriceStatus::Unknown) {
            PriceStatus::Unknown
        } else if has_status(points, PriceStatus::Anomalous) {
            PriceStatus::Anomalous
        } else if has_status(points, PriceStatus::Stale) {
            PriceStatus::Stale
        } else if has_status(points, PriceStatus::Fallback) {
            PriceStatus::Fallback
        } else {
            PriceStatus::Fresh
        },
{
    the_worst_status_counts(points, points.len() as int);
}

// ---------------------------------------------------------------------------
// Which prices count
// ---------------------------------------------------------------------------

/// The provider's latest price of the asset is there, from a provider that is
/// active, and no older than the provider may be.
pub open spec fn is_current(s: PriceFeedState, p: OracleProvider, asset: Symbol) -> bool {
    &&& p.is_active
    &&& s.data_points.contains_key((asset, p.provider_id))
    &&& s.timestamp <= s.data_points[(asset, p.provider_id)].timestamp + p.max_staleness
}

proof fn lemma_fetched(s: PriceFeedState, asset: Symbol, n: int)
    requires
        0 <= n <= s.providers.len(),
    ensures
        fetched_upto(s, asset, n) == s.providers.take(n).filter(
            |p: OracleProvider| is_current(s, p, asset),
        ).map_values(|p: OracleProvider| s.data_points[(asset, p.provider_id)]),
    decreases n,
{
    reveal(Seq::filter);
    let current = |p: OracleProvider| is_current(s, p, asset);
    let point = |p: OracleProvider| s.data_points[(asset, p.provider_id)];
    if n > 0 {
        lemma_fetched(s, asset, n - 1);
        assert(s.providers.take(n).drop_last() =~= s.providers.take(n - 1));
        assert(s.providers.take(n).last() == s.providers[n - 1]);
        let before = s.providers.take(n - 1).filter(current);
        assert(before.push(s.providers[n - 1]).map_values(point) =~= before.map_values(point).push(
            point(s.providers[n - 1]),
        ));
    } else {
        assert(s.providers.take(0).filter(current).map_values(point) =~= Seq::empty());
    }
}

/// The prices that are fetched are the current ones of the providers, in the
/// order in which they were registered.
pub proof fn current_prices_are_fetched(s: PriceFeedState, asset: Symbol)
    ensures
        fetched(s, asset) == s.providers.filter(
            |p: OracleProvider| is_current(s, p, asset),
        ).map_values(|p: OracleProvider| s.data_points[(asset, p.provider_id)]),
{
    let n = s.providers.len() as int;
    lemma_fetched(s, asset, n);
    assert(s.providers.take(n) =~= s.providers);
}

/// A price deviates from a median other than zero by more than the limit
/// exactly where the distance, in basis points of the median's size and
/// rounded down, is above it; from a median of zero any other price does.
pub proof fn deviations_are_measured_by_the_median(price: i128, m: i128, limit: i128)
    requires
        limit >= 0,
    ensures
        m == 0 ==> (anomalous(price, m, limit) <==> price != 0),
        m > 0 ==> (anomalous(price, m, limit) <==> (price - m) * 10_000 >= (limit + 1) * m || (m
            - price) * 10_000 >= (limit + 1) * m),
        m < 0 ==> (anomalous(price, m, limit) <==> (price - m) * 10_000 >= (limit + 1) * (-m) || (m
            - price) * 10_000 >= (limit + 1) * (-m)),
{
    if m != 0 {
        let d: int = if m < 0 {
            -m
        } else {
            m as int
        };
        let gap: int = if price < m {
            m - price
        } else {
            price - m
        };
        let x = gap * 10_000;
        let q = x / d;
        assert(q * d <= x < q * d + d) by (nonlinear_arith)
            requires
                q == x / d,
                d > 0,
        ;
        assert(q > limit <==> x >= (limit + 1) * d) by (nonlinear_arith)
            requires
                q * d <= x,
                x < q * d + d,
                d > 0,
        ;
        assert(0 < (limit + 1) * d) by (nonlinear_arith)
            requires
                limit >= 0,
                d > 0,
        ;
    }
}

/// Validation marks a price that deviates from the median of all by more than
/// the configured limit as anomalous, else one that is older than configured
/// as stale, and leaves the rest. Only what is not anomalous is used, unless
/// everything is.
pub proof fn only_ordinary_prices_are_used(s: PriceFeedState, points: Seq<PriceDataPoint>, i: int)
    requires
        0 <= i < points.len(),
    ensures
        ({
            let v = validated(s, points);
            let m = median(points)->Some_0;
            let kept = v.filter(|dp: PriceDataPoint| dp.status != PriceStatus::Anomalous);
            &&& v.len() == points.len()
            &&& v[i] == PriceDataPoint {
                status: if anomalous(points[i].price, m, s.config.max_deviation_bps) {
                    PriceStatus::Anomalous
                } else if s.timestamp > points[i].timestamp + s.config.default_ttl_seconds {
                    PriceStatus::Stale
                } else {
                    points[i].status
                },
                ..points[i]
            }
            &&& kept.len() > 0 ==> effective(s, points) == kept
            &&& kept.len() == 0 ==> effective(s, points) == v
            &&& stale(s, points[i]) <==> s.timestamp > points[i].timestamp
                + s.config.default_ttl_seconds
        }),
{
    let v = validated(s, points);
    lemma_ordinary(v, v.len() as int);
    assert(v.take(v.len() as int) =~= v);
}

proof fn lemma_ordinary(v: Seq<PriceDataPoint>, n: int)
    requires
        0 <= n <= v.len(),
    ensures
        ordinary(v, n) == v.take(n).filter(
            |dp: PriceDataPoint| dp.status != PriceStatus::Anomalous,
        ),
    decreases n,
{
    reveal(Seq::filter);
    if n > 0 {
        lemma_ordinary(v, n - 1);
        assert(v.take(n).drop_last() =~= v.take(n - 1));
        assert(v.take(n).last() == v[n - 1]);
    }
}

/// The price of an asset by a method is made of the prices that are used. It
/// names the asset, the time, the method, how many they are and their worst
/// status. Without current prices it is the fallback price, where there is
/// one, from no source and marked so.
pub proof fn prices_are_made_of_what_is_used(
    s: PriceFeedState,
    asset: Symbol,
    method: AggregationMethod,
)
    requires
        s.wf(),
    ensures
        ({
            let points = fetched(s, asset);
            let used = effective(s, points);
            let r = resolved(s, asset, method);
            &&& r is Ok <==> points.len() > 0 || s.fallbacks.contains_key(asset)
            &&& points.len() == 0 && r is Ok ==> {
                &&& r->Ok_0.asset == asset
                &&& r->Ok_0.price == s.fallbacks[asset]
                &&& r->Ok_0.num_sources == 0
                &&& r->Ok_0.status == PriceStatus::Fallback
                &&& r->Ok_0.timestamp == s.timestamp
                &&& r->Ok_0.method == method
            }
            &&& points.len() > 0 ==> {
                &&& used.len() > 0
                &&& r->Ok_0 == aggregated(s, used, method)
                &&& r->Ok_0.method == method
                &&& r->Ok_0.timestamp == s.timestamp
                &&& r->Ok_0.asset == used[0].asset
                &&& r->Ok_0.num_sources == used.len()
                &&& r->Ok_0.status == worst(used, used.len() as int)
            }
        }),
{
    let points = fetched(s, asset);
    let n = s.providers.len() as int;
    lemma_fetched_len(s, asset, n);
    if points.len() > 0 {
        let v = validated(s, points);
        lemma_ordinary_len(v, v.len() as int);
        only_ordinary_prices_are_used(s, points, 0);
    }
}

proof fn lemma_alerts_tell(s: PriceFeedState, points: Seq<PriceDataPoint>, m: i128, n: int)
    requires
        0 <= n <= points.len(),
    ensures
        alerted(s, points, m, n).events == if s.config.alert_on_anomaly {
            s.events + points.take(n).filter(
                |dp: PriceDataPoint| anomalous(dp.price, m, s.config.max_deviation_bps),
            ).map_values(
                |dp: PriceDataPoint|
                    PriceFeedEvent::AnomalyDetected {
                        asset: dp.asset,
                        provider_id: dp.provider_id,
                        price: dp.price,
                    },
            )
        } else {
            s.events
        },
    decreases n,
{
    reveal(Seq::filter);
    let odd = |dp: PriceDataPoint| anomalous(dp.price, m, s.config.max_deviation_bps);
    let told = |dp: PriceDataPoint|
        PriceFeedEvent::AnomalyDetected {
            asset: dp.asset,
            provider_id: dp.provider_id,
            price: dp.price,
        };
    if n > 0 {
        lemma_alerts_tell(s, points, m, n - 1);
        assert(points.take(n).drop_last() =~= points.take(n - 1));
        assert(points.take(n).last() == points[n - 1]);
        let before = points.take(n - 1).filter(odd);
        assert(before.push(points[n - 1]).map_values(told) =~= before.map_values(told).push(
            told(points[n - 1]),
        ));
        assert((s.events + before.map_values(told)).push(told(points[n - 1])) =~= s.events
            + before.map_values(told).push(told(points[n - 1])));
    } else {
        assert(points.take(0).filter(odd).map_values(told) =~= Seq::empty());
    }
}

/// Where alerts are wanted, each anomalous one of the current prices is told
/// by an event, in order. Looking for a price changes nothing else.
pub proof fn anomalous_prices_are_told(s: PriceFeedState, asset: Symbol)
    ensures
        ({
            let points = fetched(s, asset);
            let m = median(points)->Some_0;
            let t = after_resolving(s, asset);
            let told = points.filter(
                |dp: PriceDataPoint| anomalous(dp.price, m, s.config.max_deviation_bps),
            ).map_values(
                |dp: PriceDataPoint|
                    PriceFeedEvent::AnomalyDetected {
                        asset: dp.asset,
                        provider_id: dp.provider_id,
                        price: dp.price,
                    },
            );
            &&& t == PriceFeedState { events: t.events, ..s }
            &&& points.len() > 0 && s.config.alert_on_anomaly ==> t.events == s.events + told
            &&& points.len() == 0 || !s.config.alert_on_anomaly ==> t == s
        }),
{
    let points = fetched(s, asset);
    let n = points.len() as int;
    if n > 0 {
        let m = median(points)->Some_0;
        lemma_alerts(s, points, m, n);
        lemma_alerts_tell(s, points, m, n);
        assert(points.take(n) =~= points);
    }
}

/// Asking for a price caches and records what is answered, by whatever method
/// is the default; asking by a given method does so for prices from
/// providers, and leaves everything as it is for a fallback price. Where there
/// is no price, nothing is kept.
pub proof fn answers_are_kept(s: PriceFeedState, asset: Symbol, method: AggregationMethod)
    ensures
        ({
            let t = after_resolving(s, asset);
            let r = resolved(s, asset, s.default_method);
            let q = resolved(s, asset, method);
            &&& r is Ok ==> priced(s, asset) == kept(t, asset, r->Ok_0)
            &&& r is Err ==> priced(s, asset) == s
            &&& fetched(s, asset).len() > 0 ==> priced_by(s, asset, method) == kept(
                t,
                asset,
                q->Ok_0,
            )
            &&& fetched(s, asset).len() == 0 ==> priced_by(s, asset, method) == s
        }),
{
    anomalous_prices_are_told(s, asset);
}

/// A request of a batch is answered by the method it asks for, or else by the
/// default one.
pub proof fn batch_requests_choose_their_method(s: PriceFeedState, q: BatchPriceRequest)
    ensures
        ({
            let method = if q.method_override is Some {
                q.method_override->Some_0
            } else {
                s.default_method
            };
            let r = resolved(s, q.asset, method);
            let a = response_to(s, q);
            &&& a.asset == q.asset
            &&& a.found <==> r is Ok
            &&& r is Ok ==> a.price == Some(r->Ok_0)
            &&& r is Err ==> a.price is None
        }),
{
}

// ---------------------------------------------------------------------------
// Cache and history
// ---------------------------------------------------------------------------

/// A price that is kept is cached for the configured time from now on, and is
/// the newest of the history, which keeps as many as configured and at most a
/// hundred. Nothing else changes.
pub proof fn prices_are_cached_and_recorded(
    s: PriceFeedState,
    asset: Symbol,
    price: AggregatedPrice,
    later: u64,
)
    requires
        s.config.max_history_entries > 0,
        later >= s.timestamp,
    ensures
        ({
            let t = kept(s, asset, price);
            let at = PriceFeedState { timestamp: later, ..t };
            let limit: int = if s.config.max_history_entries < 100 {
                s.config.max_history_entries as int
            } else {
                100
            };
            let all = history_of(s, asset).push(
                PriceHistoryEntry {
                    price: price.price,
                    timestamp: s.timestamp,
                    num_sources: price.num_sources,
                },
            );
            &&& t.cached == s.cached.insert(asset, t.cached[asset])
            &&& t.cached[asset].aggregated == price
            &&& t.cached[asset].cached_at == s.timestamp
            &&& cache_is_fresh(at, asset) <==> later <= s.timestamp + s.config.default_ttl_seconds
            &&& t.history == s.history.insert(asset, t.history[asset])
            &&& t.history[asset] == if all.len() <= limit {
                all
            } else {
                all.skip(all.len() - limit)
            }
            &&& t == PriceFeedState { cached: t.cached, history: t.history, ..s }
        }),
{
}

/// Before any call there is no administrator, no provider and no price. Prices
/// may deviate by a half, are cached for five minutes, and alerts are given;
/// the median is the default.
pub proof fn nothing_is_there_at_first(now: u64)
    ensures
        ({
            let s = PriceFeedState::fresh(now);
            &&& s.timestamp == now
            &&& s.admin is None
            &&& s.config.max_deviation_bps == 5_000
            &&& s.config.default_ttl_seconds == 300
            &&& s.config.max_history_entries == 100
            &&& s.config.alert_on_anomaly
            &&& s.default_method == AggregationMethod::Median
            &&& s.providers.len() == 0 && s.watched.len() == 0 && s.events.len() == 0
            &&& s.data_points == Map::<(Symbol, Symbol), PriceDataPoint>::empty()
            &&& s.fallbacks == Map::<Symbol, i128>::empty()
        }),
{
}

// ---------------------------------------------------------------------------
// Providers and submissions
// ---------------------------------------------------------------------------

/// A provider with the ID is registered.
pub open spec fn is_registered(s: PriceFeedState, id: Symbol) -> bool {
    exists|j: int| 0 <= j < s.providers.len() && (#[trigger] s.providers[j]).provider_id == id
}

proof fn lemma_registered(s: PriceFeedState, id: Symbol)
    ensures
        is_registered(s, id) <==> provider_of(s, id) is Some,
{
    lemma_provider_index(s.providers, id, 0);
}

/// A new provider is registered last, as it was given; one that is registered
/// is updated in its place or removed, and no other changes.
pub proof fn providers_are_kept_as_given(s: PriceFeedState, p: OracleProvider, j: int)
    requires
        s.wf(),
    ensures
        ({
            let id = p.provider_id;
            let (added, told) = oracle_registered(s, p);
            &&& !is_registered(s, id) ==> told == sym("ok"@) && added == (PriceFeedState {
                providers: s.providers.push(p),
                events: s.events.push(PriceFeedEvent::ProviderAdded { provider_id: id, name: p.name }),
                ..s
            })
            &&& is_registered(s, id) ==> told == sym("err"@) && added == (PriceFeedState {
                events: s.events.push(PriceFeedEvent::ProviderRefused { code: 2 }),
                ..s
            })
            &&& 0 <= j < s.providers.len() && s.providers[j].provider_id == id ==> {
                &&& oracle_updated(s, p) == (
                    PriceFeedState {
                        providers: s.providers.update(j, p),
                        events: s.events.push(PriceFeedEvent::ProviderUpdated { provider_id: id }),
                        ..s
                    },
                    sym("ok"@),
                )
                &&& oracle_removed(s, id) == (
                    PriceFeedState {
                        providers: s.providers.remove(j),
                        events: s.events.push(PriceFeedEvent::ProviderRemoved { provider_id: id }),
                        ..s
                    },
                    sym("ok"@),
                )
            }
            &&& !is_registered(s, id) ==> {
                &&& oracle_updated(s, p) == (s, sym("err"@))
                &&& oracle_removed(s, id) == (s, sym("err"@))
            }
        }),
{
    lemma_registered(s, p.provider_id);
    if 0 <= j < s.providers.len() && s.providers[j].provider_id == p.provider_id {
        lemma_provider(s, j);
        lemma_provider_index(s.providers, p.provider_id, 0);
        let i = provider_index(s.providers, p.provider_id, 0);
        if i != j {
            assert(s.providers[i].provider_id != s.providers[j].provider_id);
        }
    }
}

/// A price is stored exactly where its provider is registered and active: as
/// the provider's latest of the asset, in place of an earlier one.
pub proof fn active_providers_submit(s: PriceFeedState, dp: PriceDataPoint)
    requires
        s.wf(),
    ensures
        ({
            let (t, told) = price_submitted(s, dp);
            let accepted = exists|j: int|
                0 <= j < s.providers.len() && (#[trigger] s.providers[j]).provider_id
                    == dp.provider_id && s.providers[j].is_active;
            &&& accepted ==> told == sym("ok"@) && t == (PriceFeedState {
                data_points: s.data_points.insert((dp.asset, dp.provider_id), dp),
                events: s.events.push(
                    PriceFeedEvent::PriceUpdated { asset: dp.asset, price: dp.price },
                ),
                ..s
            })
            &&& !accepted ==> told == sym("err"@) && t == (PriceFeedState {
                events: s.events.push(
                    PriceFeedEvent::PriceRefused {
                        asset: dp.asset,
                        code: if is_registered(s, dp.provider_id) {
                            11
                        } else {
                            3
                        },
                    },
                ),
                ..s
            })
        }),
{
    lemma_registered(s, dp.provider_id);
    lemma_provider_index(s.providers, dp.provider_id, 0);
    let i = provider_index(s.providers, dp.provider_id, 0);
    if exists|j: int|
        0 <= j < s.providers.len() && (#[trigger] s.providers[j]).provider_id == dp.provider_id
            && s.providers[j].is_active {
        let j = choose|j: int|
            0 <= j < s.providers.len() && (#[trigger] s.providers[j]).provider_id
                == dp.provider_id && s.providers[j].is_active;
        lemma_provider(s, j);
    }
}

proof fn lemma_active(providers: Seq<OracleProvider>, n: int)
    requires
        0 <= n <= providers.len(),
    ensures
        active_among(providers, n) == providers.take(n).filter(|p: OracleProvider| p.is_active),
    decreases n,
{
    reveal(Seq::filter);
    if n > 0 {
        lemma_active(providers, n - 1);
        assert(providers.take(n).drop_last() =~= providers.take(n - 1));
        assert(providers.take(n).last() == providers[n - 1]);
    }
}

/// The active providers are those that were registered as active, in order.
pub proof fn active_providers_are_listed(providers: Seq<OracleProvider>)
    ensures
        active_among(providers, providers.len() as int) == providers.filter(
            |p: OracleProvider| p.is_active,
        ),
{
    let n = providers.len() as int;
    lemma_active(providers, n);
    assert(providers.take(n) =~= providers);
}

proof fn lemma_symbol_index(list: Seq<Symbol>, x: Symbol, from: int)
    requires
        0 <= from <= list.len(),
    ensures
        from <= symbol_index(list, x, from) <= list.len(),
        symbol_index(list, x, from) < list.len() ==> list[symbol_index(list, x, from)] == x,
        forall|j: int| from <= j < symbol_index(list, x, from) ==> list[j] != x,
    decreases list.len() - from,
{
    if from < list.len() && list[from] != x {
        lemma_symbol_index(list, x, from + 1);
    }
}

/// An asset is tracked once, last of all; to no longer track it takes the
/// first mention of it off the list.
pub proof fn assets_are_listed_once(s: PriceFeedState, asset: Symbol, i: int)
    requires
        0 <= i < s.watched.len(),
        forall|j: int| 0 <= j < i ==> s.watched[j] != asset,
    ensures
        !s.watched.contains(asset) ==> asset_watched(s, asset) == (PriceFeedState {
            watched: s.watched.push(asset),
            events: s.events.push(PriceFeedEvent::AssetTracked { asset }),
            ..s
        }) && asset_unwatched(s, asset) == s,
        s.watched.contains(asset) ==> asset_watched(s, asset) == s,
        s.watched[i] == asset ==> asset_unwatched(s, asset) == (PriceFeedState {
            watched: s.watched.remove(i),
            ..s
        }),
{
    lemma_symbol_index(s.watched, asset, 0);
    let k = symbol_index(s.watched, asset, 0);
    if s.watched[i] == asset {
        assert(s.watched.contains(asset));
        assert(k == i);
    }
}

/// The point comes from a registered and active provider.
pub open spec fn is_accepted(s: PriceFeedState, dp: PriceDataPoint) -> bool {
    exists|j: int|
        0 <= j < s.providers.len() && (#[trigger] s.providers[j]).provider_id == dp.provider_id
            && s.providers[j].is_active
}

proof fn lemma_accepted(s: PriceFeedState, dp: PriceDataPoint)
    requires
        s.wf(),
    ensures
        is_accepted(s, dp) <==> submission_fault(s, dp.provider_id) is None,
{
    lemma_provider_index(s.providers, dp.provider_id, 0);
    if is_accepted(s, dp) {
        let j = choose|j: int|
            0 <= j < s.providers.len() && (#[trigger] s.providers[j]).provider_id
                == dp.provider_id && s.providers[j].is_active;
        lemma_provider(s, j);
    }
}

proof fn lemma_batch(
    s: PriceFeedState,
    points: Seq<PriceDataPoint>,
    key: (Symbol, Symbol),
    n: int,
)
    requires
        s.wf(),
        0 <= n <= points.len(),
    ensures
        batch_stored(s, points, n).1 == points.take(n).filter(
            |dp: PriceDataPoint| is_accepted(s, dp),
        ).len(),
        batch_stored(s, points, n).0 == (PriceFeedState {
            data_points: batch_stored(s, points, n).0.data_points,
            ..s
        }),
        (forall|i: int|
            0 <= i < n && is_accepted(s, #[trigger] points[i]) ==> key != (
                points[i].asset,
                points[i].provider_id,
            )) ==> (batch_stored(s, points, n).0.data_points.contains_key(key)
            <==> s.data_points.contains_key(key)) && batch_stored(s, points, n).0.data_points[key]
            == s.data_points[key],
    decreases n,
{
    reveal(Seq::filter);
    if n > 0 {
        lemma_batch(s, points, key, n - 1);
        lemma_accepted(s, points[n - 1]);
        assert(points.take(n).drop_last() =~= points.take(n - 1));
        assert(points.take(n).last() == points[n - 1]);
    }
}

proof fn lemma_batch_last(s: PriceFeedState, points: Seq<PriceDataPoint>, i: int, n: int)
    requires
        s.wf(),
        0 <= i < n <= points.len(),
        is_accepted(s, points[i]),
        forall|j: int|
            i < j < n && is_accepted(s, #[trigger] points[j]) ==> (
                points[j].asset,
                points[j].provider_id,
            ) != (points[i].asset, points[i].provider_id),
    ensures
        batch_stored(s, points, n).0.data_points.contains_key(
            (points[i].asset, points[i].provider_id),
        ),
        batch_stored(s, points, n).0.data_points[(points[i].asset, points[i].provider_id)]
            == points[i],
    decreases n,
{
    lemma_accepted(s, points[n - 1]);
    if i < n - 1 {
        lemma_batch_last(s, points, i, n - 1);
    }
}

/// Of a batch, the prices of registered and active providers are stored and
/// counted. The last of a provider for an asset is then its latest; where
/// there is none, the earlier one stays.
pub proof fn batches_store_what_is_accepted(
    s: PriceFeedState,
    points: Seq<PriceDataPoint>,
    i: int,
    key: (Symbol, Symbol),
)
    requires
        s.wf(),
        0 <= i < points.len(),
        is_accepted(s, points[i]),
        forall|j: int|
            i < j < points.len() && is_accepted(s, #[trigger] points[j]) ==> (
                points[j].asset,
                points[j].provider_id,
            ) != (points[i].asset, points[i].provider_id),
        forall|j: int|
            0 <= j < points.len() && is_accepted(s, #[trigger] points[j]) ==> key != (
                points[j].asset,
                points[j].provider_id,
            ),
    ensures
        ({
            let (t, n) = batch_stored(s, points, points.len() as int);
            let u = batch_submitted(s, points);
            let own = (points[i].asset, points[i].provider_id);
            &&& n == points.filter(|dp: PriceDataPoint| is_accepted(s, dp)).len()
            &&& t.data_points.contains_key(own)
            &&& t.data_points[own] == points[i]
            &&& t.data_points.contains_key(key) <==> s.data_points.contains_key(key)
            &&& t.data_points[key] == s.data_points[key]
            &&& u == PriceFeedState {
                data_points: t.data_points,
                events: s.events.push(PriceFeedEvent::BatchSubmitted { count: n as u32 }),
                ..s
            }
        }),
{
    let n = points.len() as int;
    lemma_batch(s, points, key, n);
    lemma_batch_last(s, points, i, n);
    assert(points.take(n) =~= points);
}

} // verus!
