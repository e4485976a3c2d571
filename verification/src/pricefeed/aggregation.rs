//! Multi-oracle price aggregation strategies.

use vstd::prelude::*;

use crate::base::arith::{checked_quot, fits, lemma_quot_bounds, quot};
use crate::base::symbol::{sym, symbol_short};
use crate::pricefeed::oracle::{provider_of, OracleManager};
use crate::pricefeed::records::{AggregatedPrice, AggregationMethod, PriceDataPoint, PriceStatus};
use crate::pricefeed::state::{PriceFeedEnv, PriceFeedState};
use crate::pricefeed::validation::{calculate_median, median};

verus! {

/// Weight of a price that was observed just now, in a time-weighted average.
pub const TWAP_BASE_WEIGHT: i128 = 1_000_000;

/// Weight of a provider that is not registered.
pub const DEFAULT_TRUST_WEIGHT: u32 = 1000;

/// How bad a status is.
pub open spec fn severity(status: PriceStatus) -> int {
    match status {
        PriceStatus::Fresh => 0,
        PriceStatus::Fallback => 1,
        PriceStatus::Stale => 2,
        PriceStatus::Anomalous => 3,
        PriceStatus::Unknown => 4,
    }
}

/// The worst status of the first `n` points; fresh where there are none.
pub open spec fn worst(points: Seq<PriceDataPoint>, n: int) -> PriceStatus
    decreases n,
{
    if n <= 0 {
        PriceStatus::Fresh
    } else {
        let before = worst(points, n - 1);
        if severity(points[n - 1].status) > severity(before) {
            points[n - 1].status
        } else {
            before
        }
    }
}

/// The position of the most recent of the first `n` points, the last where
/// several are.
pub open spec fn latest(points: Seq<PriceDataPoint>, n: int) -> int
    decreases n,
{
    if n <= 1 {
        0
    } else {
        let before = latest(points, n - 1);
        if points[n - 1].timestamp >= points[before].timestamp {
            n - 1
        } else {
            before
        }
    }
}

/// The weight of a price in a time-weighted average: the more recent the
/// heavier, and nothing where it is too old.
pub open spec fn time_weight(now: u64, dp: PriceDataPoint) -> int {
    let age = if now >= dp.timestamp {
        now - dp.timestamp
    } else {
        0
    };
    if age < TWAP_BASE_WEIGHT {
        TWAP_BASE_WEIGHT - age
    } else {
        0
    }
}

/// The weight of a price by the trust in its provider.
pub open spec fn trust_weight(s: PriceFeedState, dp: PriceDataPoint) -> int {
    match provider_of(s, dp.provider_id) {
        Some(p) => p.trust_weight as int,
        None => DEFAULT_TRUST_WEIGHT as int,
    }
}

/// The sum of the weights of the first `n` points.
pub open spec fn weight_sum(
    points: Seq<PriceDataPoint>,
    weight: spec_fn(PriceDataPoint) -> int,
    n: int,
) -> int
    decreases n,
{
    if n <= 0 {
        0
    } else {
        weight_sum(points, weight, n - 1) + weight(points[n - 1])
    }
}

/// The sum of the prices of the first `n` points, each times its weight.
pub open spec fn weighted_sum(
    points: Seq<PriceDataPoint>,
    weight: spec_fn(PriceDataPoint) -> int,
    n: int,
) -> int
    decreases n,
{
    if n <= 0 {
        0
    } else {
        weighted_sum(points, weight, n - 1) + points[n - 1].price * weight(points[n - 1])
    }
}

/// All weighted prices and their partial sums are numbers of `i128`.
pub open spec fn weighted_fits(
    points: Seq<PriceDataPoint>,
    weight: spec_fn(PriceDataPoint) -> int,
) -> bool {
    &&& forall|n: int| 0 <= n <= points.len() ==> fits(#[trigger] weighted_sum(points, weight, n))
    &&& forall|i: int|
        0 <= i < points.len() ==> fits((#[trigger] points[i]).price * weight(points[i]))
}

/// The average of the prices by their weights, rounded toward zero; nothing
/// where nothing has a weight.
pub open spec fn weighted_average(
    points: Seq<PriceDataPoint>,
    weight: spec_fn(PriceDataPoint) -> int,
) -> i128 {
    let n = points.len() as int;
    if weight_sum(points, weight, n) > 0 {
        quot(weighted_sum(points, weight, n), weight_sum(points, weight, n)) as i128
    } else {
        0
    }
}

/// The weights by time.
pub open spec fn by_time(now: u64) -> spec_fn(PriceDataPoint) -> int {
    |dp: PriceDataPoint| time_weight(now, dp)
}

/// The weights by trust.
pub open spec fn by_trust(s: PriceFeedState) -> spec_fn(PriceDataPoint) -> int {
    |dp: PriceDataPoint| trust_weight(s, dp)
}

/// The price that a method makes of the points.
pub open spec fn method_price(
    s: PriceFeedState,
    points: Seq<PriceDataPoint>,
    method: AggregationMethod,
) -> i128 {
    match method {
        AggregationMethod::Median => match median(points) {
            Some(m) => m,
            None => 0,
        },
        AggregationMethod::Latest => points[latest(points, points.len() as int)].price,
        AggregationMethod::TWAP => weighted_average(points, by_time(s.timestamp)),
        AggregationMethod::WeightedAverage => weighted_average(points, by_trust(s)),
    }
}

/// What aggregating points by a method gives; without points a placeholder.
pub open spec fn aggregated(
    s: PriceFeedState,
    points: Seq<PriceDataPoint>,
    method: AggregationMethod,
) -> AggregatedPrice {
    if points.len() == 0 {
        AggregatedPrice {
            asset: sym(""@),
            price: 0,
            timestamp: s.timestamp,
            num_sources: 0,
            method,
            status: PriceStatus::Unknown,
        }
    } else {
        AggregatedPrice {
            asset: points[0].asset,
            price: method_price(s, points, method),
            timestamp: s.timestamp,
            num_sources: points.len() as u32,
            method,
            status: worst(points, points.len() as int),
        }
    }
}

/// The price can be computed by the method.
pub open spec fn can_aggregate(
    s: PriceFeedState,
    points: Seq<PriceDataPoint>,
    method: AggregationMethod,
) -> bool {
    match method {
        AggregationMethod::Median => true,
        AggregationMethod::Latest => true,
        AggregationMethod::TWAP => weighted_fits(points, by_time(s.timestamp)),
        AggregationMethod::WeightedAverage => weighted_fits(points, by_trust(s)),
    }
}

/// What a price is depends on the time and the providers alone, besides the points.
pub proof fn lemma_same_sources(
    s: PriceFeedState,
    t: PriceFeedState,
    points: Seq<PriceDataPoint>,
    method: AggregationMethod,
)
    requires
        s.timestamp == t.timestamp,
        s.providers == t.providers,
    ensures
        aggregated(s, points, method) == aggregated(t, points, method),
        can_aggregate(s, points, method) == can_aggregate(t, points, method),
{
    assert(by_trust(s) =~= by_trust(t));
}

/// Engine for aggregating prices across multiple oracle sources.
pub struct AggregateEngine;

impl AggregateEngine {
    /// Aggregate a set of validated data points using the given method.
    pub fn aggregate(
        env: &PriceFeedEnv,
        data_points: &Vec<PriceDataPoint>,
        method: AggregationMethod,
    ) -> (r: AggregatedPrice)
        requires
            data_points@.len() <= u32::MAX,
            can_aggregate(env@, data_points@, method),
        ensures
            r == aggregated(env@, data_points@, method),
    {
        let n: usize = data_points.len();
        if n == 0 {
            return AggregatedPrice {
                asset: symbol_short(""),
                price: 0,
                timestamp: env.timestamp,
                num_sources: 0,
                method,
                status: PriceStatus::Unknown,
            };
        }
        let price: i128 = match method {
            AggregationMethod::Median => Self::aggregate_median(data_points),
            AggregationMethod::Latest => Self::aggregate_latest(data_points),
            AggregationMethod::TWAP => Self::aggregate_twap(env, data_points),
            AggregationMethod::WeightedAverage => Self::aggregate_weighted(env, data_points),
        };
        AggregatedPrice {
            asset: data_points[0].asset,
            price,
            timestamp: env.timestamp,
            num_sources: n as u32,
            method,
            status: Self::worst_status(data_points),
        }
    }

    /// The median of the prices. Resistant to outlier manipulation.
    fn aggregate_median(data_points: &Vec<PriceDataPoint>) -> (x: i128)
        ensures
            x == (match median(data_points@) {
                Some(m) => m,
                None => 0,
            }),
    {
        match calculate_median(data_points) {
            Some(m) => m,
            None => 0,
        }
    }

    /// The most recently updated price.
    fn aggregate_latest(data_points: &Vec<PriceDataPoint>) -> (x: i128)
        requires
            data_points@.len() > 0,
        ensures
            x == data_points@[latest(data_points@, data_points@.len() as int)].price,
    {
        let mut best: usize = 0;
        let mut i: usize = 1;
        while i < data_points.len()
            invariant
                1 <= i <= data_points@.len(),
                best < i,
                best == latest(data_points@, i as int),
            decreases data_points@.len() - i,
        {
            if data_points[i].timestamp >= data_points[best].timestamp {
                best = i;
            }
            i += 1;
        }
        data_points[best].price
    }

    fn divide(sum: i128, total: i128) -> (x: i128)
        requires
            total >= 0,
        ensures
            total > 0 ==> x == quot(sum as int, total as int),
            total == 0 ==> x == 0,
    {
        if total > 0 {
            proof {
                lemma_quot_bounds(sum as int, total as int);
            }
            match checked_quot(sum, total) {
                Some(x) => x,
                None => 0,
            }
        } else {
            0
        }
    }

    /// TWAP (Time-Weighted Average Price): weights each price by how recent
    /// it is. More recent prices have higher weight.
    fn aggregate_twap(env: &PriceFeedEnv, data_points: &Vec<PriceDataPoint>) -> (x: i128)
        requires
            data_points@.len() <= u32::MAX,
            weighted_fits(data_points@, by_time(env@.timestamp)),
        ensures
            x == weighted_average(data_points@, by_time(env@.timestamp)),
    {
        let ghost weight = by_time(env@.timestamp);
        let mut sum: i128 = 0;
        let mut total: i128 = 0;
        let mut i: usize = 0;
        while i < data_points.len()
            invariant
                i <= data_points@.len() <= u32::MAX,
                weight == by_time(env@.timestamp),
                weighted_fits(data_points@, weight),
                sum == weighted_sum(data_points@, weight, i as int),
                total == weight_sum(data_points@, weight, i as int),
                0 <= total <= i * u32::MAX,
            decreases data_points@.len() - i,
        {
            let dp: PriceDataPoint = data_points[i];
            let age: u64 = env.timestamp.saturating_sub(dp.timestamp);
            let w: i128 = if age < TWAP_BASE_WEIGHT as u64 {
                TWAP_BASE_WEIGHT - age as i128
            } else {
                0
            };
            proof {
                assert(w == weight(data_points@[i as int]));
                assert(fits(weighted_sum(data_points@, weight, i + 1)));
                assert(fits(data_points@[i as int].price * weight(data_points@[i as int])));
                assert((i + 1) * u32::MAX == i * u32::MAX + u32::MAX) by (nonlinear_arith);
                assert(i * u32::MAX <= u32::MAX * u32::MAX) by (nonlinear_arith)
                    requires
                        i <= u32::MAX,
                ;
            }
            sum = sum + dp.price * w;
            total = total + w;
            i += 1;
        }
        Self::divide(sum, total)
    }

    /// Weighted average using oracle provider trust weights.
    fn aggregate_weighted(env: &PriceFeedEnv, data_points: &Vec<PriceDataPoint>) -> (x: i128)
        requires
            data_points@.len() <= u32::MAX,
            weighted_fits(data_points@, by_trust(env@)),
        ensures
            x == weighted_average(data_points@, by_trust(env@)),
    {
        let ghost weight = by_trust(env@);
        let mut sum: i128 = 0;
        let mut total: i128 = 0;
        let mut i: usize = 0;
        while i < data_points.len()
            invariant
                i <= data_points@.len() <= u32::MAX,
                weight == by_trust(env@),
                weighted_fits(data_points@, weight),
                sum == weighted_sum(data_points@, weight, i as int),
                total == weight_sum(data_points@, weight, i as int),
                0 <= total <= i * u32::MAX,
            decreases data_points@.len() - i,
        {
            let dp: PriceDataPoint = data_points[i];
            let w: i128 = match OracleManager::get_provider(env, dp.provider_id) {
                Some(p) => p.trust_weight as i128,
                None => DEFAULT_TRUST_WEIGHT as i128,
            };
            proof {
                assert(w == weight(data_points@[i as int]));
                assert(fits(weighted_sum(data_points@, weight, i + 1)));
                assert(fits(data_points@[i as int].price * weight(data_points@[i as int])));
                assert((i + 1) * u32::MAX == i * u32::MAX + u32::MAX) by (nonlinear_arith);
                assert(i * u32::MAX <= u32::MAX * u32::MAX) by (nonlinear_arith)
                    requires
                        i <= u32::MAX,
                ;
            }
            sum = sum + dp.price * w;
            total = total + w;
            i += 1;
        }
        Self::divide(sum, total)
    }

    /// The weight of a price in the averages that have weights.
    fn weight(env: &PriceFeedEnv, dp: &PriceDataPoint, method: AggregationMethod) -> (w: i128)
        ensures
            method == AggregationMethod::TWAP ==> w == time_weight(env@.timestamp, *dp),
            method == AggregationMethod::WeightedAverage ==> w == trust_weight(env@, *dp),
    {
        match method {
            AggregationMethod::TWAP => {
                let age: u64 = env.timestamp.saturating_sub(dp.timestamp);
                if age < TWAP_BASE_WEIGHT as u64 {
                    TWAP_BASE_WEIGHT - age as i128
                } else {
                    0
                }
            },
            AggregationMethod::WeightedAverage => match OracleManager::get_provider(
                env,
                dp.provider_id,
            ) {
                Some(p) => p.trust_weight as i128,
                None => DEFAULT_TRUST_WEIGHT as i128,
            },
            _ => 1,
        }
    }

    /// Whether the numbers that the method works with stay within bounds.
    pub fn is_computable(
        env: &PriceFeedEnv,
        data_points: &Vec<PriceDataPoint>,
        method: AggregationMethod,
    ) -> (b: bool)
        ensures
            b == can_aggregate(env@, data_points@, method),
    {
        let ghost weight = match method {
            AggregationMethod::TWAP => by_time(env@.timestamp),
            _ => by_trust(env@),
        };
        match method {
            AggregationMethod::Median => return true,
            AggregationMethod::Latest => return true,
            _ => {},
        }
        let mut sum: i128 = 0;
        let mut i: usize = 0;
        while i < data_points.len()
            invariant
                i <= data_points@.len(),
                method == AggregationMethod::TWAP || method == AggregationMethod::WeightedAverage,
                weight == (match method {
                    AggregationMethod::TWAP => by_time(env@.timestamp),
                    _ => by_trust(env@),
                }),
                sum == weighted_sum(data_points@, weight, i as int),
                forall|n: int|
                    0 <= n <= i ==> fits(#[trigger] weighted_sum(data_points@, weight, n)),
                forall|k: int|
                    0 <= k < i ==> fits(
                        (#[trigger] data_points@[k]).price * weight(data_points@[k]),
                    ),
            decreases data_points@.len() - i,
        {
            let w: i128 = Self::weight(env, &data_points[i], method);
            proof {
                assert(w == weight(data_points@[i as int]));
            }
            let part: i128 = match data_points[i].price.checked_mul(w) {
                Some(x) => x,
                None => {
                    assert(!fits(data_points@[i as int].price * weight(data_points@[i as int])));
                    return false;
                },
            };
            sum = match sum.checked_add(part) {
                Some(x) => x,
                None => {
                    assert(!fits(weighted_sum(data_points@, weight, i + 1)));
                    return false;
                },
            };
            i += 1;
        }
        true
    }

    /// Determine the worst (highest severity) status among data points.
    /// Priority: Unknown > Anomalous > Stale > Fallback > Fresh
    fn worst_status(data_points: &Vec<PriceDataPoint>) -> (r: PriceStatus)
        ensures
            r == worst(data_points@, data_points@.len() as int),
    {
        let mut so_far: PriceStatus = PriceStatus::Fresh;
        let mut i: usize = 0;
        while i < data_points.len()
            invariant
                i <= data_points@.len(),
                so_far == worst(data_points@, i as int),
            decreases data_points@.len() - i,
        {
            let status: PriceStatus = data_points[i].status;
            if Self::rank(status) > Self::rank(so_far) {
                so_far = status;
            }
            i += 1;
        }
        so_far
    }

    fn rank(status: PriceStatus) -> (n: u32)
        ensures
            n == severity(status),
    {
        match status {
            PriceStatus::Fresh => 0,
            PriceStatus::Fallback => 1,
            PriceStatus::Stale => 2,
            PriceStatus::Anomalous => 3,
            PriceStatus::Unknown => 4,
        }
    }
}

} // verus!
