//! What holds of prices over several calls and for all inputs.

use vstd::prelude::*;

use crate::base::arith::quot;
use crate::base::symbol::Symbol;
use crate::pricefeed::aggregation::{
    aggregated, latest, severity, weight_sum, weighted_average, weighted_sum, worst,
};
use crate::pricefeed::contract::{
    asset_unwatched, asset_watched, cache_is_fresh, lemma_same_prices, oracle_registered,
    oracle_removed, price_submitted, priced, same_sources, symbol_index,
};
use crate::pricefeed::oracle::{
    fetched, lemma_provider_index, provider_index, provider_of, provider_registered,
    submission_fault,
};
use crate::pricefeed::records::{
    AggregationMethod, OracleProvider, PriceDataPoint, PriceFeedError, PriceStatus,
};
use crate::pricefeed::state::PriceFeedState;
use crate::pricefeed::validation::{
    after_resolving, anomalous, ascending, effective, history_cap, history_of, inserted,
    lemma_alerts, lemma_sorted, median, ordinary, resolved, sorted_prices, validated,
};

verus! {

// ---------------------------------------------------------------------------
// Median
// ---------------------------------------------------------------------------

/// How many of the numbers lie in a range.
pub open spec fn count_in(list: Seq<i128>, lo: i128, hi: i128) -> nat
    decreases list.len(),
{
    if list.len() == 0 {
        0
    } else {
        count_in(list.drop_last(), lo, hi) + if lo <= list.last() <= hi {
            1nat
        } else {
            0nat
        }
    }
}

/// How many of the first `n` prices lie in a range.
pub open spec fn prices_in(points: Seq<PriceDataPoint>, lo: i128, hi: i128, n: int) -> nat
    decreases n,
{
    if n <= 0 {
        0
    } else {
        prices_in(points, lo, hi, n - 1) + if lo <= points[n - 1].price <= hi {
            1nat
        } else {
            0nat
        }
    }
}

proof fn lemma_count_inserted(list: Seq<i128>, x: i128, lo: i128, hi: i128)
    ensures
        count_in(inserted(list, x), lo, hi) == count_in(list, lo, hi) + if lo <= x <= hi {
            1nat
        } else {
            0nat
        },
    decreases list.len(),
{
    if list.len() > 0 && list.last() > x {
        lemma_count_inserted(list.drop_last(), x, lo, hi);
        let shorter = inserted(list.drop_last(), x);
        assert(shorter.push(list.last()).drop_last() =~= shorter);
    } else {
        assert(list.push(x).drop_last() =~= list);
    }
}

proof fn lemma_count_sorted(points: Seq<PriceDataPoint>, lo: i128, hi: i128, n: int)
    requires
        0 <= n <= points.len(),
    ensures
        count_in(sorted_prices(points, n), lo, hi) == prices_in(points, lo, hi, n),
    decreases n,
{
    if n > 0 {
        lemma_count_sorted(points, lo, hi, n - 1);
        lemma_count_inserted(sorted_prices(points, n - 1), points[n - 1].price, lo, hi);
    }
}

/// Where the numbers from `k` on are all too large, no more than `k` are in range.
proof fn lemma_count_below(list: Seq<i128>, lo: i128, hi: i128, k: int)
    requires
        0 <= k <= list.len(),
        forall|i: int| k <= i < list.len() ==> list[i] > hi,
    ensures
        count_in(list, lo, hi) <= k,
    decreases list.len(),
{
    if list.len() > 0 {
        if k < list.len() {
            lemma_count_below(list.drop_last(), lo, hi, k);
        } else {
            lemma_count_below(list.drop_last(), lo, hi, k - 1);
        }
    }
}

/// Where the first `k` numbers are all too small, no more than the rest are in range.
proof fn lemma_count_above(list: Seq<i128>, lo: i128, hi: i128, k: int)
    requires
        0 <= k <= list.len(),
        forall|i: int| 0 <= i < k ==> list[i] < lo,
    ensures
        count_in(list, lo, hi) <= list.len() - k,
    decreases list.len(),
{
    if list.len() > 0 {
        if k < list.len() {
            lemma_count_above(list.drop_last(), lo, hi, k);
        } else {
            lemma_count_above(list.drop_last(), lo, hi, k - 1);
        }
    }
}

/// Whoever reports the other prices, where more than half of them lie in a
/// range the median lies in it.
pub proof fn a_majority_bounds_the_median(points: Seq<PriceDataPoint>, lo: i128, hi: i128)
    requires
        points.len() > 0,
        2 * prices_in(points, lo, hi, points.len() as int) > points.len(),
    ensures
        lo <= median(points)->Some_0 <= hi,
{
    let n = points.len() as int;
    let list = sorted_prices(points, n);
    lemma_sorted(points, n);
    lemma_count_sorted(points, lo, hi, n);
    let h = n / 2;
    if list[h] > hi {
        lemma_count_below(list, lo, hi, h);
    }
    if n % 2 == 1 {
        if list[h] < lo {
            lemma_count_above(list, lo, hi, h + 1);
        }
    } else {
        if list[h - 1] < lo {
            lemma_count_above(list, lo, hi, h);
        }
        assert(lo <= list[h - 1] <= list[h] <= hi);
        lemma_half_way_between(list[h - 1], list[h]);
    }
}

proof fn lemma_half_way_between(a: i128, b: i128)
    requires
        a <= b,
    ensures
        a <= quot(a + b, 2) <= b,
{
}

/// Each price counts as often in the sorted list as it was reported.
pub proof fn sorting_keeps_every_price(points: Seq<PriceDataPoint>, x: i128)
    ensures
        count_in(sorted_prices(points, points.len() as int), x, x) == prices_in(
            points,
            x,
            x,
            points.len() as int,
        ),
        ascending(sorted_prices(points, points.len() as int)),
{
    lemma_count_sorted(points, x, x, points.len() as int);
    lemma_sorted(points, points.len() as int);
}

// ---------------------------------------------------------------------------
// Aggregation
// ---------------------------------------------------------------------------

/// The status of an aggregate is that of some point, or fresh, and no point
/// has a worse one.
pub proof fn the_worst_status_counts(points: Seq<PriceDataPoint>, n: int)
    requires
        0 <= n <= points.len(),
    ensures
        forall|i: int|
            0 <= i < n ==> severity((#[trigger] points[i]).status) <= severity(worst(points, n)),
        worst(points, n) == PriceStatus::Fresh || exists|i: int|
            0 <= i < n && (#[trigger] points[i]).status == worst(points, n),
        n == 0 ==> worst(points, n) == PriceStatus::Fresh,
    decreases n,
{
    if n > 0 {
        the_worst_status_counts(points, n - 1);
        if severity(points[n - 1].status) > severity(worst(points, n - 1)) {
            assert(points[n - 1].status == worst(points, n));
        }
    }
}

/// Another point never makes the status of an aggregate better.
pub proof fn another_point_never_helps(points: Seq<PriceDataPoint>, dp: PriceDataPoint)
    ensures
        severity(worst(points.push(dp), points.push(dp).len() as int)) >= severity(
            worst(points, points.len() as int),
        ),
{
    let n = points.len() as int;
    let more = points.push(dp);
    the_worst_status_counts(points, n);
    the_worst_status_counts(more, n + 1);
    if worst(points, n) != PriceStatus::Fresh {
        let i = choose|i: int| 0 <= i < n && (#[trigger] points[i]).status == worst(points, n);
        assert(more[i] == points[i]);
    }
}

proof fn lemma_no_worse(a: Seq<PriceDataPoint>, b: Seq<PriceDataPoint>)
    requires
        a.to_multiset() == b.to_multiset(),
    ensures
        severity(worst(a, a.len() as int)) <= severity(worst(b, b.len() as int)),
{
    broadcast use vstd::seq_lib::group_to_multiset_ensures;

    the_worst_status_counts(a, a.len() as int);
    the_worst_status_counts(b, b.len() as int);
    if worst(a, a.len() as int) != PriceStatus::Fresh {
        let i = choose|i: int|
            0 <= i < a.len() && (#[trigger] a[i]).status == worst(a, a.len() as int);
        assert(a.contains(a[i]));
        assert(b.to_multiset().count(a[i]) > 0);
        assert(b.contains(a[i]));
    }
}

/// The order of the points does not matter for the status of their aggregate.
pub proof fn the_worst_status_has_no_order(a: Seq<PriceDataPoint>, b: Seq<PriceDataPoint>)
    requires
        a.to_multiset() == b.to_multiset(),
    ensures
        worst(a, a.len() as int) == worst(b, b.len() as int),
{
    lemma_no_worse(a, b);
    lemma_no_worse(b, a);
}

/// No point is more recent than the latest.
pub proof fn the_latest_is_the_most_recent(points: Seq<PriceDataPoint>, n: int)
    requires
        0 < n <= points.len(),
    ensures
        0 <= latest(points, n) < n,
        forall|i: int|
            0 <= i < n ==> (#[trigger] points[i]).timestamp <= points[latest(points, n)].timestamp,
    decreases n,
{
    if n > 1 {
        the_latest_is_the_most_recent(points, n - 1);
    }
}

proof fn lemma_weighted_bounds(
    points: Seq<PriceDataPoint>,
    weight: spec_fn(PriceDataPoint) -> int,
    lo: i128,
    hi: i128,
    n: int,
)
    requires
        0 <= n <= points.len(),
        forall|i: int|
            0 <= i < points.len() && weight(#[trigger] points[i]) > 0 ==> lo <= points[i].price
                <= hi,
        forall|i: int| 0 <= i < points.len() ==> weight(#[trigger] points[i]) >= 0,
    ensures
        weight_sum(points, weight, n) >= 0,
        lo * weight_sum(points, weight, n) <= weighted_sum(points, weight, n) <= hi * weight_sum(
            points,
            weight,
            n,
        ),
    decreases n,
{
    if n > 0 {
        lemma_weighted_bounds(points, weight, lo, hi, n - 1);
        let p = points[n - 1].price as int;
        let w = weight(points[n - 1]);
        let a = lo as int;
        let b = hi as int;
        let t = weight_sum(points, weight, n - 1);
        assert(a * w <= p * w <= b * w) by (nonlinear_arith)
            requires
                w == 0 || (w > 0 && a <= p <= b),
        ;
        assert(a * (t + w) == a * t + a * w) by (nonlinear_arith);
        assert(b * (t + w) == b * t + b * w) by (nonlinear_arith);
    }
}

proof fn lemma_average_between(sum: int, total: int, lo: int, hi: int)
    requires
        total > 0,
        lo * total <= sum <= hi * total,
    ensures
        lo <= quot(sum, total) <= hi,
{
    if sum > 0 {
        let q = sum / total;
        assert(q * total <= sum < (q + 1) * total && q >= 0) by (nonlinear_arith)
            requires
                q == sum / total,
                total > 0,
                sum > 0,
        ;
        assert(q <= hi) by (nonlinear_arith)
            requires
                q * total <= sum,
                sum <= hi * total,
                total > 0,
        ;
        assert(lo < q + 1) by (nonlinear_arith)
            requires
                lo * total <= sum,
                sum < (q + 1) * total,
                total > 0,
        ;
    } else if sum < 0 {
        let q = (-sum) / total;
        assert(q * total <= -sum < (q + 1) * total && q >= 0) by (nonlinear_arith)
            requires
                q == (-sum) / total,
                total > 0,
                -sum > 0,
        ;
        assert(lo <= -q) by (nonlinear_arith)
            requires
                lo * total <= sum,
                q * total <= -sum,
                total > 0,
        ;
        assert(-q - 1 < hi) by (nonlinear_arith)
            requires
                -sum < (q + 1) * total,
                sum <= hi * total,
                total > 0,
        ;
    } else {
        assert(lo <= 0 <= hi) by (nonlinear_arith)
            requires
                lo * total <= 0,
                0 <= hi * total,
                total > 0,
        ;
    }
}

/// A weighted average lies between the lowest and the highest of the prices
/// that have a weight, where some price has one.
pub proof fn averages_lie_between_the_prices(
    points: Seq<PriceDataPoint>,
    weight: spec_fn(PriceDataPoint) -> int,
    lo: i128,
    hi: i128,
)
    requires
        forall|i: int|
            0 <= i < points.len() && weight(#[trigger] points[i]) > 0 ==> lo <= points[i].price
                <= hi,
        forall|i: int| 0 <= i < points.len() ==> weight(#[trigger] points[i]) >= 0,
        weight_sum(points, weight, points.len() as int) > 0,
    ensures
        lo <= weighted_average(points, weight) <= hi,
{
    let n = points.len() as int;
    lemma_weighted_bounds(points, weight, lo, hi, n);
    lemma_average_between(
        weighted_sum(points, weight, n),
        weight_sum(points, weight, n),
        lo as int,
        hi as int,
    );
}

// ---------------------------------------------------------------------------
// Validation
// ---------------------------------------------------------------------------

proof fn lemma_ordinary(points: Seq<PriceDataPoint>, n: int)
    requires
        0 <= n <= points.len(),
    ensures
        forall|i: int|
            0 <= i < ordinary(points, n).len() ==> (#[trigger] ordinary(points, n)[i]).status
                != PriceStatus::Anomalous,
        (exists|i: int| 0 <= i < n && (#[trigger] points[i]).status != PriceStatus::Anomalous)
            ==> ordinary(points, n).len() > 0,
    decreases n,
{
    if n > 0 {
        lemma_ordinary(points, n - 1);
    }
}

/// An anomalous price takes part in an aggregate only where all prices are
/// anomalous.
pub proof fn anomalous_prices_are_left_out(s: PriceFeedState, points: Seq<PriceDataPoint>, k: int)
    requires
        0 <= k < points.len(),
        validated(s, points)[k].status != PriceStatus::Anomalous,
    ensures
        effective(s, points).len() > 0,
        forall|i: int|
            0 <= i < effective(s, points).len() ==> (#[trigger] effective(s, points)[i]).status
                != PriceStatus::Anomalous,
{
    let v = validated(s, points);
    lemma_ordinary(v, v.len() as int);
    assert(v[k].status != PriceStatus::Anomalous);
}

/// The median itself is never anomalous, nor is a price equal to it, where the
/// limit is not negative.
pub proof fn the_median_is_not_anomalous(m: i128, max_deviation_bps: i128)
    requires
        max_deviation_bps >= 0,
    ensures
        !anomalous(m, m, max_deviation_bps),
{
    if m != 0 {
        let d: int = if m < 0 {
            -m
        } else {
            m as int
        };
        assert(0int / d == 0) by (nonlinear_arith)
            requires
                d > 0,
        ;
    }
}

/// Without prices that count, a fallback price is given, marked as such; and
/// without that the error.
pub proof fn fallbacks_step_in(s: PriceFeedState, asset: Symbol, method: AggregationMethod)
    requires
        fetched(s, asset).len() == 0,
    ensures
        s.fallbacks.contains_key(asset) ==> resolved(s, asset, method) is Ok && resolved(
            s,
            asset,
            method,
        )->Ok_0.price == s.fallbacks[asset] && resolved(s, asset, method)->Ok_0.status
            == PriceStatus::Fallback,
        !s.fallbacks.contains_key(asset) ==> resolved(s, asset, method) is Err,
{
}

// ---------------------------------------------------------------------------
// Providers and submissions
// ---------------------------------------------------------------------------

/// A price that was accepted is the provider's price of the asset, until the
/// provider submits another.
pub proof fn the_last_submission_counts(s: PriceFeedState, dp: PriceDataPoint, other: (Symbol, Symbol))
    requires
        submission_fault(s, dp.provider_id) is None,
        other != (dp.asset, dp.provider_id),
    ensures
        price_submitted(s, dp).0.data_points[(dp.asset, dp.provider_id)] == dp,
        price_submitted(s, dp).0.data_points.contains_key(other) == s.data_points.contains_key(
            other,
        ),
        s.data_points.contains_key(other) ==> price_submitted(s, dp).0.data_points[other]
            == s.data_points[other],
{
}

/// A refused submission changes no price.
pub proof fn refused_submissions_change_no_price(s: PriceFeedState, dp: PriceDataPoint)
    requires
        submission_fault(s, dp.provider_id) is Some,
    ensures
        same_sources(s, price_submitted(s, dp).0),
{
}

/// A provider that was registered is there as it was given, and cannot be
/// registered again.
pub proof fn a_registered_provider_is_there(s: PriceFeedState, p: OracleProvider)
    requires
        provider_of(s, p.provider_id) is None,
    ensures
        provider_of(oracle_registered(s, p).0, p.provider_id) == Some(p),
        provider_registered(oracle_registered(s, p).0, p) is Err,
{
    let t = oracle_registered(s, p).0;
    let n = s.providers.len() as int;
    lemma_provider_index(s.providers, p.provider_id, 0);
    lemma_provider_index(t.providers, p.provider_id, 0);
    let at = provider_index(t.providers, p.provider_id, 0);
    assert(t.providers[n] == p);
    if at < n {
        assert(t.providers[at] == s.providers[at]);
    }
    assert(at == n);
}

/// A provider that was removed is gone, and its submissions are refused.
pub proof fn a_removed_provider_is_gone(s: PriceFeedState, id: Symbol)
    requires
        s.wf(),
        provider_of(s, id) is Some,
    ensures
        provider_of(oracle_removed(s, id).0, id) is None,
        submission_fault(oracle_removed(s, id).0, id) == Some(PriceFeedError::OracleNotFound),
{
    let t = oracle_removed(s, id).0;
    let at = provider_index(s.providers, id, 0);
    lemma_provider_index(s.providers, id, 0);
    lemma_provider_index(t.providers, id, 0);
    let k = provider_index(t.providers, id, 0);
    if k < t.providers.len() {
        let j: int = if k < at {
            k
        } else {
            k + 1
        };
        assert(t.providers[k] == s.providers[j]);
        assert(s.providers[j].provider_id == s.providers[at].provider_id);
    }
}

// ---------------------------------------------------------------------------
// Cache and history
// ---------------------------------------------------------------------------

/// A price that was just given is cached, is fresh, and is the newest of the
/// history, where the configuration keeps one.
pub proof fn given_prices_are_kept(s: PriceFeedState, asset: Symbol)
    requires
        resolved(s, asset, s.default_method) is Ok,
    ensures
        ({
            let t = priced(s, asset);
            let price = resolved(s, asset, s.default_method)->Ok_0;
            &&& t.cached.contains_key(asset)
            &&& t.cached[asset].aggregated == price
            &&& cache_is_fresh(t, asset)
            &&& history_of(t, asset).len() <= history_cap(s)
            &&& history_cap(s) > 0 ==> history_of(t, asset).last().price == price.price
        }),
{
    lemma_resolving(s, asset);
}

proof fn lemma_resolving(s: PriceFeedState, asset: Symbol)
    ensures
        after_resolving(s, asset) == (PriceFeedState {
            events: after_resolving(s, asset).events,
            ..s
        }),
{
    let points = fetched(s, asset);
    if points.len() > 0 {
        lemma_alerts(s, points, median(points)->Some_0, points.len() as int);
    }
}

/// Asking for a price does not change what prices are.
pub proof fn asking_changes_no_price(
    s: PriceFeedState,
    asset: Symbol,
    other: Symbol,
    method: AggregationMethod,
)
    ensures
        resolved(priced(s, asset), other, method) == resolved(s, other, method),
{
    lemma_resolving(s, asset);
    lemma_same_prices(s, priced(s, asset), other, method);
}

/// Tracking an asset tracks it once; no longer tracking it undoes that.
pub proof fn tracking_comes_and_goes(s: PriceFeedState, asset: Symbol)
    requires
        s.wf(),
        !s.watched.contains(asset),
    ensures
        asset_watched(s, asset).watched.contains(asset),
        asset_watched(asset_watched(s, asset), asset) == asset_watched(s, asset),
        asset_unwatched(asset_watched(s, asset), asset).watched == s.watched,
{
    let t = asset_watched(s, asset);
    let n = s.watched.len() as int;
    assert(t.watched[n] == asset);
    lemma_symbol_found(t.watched, asset, 0, n);
    assert(t.watched.remove(n) =~= s.watched);
}

proof fn lemma_symbol_found(list: Seq<Symbol>, x: Symbol, from: int, at: int)
    requires
        0 <= from <= at < list.len(),
        list[at] == x,
        !list.take(at).contains(x),
    ensures
        symbol_index(list, x, from) == at,
    decreases at - from,
{
    if from < at {
        if list[from] == x {
            assert(list.take(at)[from] == x);
        }
        lemma_symbol_found(list, x, from + 1, at);
    }
}

} // verus!
