//! What holds of fees over several calls.

use vstd::prelude::*;

use crate::base::address::Address;
use crate::base::arith::lemma_quot_bounds;
use crate::base::sums::{lemma_map_sum_insert, map_sum};
use crate::base::symbol::Symbol;
use crate::base::table::value_or;
use crate::base::vecs::capped_lists_stay_capped;
use crate::fee::contract::{
    base_share, base_shares, can_collect, collected, collection_quote, distribution, for_payer,
    lemma_base_shares, quoted, record_of, rounding_rest, same_target, share_total, target_index,
    terms, waiver_set, waivers_with, waivers_without,
};
use crate::fee::engine::{capped, clamped, rate_of, raw_fee, winning_tier};
use crate::fee::records::{
    FeeCategory, FeeRecord, FeeWaiver, RevenueRecipient, TierEntry, BPS_DENOM, MAX_HISTORY,
    MAX_WAIVERS,
};
use crate::fee::reporting::{any_record, fee_sum, in_category};
use crate::fee::state::FeeState;

verus! {

// ---------------------------------------------------------------------------
// Fees
// ---------------------------------------------------------------------------

proof fn lemma_rate_shrinks(fee: i128, bps: int)
    requires
        fee >= 0,
        bps <= BPS_DENOM,
        rate_of(fee as int, bps) is Ok,
    ensures
        rate_of(fee as int, bps)->Ok_0 <= fee,
        bps >= 0 ==> rate_of(fee as int, bps)->Ok_0 >= 0,
{
    let p = fee * bps;
    lemma_quot_bounds(p, BPS_DENOM as int);
    if bps >= 0 {
        assert(0 <= p <= fee * 10_000) by (nonlinear_arith)
            requires
                p == fee * bps,
                fee >= 0,
                0 <= bps <= 10_000,
        ;
        assert(p / 10_000 <= fee);
    } else {
        assert(p <= 0) by (nonlinear_arith)
            requires
                p == fee * bps,
                fee >= 0,
                bps < 0,
        ;
    }
}

/// A fee on a non-negative amount is never negative, never more than the
/// amount and never more than the cap; a waived fee is nothing.
pub proof fn fees_stay_within_bounds(
    s: FeeState,
    fee_id: Symbol,
    amount: i128,
    discount_bps: i128,
    waived: bool,
)
    requires
        amount >= 0,
        quoted(s, fee_id, amount, discount_bps, waived) is Ok,
    ensures
        ({
            let q = quoted(s, fee_id, amount, discount_bps, waived)->Ok_0;
            &&& 0 <= q.fee_amount <= amount
            &&& q.fee_cap is Some && q.fee_cap->Some_0 >= 0 ==> q.fee_amount <= q.fee_cap->Some_0
            &&& waived ==> q.fee_amount == 0
        }),
{
    let fs = s.structures[fee_id];
    let raw = raw_fee(fs.fee_type, fs.amount_bps, fs.tiered_entries, amount)->Ok_0;
    let limited = capped(clamped(raw, amount), fs.fee_cap);
    assert(0 <= limited <= amount);
    if !waived && discount_bps > 0 {
        lemma_rate_shrinks(limited, BPS_DENOM - discount_bps);
    }
}

/// A fee on a non-negative amount can always be computed where the rates are
/// percentages and the amount leaves room for the multiplication.
pub proof fn fees_on_ordinary_amounts_are_computed(
    fee: i128,
    bps: i128,
)
    requires
        0 <= fee <= i128::MAX / BPS_DENOM,
        0 <= bps <= BPS_DENOM,
    ensures
        rate_of(fee as int, bps as int) is Ok,
{
    assert(0 <= fee * bps <= i128::MAX) by (nonlinear_arith)
        requires
            0 <= fee <= i128::MAX / 10_000,
            0 <= bps <= 10_000,
    ;
}

/// The winning tier is one that the amount reaches, no tier that it reaches
/// has a higher threshold, and there is none only where no tier is reached.
pub proof fn the_highest_reached_tier_wins(tiers: Seq<TierEntry>, amount: i128, n: int)
    requires
        0 <= n <= tiers.len(),
    ensures
        match winning_tier(tiers, amount, n) {
            Some(i) => {
                &&& 0 <= i < n
                &&& tiers[i].threshold <= amount
                &&& forall|j: int|
                    0 <= j < n && (#[trigger] tiers[j]).threshold <= amount ==> tiers[j].threshold
                        < tiers[i].threshold || tiers[j].threshold == tiers[i].threshold && j <= i
            },
            None => forall|j: int| 0 <= j < n ==> (#[trigger] tiers[j]).threshold > amount,
        },
    decreases n,
{
    if n > 0 {
        the_highest_reached_tier_wins(tiers, amount, n - 1);
    }
}

// ---------------------------------------------------------------------------
// Collection
// ---------------------------------------------------------------------------

/// The total is the sum over the categories and the sum over the portfolios.
pub open spec fn totals_agree(s: FeeState) -> bool {
    &&& s.category_totals.dom().finite()
    &&& s.portfolio_totals.dom().finite()
    &&& s.total_collected == map_sum(s.category_totals)
    &&& s.total_collected == map_sum(s.portfolio_totals)
}

/// A new contract's totals agree.
pub proof fn fresh_totals_agree(timestamp: u64)
    ensures
        totals_agree(FeeState::fresh(timestamp)),
{
}

/// Collecting keeps the total equal to the sum over categories and over portfolios.
pub proof fn collecting_keeps_the_totals_in_step(
    s: FeeState,
    caller: Address,
    fee_id: Symbol,
    portfolio_id: Symbol,
    base_amount: i128,
)
    requires
        totals_agree(s),
        can_collect(s, caller, fee_id, portfolio_id, base_amount),
        collected(s, caller, fee_id, portfolio_id, base_amount) is Ok,
    ensures
        totals_agree(collected(s, caller, fee_id, portfolio_id, base_amount)->Ok_0.0),
{
    let q = collection_quote(s, caller, fee_id, portfolio_id, base_amount)->Ok_0;
    lemma_map_sum_insert(
        s.category_totals,
        q.category,
        (value_or(s.category_totals, q.category, 0) + q.fee_amount) as i128,
    );
    lemma_map_sum_insert(
        s.portfolio_totals,
        portfolio_id,
        (value_or(s.portfolio_totals, portfolio_id, 0) + q.fee_amount) as i128,
    );
}

/// A collection appears as the newest record, with the fee that was charged,
/// and the history never grows over its limit.
pub proof fn collections_are_recorded(
    s: FeeState,
    caller: Address,
    fee_id: Symbol,
    portfolio_id: Symbol,
    base_amount: i128,
)
    requires
        s.wf(),
        collected(s, caller, fee_id, portfolio_id, base_amount) is Ok,
    ensures
        ({
            let t = collected(s, caller, fee_id, portfolio_id, base_amount)->Ok_0.0;
            let fee = collected(s, caller, fee_id, portfolio_id, base_amount)->Ok_0.1;
            &&& 1 <= t.history.len() <= MAX_HISTORY
            &&& t.history.last().fee_amount == fee
            &&& t.history.last().fee_id == fee_id
            &&& t.history.last().portfolio_id == portfolio_id
            &&& t.history.last().base_amount == base_amount
            &&& t.history.last().collector == caller
            &&& t.history.last().timestamp == s.timestamp
            &&& s.history.len() < MAX_HISTORY ==> t.history.drop_last() == s.history
            &&& s.history.len() == MAX_HISTORY ==> t.history.drop_last() == s.history.skip(1)
        }),
{
    let q = collection_quote(s, caller, fee_id, portfolio_id, base_amount)->Ok_0;
    capped_lists_stay_capped(
        s.history,
        record_of(s, caller, portfolio_id, q),
        MAX_HISTORY as nat,
    );
}

// ---------------------------------------------------------------------------
// Revenue
// ---------------------------------------------------------------------------

/// The sum of the first `n` payments.
pub open spec fn paid_out(payments: Seq<(Address, i128)>, n: int) -> int
    decreases n,
{
    if n <= 0 {
        0
    } else {
        paid_out(payments, n - 1) + payments[n - 1].1
    }
}

proof fn lemma_paid_out(recipients: Seq<RevenueRecipient>, amount: i128, n: int)
    requires
        0 <= n <= recipients.len(),
        amount > 0,
        share_total(recipients, recipients.len() as int) > 0,
        distribution(recipients, amount) is Ok,
    ensures
        n == 0 ==> paid_out(distribution(recipients, amount)->Ok_0, n) == 0,
        n > 0 ==> paid_out(distribution(recipients, amount)->Ok_0, n) == base_shares(
            recipients,
            amount,
            n,
        ) + rounding_rest(recipients, amount),
    decreases n,
{
    let d = distribution(recipients, amount)->Ok_0;
    if n > 0 {
        lemma_paid_out(recipients, amount, n - 1);
        lemma_base_shares(recipients, amount, n);
        lemma_base_shares(recipients, amount, recipients.len() as int);
        lemma_first_within(recipients, amount, recipients.len() as int);
        assert(d[n - 1].1 == base_share(recipients, amount, n - 1) + if n == 1 {
            rounding_rest(recipients, amount)
        } else {
            0
        });
        assert(base_shares(recipients, amount, 0) == 0);
        assert(base_shares(recipients, amount, n) == base_shares(recipients, amount, n - 1)
            + base_share(recipients, amount, n - 1));
        assert(paid_out(d, n) == paid_out(d, n - 1) + d[n - 1].1);
    }
}

proof fn lemma_first_within(recipients: Seq<RevenueRecipient>, amount: i128, n: int)
    requires
        1 <= n <= recipients.len(),
        amount > 0,
        share_total(recipients, recipients.len() as int) > 0,
    ensures
        base_share(recipients, amount, 0) <= base_shares(recipients, amount, n),
    decreases n,
{
    if n > 1 {
        lemma_first_within(recipients, amount, n - 1);
        lemma_base_shares(recipients, amount, n);
    } else {
        assert(base_shares(recipients, amount, 0) == 0);
    }
}

/// Where revenue is shared at all, the payments add up to the amount, none is
/// negative, and each goes to its recipient.
pub proof fn revenue_is_paid_out_in_full(recipients: Seq<RevenueRecipient>, amount: i128)
    requires
        amount > 0,
        share_total(recipients, recipients.len() as int) > 0,
        distribution(recipients, amount) is Ok,
    ensures
        ({
            let d = distribution(recipients, amount)->Ok_0;
            &&& d.len() == recipients.len()
            &&& paid_out(d, d.len() as int) == amount
            &&& forall|i: int|
                0 <= i < d.len() ==> 0 <= (#[trigger] d[i]).1 <= amount && d[i].0
                    == recipients[i].address
        }),
{
    let d = distribution(recipients, amount)->Ok_0;
    let n = recipients.len() as int;
    assert(n > 0);
    assert(d.len() == n);
    lemma_paid_out(recipients, amount, n);
    lemma_base_shares(recipients, amount, n);
    lemma_first_within(recipients, amount, n);
    assert forall|i: int| 0 <= i < d.len() implies 0 <= (#[trigger] d[i]).1 <= amount && d[i].0
        == recipients[i].address by {
        lemma_base_shares(recipients, amount, i + 1);
    }
}

/// A recipient other than the first gets its part of the amount, rounded down.
pub proof fn shares_are_proportional(recipients: Seq<RevenueRecipient>, amount: i128, i: int)
    requires
        amount > 0,
        0 < i < recipients.len(),
        share_total(recipients, recipients.len() as int) > 0,
        distribution(recipients, amount) is Ok,
    ensures
        ({
            let x = distribution(recipients, amount)->Ok_0[i].1;
            let total = share_total(recipients, recipients.len() as int);
            x * total <= recipients[i].share_numerator * amount < (x + 1) * total
        }),
{
    lemma_base_shares(recipients, amount, i + 1);
    let total = share_total(recipients, recipients.len() as int);
    let p = recipients[i].share_numerator * amount;
    let x = distribution(recipients, amount)->Ok_0[i].1 as int;
    assert(x == p / total);
    assert(x * total <= p < (x + 1) * total) by (nonlinear_arith)
        requires
            x == p / total,
            total > 0,
    ;
}

// ---------------------------------------------------------------------------
// Waivers
// ---------------------------------------------------------------------------

/// No two waivers are for the same target.
pub open spec fn one_waiver_per_target(waivers: Seq<FeeWaiver>) -> bool {
    forall|i: int, j: int|
        0 <= i < j < waivers.len() ==> !same_target(#[trigger] waivers[i], #[trigger] waivers[j])
}

/// The discount of every waiver is a part of the fee.
pub open spec fn discounts_in_range(waivers: Seq<FeeWaiver>) -> bool {
    forall|i: int|
        0 <= i < waivers.len() ==> 0 <= (#[trigger] waivers[i]).discount_bps <= BPS_DENOM
}

/// Some waiver is for the target.
pub open spec fn has_target(waivers: Seq<FeeWaiver>, target: FeeWaiver) -> bool {
    exists|i: int| 0 <= i < waivers.len() && same_target(#[trigger] waivers[i], target)
}

proof fn lemma_target_index(waivers: Seq<FeeWaiver>, w: FeeWaiver, from: int)
    requires
        0 <= from <= waivers.len(),
    ensures
        from <= target_index(waivers, w, from) <= waivers.len(),
        target_index(waivers, w, from) < waivers.len() ==> same_target(
            waivers[target_index(waivers, w, from)],
            w,
        ),
        forall|i: int|
            from <= i < target_index(waivers, w, from) ==> !same_target(#[trigger] waivers[i], w),
    decreases waivers.len() - from,
{
    if from < waivers.len() && !same_target(waivers[from], w) {
        lemma_target_index(waivers, w, from + 1);
    }
}

/// No call leaves more waivers than allowed: with a full list a waiver for a
/// new target is refused, and one for a target that is there replaces it.
pub proof fn waivers_stay_within_the_limit(s: FeeState, w: FeeWaiver, target: FeeWaiver)
    requires
        s.waivers.len() <= MAX_WAIVERS,
    ensures
        waiver_set(s, w) is Ok ==> waiver_set(s, w)->Ok_0.0.waivers.len() <= MAX_WAIVERS,
        waivers_without(s.waivers, target, s.waivers.len() as int).len() <= MAX_WAIVERS,
        s.waivers.len() == MAX_WAIVERS && !has_target(s.waivers, w) ==> waiver_set(s, w) is Err,
        has_target(s.waivers, w) && 0 <= w.discount_bps <= BPS_DENOM ==> waiver_set(s, w) is Ok
            && waiver_set(s, w)->Ok_0.0.waivers.len() == s.waivers.len(),
{
    lemma_target_index(s.waivers, w, 0);
    lemma_without_len(s.waivers, target, s.waivers.len() as int);
    if has_target(s.waivers, w) {
        let i = choose|i: int| 0 <= i < s.waivers.len() && same_target(#[trigger] s.waivers[i], w);
        assert(target_index(s.waivers, w, 0) <= i);
    }
}

proof fn lemma_without_len(waivers: Seq<FeeWaiver>, target: FeeWaiver, n: int)
    requires
        0 <= n <= waivers.len(),
    ensures
        waivers_without(waivers, target, n).len() <= n,
    decreases n,
{
    if n > 0 {
        lemma_without_len(waivers, target, n - 1);
    }
}

/// Setting a waiver leaves one for its target, the new one, in the place of
/// the old one or else last. All others stay as and where they are. No target
/// comes to have two waivers, and no discount to be out of range.
pub proof fn setting_a_waiver_replaces(s: FeeState, w: FeeWaiver)
    requires
        one_waiver_per_target(s.waivers),
        waiver_set(s, w) is Ok,
    ensures
        ({
            let after = waiver_set(s, w)->Ok_0.0.waivers;
            &&& one_waiver_per_target(after)
            &&& discounts_in_range(s.waivers) ==> discounts_in_range(after)
            &&& after.contains(w)
            &&& !has_target(s.waivers, w) ==> after == s.waivers.push(w)
            &&& has_target(s.waivers, w) ==> after.len() == s.waivers.len() && forall|i: int|
                0 <= i < s.waivers.len() ==> #[trigger] after[i] == if same_target(
                    s.waivers[i],
                    w,
                ) {
                    w
                } else {
                    s.waivers[i]
                }
        }),
{
    let waivers = s.waivers;
    let at = target_index(waivers, w, 0);
    let after = waivers_with(waivers, w);
    lemma_target_index(waivers, w, 0);
    assert(after[at] == w);
    assert forall|a: int, b: int| 0 <= a < b < after.len() implies !same_target(
        #[trigger] after[a],
        #[trigger] after[b],
    ) by {
        if at < waivers.len() {
            assert(!same_target(waivers[a], waivers[b]));
        } else if b < waivers.len() {
            assert(!same_target(waivers[a], waivers[b]));
        } else {
            assert(!same_target(waivers[a], w));
        }
    }
    if has_target(waivers, w) {
        let k = choose|k: int| 0 <= k < waivers.len() && same_target(#[trigger] waivers[k], w);
        assert(at <= k);
        assert forall|i: int| 0 <= i < waivers.len() implies #[trigger] after[i] == if same_target(
            waivers[i],
            w,
        ) {
            w
        } else {
            waivers[i]
        } by {
            assert(at < i ==> !same_target(waivers[at], waivers[i]));
        }
    }
}

proof fn lemma_without(waivers: Seq<FeeWaiver>, target: FeeWaiver, n: int)
    requires
        0 <= n <= waivers.len(),
    ensures
        ({
            let left = waivers_without(waivers, target, n);
            forall|i: int|
                0 <= i < left.len() ==> !same_target(#[trigger] left[i], target)
                    && waivers.take(n).contains(left[i])
        }),
    decreases n,
{
    if n > 0 {
        lemma_without(waivers, target, n - 1);
        let before = waivers_without(waivers, target, n - 1);
        let left = waivers_without(waivers, target, n);
        assert forall|i: int| 0 <= i < left.len() implies !same_target(#[trigger] left[i], target)
            && waivers.take(n).contains(left[i]) by {
            if i < before.len() {
                assert(before[i] == left[i]);
                assert(waivers.take(n - 1).contains(before[i]));
                let shorter = waivers.take(n - 1);
                let k = choose|k: int| 0 <= k < shorter.len() && shorter[k] == before[i];
                assert(waivers.take(n)[k] == left[i]);
            } else {
                assert(waivers.take(n)[n - 1] == left[i]);
            }
        }
    }
}

proof fn lemma_without_filters(waivers: Seq<FeeWaiver>, target: FeeWaiver, n: int)
    requires
        0 <= n <= waivers.len(),
    ensures
        waivers_without(waivers, target, n) == waivers.take(n).filter(
            |w: FeeWaiver| !same_target(w, target),
        ),
    decreases n,
{
    reveal(Seq::filter);
    if n > 0 {
        lemma_without_filters(waivers, target, n - 1);
        assert(waivers.take(n).drop_last() =~= waivers.take(n - 1));
        assert(waivers.take(n).last() == waivers[n - 1]);
    }
}

proof fn lemma_without_distinct(waivers: Seq<FeeWaiver>, target: FeeWaiver, n: int)
    requires
        0 <= n <= waivers.len(),
        one_waiver_per_target(waivers),
    ensures
        one_waiver_per_target(waivers_without(waivers, target, n)),
    decreases n,
{
    if n > 0 {
        lemma_without_distinct(waivers, target, n - 1);
        lemma_without(waivers, target, n - 1);
        let before = waivers_without(waivers, target, n - 1);
        let left = waivers_without(waivers, target, n);
        assert forall|a: int, b: int| 0 <= a < b < left.len() implies !same_target(
            #[trigger] left[a],
            #[trigger] left[b],
        ) by {
            assert(left[a] == before[a]);
            if b < before.len() {
                assert(!same_target(before[a], before[b]));
            } else {
                let earlier = waivers.take(n - 1);
                assert(earlier.contains(before[a]));
                let k = choose|k: int| 0 <= k < earlier.len() && earlier[k] == before[a];
                assert(!same_target(waivers[k], waivers[n - 1]));
            }
        }
    }
}

/// Removing the waivers for a target leaves none for it, and all others as and
/// in the order they are. No target comes to have two waivers, and no discount
/// to be out of range.
pub proof fn removing_a_waiver_removes_it(waivers: Seq<FeeWaiver>, target: FeeWaiver)
    ensures
        ({
            let left = waivers_without(waivers, target, waivers.len() as int);
            &&& left == waivers.filter(|w: FeeWaiver| !same_target(w, target))
            &&& !has_target(left, target)
            &&& one_waiver_per_target(waivers) ==> one_waiver_per_target(left)
            &&& discounts_in_range(waivers) ==> discounts_in_range(left)
        }),
{
    let n = waivers.len() as int;
    let left = waivers_without(waivers, target, n);
    lemma_without(waivers, target, n);
    lemma_without_filters(waivers, target, n);
    assert(waivers.take(n) =~= waivers);
    if one_waiver_per_target(waivers) {
        lemma_without_distinct(waivers, target, n);
    }
    if discounts_in_range(waivers) {
        assert forall|i: int| 0 <= i < left.len() implies 0 <= (#[trigger] left[i]).discount_bps
            <= BPS_DENOM by {
            assert(waivers.contains(left[i]));
        }
    }
}

proof fn lemma_terms_none(
    waivers: Seq<FeeWaiver>,
    applies: spec_fn(FeeWaiver) -> bool,
    from: int,
)
    requires
        0 <= from <= waivers.len(),
        forall|i: int| from <= i < waivers.len() ==> !applies(#[trigger] waivers[i]),
    ensures
        terms(waivers, applies, from) == (0i128, false),
    decreases waivers.len() - from,
{
    if from < waivers.len() {
        assert(!applies(waivers[from]));
        lemma_terms_none(waivers, applies, from + 1);
    }
}

/// Waivers that have all expired change no quote.
pub proof fn expired_waivers_count_for_nothing(
    s: FeeState,
    caller: Address,
    fee_id: Symbol,
    portfolio_id: Symbol,
    amount: i128,
)
    requires
        forall|i: int|
            0 <= i < s.waivers.len() ==> (#[trigger] s.waivers[i]).expires_at != 0
                && s.waivers[i].expires_at <= s.timestamp,
    ensures
        collection_quote(s, caller, fee_id, portfolio_id, amount) == quoted(
            s,
            fee_id,
            amount,
            0,
            false,
        ),
{
    lemma_terms_none(s.waivers, for_payer(s.timestamp, caller, portfolio_id), 0);
}

// ---------------------------------------------------------------------------
// Reports
// ---------------------------------------------------------------------------

/// The sums by category add up to the sum of all fees.
pub proof fn category_sums_add_up(records: Seq<FeeRecord>, n: int)
    requires
        0 <= n <= records.len(),
    ensures
        fee_sum(records, any_record(), n) == fee_sum(
            records,
            in_category(FeeCategory::Rebalancing),
            n,
        ) + fee_sum(records, in_category(FeeCategory::Yield), n) + fee_sum(
            records,
            in_category(FeeCategory::Management),
            n,
        ) + fee_sum(records, in_category(FeeCategory::Trading), n) + fee_sum(
            records,
            in_category(FeeCategory::Protocol),
            n,
        ) + fee_sum(records, in_category(FeeCategory::Custom), n),
    decreases n,
{
    if n > 0 {
        category_sums_add_up(records, n - 1);
    }
}

} // verus!
