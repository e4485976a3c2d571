//! Whom waivers are for, how they are kept, and how fees break down by
//! portfolio and category.

use vstd::prelude::*;

use crate::base::address::Address;
use crate::base::arith::{fits, lemma_quot_bounds, lemma_quot_rest};
use crate::base::symbol::{sym, Symbol};
use crate::fee::consequences::fees_of;
use crate::fee::contract::{
    collected, quoted, structure_changed, target_index, waiver_for, waiver_set, waivers_without,
};
use crate::fee::engine::{capped, clamped, discounted, rate_of};
use crate::fee::records::{FeeCategory, FeeError, FeeRecord, FeeStructureView, FeeWaiver};
use crate::fee::reporting::{
    breakdown, breakdowns_sum_by_portfolio, fee_sum, listed, of_portfolio, portfolio_sums_fit,
    recorded,
};
use crate::fee::state::FeeState;

verus! {

/// The waivers are for the same address, or both for none, and for the same
/// portfolio, or both for none.
pub open spec fn are_for_the_same(a: FeeWaiver, b: FeeWaiver) -> bool {
    &&& (a.has_address && b.has_address && a.address == b.address) || (!a.has_address
        && !b.has_address)
    &&& (a.has_portfolio && b.has_portfolio && a.portfolio_id == b.portfolio_id) || (
    !a.has_portfolio && !b.has_portfolio)
}

/// A waiver is for what was named and says what was given.
pub proof fn waivers_are_for_what_was_named(
    admin: Address,
    address: Option<Address>,
    portfolio_id: Option<Symbol>,
    discount_bps: i128,
    waived: bool,
    label: Option<Symbol>,
    expires_at: u64,
)
    ensures
        ({
            let w = waiver_for(
                admin,
                address,
                portfolio_id,
                discount_bps,
                waived,
                label,
                expires_at,
            );
            &&& w.has_address <==> address is Some
            &&& address is Some ==> w.address == address->Some_0
            &&& w.has_portfolio <==> portfolio_id is Some
            &&& portfolio_id is Some ==> w.portfolio_id == portfolio_id->Some_0
            &&& w.discount_bps == discount_bps
            &&& w.waived == waived
            &&& w.label == if label is Some {
                label->Some_0
            } else {
                sym(""@)
            }
            &&& w.expires_at == expires_at
        }),
{
}

proof fn lemma_target(waivers: Seq<FeeWaiver>, w: FeeWaiver, from: int, at: int)
    requires
        0 <= from <= at <= waivers.len(),
        at < waivers.len() ==> are_for_the_same(waivers[at], w),
        forall|i: int| from <= i < at ==> !are_for_the_same(#[trigger] waivers[i], w),
    ensures
        target_index(waivers, w, from) == at,
    decreases at - from,
{
    if from < at {
        assert(!are_for_the_same(waivers[from], w));
        lemma_target(waivers, w, from + 1, at);
    }
}

/// A waiver takes the place of the first that is for the same, or is the last
/// of at most fifty. Its discount is between nothing and all. Nothing else
/// changes.
pub proof fn waivers_are_kept_by_target(s: FeeState, w: FeeWaiver, at: int)
    requires
        0 <= at <= s.waivers.len(),
        at < s.waivers.len() ==> are_for_the_same(s.waivers[at], w),
        forall|i: int| 0 <= i < at ==> !are_for_the_same(#[trigger] s.waivers[i], w),
    ensures
        waiver_set(s, w) is Ok <==> 0 <= w.discount_bps <= 10_000 && (at < s.waivers.len()
            || s.waivers.len() < 50),
        waiver_set(s, w) is Err ==> waiver_set(s, w)->Err_0 == FeeError::InvalidFeeConfiguration,
        waiver_set(s, w) is Ok ==> waiver_set(s, w)->Ok_0 == (
            FeeState {
                waivers: if at < s.waivers.len() {
                    s.waivers.update(at, w)
                } else {
                    s.waivers.push(w)
                },
                ..s
            },
            sym("ok"@),
        ),
{
    lemma_target(s.waivers, w, 0, at);
}

/// Removing takes away every waiver that is for the same, and no other.
pub proof fn waivers_are_removed_by_target(waivers: Seq<FeeWaiver>, target: FeeWaiver, n: int)
    requires
        0 <= n <= waivers.len(),
    ensures
        waivers_without(waivers, target, n) == waivers.take(n).filter(
            |w: FeeWaiver| !are_for_the_same(w, target),
        ),
    decreases n,
{
    reveal(Seq::filter);
    if n > 0 {
        waivers_are_removed_by_target(waivers, target, n - 1);
        assert(waivers.take(n).drop_last() =~= waivers.take(n - 1));
        assert(waivers.take(n).last() == waivers[n - 1]);
    }
}

/// A fee structure that is there is switched on or off and gets its cap, and
/// nothing else of it and no other changes; one that is not there is not found.
pub proof fn structures_are_switched_and_capped(
    s: FeeState,
    fee_id: Symbol,
    active: bool,
    cap: Option<i128>,
)
    ensures
        ({
            let switched = structure_changed(
                s,
                fee_id,
                |fs: FeeStructureView| FeeStructureView {
                    active,
                    ..fs
                },
            );
            let limited = structure_changed(
                s,
                fee_id,
                |fs: FeeStructureView| FeeStructureView {
                    fee_cap: cap,
                    ..fs
                },
            );
            let t = switched->Ok_0.0;
            let u = limited->Ok_0.0;
            &&& switched is Ok <==> s.structures.contains_key(fee_id)
            &&& limited is Ok <==> s.structures.contains_key(fee_id)
            &&& switched is Err ==> switched->Err_0 == FeeError::FeeNotFound
            &&& limited is Err ==> limited->Err_0 == FeeError::FeeNotFound
            &&& switched is Ok ==> t.structures[fee_id].active == active
                && t.structures[fee_id].fee_cap == s.structures[fee_id].fee_cap && t == (FeeState {
                structures: s.structures.insert(fee_id, t.structures[fee_id]),
                ..s
            })
            &&& limited is Ok ==> u.structures[fee_id].fee_cap == cap
                && u.structures[fee_id].active == s.structures[fee_id].active && u == (FeeState {
                structures: s.structures.insert(fee_id, u.structures[fee_id]),
                ..s
            })
        }),
{
}

proof fn lemma_fees_of_portfolio(records: Seq<FeeRecord>, pid: Symbol, n: int)
    requires
        0 <= n <= records.len(),
    ensures
        fee_sum(records, of_portfolio(pid), n) == fees_of(
            records.take(n).filter(|r: FeeRecord| r.portfolio_id == pid),
        ),
    decreases n,
{
    reveal(Seq::filter);
    let own = |r: FeeRecord| r.portfolio_id == pid;
    if n > 0 {
        lemma_fees_of_portfolio(records, pid, n - 1);
        assert(records.take(n).drop_last() =~= records.take(n - 1));
        assert(records.take(n).last() == records[n - 1]);
        let before = records.take(n - 1).filter(own);
        if own(records[n - 1]) {
            assert(before.push(records[n - 1]).drop_last() =~= before);
        }
    } else {
        assert(records.take(0).filter(own).len() == 0);
    }
}

/// The breakdown names each portfolio with a record once, with the sum of the
/// fees of its records.
pub proof fn fees_break_down_by_portfolio(records: Seq<FeeRecord>, i: int, k: int)
    requires
        portfolio_sums_fit(records),
        0 <= k < records.len(),
    ensures
        ({
            let list = breakdown(records, records.len() as int);
            &&& 0 <= i < list.len() ==> list[i].1 == fees_of(
                records.filter(|r: FeeRecord| r.portfolio_id == list[i].0),
            )
            &&& exists|j: int|
                0 <= j < list.len() && (#[trigger] list[j]).0 == records[k].portfolio_id
            &&& forall|a: int, b: int|
                0 <= a < b < list.len() ==> (#[trigger] list[a]).0 != (#[trigger] list[b]).0
        }),
{
    let n = records.len() as int;
    let list = breakdown(records, n);
    breakdowns_sum_by_portfolio(records, n);
    assert(records.take(n) =~= records);
    if 0 <= i < list.len() {
        lemma_fees_of_portfolio(records, list[i].0, n);
    }
    assert(recorded(records, records[k].portfolio_id, n));
    assert(listed(list, records[k].portfolio_id));
}

// ---------------------------------------------------------------------------
// Rates, discounts and bounds
// ---------------------------------------------------------------------------

/// A rate of an amount is the product in ten-thousandths, rounded toward zero,
/// where the product is a number that can be held.
pub proof fn rates_round_toward_zero(amount: int, bps: int)
    ensures
        rate_of(amount, bps) is Ok <==> fits(amount * bps),
        rate_of(amount, bps) is Err ==> rate_of(amount, bps)->Err_0
            == FeeError::ArithmeticOverflow,
        rate_of(amount, bps) is Ok ==> ({
            let q = rate_of(amount, bps)->Ok_0 as int;
            let x = amount * bps;
            &&& x >= 0 ==> q * 10_000 <= x < (q + 1) * 10_000
            &&& x < 0 ==> (q - 1) * 10_000 < x <= q * 10_000
        }),
{
    lemma_quot_rest(amount * bps, 10_000);
    lemma_quot_bounds(amount * bps, 10_000);
}

/// A waived fee is nothing; a discount of nothing or less leaves the fee; one
/// of all or more leaves nothing; any other leaves its part of the fee, rounded
/// down.
pub proof fn discounts_leave_their_part(fee: i128, discount: i128)
    requires
        fee >= 0,
    ensures
        discounted(fee, discount, true) == Ok::<i128, FeeError>(0),
        discount <= 0 ==> discounted(fee, discount, false) == Ok::<i128, FeeError>(fee),
        discount > 0 ==> (discounted(fee, discount, false) is Ok <==> fits(
            fee * (10_000 - discount),
        )),
        discount > 0 && discounted(fee, discount, false) is Err ==> discounted(
            fee,
            discount,
            false,
        )->Err_0 == FeeError::ArithmeticOverflow,
        discount >= 10_000 && discounted(fee, discount, false) is Ok ==> discounted(
            fee,
            discount,
            false,
        )->Ok_0 == 0,
        0 < discount < 10_000 && discounted(fee, discount, false) is Ok ==> ({
            let q = discounted(fee, discount, false)->Ok_0;
            q * 10_000 <= fee * (10_000 - discount) < (q + 1) * 10_000
        }),
{
    let rest = 10_000 - discount;
    rates_round_toward_zero(fee as int, rest);
    assert(rest >= 0 ==> fee * rest >= 0) by (nonlinear_arith)
        requires
            fee >= 0,
    ;
    assert(rest <= 0 ==> fee * rest <= 0) by (nonlinear_arith)
        requires
            fee >= 0,
    ;
}

/// A fee is at least nothing and at most the amount, and at most the cap where
/// there is one that is not negative.
pub proof fn fees_are_bounded_by_amount_and_cap(fee: i128, amount: i128, cap: i128)
    requires
        amount >= 0,
    ensures
        fee < 0 ==> clamped(fee, amount) == 0,
        0 <= fee <= amount ==> clamped(fee, amount) == fee,
        fee > amount ==> clamped(fee, amount) == amount,
        capped(fee, None) == fee,
        cap >= 0 && fee > cap ==> capped(fee, Some(cap)) == cap,
        cap < 0 || fee <= cap ==> capped(fee, Some(cap)) == fee,
{
}

/// A fee that is not known is not found, and one that is switched off is
/// inactive, for whomever and however much.
pub proof fn unusable_fees_are_told(
    s: FeeState,
    payer: Address,
    fee_id: Symbol,
    pid: Symbol,
    amount: i128,
    discount: i128,
    waived: bool,
)
    requires
        !s.portfolio_fees.contains_key(pid),
    ensures
        ({
            let q = quoted(s, fee_id, amount, discount, waived);
            let c = collected(s, payer, fee_id, pid, amount);
            let known = s.structures.contains_key(fee_id);
            &&& !known ==> q is Err && q->Err_0 == FeeError::FeeNotFound && c is Err && c->Err_0
                == FeeError::FeeNotFound
            &&& known && !s.structures[fee_id].active ==> q is Err && q->Err_0
                == FeeError::FeeInactive && c is Err && c->Err_0 == FeeError::FeeInactive
        }),
{
}

/// A collection is the newest record of the history; two hundred are kept, and
/// the oldest goes for a new one.
pub proof fn records_are_kept_in_order(
    s: FeeState,
    payer: Address,
    fee_id: Symbol,
    pid: Symbol,
    amount: i128,
)
    requires
        collected(s, payer, fee_id, pid, amount) is Ok,
    ensures
        ({
            let t = collected(s, payer, fee_id, pid, amount)->Ok_0.0;
            let new = t.history.last();
            t.history == if s.history.len() < 200 {
                s.history.push(new)
            } else {
                s.history.subrange(1, s.history.len() as int).push(new)
            }
        }),
{
}

/// Before any call there is no administrator, no fee and nothing collected.
pub proof fn nothing_is_there_at_first(now: u64)
    ensures
        ({
            let s = FeeState::fresh(now);
            &&& s.timestamp == now
            &&& s.admin is None
            &&& s.structures == Map::<Symbol, FeeStructureView>::empty()
            &&& s.portfolio_fees == Map::<Symbol, Symbol>::empty()
            &&& s.fee_ids.len() == 0
            &&& s.history.len() == 0
            &&& s.waivers.len() == 0
            &&& s.recipients.len() == 0
            &&& s.total_collected == 0
            &&& s.category_totals == Map::<FeeCategory, i128>::empty()
            &&& s.portfolio_totals == Map::<Symbol, i128>::empty()
        }),
{
}

/// The categories go by their names.
pub proof fn categories_are_named()
    ensures
        FeeCategory::Rebalancing.name() == "rebalancing"@,
        FeeCategory::Yield.name() == "yield"@,
        FeeCategory::Management.name() == "management"@,
        FeeCategory::Trading.name() == "trading"@,
        FeeCategory::Protocol.name() == "protocol"@,
        FeeCategory::Custom.name() == "custom"@,
{
}

} // verus!
