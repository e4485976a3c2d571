//! What fee management does, call by call, in terms of the stored structures,
//! waivers and totals and of what callers hand in and get back.

use vstd::prelude::*;

use crate::base::address::Address;
use crate::base::arith::{fits, lemma_quot_bounds, lemma_quot_rest};
use crate::base::symbol::Symbol;
use crate::fee::contract::{
    assigned, collected, collection_quote, distribution, for_payer, for_portfolio, initialized,
    matching, newest, oldest_selected, portfolio_fee_set, portfolio_quote, quoted, recipients_set,
    selected, share_total, structure_set, terms,
};
use crate::fee::engine::{discounted, raw_fee, winning_tier};
use crate::fee::laws::{
    paid_out, revenue_is_paid_out_in_full, shares_are_proportional, the_highest_reached_tier_wins,
};
use crate::fee::records::{
    FeeCategory, FeeError, FeeRecord, FeeStructureView, FeeType, FeeWaiver, RevenueRecipient,
    TierEntry,
};
use crate::fee::reporting::{
    any_record, discount_sum, fee_sum, in_category, of_both, of_portfolio, portfolio_report,
    positive_sums, summary_of, tally, waived_only,
};
use crate::fee::state::FeeState;

verus! {

// ---------------------------------------------------------------------------
// Quotes
// ---------------------------------------------------------------------------

/// `part` is the fraction of the whole that the basis points say, rounded
/// toward zero.
pub open spec fn is_rate(part: int, whole: int, bps: int) -> bool {
    if whole * bps >= 0 {
        part * 10_000 <= whole * bps < (part + 1) * 10_000
    } else {
        (part - 1) * 10_000 < whole * bps <= part * 10_000
    }
}

/// The tier is reached by the amount, and no reached tier has a higher
/// threshold, nor a later one the same.
pub open spec fn is_top_tier(tiers: Seq<TierEntry>, amount: i128, i: int) -> bool {
    &&& 0 <= i < tiers.len()
    &&& tiers[i].threshold <= amount
    &&& forall|j: int|
        0 <= j < tiers.len() && (#[trigger] tiers[j]).threshold <= amount ==> tiers[j].threshold
            < tiers[i].threshold || (tiers[j].threshold == tiers[i].threshold && j <= i)
}

/// What the structure asks of an amount before anything limits it: a flat fee,
/// a fraction, or the fraction of the highest tier that the amount reaches.
pub open spec fn is_asked(fs: FeeStructureView, amount: i128, fee: int) -> bool {
    match fs.fee_type {
        FeeType::Flat => fee == fs.amount_bps,
        FeeType::Percentage => is_rate(fee, amount as int, fs.amount_bps as int),
        FeeType::Tiered => {
            ||| exists|i: int| #[trigger]
                is_top_tier(fs.tiered_entries, amount, i) && is_rate(
                    fee,
                    amount as int,
                    fs.tiered_entries[i].fee_bps as int,
                )
            ||| fee == 0 && forall|j: int|
                0 <= j < fs.tiered_entries.len() ==> (#[trigger] fs.tiered_entries[j]).threshold
                    > amount
        },
    }
}

/// A fee that is not negative, and no more than the amount and the cap.
pub open spec fn limited_fee(fee: int, amount: int, cap: Option<i128>) -> int {
    let a = if fee < 0 {
        0
    } else {
        fee
    };
    let b = if a > amount {
        amount
    } else {
        a
    };
    match cap {
        Some(c) => if c >= 0 && b > c {
            c as int
        } else {
            b
        },
        None => b,
    }
}

proof fn lemma_rate(whole: int, bps: int)
    ensures
        is_rate(crate::base::arith::quot(whole * bps, 10_000), whole, bps),
{
    lemma_quot_rest(whole * bps, 10_000);
}

/// A quote is given on active structures only. It is what the structure asks,
/// limited by the amount and the cap of the structure, less the discount; a
/// waived fee is nothing.
pub proof fn quotes_follow_the_structure(
    s: FeeState,
    fee_id: Symbol,
    amount: i128,
    discount: i128,
    waived: bool,
)
    requires
        quoted(s, fee_id, amount, discount, waived) is Ok,
        amount >= 0,
        0 <= discount <= 10_000,
    ensures
        ({
            let q = quoted(s, fee_id, amount, discount, waived)->Ok_0;
            let fs = s.structures[fee_id];
            let limited = limited_fee(q.raw_fee as int, amount as int, fs.fee_cap);
            &&& s.structures.contains_key(fee_id)
            &&& fs.active
            &&& is_asked(fs, amount, q.raw_fee as int)
            &&& waived ==> q.fee_amount == 0
            &&& !waived ==> is_rate(q.fee_amount as int, limited, 10_000 - discount)
            &&& q.fee_id == fee_id
            &&& q.category == fs.category
            &&& q.gross_amount == amount
            &&& q.discount_bps == discount
            &&& q.fee_cap == fs.fee_cap
            &&& q.waived == waived
        }),
{
    let q = quoted(s, fee_id, amount, discount, waived)->Ok_0;
    let fs = s.structures[fee_id];
    let tiers = fs.tiered_entries;
    let n = tiers.len() as int;
    lemma_rate(amount as int, fs.amount_bps as int);
    lemma_quot_bounds(amount * fs.amount_bps, 10_000);
    if fs.fee_type == FeeType::Tiered {
        the_highest_reached_tier_wins(tiers, amount, n);
        match winning_tier(tiers, amount, n) {
            Some(i) => {
                lemma_rate(amount as int, tiers[i].fee_bps as int);
                lemma_quot_bounds(amount * tiers[i].fee_bps, 10_000);
                assert(is_top_tier(tiers, amount, i));
            },
            None => {},
        }
    }
    assert(is_asked(fs, amount, q.raw_fee as int));
    let limited = limited_fee(q.raw_fee as int, amount as int, fs.fee_cap);
    if !waived {
        let rest = 10_000 - discount;
        lemma_rate(limited, rest);
        lemma_quot_bounds(limited * rest, 10_000);
        assert(limited * rest >= 0) by (nonlinear_arith)
            requires
                limited >= 0,
                rest >= 0,
        ;
        if discount <= 0 {
            assert(limited * 10_000 < (limited + 1) * 10_000);
        }
    }
}

/// On an active structure, every moderate amount is quoted: flat, at a rate of
/// at most the whole, or in tiers with such rates.
pub proof fn moderate_amounts_are_quoted(
    s: FeeState,
    fee_id: Symbol,
    amount: i128,
    discount: i128,
    waived: bool,
)
    requires
        s.structures.contains_key(fee_id),
        s.structures[fee_id].active,
        0 <= amount <= 10_000_000_000_000_000_000_000_000_000_000_000,
        0 <= discount <= 10_000,
        s.structures[fee_id].fee_type == FeeType::Percentage ==> 0
            <= s.structures[fee_id].amount_bps <= 10_000,
        forall|i: int|
            0 <= i < s.structures[fee_id].tiered_entries.len() ==> 0
                <= (#[trigger] s.structures[fee_id].tiered_entries[i]).fee_bps <= 10_000,
    ensures
        quoted(s, fee_id, amount, discount, waived) is Ok,
{
    let fs = s.structures[fee_id];
    let tiers = fs.tiered_entries;
    if fs.fee_type == FeeType::Percentage {
        lemma_moderate(amount as int, fs.amount_bps as int);
    }
    if fs.fee_type == FeeType::Tiered {
        the_highest_reached_tier_wins(tiers, amount, tiers.len() as int);
        match winning_tier(tiers, amount, tiers.len() as int) {
            Some(i) => lemma_moderate(amount as int, tiers[i].fee_bps as int),
            None => {},
        }
    }
    assert(raw_fee(fs.fee_type, fs.amount_bps, tiers, amount) is Ok);
    let raw = raw_fee(fs.fee_type, fs.amount_bps, tiers, amount)->Ok_0;
    let limited = limited_fee(raw as int, amount as int, fs.fee_cap);
    lemma_moderate(limited, 10_000 - discount);
    assert(discounted(limited as i128, discount, waived) is Ok);
}

proof fn lemma_moderate(amount: int, bps: int)
    requires
        0 <= amount <= 10_000_000_000_000_000_000_000_000_000_000_000,
        0 <= bps <= 10_000,
    ensures
        fits(amount * bps),
{
    assert(0 <= amount * bps <= 100_000_000_000_000_000_000_000_000_000_000_000_000)
        by (nonlinear_arith)
        requires
            0 <= amount <= 10_000_000_000_000_000_000_000_000_000_000_000,
            0 <= bps <= 10_000,
    ;
}

// ---------------------------------------------------------------------------
// Waivers
// ---------------------------------------------------------------------------

/// The waiver has not expired at the time.
pub open spec fn is_unexpired(w: FeeWaiver, now: u64) -> bool {
    w.expires_at == 0 || now < w.expires_at
}

/// The waiver counts for a payer or for a portfolio.
pub open spec fn counts_for(w: FeeWaiver, now: u64, payer: Address, pid: Symbol) -> bool {
    is_unexpired(w, now) && {
        ||| w.has_address && w.address == payer
        ||| w.has_portfolio && w.portfolio_id == pid
    }
}

proof fn lemma_first_terms(
    waivers: Seq<FeeWaiver>,
    applies: spec_fn(FeeWaiver) -> bool,
    from: int,
    at: int,
)
    requires
        0 <= from <= at <= waivers.len(),
        at < waivers.len() ==> applies(waivers[at]),
        forall|i: int| from <= i < at ==> !applies(#[trigger] waivers[i]),
    ensures
        terms(waivers, applies, from) == if at < waivers.len() {
            (waivers[at].discount_bps, waivers[at].waived)
        } else {
            (0i128, false)
        },
    decreases at - from,
{
    if from < at {
        assert(!applies(waivers[from]));
        lemma_first_terms(waivers, applies, from + 1, at);
    }
}

/// A collection is charged by the first waiver that has not expired and is for
/// the payer or for the portfolio: the fee with its discount, or nothing where
/// it waives the fee. Without one the full fee is charged.
pub proof fn the_first_waiver_of_payer_or_portfolio_counts(
    s: FeeState,
    payer: Address,
    fee_id: Symbol,
    pid: Symbol,
    amount: i128,
    at: int,
)
    requires
        0 <= at <= s.waivers.len(),
        at < s.waivers.len() ==> counts_for(s.waivers[at], s.timestamp, payer, pid),
        forall|i: int|
            0 <= i < at ==> !counts_for(#[trigger] s.waivers[i], s.timestamp, payer, pid),
    ensures
        ({
            let q = collection_quote(s, payer, fee_id, pid, amount);
            let c = collected(s, payer, fee_id, pid, amount);
            &&& at < s.waivers.len() ==> q == quoted(
                s,
                fee_id,
                amount,
                s.waivers[at].discount_bps,
                s.waivers[at].waived,
            )
            &&& at == s.waivers.len() ==> q == quoted(s, fee_id, amount, 0, false)
            &&& c is Ok ==> q is Ok && c->Ok_0.1 == q->Ok_0.fee_amount
            &&& c is Ok && at < s.waivers.len() && s.waivers[at].waived ==> c->Ok_0.1 == 0
        }),
{
    lemma_first_terms(s.waivers, for_payer(s.timestamp, payer, pid), 0, at);
}

/// With one waiver that has not expired, for the portfolio alone, every
/// collection on the portfolio is charged by it, whoever pays; collections on
/// other portfolios are charged in full.
pub proof fn a_portfolio_waiver_is_for_every_payer(
    s: FeeState,
    payer: Address,
    fee_id: Symbol,
    pid: Symbol,
    other: Symbol,
    amount: i128,
)
    requires
        s.waivers.len() == 1,
        s.waivers[0].has_portfolio,
        !s.waivers[0].has_address,
        s.waivers[0].portfolio_id == pid,
        s.waivers[0].expires_at == 0 || s.timestamp < s.waivers[0].expires_at,
        other != pid,
    ensures
        collection_quote(s, payer, fee_id, pid, amount) == quoted(
            s,
            fee_id,
            amount,
            s.waivers[0].discount_bps,
            s.waivers[0].waived,
        ),
        collection_quote(s, payer, fee_id, other, amount) == quoted(s, fee_id, amount, 0, false),
{
    the_first_waiver_of_payer_or_portfolio_counts(s, payer, fee_id, pid, amount, 0);
    the_first_waiver_of_payer_or_portfolio_counts(s, payer, fee_id, other, amount, 1);
}

/// The quote of a portfolio is on the fee that is assigned to it, or else on
/// the one that was asked for, by the first waiver for the portfolio that has
/// not expired.
pub proof fn portfolios_are_quoted_their_fee(
    s: FeeState,
    pid: Symbol,
    asked: Symbol,
    amount: i128,
    at: int,
)
    requires
        0 <= at <= s.waivers.len(),
        at < s.waivers.len() ==> is_unexpired(s.waivers[at], s.timestamp)
            && s.waivers[at].has_portfolio && s.waivers[at].portfolio_id == pid,
        forall|i: int|
            0 <= i < at ==> !(is_unexpired(#[trigger] s.waivers[i], s.timestamp)
                && s.waivers[i].has_portfolio && s.waivers[i].portfolio_id == pid),
    ensures
        ({
            let fee_id = if s.portfolio_fees.contains_key(pid) {
                s.portfolio_fees[pid]
            } else {
                asked
            };
            let q = portfolio_quote(s, pid, asked, amount);
            &&& at < s.waivers.len() ==> q == quoted(
                s,
                fee_id,
                amount,
                s.waivers[at].discount_bps,
                s.waivers[at].waived,
            )
            &&& at == s.waivers.len() ==> q == quoted(s, fee_id, amount, 0, false)
            &&& assigned(s, pid) is Some <==> s.portfolio_fees.contains_key(pid)
        }),
{
    lemma_first_terms(s.waivers, for_portfolio(s.timestamp, pid), 0, at);
}

// ---------------------------------------------------------------------------
// Collection
// ---------------------------------------------------------------------------

/// What a map counts for a key.
pub open spec fn counted<K>(m: Map<K, i128>, k: K) -> int {
    if m.contains_key(k) {
        m[k] as int
    } else {
        0
    }
}

/// A collection goes through where the fee is quoted and its revenue can be
/// shared. The fee is added to the total, to its category and to its
/// portfolio, and to no other; the newest record tells all of it, and nothing
/// else of the contract changes.
pub proof fn collections_add_up(
    s: FeeState,
    payer: Address,
    fee_id: Symbol,
    pid: Symbol,
    amount: i128,
)
    ensures
        ({
            let q = collection_quote(s, payer, fee_id, pid, amount);
            let c = collected(s, payer, fee_id, pid, amount);
            &&& c is Ok <==> q is Ok && distribution(s.recipients, q->Ok_0.fee_amount) is Ok
            &&& c is Ok && fits(s.total_collected + q->Ok_0.fee_amount) && fits(
                counted(s.category_totals, q->Ok_0.category) + q->Ok_0.fee_amount,
            ) && fits(counted(s.portfolio_totals, pid) + q->Ok_0.fee_amount) ==> {
                let (t, fee) = c->Ok_0;
                let r = t.history.last();
                &&& fee == q->Ok_0.fee_amount
                &&& t.total_collected == s.total_collected + fee
                &&& forall|k: FeeCategory| #[trigger]
                    counted(t.category_totals, k) == counted(s.category_totals, k) + if k
                        == q->Ok_0.category {
                        fee as int
                    } else {
                        0
                    }
                &&& forall|k: Symbol| #[trigger]
                    counted(t.portfolio_totals, k) == counted(s.portfolio_totals, k) + if k == pid {
                        fee as int
                    } else {
                        0
                    }
                &&& r.fee_id == fee_id
                &&& r.category == q->Ok_0.category
                &&& r.portfolio_id == pid
                &&& r.base_amount == amount
                &&& r.fee_amount == fee
                &&& r.discount_bps == q->Ok_0.discount_bps
                &&& r.waived == q->Ok_0.waived
                &&& r.timestamp == s.timestamp
                &&& r.collector == payer
                &&& t == FeeState {
                    history: t.history,
                    total_collected: t.total_collected,
                    category_totals: t.category_totals,
                    portfolio_totals: t.portfolio_totals,
                    ..s
                }
            }
        }),
{
}

// ---------------------------------------------------------------------------
// Revenue
// ---------------------------------------------------------------------------

/// The sum of all share numerators.
pub open spec fn all_shares(recipients: Seq<RevenueRecipient>) -> int
    decreases recipients.len(),
{
    if recipients.len() == 0 {
        0
    } else {
        all_shares(recipients.drop_last()) + recipients.last().share_numerator
    }
}

/// The sum of all payments.
pub open spec fn all_paid(payments: Seq<(Address, i128)>) -> int
    decreases payments.len(),
{
    if payments.len() == 0 {
        0
    } else {
        all_paid(payments.drop_last()) + payments.last().1
    }
}

proof fn lemma_shares(recipients: Seq<RevenueRecipient>, n: int)
    requires
        0 <= n <= recipients.len(),
    ensures
        share_total(recipients, n) == all_shares(recipients.take(n)),
        share_total(recipients, n) >= 0,
    decreases n,
{
    if n > 0 {
        lemma_shares(recipients, n - 1);
        assert(recipients.take(n).drop_last() =~= recipients.take(n - 1));
        assert(recipients.take(n).last() == recipients[n - 1]);
    }
}

proof fn lemma_paid(payments: Seq<(Address, i128)>, n: int)
    requires
        0 <= n <= payments.len(),
    ensures
        paid_out(payments, n) == all_paid(payments.take(n)),
    decreases n,
{
    if n > 0 {
        lemma_paid(payments, n - 1);
        assert(payments.take(n).drop_last() =~= payments.take(n - 1));
        assert(payments.take(n).last() == payments[n - 1]);
    }
}

/// A positive amount is shared among recipients with any shares: everyone but
/// the first gets the part that the shares say, rounded down, and the first
/// gets all the rest, so that the whole amount is paid. Where there is nothing
/// to share, or nobody to share it, nothing is paid.
pub proof fn revenue_is_shared_in_proportion(recipients: Seq<RevenueRecipient>, amount: i128)
    ensures
        ({
            let d = distribution(recipients, amount);
            let total = all_shares(recipients);
            &&& amount <= 0 || total == 0 ==> d is Ok && d->Ok_0.len() == 0
            &&& amount > 0 && total > 0 && d is Ok ==> {
                &&& d->Ok_0.len() == recipients.len()
                &&& all_paid(d->Ok_0) == amount
                &&& forall|i: int|
                    0 <= i < recipients.len() ==> (#[trigger] d->Ok_0[i]).0 == recipients[i].address
                        && 0 <= d->Ok_0[i].1
                &&& forall|i: int|
                    0 < i < recipients.len() ==> (#[trigger] d->Ok_0[i]).1 * total
                        <= recipients[i].share_numerator * amount < (d->Ok_0[i].1 + 1) * total
            }
            &&& amount > 0 && total > 0 ==> (d is Ok <==> forall|i: int|
                0 <= i < recipients.len() ==> fits(
                    (#[trigger] recipients[i]).share_numerator * amount,
                ))
        }),
{
    let n = recipients.len() as int;
    lemma_shares(recipients, n);
    assert(recipients.take(n) =~= recipients);
    let d = distribution(recipients, amount);
    if amount > 0 && all_shares(recipients) > 0 && d is Ok {
        revenue_is_paid_out_in_full(recipients, amount);
        lemma_paid(d->Ok_0, d->Ok_0.len() as int);
        assert(d->Ok_0.take(d->Ok_0.len() as int) =~= d->Ok_0);
        let total = all_shares(recipients);
        assert forall|i: int| 0 < i < recipients.len() implies (#[trigger] d->Ok_0[i]).1 * total
            <= recipients[i].share_numerator * amount < (d->Ok_0[i].1 + 1) * total by {
            shares_are_proportional(recipients, amount, i);
        }
    }
}

// ---------------------------------------------------------------------------
// Configuration
// ---------------------------------------------------------------------------

/// A structure is taken exactly where its numbers make sense: a fraction of at
/// most the whole, a flat fee that is not negative, or some tiers, and a cap
/// that is not negative. It stands under its ID, which is then listed.
pub proof fn consistent_structures_are_stored(s: FeeState, fs: FeeStructureView)
    ensures
        structure_set(s, fs) is Ok <==> {
            &&& fs.fee_type == FeeType::Percentage ==> 0 <= fs.amount_bps <= 10_000
            &&& fs.fee_type == FeeType::Flat ==> fs.amount_bps >= 0
            &&& fs.fee_type == FeeType::Tiered ==> fs.tiered_entries.len() > 0
            &&& fs.fee_cap is Some ==> fs.fee_cap->Some_0 >= 0
        },
        structure_set(s, fs) is Err ==> structure_set(s, fs)->Err_0
            == FeeError::InvalidFeeConfiguration,
        structure_set(s, fs) is Ok ==> ({
            let t = structure_set(s, fs)->Ok_0.0;
            &&& t.structures == s.structures.insert(fs.fee_id, fs)
            &&& t.fee_ids.contains(fs.fee_id)
            &&& s.fee_ids.contains(fs.fee_id) ==> t.fee_ids == s.fee_ids
            &&& !s.fee_ids.contains(fs.fee_id) ==> t.fee_ids == s.fee_ids.push(fs.fee_id)
        }),
{
    if !s.fee_ids.contains(fs.fee_id) {
        let t = s.fee_ids.push(fs.fee_id);
        assert(t[s.fee_ids.len() as int] == fs.fee_id);
    }
}

/// The contract is initialized once; a known fee can be assigned to a
/// portfolio; at most twenty share the revenue.
pub proof fn roles_and_assignments(
    s: FeeState,
    admin: Address,
    pid: Symbol,
    fee_id: Symbol,
    recipients: Seq<RevenueRecipient>,
)
    ensures
        initialized(s, admin) is Ok <==> s.admin is None,
        initialized(s, admin) is Ok ==> initialized(s, admin)->Ok_0.0 == (FeeState {
            admin: Some(admin),
            ..s
        }),
        portfolio_fee_set(s, pid, fee_id) is Ok <==> s.structures.contains_key(fee_id),
        portfolio_fee_set(s, pid, fee_id) is Ok ==> portfolio_fee_set(s, pid, fee_id)->Ok_0.0 == (
        FeeState { portfolio_fees: s.portfolio_fees.insert(pid, fee_id), ..s }),
        recipients_set(s, recipients) is Ok <==> recipients.len() <= 20,
        recipients_set(s, recipients) is Ok ==> recipients_set(s, recipients)->Ok_0.0 == (
        FeeState { recipients, ..s }),
{
}

// ---------------------------------------------------------------------------
// History and reports
// ---------------------------------------------------------------------------

proof fn lemma_selected(history: Seq<FeeRecord>, wanted: spec_fn(FeeRecord) -> bool, n: int)
    requires
        0 <= n <= history.len(),
    ensures
        selected(history, wanted, n) == history.take(n).filter(wanted),
    decreases n,
{
    reveal(Seq::filter);
    if n > 0 {
        lemma_selected(history, wanted, n - 1);
        assert(history.take(n).drop_last() =~= history.take(n - 1));
        assert(history.take(n).last() == history[n - 1]);
    }
}

/// What is asked of the history comes in its order: of all records the newest,
/// and of those of a portfolio, a category or both the oldest, as many as were
/// asked for or all.
pub proof fn the_history_is_given_in_order(
    history: Seq<FeeRecord>,
    pid: Option<Symbol>,
    category: Option<FeeCategory>,
    max: u32,
)
    ensures
        ({
            let all = history.filter(
                |r: FeeRecord|
                    (pid is None || r.portfolio_id == pid->Some_0) && (category is None || r.category
                        == category->Some_0),
            );
            let given = oldest_selected(history, matching(pid, category), max);
            &&& max == 0 ==> given == all
            &&& max > 0 ==> given == all.take(
                if all.len() <= max {
                    all.len() as int
                } else {
                    max as int
                },
            )
        }),
        max == 0 || history.len() <= max ==> newest(history, max) == history,
        0 < max < history.len() ==> newest(history, max) == history.skip(history.len() - max),
{
    let wanted = matching(pid, category);
    lemma_selected(history, wanted, history.len() as int);
    assert(history.take(history.len() as int) =~= history);
    let asked = |r: FeeRecord|
        (pid is None || r.portfolio_id == pid->Some_0) && (category is None || r.category
            == category->Some_0);
    assert(wanted =~= asked);
    let all = history.filter(wanted);
    assert(all.take(all.len() as int) =~= all);
}

/// The fees of all records together.
pub open spec fn fees_of(records: Seq<FeeRecord>) -> int
    decreases records.len(),
{
    if records.len() == 0 {
        0
    } else {
        fees_of(records.drop_last()) + records.last().fee_amount
    }
}

proof fn lemma_fee_sum(records: Seq<FeeRecord>, wanted: spec_fn(FeeRecord) -> bool, n: int)
    requires
        0 <= n <= records.len(),
    ensures
        fee_sum(records, wanted, n) == fees_of(records.take(n).filter(wanted)),
        tally(records, wanted, n) == records.take(n).filter(wanted).len(),
    decreases n,
{
    reveal(Seq::filter);
    if n > 0 {
        lemma_fee_sum(records, wanted, n - 1);
        assert(records.take(n).drop_last() =~= records.take(n - 1));
        assert(records.take(n).last() == records[n - 1]);
        let before = records.take(n - 1).filter(wanted);
        if wanted(records[n - 1]) {
            assert(records.take(n).filter(wanted) =~= before.push(records[n - 1]));
            assert(before.push(records[n - 1]).drop_last() =~= before);
        }
    }
}

proof fn lemma_filter_all(records: Seq<FeeRecord>)
    ensures
        records.filter(|r: FeeRecord| true) == records,
    decreases records.len(),
{
    reveal(Seq::filter);
    if records.len() > 0 {
        lemma_filter_all(records.drop_last());
        assert(records.drop_last().push(records.last()) =~= records);
    }
}

/// What discounts saved the payers of the records: of a waived fee the whole
/// base, else the base less the fee, where that is something.
pub open spec fn saved_of(records: Seq<FeeRecord>) -> int
    decreases records.len(),
{
    if records.len() == 0 {
        0
    } else {
        let r = records.last();
        let x = if r.waived {
            r.base_amount as int
        } else {
            r.base_amount - r.fee_amount
        };
        saved_of(records.drop_last()) + if x > 0 {
            x
        } else {
            0
        }
    }
}

proof fn lemma_saved(records: Seq<FeeRecord>, n: int)
    requires
        0 <= n <= records.len(),
    ensures
        discount_sum(records, n) == saved_of(records.take(n)),
    decreases n,
{
    if n > 0 {
        lemma_saved(records, n - 1);
        assert(records.take(n).drop_last() =~= records.take(n - 1));
        assert(records.take(n).last() == records[n - 1]);
    }
}

proof fn lemma_positive_sums(sum: spec_fn(FeeCategory) -> int, c: FeeCategory)
    requires
        fits(sum(c)),
    ensures
        sum(c) > 0 ==> positive_sums(sum).contains((c, sum(c) as i128)),
        forall|i: int|
            0 <= i < positive_sums(sum).len() && (#[trigger] positive_sums(sum)[i]).0 == c
                ==> sum(c) > 0 && positive_sums(sum)[i].1 == sum(c),
{
    let k = |d: FeeCategory|
        if sum(d) > 0 {
            1int
        } else {
            0int
        };
    let list = positive_sums(sum);
    let at: int = match c {
        FeeCategory::Rebalancing => 0,
        FeeCategory::Yield => k(FeeCategory::Rebalancing),
        FeeCategory::Management => k(FeeCategory::Rebalancing) + k(FeeCategory::Yield),
        FeeCategory::Trading => k(FeeCategory::Rebalancing) + k(FeeCategory::Yield) + k(
            FeeCategory::Management,
        ),
        FeeCategory::Protocol => k(FeeCategory::Rebalancing) + k(FeeCategory::Yield) + k(
            FeeCategory::Management,
        ) + k(FeeCategory::Trading),
        FeeCategory::Custom => k(FeeCategory::Rebalancing) + k(FeeCategory::Yield) + k(
            FeeCategory::Management,
        ) + k(FeeCategory::Trading) + k(FeeCategory::Protocol),
    };
    if sum(c) > 0 {
        assert(list[at] == (c, sum(c) as i128));
    }
}

/// A summary adds up all fees and what was saved, counts the records and the
/// waived ones, and gives for each category with a positive sum that sum.
pub proof fn summaries_add_up_the_records(records: Seq<FeeRecord>, c: FeeCategory)
    requires
        records.len() <= u32::MAX,
        fits(fees_of(records)),
        fits(saved_of(records)),
        fits(fees_of(records.filter(|r: FeeRecord| r.category == c))),
    ensures
        ({
            let v = summary_of(records);
            let sum = fees_of(records.filter(|r: FeeRecord| r.category == c));
            &&& v.total_collected == fees_of(records)
            &&& v.total_events == records.len()
            &&& v.total_discounts == saved_of(records)
            &&& v.waived_count == records.filter(|r: FeeRecord| r.waived).len()
            &&& sum > 0 ==> v.by_category.contains((c, sum as i128))
            &&& forall|i: int|
                0 <= i < v.by_category.len() && (#[trigger] v.by_category[i]).0 == c ==> sum > 0
                    && v.by_category[i].1 == sum
        }),
{
    let n = records.len() as int;
    assert(records.take(n) =~= records);
    lemma_fee_sum(records, any_record(), n);
    lemma_filter_all(records);
    assert(any_record() =~= (|r: FeeRecord| true));
    lemma_fee_sum(records, waived_only(), n);
    assert(waived_only() =~= (|r: FeeRecord| r.waived));
    records.lemma_filter_len(waived_only());
    lemma_saved(records, n);
    lemma_fee_sum(records, in_category(c), n);
    assert(in_category(c) =~= (|r: FeeRecord| r.category == c));
    lemma_positive_sums(|d: FeeCategory| fee_sum(records, in_category(d), n), c);
}

/// A report on a portfolio adds up and counts its records, and gives for each
/// category with a positive sum that sum.
pub proof fn reports_add_up_the_records_of_a_portfolio(
    pid: Symbol,
    records: Seq<FeeRecord>,
    assigned_fee: Symbol,
    c: FeeCategory,
)
    requires
        records.len() <= u32::MAX,
        fits(fees_of(records.filter(|r: FeeRecord| r.portfolio_id == pid))),
        fits(
            fees_of(records.filter(|r: FeeRecord| r.portfolio_id == pid && r.category == c)),
        ),
    ensures
        ({
            let v = portfolio_report(pid, records, assigned_fee);
            let own = records.filter(|r: FeeRecord| r.portfolio_id == pid);
            let sum = fees_of(
                records.filter(|r: FeeRecord| r.portfolio_id == pid && r.category == c),
            );
            &&& v.portfolio_id == pid
            &&& v.assigned_fee_id == assigned_fee
            &&& v.total_fees == fees_of(own)
            &&& v.event_count == own.len()
            &&& sum > 0 ==> v.by_category.contains((c, sum as i128))
            &&& forall|i: int|
                0 <= i < v.by_category.len() && (#[trigger] v.by_category[i]).0 == c ==> sum > 0
                    && v.by_category[i].1 == sum
        }),
{
    let n = records.len() as int;
    assert(records.take(n) =~= records);
    lemma_fee_sum(records, of_portfolio(pid), n);
    assert(of_portfolio(pid) =~= (|r: FeeRecord| r.portfolio_id == pid));
    records.lemma_filter_len(of_portfolio(pid));
    lemma_fee_sum(records, of_both(pid, c), n);
    assert(of_both(pid, c) =~= (|r: FeeRecord| r.portfolio_id == pid && r.category == c));
    lemma_positive_sums(|d: FeeCategory| fee_sum(records, of_both(pid, d), n), c);
}

} // verus!
