//! The fee management contract.

use vstd::prelude::*;

use crate::base::address::Address;
use crate::base::arith::fits;
use crate::base::effect::effect;
use crate::base::symbol::{sym, symbol_short, Symbol};
use crate::base::table::{value_or, Table, TableKey};
use crate::base::vecs::{copy_vec, has_symbol, push_capped, pushed_capped};
use crate::fee::engine::{
    apply_discount, apply_fee_cap, capped, clamp_fee, clamped, compute_fee_from_structure,
    consistent, discounted, raw_fee, validate_fee_structure,
};
use crate::fee::records::{
    sym_empty, FeeCalculationResult, FeeCategory, FeeError, FeeRecord, FeeStructure,
    FeeStructureView, FeeType, FeeWaiver, RevenueRecipient, TierEntry, BPS_DENOM, MAX_HISTORY,
    MAX_RECIPIENTS, MAX_WAIVERS,
};
use crate::fee::state::{FeeEnv, FeeState};

verus! {

/// Fee management contract: fee structures, collection, waivers and revenue
/// shares, with totals and a history.
pub struct FeeManagementContract;

// ---------------------------------------------------------------------------
// What the calls do
// ---------------------------------------------------------------------------

/// What initializing does.
pub open spec fn initialized(s: FeeState, admin: Address) -> Result<(FeeState, Symbol), FeeError> {
    if s.admin is Some {
        Err(FeeError::AlreadyInitialized)
    } else {
        Ok((FeeState { admin: Some(admin), ..s }, sym("ok"@)))
    }
}

/// A list of fee IDs with one more, unless it is there.
pub open spec fn ids_with(ids: Seq<Symbol>, id: Symbol) -> Seq<Symbol> {
    if ids.contains(id) {
        ids
    } else {
        ids.push(id)
    }
}

/// What defining a fee structure does.
pub open spec fn structure_set(s: FeeState, fs: FeeStructureView) -> Result<
    (FeeState, Symbol),
    FeeError,
> {
    if !consistent(fs) {
        Err(FeeError::InvalidFeeConfiguration)
    } else {
        Ok(
            (
                FeeState {
                    structures: s.structures.insert(fs.fee_id, fs),
                    fee_ids: ids_with(s.fee_ids, fs.fee_id),
                    ..s
                },
                sym("ok"@),
            ),
        )
    }
}

/// What changing a stored fee structure does.
pub open spec fn structure_changed(
    s: FeeState,
    fee_id: Symbol,
    change: spec_fn(FeeStructureView) -> FeeStructureView,
) -> Result<(FeeState, Symbol), FeeError> {
    if !s.structures.contains_key(fee_id) {
        Err(FeeError::FeeNotFound)
    } else {
        Ok(
            (
                FeeState {
                    structures: s.structures.insert(fee_id, change(s.structures[fee_id])),
                    ..s
                },
                sym("ok"@),
            ),
        )
    }
}

/// What assigning a fee to a portfolio does.
pub open spec fn portfolio_fee_set(s: FeeState, portfolio_id: Symbol, fee_id: Symbol) -> Result<
    (FeeState, Symbol),
    FeeError,
> {
    if !s.structures.contains_key(fee_id) {
        Err(FeeError::FeeNotFound)
    } else {
        Ok(
            (
                FeeState { portfolio_fees: s.portfolio_fees.insert(portfolio_id, fee_id), ..s },
                sym("ok"@),
            ),
        )
    }
}

/// The fee ID assigned to a portfolio.
pub open spec fn assigned(s: FeeState, portfolio_id: Symbol) -> Option<Symbol> {
    if s.portfolio_fees.contains_key(portfolio_id) {
        Some(s.portfolio_fees[portfolio_id])
    } else {
        None
    }
}

/// The fee ID assigned to a portfolio, or a fallback.
pub open spec fn assigned_or(s: FeeState, portfolio_id: Symbol, fallback: Symbol) -> Symbol {
    value_or(s.portfolio_fees, portfolio_id, fallback)
}

/// The fee structure that applies, which must be there and active.
pub open spec fn usable(s: FeeState, fee_id: Symbol) -> Result<FeeStructureView, FeeError> {
    if !s.structures.contains_key(fee_id) {
        Err(FeeError::FeeNotFound)
    } else if !s.structures[fee_id].active {
        Err(FeeError::FeeInactive)
    } else {
        Ok(s.structures[fee_id])
    }
}

/// The fee that a structure asks of an amount, after clamping, cap and discount.
pub open spec fn quoted(
    s: FeeState,
    fee_id: Symbol,
    amount: i128,
    discount_bps: i128,
    waived: bool,
) -> Result<FeeCalculationResult, FeeError> {
    match usable(s, fee_id) {
        Err(e) => Err(e),
        Ok(fs) => match raw_fee(fs.fee_type, fs.amount_bps, fs.tiered_entries, amount) {
            Err(e) => Err(e),
            Ok(raw) => match discounted(
                capped(clamped(raw, amount), fs.fee_cap),
                discount_bps,
                waived,
            ) {
                Err(e) => Err(e),
                Ok(fee) => Ok(
                    FeeCalculationResult {
                        fee_id,
                        category: fs.category,
                        gross_amount: amount,
                        raw_fee: raw,
                        discount_bps,
                        fee_cap: fs.fee_cap,
                        fee_amount: fee,
                        waived,
                    },
                ),
            },
        },
    }
}

/// The waiver has not expired.
pub open spec fn waiver_active(now: u64, w: FeeWaiver) -> bool {
    w.expires_at == 0 || now < w.expires_at
}

/// The waivers that apply to a portfolio.
pub open spec fn for_portfolio(now: u64, pid: Symbol) -> spec_fn(FeeWaiver) -> bool {
    |w: FeeWaiver| waiver_active(now, w) && w.has_portfolio && w.portfolio_id == pid
}

/// The waivers that apply to a payer and a portfolio.
pub open spec fn for_payer(now: u64, payer: Address, pid: Symbol) -> spec_fn(FeeWaiver) -> bool {
    |w: FeeWaiver|
        waiver_active(now, w) && (w.has_address && w.address == payer || w.has_portfolio
            && w.portfolio_id == pid)
}

/// Discount and waiver of the first waiver from `from` on that applies, or none.
pub open spec fn terms(
    waivers: Seq<FeeWaiver>,
    applies: spec_fn(FeeWaiver) -> bool,
    from: int,
) -> (i128, bool)
    decreases waivers.len() - from,
{
    if from >= waivers.len() {
        (0, false)
    } else if applies(waivers[from]) {
        (waivers[from].discount_bps, waivers[from].waived)
    } else {
        terms(waivers, applies, from + 1)
    }
}

/// The quote for a portfolio.
pub open spec fn portfolio_quote(
    s: FeeState,
    portfolio_id: Symbol,
    fallback: Symbol,
    amount: i128,
) -> Result<FeeCalculationResult, FeeError> {
    let t = terms(s.waivers, for_portfolio(s.timestamp, portfolio_id), 0);
    quoted(s, assigned_or(s, portfolio_id, fallback), amount, t.0, t.1)
}

/// The quote that a collection is charged by.
pub open spec fn collection_quote(
    s: FeeState,
    caller: Address,
    fee_id: Symbol,
    portfolio_id: Symbol,
    base_amount: i128,
) -> Result<FeeCalculationResult, FeeError> {
    let t = terms(s.waivers, for_payer(s.timestamp, caller, portfolio_id), 0);
    quoted(s, fee_id, base_amount, t.0, t.1)
}

/// The sum of the first `n` share numerators.
pub open spec fn share_total(recipients: Seq<RevenueRecipient>, n: int) -> int
    decreases n,
{
    if n <= 0 {
        0
    } else {
        share_total(recipients, n - 1) + recipients[n - 1].share_numerator
    }
}

/// A recipient's share of an amount before rounding is made up for.
pub open spec fn base_share(recipients: Seq<RevenueRecipient>, amount: i128, i: int) -> int {
    recipients[i].share_numerator * amount / share_total(recipients, recipients.len() as int)
}

/// The sum of the first `n` shares before rounding is made up for.
pub open spec fn base_shares(recipients: Seq<RevenueRecipient>, amount: i128, n: int) -> int
    decreases n,
{
    if n <= 0 {
        0
    } else {
        base_shares(recipients, amount, n - 1) + base_share(recipients, amount, n - 1)
    }
}

/// The multiplication for some recipient leaves `i128`.
pub open spec fn share_overflows(recipients: Seq<RevenueRecipient>, amount: i128) -> bool {
    exists|i: int|
        0 <= i < recipients.len() && !fits((#[trigger] recipients[i]).share_numerator * amount)
}

/// What is left by rounding; the first recipient gets it.
pub open spec fn rounding_rest(recipients: Seq<RevenueRecipient>, amount: i128) -> int {
    amount - base_shares(recipients, amount, recipients.len() as int)
}

/// How revenue is split: in proportion to the share numerators, rounded down,
/// with what is left going to the first recipient.
pub open spec fn distribution(recipients: Seq<RevenueRecipient>, amount: i128) -> Result<
    Seq<(Address, i128)>,
    FeeError,
> {
    if recipients.len() == 0 || amount <= 0 || share_total(recipients, recipients.len() as int)
        == 0 {
        Ok(Seq::empty())
    } else if share_overflows(recipients, amount) {
        Err(FeeError::ArithmeticOverflow)
    } else {
        Ok(
            Seq::new(
                recipients.len(),
                |i: int|
                    (
                        recipients[i].address,
                        (base_share(recipients, amount, i) + if i == 0 {
                            rounding_rest(recipients, amount)
                        } else {
                            0
                        }) as i128,
                    ),
            ),
        )
    }
}

/// The record of a collection.
pub open spec fn record_of(
    s: FeeState,
    caller: Address,
    portfolio_id: Symbol,
    q: FeeCalculationResult,
) -> FeeRecord {
    FeeRecord {
        fee_id: q.fee_id,
        category: q.category,
        portfolio_id,
        base_amount: q.gross_amount,
        fee_amount: q.fee_amount,
        discount_bps: q.discount_bps,
        waived: q.waived,
        timestamp: s.timestamp,
        collector: caller,
    }
}

/// The totals can take the fee.
pub open spec fn totals_fit(
    s: FeeState,
    portfolio_id: Symbol,
    q: FeeCalculationResult,
) -> bool {
    &&& fits(s.total_collected + q.fee_amount)
    &&& fits(value_or(s.category_totals, q.category, 0) + q.fee_amount)
    &&& fits(value_or(s.portfolio_totals, portfolio_id, 0) + q.fee_amount)
}

/// What collecting a fee does: it is recorded, and added to all totals.
pub open spec fn collected(
    s: FeeState,
    caller: Address,
    fee_id: Symbol,
    portfolio_id: Symbol,
    base_amount: i128,
) -> Result<(FeeState, i128), FeeError> {
    match collection_quote(s, caller, fee_id, portfolio_id, base_amount) {
        Err(e) => Err(e),
        Ok(q) => match distribution(s.recipients, q.fee_amount) {
            Err(e) => Err(e),
            Ok(_) => Ok(
                (
                    FeeState {
                        history: pushed_capped(
                            s.history,
                            record_of(s, caller, portfolio_id, q),
                            MAX_HISTORY as nat,
                        ),
                        total_collected: (s.total_collected + q.fee_amount) as i128,
                        category_totals: s.category_totals.insert(
                            q.category,
                            (value_or(s.category_totals, q.category, 0) + q.fee_amount) as i128,
                        ),
                        portfolio_totals: s.portfolio_totals.insert(
                            portfolio_id,
                            (value_or(s.portfolio_totals, portfolio_id, 0) + q.fee_amount) as i128,
                        ),
                        ..s
                    },
                    q.fee_amount,
                ),
            ),
        },
    }
}

/// A collection that goes through can be added to the totals.
pub open spec fn can_collect(
    s: FeeState,
    caller: Address,
    fee_id: Symbol,
    portfolio_id: Symbol,
    base_amount: i128,
) -> bool {
    match collection_quote(s, caller, fee_id, portfolio_id, base_amount) {
        Err(_) => true,
        Ok(q) => totals_fit(s, portfolio_id, q),
    }
}

/// Two waivers are for the same target.
pub open spec fn same_target(a: FeeWaiver, b: FeeWaiver) -> bool {
    &&& a.has_address == b.has_address
    &&& a.has_address ==> a.address == b.address
    &&& a.has_portfolio == b.has_portfolio
    &&& a.has_portfolio ==> a.portfolio_id == b.portfolio_id
}

/// A waiver made from what a caller gives; parts that are not given hold
/// placeholders that take no part in matching.
pub open spec fn waiver_for(
    admin: Address,
    address: Option<Address>,
    portfolio_id: Option<Symbol>,
    discount_bps: i128,
    waived: bool,
    label: Option<Symbol>,
    expires_at: u64,
) -> FeeWaiver {
    FeeWaiver {
        address: match address {
            Some(a) => a,
            None => admin,
        },
        has_address: address is Some,
        portfolio_id: match portfolio_id {
            Some(p) => p,
            None => sym(""@),
        },
        has_portfolio: portfolio_id is Some,
        discount_bps,
        waived,
        label: match label {
            Some(l) => l,
            None => sym(""@),
        },
        expires_at,
    }
}

/// The position of the first waiver from `from` on with the same target, or the length.
pub open spec fn target_index(waivers: Seq<FeeWaiver>, w: FeeWaiver, from: int) -> int
    decreases waivers.len() - from,
{
    if from >= waivers.len() {
        waivers.len() as int
    } else if same_target(waivers[from], w) {
        from
    } else {
        target_index(waivers, w, from + 1)
    }
}

/// The waivers with one more; it takes the place of one with the same target.
pub open spec fn waivers_with(waivers: Seq<FeeWaiver>, w: FeeWaiver) -> Seq<FeeWaiver> {
    let i = target_index(waivers, w, 0);
    if i < waivers.len() {
        waivers.update(i, w)
    } else {
        waivers.push(w)
    }
}

/// The first `n` waivers without those for the target.
pub open spec fn waivers_without(waivers: Seq<FeeWaiver>, target: FeeWaiver, n: int) -> Seq<
    FeeWaiver,
>
    decreases n,
{
    if n <= 0 {
        Seq::empty()
    } else {
        let before = waivers_without(waivers, target, n - 1);
        if same_target(waivers[n - 1], target) {
            before
        } else {
            before.push(waivers[n - 1])
        }
    }
}

/// What setting a waiver does; a new target is refused once the list is full.
pub open spec fn waiver_set(s: FeeState, w: FeeWaiver) -> Result<(FeeState, Symbol), FeeError> {
    if !(0 <= w.discount_bps <= BPS_DENOM) {
        Err(FeeError::InvalidFeeConfiguration)
    } else if target_index(s.waivers, w, 0) >= s.waivers.len() && s.waivers.len() >= MAX_WAIVERS {
        Err(FeeError::InvalidFeeConfiguration)
    } else {
        Ok((FeeState { waivers: waivers_with(s.waivers, w), ..s }, sym("ok"@)))
    }
}

/// What setting the recipients does.
pub open spec fn recipients_set(s: FeeState, recipients: Seq<RevenueRecipient>) -> Result<
    (FeeState, Symbol),
    FeeError,
> {
    if recipients.len() > MAX_RECIPIENTS {
        Err(FeeError::TooManyRecipients)
    } else {
        Ok((FeeState { recipients, ..s }, sym("ok"@)))
    }
}

/// The newest `max` items, or all where `max` is 0.
pub open spec fn newest<T>(list: Seq<T>, max: u32) -> Seq<T> {
    if max == 0 || list.len() <= max {
        list
    } else {
        list.skip(list.len() - max)
    }
}

/// The first `n` records, without those that are not wanted.
pub open spec fn selected(
    history: Seq<FeeRecord>,
    wanted: spec_fn(FeeRecord) -> bool,
    n: int,
) -> Seq<FeeRecord>
    decreases n,
{
    if n <= 0 {
        Seq::empty()
    } else {
        let before = selected(history, wanted, n - 1);
        if wanted(history[n - 1]) {
            before.push(history[n - 1])
        } else {
            before
        }
    }
}

/// The oldest `max` of the wanted records, or all of them where `max` is 0.
pub open spec fn oldest_selected(
    history: Seq<FeeRecord>,
    wanted: spec_fn(FeeRecord) -> bool,
    max: u32,
) -> Seq<FeeRecord> {
    let all = selected(history, wanted, history.len() as int);
    if max == 0 || all.len() <= max {
        all
    } else {
        all.take(max as int)
    }
}

// ---------------------------------------------------------------------------
// Waiver matching
// ---------------------------------------------------------------------------

fn waiver_is_active(now: u64, w: &FeeWaiver) -> (b: bool)
    ensures
        b == waiver_active(now, *w),
{
    if w.expires_at == 0 {
        return true;
    }
    now < w.expires_at
}

fn waiver_same_target(a: &FeeWaiver, b: &FeeWaiver) -> (r: bool)
    ensures
        r == same_target(*a, *b),
{
    if a.has_address != b.has_address {
        return false;
    }
    if a.has_address && a.address != b.address {
        return false;
    }
    if a.has_portfolio != b.has_portfolio {
        return false;
    }
    if a.has_portfolio && a.portfolio_id != b.portfolio_id {
        return false;
    }
    true
}

fn resolve_waiver_for_portfolio(env: &FeeEnv, pid: Symbol) -> (t: (i128, bool))
    ensures
        t == terms(env@.waivers, for_portfolio(env@.timestamp, pid), 0),
{
    let ghost applies = for_portfolio(env@.timestamp, pid);
    let mut i: usize = 0;
    while i < env.waivers.len()
        invariant
            i <= env@.waivers.len(),
            applies == for_portfolio(env@.timestamp, pid),
            terms(env@.waivers, applies, i as int) == terms(env@.waivers, applies, 0),
        decreases env@.waivers.len() - i,
    {
        let w: FeeWaiver = env.waivers[i];
        if waiver_is_active(env.timestamp, &w) && w.has_portfolio && w.portfolio_id == pid {
            return (w.discount_bps, w.waived);
        }
        i += 1;
    }
    (0, false)
}

fn resolve_waiver_for_collect(env: &FeeEnv, addr: Address, pid: Symbol) -> (t: (i128, bool))
    ensures
        t == terms(env@.waivers, for_payer(env@.timestamp, addr, pid), 0),
{
    let ghost applies = for_payer(env@.timestamp, addr, pid);
    let mut i: usize = 0;
    while i < env.waivers.len()
        invariant
            i <= env@.waivers.len(),
            applies == for_payer(env@.timestamp, addr, pid),
            terms(env@.waivers, applies, i as int) == terms(env@.waivers, applies, 0),
        decreases env@.waivers.len() - i,
    {
        let w: FeeWaiver = env.waivers[i];
        if waiver_is_active(env.timestamp, &w) {
            if w.has_address && w.address == addr {
                return (w.discount_bps, w.waived);
            }
            if w.has_portfolio && w.portfolio_id == pid {
                return (w.discount_bps, w.waived);
            }
        }
        i += 1;
    }
    (0, false)
}

// ---------------------------------------------------------------------------
// Revenue distribution
// ---------------------------------------------------------------------------

proof fn lemma_share_total(recipients: Seq<RevenueRecipient>, n: int)
    requires
        0 <= n <= recipients.len(),
    ensures
        0 <= share_total(recipients, n) <= n * u32::MAX,
        share_total(recipients, n) <= share_total(recipients, recipients.len() as int),
    decreases recipients.len() - n,
{
    lemma_share_total_upto(recipients, n);
    if n < recipients.len() {
        lemma_share_total(recipients, n + 1);
    }
}

proof fn lemma_share_total_upto(recipients: Seq<RevenueRecipient>, n: int)
    requires
        0 <= n <= recipients.len(),
    ensures
        0 <= share_total(recipients, n) <= n * u32::MAX,
    decreases n,
{
    if n > 0 {
        lemma_share_total_upto(recipients, n - 1);
    }
}

/// The rounded shares of the first recipients stay within their part of the amount.
pub proof fn lemma_base_shares(recipients: Seq<RevenueRecipient>, amount: i128, n: int)
    requires
        0 <= n <= recipients.len(),
        amount > 0,
        share_total(recipients, recipients.len() as int) > 0,
    ensures
        0 <= base_shares(recipients, amount, n),
        base_shares(recipients, amount, n) * share_total(recipients, recipients.len() as int)
            <= share_total(recipients, n) * amount,
        base_shares(recipients, amount, n) <= amount,
        n > 0 ==> 0 <= base_share(recipients, amount, n - 1) <= amount,
    decreases n,
{
    let total = share_total(recipients, recipients.len() as int);
    lemma_share_total(recipients, n);
    if n > 0 {
        lemma_base_shares(recipients, amount, n - 1);
        lemma_share_total(recipients, n - 1);
        let k = recipients[n - 1].share_numerator as int;
        let a = amount as int;
        let x = base_share(recipients, amount, n - 1);
        let before = base_shares(recipients, amount, n - 1);
        let t = share_total(recipients, n - 1);
        assert(0 <= x && x * total <= k * a) by (nonlinear_arith)
            requires
                x == k * a / total,
                k >= 0,
                a > 0,
                total > 0,
        ;
        assert((before + x) * total <= (t + k) * a) by (nonlinear_arith)
            requires
                before * total <= t * a,
                x * total <= k * a,
        ;
    }
    let sum = base_shares(recipients, amount, n);
    let t = share_total(recipients, n);
    let a = amount as int;
    assert(sum <= a) by (nonlinear_arith)
        requires
            sum * total <= t * a,
            t <= total,
            total > 0,
            a > 0,
    ;
}

fn distribute_revenue(env: &FeeEnv, amount: i128) -> (r: Result<Vec<(Address, i128)>, FeeError>)
    requires
        env@.recipients.len() <= MAX_RECIPIENTS,
    ensures
        match distribution(env@.recipients, amount) {
            Ok(d) => r is Ok && r->Ok_0@ == d,
            Err(e) => r is Err && r->Err_0 == e,
        },
{
    let mut out: Vec<(Address, i128)> = Vec::new();
    assert(out@ =~= Seq::empty());
    let n: usize = env.recipients.len();
    if n == 0 || amount <= 0 {
        return Ok(out);
    }
    let ghost recipients = env@.recipients;
    let mut total: i128 = 0;
    let mut i: usize = 0;
    while i < n
        invariant
            i <= n == recipients.len() <= MAX_RECIPIENTS,
            recipients == env@.recipients,
            total == share_total(recipients, i as int),
            0 <= total <= i * u32::MAX,
        decreases n - i,
    {
        total = total + env.recipients[i].share_numerator as i128;
        i += 1;
    }
    if total == 0 {
        return Ok(out);
    }
    let mut distributed: i128 = 0;
    let mut k: usize = 0;
    assert(out@ =~= Seq::new(
        0,
        |j: int| (recipients[j].address, base_share(recipients, amount, j) as i128),
    ));
    while k < n
        invariant
            k <= n == recipients.len() <= MAX_RECIPIENTS,
            recipients == env@.recipients,
            amount > 0,
            total == share_total(recipients, n as int),
            total > 0,
            distributed == base_shares(recipients, amount, k as int),
            forall|j: int| 0 <= j < k ==> fits((#[trigger] recipients[j]).share_numerator * amount),
            out@ == Seq::new(
                k as nat,
                |j: int| (recipients[j].address, base_share(recipients, amount, j) as i128),
            ),
        decreases n - k,
    {
        let numerator: i128 = env.recipients[k].share_numerator as i128;
        let product: i128 = match numerator.checked_mul(amount) {
            Some(x) => x,
            None => {
                assert(!fits(recipients[k as int].share_numerator * amount));
                return Err(FeeError::ArithmeticOverflow);
            },
        };
        proof {
            lemma_base_shares(recipients, amount, k + 1);
            lemma_base_shares(recipients, amount, k as int);
            assert(product >= 0) by (nonlinear_arith)
                requires
                    product == numerator * amount,
                    numerator >= 0,
                    amount > 0,
            ;
        }
        let share: i128 = product / total;
        distributed = distributed + share;
        out.push((env.recipients[k].address, share));
        k += 1;
        assert(out@ =~= Seq::new(
            k as nat,
            |j: int| (recipients[j].address, base_share(recipients, amount, j) as i128),
        ));
    }
    proof {
        lemma_base_shares(recipients, amount, n as int);
        lemma_base_shares(recipients, amount, 1);
        lemma_first_share(recipients, amount, n as int);
    }
    let remainder: i128 = amount - distributed;
    if remainder > 0 {
        let first: (Address, i128) = out[0];
        out.set(0, (first.0, first.1 + remainder));
    }
    proof {
        assert(!share_overflows(recipients, amount));
        let want = distribution(recipients, amount)->Ok_0;
        assert forall|j: int| 0 <= j < n implies out@[j] == want[j] by {
            if j > 0 {
                lemma_base_shares(recipients, amount, j + 1);
            }
        }
        assert(out@ =~= want);
    }
    Ok(out)
}

proof fn lemma_first_share(recipients: Seq<RevenueRecipient>, amount: i128, n: int)
    requires
        1 <= n <= recipients.len(),
        amount > 0,
        share_total(recipients, recipients.len() as int) > 0,
    ensures
        base_share(recipients, amount, 0) <= base_shares(recipients, amount, n),
    decreases n,
{
    if n > 1 {
        lemma_first_share(recipients, amount, n - 1);
        lemma_base_shares(recipients, amount, n);
    } else {
        assert(base_shares(recipients, amount, 0) == 0);
    }
}

fn add_to<K: TableKey + Copy>(table: &mut Table<K, i128>, k: K, amount: i128)
    requires
        fits(value_or(old(table)@, k, 0) + amount),
    ensures
        final(table)@ == old(table)@.insert(k, (value_or(old(table)@, k, 0) + amount) as i128),
{
    let current: i128 = match table.copied(k) {
        Some(x) => x,
        None => 0,
    };
    table.set(k, current + amount);
}

fn select_records(
    history: &Vec<FeeRecord>,
    by_portfolio: Option<Symbol>,
    by_category: Option<FeeCategory>,
    max: u32,
) -> (out: Vec<FeeRecord>)
    ensures
        out@ == oldest_selected(history@, matching(by_portfolio, by_category), max),
{
    let ghost wanted = matching(by_portfolio, by_category);
    let mut out: Vec<FeeRecord> = Vec::new();
    let mut i: usize = 0;
    assert(out@ =~= selected(history@, wanted, 0));
    while i < history.len() && (max == 0 || out.len() < max as usize)
        invariant
            i <= history@.len(),
            wanted == matching(by_portfolio, by_category),
            max > 0 ==> out@.len() <= max,
            out@ == selected(history@, wanted, i as int),
        decreases history@.len() - i,
    {
        let r: FeeRecord = history[i];
        let portfolio_fits: bool = match by_portfolio {
            Some(p) => r.portfolio_id == p,
            None => true,
        };
        let category_fits: bool = match by_category {
            Some(c) => r.category == c,
            None => true,
        };
        if portfolio_fits && category_fits {
            out.push(r);
        }
        i += 1;
    }
    proof {
        lemma_selected_prefix(history@, wanted, i as int, history@.len() as int);
        assert(out@ =~= oldest_selected(history@, wanted, max));
    }
    out
}

/// The records that match what is given.
pub open spec fn matching(
    by_portfolio: Option<Symbol>,
    by_category: Option<FeeCategory>,
) -> spec_fn(FeeRecord) -> bool {
    |r: FeeRecord|
        (by_portfolio is Some ==> r.portfolio_id == by_portfolio->Some_0) && (by_category is Some
            ==> r.category == by_category->Some_0)
}

proof fn lemma_selected_prefix(
    history: Seq<FeeRecord>,
    wanted: spec_fn(FeeRecord) -> bool,
    m: int,
    n: int,
)
    requires
        0 <= m <= n <= history.len(),
    ensures
        selected(history, wanted, m).len() <= selected(history, wanted, n).len(),
        selected(history, wanted, n).take(selected(history, wanted, m).len() as int) == selected(
            history,
            wanted,
            m,
        ),
    decreases n - m,
{
    let a = selected(history, wanted, m);
    let b = selected(history, wanted, n);
    if m < n {
        lemma_selected_prefix(history, wanted, m, n - 1);
        let c = selected(history, wanted, n - 1);
        assert(b.take(a.len() as int) =~= c.take(a.len() as int));
    } else {
        assert(b.take(a.len() as int) =~= a);
    }
}

impl FeeManagementContract {
    /// Set the admin. May only be called once.
    pub fn initialize(env: &mut FeeEnv, admin: Address) -> (r: Result<Symbol, FeeError>)
        ensures
            effect(initialized(old(env)@, admin), r, old(env)@, final(env)@),
            old(env)@.wf() ==> final(env)@.wf(),
    {
        if env.admin.is_some() {
            return Err(FeeError::AlreadyInitialized);
        }
        env.admin = Some(admin);
        assert(env@ =~= initialized(old(env)@, admin)->Ok_0.0);
        Ok(symbol_short("ok"))
    }

    /// The admin of an initialized contract.
    pub fn get_admin(env: &FeeEnv) -> (a: Address)
        requires
            env@.admin is Some,
        ensures
            env@.admin == Some(a),
    {
        env.admin.unwrap()
    }

    /// Hand the contract over to another admin. Admin-only.
    pub fn transfer_admin(env: &mut FeeEnv, new_admin: Address) -> (r: Symbol)
        requires
            old(env)@.admin_signed(),
        ensures
            final(env)@ == (FeeState { admin: Some(new_admin), ..old(env)@ }),
            r == sym("ok"@),
            old(env)@.wf() ==> final(env)@.wf(),
    {
        env.admin = Some(new_admin);
        assert(env@ =~= (FeeState { admin: Some(new_admin), ..old(env)@ }));
        symbol_short("ok")
    }

    /// Define a fee structure, or define it anew. Admin-only.
    pub fn set_fee_structure(
        env: &mut FeeEnv,
        fee_id: Symbol,
        fee_type: FeeType,
        amount_bps: i128,
        tiered_entries: Vec<TierEntry>,
        category: FeeCategory,
        active: bool,
        fee_cap: Option<i128>,
    ) -> (r: Result<Symbol, FeeError>)
        requires
            old(env)@.admin_signed(),
        ensures
            effect(
                structure_set(
                    old(env)@,
                    FeeStructureView {
                        fee_id,
                        fee_type,
                        amount_bps,
                        tiered_entries: tiered_entries@,
                        category,
                        active,
                        fee_cap,
                    },
                ),
                r,
                old(env)@,
                final(env)@,
            ),
            old(env)@.wf() ==> final(env)@.wf(),
    {
        let fs = FeeStructure {
            fee_id,
            fee_type,
            amount_bps,
            tiered_entries,
            category,
            active,
            fee_cap,
        };
        match validate_fee_structure(&fs) {
            Ok(()) => {},
            Err(e) => return Err(e),
        }
        let ghost view = fs@;
        env.structures.set(fee_id, fs);
        if !has_symbol(&env.fee_ids, fee_id) {
            env.fee_ids.push(fee_id);
        }
        assert(env@ =~= structure_set(old(env)@, view)->Ok_0.0);
        Ok(symbol_short("ok"))
    }

    /// Define a fee structure of the custom category, without a cap. Admin-only.
    pub fn set_fee_structure_simple(
        env: &mut FeeEnv,
        fee_id: Symbol,
        fee_type: FeeType,
        amount_bps: i128,
        tiered_entries: Vec<TierEntry>,
        active: bool,
    ) -> (r: Result<Symbol, FeeError>)
        requires
            old(env)@.admin_signed(),
        ensures
            effect(
                structure_set(
                    old(env)@,
                    FeeStructureView {
                        fee_id,
                        fee_type,
                        amount_bps,
                        tiered_entries: tiered_entries@,
                        category: FeeCategory::Custom,
                        active,
                        fee_cap: None,
                    },
                ),
                r,
                old(env)@,
                final(env)@,
            ),
            old(env)@.wf() ==> final(env)@.wf(),
    {
        Self::set_fee_structure(
            env,
            fee_id,
            fee_type,
            amount_bps,
            tiered_entries,
            FeeCategory::Custom,
            active,
            None,
        )
    }

    /// The fee structure with the ID.
    pub fn get_fee_structure(env: &FeeEnv, fee_id: Symbol) -> (r: Option<FeeStructure>)
        ensures
            match r {
                Some(fs) => env@.structures.contains_key(fee_id) && fs@ == env@.structures[fee_id],
                None => !env@.structures.contains_key(fee_id),
            },
    {
        match env.structures.get(fee_id) {
            Some(fs) => Some(fs.copy()),
            None => None,
        }
    }

    /// The IDs of all fee structures, oldest first.
    pub fn list_fee_structures(env: &FeeEnv) -> (r: Vec<Symbol>)
        ensures
            r@ == env@.fee_ids,
    {
        copy_vec(&env.fee_ids)
    }

    /// Switch a fee structure on or off. Admin-only.
    pub fn set_fee_active(env: &mut FeeEnv, fee_id: Symbol, active: bool) -> (r: Result<
        Symbol,
        FeeError,
    >)
        requires
            old(env)@.admin_signed(),
        ensures
            effect(
                structure_changed(
                    old(env)@,
                    fee_id,
                    |fs: FeeStructureView| FeeStructureView { active, ..fs },
                ),
                r,
                old(env)@,
                final(env)@,
            ),
            old(env)@.wf() ==> final(env)@.wf(),
    {
        let mut fs: FeeStructure = match Self::get_fee_structure(env, fee_id) {
            Some(fs) => fs,
            None => return Err(FeeError::FeeNotFound),
        };
        fs.active = active;
        assert(fs@ =~= (FeeStructureView { active, ..old(env)@.structures[fee_id] }));
        env.structures.set(fee_id, fs);
        assert(env@ =~= structure_changed(
            old(env)@,
            fee_id,
            |fs: FeeStructureView| FeeStructureView { active, ..fs },
        )->Ok_0.0);
        Ok(symbol_short("ok"))
    }

    /// Change the cap of a fee structure. Admin-only.
    pub fn set_fee_cap(env: &mut FeeEnv, fee_id: Symbol, cap: Option<i128>) -> (r: Result<
        Symbol,
        FeeError,
    >)
        requires
            old(env)@.admin_signed(),
        ensures
            effect(
                structure_changed(
                    old(env)@,
                    fee_id,
                    |fs: FeeStructureView| FeeStructureView { fee_cap: cap, ..fs },
                ),
                r,
                old(env)@,
                final(env)@,
            ),
            old(env)@.wf() ==> final(env)@.wf(),
    {
        let mut fs: FeeStructure = match Self::get_fee_structure(env, fee_id) {
            Some(fs) => fs,
            None => return Err(FeeError::FeeNotFound),
        };
        fs.fee_cap = cap;
        assert(fs@ =~= (FeeStructureView { fee_cap: cap, ..old(env)@.structures[fee_id] }));
        env.structures.set(fee_id, fs);
        assert(env@ =~= structure_changed(
            old(env)@,
            fee_id,
            |fs: FeeStructureView| FeeStructureView { fee_cap: cap, ..fs },
        )->Ok_0.0);
        Ok(symbol_short("ok"))
    }

    /// Assign a fee structure to a portfolio. Admin-only.
    pub fn set_portfolio_fee(env: &mut FeeEnv, portfolio_id: Symbol, fee_id: Symbol) -> (r: Result<
        Symbol,
        FeeError,
    >)
        requires
            old(env)@.admin_signed(),
        ensures
            effect(portfolio_fee_set(old(env)@, portfolio_id, fee_id), r, old(env)@, final(env)@),
            old(env)@.wf() ==> final(env)@.wf(),
    {
        if !env.structures.has(fee_id) {
            return Err(FeeError::FeeNotFound);
        }
        env.portfolio_fees.set(portfolio_id, fee_id);
        assert(env@ =~= portfolio_fee_set(old(env)@, portfolio_id, fee_id)->Ok_0.0);
        Ok(symbol_short("ok"))
    }

    /// The fee ID assigned to a portfolio.
    pub fn get_portfolio_fee(env: &FeeEnv, portfolio_id: Symbol) -> (r: Option<Symbol>)
        ensures
            r == assigned(env@, portfolio_id),
    {
        env.portfolio_fees.copied(portfolio_id)
    }

    /// Take a portfolio's fee assignment away. Admin-only.
    pub fn remove_portfolio_fee(env: &mut FeeEnv, portfolio_id: Symbol) -> (r: Symbol)
        requires
            old(env)@.admin_signed(),
        ensures
            final(env)@ == (FeeState {
                portfolio_fees: old(env)@.portfolio_fees.remove(portfolio_id),
                ..old(env)@
            }),
            r == sym("ok"@),
            old(env)@.wf() ==> final(env)@.wf(),
    {
        env.portfolio_fees.remove(portfolio_id);
        assert(env@ =~= (FeeState {
            portfolio_fees: old(env)@.portfolio_fees.remove(portfolio_id),
            ..old(env)@
        }));
        symbol_short("ok")
    }

    fn quote(
        env: &FeeEnv,
        fee_id: Symbol,
        amount: i128,
        discount_bps: i128,
        waived: bool,
    ) -> (r: Result<FeeCalculationResult, FeeError>)
        ensures
            r == quoted(env@, fee_id, amount, discount_bps, waived),
    {
        let fs: &FeeStructure = match env.structures.get(fee_id) {
            Some(fs) => fs,
            None => return Err(FeeError::FeeNotFound),
        };
        if !fs.active {
            return Err(FeeError::FeeInactive);
        }
        let raw: i128 = match compute_fee_from_structure(fs, amount) {
            Ok(x) => x,
            Err(e) => return Err(e),
        };
        let limited: i128 = apply_fee_cap(clamp_fee(raw, amount), fs.fee_cap);
        let fee: i128 = match apply_discount(limited, discount_bps, waived) {
            Ok(x) => x,
            Err(e) => return Err(e),
        };
        Ok(
            FeeCalculationResult {
                fee_id,
                category: fs.category,
                gross_amount: amount,
                raw_fee: raw,
                discount_bps,
                fee_cap: fs.fee_cap,
                fee_amount: fee,
                waived,
            },
        )
    }

    /// The fee that a structure asks of an amount, without waivers.
    pub fn calculate_fee(env: &FeeEnv, fee_id: Symbol, amount: i128) -> (r: Result<
        FeeCalculationResult,
        FeeError,
    >)
        ensures
            r == quoted(env@, fee_id, amount, 0, false),
    {
        Self::quote(env, fee_id, amount, 0, false)
    }

    /// The fee that a portfolio pays on an amount, by its assigned structure or
    /// the fallback, with the portfolio's waivers.
    pub fn calculate_portfolio_fee(
        env: &FeeEnv,
        portfolio_id: Symbol,
        fallback_fee_id: Symbol,
        amount: i128,
    ) -> (r: Result<FeeCalculationResult, FeeError>)
        ensures
            r == portfolio_quote(env@, portfolio_id, fallback_fee_id, amount),
    {
        let fee_id: Symbol = match env.portfolio_fees.copied(portfolio_id) {
            Some(id) => id,
            None => fallback_fee_id,
        };
        let t: (i128, bool) = resolve_waiver_for_portfolio(env, portfolio_id);
        Self::quote(env, fee_id, amount, t.0, t.1)
    }

    /// Estimate a fee, with the assignment and the waivers of a portfolio where
    /// one is given.
    pub fn estimate_fee(
        env: &FeeEnv,
        fee_id: Symbol,
        portfolio_id: Option<Symbol>,
        amount: i128,
    ) -> (r: Result<FeeCalculationResult, FeeError>)
        ensures
            r == (match portfolio_id {
                Some(p) => portfolio_quote(env@, p, fee_id, amount),
                None => quoted(env@, fee_id, amount, 0, false),
            }),
    {
        match portfolio_id {
            Some(p) => Self::calculate_portfolio_fee(env, p, fee_id, amount),
            None => Self::quote(env, fee_id, amount, 0, false),
        }
    }

    /// The fee that the caller would be charged now.
    pub fn preview_collection(
        env: &FeeEnv,
        caller: Address,
        fee_id: Symbol,
        portfolio_id: Symbol,
        base_amount: i128,
    ) -> (r: Result<FeeCalculationResult, FeeError>)
        ensures
            r == collection_quote(env@, caller, fee_id, portfolio_id, base_amount),
    {
        let t: (i128, bool) = resolve_waiver_for_collect(env, caller, portfolio_id);
        Self::quote(env, fee_id, base_amount, t.0, t.1)
    }

    /// Collect a fee: charge it with the waivers of the caller and the
    /// portfolio, record it and add it to the totals. Returns the fee.
    pub fn collect_fee(
        env: &mut FeeEnv,
        caller: Address,
        fee_id: Symbol,
        portfolio_id: Symbol,
        base_amount: i128,
    ) -> (r: Result<i128, FeeError>)
        requires
            old(env)@.authorized(caller),
            old(env)@.wf(),
            can_collect(old(env)@, caller, fee_id, portfolio_id, base_amount),
        ensures
            effect(
                collected(old(env)@, caller, fee_id, portfolio_id, base_amount),
                r,
                old(env)@,
                final(env)@,
            ),
            final(env)@.wf(),
    {
        let q: FeeCalculationResult = match Self::preview_collection(
            env,
            caller,
            fee_id,
            portfolio_id,
            base_amount,
        ) {
            Ok(q) => q,
            Err(e) => return Err(e),
        };
        match distribute_revenue(env, q.fee_amount) {
            Ok(_) => {},
            Err(e) => return Err(e),
        }
        let record = FeeRecord {
            fee_id,
            category: q.category,
            portfolio_id,
            base_amount,
            fee_amount: q.fee_amount,
            discount_bps: q.discount_bps,
            waived: q.waived,
            timestamp: env.timestamp,
            collector: caller,
        };
        push_capped(&mut env.history, record, MAX_HISTORY as usize);
        env.total_collected = env.total_collected + q.fee_amount;
        add_to(&mut env.category_totals, q.category, q.fee_amount);
        add_to(&mut env.portfolio_totals, portfolio_id, q.fee_amount);
        assert(env@ =~= collected(
            old(env)@,
            caller,
            fee_id,
            portfolio_id,
            base_amount,
        )->Ok_0.0);
        Ok(q.fee_amount)
    }

    /// Collect the `YIELD` fee.
    pub fn collect_yield_fee(
        env: &mut FeeEnv,
        caller: Address,
        portfolio_id: Symbol,
        yield_amount: i128,
    ) -> (r: Result<i128, FeeError>)
        requires
            old(env)@.authorized(caller),
            old(env)@.wf(),
            can_collect(old(env)@, caller, sym("YIELD"@), portfolio_id, yield_amount),
        ensures
            effect(
                collected(old(env)@, caller, sym("YIELD"@), portfolio_id, yield_amount),
                r,
                old(env)@,
                final(env)@,
            ),
            final(env)@.wf(),
    {
        Self::collect_fee(env, caller, symbol_short("YIELD"), portfolio_id, yield_amount)
    }

    /// Collect the `MGMT` fee.
    pub fn collect_management_fee(
        env: &mut FeeEnv,
        caller: Address,
        portfolio_id: Symbol,
        aum: i128,
    ) -> (r: Result<i128, FeeError>)
        requires
            old(env)@.authorized(caller),
            old(env)@.wf(),
            can_collect(old(env)@, caller, sym("MGMT"@), portfolio_id, aum),
        ensures
            effect(
                collected(old(env)@, caller, sym("MGMT"@), portfolio_id, aum),
                r,
                old(env)@,
                final(env)@,
            ),
            final(env)@.wf(),
    {
        Self::collect_fee(env, caller, symbol_short("MGMT"), portfolio_id, aum)
    }

    /// Collect the `REBAL` fee.
    pub fn collect_rebalance_fee(
        env: &mut FeeEnv,
        caller: Address,
        portfolio_id: Symbol,
        trade_amount: i128,
    ) -> (r: Result<i128, FeeError>)
        requires
            old(env)@.authorized(caller),
            old(env)@.wf(),
            can_collect(old(env)@, caller, sym("REBAL"@), portfolio_id, trade_amount),
        ensures
            effect(
                collected(old(env)@, caller, sym("REBAL"@), portfolio_id, trade_amount),
                r,
                old(env)@,
                final(env)@,
            ),
            final(env)@.wf(),
    {
        Self::collect_fee(env, caller, symbol_short("REBAL"), portfolio_id, trade_amount)
    }

    /// Collect the `TRADE` fee.
    pub fn collect_trading_fee(
        env: &mut FeeEnv,
        caller: Address,
        portfolio_id: Symbol,
        trade_amount: i128,
    ) -> (r: Result<i128, FeeError>)
        requires
            old(env)@.authorized(caller),
            old(env)@.wf(),
            can_collect(old(env)@, caller, sym("TRADE"@), portfolio_id, trade_amount),
        ensures
            effect(
                collected(old(env)@, caller, sym("TRADE"@), portfolio_id, trade_amount),
                r,
                old(env)@,
                final(env)@,
            ),
            final(env)@.wf(),
    {
        Self::collect_fee(env, caller, symbol_short("TRADE"), portfolio_id, trade_amount)
    }

    /// Set a waiver or discount for an address, a portfolio or both; it takes
    /// the place of one for the same target. Admin-only.
    pub fn set_fee_waiver(
        env: &mut FeeEnv,
        address: Option<Address>,
        portfolio_id: Option<Symbol>,
        discount_bps: i128,
        waived: bool,
        label: Option<Symbol>,
        expires_at: u64,
    ) -> (r: Result<Symbol, FeeError>)
        requires
            old(env)@.admin_signed(),
        ensures
            effect(
                waiver_set(
                    old(env)@,
                    waiver_for(
                        old(env)@.admin->Some_0,
                        address,
                        portfolio_id,
                        discount_bps,
                        waived,
                        label,
                        expires_at,
                    ),
                ),
                r,
                old(env)@,
                final(env)@,
            ),
            old(env)@.wf() ==> final(env)@.wf(),
    {
        if discount_bps < 0 || discount_bps > BPS_DENOM {
            return Err(FeeError::InvalidFeeConfiguration);
        }
        let w: FeeWaiver = Self::make_waiver(
            env,
            address,
            portfolio_id,
            discount_bps,
            waived,
            label,
            expires_at,
        );
        let mut i: usize = 0;
        while i < env.waivers.len() && !waiver_same_target(&env.waivers[i], &w)
            invariant
                i <= env@.waivers.len(),
                env@ == old(env)@,
                target_index(env@.waivers, w, i as int) == target_index(env@.waivers, w, 0),
            decreases env@.waivers.len() - i,
        {
            i += 1;
        }
        if i < env.waivers.len() {
            env.waivers.set(i, w);
        } else if env.waivers.len() >= MAX_WAIVERS as usize {
            return Err(FeeError::InvalidFeeConfiguration);
        } else {
            env.waivers.push(w);
        }
        assert(env@ =~= waiver_set(old(env)@, w)->Ok_0.0);
        Ok(symbol_short("ok"))
    }

    fn make_waiver(
        env: &FeeEnv,
        address: Option<Address>,
        portfolio_id: Option<Symbol>,
        discount_bps: i128,
        waived: bool,
        label: Option<Symbol>,
        expires_at: u64,
    ) -> (w: FeeWaiver)
        requires
            env@.admin is Some,
        ensures
            w == waiver_for(
                env@.admin->Some_0,
                address,
                portfolio_id,
                discount_bps,
                waived,
                label,
                expires_at,
            ),
    {
        FeeWaiver {
            address: match address {
                Some(a) => a,
                None => Self::get_admin(env),
            },
            has_address: address.is_some(),
            portfolio_id: match portfolio_id {
                Some(p) => p,
                None => sym_empty(),
            },
            has_portfolio: portfolio_id.is_some(),
            discount_bps,
            waived,
            label: match label {
                Some(l) => l,
                None => sym_empty(),
            },
            expires_at,
        }
    }

    /// Take away the waivers for a target. Admin-only.
    pub fn remove_fee_waiver(
        env: &mut FeeEnv,
        address: Option<Address>,
        portfolio_id: Option<Symbol>,
    ) -> (r: Symbol)
        requires
            old(env)@.admin_signed(),
        ensures
            final(env)@ == (FeeState {
                waivers: waivers_without(
                    old(env)@.waivers,
                    waiver_for(
                        old(env)@.admin->Some_0,
                        address,
                        portfolio_id,
                        0,
                        false,
                        None,
                        0,
                    ),
                    old(env)@.waivers.len() as int,
                ),
                ..old(env)@
            }),
            r == sym("ok"@),
            old(env)@.wf() ==> final(env)@.wf(),
    {
        let target: FeeWaiver = Self::make_waiver(env, address, portfolio_id, 0, false, None, 0);
        let mut left: Vec<FeeWaiver> = Vec::new();
        let mut i: usize = 0;
        assert(left@ =~= waivers_without(env@.waivers, target, 0));
        while i < env.waivers.len()
            invariant
                i <= env@.waivers.len(),
                env@ == old(env)@,
                left@ == waivers_without(env@.waivers, target, i as int),
                left@.len() <= i,
            decreases env@.waivers.len() - i,
        {
            if !waiver_same_target(&env.waivers[i], &target) {
                left.push(env.waivers[i]);
            }
            i += 1;
        }
        env.waivers = left;
        assert(env@ =~= (FeeState {
            waivers: waivers_without(old(env)@.waivers, target, old(env)@.waivers.len() as int),
            ..old(env)@
        }));
        symbol_short("ok")
    }

    /// All waivers, in the order of matching.
    pub fn list_fee_waivers(env: &FeeEnv) -> (r: Vec<FeeWaiver>)
        ensures
            r@ == env@.waivers,
    {
        copy_vec(&env.waivers)
    }

    /// Set who shares the revenue. Admin-only.
    pub fn set_revenue_recipients(env: &mut FeeEnv, recipients: Vec<RevenueRecipient>) -> (r:
        Result<Symbol, FeeError>)
        requires
            old(env)@.admin_signed(),
        ensures
            effect(recipients_set(old(env)@, recipients@), r, old(env)@, final(env)@),
            old(env)@.wf() ==> final(env)@.wf(),
    {
        if recipients.len() > MAX_RECIPIENTS as usize {
            return Err(FeeError::TooManyRecipients);
        }
        let ghost view = recipients@;
        env.recipients = recipients;
        assert(env@ =~= recipients_set(old(env)@, view)->Ok_0.0);
        Ok(symbol_short("ok"))
    }

    /// Who shares the revenue.
    pub fn list_revenue_recipients(env: &FeeEnv) -> (r: Vec<RevenueRecipient>)
        ensures
            r@ == env@.recipients,
    {
        copy_vec(&env.recipients)
    }

    /// How an amount of revenue is split.
    pub fn distribute_revenue_amount(env: &FeeEnv, amount: i128) -> (r: Result<
        Vec<(Address, i128)>,
        FeeError,
    >)
        requires
            env@.wf(),
        ensures
            match distribution(env@.recipients, amount) {
                Ok(d) => r is Ok && r->Ok_0@ == d,
                Err(e) => r is Err && r->Err_0 == e,
            },
    {
        distribute_revenue(env, amount)
    }

    /// The sum of all fees collected.
    pub fn get_total_collected(env: &FeeEnv) -> (x: i128)
        ensures
            x == env@.total_collected,
    {
        env.total_collected
    }

    /// The sum of the fees collected in a category.
    pub fn get_category_total(env: &FeeEnv, category: FeeCategory) -> (x: i128)
        ensures
            x == value_or(env@.category_totals, category, 0),
    {
        match env.category_totals.copied(category) {
            Some(x) => x,
            None => 0,
        }
    }

    /// The sum of the fees collected from a portfolio.
    pub fn get_portfolio_total(env: &FeeEnv, portfolio_id: Symbol) -> (x: i128)
        ensures
            x == value_or(env@.portfolio_totals, portfolio_id, 0),
    {
        match env.portfolio_totals.copied(portfolio_id) {
            Some(x) => x,
            None => 0,
        }
    }

    /// The newest `max` records, oldest first, or all where `max` is 0.
    pub fn get_fee_history(env: &FeeEnv, max: u32) -> (r: Vec<FeeRecord>)
        ensures
            r@ == newest(env@.history, max),
    {
        let n: usize = env.history.len();
        let from: usize = if max == 0 || n <= max as usize {
            0
        } else {
            n - max as usize
        };
        let mut out: Vec<FeeRecord> = Vec::new();
        let mut i: usize = from;
        while i < n
            invariant
                from <= i <= n == env@.history.len(),
                out@ == env@.history.subrange(from as int, i as int),
            decreases n - i,
        {
            out.push(env.history[i]);
            i += 1;
            assert(out@ =~= env@.history.subrange(from as int, i as int));
        }
        assert(out@ =~= newest(env@.history, max));
        out
    }

    /// How many records the history holds.
    pub fn get_fee_history_count(env: &FeeEnv) -> (n: u32)
        requires
            env@.wf(),
        ensures
            n == env@.history.len(),
    {
        env.history.len() as u32
    }

    /// The oldest `max` records of a portfolio, or all where `max` is 0.
    pub fn get_fee_history_by_portfolio(env: &FeeEnv, portfolio_id: Symbol, max: u32) -> (r: Vec<
        FeeRecord,
    >)
        ensures
            r@ == oldest_selected(env@.history, matching(Some(portfolio_id), None), max),
    {
        select_records(&env.history, Some(portfolio_id), None, max)
    }

    /// The oldest `max` records of a category, or all where `max` is 0.
    pub fn get_fee_history_by_category(env: &FeeEnv, category: FeeCategory, max: u32) -> (r: Vec<
        FeeRecord,
    >)
        ensures
            r@ == oldest_selected(env@.history, matching(None, Some(category)), max),
    {
        select_records(&env.history, None, Some(category), max)
    }
}

} // verus!
