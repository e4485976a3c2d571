//! Fee reporting and analytics.

use vstd::prelude::*;

use crate::base::arith::fits;
use crate::base::symbol::Symbol;
use crate::fee::records::{
    FeeCategory, FeeRecord, FeeSummary, FeeSummaryView, PortfolioFeeReport,
    PortfolioFeeReportView,
};

verus! {

// ---------------------------------------------------------------------------
// Sums over records
// ---------------------------------------------------------------------------

/// The sum of the fees of those of the first `n` records that are wanted.
pub open spec fn fee_sum(
    records: Seq<FeeRecord>,
    wanted: spec_fn(FeeRecord) -> bool,
    n: int,
) -> int
    decreases n,
{
    if n <= 0 {
        0
    } else {
        fee_sum(records, wanted, n - 1) + if wanted(records[n - 1]) {
            records[n - 1].fee_amount as int
        } else {
            0
        }
    }
}

/// The number of those of the first `n` records that are wanted.
pub open spec fn tally(
    records: Seq<FeeRecord>,
    wanted: spec_fn(FeeRecord) -> bool,
    n: int,
) -> nat
    decreases n,
{
    if n <= 0 {
        0
    } else {
        tally(records, wanted, n - 1) + if wanted(records[n - 1]) {
            1nat
        } else {
            0nat
        }
    }
}

/// Every record.
pub open spec fn any_record() -> spec_fn(FeeRecord) -> bool {
    |r: FeeRecord| true
}

/// The records whose fee was waived.
pub open spec fn waived_only() -> spec_fn(FeeRecord) -> bool {
    |r: FeeRecord| r.waived
}

/// The records of a category.
pub open spec fn in_category(c: FeeCategory) -> spec_fn(FeeRecord) -> bool {
    |r: FeeRecord| r.category == c
}

/// The records of a portfolio.
pub open spec fn of_portfolio(pid: Symbol) -> spec_fn(FeeRecord) -> bool {
    |r: FeeRecord| r.portfolio_id == pid
}

/// The records of a portfolio in a category.
pub open spec fn of_both(pid: Symbol, c: FeeCategory) -> spec_fn(FeeRecord) -> bool {
    |r: FeeRecord| r.portfolio_id == pid && r.category == c
}

/// What a record's payer did not have to pay of the base amount.
pub open spec fn discount_of(r: FeeRecord) -> int {
    if r.waived {
        r.base_amount as int
    } else {
        r.base_amount - r.fee_amount
    }
}

/// The sum of the positive discounts of the first `n` records.
pub open spec fn discount_sum(records: Seq<FeeRecord>, n: int) -> int
    decreases n,
{
    if n <= 0 {
        0
    } else {
        discount_sum(records, n - 1) + if discount_of(records[n - 1]) > 0 {
            discount_of(records[n - 1])
        } else {
            0
        }
    }
}

/// All partial sums of the wanted fees are numbers of `i128`.
pub open spec fn sums_fit(records: Seq<FeeRecord>, wanted: spec_fn(FeeRecord) -> bool) -> bool {
    forall|n: int| 0 <= n <= records.len() ==> fits(#[trigger] fee_sum(records, wanted, n))
}

/// All partial sums by category are numbers of `i128`.
pub open spec fn category_sums_fit(
    records: Seq<FeeRecord>,
    wanted: spec_fn(FeeCategory) -> spec_fn(FeeRecord) -> bool,
) -> bool {
    &&& sums_fit(records, wanted(FeeCategory::Rebalancing))
    &&& sums_fit(records, wanted(FeeCategory::Yield))
    &&& sums_fit(records, wanted(FeeCategory::Management))
    &&& sums_fit(records, wanted(FeeCategory::Trading))
    &&& sums_fit(records, wanted(FeeCategory::Protocol))
    &&& sums_fit(records, wanted(FeeCategory::Custom))
}

/// All partial sums of discounts are numbers of `i128`.
pub open spec fn discounts_fit(records: Seq<FeeRecord>) -> bool {
    forall|n: int|
        0 <= n <= records.len() ==> fits(#[trigger] discount_sum(records, n)) && (n > 0 ==> fits(
            discount_of(records[n - 1]),
        ))
}

/// A list of category sums with one more, if it is positive.
pub open spec fn with_positive(
    list: Seq<(FeeCategory, i128)>,
    c: FeeCategory,
    x: int,
) -> Seq<(FeeCategory, i128)> {
    if x > 0 {
        list.push((c, x as i128))
    } else {
        list
    }
}

/// The positive sums by category, in the order of the categories.
pub open spec fn positive_sums(sum: spec_fn(FeeCategory) -> int) -> Seq<(FeeCategory, i128)> {
    let l0 = Seq::empty();
    let l1 = with_positive(l0, FeeCategory::Rebalancing, sum(FeeCategory::Rebalancing));
    let l2 = with_positive(l1, FeeCategory::Yield, sum(FeeCategory::Yield));
    let l3 = with_positive(l2, FeeCategory::Management, sum(FeeCategory::Management));
    let l4 = with_positive(l3, FeeCategory::Trading, sum(FeeCategory::Trading));
    let l5 = with_positive(l4, FeeCategory::Protocol, sum(FeeCategory::Protocol));
    with_positive(l5, FeeCategory::Custom, sum(FeeCategory::Custom))
}

// ---------------------------------------------------------------------------
// Running sums by category
// ---------------------------------------------------------------------------

struct CategorySums {
    rebalancing: i128,
    yields: i128,
    management: i128,
    trading: i128,
    protocol: i128,
    custom: i128,
}

impl CategorySums {
    spec fn of(self, c: FeeCategory) -> i128 {
        match c {
            FeeCategory::Rebalancing => self.rebalancing,
            FeeCategory::Yield => self.yields,
            FeeCategory::Management => self.management,
            FeeCategory::Trading => self.trading,
            FeeCategory::Protocol => self.protocol,
            FeeCategory::Custom => self.custom,
        }
    }

    fn zero() -> (s: CategorySums)
        ensures
            forall|c: FeeCategory| #[trigger] s.of(c) == 0,
    {
        CategorySums {
            rebalancing: 0,
            yields: 0,
            management: 0,
            trading: 0,
            protocol: 0,
            custom: 0,
        }
    }

    fn plus(&mut self, c: FeeCategory, x: i128)
        requires
            fits(old(self).of(c) + x),
        ensures
            final(self).of(c) == old(self).of(c) + x,
            forall|d: FeeCategory| d != c ==> #[trigger] final(self).of(d) == old(self).of(d),
    {
        match c {
            FeeCategory::Rebalancing => self.rebalancing = self.rebalancing + x,
            FeeCategory::Yield => self.yields = self.yields + x,
            FeeCategory::Management => self.management = self.management + x,
            FeeCategory::Trading => self.trading = self.trading + x,
            FeeCategory::Protocol => self.protocol = self.protocol + x,
            FeeCategory::Custom => self.custom = self.custom + x,
        }
    }

    fn push_positive(list: &mut Vec<(FeeCategory, i128)>, c: FeeCategory, x: i128)
        ensures
            final(list)@ == with_positive(old(list)@, c, x as int),
    {
        if x > 0 {
            list.push((c, x));
        }
    }

    fn positives(&self) -> (list: Vec<(FeeCategory, i128)>)
        ensures
            list@ == positive_sums(|c: FeeCategory| self.of(c) as int),
    {
        let mut list: Vec<(FeeCategory, i128)> = Vec::new();
        assert(list@ =~= Seq::empty());
        Self::push_positive(&mut list, FeeCategory::Rebalancing, self.rebalancing);
        Self::push_positive(&mut list, FeeCategory::Yield, self.yields);
        Self::push_positive(&mut list, FeeCategory::Management, self.management);
        Self::push_positive(&mut list, FeeCategory::Trading, self.trading);
        Self::push_positive(&mut list, FeeCategory::Protocol, self.protocol);
        Self::push_positive(&mut list, FeeCategory::Custom, self.custom);
        list
    }
}

// ---------------------------------------------------------------------------
// Reports
// ---------------------------------------------------------------------------

/// What a summary of records says.
pub open spec fn summary_of(records: Seq<FeeRecord>) -> FeeSummaryView {
    let n = records.len() as int;
    FeeSummaryView {
        total_collected: fee_sum(records, any_record(), n) as i128,
        total_events: n as u32,
        by_category: positive_sums(|c: FeeCategory| fee_sum(records, in_category(c), n)),
        by_portfolio: Seq::empty(),
        total_discounts: discount_sum(records, n) as i128,
        waived_count: tally(records, waived_only(), n) as u32,
    }
}

/// Summarize records: the sum of the fees, the number of events, the sums by
/// category, what was saved by discounts and how many fees were waived.
pub fn build_fee_summary(records: &Vec<FeeRecord>) -> (s: FeeSummary)
    requires
        records@.len() <= u32::MAX,
        sums_fit(records@, any_record()),
        category_sums_fit(records@, |c: FeeCategory| in_category(c)),
        discounts_fit(records@),
    ensures
        s@ == summary_of(records@),
{
    let mut total_collected: i128 = 0;
    let mut total_discounts: i128 = 0;
    let mut waived_count: u32 = 0;
    let mut sums = CategorySums::zero();
    let mut i: usize = 0;
    while i < records.len()
        invariant
            i <= records@.len() <= u32::MAX,
            sums_fit(records@, any_record()),
            category_sums_fit(records@, |c: FeeCategory| in_category(c)),
            discounts_fit(records@),
            total_collected == fee_sum(records@, any_record(), i as int),
            total_discounts == discount_sum(records@, i as int),
            waived_count == tally(records@, waived_only(), i as int),
            waived_count <= i,
            forall|c: FeeCategory| #[trigger]
                sums.of(c) == fee_sum(records@, in_category(c), i as int),
        decreases records@.len() - i,
    {
        let r: FeeRecord = records[i];
        proof {
            let n = i + 1;
            assert(fits(fee_sum(records@, any_record(), n)));
            assert(fits(discount_sum(records@, n)));
            assert(records@[n - 1] == r);
            lemma_category_fits(records@, |c: FeeCategory| in_category(c), r.category, n);
            assert(sums.of(r.category) == fee_sum(records@, in_category(r.category), i as int));
        }
        total_collected = total_collected + r.fee_amount;
        if r.waived {
            waived_count = waived_count + 1;
        }
        let discount: i128 = if r.waived {
            r.base_amount
        } else {
            r.base_amount - r.fee_amount
        };
        if discount > 0 {
            total_discounts = total_discounts + discount;
        }
        sums.plus(r.category, r.fee_amount);
        i += 1;
    }
    let by_category: Vec<(FeeCategory, i128)> = sums.positives();
    let s = FeeSummary {
        total_collected,
        total_events: records.len() as u32,
        by_category,
        by_portfolio: Vec::new(),
        total_discounts,
        waived_count,
    };
    proof {
        let n = records@.len() as int;
        assert((|c: FeeCategory| sums.of(c) as int) =~= (|c: FeeCategory|
            fee_sum(records@, in_category(c), n)));
        assert(s@ =~= summary_of(records@));
    }
    s
}

proof fn lemma_category_fits(
    records: Seq<FeeRecord>,
    wanted: spec_fn(FeeCategory) -> spec_fn(FeeRecord) -> bool,
    c: FeeCategory,
    n: int,
)
    requires
        category_sums_fit(records, wanted),
        0 <= n <= records.len(),
    ensures
        fits(fee_sum(records, wanted(c), n)),
{
    assert(sums_fit(records, wanted(c)));
}

/// The position of a portfolio in a breakdown, or its length.
pub open spec fn breakdown_index(list: Seq<(Symbol, i128)>, pid: Symbol, from: int) -> int
    decreases list.len() - from,
{
    if from >= list.len() {
        list.len() as int
    } else if list[from].0 == pid {
        from
    } else {
        breakdown_index(list, pid, from + 1)
    }
}

/// A breakdown with one more fee.
pub open spec fn broken_down(list: Seq<(Symbol, i128)>, pid: Symbol, fee: i128) -> Seq<
    (Symbol, i128),
> {
    let i = breakdown_index(list, pid, 0);
    if i < list.len() {
        list.update(i, (pid, (list[i].1 + fee) as i128))
    } else {
        list.push((pid, fee))
    }
}

/// The sums of the first `n` records by portfolio, each portfolio once, in the
/// order of their first records.
pub open spec fn breakdown(records: Seq<FeeRecord>, n: int) -> Seq<(Symbol, i128)>
    decreases n,
{
    if n <= 0 {
        Seq::empty()
    } else {
        broken_down(
            breakdown(records, n - 1),
            records[n - 1].portfolio_id,
            records[n - 1].fee_amount,
        )
    }
}

/// All partial sums by portfolio are numbers of `i128`.
pub open spec fn portfolio_sums_fit(records: Seq<FeeRecord>) -> bool {
    forall|pid: Symbol, n: int|
        0 <= n <= records.len() ==> fits(#[trigger] fee_sum(records, of_portfolio(pid), n))
}

/// The list has an entry for the portfolio.
pub open spec fn listed(list: Seq<(Symbol, i128)>, pid: Symbol) -> bool {
    exists|i: int| 0 <= i < list.len() && (#[trigger] list[i]).0 == pid
}

/// One of the first `n` records belongs to the portfolio.
pub open spec fn recorded(records: Seq<FeeRecord>, pid: Symbol, n: int) -> bool {
    exists|k: int| 0 <= k < n && (#[trigger] records[k]).portfolio_id == pid
}

/// A breakdown names each portfolio with records once, with the sum of its fees.
pub open spec fn breaks_down(list: Seq<(Symbol, i128)>, records: Seq<FeeRecord>, n: int) -> bool {
    &&& forall|i: int, j: int|
        0 <= i < j < list.len() ==> (#[trigger] list[i]).0 != (#[trigger] list[j]).0
    &&& forall|i: int|
        0 <= i < list.len() ==> (#[trigger] list[i]).1 == fee_sum(
            records,
            of_portfolio(list[i].0),
            n,
        )
    &&& forall|pid: Symbol| #[trigger] listed(list, pid) <==> recorded(records, pid, n)
}

proof fn lemma_breakdown_index(list: Seq<(Symbol, i128)>, pid: Symbol, from: int)
    requires
        0 <= from <= list.len(),
    ensures
        from <= breakdown_index(list, pid, from) <= list.len(),
        breakdown_index(list, pid, from) < list.len() ==> list[breakdown_index(
            list,
            pid,
            from,
        )].0 == pid,
        forall|i: int| from <= i < breakdown_index(list, pid, from) ==> (#[trigger] list[i]).0 != pid,
    decreases list.len() - from,
{
    if from < list.len() && list[from].0 != pid {
        lemma_breakdown_index(list, pid, from + 1);
    }
}

proof fn lemma_no_record_no_sum(records: Seq<FeeRecord>, pid: Symbol, n: int)
    requires
        0 <= n <= records.len(),
        forall|k: int| 0 <= k < n ==> (#[trigger] records[k]).portfolio_id != pid,
    ensures
        fee_sum(records, of_portfolio(pid), n) == 0,
    decreases n,
{
    if n > 0 {
        lemma_no_record_no_sum(records, pid, n - 1);
    }
}

/// The breakdown names each portfolio that has records once, with the sum of
/// its fees.
pub proof fn breakdowns_sum_by_portfolio(records: Seq<FeeRecord>, n: int)
    requires
        0 <= n <= records.len(),
        portfolio_sums_fit(records),
    ensures
        breaks_down(breakdown(records, n), records, n),
    decreases n,
{
    if n > 0 {
        breakdowns_sum_by_portfolio(records, n - 1);
        let before = breakdown(records, n - 1);
        let after = breakdown(records, n);
        let r = records[n - 1];
        let p = r.portfolio_id;
        let at = breakdown_index(before, p, 0);
        lemma_breakdown_index(before, p, 0);
        assert(fits(fee_sum(records, of_portfolio(p), n)));
        if at == before.len() {
            assert(!listed(before, p));
            assert(!recorded(records, p, n - 1));
            lemma_no_record_no_sum(records, p, n - 1);
        }
        assert(after[at].0 == p);
        assert forall|i: int| 0 <= i < after.len() implies (#[trigger] after[i]).1 == fee_sum(
            records,
            of_portfolio(after[i].0),
            n,
        ) by {
            if i < before.len() {
                assert(before[i].1 == fee_sum(records, of_portfolio(before[i].0), n - 1));
                assert(after[i].0 == before[i].0);
                if i != at {
                    if at < before.len() {
                        assert(before[at].0 == p);
                        assert(before[i].0 != before[at].0);
                    }
                    assert(before[i].0 != p);
                }
            }
        }
        assert forall|i: int, j: int| 0 <= i < j < after.len() implies (#[trigger] after[i]).0 != (
        #[trigger] after[j]).0 by {
            assert(after[i].0 == before[i].0);
            if j < before.len() {
                assert(after[j].0 == before[j].0);
            }
        }
        assert forall|pid: Symbol| #[trigger] listed(after, pid) <==> recorded(records, pid, n) by {
            lemma_listed_after(before, p, r.fee_amount, pid);
            assert(listed(before, pid) <==> recorded(records, pid, n - 1));
            if recorded(records, pid, n) {
                let k = choose|k: int| 0 <= k < n && (#[trigger] records[k]).portfolio_id == pid;
                if k < n - 1 {
                    assert(recorded(records, pid, n - 1));
                }
            }
            if recorded(records, pid, n - 1) {
                let k = choose|k: int|
                    0 <= k < n - 1 && (#[trigger] records[k]).portfolio_id == pid;
                assert(records[k].portfolio_id == pid);
            }
            if pid == p {
                assert(records[n - 1].portfolio_id == pid);
            }
        }
    } else {
        assert(!exists|pid: Symbol| #[trigger] listed(breakdown(records, n), pid));
    }
}

proof fn lemma_listed_after(list: Seq<(Symbol, i128)>, p: Symbol, fee: i128, pid: Symbol)
    ensures
        listed(broken_down(list, p, fee), pid) <==> listed(list, pid) || pid == p,
{
    let after = broken_down(list, p, fee);
    let at = breakdown_index(list, p, 0);
    lemma_breakdown_index(list, p, 0);
    assert(after[at].0 == p);
    if listed(list, pid) {
        let i = choose|i: int| 0 <= i < list.len() && (#[trigger] list[i]).0 == pid;
        assert(after[i].0 == pid);
    }
    if listed(after, pid) && pid != p {
        let i = choose|i: int| 0 <= i < after.len() && (#[trigger] after[i]).0 == pid;
        assert(list[i].0 == pid);
    }
}

/// Sum records by portfolio, each portfolio once, in the order of their first
/// records.
pub fn build_portfolio_breakdown(records: &Vec<FeeRecord>) -> (list: Vec<(Symbol, i128)>)
    requires
        portfolio_sums_fit(records@),
    ensures
        list@ == breakdown(records@, records@.len() as int),
{
    let mut list: Vec<(Symbol, i128)> = Vec::new();
    let mut i: usize = 0;
    assert(list@ =~= breakdown(records@, 0));
    while i < records.len()
        invariant
            i <= records@.len(),
            portfolio_sums_fit(records@),
            list@ == breakdown(records@, i as int),
        decreases records@.len() - i,
    {
        let pid: Symbol = records[i].portfolio_id;
        let fee: i128 = records[i].fee_amount;
        let mut k: usize = 0;
        while k < list.len() && list[k].0 != pid
            invariant
                k <= list@.len(),
                breakdown_index(list@, pid, k as int) == breakdown_index(list@, pid, 0),
            decreases list@.len() - k,
        {
            k += 1;
        }
        if k < list.len() {
            proof {
                breakdowns_sum_by_portfolio(records@, i as int);
                assert(list@[k as int].1 == fee_sum(
                    records@,
                    of_portfolio(list@[k as int].0),
                    i as int,
                ));
                assert(fits(fee_sum(records@, of_portfolio(pid), i + 1)));
            }
            let sum: i128 = list[k].1 + fee;
            list.set(k, (pid, sum));
        } else {
            list.push((pid, fee));
        }
        i += 1;
        assert(list@ =~= breakdown(records@, i as int));
    }
    list
}

/// What a report on a portfolio says.
pub open spec fn portfolio_report(
    pid: Symbol,
    records: Seq<FeeRecord>,
    assigned_fee_id: Symbol,
) -> PortfolioFeeReportView {
    let n = records.len() as int;
    PortfolioFeeReportView {
        portfolio_id: pid,
        total_fees: fee_sum(records, of_portfolio(pid), n) as i128,
        event_count: tally(records, of_portfolio(pid), n) as u32,
        by_category: positive_sums(|c: FeeCategory| fee_sum(records, of_both(pid, c), n)),
        assigned_fee_id,
    }
}

/// Report on a portfolio: the sum of its fees, how many there are and the sums
/// by category.
pub fn build_portfolio_report(
    portfolio_id: &Symbol,
    records: &Vec<FeeRecord>,
    assigned_fee_id: Symbol,
) -> (report: PortfolioFeeReport)
    requires
        records@.len() <= u32::MAX,
        sums_fit(records@, of_portfolio(*portfolio_id)),
        category_sums_fit(records@, |c: FeeCategory| of_both(*portfolio_id, c)),
    ensures
        report@ == portfolio_report(*portfolio_id, records@, assigned_fee_id),
{
    let pid: Symbol = *portfolio_id;
    let mut total_fees: i128 = 0;
    let mut event_count: u32 = 0;
    let mut sums = CategorySums::zero();
    let mut i: usize = 0;
    while i < records.len()
        invariant
            i <= records@.len() <= u32::MAX,
            sums_fit(records@, of_portfolio(pid)),
            category_sums_fit(records@, |c: FeeCategory| of_both(pid, c)),
            total_fees == fee_sum(records@, of_portfolio(pid), i as int),
            event_count == tally(records@, of_portfolio(pid), i as int),
            event_count <= i,
            forall|c: FeeCategory| #[trigger]
                sums.of(c) == fee_sum(records@, of_both(pid, c), i as int),
        decreases records@.len() - i,
    {
        let r: FeeRecord = records[i];
        if r.portfolio_id == pid {
            proof {
                let n = i + 1;
                assert(fits(fee_sum(records@, of_portfolio(pid), n)));
                lemma_category_fits(records@, |c: FeeCategory| of_both(pid, c), r.category, n);
                assert(sums.of(r.category) == fee_sum(
                    records@,
                    of_both(pid, r.category),
                    i as int,
                ));
            }
            total_fees = total_fees + r.fee_amount;
            event_count = event_count + 1;
            sums.plus(r.category, r.fee_amount);
        }
        i += 1;
    }
    let by_category: Vec<(FeeCategory, i128)> = sums.positives();
    let report = PortfolioFeeReport {
        portfolio_id: pid,
        total_fees,
        event_count,
        by_category,
        assigned_fee_id,
    };
    proof {
        let n = records@.len() as int;
        assert((|c: FeeCategory| sums.of(c) as int) =~= (|c: FeeCategory|
            fee_sum(records@, of_both(pid, c), n)));
        assert(report@ =~= portfolio_report(pid, records@, assigned_fee_id));
    }
    report
}

/// How many records belong to the category.
pub fn count_matching(records: &Vec<FeeRecord>, category: FeeCategory) -> (count: u32)
    requires
        records@.len() <= u32::MAX,
    ensures
        count == tally(records@, in_category(category), records@.len() as int),
{
    let mut count: u32 = 0;
    let mut i: usize = 0;
    while i < records.len()
        invariant
            i <= records@.len() <= u32::MAX,
            count <= i,
            count == tally(records@, in_category(category), i as int),
        decreases records@.len() - i,
    {
        if records[i].category == category {
            count += 1;
        }
        i += 1;
    }
    count
}

/// Whether some record belongs to the portfolio.
pub fn has_portfolio_records(records: &Vec<FeeRecord>, portfolio_id: &Symbol) -> (b: bool)
    ensures
        b == exists|i: int|
            0 <= i < records@.len() && (#[trigger] records@[i]).portfolio_id == *portfolio_id,
{
    let mut i: usize = 0;
    while i < records.len()
        invariant
            i <= records@.len(),
            forall|j: int| 0 <= j < i ==> (#[trigger] records@[j]).portfolio_id != *portfolio_id,
        decreases records@.len() - i,
    {
        if records[i].portfolio_id == *portfolio_id {
            return true;
        }
        i += 1;
    }
    false
}

/// How many records are of waived fees.
pub fn count_waived(records: &Vec<FeeRecord>) -> (count: u32)
    requires
        records@.len() <= u32::MAX,
    ensures
        count == tally(records@, waived_only(), records@.len() as int),
{
    let mut count: u32 = 0;
    let mut i: usize = 0;
    while i < records.len()
        invariant
            i <= records@.len() <= u32::MAX,
            count <= i,
            count == tally(records@, waived_only(), i as int),
        decreases records@.len() - i,
    {
        if records[i].waived {
            count += 1;
        }
        i += 1;
    }
    count
}

} // verus!
