//! What holds of portfolios after any sequence of calls.

use vstd::prelude::*;

use crate::asset::contract::{
    active_among, asset_added, asset_removed, asset_replaced, balance_updated, initialized,
    lemma_active_len, lemma_adding_keeps_wf, lemma_removing_keeps_wf, lemma_replacing_keeps_wf,
    lemma_same_assets, metadata_updated, portfolio_worth, price_set, summary_of, worth_upto,
};
use crate::asset::laws::lemma_worth_upto;
use crate::asset::records::{Asset, AssetError, AssetType, RiskLevel};
use crate::asset::state::AssetState;
use crate::base::address::Address;
use crate::base::symbol::Symbol;

verus! {

/// A call that can change the contract, or time passing.
pub enum Call {
    Wait { until: u64 },
    Initialize { admin: Address },
    Add { admin: Address, pid: Symbol, asset: Asset },
    Remove { admin: Address, pid: Symbol, symbol: Symbol },
    UpdateBalance { admin: Address, pid: Symbol, symbol: Symbol, balance: i128 },
    UpdateMetadata {
        admin: Address,
        pid: Symbol,
        symbol: Symbol,
        name: Symbol,
        decimals: u32,
        risk_level: RiskLevel,
        asset_type: AssetType,
    },
    SetPrice { admin: Address, symbol: Symbol, price: i128, source: Symbol },
}

/// The state after a call, which is the state before it where the call was refused.
pub open spec fn settle<T>(s: AssetState, r: Result<(AssetState, T), AssetError>) -> AssetState {
    match r {
        Ok((t, _)) => t,
        Err(_) => s,
    }
}

/// The state after one call.
pub open spec fn step(s: AssetState, call: Call) -> AssetState {
    match call {
        Call::Wait { until } => AssetState { timestamp: until, ..s },
        Call::Initialize { admin } => settle(s, initialized(s, admin)),
        Call::Add { admin, pid, asset } => settle(s, asset_added(s, admin, pid, asset)),
        Call::Remove { admin, pid, symbol } => settle(s, asset_removed(s, admin, pid, symbol)),
        Call::UpdateBalance { admin, pid, symbol, balance } => settle(
            s,
            balance_updated(s, admin, pid, symbol, balance),
        ),
        Call::UpdateMetadata { admin, pid, symbol, name, decimals, risk_level, asset_type } => settle(
            s,
            metadata_updated(s, admin, pid, symbol, name, decimals, risk_level, asset_type),
        ),
        Call::SetPrice { admin, symbol, price, source } => settle(
            s,
            price_set(s, admin, symbol, price, source),
        ),
    }
}

/// The state after a sequence of calls.
pub open spec fn run(s: AssetState, calls: Seq<Call>) -> AssetState
    decreases calls.len(),
{
    if calls.len() == 0 {
        s
    } else {
        step(run(s, calls.drop_last()), calls.last())
    }
}

/// The call adds an asset to the portfolio.
pub open spec fn adds_to(s: AssetState, call: Call, portfolio: Symbol) -> bool {
    call matches Call::Add { admin, pid, asset } && pid == portfolio && asset_added(
        s,
        admin,
        pid,
        asset,
    ) is Ok
}

/// Some call of the sequence added an asset to the portfolio.
pub open spec fn ever_added(s: AssetState, calls: Seq<Call>, portfolio: Symbol) -> bool
    decreases calls.len(),
{
    calls.len() > 0 && (ever_added(s, calls.drop_last(), portfolio) || adds_to(
        run(s, calls.drop_last()),
        calls.last(),
        portfolio,
    ))
}

/// The portfolios with a stored list are the registered ones.
pub open spec fn lists_are_registered(s: AssetState) -> bool {
    forall|pid: Symbol| #[trigger] s.portfolio_assets.contains_key(pid) <==> s.portfolios.contains(pid)
}

/// Every call keeps the state well-formed and the portfolios with a list
/// registered. Adding an asset stores a list for its portfolio, no other call
/// stores one for a portfolio that had none, and none takes one away.
pub proof fn calls_keep_the_lists(s: AssetState, call: Call, portfolio: Symbol)
    requires
        s.wf(),
        lists_are_registered(s),
    ensures
        step(s, call).wf(),
        lists_are_registered(step(s, call)),
        step(s, call).portfolio_assets.contains_key(portfolio) <==> (
        s.portfolio_assets.contains_key(portfolio) || adds_to(s, call, portfolio)),
{
    let t = step(s, call);
    match call {
        Call::Add { admin, pid, asset } => {
            if asset_added(s, admin, pid, asset) is Ok {
                lemma_adding_keeps_wf(s, admin, pid, asset);
                assert forall|p: Symbol| #[trigger]
                    t.portfolio_assets.contains_key(p) <==> t.portfolios.contains(p) by {
                    assert(s.portfolio_assets.contains_key(p) <==> s.portfolios.contains(p));
                    if t.portfolios != s.portfolios {
                        assert(t.portfolios.last() == pid);
                        if s.portfolios.contains(p) {
                            let k = choose|k: int|
                                0 <= k < s.portfolios.len() && s.portfolios[k] == p;
                            assert(t.portfolios[k] == p);
                        }
                    }
                }
            }
        },
        Call::Remove { admin, pid, symbol } => {
            if asset_removed(s, admin, pid, symbol) is Ok {
                assert(s.listed_right(pid));
                assert(s.entries.contains_key((pid, symbol)));
                lemma_removing_keeps_wf(s, admin, pid, symbol);
                assert(t.portfolio_assets.dom() =~= s.portfolio_assets.dom());
                lemma_same_keys(s, t);
            }
        },
        Call::UpdateBalance { admin, pid, symbol, balance } => {
            if balance_updated(s, admin, pid, symbol, balance) is Ok {
                let asset = Asset { balance, ..s.entries[(pid, symbol)] };
                lemma_replaced(s, t, pid, symbol, asset);
            }
        },
        Call::UpdateMetadata { admin, pid, symbol, name, decimals, risk_level, asset_type } => {
            if t != s {
                let asset = Asset {
                    name,
                    decimals,
                    risk_level,
                    asset_type,
                    ..s.entries[(pid, symbol)]
                };
                lemma_replaced(s, t, pid, symbol, asset);
            }
        },
        Call::SetPrice { symbol, price, .. } => {
            lemma_same_keys(s, t);
            let priced = AssetState { prices: t.prices, ..s };
            assert forall|p: Symbol| #[trigger] priced.listed_right(p) by {
                assert(s.listed_right(p));
            }
            lemma_same_assets(priced, t);
        },
        _ => {
            lemma_same_assets(s, t);
            lemma_same_keys(s, t);
        },
    }
}

proof fn lemma_same_keys(s: AssetState, t: AssetState)
    requires
        lists_are_registered(s),
        s.portfolio_assets.dom() == t.portfolio_assets.dom(),
        s.portfolios == t.portfolios,
    ensures
        lists_are_registered(t),
        forall|p: Symbol| #[trigger]
            t.portfolio_assets.contains_key(p) <==> s.portfolio_assets.contains_key(p),
{
    assert forall|p: Symbol| #[trigger]
        t.portfolio_assets.contains_key(p) <==> s.portfolio_assets.contains_key(p) by {
        assert(s.portfolio_assets.dom().contains(p) == t.portfolio_assets.dom().contains(p));
    }
    assert forall|p: Symbol| #[trigger]
        t.portfolio_assets.contains_key(p) <==> t.portfolios.contains(p) by {
        assert(s.portfolio_assets.contains_key(p) <==> s.portfolios.contains(p));
    }
}

proof fn lemma_replaced(s: AssetState, t: AssetState, pid: Symbol, symbol: Symbol, asset: Asset)
    requires
        s.wf(),
        lists_are_registered(s),
        s.entries.contains_key((pid, symbol)),
        asset.symbol == s.entries[(pid, symbol)].symbol,
        asset.balance >= 0,
        t == (AssetState { events: t.events, ..asset_replaced(s, pid, symbol, asset) }),
    ensures
        t.wf(),
        lists_are_registered(t),
        forall|p: Symbol| #[trigger]
            t.portfolio_assets.contains_key(p) <==> s.portfolio_assets.contains_key(p),
{
    assert(s.listed_right(pid));
    lemma_replacing_keeps_wf(s, pid, symbol, asset);
    lemma_same_assets(asset_replaced(s, pid, symbol, asset), t);
    assert(t.portfolio_assets.dom() =~= s.portfolio_assets.dom());
    lemma_same_keys(s, t);
}

/// After any sequence of calls, a portfolio has a summary, and is registered,
/// exactly where an asset was ever added to it. The summary counts its assets
/// and its active assets, and its value is the sum over all of them, as long
/// as that is a number of `i128`.
pub proof fn summaries_are_of_portfolios_with_assets(
    timestamp: u64,
    calls: Seq<Call>,
    portfolio: Symbol,
)
    ensures
        ({
            let s = run(AssetState::fresh(timestamp), calls);
            let list = s.assets_of(portfolio);
            let added = ever_added(AssetState::fresh(timestamp), calls, portfolio);
            &&& s.wf()
            &&& lists_are_registered(s)
            &&& s.portfolio_assets.contains_key(portfolio) <==> added
            &&& summary_of(s, portfolio) is Some <==> added
            &&& s.portfolios.contains(portfolio) <==> added
            &&& summary_of(s, portfolio) is Some ==> {
                let x = summary_of(s, portfolio)->Some_0;
                &&& x.asset_count == list.len()
                &&& x.active_asset_count == active_among(list, list.len() as int).len()
                &&& x.total_value == portfolio_worth(s, portfolio)
                &&& worth_upto(s, list, list.len() as int) <= i128::MAX ==> x.total_value
                    == worth_upto(s, list, list.len() as int)
            }
        }),
    decreases calls.len(),
{
    let fresh = AssetState::fresh(timestamp);
    let s = run(fresh, calls);
    if calls.len() > 0 {
        summaries_are_of_portfolios_with_assets(timestamp, calls.drop_last(), portfolio);
        calls_keep_the_lists(run(fresh, calls.drop_last()), calls.last(), portfolio);
    } else {
        assert forall|p: Symbol| #[trigger] fresh.listed_right(p) by {}
    }
    let list = s.assets_of(portfolio);
    assert(s.listed_right(portfolio));
    lemma_active_len(list, list.len() as int);
    lemma_worth_upto(s, portfolio, list.len() as int);
}

} // verus!
