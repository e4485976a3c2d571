//! What the calls do, in terms of the stored assets and prices and of what is
//! given.

use vstd::prelude::*;

use crate::asset::contract::{
    active_among, asset_added, asset_index, asset_removed, balance_updated, initialized,
    lemma_active_len, lemma_asset_index, metadata_updated, portfolio_worth, price_set, summary_of, value_of, worth,
    worth_upto,
};
use crate::asset::records::{Asset, AssetError, AssetPrice, AssetType, RiskLevel};
use crate::asset::state::{AssetEvent, AssetState};
use crate::base::address::Address;
use crate::base::symbol::{sym, Symbol};

verus! {

/// The assets that are stored for a portfolio.
pub open spec fn stored(s: AssetState, pid: Symbol) -> Seq<Asset> {
    if s.portfolio_assets.contains_key(pid) {
        s.portfolio_assets[pid]
    } else {
        Seq::empty()
    }
}

/// The first to initialize becomes the administrator; nobody else does.
pub proof fn the_first_initializes(s: AssetState, admin: Address)
    ensures
        s.admin is None ==> initialized(s, admin) == Ok::<_, AssetError>(
            (AssetState { admin: Some(admin), ..s }, sym("ok"@)),
        ),
        s.admin is Some ==> initialized(s, admin) == Err::<(AssetState, Symbol), _>(
            AssetError::AlreadyInitialized,
        ),
{
}

/// An asset is added exactly where the administrator asks, symbol and name
/// are not empty, there are at most eighteen decimals, the balance is not
/// negative, the portfolio has no asset with the symbol and fewer than
/// sixty-four assets. It is then the last of the portfolio's, as it was given,
/// and the portfolio is known.
pub proof fn assets_are_added_as_given(s: AssetState, admin: Address, pid: Symbol, asset: Asset)
    ensures
        ({
            let r = asset_added(s, admin, pid, asset);
            let t = r->Ok_0.0;
            &&& r is Ok <==> s.admin == Some(admin) && asset.symbol != sym(""@) && asset.name
                != sym(""@) && asset.decimals <= 18 && asset.balance >= 0
                && !s.entries.contains_key((pid, asset.symbol)) && stored(s, pid).len() < 64
            &&& r is Ok ==> {
                &&& r->Ok_0.1 == sym("ok"@)
                &&& t == AssetState {
                    entries: s.entries.insert((pid, asset.symbol), asset),
                    portfolio_assets: s.portfolio_assets.insert(pid, stored(s, pid).push(asset)),
                    portfolios: if s.portfolios.contains(pid) {
                        s.portfolios
                    } else {
                        s.portfolios.push(pid)
                    },
                    events: s.events.push(
                        AssetEvent::Added {
                            portfolio_id: pid,
                            symbol: asset.symbol,
                            asset_type: asset.asset_type,
                        },
                    ),
                    ..s
                }
            }
        }),
{
}

/// Why an asset is not added, in the order in which it is asked.
pub proof fn refused_assets_are_told_why(s: AssetState, admin: Address, pid: Symbol, asset: Asset)
    ensures
        ({
            let r = asset_added(s, admin, pid, asset);
            let e = r->Err_0;
            let signed = s.admin == Some(admin);
            let whole = signed && asset.symbol != sym(""@) && asset.name != sym(""@)
                && asset.decimals <= 18 && asset.balance >= 0;
            &&& !signed ==> r is Err && e == AssetError::Unauthorized
            &&& signed && asset.symbol == sym(""@) ==> r is Err && e == AssetError::InvalidSymbol
            &&& signed && asset.symbol != sym(""@) && asset.name == sym(""@) ==> r is Err && e
                == AssetError::InvalidName
            &&& signed && asset.symbol != sym(""@) && asset.name != sym(""@) && asset.decimals > 18
                ==> r is Err && e == AssetError::InvalidDecimals
            &&& signed && asset.symbol != sym(""@) && asset.name != sym(""@) && asset.decimals <= 18
                && asset.balance < 0 ==> r is Err && e == AssetError::InvalidBalance
            &&& whole && s.entries.contains_key((pid, asset.symbol)) ==> r is Err && e
                == AssetError::AssetAlreadyExists
            &&& whole && !s.entries.contains_key((pid, asset.symbol)) && stored(s, pid).len() >= 64
                ==> r is Err && e == AssetError::MaxAssetsReached
        }),
{
}

proof fn lemma_position(s: AssetState, pid: Symbol, i: int)
    requires
        s.wf(),
        0 <= i < stored(s, pid).len(),
    ensures
        asset_index(stored(s, pid), stored(s, pid)[i].symbol, 0) == i,
        s.entries.contains_key((pid, stored(s, pid)[i].symbol)),
        s.entries[(pid, stored(s, pid)[i].symbol)] == stored(s, pid)[i],
        stored(s, pid) == s.assets_of(pid),
{
    let list = stored(s, pid);
    assert(list =~= s.assets_of(pid));
    assert(s.listed_right(pid));
    lemma_asset_index(list, list[i].symbol, 0);
    let k = asset_index(list, list[i].symbol, 0);
    if k < i {
        assert(list[k].symbol != list[i].symbol);
    }
}

/// The administrator, and nobody else, removes an asset that has no balance:
/// it leaves its place in the portfolio and the others stay in order.
pub proof fn empty_positions_are_removed(s: AssetState, admin: Address, pid: Symbol, i: int)
    requires
        s.wf(),
        0 <= i < stored(s, pid).len(),
    ensures
        ({
            let asset = stored(s, pid)[i];
            let r = asset_removed(s, admin, pid, asset.symbol);
            &&& r is Ok <==> s.admin == Some(admin) && asset.balance == 0
            &&& r is Ok ==> r->Ok_0 == (
                AssetState {
                    entries: s.entries.remove((pid, asset.symbol)),
                    portfolio_assets: s.portfolio_assets.insert(pid, stored(s, pid).remove(i)),
                    events: s.events.push(
                        AssetEvent::Removed { portfolio_id: pid, symbol: asset.symbol },
                    ),
                    ..s
                },
                sym("ok"@),
            )
            &&& s.admin != Some(admin) ==> r->Err_0 == AssetError::Unauthorized
            &&& s.admin == Some(admin) && asset.balance != 0 ==> r->Err_0
                == AssetError::NonZeroBalance
        }),
{
    lemma_position(s, pid, i);
}

/// The administrator, and nobody else, sets a balance that is not negative:
/// the asset keeps its place and everything else about it.
pub proof fn balances_are_what_was_set(
    s: AssetState,
    admin: Address,
    pid: Symbol,
    i: int,
    balance: i128,
)
    requires
        s.wf(),
        0 <= i < stored(s, pid).len(),
    ensures
        ({
            let asset = stored(s, pid)[i];
            let new = Asset { balance, ..asset };
            let r = balance_updated(s, admin, pid, asset.symbol, balance);
            &&& r is Ok <==> s.admin == Some(admin) && balance >= 0
            &&& r is Ok ==> r->Ok_0 == (
                AssetState {
                    entries: s.entries.insert((pid, asset.symbol), new),
                    portfolio_assets: s.portfolio_assets.insert(pid, stored(s, pid).update(i, new)),
                    events: s.events.push(
                        AssetEvent::BalanceUpdated {
                            portfolio_id: pid,
                            symbol: asset.symbol,
                            old_balance: asset.balance,
                            new_balance: balance,
                        },
                    ),
                    ..s
                },
                sym("ok"@),
            )
            &&& s.admin != Some(admin) ==> r->Err_0 == AssetError::Unauthorized
            &&& s.admin == Some(admin) && balance < 0 ==> r->Err_0 == AssetError::InvalidBalance
        }),
{
    lemma_position(s, pid, i);
}

/// The administrator, and nobody else, gives an asset another name that is not
/// empty, other decimals up to eighteen, another risk level and another type:
/// it keeps its place, its symbol, its balance and whether it is active.
pub proof fn metadata_is_what_was_set(
    s: AssetState,
    admin: Address,
    pid: Symbol,
    i: int,
    name: Symbol,
    decimals: u32,
    risk_level: RiskLevel,
    asset_type: AssetType,
)
    requires
        s.wf(),
        0 <= i < stored(s, pid).len(),
    ensures
        ({
            let asset = stored(s, pid)[i];
            let new = Asset { name, decimals, risk_level, asset_type, ..asset };
            let r = metadata_updated(
                s,
                admin,
                pid,
                asset.symbol,
                name,
                decimals,
                risk_level,
                asset_type,
            );
            &&& r is Ok <==> s.admin == Some(admin) && name != sym(""@) && decimals <= 18
            &&& r is Ok ==> r->Ok_0 == (
                AssetState {
                    entries: s.entries.insert((pid, asset.symbol), new),
                    portfolio_assets: s.portfolio_assets.insert(pid, stored(s, pid).update(i, new)),
                    events: s.events.push(
                        AssetEvent::MetadataUpdated {
                            portfolio_id: pid,
                            symbol: asset.symbol,
                            name,
                            risk_level,
                            asset_type,
                        },
                    ),
                    ..s
                },
                sym("ok"@),
            )
            &&& s.admin != Some(admin) ==> r->Err_0 == AssetError::Unauthorized
            &&& s.admin == Some(admin) && name == sym(""@) ==> r->Err_0 == AssetError::InvalidName
            &&& s.admin == Some(admin) && name != sym(""@) && decimals > 18 ==> r->Err_0
                == AssetError::InvalidDecimals
        }),
{
    lemma_position(s, pid, i);
}

/// An asset that the portfolio does not have is neither removed nor updated.
pub proof fn missing_assets_are_not_found(
    s: AssetState,
    admin: Address,
    pid: Symbol,
    symbol: Symbol,
    balance: i128,
    name: Symbol,
    risk_level: RiskLevel,
    asset_type: AssetType,
)
    requires
        s.admin == Some(admin),
        !s.entries.contains_key((pid, symbol)),
        balance >= 0,
        name != sym(""@),
    ensures
        asset_removed(s, admin, pid, symbol) == Err::<(AssetState, Symbol), _>(
            AssetError::AssetNotFound,
        ),
        balance_updated(s, admin, pid, symbol, balance) == Err::<(AssetState, Symbol), _>(
            AssetError::AssetNotFound,
        ),
        metadata_updated(s, admin, pid, symbol, name, 18, risk_level, asset_type) == Err::<
            (AssetState, Symbol),
            _,
        >(AssetError::AssetNotFound),
{
}

/// The administrator, and nobody else, sets a price above zero: it is stored
/// with its source and the time, in place of an earlier one.
pub proof fn prices_are_what_was_set(
    s: AssetState,
    admin: Address,
    symbol: Symbol,
    price: i128,
    source: Symbol,
)
    ensures
        ({
            let r = price_set(s, admin, symbol, price, source);
            &&& r is Ok <==> s.admin == Some(admin) && price > 0
            &&& r is Ok ==> r->Ok_0 == (
                AssetState {
                    prices: s.prices.insert(
                        symbol,
                        AssetPrice { symbol, price, updated_at: s.timestamp, source },
                    ),
                    events: s.events.push(AssetEvent::PriceSet { symbol, price }),
                    ..s
                },
                sym("ok"@),
            )
            &&& s.admin != Some(admin) ==> r->Err_0 == AssetError::Unauthorized
            &&& s.admin == Some(admin) && price <= 0 ==> r->Err_0 == AssetError::InvalidPrice
        }),
{
}

/// Before any call there is no administrator, no asset and no price.
pub proof fn nothing_is_there_at_first(now: u64)
    ensures
        ({
            let s = AssetState::fresh(now);
            &&& s.timestamp == now
            &&& s.admin is None
            &&& s.events.len() == 0
            &&& s.portfolios.len() == 0
            &&& s.entries == Map::<(Symbol, Symbol), Asset>::empty()
            &&& s.portfolio_assets == Map::<Symbol, Seq<Asset>>::empty()
            &&& s.prices == Map::<Symbol, AssetPrice>::empty()
        }),
{
}

/// The sum of amounts.
pub open spec fn total(amounts: Seq<int>) -> int
    decreases amounts.len(),
{
    if amounts.len() == 0 {
        0
    } else {
        total(amounts.drop_last()) + amounts.last()
    }
}

proof fn lemma_total(s: AssetState, list: Seq<Asset>, amounts: Seq<int>, n: int)
    requires
        0 <= n <= list.len(),
        amounts.len() == list.len(),
        forall|i: int| 0 <= i < list.len() ==> #[trigger] amounts[i] == worth(s, list[i]),
    ensures
        worth_upto(s, list, n) == total(amounts.take(n)),
    decreases n,
{
    if n > 0 {
        lemma_total(s, list, amounts, n - 1);
        assert(amounts.take(n).drop_last() =~= amounts.take(n - 1));
        assert(amounts.take(n).last() == amounts[n - 1]);
    }
}

proof fn lemma_active(list: Seq<Asset>, n: int)
    requires
        0 <= n <= list.len(),
    ensures
        active_among(list, n) == list.take(n).filter(|a: Asset| a.is_active),
    decreases n,
{
    reveal(Seq::filter);
    if n > 0 {
        lemma_active(list, n - 1);
        assert(list.take(n).drop_last() =~= list.take(n - 1));
        assert(list.take(n).last() == list[n - 1]);
    }
}

/// The value of a position is its balance times the stored price of its
/// symbol; without the asset or a price there is none.
pub proof fn positions_are_worth_balance_times_price(s: AssetState, pid: Symbol, symbol: Symbol)
    ensures
        value_of(s, pid, symbol) is Some <==> s.entries.contains_key((pid, symbol))
            && s.prices.contains_key(symbol),
        value_of(s, pid, symbol) is Some ==> value_of(s, pid, symbol)->Some_0 == s.prices[symbol].price
            * s.entries[(pid, symbol)].balance,
{
    let b = s.entries[(pid, symbol)].balance;
    let p = s.prices[symbol].price;
    assert(b * p == p * b) by (nonlinear_arith);
}

/// A portfolio is worth what its assets with a price are, each its balance
/// times the price, whether active or not; those without a price add nothing.
/// The sum stops at the largest number there is.
pub proof fn portfolios_are_worth_their_assets(s: AssetState, pid: Symbol, amounts: Seq<int>)
    requires
        amounts.len() == stored(s, pid).len(),
        forall|i: int|
            0 <= i < amounts.len() ==> #[trigger] amounts[i] == if s.prices.contains_key(
                stored(s, pid)[i].symbol,
            ) {
                stored(s, pid)[i].balance * s.prices[stored(s, pid)[i].symbol].price
            } else {
                0
            },
    ensures
        total(amounts) <= i128::MAX && total(amounts) >= i128::MIN ==> portfolio_worth(s, pid)
            == total(amounts),
        total(amounts) > i128::MAX ==> portfolio_worth(s, pid) == i128::MAX,
{
    let list = stored(s, pid);
    let n = list.len() as int;
    assert(list =~= s.assets_of(pid));
    lemma_total(s, list, amounts, n);
    assert(amounts.take(n) =~= amounts);
}

/// The summary of a portfolio that has had assets counts its assets and the
/// active ones among them, and gives its value.
pub proof fn summaries_count_the_assets(s: AssetState, pid: Symbol)
    requires
        s.wf(),
    ensures
        ({
            let list = stored(s, pid);
            let active = list.filter(|a: Asset| a.is_active);
            let r = summary_of(s, pid);
            &&& active_among(list, list.len() as int) == active
            &&& s.assets_of(pid) == list
            &&& r is Some <==> s.portfolio_assets.contains_key(pid)
            &&& r is Some ==> {
                &&& r->Some_0.portfolio_id == pid
                &&& r->Some_0.asset_count == list.len()
                &&& r->Some_0.active_asset_count == active.len()
                &&& r->Some_0.total_value == portfolio_worth(s, pid)
            }
        }),
{
    let list = stored(s, pid);
    let n = list.len() as int;
    assert(list =~= s.assets_of(pid));
    assert(s.listed_right(pid));
    lemma_active(list, n);
    assert(list.take(n) =~= list);
    lemma_active_len(list, n);
}

} // verus!
