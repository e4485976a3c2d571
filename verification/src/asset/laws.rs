//! What holds of portfolios and their assets over several calls.

use vstd::prelude::*;

use crate::asset::contract::{
    active_among, asset_added, asset_removed, balance_updated, lemma_asset_index,
    lemma_worth_not_negative, metadata_updated, portfolio_worth, price_set, value_of, worth_upto,
};
use crate::asset::records::{
    Asset, AssetError, AssetType, RiskLevel, MAX_ASSETS_PER_PORTFOLIO,
};
use crate::asset::state::AssetState;
use crate::base::address::Address;
use crate::base::symbol::Symbol;

verus! {

/// An asset with a balance is not removed.
pub proof fn positions_are_not_removed(
    s: AssetState,
    admin: Address,
    pid: Symbol,
    symbol: Symbol,
)
    requires
        s.entries.contains_key((pid, symbol)),
        s.entries[(pid, symbol)].balance != 0,
    ensures
        asset_removed(s, admin, pid, symbol) is Err,
{
}

/// An asset that was added is there as it was given, cannot be added again,
/// and no other asset changes.
pub proof fn an_added_asset_is_there(
    s: AssetState,
    admin: Address,
    pid: Symbol,
    asset: Asset,
    other: (Symbol, Symbol),
)
    requires
        asset_added(s, admin, pid, asset) is Ok,
        other != (pid, asset.symbol),
    ensures
        ({
            let t = asset_added(s, admin, pid, asset)->Ok_0.0;
            &&& t.entries.contains_key((pid, asset.symbol))
            &&& t.entries[(pid, asset.symbol)] == asset
            &&& t.assets_of(pid) == s.assets_of(pid).push(asset)
            &&& t.portfolios.contains(pid)
            &&& asset_added(t, admin, pid, asset) == Err::<(AssetState, Symbol), AssetError>(
                AssetError::AssetAlreadyExists,
            )
            &&& t.entries.contains_key(other) == s.entries.contains_key(other)
            &&& s.entries.contains_key(other) ==> t.entries[other] == s.entries[other]
        }),
{
    let t = asset_added(s, admin, pid, asset)->Ok_0.0;
    if !s.portfolios.contains(pid) {
        assert(t.portfolios[s.portfolios.len() as int] == pid);
    }
}

/// Removing an asset right after adding it, without a balance, gives back the
/// assets of before.
pub proof fn removing_undoes_adding(s: AssetState, admin: Address, pid: Symbol, asset: Asset)
    requires
        s.wf(),
        asset.balance == 0,
        asset_added(s, admin, pid, asset) is Ok,
    ensures
        ({
            let t = asset_added(s, admin, pid, asset)->Ok_0.0;
            let u = asset_removed(t, admin, pid, asset.symbol)->Ok_0.0;
            &&& asset_removed(t, admin, pid, asset.symbol) is Ok
            &&& u.entries == s.entries
            &&& forall|p: Symbol| #[trigger] u.assets_of(p) == s.assets_of(p)
        }),
{
    let t = asset_added(s, admin, pid, asset)->Ok_0.0;
    let u = asset_removed(t, admin, pid, asset.symbol)->Ok_0.0;
    let list = t.assets_of(pid);
    let n = s.assets_of(pid).len() as int;
    assert(s.listed_right(pid));
    lemma_asset_index(list, asset.symbol, 0);
    let at = crate::asset::contract::asset_index(list, asset.symbol, 0);
    assert(list[n].symbol == asset.symbol);
    if at < n {
        assert(list[at] == s.assets_of(pid)[at]);
        assert(s.entries.contains_key((pid, s.assets_of(pid)[at].symbol)));
        assert(false);
    }
    assert(list.remove(n) =~= s.assets_of(pid));
    assert(u.entries =~= s.entries);
}

/// A portfolio never holds more assets than the limit.
pub proof fn portfolios_stay_within_the_limit(s: AssetState, pid: Symbol)
    requires
        s.wf(),
    ensures
        s.assets_of(pid).len() <= MAX_ASSETS_PER_PORTFOLIO,
{
    assert(s.listed_right(pid));
}

/// Changing a balance changes nothing else of an asset, and changing metadata
/// leaves its balance.
pub proof fn updates_change_what_they_name(
    s: AssetState,
    admin: Address,
    pid: Symbol,
    symbol: Symbol,
    balance: i128,
    name: Symbol,
    decimals: u32,
    risk_level: RiskLevel,
    asset_type: AssetType,
)
    ensures
        balance_updated(s, admin, pid, symbol, balance) is Ok ==> balance_updated(
            s,
            admin,
            pid,
            symbol,
            balance,
        )->Ok_0.0.entries == s.entries.insert(
            (pid, symbol),
            Asset { balance, ..s.entries[(pid, symbol)] },
        ),
        metadata_updated(
            s,
            admin,
            pid,
            symbol,
            name,
            decimals,
            risk_level,
            asset_type,
        ) is Ok ==> metadata_updated(
            s,
            admin,
            pid,
            symbol,
            name,
            decimals,
            risk_level,
            asset_type,
        )->Ok_0.0.entries[(pid, symbol)].balance == s.entries[(pid, symbol)].balance,
{
}

/// No sum of values is negative.
pub proof fn lemma_worth_upto(s: AssetState, pid: Symbol, n: int)
    requires
        s.wf(),
        0 <= n <= s.assets_of(pid).len(),
    ensures
        worth_upto(s, s.assets_of(pid), n) >= 0,
    decreases n,
{
    if n > 0 {
        lemma_worth_upto(s, pid, n - 1);
        lemma_worth_not_negative(s, pid, n - 1);
    }
}

/// The value of a portfolio is never negative.
pub proof fn portfolio_values_are_not_negative(s: AssetState, pid: Symbol)
    requires
        s.wf(),
    ensures
        portfolio_worth(s, pid) >= 0,
{
    lemma_worth_upto(s, pid, s.assets_of(pid).len() as int);
}

/// The price that was set is the price of the asset, in every portfolio.
pub proof fn a_price_set_counts(
    s: AssetState,
    admin: Address,
    symbol: Symbol,
    price: i128,
    source: Symbol,
    pid: Symbol,
)
    requires
        price_set(s, admin, symbol, price, source) is Ok,
        s.entries.contains_key((pid, symbol)),
    ensures
        value_of(price_set(s, admin, symbol, price, source)->Ok_0.0, pid, symbol) == Some(
            s.entries[(pid, symbol)].balance * price,
        ),
{
}

/// The active assets of a list are those of it that are active.
pub proof fn active_assets_are_active(list: Seq<Asset>, n: int)
    requires
        0 <= n <= list.len(),
    ensures
        forall|i: int|
            0 <= i < active_among(list, n).len() ==> (#[trigger] active_among(list, n)[i]).is_active
                && list.contains(active_among(list, n)[i]),
        forall|i: int|
            0 <= i < n && (#[trigger] list[i]).is_active ==> active_among(list, n).contains(
                list[i],
            ),
    decreases n,
{
    if n > 0 {
        active_assets_are_active(list, n - 1);
        let before = active_among(list, n - 1);
        let after = active_among(list, n);
        assert forall|i: int| 0 <= i < n && (#[trigger] list[i]).is_active implies after.contains(
            list[i],
        ) by {
            if i < n - 1 {
                assert(before.contains(list[i]));
                let k = choose|k: int| 0 <= k < before.len() && before[k] == list[i];
                assert(after[k] == list[i]);
            } else {
                assert(after.last() == list[i]);
            }
        }
        assert forall|i: int| 0 <= i < after.len() implies (#[trigger] after[i]).is_active
            && list.contains(after[i]) by {
            if i < before.len() {
                assert(after[i] == before[i]);
            } else {
                assert(list[n - 1] == after[i]);
            }
        }
    }
}

} // verus!
