//! The asset management contract.

use vstd::prelude::*;

use crate::asset::records::{
    Asset, AssetError, AssetPrice, AssetType, PortfolioSummary, RiskLevel,
    MAX_ASSETS_PER_PORTFOLIO,
};
use crate::asset::state::{distinct, lists, AssetEnv, AssetEvent, AssetState};
use crate::base::address::Address;
use crate::base::arith::fits;
use crate::base::effect::effect;
use crate::base::symbol::{sym, symbol_short, Symbol};
use crate::base::vecs::{copy_vec, has_symbol};

verus! {

/// AstraPort Asset Management — portfolio asset lifecycle and pricing.
pub struct AssetManagementContract;

/// Largest number of decimal places.
pub const MAX_DECIMALS: u32 = 18;

// ---------------------------------------------------------------------------
// What the calls do
// ---------------------------------------------------------------------------

/// What initializing does.
pub open spec fn initialized(s: AssetState, admin: Address) -> Result<
    (AssetState, Symbol),
    AssetError,
> {
    if s.admin is Some {
        Err(AssetError::AlreadyInitialized)
    } else {
        Ok((AssetState { admin: Some(admin), ..s }, sym("ok"@)))
    }
}

/// What is wrong with an asset that is to be added, if anything.
pub open spec fn asset_fault(asset: Asset) -> Option<AssetError> {
    if asset.symbol == sym(""@) {
        Some(AssetError::InvalidSymbol)
    } else if asset.name == sym(""@) {
        Some(AssetError::InvalidName)
    } else if asset.decimals > MAX_DECIMALS {
        Some(AssetError::InvalidDecimals)
    } else if asset.balance < 0 {
        Some(AssetError::InvalidBalance)
    } else {
        None
    }
}

/// The list of portfolios with one more, unless it is there.
pub open spec fn portfolios_with(list: Seq<Symbol>, pid: Symbol) -> Seq<Symbol> {
    if list.contains(pid) {
        list
    } else {
        list.push(pid)
    }
}

/// What adding an asset does.
pub open spec fn asset_added(
    s: AssetState,
    admin: Address,
    pid: Symbol,
    asset: Asset,
) -> Result<(AssetState, Symbol), AssetError> {
    if s.admin != Some(admin) {
        Err(AssetError::Unauthorized)
    } else if asset_fault(asset) is Some {
        Err(asset_fault(asset)->Some_0)
    } else if s.entries.contains_key((pid, asset.symbol)) {
        Err(AssetError::AssetAlreadyExists)
    } else if s.assets_of(pid).len() >= MAX_ASSETS_PER_PORTFOLIO {
        Err(AssetError::MaxAssetsReached)
    } else {
        Ok(
            (
                AssetState {
                    entries: s.entries.insert((pid, asset.symbol), asset),
                    portfolio_assets: s.portfolio_assets.insert(pid, s.assets_of(pid).push(asset)),
                    portfolios: portfolios_with(s.portfolios, pid),
                    ..s
                }.emit(
                    AssetEvent::Added {
                        portfolio_id: pid,
                        symbol: asset.symbol,
                        asset_type: asset.asset_type,
                    },
                ),
                sym("ok"@),
            ),
        )
    }
}

/// The position of the first asset from `from` on with the symbol, or the length.
pub open spec fn asset_index(list: Seq<Asset>, symbol: Symbol, from: int) -> int
    decreases list.len() - from,
{
    if from >= list.len() {
        list.len() as int
    } else if list[from].symbol == symbol {
        from
    } else {
        asset_index(list, symbol, from + 1)
    }
}

/// The list without the first asset with the symbol.
pub open spec fn list_without(list: Seq<Asset>, symbol: Symbol) -> Seq<Asset> {
    let i = asset_index(list, symbol, 0);
    if i < list.len() {
        list.remove(i)
    } else {
        list
    }
}

/// The list with another asset in place of the first with the symbol.
pub open spec fn list_with(list: Seq<Asset>, symbol: Symbol, asset: Asset) -> Seq<Asset> {
    let i = asset_index(list, symbol, 0);
    if i < list.len() {
        list.update(i, asset)
    } else {
        list
    }
}

/// What removing an asset does; only one without a balance is removed.
pub open spec fn asset_removed(s: AssetState, admin: Address, pid: Symbol, symbol: Symbol) -> Result<
    (AssetState, Symbol),
    AssetError,
> {
    if s.admin != Some(admin) {
        Err(AssetError::Unauthorized)
    } else if !s.entries.contains_key((pid, symbol)) {
        Err(AssetError::AssetNotFound)
    } else if s.entries[(pid, symbol)].balance != 0 {
        Err(AssetError::NonZeroBalance)
    } else {
        Ok(
            (
                AssetState {
                    entries: s.entries.remove((pid, symbol)),
                    portfolio_assets: s.portfolio_assets.insert(
                        pid,
                        list_without(s.assets_of(pid), symbol),
                    ),
                    ..s
                }.emit(AssetEvent::Removed { portfolio_id: pid, symbol }),
                sym("ok"@),
            ),
        )
    }
}

/// The state with another asset in place of one.
pub open spec fn asset_replaced(s: AssetState, pid: Symbol, symbol: Symbol, asset: Asset) -> AssetState {
    AssetState {
        entries: s.entries.insert((pid, symbol), asset),
        portfolio_assets: s.portfolio_assets.insert(
            pid,
            list_with(s.assets_of(pid), symbol, asset),
        ),
        ..s
    }
}

/// What updating a balance does.
pub open spec fn balance_updated(
    s: AssetState,
    admin: Address,
    pid: Symbol,
    symbol: Symbol,
    new_balance: i128,
) -> Result<(AssetState, Symbol), AssetError> {
    if s.admin != Some(admin) {
        Err(AssetError::Unauthorized)
    } else if new_balance < 0 {
        Err(AssetError::InvalidBalance)
    } else if !s.entries.contains_key((pid, symbol)) {
        Err(AssetError::AssetNotFound)
    } else {
        let asset = s.entries[(pid, symbol)];
        Ok(
            (
                asset_replaced(s, pid, symbol, Asset { balance: new_balance, ..asset }).emit(
                    AssetEvent::BalanceUpdated {
                        portfolio_id: pid,
                        symbol,
                        old_balance: asset.balance,
                        new_balance,
                    },
                ),
                sym("ok"@),
            ),
        )
    }
}

/// What updating an asset's metadata does.
pub open spec fn metadata_updated(
    s: AssetState,
    admin: Address,
    pid: Symbol,
    symbol: Symbol,
    name: Symbol,
    decimals: u32,
    risk_level: RiskLevel,
    asset_type: AssetType,
) -> Result<(AssetState, Symbol), AssetError> {
    if s.admin != Some(admin) {
        Err(AssetError::Unauthorized)
    } else if name == sym(""@) {
        Err(AssetError::InvalidName)
    } else if decimals > MAX_DECIMALS {
        Err(AssetError::InvalidDecimals)
    } else if !s.entries.contains_key((pid, symbol)) {
        Err(AssetError::AssetNotFound)
    } else {
        let asset = s.entries[(pid, symbol)];
        Ok(
            (
                asset_replaced(
                    s,
                    pid,
                    symbol,
                    Asset { name, decimals, risk_level, asset_type, ..asset },
                ).emit(
                    AssetEvent::MetadataUpdated {
                        portfolio_id: pid,
                        symbol,
                        name,
                        risk_level,
                        asset_type,
                    },
                ),
                sym("ok"@),
            ),
        )
    }
}

/// The first `n` assets without those that are not active.
pub open spec fn active_among(list: Seq<Asset>, n: int) -> Seq<Asset>
    decreases n,
{
    if n <= 0 {
        Seq::empty()
    } else if list[n - 1].is_active {
        active_among(list, n - 1).push(list[n - 1])
    } else {
        active_among(list, n - 1)
    }
}

/// What setting a price does.
pub open spec fn price_set(
    s: AssetState,
    admin: Address,
    symbol: Symbol,
    price: i128,
    source: Symbol,
) -> Result<(AssetState, Symbol), AssetError> {
    if s.admin != Some(admin) {
        Err(AssetError::Unauthorized)
    } else if price <= 0 {
        Err(AssetError::InvalidPrice)
    } else {
        Ok(
            (
                AssetState {
                    prices: s.prices.insert(
                        symbol,
                        AssetPrice { symbol, price, updated_at: s.timestamp, source },
                    ),
                    ..s
                }.emit(AssetEvent::PriceSet { symbol, price }),
                sym("ok"@),
            ),
        )
    }
}

/// The value of an asset; one without a price has none.
pub open spec fn worth(s: AssetState, asset: Asset) -> int {
    if s.prices.contains_key(asset.symbol) {
        asset.balance * s.prices[asset.symbol].price
    } else {
        0
    }
}

/// The value of an asset of a portfolio, if asset and price are there.
pub open spec fn value_of(s: AssetState, pid: Symbol, symbol: Symbol) -> Option<int> {
    if s.entries.contains_key((pid, symbol)) && s.prices.contains_key(symbol) {
        Some(s.entries[(pid, symbol)].balance * s.prices[symbol].price)
    } else {
        None
    }
}

/// The sum of the values of the first `n` assets.
pub open spec fn worth_upto(s: AssetState, list: Seq<Asset>, n: int) -> int
    decreases n,
{
    if n <= 0 {
        0
    } else {
        worth_upto(s, list, n - 1) + worth(s, list[n - 1])
    }
}

/// The value of every asset of the portfolio is a number of `i128`.
pub open spec fn values_fit(s: AssetState, pid: Symbol) -> bool {
    forall|i: int|
        0 <= i < s.assets_of(pid).len() ==> fits(worth(s, #[trigger] s.assets_of(pid)[i]))
}

/// The sum of the values of a portfolio's assets, as far as `i128` goes.
pub open spec fn portfolio_worth(s: AssetState, pid: Symbol) -> i128 {
    let sum = worth_upto(s, s.assets_of(pid), s.assets_of(pid).len() as int);
    if sum <= i128::MAX {
        sum as i128
    } else {
        i128::MAX
    }
}

/// The counts and the value of a portfolio; nothing where no list of its
/// assets is stored.
pub open spec fn summary_of(s: AssetState, pid: Symbol) -> Option<PortfolioSummary> {
    let list = s.assets_of(pid);
    if s.portfolio_assets.contains_key(pid) {
        Some(
            PortfolioSummary {
                portfolio_id: pid,
                asset_count: list.len() as u32,
                total_value: portfolio_worth(s, pid),
                active_asset_count: active_among(list, list.len() as int).len() as u32,
            },
        )
    } else {
        None
    }
}

impl AssetManagementContract {
    // =======================================================================
    // Lifecycle
    // =======================================================================

    /// Initialize the asset management contract with an admin address.
    ///
    /// Can only be called once; subsequent calls return an error.
    pub fn initialize(env: &mut AssetEnv, admin: Address) -> (r: Result<Symbol, AssetError>)
        ensures
            effect(initialized(old(env)@, admin), r, old(env)@, final(env)@),
            old(env)@.wf() ==> final(env)@.wf(),
    {
        if env.admin.is_some() {
            return Err(AssetError::AlreadyInitialized);
        }
        env.admin = Some(admin);
        proof {
            assert(env@ =~= initialized(old(env)@, admin)->Ok_0.0);
            lemma_same_assets(old(env)@, env@);
        }
        Ok(symbol_short("ok"))
    }

    // =======================================================================
    // Admin helpers
    // =======================================================================

    /// Assert that `caller` is the admin. Returns `Err(Unauthorized)` if not.
    fn assert_admin(env: &AssetEnv, caller: Address) -> (r: Result<(), AssetError>)
        ensures
            r == (if env@.admin == Some(caller) {
                Ok::<(), AssetError>(())
            } else {
                Err(AssetError::Unauthorized)
            }),
    {
        match env.admin {
            Some(a) => if a == caller {
                Ok(())
            } else {
                Err(AssetError::Unauthorized)
            },
            None => Err(AssetError::Unauthorized),
        }
    }

    // =======================================================================
    // Validation helpers
    // =======================================================================

    /// Validate an asset symbol: it is not the empty symbol. Symbols are
    /// bounded in length.
    pub fn validate_symbol(symbol: &Symbol) -> (r: Result<(), AssetError>)
        ensures
            r == (if *symbol == sym(""@) {
                Err(AssetError::InvalidSymbol)
            } else {
                Ok::<(), AssetError>(())
            }),
    {
        if *symbol == Symbol::empty() {
            return Err(AssetError::InvalidSymbol);
        }
        Ok(())
    }

    /// Validate an asset name: it is not the empty symbol. Symbols are
    /// bounded in length.
    pub fn validate_name(name: &Symbol) -> (r: Result<(), AssetError>)
        ensures
            r == (if *name == sym(""@) {
                Err(AssetError::InvalidName)
            } else {
                Ok::<(), AssetError>(())
            }),
    {
        if *name == Symbol::empty() {
            return Err(AssetError::InvalidName);
        }
        Ok(())
    }

    /// Validate asset type is supported. All of them are.
    pub fn validate_asset_type(asset_type: &AssetType) -> (r: Result<(), AssetError>)
        ensures
            r == Ok::<(), AssetError>(()),
    {
        if !asset_type.is_valid() {
            return Err(AssetError::InvalidAssetType);
        }
        Ok(())
    }

    /// Validate decimals value (0-18 is reasonable for most assets).
    pub fn validate_decimals(decimals: u32) -> (r: Result<(), AssetError>)
        ensures
            r == (if decimals > MAX_DECIMALS {
                Err(AssetError::InvalidDecimals)
            } else {
                Ok::<(), AssetError>(())
            }),
    {
        if decimals > MAX_DECIMALS {
            return Err(AssetError::InvalidDecimals);
        }
        Ok(())
    }

    /// Validate asset balance (non-negative).
    pub fn validate_balance(balance: i128) -> (r: Result<(), AssetError>)
        ensures
            r == (if balance < 0 {
                Err(AssetError::InvalidBalance)
            } else {
                Ok::<(), AssetError>(())
            }),
    {
        if balance < 0 {
            return Err(AssetError::InvalidBalance);
        }
        Ok(())
    }

    /// Validate asset price (positive).
    pub fn validate_price(price: i128) -> (r: Result<(), AssetError>)
        ensures
            r == (if price <= 0 {
                Err(AssetError::InvalidPrice)
            } else {
                Ok::<(), AssetError>(())
            }),
    {
        if price <= 0 {
            return Err(AssetError::InvalidPrice);
        }
        Ok(())
    }

    fn validate_asset(asset: &Asset) -> (r: Result<(), AssetError>)
        ensures
            r == (match asset_fault(*asset) {
                Some(e) => Err(e),
                None => Ok::<(), AssetError>(()),
            }),
    {
        match Self::validate_symbol(&asset.symbol) {
            Ok(()) => {},
            Err(e) => return Err(e),
        }
        match Self::validate_name(&asset.name) {
            Ok(()) => {},
            Err(e) => return Err(e),
        }
        match Self::validate_asset_type(&asset.asset_type) {
            Ok(()) => {},
            Err(e) => return Err(e),
        }
        match Self::validate_decimals(asset.decimals) {
            Ok(()) => {},
            Err(e) => return Err(e),
        }
        Self::validate_balance(asset.balance)
    }

    // =======================================================================
    // Asset management
    // =======================================================================

    /// Add a new asset to a portfolio. Admin-only.
    ///
    /// Validates all asset properties before adding. Fails if the asset
    /// already exists in the portfolio or if the portfolio has reached
    /// the maximum asset limit.
    pub fn add_asset(env: &mut AssetEnv, admin: Address, portfolio_id: Symbol, asset: Asset) -> (r:
        Result<Symbol, AssetError>)
        requires
            old(env)@.authorized(admin),
        ensures
            effect(asset_added(old(env)@, admin, portfolio_id, asset), r, old(env)@, final(env)@),
            old(env)@.wf() ==> final(env)@.wf(),
    {
        match Self::assert_admin(env, admin) {
            Ok(()) => {},
            Err(e) => return Err(e),
        }
        match Self::validate_asset(&asset) {
            Ok(()) => {},
            Err(e) => return Err(e),
        }
        let key: (Symbol, Symbol) = (portfolio_id, asset.symbol);
        if env.entries.has(key) {
            return Err(AssetError::AssetAlreadyExists);
        }
        let mut assets: Vec<Asset> = Self::get_portfolio_assets(env, portfolio_id);
        if assets.len() >= MAX_ASSETS_PER_PORTFOLIO as usize {
            return Err(AssetError::MaxAssetsReached);
        }
        env.entries.set(key, asset);
        assets.push(asset);
        env.portfolio_assets.set(portfolio_id, assets);
        if !has_symbol(&env.portfolios, portfolio_id) {
            env.portfolios.push(portfolio_id);
        }
        env.publish(
            AssetEvent::Added {
                portfolio_id,
                symbol: asset.symbol,
                asset_type: asset.asset_type,
            },
        );
        proof {
            assert(env@ =~= asset_added(old(env)@, admin, portfolio_id, asset)->Ok_0.0);
            if old(env)@.wf() {
                lemma_adding_keeps_wf(old(env)@, admin, portfolio_id, asset);
            }
        }
        Ok(symbol_short("ok"))
    }

    fn find_asset(list: &Vec<Asset>, symbol: Symbol) -> (i: usize)
        ensures
            i == asset_index(list@, symbol, 0),
            i <= list@.len(),
    {
        let mut i: usize = 0;
        while i < list.len() && list[i].symbol != symbol
            invariant
                i <= list@.len(),
                asset_index(list@, symbol, i as int) == asset_index(list@, symbol, 0),
            decreases list@.len() - i,
        {
            i += 1;
        }
        i
    }

    /// Remove an asset from a portfolio. Admin-only.
    ///
    /// # Safety
    ///
    /// Assets can only be removed if their balance is zero. This prevents
    /// accidental removal of active positions and ensures portfolio integrity.
    pub fn remove_asset(
        env: &mut AssetEnv,
        admin: Address,
        portfolio_id: Symbol,
        asset_symbol: Symbol,
    ) -> (r: Result<Symbol, AssetError>)
        requires
            old(env)@.authorized(admin),
        ensures
            effect(
                asset_removed(old(env)@, admin, portfolio_id, asset_symbol),
                r,
                old(env)@,
                final(env)@,
            ),
            old(env)@.wf() ==> final(env)@.wf(),
    {
        match Self::assert_admin(env, admin) {
            Ok(()) => {},
            Err(e) => return Err(e),
        }
        let key: (Symbol, Symbol) = (portfolio_id, asset_symbol);
        let asset: Asset = match env.entries.copied(key) {
            Some(a) => a,
            None => return Err(AssetError::AssetNotFound),
        };
        if asset.balance != 0 {
            return Err(AssetError::NonZeroBalance);
        }
        env.entries.remove(key);
        let mut assets: Vec<Asset> = Self::get_portfolio_assets(env, portfolio_id);
        let i: usize = Self::find_asset(&assets, asset_symbol);
        if i < assets.len() {
            assets.remove(i);
        }
        env.portfolio_assets.set(portfolio_id, assets);
        env.publish(AssetEvent::Removed { portfolio_id, symbol: asset_symbol });
        proof {
            assert(env@ =~= asset_removed(old(env)@, admin, portfolio_id, asset_symbol)->Ok_0.0);
            if old(env)@.wf() {
                lemma_removing_keeps_wf(old(env)@, admin, portfolio_id, asset_symbol);
            }
        }
        Ok(symbol_short("ok"))
    }

    fn replace_asset(env: &mut AssetEnv, portfolio_id: Symbol, asset_symbol: Symbol, asset: Asset)
        ensures
            final(env)@ == asset_replaced(old(env)@, portfolio_id, asset_symbol, asset),
    {
        env.entries.set((portfolio_id, asset_symbol), asset);
        let mut assets: Vec<Asset> = Self::get_portfolio_assets(env, portfolio_id);
        let i: usize = Self::find_asset(&assets, asset_symbol);
        if i < assets.len() {
            assets.set(i, asset);
        }
        env.portfolio_assets.set(portfolio_id, assets);
        assert(env@ =~= asset_replaced(old(env)@, portfolio_id, asset_symbol, asset));
    }

    /// Update the balance of an asset in a portfolio. Admin-only.
    pub fn update_asset_balance(
        env: &mut AssetEnv,
        admin: Address,
        portfolio_id: Symbol,
        asset_symbol: Symbol,
        new_balance: i128,
    ) -> (r: Result<Symbol, AssetError>)
        requires
            old(env)@.authorized(admin),
        ensures
            effect(
                balance_updated(old(env)@, admin, portfolio_id, asset_symbol, new_balance),
                r,
                old(env)@,
                final(env)@,
            ),
            old(env)@.wf() ==> final(env)@.wf(),
    {
        match Self::assert_admin(env, admin) {
            Ok(()) => {},
            Err(e) => return Err(e),
        }
        match Self::validate_balance(new_balance) {
            Ok(()) => {},
            Err(e) => return Err(e),
        }
        let mut asset: Asset = match env.entries.copied((portfolio_id, asset_symbol)) {
            Some(a) => a,
            None => return Err(AssetError::AssetNotFound),
        };
        let old_balance: i128 = asset.balance;
        asset.balance = new_balance;
        Self::replace_asset(env, portfolio_id, asset_symbol, asset);
        proof {
            if old(env)@.wf() {
                lemma_replacing_keeps_wf(old(env)@, portfolio_id, asset_symbol, asset);
                lemma_same_assets(
                    env@,
                    balance_updated(
                        old(env)@,
                        admin,
                        portfolio_id,
                        asset_symbol,
                        new_balance,
                    )->Ok_0.0,
                );
            }
        }
        env.publish(
            AssetEvent::BalanceUpdated {
                portfolio_id,
                symbol: asset_symbol,
                old_balance,
                new_balance,
            },
        );
        Ok(symbol_short("ok"))
    }

    /// Update an asset's metadata (name, decimals, risk level, type). Admin-only.
    pub fn update_asset_metadata(
        env: &mut AssetEnv,
        admin: Address,
        portfolio_id: Symbol,
        asset_symbol: Symbol,
        new_name: Symbol,
        new_decimals: u32,
        new_risk_level: RiskLevel,
        new_asset_type: AssetType,
    ) -> (r: Result<Symbol, AssetError>)
        requires
            old(env)@.authorized(admin),
        ensures
            effect(
                metadata_updated(
                    old(env)@,
                    admin,
                    portfolio_id,
                    asset_symbol,
                    new_name,
                    new_decimals,
                    new_risk_level,
                    new_asset_type,
                ),
                r,
                old(env)@,
                final(env)@,
            ),
            old(env)@.wf() ==> final(env)@.wf(),
    {
        match Self::assert_admin(env, admin) {
            Ok(()) => {},
            Err(e) => return Err(e),
        }
        match Self::validate_name(&new_name) {
            Ok(()) => {},
            Err(e) => return Err(e),
        }
        match Self::validate_decimals(new_decimals) {
            Ok(()) => {},
            Err(e) => return Err(e),
        }
        match Self::validate_asset_type(&new_asset_type) {
            Ok(()) => {},
            Err(e) => return Err(e),
        }
        let mut asset: Asset = match env.entries.copied((portfolio_id, asset_symbol)) {
            Some(a) => a,
            None => return Err(AssetError::AssetNotFound),
        };
        asset.name = new_name;
        asset.decimals = new_decimals;
        asset.risk_level = new_risk_level;
        asset.asset_type = new_asset_type;
        Self::replace_asset(env, portfolio_id, asset_symbol, asset);
        proof {
            if old(env)@.wf() {
                lemma_replacing_keeps_wf(old(env)@, portfolio_id, asset_symbol, asset);
                lemma_same_assets(
                    env@,
                    metadata_updated(
                        old(env)@,
                        admin,
                        portfolio_id,
                        asset_symbol,
                        new_name,
                        new_decimals,
                        new_risk_level,
                        new_asset_type,
                    )->Ok_0.0,
                );
            }
        }
        env.publish(
            AssetEvent::MetadataUpdated {
                portfolio_id,
                symbol: asset_symbol,
                name: new_name,
                risk_level: new_risk_level,
                asset_type: new_asset_type,
            },
        );
        Ok(symbol_short("ok"))
    }

    // =======================================================================
    // Asset queries
    // =======================================================================

    /// Get a specific asset from a portfolio.
    pub fn get_asset(env: &AssetEnv, portfolio_id: Symbol, asset_symbol: Symbol) -> (r: Option<
        Asset,
    >)
        ensures
            r == (if env@.entries.contains_key((portfolio_id, asset_symbol)) {
                Some(env@.entries[(portfolio_id, asset_symbol)])
            } else {
                None
            }),
    {
        env.entries.copied((portfolio_id, asset_symbol))
    }

    /// Get all assets in a portfolio.
    pub fn get_portfolio_assets(env: &AssetEnv, portfolio_id: Symbol) -> (r: Vec<Asset>)
        ensures
            r@ == env@.assets_of(portfolio_id),
    {
        match env.portfolio_assets.get(portfolio_id) {
            Some(v) => copy_vec(v),
            None => {
                let v: Vec<Asset> = Vec::new();
                assert(v@ =~= Seq::empty());
                v
            },
        }
    }

    /// Get all active assets in a portfolio.
    pub fn get_active_assets(env: &AssetEnv, portfolio_id: Symbol) -> (r: Vec<Asset>)
        ensures
            r@ == active_among(
                env@.assets_of(portfolio_id),
                env@.assets_of(portfolio_id).len() as int,
            ),
    {
        let all: Vec<Asset> = Self::get_portfolio_assets(env, portfolio_id);
        let mut active: Vec<Asset> = Vec::new();
        let mut i: usize = 0;
        assert(active@ =~= active_among(all@, 0));
        while i < all.len()
            invariant
                i <= all@.len(),
                active@ == active_among(all@, i as int),
            decreases all@.len() - i,
        {
            if all[i].is_active {
                active.push(all[i]);
            }
            i += 1;
        }
        active
    }

    // =======================================================================
    // Price feed integration
    // =======================================================================

    /// Set the price for an asset, in fixed-point (SCALE = 1.0). Admin-only.
    pub fn set_asset_price(
        env: &mut AssetEnv,
        admin: Address,
        asset_symbol: Symbol,
        price: i128,
        source: Symbol,
    ) -> (r: Result<Symbol, AssetError>)
        requires
            old(env)@.authorized(admin),
        ensures
            effect(
                price_set(old(env)@, admin, asset_symbol, price, source),
                r,
                old(env)@,
                final(env)@,
            ),
            old(env)@.wf() ==> final(env)@.wf(),
    {
        match Self::assert_admin(env, admin) {
            Ok(()) => {},
            Err(e) => return Err(e),
        }
        match Self::validate_price(price) {
            Ok(()) => {},
            Err(e) => return Err(e),
        }
        let asset_price = AssetPrice {
            symbol: asset_symbol,
            price,
            updated_at: env.timestamp,
            source,
        };
        env.prices.set(asset_symbol, asset_price);
        env.publish(AssetEvent::PriceSet { symbol: asset_symbol, price });
        proof {
            assert(env@ =~= price_set(old(env)@, admin, asset_symbol, price, source)->Ok_0.0);
            if old(env)@.wf() {
                lemma_same_lists(old(env)@, env@);
            }
        }
        Ok(symbol_short("ok"))
    }

    /// Get the price for an asset.
    pub fn get_asset_price(env: &AssetEnv, asset_symbol: Symbol) -> (r: Option<AssetPrice>)
        ensures
            r == (if env@.prices.contains_key(asset_symbol) {
                Some(env@.prices[asset_symbol])
            } else {
                None
            }),
    {
        env.prices.copied(asset_symbol)
    }

    /// Get the current value of an asset (balance × price), or `None` if the
    /// asset or its price is not there.
    pub fn get_asset_value(env: &AssetEnv, portfolio_id: Symbol, asset_symbol: Symbol) -> (r:
        Option<i128>)
        requires
            match value_of(env@, portfolio_id, asset_symbol) {
                Some(x) => fits(x),
                None => true,
            },
        ensures
            match r {
                Some(x) => value_of(env@, portfolio_id, asset_symbol) == Some(x as int),
                None => value_of(env@, portfolio_id, asset_symbol) is None,
            },
    {
        let asset: Asset = match Self::get_asset(env, portfolio_id, asset_symbol) {
            Some(a) => a,
            None => return None,
        };
        match Self::get_asset_price(env, asset_symbol) {
            Some(p) => Some(asset.balance * p.price),
            None => None,
        }
    }

    // =======================================================================
    // Portfolio summary
    // =======================================================================

    /// Get the total value of a portfolio (sum of all asset values), as far as
    /// the number goes.
    pub fn get_portfolio_value(env: &AssetEnv, portfolio_id: Symbol) -> (x: i128)
        requires
            env@.wf(),
            values_fit(env@, portfolio_id),
        ensures
            x == portfolio_worth(env@, portfolio_id),
    {
        let assets: Vec<Asset> = Self::get_portfolio_assets(env, portfolio_id);
        let mut total: i128 = 0;
        let mut i: usize = 0;
        while i < assets.len()
            invariant
                i <= assets@.len(),
                assets@ == env@.assets_of(portfolio_id),
                env@.wf(),
                values_fit(env@, portfolio_id),
                total == (if worth_upto(env@, assets@, i as int) <= i128::MAX {
                    worth_upto(env@, assets@, i as int)
                } else {
                    i128::MAX as int
                }),
                total >= 0,
            decreases assets@.len() - i,
        {
            let asset: Asset = assets[i];
            proof {
                assert(env@.listed_right(portfolio_id));
                assert(fits(worth(env@, env@.assets_of(portfolio_id)[i as int])));
                lemma_worth_not_negative(env@, portfolio_id, i as int);
            }
            match Self::get_asset_price(env, asset.symbol) {
                Some(p) => {
                    total = match total.checked_add(asset.balance * p.price) {
                        Some(x) => x,
                        None => i128::MAX,
                    };
                },
                None => {},
            }
            i += 1;
        }
        total
    }

    /// Get the portfolio summary including asset count and total value, or
    /// `None` if the portfolio never had an asset.
    pub fn get_portfolio_summary(env: &AssetEnv, portfolio_id: Symbol) -> (r: Option<
        PortfolioSummary,
    >)
        requires
            env@.wf(),
            values_fit(env@, portfolio_id),
        ensures
            r == summary_of(env@, portfolio_id),
    {
        if !env.portfolio_assets.has(portfolio_id) {
            return None;
        }
        let count: u32 = Self::get_asset_count(env, portfolio_id);
        let active: Vec<Asset> = Self::get_active_assets(env, portfolio_id);
        let total_value: i128 = Self::get_portfolio_value(env, portfolio_id);
        proof {
            let list = env@.assets_of(portfolio_id);
            assert(env@.listed_right(portfolio_id));
            lemma_active_len(list, list.len() as int);
        }
        Some(
            PortfolioSummary {
                portfolio_id,
                asset_count: count,
                total_value,
                active_asset_count: active.len() as u32,
            },
        )
    }

    // =======================================================================
    // Helper functions
    // =======================================================================

    /// Get all registered portfolios.
    pub fn get_all_portfolios(env: &AssetEnv) -> (r: Vec<Symbol>)
        ensures
            r@ == env@.portfolios,
    {
        copy_vec(&env.portfolios)
    }

    /// Get the count of assets in a portfolio.
    pub fn get_asset_count(env: &AssetEnv, portfolio_id: Symbol) -> (n: u32)
        requires
            env@.wf(),
        ensures
            n == env@.assets_of(portfolio_id).len(),
    {
        let assets: Vec<Asset> = Self::get_portfolio_assets(env, portfolio_id);
        assert(env@.listed_right(portfolio_id));
        assets.len() as u32
    }
}

// ---------------------------------------------------------------------------
// Lemmas
// ---------------------------------------------------------------------------

/// Where the first asset with a symbol stands.
pub proof fn lemma_asset_index(list: Seq<Asset>, symbol: Symbol, from: int)
    requires
        0 <= from <= list.len(),
    ensures
        from <= asset_index(list, symbol, from) <= list.len(),
        asset_index(list, symbol, from) < list.len() ==> list[asset_index(
            list,
            symbol,
            from,
        )].symbol == symbol,
        forall|i: int|
            from <= i < asset_index(list, symbol, from) ==> (#[trigger] list[i]).symbol != symbol,
    decreases list.len() - from,
{
    if from < list.len() && list[from].symbol != symbol {
        lemma_asset_index(list, symbol, from + 1);
    }
}

proof fn lemma_same_lists(s: AssetState, t: AssetState)
    requires
        forall|pid: Symbol| #[trigger] s.listed_right(pid),
        s.entries == t.entries,
        s.portfolio_assets == t.portfolio_assets,
    ensures
        forall|pid: Symbol| #[trigger] t.listed_right(pid),
{
    assert forall|pid: Symbol| #[trigger] t.listed_right(pid) by {
        assert(s.listed_right(pid));
    }
}

/// What is well-formed depends on assets and prices alone.
pub proof fn lemma_same_assets(s: AssetState, t: AssetState)
    requires
        s.entries == t.entries,
        s.portfolio_assets == t.portfolio_assets,
        s.prices == t.prices,
    ensures
        s.wf() ==> t.wf(),
{
    if s.wf() {
        lemma_same_lists(s, t);
    }
}

/// Adding an asset keeps lists and entries in step.
pub proof fn lemma_adding_keeps_wf(s: AssetState, admin: Address, pid: Symbol, asset: Asset)
    requires
        s.wf(),
        asset_added(s, admin, pid, asset) is Ok,
    ensures
        asset_added(s, admin, pid, asset)->Ok_0.0.wf(),
{
    let t = asset_added(s, admin, pid, asset)->Ok_0.0;
    assert forall|p: Symbol| #[trigger] t.listed_right(p) by {
        assert(s.listed_right(p));
        let old_list = s.assets_of(p);
        let list = t.assets_of(p);
        if p == pid {
            assert(!lists(old_list, asset.symbol)) by {
                if lists(old_list, asset.symbol) {
                    let i = choose|i: int|
                        0 <= i < old_list.len() && (#[trigger] old_list[i]).symbol == asset.symbol;
                    assert(s.entries.contains_key((p, old_list[i].symbol)));
                }
            }
            assert forall|symbol: Symbol| #[trigger]
                t.entries.contains_key((p, symbol)) implies lists(list, symbol) by {
                if symbol == asset.symbol {
                    assert(list[old_list.len() as int].symbol == symbol);
                } else {
                    assert(s.entries.contains_key((p, symbol)));
                    let i = choose|i: int|
                        0 <= i < old_list.len() && (#[trigger] old_list[i]).symbol == symbol;
                    assert(list[i].symbol == symbol);
                }
            }
            assert(distinct(list));
        } else {
            assert(list == old_list);
            assert forall|symbol: Symbol| #[trigger]
                t.entries.contains_key((p, symbol)) implies lists(list, symbol) by {
                assert(s.entries.contains_key((p, symbol)));
            }
        }
    }
}

/// Removing an asset keeps lists and entries in step.
pub proof fn lemma_removing_keeps_wf(s: AssetState, admin: Address, pid: Symbol, symbol: Symbol)
    requires
        s.wf(),
        asset_removed(s, admin, pid, symbol) is Ok,
    ensures
        asset_removed(s, admin, pid, symbol)->Ok_0.0.wf(),
{
    let t = asset_removed(s, admin, pid, symbol)->Ok_0.0;
    assert forall|p: Symbol| #[trigger] t.listed_right(p) by {
        assert(s.listed_right(p));
        let old_list = s.assets_of(p);
        let list = t.assets_of(p);
        if p == pid {
            let at = asset_index(old_list, symbol, 0);
            lemma_asset_index(old_list, symbol, 0);
            assert(s.entries.contains_key((p, symbol)));
            let k = choose|k: int|
                0 <= k < old_list.len() && (#[trigger] old_list[k]).symbol == symbol;
            assert(at <= k);
            assert(list =~= old_list.remove(at));
            assert forall|i: int| 0 <= i < list.len() implies t.entries.contains_key(
                (p, (#[trigger] list[i]).symbol),
            ) && t.entries[(p, list[i].symbol)] == list[i] by {
                let j: int = if i < at {
                    i
                } else {
                    i + 1
                };
                assert(list[i] == old_list[j]);
                assert(old_list[j].symbol != old_list[at].symbol);
                assert(s.entries.contains_key((p, old_list[j].symbol)));
            }
            assert forall|i: int, j: int| 0 <= i < j < list.len() implies (
            #[trigger] list[i]).symbol != (#[trigger] list[j]).symbol by {
                let i2: int = if i < at {
                    i
                } else {
                    i + 1
                };
                let j2: int = if j < at {
                    j
                } else {
                    j + 1
                };
                assert(list[i] == old_list[i2]);
                assert(list[j] == old_list[j2]);
            }
            assert forall|other: Symbol| #[trigger]
                t.entries.contains_key((p, other)) implies lists(list, other) by {
                assert(s.entries.contains_key((p, other)));
                let j = choose|j: int|
                    0 <= j < old_list.len() && (#[trigger] old_list[j]).symbol == other;
                let i: int = if j < at {
                    j
                } else {
                    j - 1
                };
                assert(j != at);
                assert(list[i].symbol == other);
            }
        } else {
            assert(list == old_list);
            assert forall|i: int| 0 <= i < list.len() implies t.entries.contains_key(
                (p, (#[trigger] list[i]).symbol),
            ) && t.entries[(p, list[i].symbol)] == list[i] by {
                assert(s.entries.contains_key((p, old_list[i].symbol)));
            }
            assert forall|other: Symbol| #[trigger]
                t.entries.contains_key((p, other)) implies lists(list, other) by {
                assert(s.entries.contains_key((p, other)));
            }
        }
    }
    assert forall|k: (Symbol, Symbol)| #[trigger] t.entries.contains_key(k) implies t.entries[k].symbol
        == k.1 && t.entries[k].balance >= 0 by {
        assert(s.entries.contains_key(k));
    }
}

/// Replacing an asset keeps lists and entries in step.
pub proof fn lemma_replacing_keeps_wf(s: AssetState, pid: Symbol, symbol: Symbol, asset: Asset)
    requires
        s.wf(),
        s.entries.contains_key((pid, symbol)),
        asset.symbol == symbol,
        asset.balance >= 0,
    ensures
        asset_replaced(s, pid, symbol, asset).wf(),
{
    let t = asset_replaced(s, pid, symbol, asset);
    assert forall|p: Symbol| #[trigger] t.listed_right(p) by {
        assert(s.listed_right(p));
        let old_list = s.assets_of(p);
        let list = t.assets_of(p);
        if p == pid {
            let at = asset_index(old_list, symbol, 0);
            lemma_asset_index(old_list, symbol, 0);
            let k = choose|k: int|
                0 <= k < old_list.len() && (#[trigger] old_list[k]).symbol == symbol;
            assert(s.entries.contains_key((p, symbol)));
            assert(at <= k);
            assert(list =~= old_list.update(at, asset));
            assert forall|i: int| 0 <= i < list.len() implies (#[trigger] list[i]).symbol
                == old_list[i].symbol by {}
            assert forall|i: int| 0 <= i < list.len() implies t.entries.contains_key(
                (p, (#[trigger] list[i]).symbol),
            ) && t.entries[(p, list[i].symbol)] == list[i] by {
                assert(s.entries.contains_key((p, old_list[i].symbol)));
                if i != at {
                    assert(old_list[i].symbol != old_list[at].symbol);
                }
            }
            assert forall|i: int, j: int| 0 <= i < j < list.len() implies (
            #[trigger] list[i]).symbol != (#[trigger] list[j]).symbol by {
                assert(old_list[i].symbol != old_list[j].symbol);
            }
            assert forall|other: Symbol| #[trigger]
                t.entries.contains_key((p, other)) implies lists(list, other) by {
                assert(s.entries.contains_key((p, other)));
                let j = choose|j: int|
                    0 <= j < old_list.len() && (#[trigger] old_list[j]).symbol == other;
                assert(list[j].symbol == other);
            }
        } else {
            assert(list == old_list);
            assert forall|i: int| 0 <= i < list.len() implies t.entries.contains_key(
                (p, (#[trigger] list[i]).symbol),
            ) && t.entries[(p, list[i].symbol)] == list[i] by {
                assert(s.entries.contains_key((p, old_list[i].symbol)));
            }
            assert forall|other: Symbol| #[trigger]
                t.entries.contains_key((p, other)) implies lists(list, other) by {
                assert(s.entries.contains_key((p, other)));
            }
        }
    }
    assert forall|k: (Symbol, Symbol)| #[trigger] t.entries.contains_key(k) implies t.entries[k].symbol
        == k.1 && t.entries[k].balance >= 0 by {
        if k != (pid, symbol) {
            assert(s.entries.contains_key(k));
        }
    }
}

/// No listed asset has a negative value.
pub proof fn lemma_worth_not_negative(s: AssetState, pid: Symbol, i: int)
    requires
        s.wf(),
        0 <= i < s.assets_of(pid).len(),
    ensures
        worth(s, s.assets_of(pid)[i]) >= 0,
{
    assert(s.listed_right(pid));
    let a = s.assets_of(pid)[i];
    assert(s.entries.contains_key((pid, a.symbol)));
    if s.prices.contains_key(a.symbol) {
        let b = a.balance as int;
        let p = s.prices[a.symbol].price as int;
        assert(b * p >= 0) by (nonlinear_arith)
            requires
                b >= 0,
                p > 0,
        ;
    }
}

/// No more assets are active than there are.
pub proof fn lemma_active_len(list: Seq<Asset>, n: int)
    requires
        0 <= n <= list.len(),
    ensures
        active_among(list, n).len() <= n,
    decreases n,
{
    if n > 0 {
        lemma_active_len(list, n - 1);
    }
}

} // verus!
