//! Oracle providers, and the prices that they submit.

use vstd::prelude::*;

use crate::base::symbol::{sym, symbol_short, Symbol};
use crate::base::vecs::copy_vec;
use crate::pricefeed::records::{OracleProvider, PriceDataPoint, PriceFeedError};
use crate::pricefeed::state::{PriceFeedEnv, PriceFeedState};

verus! {

/// The position of the first provider from `from` on with the ID, or the length.
pub open spec fn provider_index(providers: Seq<OracleProvider>, id: Symbol, from: int) -> int
    decreases providers.len() - from,
{
    if from >= providers.len() {
        providers.len() as int
    } else if providers[from].provider_id == id {
        from
    } else {
        provider_index(providers, id, from + 1)
    }
}

/// The provider with the ID.
pub open spec fn provider_of(s: PriceFeedState, id: Symbol) -> Option<OracleProvider> {
    let i = provider_index(s.providers, id, 0);
    if i < s.providers.len() {
        Some(s.providers[i])
    } else {
        None
    }
}

/// Where the first provider with an ID stands.
pub proof fn lemma_provider_index(providers: Seq<OracleProvider>, id: Symbol, from: int)
    requires
        0 <= from <= providers.len(),
    ensures
        from <= provider_index(providers, id, from) <= providers.len(),
        provider_index(providers, id, from) < providers.len() ==> providers[provider_index(
            providers,
            id,
            from,
        )].provider_id == id,
        forall|i: int|
            from <= i < provider_index(providers, id, from) ==> (
            #[trigger] providers[i]).provider_id != id,
    decreases providers.len() - from,
{
    if from < providers.len() && providers[from].provider_id != id {
        lemma_provider_index(providers, id, from + 1);
    }
}

/// What registering a provider does.
pub open spec fn provider_registered(s: PriceFeedState, p: OracleProvider) -> Result<
    (PriceFeedState, Symbol),
    PriceFeedError,
> {
    if provider_of(s, p.provider_id) is Some {
        Err(PriceFeedError::OracleAlreadyExists)
    } else {
        Ok((PriceFeedState { providers: s.providers.push(p), ..s }, p.provider_id))
    }
}

/// What updating a provider does.
pub open spec fn provider_updated(s: PriceFeedState, p: OracleProvider) -> Result<
    (PriceFeedState, Symbol),
    PriceFeedError,
> {
    if provider_of(s, p.provider_id) is None {
        Err(PriceFeedError::OracleNotFound)
    } else {
        Ok(
            (
                PriceFeedState {
                    providers: s.providers.update(
                        provider_index(s.providers, p.provider_id, 0),
                        p,
                    ),
                    ..s
                },
                p.provider_id,
            ),
        )
    }
}

/// What removing a provider does.
pub open spec fn provider_removed(s: PriceFeedState, id: Symbol) -> Result<
    (PriceFeedState, ()),
    PriceFeedError,
> {
    if provider_of(s, id) is None {
        Err(PriceFeedError::OracleNotFound)
    } else {
        Ok(
            (
                PriceFeedState {
                    providers: s.providers.remove(provider_index(s.providers, id, 0)),
                    ..s
                },
                (),
            ),
        )
    }
}

/// The first `n` providers without those that are not active.
pub open spec fn active_among(providers: Seq<OracleProvider>, n: int) -> Seq<OracleProvider>
    decreases n,
{
    if n <= 0 {
        Seq::empty()
    } else if providers[n - 1].is_active {
        active_among(providers, n - 1).push(providers[n - 1])
    } else {
        active_among(providers, n - 1)
    }
}

/// What is wrong with a submission from a provider, if anything.
pub open spec fn submission_fault(s: PriceFeedState, id: Symbol) -> Option<PriceFeedError> {
    match provider_of(s, id) {
        None => Some(PriceFeedError::OracleNotFound),
        Some(p) => if p.is_active {
            None
        } else {
            Some(PriceFeedError::OracleInactive)
        },
    }
}

/// The state with the provider's latest price of the asset.
pub open spec fn price_stored(s: PriceFeedState, dp: PriceDataPoint) -> PriceFeedState {
    PriceFeedState { data_points: s.data_points.insert((dp.asset, dp.provider_id), dp), ..s }
}

/// The state after the first `n` prices of a batch, and how many of them were
/// accepted: those of registered and active providers.
pub open spec fn batch_stored(s: PriceFeedState, points: Seq<PriceDataPoint>, n: int) -> (
    PriceFeedState,
    nat,
)
    decreases n,
{
    if n <= 0 {
        (s, 0)
    } else {
        let before = batch_stored(s, points, n - 1);
        if submission_fault(s, points[n - 1].provider_id) is None {
            (price_stored(before.0, points[n - 1]), before.1 + 1)
        } else {
            before
        }
    }
}

/// The provider's latest price of the asset counts: the provider is active and
/// the price is not older than the provider's limit.
pub open spec fn counts(s: PriceFeedState, p: OracleProvider, asset: Symbol) -> bool {
    &&& p.is_active
    &&& s.data_points.contains_key((asset, p.provider_id))
    &&& s.timestamp - s.data_points[(asset, p.provider_id)].timestamp <= p.max_staleness
}

/// The prices of the asset that count, of the first `n` providers.
pub open spec fn fetched_upto(s: PriceFeedState, asset: Symbol, n: int) -> Seq<PriceDataPoint>
    decreases n,
{
    if n <= 0 {
        Seq::empty()
    } else if counts(s, s.providers[n - 1], asset) {
        fetched_upto(s, asset, n - 1).push(
            s.data_points[(asset, s.providers[n - 1].provider_id)],
        )
    } else {
        fetched_upto(s, asset, n - 1)
    }
}

/// The prices of the asset that count, in the order of the providers.
pub open spec fn fetched(s: PriceFeedState, asset: Symbol) -> Seq<PriceDataPoint> {
    fetched_upto(s, asset, s.providers.len() as int)
}

/// There are no more prices than providers.
pub proof fn lemma_fetched_len(s: PriceFeedState, asset: Symbol, n: int)
    requires
        0 <= n <= s.providers.len(),
    ensures
        fetched_upto(s, asset, n).len() <= n,
    decreases n,
{
    if n > 0 {
        lemma_fetched_len(s, asset, n - 1);
    }
}

/// Registration, price submission and fetching.
pub struct OracleManager;

impl OracleManager {
    fn find_provider(env: &PriceFeedEnv, id: Symbol) -> (i: usize)
        ensures
            i == provider_index(env@.providers, id, 0),
            i <= env@.providers.len(),
    {
        let mut i: usize = 0;
        while i < env.providers.len() && env.providers[i].provider_id != id
            invariant
                i <= env@.providers.len(),
                provider_index(env@.providers, id, i as int) == provider_index(
                    env@.providers,
                    id,
                    0,
                ),
            decreases env@.providers.len() - i,
        {
            i += 1;
        }
        i
    }

    /// Register a new provider. Returns its ID.
    pub fn register_provider(env: &mut PriceFeedEnv, provider: OracleProvider) -> (r: Result<
        Symbol,
        PriceFeedError,
    >)
        requires
            old(env)@.wf(),
            old(env)@.providers.len() < u32::MAX,
        ensures
            match provider_registered(old(env)@, provider) {
                Ok((s, id)) => r == Ok::<Symbol, PriceFeedError>(id) && final(env)@ == s,
                Err(e) => r == Err::<Symbol, PriceFeedError>(e) && final(env)@ == old(env)@,
            },
            final(env)@.wf(),
    {
        proof {
            lemma_provider_index(env@.providers, provider.provider_id, 0);
        }
        if Self::find_provider(env, provider.provider_id) < env.providers.len() {
            return Err(PriceFeedError::OracleAlreadyExists);
        }
        env.providers.push(provider);
        assert(env@ =~= provider_registered(old(env)@, provider)->Ok_0.0);
        Ok(provider.provider_id)
    }

    /// Update a registered provider. Returns its ID.
    pub fn update_provider(env: &mut PriceFeedEnv, provider: OracleProvider) -> (r: Result<
        Symbol,
        PriceFeedError,
    >)
        requires
            old(env)@.wf(),
        ensures
            match provider_updated(old(env)@, provider) {
                Ok((s, id)) => r == Ok::<Symbol, PriceFeedError>(id) && final(env)@ == s,
                Err(e) => r == Err::<Symbol, PriceFeedError>(e) && final(env)@ == old(env)@,
            },
            final(env)@.wf(),
    {
        let i: usize = Self::find_provider(env, provider.provider_id);
        if i >= env.providers.len() {
            return Err(PriceFeedError::OracleNotFound);
        }
        proof {
            lemma_provider_index(env@.providers, provider.provider_id, 0);
        }
        env.providers.set(i, provider);
        proof {
            assert(env@ =~= provider_updated(old(env)@, provider)->Ok_0.0);
            assert forall|a: int, b: int| 0 <= a < b < env@.providers.len() implies (
            #[trigger] env@.providers[a]).provider_id != (
            #[trigger] env@.providers[b]).provider_id by {
                assert(old(env)@.providers[a].provider_id != old(env)@.providers[b].provider_id);
            }
        }
        Ok(provider.provider_id)
    }

    /// Remove a registered provider.
    pub fn remove_provider(env: &mut PriceFeedEnv, provider_id: Symbol) -> (r: Result<
        (),
        PriceFeedError,
    >)
        requires
            old(env)@.wf(),
        ensures
            match provider_removed(old(env)@, provider_id) {
                Ok((s, _)) => r == Ok::<(), PriceFeedError>(()) && final(env)@ == s,
                Err(e) => r == Err::<(), PriceFeedError>(e) && final(env)@ == old(env)@,
            },
            final(env)@.wf(),
    {
        let i: usize = Self::find_provider(env, provider_id);
        if i >= env.providers.len() {
            return Err(PriceFeedError::OracleNotFound);
        }
        env.providers.remove(i);
        proof {
            let before = old(env)@.providers;
            assert(env@ =~= provider_removed(old(env)@, provider_id)->Ok_0.0);
            assert forall|a: int, b: int| 0 <= a < b < env@.providers.len() implies (
            #[trigger] env@.providers[a]).provider_id != (
            #[trigger] env@.providers[b]).provider_id by {
                let a2: int = if a < i {
                    a
                } else {
                    a + 1
                };
                let b2: int = if b < i {
                    b
                } else {
                    b + 1
                };
                assert(env@.providers[a] == before[a2]);
                assert(env@.providers[b] == before[b2]);
            }
        }
        Ok(())
    }

    /// The provider with the ID.
    pub fn get_provider(env: &PriceFeedEnv, provider_id: Symbol) -> (r: Option<OracleProvider>)
        ensures
            r == provider_of(env@, provider_id),
    {
        let i: usize = Self::find_provider(env, provider_id);
        if i < env.providers.len() {
            Some(env.providers[i])
        } else {
            None
        }
    }

    /// All providers, oldest first.
    pub fn get_all_providers(env: &PriceFeedEnv) -> (r: Vec<OracleProvider>)
        ensures
            r@ == env@.providers,
    {
        copy_vec(&env.providers)
    }

    /// All active providers, oldest first.
    pub fn get_active_providers(env: &PriceFeedEnv) -> (r: Vec<OracleProvider>)
        ensures
            r@ == active_among(env@.providers, env@.providers.len() as int),
    {
        let mut active: Vec<OracleProvider> = Vec::new();
        let mut i: usize = 0;
        assert(active@ =~= active_among(env@.providers, 0));
        while i < env.providers.len()
            invariant
                i <= env@.providers.len(),
                active@ == active_among(env@.providers, i as int),
            decreases env@.providers.len() - i,
        {
            if env.providers[i].is_active {
                active.push(env.providers[i]);
            }
            i += 1;
        }
        active
    }

    /// Store a price as the provider's latest of the asset.
    pub fn submit_price(env: &mut PriceFeedEnv, data_point: PriceDataPoint) -> (r: Symbol)
        ensures
            final(env)@ == price_stored(old(env)@, data_point),
            r == sym("ok"@),
    {
        env.data_points.set((data_point.asset, data_point.provider_id), data_point);
        assert(env@ =~= price_stored(old(env)@, data_point));
        symbol_short("ok")
    }

    /// Whether a submission from the provider is refused, and why.
    pub fn check_submission(env: &PriceFeedEnv, provider_id: Symbol) -> (r: Option<PriceFeedError>)
        ensures
            r == submission_fault(env@, provider_id),
    {
        match Self::get_provider(env, provider_id) {
            None => Some(PriceFeedError::OracleNotFound),
            Some(p) => if p.is_active {
                None
            } else {
                Some(PriceFeedError::OracleInactive)
            },
        }
    }

    /// Store the prices of registered and active providers. Returns how many.
    pub fn batch_submit_prices(env: &mut PriceFeedEnv, data_points: &Vec<PriceDataPoint>) -> (count:
        usize)
        ensures
            final(env)@ == batch_stored(old(env)@, data_points@, data_points@.len() as int).0,
            count == batch_stored(old(env)@, data_points@, data_points@.len() as int).1,
            count <= data_points@.len(),
            final(env)@.providers == old(env)@.providers,
            old(env)@.wf() ==> final(env)@.wf(),
    {
        let mut count: usize = 0;
        let mut i: usize = 0;
        while i < data_points.len()
            invariant
                i <= data_points@.len(),
                count <= i,
                env@ == batch_stored(old(env)@, data_points@, i as int).0,
                count == batch_stored(old(env)@, data_points@, i as int).1,
                env@.providers == old(env)@.providers,
                env@.watched == old(env)@.watched,
                env@.history == old(env)@.history,
            decreases data_points@.len() - i,
        {
            let dp: PriceDataPoint = data_points[i];
            if Self::check_submission(env, dp.provider_id).is_none() {
                Self::submit_price(env, dp);
                count += 1;
            }
            i += 1;
        }
        count
    }

    /// The provider's latest price of the asset.
    pub fn fetch_price(env: &PriceFeedEnv, asset: Symbol, provider_id: Symbol) -> (r: Option<
        PriceDataPoint,
    >)
        ensures
            r == (if env@.data_points.contains_key((asset, provider_id)) {
                Some(env@.data_points[(asset, provider_id)])
            } else {
                None
            }),
    {
        env.data_points.copied((asset, provider_id))
    }

    /// The prices of the asset from all active providers, without those that
    /// are older than their provider's limit.
    pub fn fetch_all_for_asset(env: &PriceFeedEnv, asset: Symbol) -> (r: Vec<PriceDataPoint>)
        ensures
            r@ == fetched(env@, asset),
            r@.len() <= env@.providers.len(),
    {
        let mut out: Vec<PriceDataPoint> = Vec::new();
        let mut i: usize = 0;
        assert(out@ =~= fetched_upto(env@, asset, 0));
        while i < env.providers.len()
            invariant
                i <= env@.providers.len(),
                out@ == fetched_upto(env@, asset, i as int),
            decreases env@.providers.len() - i,
        {
            let p: OracleProvider = env.providers[i];
            if p.is_active {
                match Self::fetch_price(env, asset, p.provider_id) {
                    Some(dp) => {
                        let age: u64 = env.timestamp.saturating_sub(dp.timestamp);
                        if age <= p.max_staleness {
                            out.push(dp);
                        }
                    },
                    None => {},
                }
            }
            i += 1;
        }
        proof {
            lemma_fetched_len(env@, asset, env@.providers.len() as int);
        }
        out
    }
}

} // verus!
