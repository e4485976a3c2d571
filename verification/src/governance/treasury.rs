//! Multi-sig controlled funds: deposits, withdrawal requests, approvals and
//! execution.

use vstd::prelude::*;

use crate::base::address::Address;
use crate::base::arith::{checked_mul_div, fits, lemma_quot_bounds, quot};
use crate::base::effect::effect;
use crate::base::symbol::{sym, symbol_short, Symbol};
use crate::base::table::value_or;
use crate::base::vecs::{copy_vec, has_address, has_symbol};
use crate::governance::records::{
    GovernanceConfig, TreasuryError, TreasuryRequest, TreasuryRequestView,
};
use crate::governance::state::{GovernanceEnv, GovernanceEvent, GovernanceState};

verus! {

/// A list with one more item, unless it has the item already.
pub open spec fn with_member<T>(s: Seq<T>, x: T) -> Seq<T> {
    if s.contains(x) {
        s
    } else {
        s.push(x)
    }
}

/// What a deposit does.
pub open spec fn deposited(s: GovernanceState, depositor: Address, asset: Symbol, amount: i128) -> Result<
    (GovernanceState, i128),
    TreasuryError,
> {
    let balance = value_or(s.treasury_balances, asset, 0) + amount;
    if amount <= 0 {
        Err(TreasuryError::InvalidAmount)
    } else if !fits(balance) {
        Err(TreasuryError::InsufficientBalance)
    } else {
        Ok(
            (
                GovernanceState {
                    treasury_balances: s.treasury_balances.insert(asset, balance as i128),
                    treasury_assets: with_member(s.treasury_assets, asset),
                    ..s
                }.emit(GovernanceEvent::TreasuryDeposited { depositor, asset, amount }),
                balance as i128,
            ),
        )
    }
}

/// Deposit funds into the treasury.
///
/// Requires authorization from `depositor`. Increases the treasury balance
/// for `asset` and publishes an event.
pub fn deposit(env: &mut GovernanceEnv, depositor: Address, asset: Symbol, amount: i128) -> (r: Result<
    i128,
    TreasuryError,
>)
    requires
        old(env)@.authorized(depositor),
        old(env)@.wf(),
    ensures
        effect(deposited(old(env)@, depositor, asset, amount), r, old(env)@, final(env)@),
        final(env)@.wf(),
{
    if amount <= 0 {
        return Err(TreasuryError::InvalidAmount);
    }
    let balance: i128 = match balance_of(env, asset).checked_add(amount) {
        Some(x) => x,
        None => return Err(TreasuryError::InsufficientBalance),
    };
    env.treasury_balances.set(asset, balance);
    if !has_symbol(&env.treasury_assets, asset) {
        env.treasury_assets.push(asset);
    }
    env.publish(GovernanceEvent::TreasuryDeposited { depositor, asset, amount });
    assert(env@ =~= deposited(old(env)@, depositor, asset, amount)->Ok_0.0);
    Ok(balance)
}

/// Get the treasury balance for an asset.
pub fn balance_of(env: &GovernanceEnv, asset: Symbol) -> (x: i128)
    ensures
        x == value_or(env@.treasury_balances, asset, 0),
{
    match env.treasury_balances.copied(asset) {
        Some(x) => x,
        None => 0,
    }
}

/// Get all treasury assets.
pub fn all_assets(env: &GovernanceEnv) -> (r: Vec<Symbol>)
    ensures
        r@ == env@.treasury_assets,
{
    copy_vec(&env.treasury_assets)
}

/// The most that one request may ask for.
pub open spec fn spend_limit(balance: i128, config: GovernanceConfig) -> int {
    quot(balance * config.max_treasury_spend_bps, 10_000)
}

/// What creating a withdrawal request does.
pub open spec fn requested(
    s: GovernanceState,
    requester: Address,
    recipient: Address,
    amount: i128,
    asset: Symbol,
    reason: Symbol,
    config: GovernanceConfig,
) -> Result<(GovernanceState, u64), TreasuryError> {
    let balance = value_or(s.treasury_balances, asset, 0);
    if amount <= 0 {
        Err(TreasuryError::InvalidAmount)
    } else if !fits(balance * config.max_treasury_spend_bps) {
        Err(TreasuryError::InsufficientBalance)
    } else if amount > spend_limit(balance, config) {
        Err(TreasuryError::ExceedsSpendLimit)
    } else {
        let id = s.next_request_id;
        let request = TreasuryRequestView {
            request_id: id,
            recipient,
            amount,
            asset,
            reason,
            approvals: Seq::empty(),
            executed: false,
            created_at: s.timestamp,
        };
        Ok(
            (
                GovernanceState {
                    treasury_requests: s.treasury_requests.insert(id, request),
                    next_request_id: (id + 1) as u64,
                    ..s
                }.emit(
                    GovernanceEvent::TreasuryRequested {
                        requester,
                        asset,
                        request_id: id,
                        amount,
                        recipient,
                    },
                ),
                id,
            ),
        )
    }
}

/// Create a treasury withdrawal request.
///
/// Returns the new request id. Requires authorization from `requester`.
pub fn create_request(
    env: &mut GovernanceEnv,
    requester: Address,
    recipient: Address,
    amount: i128,
    asset: Symbol,
    reason: Symbol,
    config: &GovernanceConfig,
) -> (r: Result<u64, TreasuryError>)
    requires
        old(env)@.authorized(requester),
        old(env)@.wf(),
        old(env)@.next_request_id < u64::MAX,
    ensures
        effect(
            requested(old(env)@, requester, recipient, amount, asset, reason, *config),
            r,
            old(env)@,
            final(env)@,
        ),
        final(env)@.wf(),
{
    if amount <= 0 {
        return Err(TreasuryError::InvalidAmount);
    }
    let balance: i128 = balance_of(env, asset);
    proof {
        lemma_quot_bounds(balance * config.max_treasury_spend_bps, 10_000);
    }
    let limit: i128 = match checked_mul_div(
        balance,
        config.max_treasury_spend_bps as i128,
        10_000,
    ) {
        Some(x) => x,
        None => return Err(TreasuryError::InsufficientBalance),
    };
    if amount > limit {
        return Err(TreasuryError::ExceedsSpendLimit);
    }
    let request_id: u64 = env.next_request_id;
    let request = TreasuryRequest {
        request_id,
        recipient,
        amount,
        asset,
        reason,
        approvals: Vec::new(),
        executed: false,
        created_at: env.timestamp,
    };
    let ghost view = request@;
    env.treasury_requests.set(request_id, request);
    env.next_request_id = request_id + 1;
    env.publish(
        GovernanceEvent::TreasuryRequested { requester, asset, request_id, amount, recipient },
    );
    proof {
        let s = requested(
            old(env)@,
            requester,
            recipient,
            amount,
            asset,
            reason,
            *config,
        )->Ok_0.0;
        assert(view =~= s.treasury_requests[request_id]);
        assert(env@ =~= s);
    }
    Ok(request_id)
}

/// The address may approve requests.
pub open spec fn may_sign(s: GovernanceState, signer: Address) -> bool {
    s.admin is Some && (s.treasury_signers.contains(signer) || s.is_admin(signer))
}

/// What approving a request does.
pub open spec fn approved(s: GovernanceState, signer: Address, id: u64) -> Result<
    (GovernanceState, TreasuryRequestView),
    TreasuryError,
> {
    if !may_sign(s, signer) {
        Err(TreasuryError::NotASigner)
    } else if !s.treasury_requests.contains_key(id) {
        Err(TreasuryError::RequestNotFound)
    } else if s.treasury_requests[id].executed {
        Err(TreasuryError::AlreadyExecuted)
    } else if s.treasury_requests[id].approvals.contains(signer) {
        Err(TreasuryError::AlreadyApproved)
    } else {
        let before = s.treasury_requests[id];
        let after = TreasuryRequestView { approvals: before.approvals.push(signer), ..before };
        Ok(
            (
                GovernanceState {
                    treasury_requests: s.treasury_requests.insert(id, after),
                    ..s
                }.emit(
                    GovernanceEvent::TreasuryApproved {
                        signer,
                        request_id: id,
                        approvals: after.approvals.len() as u32,
                    },
                ),
                after,
            ),
        )
    }
}

/// Approve a treasury withdrawal request.
///
/// Caller must be a registered treasury signer. Returns the updated request.
pub fn approve_request(env: &mut GovernanceEnv, signer: Address, request_id: u64) -> (r: Result<
    TreasuryRequest,
    TreasuryError,
>)
    requires
        old(env)@.authorized(signer),
        old(env)@.wf(),
        old(env)@.treasury_requests.contains_key(request_id)
            ==> old(env)@.treasury_requests[request_id].approvals.len() < u32::MAX,
    ensures
        match approved(old(env)@, signer, request_id) {
            Ok((s, request)) => r is Ok && r->Ok_0@ == request && final(env)@ == s,
            Err(e) => r is Err && r->Err_0 == e && final(env)@ == old(env)@,
        },
        final(env)@.wf(),
{
    let is_signer: bool = match env.admin {
        Some(a) => has_address(&env.treasury_signers, signer) || a == signer,
        None => false,
    };
    if !is_signer {
        return Err(TreasuryError::NotASigner);
    }
    let mut request: TreasuryRequest = match get_request(env, request_id) {
        Some(x) => x,
        None => return Err(TreasuryError::RequestNotFound),
    };
    if request.executed {
        return Err(TreasuryError::AlreadyExecuted);
    }
    if has_address(&request.approvals, signer) {
        return Err(TreasuryError::AlreadyApproved);
    }
    let ghost before = request@;
    request.approvals.push(signer);
    let approvals: u32 = request.approvals.len() as u32;
    env.treasury_requests.set(request_id, request.copy());
    env.publish(GovernanceEvent::TreasuryApproved { signer, request_id, approvals });
    proof {
        let (s, after) = approved(old(env)@, signer, request_id)->Ok_0;
        assert(request@ =~= after);
        assert(env@ =~= s);
        assert(after.approvals.no_duplicates());
    }
    Ok(request)
}

/// What executing a request does.
pub open spec fn withdrawn(s: GovernanceState, id: u64, config: GovernanceConfig) -> Result<
    (GovernanceState, i128),
    TreasuryError,
> {
    if !s.treasury_requests.contains_key(id) {
        Err(TreasuryError::RequestNotFound)
    } else {
        let request = s.treasury_requests[id];
        let balance = value_or(s.treasury_balances, request.asset, 0);
        if request.executed {
            Err(TreasuryError::AlreadyExecuted)
        } else if request.approvals.len() < config.treasury_multisig_threshold {
            Err(TreasuryError::InsufficientApprovals)
        } else if request.amount > balance {
            Err(TreasuryError::InsufficientBalance)
        } else {
            Ok(
                (
                    GovernanceState {
                        treasury_balances: s.treasury_balances.insert(
                            request.asset,
                            (balance - request.amount) as i128,
                        ),
                        treasury_requests: s.treasury_requests.insert(
                            id,
                            TreasuryRequestView { executed: true, ..request },
                        ),
                        ..s
                    }.emit(
                        GovernanceEvent::TreasuryExecuted {
                            recipient: request.recipient,
                            request_id: id,
                            amount: request.amount,
                            asset: request.asset,
                        },
                    ),
                    request.amount,
                ),
            )
        }
    }
}

/// Execute a treasury withdrawal request once enough approvals are gathered.
///
/// Returns the net amount sent to the recipient. The actual token transfer is
/// tracked via events; the contract manages accounting only.
pub fn execute_request(env: &mut GovernanceEnv, request_id: u64, config: &GovernanceConfig) -> (r:
    Result<i128, TreasuryError>)
    requires
        old(env)@.wf(),
    ensures
        effect(withdrawn(old(env)@, request_id, *config), r, old(env)@, final(env)@),
        final(env)@.wf(),
{
    let mut request: TreasuryRequest = match get_request(env, request_id) {
        Some(x) => x,
        None => return Err(TreasuryError::RequestNotFound),
    };
    if request.executed {
        return Err(TreasuryError::AlreadyExecuted);
    }
    if (request.approvals.len() as u64) < config.treasury_multisig_threshold as u64 {
        return Err(TreasuryError::InsufficientApprovals);
    }
    let balance: i128 = balance_of(env, request.asset);
    if request.amount > balance {
        return Err(TreasuryError::InsufficientBalance);
    }
    let asset: Symbol = request.asset;
    let amount: i128 = request.amount;
    let recipient: Address = request.recipient;
    env.treasury_balances.set(asset, balance - amount);
    request.executed = true;
    env.treasury_requests.set(request_id, request);
    env.publish(GovernanceEvent::TreasuryExecuted { recipient, request_id, amount, asset });
    assert(env@ =~= withdrawn(old(env)@, request_id, *config)->Ok_0.0);
    Ok(amount)
}

/// What cancelling a request does.
pub open spec fn request_cancelled(s: GovernanceState, admin: Address, id: u64) -> Result<
    (GovernanceState, Symbol),
    TreasuryError,
> {
    if !s.is_admin(admin) {
        Err(TreasuryError::NotASigner)
    } else if !s.treasury_requests.contains_key(id) {
        Err(TreasuryError::RequestNotFound)
    } else if s.treasury_requests[id].executed {
        Err(TreasuryError::AlreadyExecuted)
    } else {
        Ok(
            (
                GovernanceState {
                    treasury_requests: s.treasury_requests.insert(
                        id,
                        TreasuryRequestView { executed: true, ..s.treasury_requests[id] },
                    ),
                    ..s
                }.emit(GovernanceEvent::TreasuryCancelled { admin, request_id: id }),
                sym("ok"@),
            ),
        )
    }
}

fn is_stored_admin(env: &GovernanceEnv, admin: Address) -> (b: bool)
    ensures
        b == env@.is_admin(admin),
{
    match env.admin {
        Some(a) => a == admin,
        None => false,
    }
}

/// Cancel a treasury withdrawal request. Admin-only.
pub fn cancel_request(env: &mut GovernanceEnv, admin: Address, request_id: u64) -> (r: Result<
    Symbol,
    TreasuryError,
>)
    requires
        old(env)@.authorized(admin),
        old(env)@.wf(),
    ensures
        effect(request_cancelled(old(env)@, admin, request_id), r, old(env)@, final(env)@),
        final(env)@.wf(),
{
    if !is_stored_admin(env, admin) {
        return Err(TreasuryError::NotASigner);
    }
    let mut request: TreasuryRequest = match get_request(env, request_id) {
        Some(x) => x,
        None => return Err(TreasuryError::RequestNotFound),
    };
    if request.executed {
        return Err(TreasuryError::AlreadyExecuted);
    }
    request.executed = true;
    env.treasury_requests.set(request_id, request);
    env.publish(GovernanceEvent::TreasuryCancelled { admin, request_id });
    assert(env@ =~= request_cancelled(old(env)@, admin, request_id)->Ok_0.0);
    Ok(symbol_short("ok"))
}

/// Get a treasury request by id.
pub fn get_request(env: &GovernanceEnv, request_id: u64) -> (r: Option<TreasuryRequest>)
    ensures
        match r {
            Some(x) => env@.treasury_requests.contains_key(request_id) && x@
                == env@.treasury_requests[request_id],
            None => !env@.treasury_requests.contains_key(request_id),
        },
{
    match env.treasury_requests.get(request_id) {
        Some(x) => Some(x.copy()),
        None => None,
    }
}

// ---------------------------------------------------------------------------
// Multi-sig signer management
// ---------------------------------------------------------------------------

/// What adding a signer does.
pub open spec fn signer_added(s: GovernanceState, admin: Address, signer: Address) -> Result<
    (GovernanceState, Symbol),
    TreasuryError,
> {
    if !s.is_admin(admin) {
        Err(TreasuryError::NotASigner)
    } else {
        Ok(
            (
                GovernanceState {
                    treasury_signers: with_member(s.treasury_signers, signer),
                    ..s
                },
                sym("ok"@),
            ),
        )
    }
}

/// Add a treasury signer. Admin-only.
pub fn add_signer(env: &mut GovernanceEnv, admin: Address, signer: Address) -> (r: Result<
    Symbol,
    TreasuryError,
>)
    requires
        old(env)@.authorized(admin),
    ensures
        effect(signer_added(old(env)@, admin, signer), r, old(env)@, final(env)@),
{
    if !is_stored_admin(env, admin) {
        return Err(TreasuryError::NotASigner);
    }
    if !has_address(&env.treasury_signers, signer) {
        env.treasury_signers.push(signer);
    }
    assert(env@ =~= signer_added(old(env)@, admin, signer)->Ok_0.0);
    Ok(symbol_short("ok"))
}

/// Position of the first occurrence of an address, or the length.
pub open spec fn address_index(s: Seq<Address>, a: Address) -> int
    decreases s.len(),
{
    if s.len() == 0 {
        0
    } else if s[0] == a {
        0
    } else {
        1 + address_index(s.skip(1), a)
    }
}

/// A list without the first occurrence of an address.
pub open spec fn without_member(s: Seq<Address>, a: Address) -> Seq<Address> {
    if s.contains(a) {
        s.remove(address_index(s, a))
    } else {
        s
    }
}

proof fn lemma_address_index(s: Seq<Address>, a: Address, i: int)
    requires
        0 <= i < s.len(),
        s[i] == a,
        forall|j: int| 0 <= j < i ==> s[j] != a,
    ensures
        address_index(s, a) == i,
    decreases s.len(),
{
    if i > 0 {
        assert(s[0] != a);
        assert forall|j: int| 0 <= j < i - 1 implies s.skip(1)[j] != a by {
            assert(s.skip(1)[j] == s[j + 1]);
        }
        lemma_address_index(s.skip(1), a, i - 1);
    }
}

/// Takes the first occurrence of an address out of a list.
pub(crate) fn remove_address(v: &mut Vec<Address>, a: Address)
    ensures
        final(v)@ == without_member(old(v)@, a),
{
    let mut i: usize = 0;
    while i < v.len()
        invariant
            i <= v@.len(),
            v@ == old(v)@,
            forall|j: int| 0 <= j < i ==> v@[j] != a,
        decreases v@.len() - i,
    {
        if v[i] == a {
            proof {
                lemma_address_index(v@, a, i as int);
                assert(v@.contains(a));
            }
            v.remove(i);
            return;
        }
        i += 1;
    }
}

/// What removing a signer does.
pub open spec fn signer_removed(s: GovernanceState, admin: Address, signer: Address) -> Result<
    (GovernanceState, Symbol),
    TreasuryError,
> {
    if !s.is_admin(admin) {
        Err(TreasuryError::NotASigner)
    } else {
        Ok(
            (
                GovernanceState {
                    treasury_signers: without_member(s.treasury_signers, signer),
                    ..s
                },
                sym("ok"@),
            ),
        )
    }
}

/// Remove a treasury signer. Admin-only.
pub fn remove_signer(env: &mut GovernanceEnv, admin: Address, signer: Address) -> (r: Result<
    Symbol,
    TreasuryError,
>)
    requires
        old(env)@.authorized(admin),
    ensures
        effect(signer_removed(old(env)@, admin, signer), r, old(env)@, final(env)@),
{
    if !is_stored_admin(env, admin) {
        return Err(TreasuryError::NotASigner);
    }
    remove_address(&mut env.treasury_signers, signer);
    assert(env@ =~= signer_removed(old(env)@, admin, signer)->Ok_0.0);
    Ok(symbol_short("ok"))
}

/// Get all treasury signers.
pub fn get_signers(env: &GovernanceEnv) -> (r: Vec<Address>)
    ensures
        r@ == env@.treasury_signers,
{
    copy_vec(&env.treasury_signers)
}

} // verus!
