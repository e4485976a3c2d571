//! What holds of fee management after any sequence of calls.

use vstd::prelude::*;

use crate::base::address::Address;
use crate::base::symbol::Symbol;
use crate::base::vecs::capped_lists_stay_capped;
use crate::fee::contract::{
    can_collect, collected, collection_quote, initialized, portfolio_fee_set, record_of,
    recipients_set, structure_changed, structure_set, waiver_for, waiver_set, waivers_without,
};
use crate::fee::laws::{
    collecting_keeps_the_totals_in_step, discounts_in_range, one_waiver_per_target,
    removing_a_waiver_removes_it, setting_a_waiver_replaces, totals_agree,
    waivers_stay_within_the_limit,
};
use crate::fee::records::{FeeError, FeeStructureView, FeeWaiver, RevenueRecipient, MAX_HISTORY};
use crate::fee::state::FeeState;

verus! {

/// A call that can change the contract, or time passing.
pub enum Call {
    Wait { until: u64 },
    Initialize { admin: Address },
    TransferAdmin { admin: Address },
    SetStructure { structure: FeeStructureView },
    SetActive { fee_id: Symbol, active: bool },
    SetCap { fee_id: Symbol, cap: Option<i128> },
    SetPortfolioFee { portfolio_id: Symbol, fee_id: Symbol },
    RemovePortfolioFee { portfolio_id: Symbol },
    Collect { caller: Address, fee_id: Symbol, portfolio_id: Symbol, amount: i128 },
    SetWaiver {
        address: Option<Address>,
        portfolio: Option<Symbol>,
        discount_bps: i128,
        waived: bool,
        label: Option<Symbol>,
        expires_at: u64,
    },
    RemoveWaiver { address: Option<Address>, portfolio: Option<Symbol> },
    SetRecipients { recipients: Seq<RevenueRecipient> },
}

/// The state after a call, which is the state before it where the call was refused.
pub open spec fn settle<T>(s: FeeState, r: Result<(FeeState, T), FeeError>) -> FeeState {
    match r {
        Ok((t, _)) => t,
        Err(_) => s,
    }
}

/// The target of a waiver that is to be removed.
pub open spec fn target_for(
    s: FeeState,
    address: Option<Address>,
    portfolio_id: Option<Symbol>,
) -> FeeWaiver {
    waiver_for(s.admin->Some_0, address, portfolio_id, 0, false, None, 0)
}

/// The state after one call.
pub open spec fn step(s: FeeState, call: Call) -> FeeState {
    match call {
        Call::Wait { until } => FeeState { timestamp: until, ..s },
        Call::Initialize { admin } => settle(s, initialized(s, admin)),
        Call::TransferAdmin { admin } => FeeState { admin: Some(admin), ..s },
        Call::SetStructure { structure } => settle(s, structure_set(s, structure)),
        Call::SetActive { fee_id, active } => settle(
            s,
            structure_changed(
                s,
                fee_id,
                |fs: FeeStructureView| FeeStructureView { active, ..fs },
            ),
        ),
        Call::SetCap { fee_id, cap } => settle(
            s,
            structure_changed(
                s,
                fee_id,
                |fs: FeeStructureView| FeeStructureView { fee_cap: cap, ..fs },
            ),
        ),
        Call::SetPortfolioFee { portfolio_id, fee_id } => settle(
            s,
            portfolio_fee_set(s, portfolio_id, fee_id),
        ),
        Call::RemovePortfolioFee { portfolio_id } => FeeState {
            portfolio_fees: s.portfolio_fees.remove(portfolio_id),
            ..s
        },
        Call::Collect { caller, fee_id, portfolio_id, amount } => settle(
            s,
            collected(s, caller, fee_id, portfolio_id, amount),
        ),
        Call::SetWaiver { address, portfolio, discount_bps, waived, label, expires_at } => settle(
            s,
            waiver_set(
                s,
                waiver_for(
                    s.admin->Some_0,
                    address,
                    portfolio,
                    discount_bps,
                    waived,
                    label,
                    expires_at,
                ),
            ),
        ),
        Call::RemoveWaiver { address, portfolio } => FeeState {
            waivers: waivers_without(
                s.waivers,
                target_for(s, address, portfolio),
                s.waivers.len() as int,
            ),
            ..s
        },
        Call::SetRecipients { recipients } => settle(s, recipients_set(s, recipients)),
    }
}

/// A fee that is collected can be added to the totals.
pub open spec fn within_limits(s: FeeState, call: Call) -> bool {
    call matches Call::Collect { caller, fee_id, portfolio_id, amount } ==> can_collect(
        s,
        caller,
        fee_id,
        portfolio_id,
        amount,
    )
}

/// The state after a sequence of calls.
pub open spec fn run(s: FeeState, calls: Seq<Call>) -> FeeState
    decreases calls.len(),
{
    if calls.len() == 0 {
        s
    } else {
        step(run(s, calls.drop_last()), calls.last())
    }
}

/// Every call of the sequence is within the limits when its turn comes.
pub open spec fn all_within_limits(s: FeeState, calls: Seq<Call>) -> bool
    decreases calls.len(),
{
    calls.len() > 0 ==> all_within_limits(s, calls.drop_last()) && within_limits(
        run(s, calls.drop_last()),
        calls.last(),
    )
}

/// What every call keeps: lists stay within their limits, no two waivers are
/// for the same target, every discount is in range, and the totals agree.
pub open spec fn is_sound(s: FeeState) -> bool {
    &&& s.wf()
    &&& one_waiver_per_target(s.waivers)
    &&& discounts_in_range(s.waivers)
    &&& totals_agree(s)
}

/// One call keeps a state sound.
pub proof fn calls_keep_the_state_sound(s: FeeState, call: Call)
    requires
        is_sound(s),
        within_limits(s, call),
    ensures
        is_sound(step(s, call)),
{
    match call {
        Call::SetWaiver { address, portfolio, discount_bps, waived, label, expires_at } => {
            let w = waiver_for(
                s.admin->Some_0,
                address,
                portfolio,
                discount_bps,
                waived,
                label,
                expires_at,
            );
            waivers_stay_within_the_limit(s, w, w);
            if waiver_set(s, w) is Ok {
                setting_a_waiver_replaces(s, w);
            }
        },
        Call::RemoveWaiver { address, portfolio } => {
            let target = target_for(s, address, portfolio);
            waivers_stay_within_the_limit(s, target, target);
            removing_a_waiver_removes_it(s.waivers, target);
        },
        Call::Collect { caller, fee_id, portfolio_id, amount } => {
            if collected(s, caller, fee_id, portfolio_id, amount) is Ok {
                collecting_keeps_the_totals_in_step(s, caller, fee_id, portfolio_id, amount);
                let q = collection_quote(s, caller, fee_id, portfolio_id, amount)->Ok_0;
                capped_lists_stay_capped(
                    s.history,
                    record_of(s, caller, portfolio_id, q),
                    MAX_HISTORY as nat,
                );
            }
        },
        _ => {},
    }
}

/// The state of a contract is sound after any sequence of calls.
pub proof fn every_history_is_sound(timestamp: u64, calls: Seq<Call>)
    requires
        all_within_limits(FeeState::fresh(timestamp), calls),
    ensures
        is_sound(run(FeeState::fresh(timestamp), calls)),
    decreases calls.len(),
{
    if calls.len() > 0 {
        every_history_is_sound(timestamp, calls.drop_last());
        calls_keep_the_state_sound(
            run(FeeState::fresh(timestamp), calls.drop_last()),
            calls.last(),
        );
    }
}

} // verus!
