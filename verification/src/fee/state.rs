//! Storage and ledger data of the fee contract.

use vstd::prelude::*;

use crate::base::address::Address;
use crate::base::symbol::Symbol;
use crate::base::table::Table;
use crate::base::vecs::has_address;
use crate::fee::records::{
    FeeCategory, FeeRecord, FeeStructure, FeeStructureView, FeeWaiver, RevenueRecipient,
    MAX_HISTORY, MAX_RECIPIENTS, MAX_WAIVERS,
};

verus! {

/// The storage of the contract and the ledger around one call.
#[derive(Debug)]
pub struct FeeEnv {
    /// Ledger time in seconds.
    pub timestamp: u64,
    /// Addresses that authorised the call.
    pub auths: Vec<Address>,
    /// Admin address set during `initialize`.
    pub admin: Option<Address>,
    /// Fee structures by ID.
    pub structures: Table<Symbol, FeeStructure>,
    /// All fee IDs, oldest first.
    pub fee_ids: Vec<Symbol>,
    /// Fee ID assigned to a portfolio.
    pub portfolio_fees: Table<Symbol, Symbol>,
    /// Collected fees, oldest first.
    pub history: Vec<FeeRecord>,
    /// Waivers, in the order of matching.
    pub waivers: Vec<FeeWaiver>,
    /// Revenue recipients.
    pub recipients: Vec<RevenueRecipient>,
    /// Sum of all fees collected.
    pub total_collected: i128,
    /// Fees collected by category.
    pub category_totals: Table<FeeCategory, i128>,
    /// Fees collected by portfolio.
    pub portfolio_totals: Table<Symbol, i128>,
}

/// What a `FeeEnv` holds, with its tables as maps and its lists as sequences.
#[verifier::ext_equal]
pub struct FeeState {
    pub timestamp: u64,
    pub auths: Seq<Address>,
    pub admin: Option<Address>,
    pub structures: Map<Symbol, FeeStructureView>,
    pub fee_ids: Seq<Symbol>,
    pub portfolio_fees: Map<Symbol, Symbol>,
    pub history: Seq<FeeRecord>,
    pub waivers: Seq<FeeWaiver>,
    pub recipients: Seq<RevenueRecipient>,
    pub total_collected: i128,
    pub category_totals: Map<FeeCategory, i128>,
    pub portfolio_totals: Map<Symbol, i128>,
}

impl View for FeeEnv {
    type V = FeeState;

    open spec fn view(&self) -> FeeState {
        FeeState {
            timestamp: self.timestamp,
            auths: self.auths@,
            admin: self.admin,
            structures: self.structures@,
            fee_ids: self.fee_ids@,
            portfolio_fees: self.portfolio_fees@,
            history: self.history@,
            waivers: self.waivers@,
            recipients: self.recipients@,
            total_collected: self.total_collected,
            category_totals: self.category_totals@,
            portfolio_totals: self.portfolio_totals@,
        }
    }
}

impl FeeState {
    /// The state of a contract that was never called.
    pub open spec fn fresh(timestamp: u64) -> FeeState {
        FeeState {
            timestamp,
            auths: Seq::empty(),
            admin: None,
            structures: Map::empty(),
            fee_ids: Seq::empty(),
            portfolio_fees: Map::empty(),
            history: Seq::empty(),
            waivers: Seq::empty(),
            recipients: Seq::empty(),
            total_collected: 0,
            category_totals: Map::empty(),
            portfolio_totals: Map::empty(),
        }
    }

    /// The address authorised the call.
    pub open spec fn authorized(self, a: Address) -> bool {
        self.auths.contains(a)
    }

    /// The contract has an administrator, who authorised the call.
    pub open spec fn admin_signed(self) -> bool {
        self.admin is Some && self.authorized(self.admin->Some_0)
    }

    /// The history and the lists of recipients and waivers stay within their
    /// limits, and every fee structure stands under its own ID.
    pub open spec fn wf(self) -> bool {
        &&& self.history.len() <= MAX_HISTORY
        &&& self.recipients.len() <= MAX_RECIPIENTS
        &&& self.waivers.len() <= MAX_WAIVERS
        &&& forall|id: Symbol| #[trigger]
            self.structures.contains_key(id) ==> self.structures[id].fee_id == id
    }
}

impl FeeEnv {
    /// The storage of a contract that was never called.
    pub fn new(timestamp: u64) -> (env: FeeEnv)
        ensures
            env@ == FeeState::fresh(timestamp),
            env@.wf(),
    {
        let env = FeeEnv {
            timestamp,
            auths: Vec::new(),
            admin: None,
            structures: Table::new(),
            fee_ids: Vec::new(),
            portfolio_fees: Table::new(),
            history: Vec::new(),
            waivers: Vec::new(),
            recipients: Vec::new(),
            total_collected: 0,
            category_totals: Table::new(),
            portfolio_totals: Table::new(),
        };
        assert(env@ =~= FeeState::fresh(timestamp));
        env
    }

    /// Whether the address authorised the call.
    pub fn is_authorized(&self, a: Address) -> (b: bool)
        ensures
            b == self@.authorized(a),
    {
        has_address(&self.auths, a)
    }
}

} // verus!
