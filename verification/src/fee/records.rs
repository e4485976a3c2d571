//! Data types of the fee contract.

use vstd::prelude::*;

use crate::base::address::Address;
use crate::base::symbol::{sym, Symbol};
use crate::base::table::TableKey;
use crate::base::vecs::copy_vec;

verus! {

/// Sentinel symbol representing "not set" / "any".
pub fn sym_empty() -> (s: Symbol)
    ensures
        s == sym(""@),
{
    Symbol::empty()
}

/// Basis-point denominator (100% = 10_000 bps).
pub const BPS_DENOM: i128 = 10_000;

/// Maximum number of fee records retained in the history.
pub const MAX_HISTORY: u32 = 200;

/// Maximum number of revenue distribution recipients.
pub const MAX_RECIPIENTS: u32 = 20;

/// Maximum number of fee waivers.
pub const MAX_WAIVERS: u32 = 50;

/// Maximum number of fee categories that can be tracked simultaneously.
pub const MAX_CATEGORIES: u32 = 16;

/// Errors returned by the Fee Management contract.
#[derive(Clone, Copy, Debug, PartialEq, Eq, Structural)]
pub enum FeeError {
    FeeNotFound,
    FeeInactive,
    InvalidFeeConfiguration,
    ArithmeticOverflow,
    FeeWaiverNotFound,
    TooManyRecipients,
    AlreadyInitialized,
    Unauthorized,
    FeeCapExceeded,
    InvalidFeeCategory,
}

impl FeeError {
    /// The number by which a caller outside knows the value.
    pub open spec fn spec_code(self) -> u32 {
        match self {
            FeeError::FeeNotFound => 1,
            FeeError::FeeInactive => 2,
            FeeError::InvalidFeeConfiguration => 3,
            FeeError::ArithmeticOverflow => 4,
            FeeError::FeeWaiverNotFound => 5,
            FeeError::TooManyRecipients => 6,
            FeeError::AlreadyInitialized => 7,
            FeeError::Unauthorized => 8,
            FeeError::FeeCapExceeded => 9,
            FeeError::InvalidFeeCategory => 10,
        }
    }

    /// The number by which a caller outside knows the value.
    pub fn code(self) -> (n: u32)
        ensures
            n == self.spec_code(),
    {
        match self {
            FeeError::FeeNotFound => 1,
            FeeError::FeeInactive => 2,
            FeeError::InvalidFeeConfiguration => 3,
            FeeError::ArithmeticOverflow => 4,
            FeeError::FeeWaiverNotFound => 5,
            FeeError::TooManyRecipients => 6,
            FeeError::AlreadyInitialized => 7,
            FeeError::Unauthorized => 8,
            FeeError::FeeCapExceeded => 9,
            FeeError::InvalidFeeCategory => 10,
        }
    }
}

/// The mathematical model used to calculate a fee.
#[derive(Clone, Copy, Debug, PartialEq, Eq, Structural)]
pub enum FeeType {
    Flat,
    Percentage,
    Tiered,
}

/// High-level category for grouping and reporting fees.
#[derive(Clone, Copy, Debug, PartialEq, Eq, Structural)]
pub enum FeeCategory {
    Rebalancing,
    Yield,
    Management,
    Trading,
    Protocol,
    Custom,
}

impl FeeCategory {
    /// The name of the category in reports.
    pub open spec fn name(self) -> Seq<char> {
        match self {
            FeeCategory::Rebalancing => "rebalancing"@,
            FeeCategory::Yield => "yield"@,
            FeeCategory::Management => "management"@,
            FeeCategory::Trading => "trading"@,
            FeeCategory::Protocol => "protocol"@,
            FeeCategory::Custom => "custom"@,
        }
    }

    /// The name of the category in reports.
    pub fn label(&self) -> (s: &'static str)
        ensures
            s@ == self.name(),
    {
        match self {
            FeeCategory::Rebalancing => "rebalancing",
            FeeCategory::Yield => "yield",
            FeeCategory::Management => "management",
            FeeCategory::Trading => "trading",
            FeeCategory::Protocol => "protocol",
            FeeCategory::Custom => "custom",
        }
    }
}

impl TableKey for FeeCategory {
    fn same(&self, other: &FeeCategory) -> (b: bool) {
        *self == *other
    }
}

/// A single tier in a [`FeeType::Tiered`] fee structure.
#[derive(Clone, Copy, Debug, PartialEq, Eq, Structural)]
pub struct TierEntry {
    pub threshold: i128,
    pub fee_bps: i128,
}

impl View for TierEntry {
    type V = TierEntry;

    open spec fn view(&self) -> TierEntry {
        *self
    }
}

/// Complete definition of a fee model.
#[derive(Clone, Debug, PartialEq, Eq)]
pub struct FeeStructure {
    pub fee_id: Symbol,
    pub fee_type: FeeType,
    /// For `Flat`: the fixed amount.  For `Percentage`: rate in bps.
    pub amount_bps: i128,
    pub tiered_entries: Vec<TierEntry>,
    pub category: FeeCategory,
    pub active: bool,
    /// Optional maximum fee cap in base units.  `None` means no cap.
    pub fee_cap: Option<i128>,
}

/// What a `FeeStructure` holds, with its lists as sequences.
#[verifier::ext_equal]
pub struct FeeStructureView {
    pub fee_id: Symbol,
    pub fee_type: FeeType,
    pub amount_bps: i128,
    pub tiered_entries: Seq<TierEntry>,
    pub category: FeeCategory,
    pub active: bool,
    pub fee_cap: Option<i128>,
}

impl View for FeeStructure {
    type V = FeeStructureView;

    open spec fn view(&self) -> FeeStructureView {
        FeeStructureView {
            fee_id: self.fee_id,
            fee_type: self.fee_type,
            amount_bps: self.amount_bps,
            tiered_entries: self.tiered_entries@,
            category: self.category,
            active: self.active,
            fee_cap: self.fee_cap,
        }
    }
}

impl FeeStructure {
    /// An equal value of its own.
    pub fn copy(&self) -> (r: FeeStructure)
        ensures
            r@ == self@,
    {
        FeeStructure {
            fee_id: self.fee_id,
            fee_type: self.fee_type,
            amount_bps: self.amount_bps,
            tiered_entries: copy_vec(&self.tiered_entries),
            category: self.category,
            active: self.active,
            fee_cap: self.fee_cap,
        }
    }
}

/// A revenue recipient with their proportional share.
#[derive(Clone, Copy, Debug, PartialEq, Eq, Structural)]
pub struct RevenueRecipient {
    /// Wallet address that receives revenue.
    pub address: Address,
    /// Numerator of the recipient's share (denominator is the sum of all).
    pub share_numerator: u32,
    /// Optional label — use [`sym_empty`] for "no label".
    pub label: Symbol,
}

impl View for RevenueRecipient {
    type V = RevenueRecipient;

    open spec fn view(&self) -> RevenueRecipient {
        *self
    }
}

/// An immutable record of a single fee collection event.
#[derive(Clone, Copy, Debug, PartialEq, Eq, Structural)]
pub struct FeeRecord {
    pub fee_id: Symbol,
    pub category: FeeCategory,
    pub portfolio_id: Symbol,
    pub base_amount: i128,
    pub fee_amount: i128,
    pub discount_bps: i128,
    pub waived: bool,
    pub timestamp: u64,
    pub collector: Address,
}

impl View for FeeRecord {
    type V = FeeRecord;

    open spec fn view(&self) -> FeeRecord {
        *self
    }
}

/// A waiver or discount rule that can be applied during fee collection.
///
/// The fields `address` and `portfolio_id` are always present, but
/// `has_address` / `has_portfolio` control whether they participate in
/// matching.
#[derive(Clone, Copy, Debug, PartialEq, Eq, Structural)]
pub struct FeeWaiver {
    /// The address this waiver applies to (ignored when `has_address == false`).
    pub address: Address,
    /// Whether address-based matching is active.
    pub has_address: bool,
    /// The portfolio this waiver applies to (ignored when `has_portfolio == false`).
    pub portfolio_id: Symbol,
    /// Whether portfolio-based matching is active.
    pub has_portfolio: bool,
    /// Discount in basis points (0 = no discount, 10_000 = full waiver).
    pub discount_bps: i128,
    /// If true, the fee is completely waived regardless of `discount_bps`.
    pub waived: bool,
    /// Optional label — use [`sym_empty`] for "no label".
    pub label: Symbol,
    /// Expiry timestamp (0 = never expires).
    pub expires_at: u64,
}

impl View for FeeWaiver {
    type V = FeeWaiver;

    open spec fn view(&self) -> FeeWaiver {
        *self
    }
}

/// The result of a fee calculation (read-only, does not mutate storage).
#[derive(Clone, Copy, Debug, PartialEq, Eq, Structural)]
pub struct FeeCalculationResult {
    pub fee_id: Symbol,
    pub category: FeeCategory,
    pub gross_amount: i128,
    pub raw_fee: i128,
    pub discount_bps: i128,
    pub fee_cap: Option<i128>,
    pub fee_amount: i128,
    pub waived: bool,
}

impl View for FeeCalculationResult {
    type V = FeeCalculationResult;

    open spec fn view(&self) -> FeeCalculationResult {
        *self
    }
}

/// Aggregated fee summary for a reporting period.
#[derive(Clone, Debug, PartialEq, Eq)]
pub struct FeeSummary {
    pub total_collected: i128,
    pub total_events: u32,
    pub by_category: Vec<(FeeCategory, i128)>,
    pub by_portfolio: Vec<(Symbol, i128)>,
    pub total_discounts: i128,
    pub waived_count: u32,
}

/// What a `FeeSummary` holds, with its lists as sequences.
#[verifier::ext_equal]
pub struct FeeSummaryView {
    pub total_collected: i128,
    pub total_events: u32,
    pub by_category: Seq<(FeeCategory, i128)>,
    pub by_portfolio: Seq<(Symbol, i128)>,
    pub total_discounts: i128,
    pub waived_count: u32,
}

impl View for FeeSummary {
    type V = FeeSummaryView;

    open spec fn view(&self) -> FeeSummaryView {
        FeeSummaryView {
            total_collected: self.total_collected,
            total_events: self.total_events,
            by_category: self.by_category@,
            by_portfolio: self.by_portfolio@,
            total_discounts: self.total_discounts,
            waived_count: self.waived_count,
        }
    }
}

impl FeeSummary {
    /// An equal value of its own.
    pub fn copy(&self) -> (r: FeeSummary)
        ensures
            r@ == self@,
    {
        FeeSummary {
            total_collected: self.total_collected,
            total_events: self.total_events,
            by_category: copy_vec(&self.by_category),
            by_portfolio: copy_vec(&self.by_portfolio),
            total_discounts: self.total_discounts,
            waived_count: self.waived_count,
        }
    }
}

/// Per-portfolio fee breakdown.
#[derive(Clone, Debug, PartialEq, Eq)]
pub struct PortfolioFeeReport {
    pub portfolio_id: Symbol,
    pub total_fees: i128,
    pub event_count: u32,
    pub by_category: Vec<(FeeCategory, i128)>,
    /// The fee structure currently assigned — [`sym_empty`] if none.
    pub assigned_fee_id: Symbol,
}

/// What a `PortfolioFeeReport` holds, with its lists as sequences.
#[verifier::ext_equal]
pub struct PortfolioFeeReportView {
    pub portfolio_id: Symbol,
    pub total_fees: i128,
    pub event_count: u32,
    pub by_category: Seq<(FeeCategory, i128)>,
    pub assigned_fee_id: Symbol,
}

impl View for PortfolioFeeReport {
    type V = PortfolioFeeReportView;

    open spec fn view(&self) -> PortfolioFeeReportView {
        PortfolioFeeReportView {
            portfolio_id: self.portfolio_id,
            total_fees: self.total_fees,
            event_count: self.event_count,
            by_category: self.by_category@,
            assigned_fee_id: self.assigned_fee_id,
        }
    }
}

impl PortfolioFeeReport {
    /// An equal value of its own.
    pub fn copy(&self) -> (r: PortfolioFeeReport)
        ensures
            r@ == self@,
    {
        PortfolioFeeReport {
            portfolio_id: self.portfolio_id,
            total_fees: self.total_fees,
            event_count: self.event_count,
            by_category: copy_vec(&self.by_category),
            assigned_fee_id: self.assigned_fee_id,
        }
    }
}

} // verus!
