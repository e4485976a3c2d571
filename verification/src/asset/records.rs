//! Data types of the asset contract.

use vstd::prelude::*;

use crate::base::address::Address;
use crate::base::symbol::Symbol;

verus! {

/// Fixed-point scale factor (1e18) for price representation.
pub const SCALE: i128 = 1_000_000_000_000_000_000;

/// Maximum number of assets per portfolio.
pub const MAX_ASSETS_PER_PORTFOLIO: u32 = 64;

/// Maximum asset name length in characters.
pub const MAX_NAME_LENGTH: u32 = 64;

/// Maximum contract address length.
pub const MAX_ADDRESS_LENGTH: u32 = 64;

/// Type of asset in the portfolio.
#[derive(Clone, Copy, Debug, PartialEq, Eq, Structural)]
pub enum AssetType {
    /// A fungible token (e.g., XLM, USDC).
    Token,
    /// A derivative instrument (e.g., options, futures).
    Derivative,
}

impl AssetType {
    /// Validate that the asset type is supported. All of them are.
    pub fn is_valid(&self) -> (b: bool)
        ensures
            b,
    {
        match self {
            AssetType::Token => true,
            AssetType::Derivative => true,
        }
    }
}

/// Risk level classification for an asset.
#[derive(Clone, Copy, Debug, PartialEq, Eq, PartialOrd, Ord, Structural)]
pub enum RiskLevel {
    /// Low risk (e.g., stablecoins, government bonds).
    Low,
    /// Medium risk (e.g., established cryptocurrencies).
    Medium,
    /// High risk (e.g., altcoins, DeFi tokens).
    High,
    /// Very high risk (e.g., new tokens, leveraged products).
    VeryHigh,
}

/// An asset held in a portfolio.
///
/// Tracks the asset's identity, type, contract address, balance, and metadata.
#[derive(Clone, Copy, Debug, PartialEq, Eq, Structural)]
pub struct Asset {
    /// Unique asset symbol (e.g., "XLM", "USDC").
    pub symbol: Symbol,
    /// Type of asset (Token or Derivative).
    pub asset_type: AssetType,
    /// On-chain contract address for the asset.
    pub contract_address: Address,
    /// Current balance held in the portfolio (in base units).
    pub balance: i128,
    /// Human-readable asset name.
    pub name: Symbol,
    /// Number of decimal places for the asset.
    pub decimals: u32,
    /// Risk level classification.
    pub risk_level: RiskLevel,
    /// Whether the asset is currently active.
    pub is_active: bool,
}

impl View for Asset {
    type V = Asset;

    open spec fn view(&self) -> Asset {
        *self
    }
}

/// Price data for an asset.
#[derive(Clone, Copy, Debug, PartialEq, Eq, Structural)]
pub struct AssetPrice {
    /// The asset symbol.
    pub symbol: Symbol,
    /// Current price in fixed-point (SCALE = 1.0).
    pub price: i128,
    /// Unix timestamp when the price was last updated.
    pub updated_at: u64,
    /// Price source identifier (e.g., "oracle", "manual").
    pub source: Symbol,
}

impl View for AssetPrice {
    type V = AssetPrice;

    open spec fn view(&self) -> AssetPrice {
        *self
    }
}

/// Summary information about a portfolio's assets.
#[derive(Clone, Copy, Debug, PartialEq, Eq, Structural)]
pub struct PortfolioSummary {
    /// Portfolio identifier.
    pub portfolio_id: Symbol,
    /// Total number of assets in the portfolio.
    pub asset_count: u32,
    /// Total value of all assets (sum of balance * price).
    pub total_value: i128,
    /// Number of active assets.
    pub active_asset_count: u32,
}

impl View for PortfolioSummary {
    type V = PortfolioSummary;

    open spec fn view(&self) -> PortfolioSummary {
        *self
    }
}

/// Errors returned by the Asset Management contract.
#[derive(Clone, Copy, Debug, PartialEq, Eq, Structural)]
pub enum AssetError {
    /// Contract has already been initialized.
    AlreadyInitialized,
    /// Caller is not the admin.
    Unauthorized,
    /// Invalid asset type.
    InvalidAssetType,
    /// Invalid asset symbol (empty or too long).
    InvalidSymbol,
    /// Invalid asset name (empty or too long).
    InvalidName,
    /// Asset already exists in the portfolio.
    AssetAlreadyExists,
    /// Asset not found in the portfolio.
    AssetNotFound,
    /// Cannot remove asset with non-zero balance.
    NonZeroBalance,
    /// Portfolio has reached maximum asset limit.
    MaxAssetsReached,
    /// Invalid contract address.
    InvalidContractAddress,
    /// Invalid decimals value.
    InvalidDecimals,
    /// Invalid balance value.
    InvalidBalance,
    /// Invalid price value.
    InvalidPrice,
    /// Portfolio not found.
    PortfolioNotFound,
    /// Asset is inactive.
    AssetInactive,
}

impl AssetError {
    /// The number by which a caller outside knows the value.
    pub open spec fn spec_code(self) -> u32 {
        match self {
            AssetError::AlreadyInitialized => 1,
            AssetError::Unauthorized => 2,
            AssetError::InvalidAssetType => 3,
            AssetError::InvalidSymbol => 4,
            AssetError::InvalidName => 5,
            AssetError::AssetAlreadyExists => 6,
            AssetError::AssetNotFound => 7,
            AssetError::NonZeroBalance => 8,
            AssetError::MaxAssetsReached => 9,
            AssetError::InvalidContractAddress => 10,
            AssetError::InvalidDecimals => 11,
            AssetError::InvalidBalance => 12,
            AssetError::InvalidPrice => 13,
            AssetError::PortfolioNotFound => 14,
            AssetError::AssetInactive => 15,
        }
    }

    /// The number by which a caller outside knows the value.
    pub fn code(self) -> (n: u32)
        ensures
            n == self.spec_code(),
    {
        match self {
            AssetError::AlreadyInitialized => 1,
            AssetError::Unauthorized => 2,
            AssetError::InvalidAssetType => 3,
            AssetError::InvalidSymbol => 4,
            AssetError::InvalidName => 5,
            AssetError::AssetAlreadyExists => 6,
            AssetError::AssetNotFound => 7,
            AssetError::NonZeroBalance => 8,
            AssetError::MaxAssetsReached => 9,
            AssetError::InvalidContractAddress => 10,
            AssetError::InvalidDecimals => 11,
            AssetError::InvalidBalance => 12,
            AssetError::InvalidPrice => 13,
            AssetError::PortfolioNotFound => 14,
            AssetError::AssetInactive => 15,
        }
    }
}

} // verus!
