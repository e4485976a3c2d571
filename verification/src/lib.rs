//! Verified core of the AstraPort portfolio contracts.

pub mod base;
pub mod prediction;
pub mod governance;
pub mod audit;
pub mod fee;
pub mod emergency;
pub mod asset;
pub mod pricefeed;
