//! Fees: structures, collection, waivers, revenue shares and reports.

pub mod records;
pub mod engine;
pub mod reporting;
pub mod state;
pub mod contract;
pub mod numbers;
pub mod laws;
pub mod consequences;
pub mod waiving;
pub mod history;
