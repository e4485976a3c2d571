//! Append-only audit log with a SHA-256 chain hash, filtered queries,
//! retention, and JSON and CSV export.

pub mod hashing;
pub mod records;
pub mod permissions;
pub mod checksum;
pub mod log_query;
pub mod state;
pub mod contract;
pub mod signing;
pub mod export;
pub mod logger;
pub mod numbers;
pub mod laws;
pub mod consequences;
pub mod reading;
pub mod history;
