//! Price feed: oracle providers, validation, aggregation, caching and history.

pub mod records;
pub mod state;
pub mod oracle;
pub mod aggregation;
pub mod validation;
pub mod contract;
pub mod numbers;
pub mod laws;
pub mod consequences;
