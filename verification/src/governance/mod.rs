//! Community governance: token-weighted voting, delegation, a timelock queue,
//! a multi-sig treasury, emergency controls and an audit trail.

pub mod records;
pub mod state;
pub mod timelock;
pub mod treasury;
pub mod contract;
pub mod numbers;
pub mod laws;
pub mod consequences;
pub mod recording;
pub mod history;
