//! Emergency controls: pause, circuit breaker, emergency withdrawals, safe
//! mode, rate limits, notifications and an incident log.

pub mod records;
pub mod state;
pub mod contract;
pub mod numbers;
pub mod laws;
pub mod consequences;
pub mod recording;
