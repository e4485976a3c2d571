//! Assets of portfolios: their lifecycle, prices and values.

pub mod records;
pub mod state;
pub mod contract;
pub mod numbers;
pub mod laws;
pub mod consequences;
pub mod history;
