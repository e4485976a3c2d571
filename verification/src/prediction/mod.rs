//! Binary and multi-outcome prediction markets: a constant product market
//! maker, an order book, oracle resolution with disputes, and settlement.

pub mod types;
pub mod cpmm;
pub mod state;
pub mod orderbook;
pub mod oracle;
pub mod settlement;
pub mod contract;
pub mod numbers;
pub mod laws;
pub mod consequences;
pub mod funding;
pub mod ending;
pub mod matching;
pub mod refusing;
pub mod history;
