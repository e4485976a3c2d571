//! Plain-value building blocks that every contract shares.

pub mod address;
pub mod arith;
pub mod bytes;
pub mod effect;
pub mod sums;
pub mod symbol;
pub mod table;
pub mod vecs;
