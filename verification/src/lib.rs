//! A small payments ledger: replays an ordered stream of transaction records
//! against per-client accounts, with a dispute lifecycle per accepted
//! deposit or withdrawal.
//!
//! Monetary amounts are fixed-point integers: a signed number of minor units,
//! ten-thousandths of the currency unit. Callers that read decimal input
//! convert at the boundary.

pub mod engine;
pub mod laws;
pub mod model;
pub mod record;
