//! Trading decision engine: signal generators, weighted consensus, execution
//! gating and performance-fee accounting.
//!
//! Every price, balance, fraction, percentage, rate and weight is a
//! fixed-point integer in units of `1 / fixed::SCALE` (eight decimals), so
//! each rule is stated and proved exactly over integers.
pub mod balance;
pub mod cex;
pub mod coin;
pub mod config;
pub mod cycle;
pub mod decimal;
pub mod executor;
pub mod fear_greed;
pub mod fee;
pub mod fixed;
pub mod logger;
pub mod order;
pub mod signal;
pub mod strategy;
