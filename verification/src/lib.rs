//! Accounting engine for a two-pool decentralized exchange: a constant-product
//! automated market maker and a discretized-liquidity market maker that splits
//! the price space into fixed-width bins.
//!
//! The crate holds the pricing, liquidity and fee mathematics only. Token
//! custody, signature checks and account bookkeeping are the host's business:
//! every function here consumes validated numeric inputs and returns computed
//! settlement amounts and mutated pool, bin and position records.

pub mod amm;
pub mod arith;
pub mod constants;
pub mod dlmm;
pub mod errors;
