//! Constant-product automated market maker: swap pricing, liquidity-token
//! mint and burn arithmetic, lazy fee settlement and the time-weighted oracle.

pub mod laws;
pub mod math;
pub mod ops;
pub mod state;
