//! Discretized liquidity market maker: the bin price curve, multi-bin swap
//! routing, per-bin liquidity provisioning and withdrawal, position
//! migration and the dynamic fee controller.

pub mod admin;
pub mod math;
pub mod ops;
pub mod provision;
pub mod state;
