//! Simulated (paper) trading engine: fee and PnL arithmetic, the registry of
//! open positions, trigger evaluation on price ticks, and the open/close
//! lifecycle, all over fixed-point integers.
pub mod constants;
pub mod models;
pub mod trade_helpers;
pub mod trigger;
pub mod registry;
pub mod ticker;
pub mod lifecycle;
pub mod api;
