//! A collateralized-debt-position engine for a variable-peg stablecoin,
//! with a PID-style controller that retargets the coin's internal price.
//!
//! - `decimal`: fixed-point numbers with 18 fractional digits.
//! - `types`: positions, markers, receipts, collateral tables, errors.
//! - `cr_index`: the ordered index of collateralization ratios.
//! - `state`: the engine's state, its invariant, and the lemmas that carry it.
//! - `engine`, `adjust`, `liquidate`, `force`, `admin`: the operations.
//! - `liquidation`: how a liquidated position's collateral is split.
//! - `controller`: the peg controller's window of price errors and rate.
//! - `pool`: constant-product pricing of the STAB pool, update rewards.
//! - `proxy`: the forwarder owning engine and controller.
//! - `laws`: properties relating several operations.

pub mod decimal;
pub mod types;
pub mod cr_index;
pub mod state;
pub mod engine;
pub mod adjust;
pub mod liquidation;
pub mod liquidate;
pub mod force;
pub mod admin;
pub mod controller;
pub mod pool;
pub mod proxy;
pub mod laws;
