//! The records the engine keeps: positions, markers, receipts, collateral
//! tables and protocol parameters.

use vstd::prelude::*;
use crate::decimal::Decimal;

verus! {

/// A resource a bucket of tokens can hold.
#[derive(Clone, Copy, Debug, PartialEq, Eq, Structural)]
pub enum Resource {
    /// The stablecoin itself.
    Stab,
    /// A parent collateral, by its index in the collateral table.
    Collateral(usize),
    /// A pool-unit collateral, by its index in the pool-unit table.
    PoolUnit(usize),
    /// Any resource the engine does not know.
    Other(u64),
}

/// An amount of one resource handed to or returned by the engine.
#[derive(Clone, Copy, Debug, PartialEq, Eq, Structural)]
pub struct Bucket {
    pub resource: Resource,
    pub amount: Decimal,
}

/// Status of a position.
#[derive(Clone, Copy, Debug, PartialEq, Eq, Structural)]
pub enum CdpStatus {
    Healthy,
    Marked,
    Liquidated,
    ForceLiquidated,
    Closed,
}

/// What a marking did to a position.
#[derive(Clone, Copy, Debug, PartialEq, Eq, Structural)]
pub enum CdpUpdate {
    Marked,
    Saved,
}

/// A collateralized debt position.
#[derive(Clone, Copy, Debug, PartialEq, Eq, Structural)]
pub struct Cdp {
    /// The resource locked in the position.
    pub collateral: Resource,
    /// Index of the parent collateral in the collateral table.
    pub parent: usize,
    pub is_pool_unit: bool,
    /// Amount of `collateral` held.
    pub collateral_amount: Decimal,
    /// Debt in STAB.
    pub minted_stab: Decimal,
    /// Real (parent) collateral per unit of debt, as last evaluated.
    pub collateral_stab_ratio: Decimal,
    pub status: CdpStatus,
    /// Id of the marker that last marked this position, 0 if none.
    pub marker_id: usize,
}

/// A record attesting a mark or a save.
#[derive(Clone, Copy, Debug, PartialEq, Eq, Structural)]
pub struct CdpMarker {
    pub mark_type: CdpUpdate,
    /// Seconds since the epoch.
    pub time_marked: u64,
    pub marked_id: usize,
    /// Key of the mark in the queue of marked positions.
    pub marker_placing: u64,
    pub used: bool,
}

/// Audit record of a liquidation.
#[derive(Clone, Copy, Debug, PartialEq, Eq, Structural)]
pub struct LiquidationReceipt {
    pub collateral: Resource,
    pub stab_paid: Decimal,
    pub percentage_owed: Decimal,
    pub percentage_received: Decimal,
    pub cdp_liquidated: usize,
    pub date_liquidated: u64,
}

/// An accepted parent collateral.
#[derive(Clone, Copy, Debug, PartialEq, Eq, Structural)]
pub struct CollateralInfo {
    /// The ledger address it was registered under.
    pub address: u64,
    pub mcr: Decimal,
    pub usd_price: Decimal,
    /// `mcr * (internal price / usd_price)`.
    pub liquidation_collateral_ratio: Decimal,
    pub accepted: bool,
    pub max_stab_share: Decimal,
    pub minted_stab: Decimal,
    /// Collateral held as protocol fees.
    pub treasury: Decimal,
    /// Whether a position has ever been opened against this collateral.
    pub initialized: bool,
    /// The highest ratio ever indexed for this collateral.
    pub highest_cr: Decimal,
}

/// A pool-unit collateral, redeemable for its parent at a varying rate.
#[derive(Clone, Copy, Debug, PartialEq, Eq, Structural)]
pub struct PoolUnitInfo {
    /// The ledger address it was registered under.
    pub address: u64,
    pub parent: usize,
    /// Validator stake unit (true) or resource-pool unit (false).
    pub lsu: bool,
    /// Parent collateral one pool unit redeems for, as last reported.
    pub redemption_rate: Decimal,
    pub accepted: bool,
    pub max_pool_share: Decimal,
    pub minted_stab: Decimal,
    pub treasury: Decimal,
}

/// Tunable protocol parameters.
#[derive(Clone, Copy, Debug, PartialEq, Eq, Structural)]
pub struct ProtocolParameters {
    pub minimum_mint: Decimal,
    pub max_vector_length: u64,
    /// Minutes between a mark and a liquidation by the marker.
    pub liquidation_delay: u64,
    /// Extra minutes before anyone may liquidate.
    pub unmarked_delay: u64,
    /// The liquidator's fine, as a fraction.
    pub liquidation_liquidation_fine: Decimal,
    /// The protocol's fine, as a fraction.
    pub stabilis_liquidation_fine: Decimal,
    pub stop_liquidations: bool,
    pub stop_openings: bool,
    pub stop_closings: bool,
    pub stop_force_mint: bool,
    pub stop_force_liquidate: bool,
    pub force_mint_cr_multiplier: Decimal,
}

/// Why an engine operation was refused. A refused operation changes nothing.
#[derive(Clone, Copy, Debug, PartialEq, Eq, Structural)]
pub enum EngineError {
    NotAccepted,
    BelowMinimumMint,
    OperationDisabled,
    InsufficientCollateral,
    InsufficientPayment,
    WrongResource,
    NotHealthy,
    NotMarked,
    MarkNotEligible,
    NoLoans,
    SkipOutOfRange,
    CrWindowFull,
    ShareCapExceeded,
    ForceLiquidateMarkable,
    TooEarly,
    ReceiptNotBurnable,
    NotLiquidated,
    /// The address is already registered.
    AlreadyAccepted,
    NoLeftover,
    MarkerAlreadyUsed,
    MarkerWrongType,
    UnknownCdp,
    UnknownMarker,
    NoSuitableCdp,
    /// A price is not newer than the one already recorded.
    OracleStale,
    /// A quantity left the range of `Decimal`, or a divisor was zero.
    Overflow,
}

} // verus!
