//! Records, errors, events and effects of the solver registry.
use vstd::prelude::*;
use crate::types::Address;

verus! {

/// One USDC in its smallest unit.
pub const USDC: i128 = 10_000_000;

/// Highest tier: Platinum.
pub const MAX_TIER: u32 = 4;

/// Highest bond threshold that can be set: 1 000 000 USDC.
pub const MAX_MIN_BOND: i128 = 10_000_000_000_000;

/// Highest score threshold that can be set; no solver reaches 10 000.
pub const MAX_MIN_SCORE_BPS: u32 = 9_999;

/// What a solver needs for a tier.
#[derive(Clone, Copy, Debug, PartialEq, Eq, Structural)]
pub struct Threshold {
    pub min_bond: i128,
    pub min_score_bps: u32,
}

/// One row of the tier table: thresholds and perks.
#[derive(Clone, Copy, Debug, PartialEq, Eq, Structural)]
pub struct TierInfo {
    pub min_bond: i128,
    pub min_score_bps: u32,
    /// Extra fill window, in percent.
    pub fill_window_bonus_pct: u32,
    /// Part of the bond that a slash takes, in basis points.
    pub slash_bps: u32,
    /// Fee rebate; reserved.
    pub fee_rebate_bps: u32,
}

/// A registered solver.
#[derive(Clone, Copy, Debug)]
pub struct SolverRecord {
    pub address: Address,
    /// Staked bond.
    pub bond_amount: i128,
    pub fills_completed: u32,
    pub fills_failed: u32,
    /// Volume of all fills.
    pub total_volume: i128,
    pub registered_at: u64,
    /// When the solver was last slashed; 0 if never.
    pub last_slash_time: u64,
    /// What slashing has taken in all.
    pub slashed_total: i128,
}

/// A solver, as the contracts of this library speak of it.
#[verifier::ext_equal]
pub struct Solver {
    pub address: Address,
    pub bond_amount: int,
    pub fills_completed: int,
    pub fills_failed: int,
    pub total_volume: int,
    pub registered_at: u64,
    pub last_slash_time: u64,
    pub slashed_total: int,
}

impl View for SolverRecord {
    type V = Solver;

    open spec fn view(&self) -> Solver {
        Solver {
            address: self.address,
            bond_amount: self.bond_amount as int,
            fills_completed: self.fills_completed as int,
            fills_failed: self.fills_failed as int,
            total_volume: self.total_volume as int,
            registered_at: self.registered_at,
            last_slash_time: self.last_slash_time,
            slashed_total: self.slashed_total as int,
        }
    }
}

/// Why the registry refuses a call.
#[derive(Clone, Copy, Debug, PartialEq, Eq, Structural)]
pub enum Error {
    /// `initialize` on a registry that has an admin.
    AlreadyInitialized,
    /// The registry is not initialized.
    NotInitialized,
    /// The caller is neither the writer nor the admin.
    Unauthorized,
    /// No solver is registered under this address.
    SolverNotRegistered,
    /// A solver is registered under this address.
    SolverAlreadyRegistered,
    /// The bond is, or would be, below the floor of the lowest tier.
    BondBelowFloor,
    /// An amount that must be positive is not.
    ZeroAmount,
    /// A withdrawal above the bond.
    InsufficientBond,
    /// There is no such tier, or its threshold is fixed.
    InvalidTier,
    /// A threshold is outside its bounds.
    ThresholdOutOfBounds,
    /// A threshold is not strictly between those of the neighbouring tiers.
    ThresholdsNotMonotonic,
    /// No writer is set, and the caller is not the admin.
    WriterNotSet,
}

impl Error {
    /// The number under which clients see an error.
    pub open spec fn number(self) -> u32 {
        match self {
            Error::AlreadyInitialized => 1,
            Error::NotInitialized => 2,
            Error::Unauthorized => 3,
            Error::SolverNotRegistered => 4,
            Error::SolverAlreadyRegistered => 5,
            Error::BondBelowFloor => 6,
            Error::ZeroAmount => 7,
            Error::InsufficientBond => 8,
            Error::InvalidTier => 9,
            Error::ThresholdOutOfBounds => 10,
            Error::ThresholdsNotMonotonic => 11,
            Error::WriterNotSet => 12,
        }
    }

    /// The number under which clients see the error.
    pub fn code(self) -> (r: u32)
        ensures
            r == self.number(),
    {
        match self {
            Error::AlreadyInitialized => 1,
            Error::NotInitialized => 2,
            Error::Unauthorized => 3,
            Error::SolverNotRegistered => 4,
            Error::SolverAlreadyRegistered => 5,
            Error::BondBelowFloor => 6,
            Error::ZeroAmount => 7,
            Error::InsufficientBond => 8,
            Error::InvalidTier => 9,
            Error::ThresholdOutOfBounds => 10,
            Error::ThresholdsNotMonotonic => 11,
            Error::WriterNotSet => 12,
        }
    }
}

/// What a successful call asks of the ledger, beside the new registry state.
#[derive(Clone, Copy, Debug, PartialEq, Eq)]
pub enum Effect {
    /// Move `amount` of `token`.
    Transfer { token: Address, from: Address, to: Address, amount: i128 },
    /// Announce a solver's assigned tier.
    TierSet { solver: Address, tier: u32 },
}

} // verus!
