//! The solver registry: staked bonds, reputation, and the tiers they earn.
use vstd::prelude::*;

pub mod laws;
pub mod limits;
pub mod outcomes;
pub mod registry;
pub mod rules;
pub mod tiers;
pub mod types;

pub use registry::SolverRegistry;
pub use types::{Effect, Error, SolverRecord, Threshold, TierInfo, MAX_TIER, USDC};

verus! {

} // verus!
