//! Vortex: cross-chain intent settlement on Stellar.
//!
//! Three contracts, each a state with operations on it. An operation takes the
//! ledger context of its call, checks the request, changes the state, and
//! returns what the ledger is to carry out: token transfers, events, entry
//! extensions.
//!
//! - [`settlement`]: users submit swap intents, bonded solvers claim and fill
//!   them, and a solver that fails to fill is slashed.
//! - [`proof_registry`]: records of source-chain deposits.
//! - [`solver_registry`]: staked bonds, reputation, and the tiers they earn.
use vstd::prelude::*;

pub mod context;
pub mod encoding;
pub mod host;
pub mod proof_laws;
pub mod proof_registry;
pub mod reputation;
pub mod settlement;
pub mod solver_registry;
pub mod table;
pub mod tally;
pub mod types;

verus! {

} // verus!
