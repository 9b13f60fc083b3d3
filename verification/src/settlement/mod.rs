//! The intent-settlement contract: users submit swap intents, bonded solvers
//! claim and fill them, and a solver that fails to fill is slashed.
use vstd::prelude::*;

pub mod admin;
pub mod admission;
pub mod allowlist;
pub mod calls;
pub mod consequences;
pub mod fees;
pub mod footprint;
pub mod governance_laws;
pub mod history;
pub mod intent_id;
pub mod intent_rules;
pub mod intents;
pub mod laws;
pub mod limits;
pub mod records;
pub mod solvers;
pub mod state;
pub mod terms;
pub mod token_format;
pub mod types;
pub mod views;

pub use state::IntentSettlement;
pub use types::{Effect, Error, Event, IntentRecord, IntentState, ProtocolConfig, SolverRecord};

verus! {

} // verus!
