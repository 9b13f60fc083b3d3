//! Whether a call is within the machine's limits, for callers that have to ask
//! before they make it.
use vstd::prelude::*;
use crate::context::Invocation;
use crate::solver_registry::registry::{amount_to_slash, SolverRegistry};
use crate::solver_registry::rules::{record_failure_fits, record_fill_fits, register_fits,
    slash_fits, stake_fits};
use crate::solver_registry::tiers::slash_share;
use crate::types::Address;

verus! {

impl SolverRegistry {
    /// Whether the count of solvers has room for a registration.
    pub fn registration_within_limits(
        &self,
        inv: &Invocation,
        solver: Address,
        bond_amount: i128,
    ) -> (r: bool)
        requires
            self.wf(),
        ensures
            r == register_fits(self@, *inv, solver, bond_amount),
    {
        match self.require_solver(inv, solver, bond_amount) {
            Err(_) => true,
            Ok(_) => self.solvers.has(solver) || bond_amount < self.thresholds[0].min_bond
                || self.solver_count < u32::MAX,
        }
    }

    /// Whether a solver's bond has room for a stake.
    pub fn stake_within_limits(&self, inv: &Invocation, solver: Address, amount: i128) -> (r: bool)
        requires
            self.wf(),
        ensures
            r == stake_fits(self@, *inv, solver, amount),
    {
        match self.require_solver(inv, solver, amount) {
            Err(_) => true,
            Ok(_) => match self.solvers.get(solver) {
                None => true,
                Some(record) => record.bond_amount.checked_add(amount).is_some(),
            },
        }
    }

    /// Whether a solver's counters have room for a fill.
    pub fn fill_report_within_limits(
        &self,
        inv: &Invocation,
        caller: Address,
        solver: Address,
        amount: i128,
    ) -> (r: bool)
        requires
            self.wf(),
        ensures
            r == record_fill_fits(self@, *inv, caller, solver, amount),
    {
        if self.require_writer(inv, caller, solver).is_some() {
            return true;
        }
        match self.solvers.get(solver) {
            None => true,
            Some(record) => record.fills_completed < u32::MAX && record.total_volume.checked_add(
                amount,
            ).is_some(),
        }
    }

    /// Whether a solver's counter has room for a failure.
    pub fn failure_report_within_limits(
        &self,
        inv: &Invocation,
        caller: Address,
        solver: Address,
    ) -> (r: bool)
        requires
            self.wf(),
        ensures
            r == record_failure_fits(self@, *inv, caller, solver),
    {
        if self.require_writer(inv, caller, solver).is_some() {
            return true;
        }
        match self.solvers.get(solver) {
            None => true,
            Some(record) => record.fills_failed < u32::MAX,
        }
    }

    /// Whether the sums of a slash fit their types.
    pub fn slash_within_limits(&self, inv: &Invocation, caller: Address, solver: Address) -> (r:
        bool)
        requires
            self.wf(),
        ensures
            r == slash_fits(self@, *inv, caller, solver),
    {
        if self.require_writer(inv, caller, solver).is_some() {
            return true;
        }
        let tier: u32 = self.get_tier(solver);
        match self.solvers.get(solver) {
            None => true,
            Some(record) => {
                let bond: i128 = record.bond_amount;
                if bond == i128::MIN || bond.checked_mul(slash_share(tier) as i128).is_none() {
                    return false;
                }
                record.fills_failed < u32::MAX && record.slashed_total <= i128::MAX
                    - amount_to_slash(bond, tier)
            },
        }
    }
}

} // verus!
