//! Solver bonds: registration, withdrawal and exit.
use vstd::prelude::*;
use crate::context::{Abort, Invocation};
use crate::settlement::intent_rules::{emit, one_fewer};
use crate::settlement::state::{refuse, unsigned, IntentSettlement, State, Step};
use crate::settlement::types::{Effect, Error, Event, Solver, SolverRecord};
use crate::types::Address;

verus! {

impl State {
    /// The bond of a solver; nothing for one that is not registered.
    pub open spec fn bond_of(self, solver: Address) -> int {
        if self.solvers.contains_key(solver) {
            self.solvers[solver].bond_amount
        } else {
            0
        }
    }
}

/// A solver's record after it has deposited `amount`: its first record, or the
/// one it has with a larger bond, back in rotation.
pub open spec fn bonded_solver(s: State, now: u64, solver: Address, amount: int) -> Solver {
    if s.solvers.contains_key(solver) {
        Solver {
            bond_amount: s.solvers[solver].bond_amount + amount,
            is_active: true,
            ..s.solvers[solver]
        }
    } else {
        Solver {
            address: solver,
            bond_amount: amount,
            fills_completed: 0,
            fills_failed: 0,
            total_volume: 0,
            is_active: true,
            registered_at: now,
            active_intents: 0,
            last_slash_time: 0,
        }
    }
}

/// A solver deposits a bond, or adds to the one it has. The minimum is on the
/// sum.
pub open spec fn register_step(
    s: State,
    inv: Invocation,
    solver: Address,
    bond_amount: i128,
) -> Step {
    if !inv.signed(solver) {
        unsigned(solver)
    } else if s.paused {
        refuse(Error::ContractPaused)
    } else if bond_amount <= 0 {
        refuse(Error::ZeroAmount)
    } else if s.bond_of(solver) + bond_amount < s.effective_config().min_bond {
        refuse(Error::SolverBondTooLow)
    } else if s.bond_token is None {
        refuse(Error::NotInitialized)
    } else {
        Step::Done {
            next: State {
                solvers: s.solvers.insert(
                    solver,
                    bonded_solver(s, inv.now, solver, bond_amount as int),
                ),
                total_solvers: if s.solvers.contains_key(solver) {
                    s.total_solvers
                } else {
                    s.total_solvers + 1
                },
                ..s
            },
            effects: seq![
                Effect::ExtendInstance,
                Effect::ExtendSolver { solver },
                Effect::Transfer {
                    token: s.bond_token->0,
                    from: solver,
                    to: inv.contract,
                    amount: bond_amount,
                },
                emit(Event::SolverRegistered { solver, bond_amount }),
            ],
        }
    }
}

/// The bond and the count of solvers fit their types.
pub open spec fn register_fits(
    s: State,
    inv: Invocation,
    solver: Address,
    bond_amount: i128,
) -> bool {
    inv.signed(solver) && !s.paused && bond_amount > 0 ==> {
        &&& s.bond_of(solver) + bond_amount <= i128::MAX
        &&& !s.solvers.contains_key(solver) && bond_amount >= s.effective_config().min_bond
            ==> s.total_solvers < u32::MAX
    }
}

/// A solver that holds no intents leaves and gets its bond back.
pub open spec fn deregister_step(s: State, inv: Invocation, solver: Address) -> Step {
    let bond = s.solvers[solver].bond_amount;
    let payout = if bond > 0 {
        seq![
            Effect::Transfer {
                token: s.bond_token->0,
                from: inv.contract,
                to: solver,
                amount: bond as i128,
            },
        ]
    } else {
        Seq::empty()
    };
    if !inv.signed(solver) {
        unsigned(solver)
    } else if s.paused {
        refuse(Error::ContractPaused)
    } else if !s.solvers.contains_key(solver) {
        refuse(Error::SolverNotRegistered)
    } else if s.solvers[solver].active_intents > 0 {
        refuse(Error::SolverHasActiveIntents)
    } else if bond > 0 && s.bond_token is None {
        refuse(Error::NotInitialized)
    } else {
        Step::Done {
            next: State {
                solvers: s.solvers.remove(solver),
                total_solvers: one_fewer(s.total_solvers),
                ..s
            },
            effects: seq![Effect::ExtendInstance] + payout + seq![
                emit(Event::SolverDeregistered { solver, bond_amount: bond as i128 }),
            ],
        }
    }
}

/// A solver takes back part of its bond, and keeps the minimum.
pub open spec fn withdraw_step(s: State, inv: Invocation, solver: Address, amount: i128) -> Step {
    let record = s.solvers[solver];
    let remaining = record.bond_amount - amount;
    if !inv.signed(solver) {
        unsigned(solver)
    } else if s.paused {
        refuse(Error::ContractPaused)
    } else if amount <= 0 {
        refuse(Error::ZeroAmount)
    } else if !s.solvers.contains_key(solver) {
        refuse(Error::SolverNotRegistered)
    } else if amount > record.bond_amount {
        refuse(Error::InsufficientBond)
    } else if remaining < s.effective_config().min_bond {
        refuse(Error::SolverBondTooLow)
    } else if s.bond_token is None {
        refuse(Error::NotInitialized)
    } else {
        Step::Done {
            next: State {
                solvers: s.solvers.insert(solver, Solver { bond_amount: remaining, ..record }),
                ..s
            },
            effects: seq![
                Effect::ExtendInstance,
                Effect::ExtendSolver { solver },
                Effect::Transfer {
                    token: s.bond_token->0,
                    from: inv.contract,
                    to: solver,
                    amount,
                },
                emit(Event::BondWithdrawn { solver, amount, remaining: remaining as i128 }),
            ],
        }
    }
}

impl IntentSettlement {
    /// A solver registers by depositing a bond, or tops up the one it has. The
    /// minimum is enforced on the resulting total.
    pub fn register_solver(&mut self, inv: &Invocation, solver: Address, bond_amount: i128) -> (r:
        Result<Vec<Effect>, Abort<Error>>)
        requires
            old(self).wf(),
            register_fits(old(self)@, *inv, solver, bond_amount),
        ensures
            final(self).wf(),
            register_step(old(self)@, *inv, solver, bond_amount).describes(
                old(self)@,
                final(self)@,
                r,
            ),
    {
        let ghost s = self@;
        if !inv.has_signed(solver) {
            return Err(Abort::Auth(solver));
        }
        if self.paused {
            return Err(Abort::Error(Error::ContractPaused));
        }
        if bond_amount <= 0 {
            return Err(Abort::Error(Error::ZeroAmount));
        }
        let (known, bond): (bool, i128) = match self.solvers.get(solver) {
            Some(record) => (true, record.bond_amount),
            None => (false, 0),
        };
        if bond + bond_amount < self.load_config().min_bond {
            return Err(Abort::Error(Error::SolverBondTooLow));
        }
        let bond_token: Address = match self.bond_token {
            Some(bond_token) => bond_token,
            None => {
                return Err(Abort::Error(Error::NotInitialized));
            },
        };
        if known {
            let record = self.solvers.entry_mut(solver);
            record.bond_amount = record.bond_amount + bond_amount;
            record.is_active = true;
        } else {
            self.solvers.set(
                solver,
                SolverRecord {
                    address: solver,
                    bond_amount,
                    fills_completed: 0,
                    fills_failed: 0,
                    total_volume: 0,
                    is_active: true,
                    registered_at: inv.now,
                    active_intents: 0,
                    last_slash_time: 0,
                },
            );
            self.total_solvers = self.total_solvers + 1;
        }
        let effects = vec![
            Effect::ExtendInstance,
            Effect::ExtendSolver { solver },
            Effect::Transfer {
                token: bond_token,
                from: solver,
                to: inv.contract,
                amount: bond_amount,
            },
            Effect::Emit { event: Event::SolverRegistered { solver, bond_amount } },
        ];
        proof {
            let step = register_step(s, *inv, solver, bond_amount);
            assert(effects@ =~= step->effects);
            assert(self@ =~= step->next);
        }
        Ok(effects)
    }

    /// A solver leaves the protocol and gets its full bond back. It may hold no
    /// accepted intents.
    pub fn deregister_solver(&mut self, inv: &Invocation, solver: Address) -> (r: Result<
        Vec<Effect>,
        Abort<Error>,
    >)
        requires
            old(self).wf(),
        ensures
            final(self).wf(),
            deregister_step(old(self)@, *inv, solver).describes(old(self)@, final(self)@, r),
    {
        let ghost s = self@;
        if !inv.has_signed(solver) {
            return Err(Abort::Auth(solver));
        }
        if self.paused {
            return Err(Abort::Error(Error::ContractPaused));
        }
        let bond_amount: i128 = match self.solvers.get(solver) {
            None => {
                return Err(Abort::Error(Error::SolverNotRegistered));
            },
            Some(record) => {
                if record.active_intents > 0 {
                    return Err(Abort::Error(Error::SolverHasActiveIntents));
                }
                record.bond_amount
            },
        };
        let mut effects: Vec<Effect> = Vec::new();
        effects.push(Effect::ExtendInstance);
        if bond_amount > 0 {
            let bond_token: Address = match self.bond_token {
                Some(bond_token) => bond_token,
                None => {
                    return Err(Abort::Error(Error::NotInitialized));
                },
            };
            effects.push(
                Effect::Transfer {
                    token: bond_token,
                    from: inv.contract,
                    to: solver,
                    amount: bond_amount,
                },
            );
        }
        effects.push(Effect::Emit { event: Event::SolverDeregistered { solver, bond_amount } });
        self.solvers.remove(solver);
        self.total_solvers = self.total_solvers.saturating_sub(1);
        proof {
            let step = deregister_step(s, *inv, solver);
            assert(effects@ =~= step->effects);
            assert(self@ =~= step->next);
        }
        Ok(effects)
    }

    /// A solver takes back part of its bond and stays registered. What remains
    /// must clear the minimum.
    pub fn withdraw_bond(&mut self, inv: &Invocation, solver: Address, amount: i128) -> (r: Result<
        Vec<Effect>,
        Abort<Error>,
    >)
        requires
            old(self).wf(),
        ensures
            final(self).wf(),
            withdraw_step(old(self)@, *inv, solver, amount).describes(old(self)@, final(self)@, r),
    {
        let ghost s = self@;
        if !inv.has_signed(solver) {
            return Err(Abort::Auth(solver));
        }
        if self.paused {
            return Err(Abort::Error(Error::ContractPaused));
        }
        if amount <= 0 {
            return Err(Abort::Error(Error::ZeroAmount));
        }
        let bond: i128 = match self.solvers.get(solver) {
            None => {
                return Err(Abort::Error(Error::SolverNotRegistered));
            },
            Some(record) => record.bond_amount,
        };
        if amount > bond {
            return Err(Abort::Error(Error::InsufficientBond));
        }
        let remaining: i128 = bond - amount;
        if remaining < self.load_config().min_bond {
            return Err(Abort::Error(Error::SolverBondTooLow));
        }
        let bond_token: Address = match self.bond_token {
            Some(bond_token) => bond_token,
            None => {
                return Err(Abort::Error(Error::NotInitialized));
            },
        };
        let record = self.solvers.entry_mut(solver);
        record.bond_amount = remaining;
        let effects = vec![
            Effect::ExtendInstance,
            Effect::ExtendSolver { solver },
            Effect::Transfer { token: bond_token, from: inv.contract, to: solver, amount },
            Effect::Emit { event: Event::BondWithdrawn { solver, amount, remaining } },
        ];
        proof {
            let step = withdraw_step(s, *inv, solver, amount);
            assert(effects@ =~= step->effects);
            assert(self@ =~= step->next);
        }
        Ok(effects)
    }
}

} // verus!
