//! What each call on the registry does.
use vstd::prelude::*;
use crate::context::{Abort, Invocation};
use crate::reputation::score;
use crate::solver_registry::tiers::{below, default_thresholds, earned_tier, in_bounds, slash_rate,
    well_ordered};
use crate::solver_registry::types::{Effect, Error, Solver, Threshold, MAX_TIER};
use crate::types::Address;

verus! {

/// The registry's state, as its operations are stated over it.
#[verifier::ext_equal]
pub struct State {
    pub admin: Option<Address>,
    pub bond_token: Option<Address>,
    pub fee_recipient: Option<Address>,
    pub writer: Option<Address>,
    pub thresholds: Seq<Threshold>,
    pub solvers: Map<Address, Solver>,
    pub solver_count: int,
    pub assigned_tiers: Map<Address, u32>,
}

/// What a call comes to: a refusal that leaves everything as it was, or a new
/// state together with the effects that the ledger is to carry out, in order.
#[verifier::ext_equal]
pub enum Step {
    Refused { abort: Abort<Error> },
    Done { next: State, effects: Seq<Effect> },
}

impl Step {
    /// Whether a call that began in `before` and ended in `after` with
    /// `result` did what this step says.
    pub open spec fn describes(
        self,
        before: State,
        after: State,
        result: Result<Vec<Effect>, Abort<Error>>,
    ) -> bool {
        match self {
            Step::Refused { abort } => result == Err::<Vec<Effect>, Abort<Error>>(abort) && after
                == before,
            Step::Done { next, effects } => {
                &&& result is Ok
                &&& result->Ok_0@ == effects
                &&& after == next
            },
        }
    }
}

/// The registry refuses with `error`.
pub open spec fn refuse(error: Error) -> Step {
    Step::Refused { abort: Abort::Error(error) }
}

/// The call lacks the authorization of `who`.
pub open spec fn unsigned(who: Address) -> Step {
    Step::Refused { abort: Abort::Auth(who) }
}

/// A solver's reputation in basis points.
pub open spec fn reputation(record: Solver) -> int {
    score(record.fills_completed, record.fills_failed, record.total_volume, 1)
}

impl State {
    /// What every operation keeps: the tier table is well ordered, an assigned
    /// tier exists and is not the lowest, and the addresses that `initialize`
    /// records are recorded together.
    pub open spec fn valid(self) -> bool {
        &&& well_ordered(self.thresholds)
        &&& forall|a: Address| #[trigger]
            self.assigned_tiers.contains_key(a) ==> 1 <= self.assigned_tiers[a] <= MAX_TIER
        &&& self.admin is Some <==> self.bond_token is Some
        &&& self.admin is Some <==> self.fee_recipient is Some
    }

    /// The lowest bond that a registered solver may keep.
    pub open spec fn floor(self) -> int {
        self.thresholds[0].min_bond as int
    }

    /// A solver's tier: the one assigned to it, or else the one it has earned.
    pub open spec fn tier_of(self, solver: Address) -> nat {
        if self.assigned_tiers.contains_key(solver) {
            self.assigned_tiers[solver] as nat
        } else if self.solvers.contains_key(solver) {
            earned_tier(
                self.thresholds,
                reputation(self.solvers[solver]),
                self.solvers[solver].bond_amount,
            )
        } else {
            0
        }
    }
}

// ── Admin ───────────────────────────────────────────────────────────────────

/// A call that only the admin may make, which then does what `step` says.
pub open spec fn as_admin(s: State, inv: Invocation, step: Step) -> Step {
    match s.admin {
        None => refuse(Error::NotInitialized),
        Some(admin) => if inv.signed(admin) {
            step
        } else {
            unsigned(admin)
        },
    }
}

/// The one-time setup.
pub open spec fn initialize_step(
    s: State,
    inv: Invocation,
    admin: Address,
    bond_token: Address,
    fee_recipient: Address,
) -> Step {
    if s.admin is Some {
        refuse(Error::AlreadyInitialized)
    } else if !inv.signed(admin) {
        unsigned(admin)
    } else {
        Step::Done {
            next: State {
                admin: Some(admin),
                bond_token: Some(bond_token),
                fee_recipient: Some(fee_recipient),
                thresholds: default_thresholds(),
                ..s
            },
            effects: Seq::empty(),
        }
    }
}

/// The admin names the address that may report fills and failures beside it.
pub open spec fn set_writer_step(s: State, inv: Invocation, writer: Address) -> Step {
    as_admin(
        s,
        inv,
        Step::Done { next: State { writer: Some(writer), ..s }, effects: Seq::empty() },
    )
}

/// The admin tunes what a tier needs. The lowest tier is fixed, and every row
/// stays strictly between its neighbours.
pub open spec fn set_threshold_step(
    s: State,
    inv: Invocation,
    tier: u32,
    row: Threshold,
) -> Step {
    as_admin(
        s,
        inv,
        if tier == 0 || tier > MAX_TIER {
            refuse(Error::InvalidTier)
        } else if !in_bounds(row) {
            refuse(Error::ThresholdOutOfBounds)
        } else if !below(s.thresholds[tier - 1], row) || (tier < MAX_TIER && !below(
            row,
            s.thresholds[tier + 1],
        )) {
            refuse(Error::ThresholdsNotMonotonic)
        } else {
            Step::Done {
                next: State { thresholds: s.thresholds.update(tier as int, row), ..s },
                effects: Seq::empty(),
            }
        },
    )
}

/// The admin assigns a tier to a solver; the lowest tier takes an assignment
/// back.
pub open spec fn set_tier_step(s: State, inv: Invocation, solver: Address, tier: u32) -> Step {
    as_admin(
        s,
        inv,
        if tier > MAX_TIER {
            refuse(Error::InvalidTier)
        } else {
            Step::Done {
                next: State {
                    assigned_tiers: if tier == 0 {
                        s.assigned_tiers.remove(solver)
                    } else {
                        s.assigned_tiers.insert(solver, tier)
                    },
                    ..s
                },
                effects: seq![Effect::TierSet { solver, tier }],
            }
        },
    )
}

// ── Solvers ─────────────────────────────────────────────────────────────────

/// A call that a solver makes with a positive amount on an initialized
/// registry, which then does what `step` says.
pub open spec fn as_solver(
    s: State,
    inv: Invocation,
    solver: Address,
    amount: i128,
    step: Step,
) -> Step {
    if !inv.signed(solver) {
        unsigned(solver)
    } else if s.admin is None {
        refuse(Error::NotInitialized)
    } else if amount <= 0 {
        refuse(Error::ZeroAmount)
    } else {
        step
    }
}

/// A solver registers with a bond.
pub open spec fn register_step(
    s: State,
    inv: Invocation,
    solver: Address,
    bond_amount: i128,
) -> Step {
    as_solver(
        s,
        inv,
        solver,
        bond_amount,
        if s.solvers.contains_key(solver) {
            refuse(Error::SolverAlreadyRegistered)
        } else if bond_amount < s.floor() {
            refuse(Error::BondBelowFloor)
        } else {
            Step::Done {
                next: State {
                    solvers: s.solvers.insert(
                        solver,
                        Solver {
                            address: solver,
                            bond_amount: bond_amount as int,
                            fills_completed: 0,
                            fills_failed: 0,
                            total_volume: 0,
                            registered_at: inv.now,
                            last_slash_time: 0,
                            slashed_total: 0,
                        },
                    ),
                    solver_count: s.solver_count + 1,
                    ..s
                },
                effects: seq![
                    Effect::Transfer {
                        token: s.bond_token->0,
                        from: solver,
                        to: inv.contract,
                        amount: bond_amount,
                    },
                ],
            }
        },
    )
}

/// The count of solvers fits its type.
pub open spec fn register_fits(
    s: State,
    inv: Invocation,
    solver: Address,
    bond_amount: i128,
) -> bool {
    register_step(s, inv, solver, bond_amount) is Done ==> s.solver_count < u32::MAX
}

/// A solver adds to its bond.
pub open spec fn stake_step(s: State, inv: Invocation, solver: Address, amount: i128) -> Step {
    let record = s.solvers[solver];
    as_solver(
        s,
        inv,
        solver,
        amount,
        if !s.solvers.contains_key(solver) {
            refuse(Error::SolverNotRegistered)
        } else {
            Step::Done {
                next: State {
                    solvers: s.solvers.insert(
                        solver,
                        Solver { bond_amount: record.bond_amount + amount, ..record },
                    ),
                    ..s
                },
                effects: seq![
                    Effect::Transfer {
                        token: s.bond_token->0,
                        from: solver,
                        to: inv.contract,
                        amount,
                    },
                ],
            }
        },
    )
}

/// The bond fits its type.
pub open spec fn stake_fits(s: State, inv: Invocation, solver: Address, amount: i128) -> bool {
    stake_step(s, inv, solver, amount) is Done ==> s.solvers[solver].bond_amount + amount
        <= i128::MAX
}

/// A solver takes back part of its bond, and keeps the floor.
pub open spec fn unstake_step(s: State, inv: Invocation, solver: Address, amount: i128) -> Step {
    let record = s.solvers[solver];
    as_solver(
        s,
        inv,
        solver,
        amount,
        if !s.solvers.contains_key(solver) {
            refuse(Error::SolverNotRegistered)
        } else if amount > record.bond_amount {
            refuse(Error::InsufficientBond)
        } else if record.bond_amount - amount < s.floor() {
            refuse(Error::BondBelowFloor)
        } else {
            Step::Done {
                next: State {
                    solvers: s.solvers.insert(
                        solver,
                        Solver { bond_amount: record.bond_amount - amount, ..record },
                    ),
                    ..s
                },
                effects: seq![
                    Effect::Transfer {
                        token: s.bond_token->0,
                        from: inv.contract,
                        to: solver,
                        amount,
                    },
                ],
            }
        },
    )
}

/// A solver leaves and gets its bond back.
pub open spec fn deregister_step(s: State, inv: Invocation, solver: Address) -> Step {
    let bond = s.solvers[solver].bond_amount;
    if !inv.signed(solver) {
        unsigned(solver)
    } else if s.admin is None {
        refuse(Error::NotInitialized)
    } else if !s.solvers.contains_key(solver) {
        refuse(Error::SolverNotRegistered)
    } else {
        Step::Done {
            next: State {
                solvers: s.solvers.remove(solver),
                solver_count: if s.solver_count > 0 {
                    s.solver_count - 1
                } else {
                    0
                },
                ..s
            },
            effects: if bond > 0 {
                seq![
                    Effect::Transfer {
                        token: s.bond_token->0,
                        from: inv.contract,
                        to: solver,
                        amount: bond as i128,
                    },
                ]
            } else {
                Seq::empty()
            },
        }
    }
}

// ── Settlement ──────────────────────────────────────────────────────────────

/// A report on a registered solver by the writer or the admin, which then does
/// what `step` says.
pub open spec fn as_writer(
    s: State,
    inv: Invocation,
    caller: Address,
    solver: Address,
    step: Step,
) -> Step {
    if s.admin is None {
        refuse(Error::NotInitialized)
    } else if s.admin != Some(caller) && s.writer is None {
        refuse(Error::WriterNotSet)
    } else if s.admin != Some(caller) && s.writer != Some(caller) {
        refuse(Error::Unauthorized)
    } else if !inv.signed(caller) {
        unsigned(caller)
    } else if !s.solvers.contains_key(solver) {
        refuse(Error::SolverNotRegistered)
    } else {
        step
    }
}

/// A fill is reported.
pub open spec fn record_fill_step(
    s: State,
    inv: Invocation,
    caller: Address,
    solver: Address,
    amount: i128,
) -> Step {
    let record = s.solvers[solver];
    as_writer(
        s,
        inv,
        caller,
        solver,
        Step::Done {
            next: State {
                solvers: s.solvers.insert(
                    solver,
                    Solver {
                        fills_completed: record.fills_completed + 1,
                        total_volume: record.total_volume + amount,
                        ..record
                    },
                ),
                ..s
            },
            effects: Seq::empty(),
        },
    )
}

/// The solver's counters fit their types.
pub open spec fn record_fill_fits(
    s: State,
    inv: Invocation,
    caller: Address,
    solver: Address,
    amount: i128,
) -> bool {
    record_fill_step(s, inv, caller, solver, amount) is Done ==> {
        &&& s.solvers[solver].fills_completed < u32::MAX
        &&& i128::MIN <= s.solvers[solver].total_volume + amount <= i128::MAX
    }
}

/// A failure is reported.
pub open spec fn record_failure_step(
    s: State,
    inv: Invocation,
    caller: Address,
    solver: Address,
) -> Step {
    let record = s.solvers[solver];
    as_writer(
        s,
        inv,
        caller,
        solver,
        Step::Done {
            next: State {
                solvers: s.solvers.insert(
                    solver,
                    Solver { fills_failed: record.fills_failed + 1, ..record },
                ),
                ..s
            },
            effects: Seq::empty(),
        },
    )
}

/// The solver's counter fits its type.
pub open spec fn record_failure_fits(
    s: State,
    inv: Invocation,
    caller: Address,
    solver: Address,
) -> bool {
    record_failure_step(s, inv, caller, solver) is Done ==> s.solvers[solver].fills_failed
        < u32::MAX
}

/// What a slash takes from a bond: the rate of the solver's tier, and at least
/// one unit.
pub open spec fn slash_amount(bond: int, tier: int) -> int {
    let share = bond * slash_rate(tier) / 10_000;
    if share > 1 {
        share
    } else {
        1
    }
}

/// A solver's record after a slash of `amount`.
pub open spec fn slashed_solver(record: Solver, now: u64, amount: int) -> Solver {
    Solver {
        bond_amount: record.bond_amount - amount,
        fills_failed: record.fills_failed + 1,
        last_slash_time: now,
        slashed_total: record.slashed_total + amount,
        ..record
    }
}

/// A solver is slashed at the rate of its tier, to the fee recipient.
pub open spec fn slash_step(s: State, inv: Invocation, caller: Address, solver: Address) -> Step {
    let record = s.solvers[solver];
    let amount = slash_amount(record.bond_amount, s.tier_of(solver) as int);
    as_writer(
        s,
        inv,
        caller,
        solver,
        Step::Done {
            next: State {
                solvers: s.solvers.insert(solver, slashed_solver(record, inv.now, amount)),
                ..s
            },
            effects: seq![
                Effect::Transfer {
                    token: s.bond_token->0,
                    from: inv.contract,
                    to: s.fee_recipient->0,
                    amount: amount as i128,
                },
            ],
        },
    )
}

/// The sums of a slash fit their types.
pub open spec fn slash_fits(s: State, inv: Invocation, caller: Address, solver: Address) -> bool {
    let record = s.solvers[solver];
    slash_step(s, inv, caller, solver) is Done ==> {
        &&& i128::MIN < record.bond_amount
        &&& i128::MIN <= record.bond_amount * slash_rate(s.tier_of(solver) as int) <= i128::MAX
        &&& record.fills_failed < u32::MAX
        &&& record.slashed_total + slash_amount(record.bond_amount, s.tier_of(solver) as int)
            <= i128::MAX
    }
}

} // verus!
