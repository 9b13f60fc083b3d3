//! What holds of the registry as a whole.
use vstd::prelude::*;
use crate::context::Invocation;
use crate::reputation::lemma_score_monotone;
use crate::solver_registry::rules::{deregister_step, initialize_step, record_failure_fits,
    record_failure_step, record_fill_fits, record_fill_step, register_fits, register_step,
    reputation, set_threshold_step, set_tier_step, set_writer_step, slash_amount, slash_fits,
    slash_step, stake_fits, stake_step, unstake_step, State, Step};
use crate::solver_registry::tiers::{below, lemma_default_thresholds, lemma_earned_tier,
    lemma_earned_tier_monotone, slash_rate};
use crate::solver_registry::types::{Effect, Solver, Threshold};
use crate::tally::{lemma_total_insert, lemma_total_remove, total};
use crate::types::Address;

verus! {

/// A call of one of the registry's entry points.
pub enum Call {
    Initialize { admin: Address, bond_token: Address, fee_recipient: Address },
    SetWriter { writer: Address },
    SetThreshold { tier: u32, row: Threshold },
    SetTier { solver: Address, tier: u32 },
    Register { solver: Address, bond_amount: i128 },
    Stake { solver: Address, amount: i128 },
    Unstake { solver: Address, amount: i128 },
    Deregister { solver: Address },
    RecordFill { caller: Address, solver: Address, amount: i128 },
    RecordFailure { caller: Address, solver: Address },
    Slash { caller: Address, solver: Address },
}

/// What a call does.
pub open spec fn step(s: State, inv: Invocation, call: Call) -> Step {
    match call {
        Call::Initialize { admin, bond_token, fee_recipient } => initialize_step(
            s,
            inv,
            admin,
            bond_token,
            fee_recipient,
        ),
        Call::SetWriter { writer } => set_writer_step(s, inv, writer),
        Call::SetThreshold { tier, row } => set_threshold_step(s, inv, tier, row),
        Call::SetTier { solver, tier } => set_tier_step(s, inv, solver, tier),
        Call::Register { solver, bond_amount } => register_step(s, inv, solver, bond_amount),
        Call::Stake { solver, amount } => stake_step(s, inv, solver, amount),
        Call::Unstake { solver, amount } => unstake_step(s, inv, solver, amount),
        Call::Deregister { solver } => deregister_step(s, inv, solver),
        Call::RecordFill { caller, solver, amount } => record_fill_step(
            s,
            inv,
            caller,
            solver,
            amount,
        ),
        Call::RecordFailure { caller, solver } => record_failure_step(s, inv, caller, solver),
        Call::Slash { caller, solver } => slash_step(s, inv, caller, solver),
    }
}

/// A call is within the machine's limits.
pub open spec fn fits(s: State, inv: Invocation, call: Call) -> bool {
    match call {
        Call::Register { solver, bond_amount } => register_fits(s, inv, solver, bond_amount),
        Call::Stake { solver, amount } => stake_fits(s, inv, solver, amount),
        Call::RecordFill { caller, solver, amount } => record_fill_fits(
            s,
            inv,
            caller,
            solver,
            amount,
        ),
        Call::RecordFailure { caller, solver } => record_failure_fits(s, inv, caller, solver),
        Call::Slash { caller, solver } => slash_fits(s, inv, caller, solver),
        _ => true,
    }
}

/// Every call keeps the tier table well ordered, assigned tiers in range and
/// the recorded addresses together. The row of the lowest tier never changes
/// after initialization.
pub proof fn lemma_registry_valid(s: State, inv: Invocation, call: Call)
    requires
        s.valid(),
    ensures
        step(s, inv, call) matches Step::Done { next, .. } ==> {
            &&& next.valid()
            &&& call !is Initialize ==> next.thresholds[0] == s.thresholds[0]
            &&& s.admin is Some ==> next.admin == s.admin && next.bond_token == s.bond_token
        },
{
    lemma_default_thresholds();
}

/// The count of solvers is the number of records.
pub open spec fn solvers_counted(s: State) -> bool {
    s.solvers.dom().finite() && s.solver_count == s.solvers.dom().len()
}

/// Every call keeps the solvers counted.
pub proof fn lemma_solvers_counted(s: State, inv: Invocation, call: Call)
    requires
        solvers_counted(s),
    ensures
        step(s, inv, call) matches Step::Done { next, .. } ==> solvers_counted(next),
{
    if step(s, inv, call) is Done {
        let next = step(s, inv, call)->next;
        match call {
            Call::Register { solver, .. } => {
                assert(next.solvers.dom() =~= s.solvers.dom().insert(solver));
            },
            Call::Stake { solver, .. } => {
                assert(next.solvers.dom() =~= s.solvers.dom());
            },
            Call::Unstake { solver, .. } => {
                assert(next.solvers.dom() =~= s.solvers.dom());
            },
            Call::Deregister { solver } => {
                assert(next.solvers.dom() =~= s.solvers.dom().remove(solver));
                assert(s.solvers.dom().contains(solver));
                assert(s.solvers.dom().len() >= 1);
            },
            Call::RecordFill { solver, .. } => {
                assert(next.solvers.dom() =~= s.solvers.dom());
            },
            Call::RecordFailure { solver, .. } => {
                assert(next.solvers.dom() =~= s.solvers.dom());
            },
            Call::Slash { solver, .. } => {
                assert(next.solvers.dom() =~= s.solvers.dom());
            },
            _ => {},
        }
    }
}

/// A solver's bond.
pub open spec fn bond() -> spec_fn(Solver) -> int {
    |r: Solver| r.bond_amount
}

/// What an effect brings `contract` of `token`.
pub open spec fn inflow_of(effect: Effect, token: Address, contract: Address) -> int {
    match effect {
        Effect::Transfer { token: moved, from, to, amount } => if moved == token {
            (if to == contract {
                amount as int
            } else {
                0
            }) - (if from == contract {
                amount as int
            } else {
                0
            })
        } else {
            0
        },
        _ => 0,
    }
}

/// What a call's effects, of which there is at most one, bring `contract` of
/// `token`.
pub open spec fn inflow(effects: Seq<Effect>, token: Address, contract: Address) -> int {
    if effects.len() == 0 {
        0
    } else {
        inflow_of(effects[0], token, contract)
    }
}

/// Every bond fits its type.
pub open spec fn bonds_in_range(s: State) -> bool {
    forall|a: Address| #[trigger]
        s.solvers.contains_key(a) ==> i128::MIN <= s.solvers[a].bond_amount <= i128::MAX
}

/// The bonds on record never grow by more than the bond token that the call
/// brings in, and change by exactly that amount where the fee recipient is not
/// the registry itself. The registry's own address signs no call. The one
/// exception is the exit of a solver whose bond has been slashed below zero.
pub proof fn lemma_bonds_covered(s: State, inv: Invocation, call: Call)
    requires
        s.valid(),
        s.solvers.dom().finite(),
        bonds_in_range(s),
        fits(s, inv, call),
        !inv.signed(inv.contract),
        call matches Call::Deregister { solver } ==> s.solvers[solver].bond_amount >= 0,
    ensures
        step(s, inv, call) matches Step::Done { next, effects } ==> {
            let received = inflow(effects, s.bond_token->0, inv.contract);
            let change = total(next.solvers, bond()) - total(s.solvers, bond());
            &&& effects.len() <= 1
            &&& change <= received
            &&& s.fee_recipient != Some(inv.contract) ==> change == received
        },
{
    if step(s, inv, call) is Done {
        let next = step(s, inv, call)->next;
        match call {
            Call::Register { solver, .. } => {
                lemma_total_insert(s.solvers, bond(), solver, next.solvers[solver]);
            },
            Call::Stake { solver, .. } => {
                lemma_total_insert(s.solvers, bond(), solver, next.solvers[solver]);
            },
            Call::Unstake { solver, .. } => {
                lemma_total_insert(s.solvers, bond(), solver, next.solvers[solver]);
            },
            Call::Deregister { solver } => {
                lemma_total_remove(s.solvers, bond(), solver);
            },
            Call::RecordFill { solver, .. } => {
                lemma_total_insert(s.solvers, bond(), solver, next.solvers[solver]);
            },
            Call::RecordFailure { solver, .. } => {
                lemma_total_insert(s.solvers, bond(), solver, next.solvers[solver]);
            },
            Call::Slash { solver, .. } => {
                lemma_slash_bounds(s.solvers[solver].bond_amount, s.tier_of(solver) as int);
                lemma_total_insert(s.solvers, bond(), solver, next.solvers[solver]);
            },
            _ => {},
        }
    }
}

/// A slash takes at least one unit, never more than a bond that is there, and
/// never more than a tenth of a bond of ten or more.
pub proof fn lemma_slash_bounds(bond: int, tier: int)
    ensures
        slash_amount(bond, tier) >= 1,
        bond >= 1 ==> slash_amount(bond, tier) <= bond,
        bond >= 10 ==> slash_amount(bond, tier) <= bond / 10,
{
    let rate = slash_rate(tier) as int;
    if bond >= 0 {
        assert(bond * rate <= bond * 1_000) by (nonlinear_arith)
            requires
                bond >= 0,
                rate <= 1_000,
        ;
    }
}

/// A slash or a reported failure never earns a solver a higher tier.
pub proof fn lemma_failure_never_promotes(
    s: State,
    inv: Invocation,
    call: Call,
    caller: Address,
    solver: Address,
)
    requires
        s.valid(),
        s.solvers.contains_key(solver),
        s.solvers[solver].fills_completed >= 0,
        s.solvers[solver].fills_failed >= 0,
        call == (Call::Slash { caller, solver }) || call == (Call::RecordFailure {
            caller,
            solver,
        }),
    ensures
        step(s, inv, call) matches Step::Done { next, .. } ==> next.tier_of(solver) <= s.tier_of(
            solver,
        ) && reputation(next.solvers[solver]) <= reputation(s.solvers[solver]),
{
    if step(s, inv, call) is Done {
        let was = s.solvers[solver];
        let is = step(s, inv, call)->next.solvers[solver];
        lemma_slash_bounds(was.bond_amount, s.tier_of(solver) as int);
        lemma_score_monotone(
            is.fills_completed,
            is.fills_failed,
            is.total_volume,
            was.fills_completed,
            was.fills_failed,
            was.total_volume,
            1,
        );
        lemma_earned_tier_monotone(
            s.thresholds,
            reputation(is),
            is.bond_amount,
            reputation(was),
            was.bond_amount,
        );
    }
}

/// Without fills no bond earns more than the lowest tier.
pub proof fn lemma_no_fills_no_tier(s: State, solver: Address)
    requires
        s.valid(),
        !s.assigned_tiers.contains_key(solver),
        s.solvers.contains_key(solver) ==> s.solvers[solver].fills_completed == 0
            && s.solvers[solver].fills_failed == 0,
    ensures
        s.tier_of(solver) == 0,
{
    if s.solvers.contains_key(solver) {
        lemma_earned_tier(
            s.thresholds,
            0,
            s.solvers[solver].bond_amount,
            1,
        );
        assert(below(s.thresholds[0], s.thresholds[1]));
    }
}

/// Only the admin changes thresholds, assigned tiers or the writer, and only
/// the writer or the admin changes what is known of another's performance.
pub proof fn lemma_registry_authority(s: State, inv: Invocation, call: Call)
    requires
        s.admin is Some,
    ensures
        step(s, inv, call) matches Step::Done { next, .. } ==> {
            let by_admin = s.admin matches Some(admin) && inv.signed(admin);
            let by_writer = s.writer matches Some(writer) && inv.signed(writer);
            &&& next.thresholds != s.thresholds || next.assigned_tiers != s.assigned_tiers
                || next.writer != s.writer ==> by_admin
            &&& forall|a: Address|
                s.solvers.contains_key(a) && !inv.signed(a) && !by_admin && !by_writer
                    ==> next.solvers.contains_key(a) && #[trigger] next.solvers[a] == s.solvers[a]
        },
{
}

/// Taking back a stake just made leaves the registry as it was.
pub proof fn lemma_unstake_undoes_stake(
    s: State,
    inv: Invocation,
    solver: Address,
    amount: i128,
    later: Invocation,
)
    requires
        later.signed(solver),
        s.solvers[solver].bond_amount >= s.floor(),
        s.floor() >= 0,
    ensures
        step(s, inv, Call::Stake { solver, amount }) matches Step::Done { next, .. } ==> (step(
            next,
            later,
            Call::Unstake { solver, amount },
        ) matches Step::Done { next: last, .. } && last == s),
{
    let first = step(s, inv, Call::Stake { solver, amount });
    if first is Done {
        let second = step(first->next, later, Call::Unstake { solver, amount });
        assert(second->next.solvers =~= s.solvers);
        assert(second->next =~= s);
    }
}

} // verus!
