//! What the registry answers, what its calls leave on record, and who pays whom.
use vstd::prelude::*;
use crate::context::{because, first_fault, lacks, Abort, Invocation};
use crate::reputation::{lemma_score_characterized, score, weighs};
use crate::solver_registry::laws::{fits, step, Call};
use crate::solver_registry::rules::{reputation, State, Step};
use crate::solver_registry::tiers::{below, bonus_pct, default_thresholds, earned_tier,
    lemma_earned_tier, perk, slash_rate, tier_info};
use crate::solver_registry::types::{Effect, Error, Solver, Threshold, MAX_MIN_BOND,
    MAX_MIN_SCORE_BPS, MAX_TIER, USDC};
use crate::types::Address;

verus! {

/// The request is granted if it has none of these faults, and is otherwise
/// turned down for the first that it has.
pub open spec fn judged(answer: Step, faults: Seq<(bool, Abort<Error>)>) -> bool {
    match first_fault(faults, 0) {
        Some(abort) => answer == (Step::Refused { abort }),
        None => answer is Done,
    }
}

/// A call that is turned down changes nothing and says why; one that is granted
/// leaves the new state and hands out all that it calls for, in order.
pub proof fn lemma_calls_end(
    answer: Step,
    before: State,
    after: State,
    result: Result<Vec<Effect>, Abort<Error>>,
)
    requires
        answer.describes(before, after, result),
    ensures
        answer matches Step::Refused { abort } ==> after == before && (result matches Err(why)
            && why == abort),
        answer matches Step::Done { next, effects } ==> after == next && (result matches Ok(out)
            && out@ == effects),
{
}

// ── Terms ───────────────────────────────────────────────────────────────────

/// Bonds, scores and perks of the five tiers, from Unranked to Platinum.
pub proof fn lemma_registry_terms()
    ensures
        USDC == 10_000_000,
        MAX_TIER == 4,
        MAX_MIN_BOND == 1_000_000 * 10_000_000,
        MAX_MIN_SCORE_BPS == 9_999,
        default_thresholds().len() == 5,
        default_thresholds()[0].min_bond == 50 * USDC,
        default_thresholds()[1].min_bond == 500 * USDC,
        default_thresholds()[2].min_bond == 2_000 * USDC,
        default_thresholds()[3].min_bond == 10_000 * USDC,
        default_thresholds()[4].min_bond == 50_000 * USDC,
        default_thresholds()[0].min_score_bps == 0,
        default_thresholds()[1].min_score_bps == 1_000,
        default_thresholds()[2].min_score_bps == 3_500,
        default_thresholds()[3].min_score_bps == 7_000,
        default_thresholds()[4].min_score_bps == 9_000,
{
}

/// The share of its bond that a solver of a tier loses by a slash, in basis
/// points.
pub open spec fn loses(tier: int) -> int {
    seq![1_000int, 1_000, 800, 600, 500][tier]
}

/// How much longer a tier's fill window is, in percent.
pub open spec fn gains(tier: int) -> int {
    seq![0int, 10, 20, 30, 50][tier]
}

/// Each tier has its perks; where there is no such tier, a slash is at the full
/// rate, no window is longer, and a query for a perk is turned down.
pub proof fn lemma_perks(tier: u32, row: Threshold, value: u32)
    ensures
        tier <= 4 ==> slash_rate(tier as int) == loses(tier as int) && bonus_pct(tier as int)
            == gains(tier as int),
        tier > 4 ==> slash_rate(tier as int) == 1_000 && bonus_pct(tier as int) == 0,
        tier <= 4 ==> perk(tier, value) == Ok::<u32, Error>(value),
        tier > 4 ==> perk(tier, value) == Err::<u32, Error>(Error::InvalidTier),
        tier_info(row, tier as int).min_bond == row.min_bond,
        tier_info(row, tier as int).min_score_bps == row.min_score_bps,
        tier_info(row, tier as int).slash_bps == slash_rate(tier as int),
        tier_info(row, tier as int).fill_window_bonus_pct == bonus_pct(tier as int),
        tier_info(row, tier as int).fee_rebate_bps == 0,
{
}

/// The registry's state is valid if the tier table has five rows, each within
/// bounds and above the one before on both axes, every assigned tier is one
/// above the lowest, and the addresses of the setup are recorded together.
pub proof fn lemma_valid_state(s: State)
    ensures
        s.valid() <==> {
            let rows = s.thresholds;
            &&& rows.len() == 5
            &&& forall|i: int|
                0 <= i < rows.len() ==> 1 <= (#[trigger] rows[i]).min_bond <= 10_000_000_000_000
                    && rows[i].min_score_bps <= 9_999
            &&& forall|i: int, j: int|
                0 <= i < j < rows.len() ==> (#[trigger] rows[i]).min_bond < (
                #[trigger] rows[j]).min_bond && rows[i].min_score_bps < rows[j].min_score_bps
            &&& forall|a: Address| #[trigger]
                s.assigned_tiers.contains_key(a) ==> 1 <= s.assigned_tiers[a] <= 4
            &&& s.admin is Some == s.bond_token is Some
            &&& s.admin is Some == s.fee_recipient is Some
        },
{
    let rows = s.thresholds;
    if forall|i: int, j: int|
        0 <= i < j < rows.len() ==> (#[trigger] rows[i]).min_bond < (#[trigger] rows[j]).min_bond
            && rows[i].min_score_bps < rows[j].min_score_bps {
        assert(forall|i: int, j: int|
            0 <= i < j < rows.len() ==> below(#[trigger] rows[i], #[trigger] rows[j]));
    }
}

/// A bond and a score clear a row.
pub open spec fn meets(row: Threshold, score_bps: int, bond: int) -> bool {
    row.min_bond <= bond && row.min_score_bps <= score_bps
}

/// The tier that a score and a bond earn is the highest of those above the
/// lowest whose row both of them clear.
pub proof fn lemma_tier_earned(s: State, score_bps: int, bond: int, tier: int)
    requires
        s.valid(),
        1 <= tier <= 4,
    ensures
        earned_tier(s.thresholds, score_bps, bond) <= 4,
        meets(s.thresholds[tier], score_bps, bond) <==> tier <= earned_tier(
            s.thresholds,
            score_bps,
            bond,
        ),
{
    lemma_earned_tier(s.thresholds, score_bps, bond, tier as nat);
}

/// A solver's tier is the one assigned to it; without one, a registered solver
/// has every tier whose row its reputation and its bond clear; one that is not
/// known has the lowest.
pub proof fn lemma_tier_held(s: State, solver: Address, tier: int)
    requires
        s.valid(),
        1 <= tier <= 4,
    ensures
        s.assigned_tiers.contains_key(solver) ==> s.tier_of(solver) == s.assigned_tiers[solver],
        !s.assigned_tiers.contains_key(solver) && !s.solvers.contains_key(solver) ==> s.tier_of(
            solver,
        ) == 0,
        !s.assigned_tiers.contains_key(solver) && s.solvers.contains_key(solver) ==> (tier
            <= s.tier_of(solver) <==> meets(
            s.thresholds[tier],
            reputation(s.solvers[solver]),
            s.solvers[solver].bond_amount,
        )),
        s.tier_of(solver) <= 4,
{
    if s.solvers.contains_key(solver) {
        lemma_earned_tier(
            s.thresholds,
            reputation(s.solvers[solver]),
            s.solvers[solver].bond_amount,
            tier as nat,
        );
    }
}

/// A solver's reputation is its share of completed fills, of which a tenth has
/// to be earned by volume; every solver is credited with one unit of it.
pub proof fn lemma_reputation(record: Solver)
    requires
        record.fills_completed >= 0,
        record.fills_failed >= 0,
    ensures
        record.fills_completed + record.fills_failed == 0 ==> reputation(record) == 0,
        record.fills_completed + record.fills_failed > 0 ==> exists|rate: int, decay: int|
            #[trigger]
            weighs(
                record.fills_completed,
                record.fills_failed,
                record.total_volume,
                1,
                rate,
                decay,
                reputation(record),
            ),
{
    let (done, failed, volume) = (
        record.fills_completed,
        record.fills_failed,
        record.total_volume,
    );
    let result = reputation(record);
    lemma_score_characterized(done, failed, volume, 1);
    if done + failed > 0 {
        let (rate, decay) = choose|rate: int, decay: int| #[trigger]
            weighs(done, failed, volume, 1, rate, decay, score(done, failed, volume, 1));
        assert(weighs(done, failed, volume, 1, rate, decay, result));
    }
}

// ── Governance ──────────────────────────────────────────────────────────────

/// A registry is initialized once, with the consent of the admin that it gets,
/// and starts with the standard tier table.
pub proof fn lemma_initialization_judged(
    s: State,
    inv: Invocation,
    admin: Address,
    bond_token: Address,
    fee_recipient: Address,
)
    ensures
        ({
            let answer = step(s, inv, Call::Initialize { admin, bond_token, fee_recipient });
            &&& judged(
                answer,
                seq![
                    (s.admin is Some, because(Error::AlreadyInitialized)),
                    (!inv.signed(admin), Abort::Auth(admin)),
                ],
            )
            &&& answer matches Step::Done { next, effects } ==> {
                &&& next.admin == Some(admin)
                &&& next.bond_token == Some(bond_token)
                &&& next.fee_recipient == Some(fee_recipient)
                &&& next.thresholds == default_thresholds()
                &&& next.writer == s.writer
                &&& next.solvers == s.solvers
                &&& next.solver_count == s.solver_count
                &&& next.assigned_tiers == s.assigned_tiers
                &&& effects.len() == 0
            }
        }),
{
    reveal_with_fuel(first_fault, 4);
}

/// The admin may name any writer; nothing else changes.
pub proof fn lemma_writer_judged(s: State, inv: Invocation, writer: Address)
    ensures
        ({
            let answer = step(s, inv, Call::SetWriter { writer });
            &&& judged(
                answer,
                seq![
                    (s.admin is None, because(Error::NotInitialized)),
                    (lacks(s.admin, inv), Abort::Auth(s.admin->0)),
                ],
            )
            &&& answer matches Step::Done { next, effects } ==> next.writer == Some(writer)
                && effects.len() == 0 && next == (State { writer: next.writer, ..s })
        }),
{
    reveal_with_fuel(first_fault, 4);
}

/// The admin may tune a row above the lowest, with a bond from one unit to a
/// million USDC and a score below the whole, if both stay strictly between
/// those of the rows beside it. Only that row changes.
pub proof fn lemma_threshold_judged(s: State, inv: Invocation, tier: u32, row: Threshold)
    requires
        s.valid(),
    ensures
        ({
            let answer = step(s, inv, Call::SetThreshold { tier, row });
            let (lower, upper) = (s.thresholds[tier - 1], s.thresholds[tier + 1]);
            &&& judged(
                answer,
                seq![
                    (s.admin is None, because(Error::NotInitialized)),
                    (lacks(s.admin, inv), Abort::Auth(s.admin->0)),
                    (tier == 0 || tier > 4, because(Error::InvalidTier)),
                    (
                        row.min_bond < 1 || row.min_bond > 10_000_000_000_000 || row.min_score_bps
                            > 9_999,
                        because(Error::ThresholdOutOfBounds),
                    ),
                    (
                        row.min_bond <= lower.min_bond || row.min_score_bps <= lower.min_score_bps,
                        because(Error::ThresholdsNotMonotonic),
                    ),
                    (
                        tier != 4 && (row.min_bond >= upper.min_bond || row.min_score_bps
                            >= upper.min_score_bps),
                        because(Error::ThresholdsNotMonotonic),
                    ),
                ],
            )
            &&& answer matches Step::Done { next, effects } ==> {
                &&& next.thresholds.len() == s.thresholds.len()
                &&& forall|i: int|
                    0 <= i < s.thresholds.len() ==> #[trigger] next.thresholds[i] == if i == tier {
                        row
                    } else {
                        s.thresholds[i]
                    }
                &&& next == (State { thresholds: next.thresholds, ..s })
                &&& effects.len() == 0
            }
        }),
{
    reveal_with_fuel(first_fault, 8);
}

/// The admin may assign any of the tiers. A tier above the lowest is then the
/// solver's, whatever it has earned; the lowest gives the solver back to what it
/// earns. No other solver is touched.
pub proof fn lemma_assignment_judged(
    s: State,
    inv: Invocation,
    solver: Address,
    tier: u32,
    other: Address,
)
    ensures
        ({
            let answer = step(s, inv, Call::SetTier { solver, tier });
            &&& judged(
                answer,
                seq![
                    (s.admin is None, because(Error::NotInitialized)),
                    (lacks(s.admin, inv), Abort::Auth(s.admin->0)),
                    (tier > 4, because(Error::InvalidTier)),
                ],
            )
            &&& answer matches Step::Done { next, effects } ==> {
                &&& tier >= 1 ==> next.tier_of(solver) == tier
                &&& tier == 0 ==> !next.assigned_tiers.contains_key(solver)
                &&& other != solver ==> next.tier_of(other) == s.tier_of(other)
                    && next.assigned_tiers.contains_key(other) == s.assigned_tiers.contains_key(
                    other,
                )
                &&& next == (State { assigned_tiers: next.assigned_tiers, ..s })
                &&& effects == seq![Effect::TierSet { solver, tier }]
            }
        }),
{
    reveal_with_fuel(first_fault, 5);
}

// ── Solvers ─────────────────────────────────────────────────────────────────

/// A solver that signs may register once, with the bond of the lowest tier or
/// more. It starts with that bond and nothing to its name, and pays it to the
/// registry.
pub proof fn lemma_registration_judged(
    s: State,
    inv: Invocation,
    solver: Address,
    bond_amount: i128,
)
    ensures
        ({
            let answer = step(s, inv, Call::Register { solver, bond_amount });
            &&& judged(
                answer,
                seq![
                    (!inv.signed(solver), Abort::Auth(solver)),
                    (s.admin is None, because(Error::NotInitialized)),
                    (bond_amount < 1, because(Error::ZeroAmount)),
                    (s.solvers.contains_key(solver), because(Error::SolverAlreadyRegistered)),
                    (
                        bond_amount < s.thresholds[0].min_bond,
                        because(Error::BondBelowFloor),
                    ),
                ],
            )
            &&& answer matches Step::Done { next, effects } ==> {
                let record = next.solvers[solver];
                &&& next.solvers.contains_key(solver)
                &&& record.address == solver
                &&& record.bond_amount == bond_amount
                &&& record.fills_completed == 0
                &&& record.fills_failed == 0
                &&& record.total_volume == 0
                &&& record.registered_at == inv.now
                &&& record.last_slash_time == 0
                &&& record.slashed_total == 0
                &&& next.solver_count == s.solver_count + 1
                &&& next == (State {
                    solvers: s.solvers.insert(solver, record),
                    solver_count: next.solver_count,
                    ..s
                })
                &&& effects == seq![
                    Effect::Transfer {
                        token: s.bond_token->0,
                        from: solver,
                        to: inv.contract,
                        amount: bond_amount,
                    },
                ]
            }
        }),
{
    reveal_with_fuel(first_fault, 7);
}

/// A registered solver that signs may add any positive amount to its bond, and
/// may take back what it has above the bond of the lowest tier. The bond changes
/// by exactly what is paid, and nothing else of the record does.
pub proof fn lemma_stakes_judged(s: State, inv: Invocation, solver: Address, amount: i128)
    ensures
        ({
            let was = s.solvers[solver];
            let staked = step(s, inv, Call::Stake { solver, amount });
            let unstaked = step(s, inv, Call::Unstake { solver, amount });
            &&& judged(
                staked,
                seq![
                    (!inv.signed(solver), Abort::Auth(solver)),
                    (s.admin is None, because(Error::NotInitialized)),
                    (amount < 1, because(Error::ZeroAmount)),
                    (!s.solvers.contains_key(solver), because(Error::SolverNotRegistered)),
                ],
            )
            &&& staked matches Step::Done { next, effects } ==> {
                let is = next.solvers[solver];
                &&& is.bond_amount - was.bond_amount == amount
                &&& is == (Solver { bond_amount: is.bond_amount, ..was })
                &&& next == (State { solvers: s.solvers.insert(solver, is), ..s })
                &&& effects == seq![
                    Effect::Transfer {
                        token: s.bond_token->0,
                        from: solver,
                        to: inv.contract,
                        amount,
                    },
                ]
            }
            &&& judged(
                unstaked,
                seq![
                    (!inv.signed(solver), Abort::Auth(solver)),
                    (s.admin is None, because(Error::NotInitialized)),
                    (amount < 1, because(Error::ZeroAmount)),
                    (!s.solvers.contains_key(solver), because(Error::SolverNotRegistered)),
                    (was.bond_amount < amount, because(Error::InsufficientBond)),
                    (
                        was.bond_amount < amount + s.thresholds[0].min_bond,
                        because(Error::BondBelowFloor),
                    ),
                ],
            )
            &&& unstaked matches Step::Done { next, effects } ==> {
                let is = next.solvers[solver];
                &&& was.bond_amount - is.bond_amount == amount
                &&& is == (Solver { bond_amount: is.bond_amount, ..was })
                &&& next == (State { solvers: s.solvers.insert(solver, is), ..s })
                &&& effects == seq![
                    Effect::Transfer {
                        token: s.bond_token->0,
                        from: inv.contract,
                        to: solver,
                        amount,
                    },
                ]
            }
        }),
{
    reveal_with_fuel(first_fault, 8);
}

/// A registered solver that signs may leave. It is paid its whole bond, if there
/// is any, and its record is gone.
pub proof fn lemma_exit_judged(s: State, inv: Invocation, solver: Address)
    ensures
        ({
            let answer = step(s, inv, Call::Deregister { solver });
            let bond = s.solvers[solver].bond_amount;
            &&& judged(
                answer,
                seq![
                    (!inv.signed(solver), Abort::Auth(solver)),
                    (s.admin is None, because(Error::NotInitialized)),
                    (!s.solvers.contains_key(solver), because(Error::SolverNotRegistered)),
                ],
            )
            &&& answer matches Step::Done { next, effects } ==> {
                &&& s.solver_count >= 1 ==> next.solver_count == s.solver_count - 1
                &&& next == (State {
                    solvers: s.solvers.remove(solver),
                    solver_count: next.solver_count,
                    ..s
                })
                &&& bond < 1 ==> effects.len() == 0
                &&& bond >= 1 ==> effects == seq![
                    Effect::Transfer {
                        token: s.bond_token->0,
                        from: inv.contract,
                        to: solver,
                        amount: bond as i128,
                    },
                ]
            }
        }),
{
    reveal_with_fuel(first_fault, 5);
}

// ── Reports ─────────────────────────────────────────────────────────────────

/// The report that a call makes on a solver.
pub open spec fn reports(call: Call, caller: Address, solver: Address) -> bool {
    match call {
        Call::RecordFill { caller: by, solver: on, .. } => by == caller && on == solver,
        Call::RecordFailure { caller: by, solver: on } => by == caller && on == solver,
        Call::Slash { caller: by, solver: on } => by == caller && on == solver,
        _ => false,
    }
}

/// A report on a registered solver is taken from the admin and from the writer.
pub proof fn lemma_reports_judged(
    s: State,
    inv: Invocation,
    call: Call,
    caller: Address,
    solver: Address,
)
    requires
        reports(call, caller, solver),
    ensures
        judged(
            step(s, inv, call),
            seq![
                (s.admin is None, because(Error::NotInitialized)),
                (s.admin != Some(caller) && s.writer is None, because(Error::WriterNotSet)),
                (
                    s.admin != Some(caller) && s.writer != Some(caller),
                    because(Error::Unauthorized),
                ),
                (!inv.signed(caller), Abort::Auth(caller)),
                (!s.solvers.contains_key(solver), because(Error::SolverNotRegistered)),
            ],
        ),
{
    reveal_with_fuel(first_fault, 7);
}

/// A reported fill counts one completed fill and its volume; a reported failure
/// counts one failure. Neither moves tokens or changes anything else.
pub proof fn lemma_reports_recorded(
    s: State,
    inv: Invocation,
    caller: Address,
    solver: Address,
    amount: i128,
)
    ensures
        step(s, inv, Call::RecordFill { caller, solver, amount }) matches Step::Done {
            next,
            effects,
        } ==> {
            let (was, is) = (s.solvers[solver], next.solvers[solver]);
            &&& is.fills_completed - was.fills_completed == 1
            &&& is.total_volume - was.total_volume == amount
            &&& is == (Solver {
                fills_completed: is.fills_completed,
                total_volume: is.total_volume,
                ..was
            })
            &&& next == (State { solvers: s.solvers.insert(solver, is), ..s })
            &&& effects.len() == 0
        },
        step(s, inv, Call::RecordFailure { caller, solver }) matches Step::Done { next, effects }
            ==> {
            let (was, is) = (s.solvers[solver], next.solvers[solver]);
            &&& is.fills_failed - was.fills_failed == 1
            &&& is == (Solver { fills_failed: is.fills_failed, ..was })
            &&& next == (State { solvers: s.solvers.insert(solver, is), ..s })
            &&& effects.len() == 0
        },
{
}

/// A slash takes the share of the solver's tier, rounded down but not below one
/// unit, and pays exactly that to the fee recipient. It counts as a failure, its
/// time is kept, and what was lost is added up.
pub proof fn lemma_slash_recorded(s: State, inv: Invocation, caller: Address, solver: Address)
    requires
        s.valid(),
        fits(s, inv, Call::Slash { caller, solver }),
    ensures
        step(s, inv, Call::Slash { caller, solver }) matches Step::Done { next, effects } ==> {
            let (was, is) = (s.solvers[solver], next.solvers[solver]);
            let lost = was.bond_amount - is.bond_amount;
            let share = was.bond_amount * loses(s.tier_of(solver) as int);
            &&& lost >= 1
            &&& share < 20_000 ==> lost == 1
            &&& share >= 20_000 ==> lost * 10_000 <= share < (lost + 1) * 10_000
            &&& is.fills_failed - was.fills_failed == 1
            &&& is.last_slash_time == inv.now
            &&& is.slashed_total - was.slashed_total == lost
            &&& is == (Solver {
                bond_amount: is.bond_amount,
                fills_failed: is.fills_failed,
                last_slash_time: is.last_slash_time,
                slashed_total: is.slashed_total,
                ..was
            })
            &&& next == (State { solvers: s.solvers.insert(solver, is), ..s })
            &&& effects == seq![
                Effect::Transfer {
                    token: s.bond_token->0,
                    from: inv.contract,
                    to: s.fee_recipient->0,
                    amount: lost as i128,
                },
            ]
        },
{
    lemma_tier_held(s, solver, 1);
    let tier = s.tier_of(solver) as int;
    assert(slash_rate(tier) == loses(tier));
}

} // verus!
