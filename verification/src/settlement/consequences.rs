//! What the ledger is told to carry out: who pays whom, and what is announced.
use vstd::prelude::*;
use crate::context::Invocation;
use crate::settlement::calls::{fits, step, Call};
use crate::settlement::footprint::{on_intents, on_solvers};
use crate::settlement::intent_rules::Request;
use crate::settlement::state::{State, Step};
use crate::settlement::types::{Effect, Event};
use crate::types::{Address, Bytes32};

verus! {

/// A deposit moves exactly the deposit from the solver to the contract, in the
/// bond token, and is announced with its amount.
pub proof fn lemma_deposit_paid(s: State, inv: Invocation, solver: Address, bond_amount: i128)
    ensures
        step(s, inv, Call::Register { solver, bond_amount }) matches Step::Done { effects, .. }
            ==> {
            effects == seq![
                Effect::ExtendInstance,
                Effect::ExtendSolver { solver },
                Effect::Transfer {
                    token: s.bond_token->0,
                    from: solver,
                    to: inv.contract,
                    amount: bond_amount,
                },
                Effect::Emit { event: Event::SolverRegistered { solver, bond_amount } },
            ]
        },
{
}

/// A withdrawal moves exactly its amount from the contract to the solver, in the
/// bond token, and is announced with what is left of the bond.
pub proof fn lemma_withdrawal_paid(s: State, inv: Invocation, solver: Address, amount: i128)
    ensures
        step(s, inv, Call::Withdraw { solver, amount }) matches Step::Done { next, effects } ==> {
            effects == seq![
                Effect::ExtendInstance,
                Effect::ExtendSolver { solver },
                Effect::Transfer { token: s.bond_token->0, from: inv.contract, to: solver, amount },
                Effect::Emit {
                    event: Event::BondWithdrawn {
                        solver,
                        amount,
                        remaining: next.solvers[solver].bond_amount as i128,
                    },
                },
            ]
        },
{
}

/// A solver that leaves is paid its whole bond, if there is any, in the bond
/// token.
pub proof fn lemma_exit_paid(s: State, inv: Invocation, solver: Address)
    ensures
        step(s, inv, Call::Deregister { solver }) matches Step::Done { effects, .. } ==> {
            let bond = s.solvers[solver].bond_amount as i128;
            let left = Effect::Emit {
                event: Event::SolverDeregistered { solver, bond_amount: bond },
            };
            if s.solvers[solver].bond_amount >= 1 {
                effects == seq![
                    Effect::ExtendInstance,
                    Effect::Transfer {
                        token: s.bond_token->0,
                        from: inv.contract,
                        to: solver,
                        amount: bond,
                    },
                    left,
                ]
            } else {
                effects == seq![Effect::ExtendInstance, left]
            }
        },
{
    let after = step(s, inv, Call::Deregister { solver });
    if after is Done {
        let bond = s.solvers[solver].bond_amount as i128;
        let left = Effect::Emit { event: Event::SolverDeregistered { solver, bond_amount: bond } };
        assert(s.solvers[solver].bond_amount < 1 ==> after->effects =~= seq![
            Effect::ExtendInstance,
            left,
        ]);
        assert(s.solvers[solver].bond_amount >= 1 ==> after->effects =~= seq![
            Effect::ExtendInstance,
            Effect::Transfer {
                token: s.bond_token->0,
                from: inv.contract,
                to: solver,
                amount: bond,
            },
            left,
        ]);
    }
}

/// A submission moves no tokens. It is announced with the minimum and the
/// deadline that are on record for it.
pub proof fn lemma_submission_announced(s: State, inv: Invocation, request: Request, id: Bytes32)
    ensures
        step(s, inv, Call::Submit { request, id }) matches Step::Done { next, effects } ==> {
            effects == seq![
                Effect::ExtendInstance,
                Effect::ExtendIntent { intent_id: id },
                Effect::Emit {
                    event: Event::IntentSubmitted {
                        user: request.user,
                        intent_id: id,
                        min_dst_amount: request.min_dst_amount,
                        deadline: next.intents[id].deadline,
                    },
                },
            ]
        },
{
}

/// An acceptance moves no tokens. It is announced with the deadline that is on
/// record for it.
pub proof fn lemma_acceptance_announced(s: State, inv: Invocation, solver: Address, id: Bytes32)
    ensures
        step(s, inv, Call::Accept { solver, id }) matches Step::Done { next, effects } ==> {
            effects == seq![
                Effect::ExtendInstance,
                Effect::ExtendSolver { solver },
                Effect::ExtendIntent { intent_id: id },
                Effect::Emit {
                    event: Event::IntentAccepted {
                        solver,
                        intent_id: id,
                        deadline: next.intents[id].deadline,
                    },
                },
            ]
        },
{
}

/// A fill pays the user, from the solver, exactly the amount filled in the
/// destination token. On top the solver pays the fee recipient the fee, which is
/// the amount times the solver's rate in basis points, rounded down; a fee of
/// nothing is not paid. Both amounts are announced.
pub proof fn lemma_fill_paid(s: State, inv: Invocation, solver: Address, id: Bytes32, amount: i128)
    requires
        fits(s, inv, Call::Fill { solver, id, amount }),
        0 <= s.fee_bps(solver),
    ensures
        step(s, inv, Call::Fill { solver, id, amount }) matches Step::Done { effects, .. } ==> {
            let token = s.intents[id].dst_token;
            let n = effects.len() as int;
            &&& n == 5 || n == 6
            &&& effects[0] == Effect::ExtendInstance
            &&& effects[1] == (Effect::ExtendSolver { solver })
            &&& effects[2] == (Effect::ExtendIntent { intent_id: id })
            &&& effects[3] == (Effect::Transfer {
                token,
                from: solver,
                to: s.intents[id].user,
                amount,
            })
            &&& effects[n - 1] matches Effect::Emit {
                event: Event::IntentFilled { solver: by, intent_id, fill_amount, fee },
            }
            &&& by == solver
            &&& intent_id == id
            &&& fill_amount == amount
            &&& fee * 10_000 <= amount * s.fee_bps(solver) < (fee + 1) * 10_000
            &&& n == 6 <==> fee >= 1
            &&& n == 6 ==> effects[4] == (Effect::Transfer {
                token,
                from: solver,
                to: s.fee_recipient->0,
                amount: fee,
            })
        },
{
    let product = amount * s.fee_bps(solver);
    if amount >= 1 {
        assert(0 <= product) by (nonlinear_arith)
            requires
                product == amount * s.fee_bps(solver),
                1 <= amount,
                0 <= s.fee_bps(solver),
        ;
    }
}

/// A cancellation moves no tokens.
pub proof fn lemma_cancellation_announced(s: State, inv: Invocation, user: Address, id: Bytes32)
    ensures
        step(s, inv, Call::Cancel { user, id }) matches Step::Done { effects, .. } ==> {
            effects == seq![
                Effect::ExtendInstance,
                Effect::ExtendIntent { intent_id: id },
                Effect::Emit { event: Event::IntentCancelled { user, intent_id: id } },
            ]
        },
{
}

/// A slash moves from the contract to the fee recipient, in the bond token,
/// exactly what the solver's bond loses, and announces it.
pub proof fn lemma_slash_paid(s: State, inv: Invocation, id: Bytes32)
    requires
        fits(s, inv, Call::Slash { id }),
    ensures
        step(s, inv, Call::Slash { id }) matches Step::Done { next, effects } ==> {
            let solver = s.intents[id].solver->0;
            let lost = s.solvers[solver].bond_amount - next.solvers[solver].bond_amount;
            effects == seq![
                Effect::ExtendInstance,
                Effect::ExtendSolver { solver },
                Effect::ExtendIntent { intent_id: id },
                Effect::Transfer {
                    token: s.bond_token->0,
                    from: inv.contract,
                    to: s.fee_recipient->0,
                    amount: lost as i128,
                },
                Effect::Emit {
                    event: Event::SolverSlashed { solver, intent_id: id, amount: lost as i128 },
                },
            ]
        },
{
}

/// An expiry moves no tokens.
pub proof fn lemma_expiry_announced(s: State, inv: Invocation, id: Bytes32)
    ensures
        step(s, inv, Call::Expire { id }) matches Step::Done { effects, .. } ==> {
            effects == seq![
                Effect::ExtendInstance,
                Effect::ExtendIntent { intent_id: id },
                Effect::Emit { event: Event::IntentExpired { intent_id: id } },
            ]
        },
{
}

/// An extension moves no tokens. It is announced with the deadline that is on
/// record after it.
pub proof fn lemma_extension_announced(s: State, inv: Invocation, solver: Address, id: Bytes32)
    ensures
        step(s, inv, Call::Extend { solver, id }) matches Step::Done { next, effects } ==> {
            effects == seq![
                Effect::ExtendInstance,
                Effect::ExtendIntent { intent_id: id },
                Effect::Emit {
                    event: Event::ExtensionGranted {
                        solver,
                        intent_id: id,
                        deadline: next.intents[id].deadline,
                    },
                },
            ]
        },
{
}

/// A rescue moves exactly its amount of the token from the contract to the
/// recipient.
pub proof fn lemma_rescue_paid(s: State, inv: Invocation, token: Address, to: Address, amount: i128)
    ensures
        step(s, inv, Call::Rescue { token, to, amount }) matches Step::Done { effects, .. } ==> {
            effects == seq![
                Effect::ExtendInstance,
                Effect::Transfer { token, from: inv.contract, to, amount },
                Effect::Emit { event: Event::TokensRescued { to, token, amount } },
            ]
        },
{
}

/// An upgrade installs the code that it names, and nothing else.
pub proof fn lemma_upgrade_installs(s: State, inv: Invocation, wasm_hash: Bytes32)
    ensures
        step(s, inv, Call::ExecuteUpgrade { wasm_hash }) matches Step::Done { effects, .. } ==> {
            effects == seq![
                Effect::ExtendInstance,
                Effect::UpdateWasm { wasm_hash },
                Effect::Emit { event: Event::Upgraded { wasm_hash } },
            ]
        },
{
}

/// The event with which a call of governance is announced, if it is announced
/// at all.
pub open spec fn headline(s: State, inv: Invocation, call: Call) -> Option<Event> {
    let eta = (inv.now + 172_800) as u64;
    match call {
        Call::ProposeFeeRecipient { recipient } => Some(
            Event::FeeRecipientProposed { recipient, eta },
        ),
        Call::AcceptFeeRecipient { recipient } => Some(Event::FeeRecipientUpdated { recipient }),
        Call::ProposeAdmin { admin } => Some(Event::AdminTransferProposed { admin, eta }),
        Call::AcceptAdmin { admin } => Some(Event::AdminTransferred { admin }),
        Call::ProposeUpgrade { wasm_hash } => Some(Event::UpgradeProposed { wasm_hash, eta }),
        Call::Migrate => Some(
            Event::Migrated { from_version: s.migration_version, to_version: 1 },
        ),
        Call::SetConfig { config } => Some(Event::ConfigUpdated { config }),
        Call::SetPauser { pauser } => Some(Event::PauserUpdated { pauser }),
        Call::Pause { .. } => Some(Event::Paused { paused: true }),
        Call::Unpause => Some(Event::Paused { paused: false }),
        Call::SetTiers { tiers } => Some(Event::FeeDiscountTiersSet { tiers: tiers.len() as u32 }),
        Call::ProposeAddToken { token, .. } => Some(Event::DstTokenAddProposed { token, eta }),
        Call::ExecuteAddToken { token } => Some(Event::DstTokenAllowed { token }),
        Call::ProposeRemoveToken { token } => Some(Event::DstTokenRemoveProposed { token, eta }),
        Call::ExecuteRemoveToken { token } => Some(Event::DstTokenDisallowed { token }),
        Call::EnableTokenList { enabled } => Some(Event::DstAllowlistEnabled { enabled }),
        Call::SetMultiplier { token, multiplier } => Some(
            Event::BondMultiplierSet { token, multiplier },
        ),
        Call::AllowChain { chain } => Some(Event::SrcChainAllowed { chain }),
        Call::DisallowChain { chain } => Some(Event::SrcChainDisallowed { chain }),
        _ => None,
    }
}

/// Calls that neither move tokens nor replace the code, nor concern an intent or
/// a solver.
pub open spec fn of_governance(call: Call) -> bool {
    !on_intents(call) && !on_solvers(call) && call !is Rescue && call !is ExecuteUpgrade
}

/// Governance moves no tokens; each call of it is announced by its own event,
/// but for the initialization and the switch of the source-chain allowlist.
pub proof fn lemma_governance_announced(s: State, inv: Invocation, call: Call)
    requires
        of_governance(call),
    ensures
        step(s, inv, call) matches Step::Done { effects, .. } ==> match headline(s, inv, call) {
            Some(event) => effects == seq![Effect::ExtendInstance, Effect::Emit { event }],
            None => effects == seq![Effect::ExtendInstance],
        },
{
}

} // verus!
