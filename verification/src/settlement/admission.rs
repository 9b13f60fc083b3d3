//! Which requests the contract grants, and what it answers the others.
use vstd::prelude::*;
use crate::context::{because, first_fault, lacks, Abort, Invocation};
use crate::settlement::calls::{step, Call};
use crate::settlement::intent_rules::Request;
use crate::settlement::state::{State, Step};
use crate::settlement::token_format::token_matches_chain;
use crate::settlement::types::{Effect, Error, IntentState, ProtocolConfig};
use crate::types::{Address, Bytes32};

verus! {

/// The request is granted if it has none of these faults, and is otherwise
/// turned down for the first that it has.
pub open spec fn judged(answer: Step, faults: Seq<(bool, Abort<Error>)>) -> bool {
    match first_fault(faults, 0) {
        Some(abort) => answer == (Step::Refused { abort }),
        None => answer is Done,
    }
}

/// A call that is turned down changes nothing and says why; one that is granted
/// leaves the new state and hands out all that it calls for, in order.
pub proof fn lemma_calls_end(
    answer: Step,
    before: State,
    after: State,
    result: Result<Vec<Effect>, Abort<Error>>,
)
    requires
        answer.describes(before, after, result),
    ensures
        answer matches Step::Refused { abort } ==> after == before && (result matches Err(why)
            && why == abort),
        answer matches Step::Done { next, effects } ==> after == next && (result matches Ok(out)
            && out@ == effects),
{
}

/// Whether an intent in this state awaits a solver.
pub open spec fn waiting(state: IntentState) -> bool {
    state == IntentState::Open || state == IntentState::PartiallyFilled
}

// ── Intents ─────────────────────────────────────────────────────────────────

/// A submission is granted to a user who signs, on a contract that is not
/// paused, for positive amounts of at most 10^30, a token and a chain that the
/// allowlists in force admit, a deadline in the future if one is named, and a
/// token that looks like one of its chain.
pub proof fn lemma_submission_judged(s: State, inv: Invocation, request: Request, id: Bytes32)
    ensures
        judged(
            step(s, inv, Call::Submit { request, id }),
            seq![
                (!inv.signed(request.user), Abort::Auth(request.user)),
                (s.paused, because(Error::ContractPaused)),
                (
                    request.src_amount < 1 || request.min_dst_amount < 1,
                    because(Error::ZeroAmount),
                ),
                (
                    request.src_amount > 1_000_000_000_000_000_000_000_000_000_000
                        || request.min_dst_amount > 1_000_000_000_000_000_000_000_000_000_000,
                    because(Error::AmountTooLarge),
                ),
                (
                    s.dst_allowlist_enabled && !s.allowed_dst_tokens.contains(request.dst_token),
                    because(Error::DstTokenNotAllowed),
                ),
                (
                    s.src_chain_allowlist_enabled && !s.allowed_src_chains.contains(
                        request.src_chain,
                    ),
                    because(Error::SrcChainNotAllowed),
                ),
                (
                    request.deadline is Some && request.deadline->0 <= inv.now,
                    because(Error::InvalidDeadline),
                ),
                (
                    !token_matches_chain(request.src_chain, request.src_token),
                    because(Error::InvalidSrcToken),
                ),
                (s.intents.contains_key(id), because(Error::IntentAlreadyExists)),
            ],
        ),
{
    reveal_with_fuel(first_fault, 11);
}

/// An acceptance is granted to a registered solver that signs, is in rotation
/// and out of the hour after its last slash, for an intent that awaits a solver
/// before its deadline, if its bond is at least 50 USDC times the multiplier of
/// the intent's token.
pub proof fn lemma_acceptance_judged(s: State, inv: Invocation, solver: Address, id: Bytes32)
    ensures
        ({
            let record = s.solvers[solver];
            let intent = s.intents[id];
            let tenths: int = if s.min_bond_multipliers.contains_key(intent.dst_token) {
                s.min_bond_multipliers[intent.dst_token] as int
            } else {
                10
            };
            judged(
                step(s, inv, Call::Accept { solver, id }),
                seq![
                    (!inv.signed(solver), Abort::Auth(solver)),
                    (s.paused, because(Error::ContractPaused)),
                    (!s.solvers.contains_key(solver), because(Error::SolverNotRegistered)),
                    (!record.is_active, because(Error::SolverInactive)),
                    (
                        record.last_slash_time != 0 && inv.now < record.last_slash_time + 3_600,
                        because(Error::SolverInactive),
                    ),
                    (!s.intents.contains_key(id), because(Error::IntentNotFound)),
                    (
                        record.bond_amount < 50_000_000 * tenths,
                        because(Error::SolverBondTooLow),
                    ),
                    (intent.deadline <= inv.now, because(Error::IntentExpired)),
                    (!waiting(intent.state), because(Error::IntentNotOpen)),
                ],
            )
        }),
{
    reveal_with_fuel(first_fault, 11);
}

/// A fill is granted to the solver that holds the intent, before its deadline,
/// for a positive amount whose product with the fee rate can be computed.
pub proof fn lemma_fill_judged(
    s: State,
    inv: Invocation,
    solver: Address,
    id: Bytes32,
    amount: i128,
)
    ensures
        ({
            let intent = s.intents[id];
            judged(
                step(s, inv, Call::Fill { solver, id, amount }),
                seq![
                    (!inv.signed(solver), Abort::Auth(solver)),
                    (s.paused, because(Error::ContractPaused)),
                    (!s.intents.contains_key(id), because(Error::IntentNotFound)),
                    (intent.deadline <= inv.now, because(Error::FillWindowExpired)),
                    (intent.state == IntentState::Filled, because(Error::IntentAlreadyFilled)),
                    (intent.state != IntentState::Accepted, because(Error::IntentNotAccepted)),
                    (intent.solver != Some(solver), because(Error::Unauthorized)),
                    (amount < 1, because(Error::ZeroAmount)),
                    (amount * s.fee_bps(solver) > i128::MAX, because(Error::FeeOverflow)),
                ],
            )
        }),
{
    reveal_with_fuel(first_fault, 11);
}

/// A cancellation is granted to the user of an intent that awaits a solver, an
/// hour or more after the user's last one.
pub proof fn lemma_cancellation_judged(s: State, inv: Invocation, user: Address, id: Bytes32)
    ensures
        ({
            let intent = s.intents[id];
            judged(
                step(s, inv, Call::Cancel { user, id }),
                seq![
                    (!inv.signed(user), Abort::Auth(user)),
                    (
                        s.cancel_times.contains_key(user) && inv.now < s.cancel_times[user] + 3_600,
                        because(Error::CancelCooldownNotExpired),
                    ),
                    (!s.intents.contains_key(id), because(Error::IntentNotFound)),
                    (intent.user != user, because(Error::Unauthorized)),
                    (
                        intent.state == IntentState::Accepted,
                        because(Error::CannotCancelAccepted),
                    ),
                    (!waiting(intent.state), because(Error::IntentNotOpen)),
                ],
            )
        }),
{
    reveal_with_fuel(first_fault, 8);
}

/// A slash is granted, whoever asks for it, on an accepted intent from its
/// deadline on.
pub proof fn lemma_slash_judged(s: State, inv: Invocation, id: Bytes32)
    ensures
        ({
            let intent = s.intents[id];
            judged(
                step(s, inv, Call::Slash { id }),
                seq![
                    (!s.intents.contains_key(id), because(Error::IntentNotFound)),
                    (intent.state != IntentState::Accepted, because(Error::IntentNotAccepted)),
                    (inv.now < intent.deadline, because(Error::FillWindowExpired)),
                    (s.bond_token is None, because(Error::NotInitialized)),
                ],
            )
        }),
{
    reveal_with_fuel(first_fault, 6);
}

/// An intent that awaits a solver can be marked as expired, by anyone, from its
/// deadline on.
pub proof fn lemma_expiry_judged(s: State, inv: Invocation, id: Bytes32)
    ensures
        ({
            let intent = s.intents[id];
            judged(
                step(s, inv, Call::Expire { id }),
                seq![
                    (!s.intents.contains_key(id), because(Error::IntentNotFound)),
                    (!waiting(intent.state), because(Error::IntentNotOpen)),
                    (inv.now < intent.deadline, because(Error::DeadlineNotReached)),
                ],
            )
        }),
{
    reveal_with_fuel(first_fault, 5);
}

/// An extension is granted to the solver that holds the intent, before its
/// deadline, if the intent has had none.
pub proof fn lemma_extension_judged(s: State, inv: Invocation, solver: Address, id: Bytes32)
    ensures
        ({
            let intent = s.intents[id];
            judged(
                step(s, inv, Call::Extend { solver, id }),
                seq![
                    (!inv.signed(solver), Abort::Auth(solver)),
                    (!s.intents.contains_key(id), because(Error::IntentNotFound)),
                    (intent.state != IntentState::Accepted, because(Error::IntentNotAccepted)),
                    (intent.solver != Some(solver), because(Error::Unauthorized)),
                    (intent.deadline <= inv.now, because(Error::FillWindowExpired)),
                    (s.extensions_granted.contains(id), because(Error::ZeroAmount)),
                ],
            )
        }),
{
    reveal_with_fuel(first_fault, 8);
}

// ── Solvers ─────────────────────────────────────────────────────────────────

/// A deposit is granted to whoever signs it, if it brings the whole bond to the
/// configured minimum, however small the deposit itself.
pub proof fn lemma_registration_judged(
    s: State,
    inv: Invocation,
    solver: Address,
    bond_amount: i128,
)
    ensures
        ({
            let held: int = if s.solvers.contains_key(solver) {
                s.solvers[solver].bond_amount
            } else {
                0
            };
            judged(
                step(s, inv, Call::Register { solver, bond_amount }),
                seq![
                    (!inv.signed(solver), Abort::Auth(solver)),
                    (s.paused, because(Error::ContractPaused)),
                    (bond_amount < 1, because(Error::ZeroAmount)),
                    (
                        held + bond_amount < s.effective_config().min_bond,
                        because(Error::SolverBondTooLow),
                    ),
                    (s.bond_token is None, because(Error::NotInitialized)),
                ],
            )
        }),
{
    reveal_with_fuel(first_fault, 7);
}

/// A solver that signs may leave if it holds no intents.
pub proof fn lemma_exit_judged(s: State, inv: Invocation, solver: Address)
    ensures
        ({
            let record = s.solvers[solver];
            judged(
                step(s, inv, Call::Deregister { solver }),
                seq![
                    (!inv.signed(solver), Abort::Auth(solver)),
                    (s.paused, because(Error::ContractPaused)),
                    (!s.solvers.contains_key(solver), because(Error::SolverNotRegistered)),
                    (record.active_intents > 0, because(Error::SolverHasActiveIntents)),
                    (
                        record.bond_amount > 0 && s.bond_token is None,
                        because(Error::NotInitialized),
                    ),
                ],
            )
        }),
{
    reveal_with_fuel(first_fault, 7);
}

/// A solver that signs may withdraw what its bond has above the configured
/// minimum.
pub proof fn lemma_withdrawal_judged(s: State, inv: Invocation, solver: Address, amount: i128)
    ensures
        ({
            let bond = s.solvers[solver].bond_amount;
            judged(
                step(s, inv, Call::Withdraw { solver, amount }),
                seq![
                    (!inv.signed(solver), Abort::Auth(solver)),
                    (s.paused, because(Error::ContractPaused)),
                    (amount < 1, because(Error::ZeroAmount)),
                    (!s.solvers.contains_key(solver), because(Error::SolverNotRegistered)),
                    (bond < amount, because(Error::InsufficientBond)),
                    (
                        bond < amount + s.effective_config().min_bond,
                        because(Error::SolverBondTooLow),
                    ),
                    (s.bond_token is None, because(Error::NotInitialized)),
                ],
            )
        }),
{
    reveal_with_fuel(first_fault, 9);
}

// ── Governance ──────────────────────────────────────────────────────────────

/// Calls that the admin makes and that can only fail for want of the admin.
pub open spec fn at_will(call: Call) -> bool {
    ||| call is ProposeFeeRecipient
    ||| call is ProposeAdmin
    ||| call is ProposeUpgrade
    ||| call is SetPauser
    ||| call is Unpause
    ||| call is ProposeRemoveToken
    ||| call is EnableTokenList
    ||| call is AllowChain
    ||| call is DisallowChain
    ||| call is EnableChainList
}

/// What the admin may do at will is granted to the admin and to nobody else.
pub proof fn lemma_admin_calls_judged(s: State, inv: Invocation, call: Call)
    requires
        at_will(call),
    ensures
        judged(
            step(s, inv, call),
            seq![
                (s.admin is None, because(Error::NotInitialized)),
                (lacks(s.admin, inv), Abort::Auth(s.admin->0)),
            ],
        ),
{
    reveal_with_fuel(first_fault, 4);
}

/// A contract is initialized once, with the consent of the admin that it gets.
pub proof fn lemma_initialization_judged(
    s: State,
    inv: Invocation,
    admin: Address,
    fee_recipient: Address,
    bond_token: Address,
)
    ensures
        judged(
            step(s, inv, Call::Initialize { admin, fee_recipient, bond_token }),
            seq![
                (s.admin is Some, because(Error::AlreadyInitialized)),
                (!inv.signed(admin), Abort::Auth(admin)),
            ],
        ),
{
    reveal_with_fuel(first_fault, 4);
}

/// A handover of the admin role is granted to the proposed address, once its
/// time has come and with its consent.
pub proof fn lemma_admin_handover_judged(s: State, inv: Invocation, admin: Address)
    ensures
        ({
            let pending = s.pending_admin;
            judged(
                step(s, inv, Call::AcceptAdmin { admin }),
                seq![
                    (pending is None, because(Error::NoPendingAdminTransfer)),
                    (
                        pending matches Some((proposed, _)) && proposed != admin,
                        because(Error::Unauthorized),
                    ),
                    (
                        pending matches Some((_, ready)) && inv.now < ready,
                        because(Error::TimelockNotElapsed),
                    ),
                    (!inv.signed(admin), Abort::Auth(admin)),
                ],
            )
        }),
{
    reveal_with_fuel(first_fault, 6);
}

/// A handover of the fees is granted to the proposed address, once its time has
/// come and with its consent.
pub proof fn lemma_fee_handover_judged(s: State, inv: Invocation, recipient: Address)
    ensures
        ({
            let pending = s.pending_fee_recipient;
            judged(
                step(s, inv, Call::AcceptFeeRecipient { recipient }),
                seq![
                    (pending is None, because(Error::NoPendingFeeRecipient)),
                    (
                        pending matches Some((proposed, _)) && proposed != recipient,
                        because(Error::Unauthorized),
                    ),
                    (
                        pending matches Some((_, ready)) && inv.now < ready,
                        because(Error::TimelockNotElapsed),
                    ),
                    (!inv.signed(recipient), Abort::Auth(recipient)),
                ],
            )
        }),
{
    reveal_with_fuel(first_fault, 6);
}

/// An upgrade is granted to the admin for the proposed code, once its time has
/// come.
pub proof fn lemma_upgrade_judged(s: State, inv: Invocation, wasm_hash: Bytes32)
    ensures
        ({
            let pending = s.pending_upgrade;
            judged(
                step(s, inv, Call::ExecuteUpgrade { wasm_hash }),
                seq![
                    (s.admin is None, because(Error::NotInitialized)),
                    (lacks(s.admin, inv), Abort::Auth(s.admin->0)),
                    (pending is None, because(Error::NoPendingUpgrade)),
                    (
                        pending matches Some((proposed, _)) && proposed != wasm_hash,
                        because(Error::Unauthorized),
                    ),
                    (
                        pending matches Some((_, ready)) && inv.now < ready,
                        because(Error::TimelockNotElapsed),
                    ),
                ],
            )
        }),
{
    reveal_with_fuel(first_fault, 7);
}

/// The storage is migrated by the admin, from any schema before this one.
pub proof fn lemma_migration_judged(s: State, inv: Invocation)
    ensures
        judged(
            step(s, inv, Call::Migrate),
            seq![
                (s.admin is None, because(Error::NotInitialized)),
                (lacks(s.admin, inv), Abort::Auth(s.admin->0)),
                (s.migration_version != 0, because(Error::AlreadyMigrated)),
            ],
        ),
{
    reveal_with_fuel(first_fault, 5);
}

/// The admin may configure a fee of at most 10%, a fill window of a minute or
/// more, a lifetime of five minutes or more that outlasts the fill window, and
/// a minimum bond of 1 USDC or more.
pub proof fn lemma_config_judged(s: State, inv: Invocation, config: ProtocolConfig)
    ensures
        judged(
            step(s, inv, Call::SetConfig { config }),
            seq![
                (s.admin is None, because(Error::NotInitialized)),
                (lacks(s.admin, inv), Abort::Auth(s.admin->0)),
                (
                    config.protocol_fee_bps < 0 || config.protocol_fee_bps > 1_000,
                    because(Error::InvalidConfig),
                ),
                (config.fill_window < 60, because(Error::InvalidConfig)),
                (
                    config.intent_expiry < 300 || config.intent_expiry <= config.fill_window,
                    because(Error::InvalidConfig),
                ),
                (config.min_bond < 10_000_000, because(Error::InvalidConfig)),
            ],
        ),
{
    reveal_with_fuel(first_fault, 8);
}

/// A pause is granted to the admin and to the pauser.
pub proof fn lemma_pause_judged(s: State, inv: Invocation, caller: Address)
    ensures
        judged(
            step(s, inv, Call::Pause { caller }),
            seq![
                (s.admin is None, because(Error::NotInitialized)),
                (
                    s.admin != Some(caller) && s.pauser != Some(caller),
                    because(Error::Unauthorized),
                ),
                (!inv.signed(caller), Abort::Auth(caller)),
            ],
        ),
{
    reveal_with_fuel(first_fault, 5);
}

/// The admin may rescue any positive amount of a token that is neither the bond
/// token nor awaited by an accepted intent.
pub proof fn lemma_rescue_judged(
    s: State,
    inv: Invocation,
    token: Address,
    to: Address,
    amount: i128,
)
    ensures
        judged(
            step(s, inv, Call::Rescue { token, to, amount }),
            seq![
                (s.admin is None, because(Error::NotInitialized)),
                (lacks(s.admin, inv), Abort::Auth(s.admin->0)),
                (amount < 1, because(Error::ZeroAmount)),
                (s.bond_token is None, because(Error::NotInitialized)),
                (
                    s.bond_token == Some(token) || s.accepted_by_token.contains_key(token)
                        && s.accepted_by_token[token] != 0 || exists|id: Bytes32| #[trigger]
                        s.intents.contains_key(id) && s.intents[id].state == IntentState::Accepted
                            && s.intents[id].dst_token == token,
                    because(Error::RescueProtectedToken),
                ),
            ],
        ),
{
    reveal_with_fuel(first_fault, 7);
}

/// The admin may set a discount schedule with ascending volumes, none negative,
/// and no discount above the whole fee.
pub proof fn lemma_tiers_judged(s: State, inv: Invocation, tiers: Seq<(i128, u32)>)
    ensures
        judged(
            step(s, inv, Call::SetTiers { tiers }),
            seq![
                (s.admin is None, because(Error::NotInitialized)),
                (lacks(s.admin, inv), Abort::Auth(s.admin->0)),
                (
                    exists|i: int|
                        0 <= i < tiers.len() && ((#[trigger] tiers[i]).0 < 0 || tiers[i].1
                            > 10_000),
                    because(Error::InvalidFeeTiers),
                ),
                (
                    exists|i: int, j: int|
                        0 <= i < j < tiers.len() && (#[trigger] tiers[i]).0 >= (
                        #[trigger] tiers[j]).0,
                    because(Error::InvalidFeeTiers),
                ),
            ],
        ),
{
    reveal_with_fuel(first_fault, 6);
}

/// The admin may set any positive bond multiplier.
pub proof fn lemma_multiplier_judged(s: State, inv: Invocation, token: Address, multiplier: i128)
    ensures
        judged(
            step(s, inv, Call::SetMultiplier { token, multiplier }),
            seq![
                (s.admin is None, because(Error::NotInitialized)),
                (lacks(s.admin, inv), Abort::Auth(s.admin->0)),
                (multiplier < 1, because(Error::ZeroAmount)),
            ],
        ),
{
    reveal_with_fuel(first_fault, 5);
}

/// The admin may propose any address that answers as a token.
pub proof fn lemma_token_proposal_judged(s: State, inv: Invocation, token: Address, is_token: bool)
    ensures
        judged(
            step(s, inv, Call::ProposeAddToken { token, is_token }),
            seq![
                (s.admin is None, because(Error::NotInitialized)),
                (lacks(s.admin, inv), Abort::Auth(s.admin->0)),
                (!is_token, because(Error::InvalidTokenInterface)),
            ],
        ),
{
    reveal_with_fuel(first_fault, 5);
}

/// A proposed change of the token allowlist is granted to anyone, once its time
/// has come.
pub proof fn lemma_token_change_judged(s: State, inv: Invocation, token: Address)
    ensures
        judged(
            step(s, inv, Call::ExecuteAddToken { token }),
            seq![
                (
                    !s.pending_dst_token_adds.contains_key(token),
                    because(Error::NoPendingDstTokenChange),
                ),
                (inv.now < s.pending_dst_token_adds[token], because(Error::TimelockNotElapsed)),
            ],
        ),
        judged(
            step(s, inv, Call::ExecuteRemoveToken { token }),
            seq![
                (
                    !s.pending_dst_token_removes.contains_key(token),
                    because(Error::NoPendingDstTokenChange),
                ),
                (
                    inv.now < s.pending_dst_token_removes[token],
                    because(Error::TimelockNotElapsed),
                ),
            ],
        ),
{
    reveal_with_fuel(first_fault, 4);
}

} // verus!
