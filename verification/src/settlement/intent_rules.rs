//! What each step in the life of an intent does.
use vstd::prelude::*;
use crate::context::{Abort, Invocation};
use crate::settlement::state::{refuse, unsigned, State, Step};
use crate::settlement::token_format::token_matches_chain;
use crate::settlement::types::{Effect, Error, Event, Intent, IntentState, Solver, CANCEL_COOLDOWN,
    DEFAULT_BOND_MULTIPLIER, INTENT_EXPIRY, MAX_AMOUNT, MAX_EXTENSION_DURATION, MIN_BOND,
    SLASH_COOLDOWN};
use crate::types::{Address, Bytes32};

verus! {

/// A counter after one of its items is gone; a counter at zero stays there.
pub open spec fn one_fewer(count: int) -> int {
    if count > 0 {
        count - 1
    } else {
        0
    }
}

/// Publishing `event`.
pub open spec fn emit(event: Event) -> Effect {
    Effect::Emit { event }
}

impl State {
    /// How many intents `user` has submitted.
    pub open spec fn nonce_of(self, user: Address) -> u64 {
        if self.user_nonces.contains_key(user) {
            self.user_nonces[user]
        } else {
            0
        }
    }

    /// The ids of the intents of `user`, oldest first.
    pub open spec fn intents_of(self, user: Address) -> Seq<Bytes32> {
        if self.user_intents.contains_key(user) {
            self.user_intents[user]
        } else {
            Seq::empty()
        }
    }

    /// How many accepted intents are on record as awaiting `token`.
    pub open spec fn accepted_for(self, token: Address) -> u64 {
        if self.accepted_by_token.contains_key(token) {
            self.accepted_by_token[token]
        } else {
            0
        }
    }

    /// The record of accepted intents with one more that awaits `token`.
    pub open spec fn one_more_accepted(self, token: Address) -> Map<Address, u64> {
        self.accepted_by_token.insert(token, (self.accepted_for(token) + 1) as u64)
    }

    /// The record of accepted intents with one fewer that awaits `token`.
    pub open spec fn one_fewer_accepted(self, token: Address) -> Map<Address, u64> {
        self.accepted_by_token.insert(token, one_fewer(self.accepted_for(token) as int) as u64)
    }

    /// The bond multiplier of a token, in tenths.
    pub open spec fn multiplier_of(self, token: Address) -> i128 {
        if self.min_bond_multipliers.contains_key(token) {
            self.min_bond_multipliers[token]
        } else {
            DEFAULT_BOND_MULTIPLIER
        }
    }

    /// The bond a solver needs to accept an intent for `token`.
    pub open spec fn adjusted_min_bond(self, token: Address) -> int {
        MIN_BOND * self.multiplier_of(token) / 10
    }
}

// ── Submission ──────────────────────────────────────────────────────────────

/// What a user asks for.
pub struct Request {
    pub user: Address,
    pub src_chain: Seq<u8>,
    pub src_token: Seq<u8>,
    pub src_amount: i128,
    pub dst_token: Address,
    pub min_dst_amount: i128,
    pub deadline: Option<u64>,
}

/// The request with these parts.
pub open spec fn request(
    user: Address,
    src_chain: Seq<u8>,
    src_token: Seq<u8>,
    src_amount: i128,
    dst_token: Address,
    min_dst_amount: i128,
    deadline: Option<u64>,
) -> Request {
    Request { user, src_chain, src_token, src_amount, dst_token, min_dst_amount, deadline }
}

/// Why a submission is turned down before its deadline is looked at.
pub open spec fn submission_refusal(s: State, inv: Invocation, q: Request) -> Option<Abort<Error>> {
    if !inv.signed(q.user) {
        Some(Abort::Auth(q.user))
    } else if s.paused {
        Some(Abort::Error(Error::ContractPaused))
    } else if q.src_amount <= 0 || q.min_dst_amount <= 0 {
        Some(Abort::Error(Error::ZeroAmount))
    } else if q.src_amount > MAX_AMOUNT || q.min_dst_amount > MAX_AMOUNT {
        Some(Abort::Error(Error::AmountTooLarge))
    } else if s.dst_allowlist_enabled && !s.allowed_dst_tokens.contains(q.dst_token) {
        Some(Abort::Error(Error::DstTokenNotAllowed))
    } else if s.src_chain_allowlist_enabled && !s.allowed_src_chains.contains(q.src_chain) {
        Some(Abort::Error(Error::SrcChainNotAllowed))
    } else {
        None
    }
}

/// When an intent lapses: at the deadline the user names, or else when the
/// configured lifetime has passed.
pub open spec fn submission_expiry(s: State, inv: Invocation, q: Request) -> u64 {
    match q.deadline {
        Some(deadline) => deadline,
        None => (inv.now + s.effective_config().intent_expiry) as u64,
    }
}

/// Whether the user names a deadline that is not in the future.
pub open spec fn deadline_passed(q: Request, now: u64) -> bool {
    q.deadline matches Some(deadline) && deadline <= now
}

/// Why a submission is turned down, whatever its id will be.
pub open spec fn submission_abort(s: State, inv: Invocation, q: Request) -> Option<Abort<Error>> {
    if submission_refusal(s, inv, q) is Some {
        submission_refusal(s, inv, q)
    } else if deadline_passed(q, inv.now) {
        Some(Abort::Error(Error::InvalidDeadline))
    } else if !token_matches_chain(q.src_chain, q.src_token) {
        Some(Abort::Error(Error::InvalidSrcToken))
    } else {
        None
    }
}

/// The intent that a submission creates under `id`.
pub open spec fn submitted_intent(s: State, inv: Invocation, q: Request, id: Bytes32) -> Intent {
    Intent {
        intent_id: id,
        user: q.user,
        src_chain: q.src_chain,
        src_token: q.src_token,
        src_amount: q.src_amount as int,
        dst_token: q.dst_token,
        min_dst_amount: q.min_dst_amount as int,
        solver: None,
        state: IntentState::Open,
        created_at: inv.now,
        deadline: submission_expiry(s, inv, q),
        filled_at: None,
        fill_amount: None,
        total_filled: 0,
    }
}

/// A user submits an intent, which is to be known as `id`.
pub open spec fn submit_step(s: State, inv: Invocation, q: Request, id: Bytes32) -> Step {
    match submission_abort(s, inv, q) {
        Some(abort) => Step::Refused { abort },
        None => if s.intents.contains_key(id) {
            refuse(Error::IntentAlreadyExists)
        } else {
            Step::Done {
                next: State {
                    user_nonces: s.user_nonces.insert(q.user, (s.nonce_of(q.user) + 1) as u64),
                    intents: s.intents.insert(id, submitted_intent(s, inv, q, id)),
                    user_intents: s.user_intents.insert(q.user, s.intents_of(q.user).push(id)),
                    total_intents: s.total_intents + 1,
                    open_intents: s.open_intents + 1,
                    ..s
                },
                effects: seq![
                    Effect::ExtendInstance,
                    Effect::ExtendIntent { intent_id: id },
                    emit(
                        Event::IntentSubmitted {
                            user: q.user,
                            intent_id: id,
                            min_dst_amount: q.min_dst_amount,
                            deadline: submission_expiry(s, inv, q),
                        },
                    ),
                ],
            }
        },
    }
}

/// The configured lifetime and the counters that a submission advances fit
/// their types.
pub open spec fn submit_fits(s: State, inv: Invocation, q: Request) -> bool {
    &&& submission_refusal(s, inv, q) is None && token_matches_chain(q.src_chain, q.src_token)
        ==> inv.now + s.effective_config().intent_expiry <= u64::MAX
    &&& submission_abort(s, inv, q) is None ==> {
        &&& s.nonce_of(q.user) < u64::MAX
        &&& s.total_intents < u64::MAX
        &&& s.open_intents < u64::MAX
    }
}

// ── Acceptance ──────────────────────────────────────────────────────────────

/// A solver claims an intent for the length of the fill window.
pub open spec fn accept_step(s: State, inv: Invocation, solver: Address, id: Bytes32) -> Step {
    let record = s.solvers[solver];
    let intent = s.intents[id];
    let deadline = (inv.now + s.effective_config().fill_window) as u64;
    if !inv.signed(solver) {
        unsigned(solver)
    } else if s.paused {
        refuse(Error::ContractPaused)
    } else if !s.solvers.contains_key(solver) {
        refuse(Error::SolverNotRegistered)
    } else if !record.is_active || in_slash_cooldown(record, inv.now) {
        refuse(Error::SolverInactive)
    } else if !s.intents.contains_key(id) {
        refuse(Error::IntentNotFound)
    } else if record.bond_amount < s.adjusted_min_bond(intent.dst_token) {
        refuse(Error::SolverBondTooLow)
    } else if inv.now >= intent.deadline {
        refuse(Error::IntentExpired)
    } else if !intent.is_open() {
        refuse(Error::IntentNotOpen)
    } else {
        Step::Done {
            next: State {
                intents: s.intents.insert(
                    id,
                    Intent {
                        solver: Some(solver),
                        state: IntentState::Accepted,
                        deadline,
                        ..intent
                    },
                ),
                solvers: s.solvers.insert(
                    solver,
                    Solver { active_intents: record.active_intents + 1, ..record },
                ),
                open_intents: one_fewer(s.open_intents),
                accepted_by_token: s.one_more_accepted(intent.dst_token),
                ..s
            },
            effects: seq![
                Effect::ExtendInstance,
                Effect::ExtendSolver { solver },
                Effect::ExtendIntent { intent_id: id },
                emit(Event::IntentAccepted { solver, intent_id: id, deadline }),
            ],
        }
    }
}

/// Whether a solver was slashed too recently to accept.
pub open spec fn in_slash_cooldown(record: Solver, now: u64) -> bool {
    record.last_slash_time > 0 && now < record.last_slash_time + SLASH_COOLDOWN
}

/// What is computed to decide on an acceptance fits its type: the end of the
/// solver's cooldown and the bond that the intent's token asks for.
pub open spec fn accept_guards_fit(
    s: State,
    inv: Invocation,
    solver: Address,
    id: Bytes32,
) -> bool {
    let record = s.solvers[solver];
    inv.signed(solver) && !s.paused && s.solvers.contains_key(solver) && record.is_active ==> {
        &&& record.last_slash_time > 0 ==> record.last_slash_time + SLASH_COOLDOWN <= u64::MAX
        &&& !in_slash_cooldown(record, inv.now) && s.intents.contains_key(id) ==> MIN_BOND
            * s.multiplier_of(s.intents[id].dst_token) <= i128::MAX
    }
}

/// The sums that an acceptance computes fit their types.
pub open spec fn accept_fits(s: State, inv: Invocation, solver: Address, id: Bytes32) -> bool {
    &&& accept_guards_fit(s, inv, solver, id)
    &&& accept_step(s, inv, solver, id) is Done ==> {
        &&& inv.now + s.effective_config().fill_window <= u64::MAX
        &&& s.solvers[solver].active_intents < u32::MAX
        &&& s.accepted_for(s.intents[id].dst_token) < u64::MAX
    }
}

// ── Filling ─────────────────────────────────────────────────────────────────

/// The protocol fee on a fill.
pub open spec fn fill_fee(s: State, solver: Address, amount: int) -> int {
    amount * s.fee_bps(solver) / 10_000
}

/// An intent after `amount` more has been delivered: settled once the user has
/// the minimum, otherwise open again for the rest.
pub open spec fn filled_intent(intent: Intent, now: u64, amount: int) -> Intent {
    let delivered = intent.total_filled + amount;
    if delivered >= intent.min_dst_amount {
        Intent {
            total_filled: delivered,
            fill_amount: Some(delivered as i128),
            state: IntentState::Filled,
            filled_at: Some(now),
            ..intent
        }
    } else {
        Intent {
            total_filled: delivered,
            fill_amount: Some(delivered as i128),
            state: IntentState::PartiallyFilled,
            solver: None,
            deadline: (now + INTENT_EXPIRY) as u64,
            ..intent
        }
    }
}

/// A solver's record after a fill, which `settles` the intent or not.
pub open spec fn filling_solver(record: Solver, amount: int, settles: bool) -> Solver {
    Solver {
        total_volume: record.total_volume + amount,
        fills_completed: if settles {
            record.fills_completed + 1
        } else {
            record.fills_completed
        },
        active_intents: one_fewer(record.active_intents),
        ..record
    }
}

/// The effects of a fill: the user's output, then the fee, both from the solver.
pub open spec fn fill_effects(
    s: State,
    solver: Address,
    id: Bytes32,
    amount: i128,
) -> Seq<Effect> {
    let intent = s.intents[id];
    let fee = fill_fee(s, solver, amount as int);
    let output = seq![
        Effect::ExtendInstance,
        Effect::ExtendSolver { solver },
        Effect::ExtendIntent { intent_id: id },
        Effect::Transfer { token: intent.dst_token, from: solver, to: intent.user, amount },
    ];
    let charge = if fee > 0 {
        seq![
            Effect::Transfer {
                token: intent.dst_token,
                from: solver,
                to: s.fee_recipient->0,
                amount: fee as i128,
            },
        ]
    } else {
        Seq::empty()
    };
    output + charge + seq![
        emit(
            Event::IntentFilled { solver, intent_id: id, fill_amount: amount, fee: fee as i128 },
        ),
    ]
}

/// The solver that holds an intent delivers `amount` to its user.
pub open spec fn fill_step(
    s: State,
    inv: Invocation,
    solver: Address,
    id: Bytes32,
    amount: i128,
) -> Step {
    let intent = s.intents[id];
    let filled = filled_intent(intent, inv.now, amount as int);
    let settles = filled.state == IntentState::Filled;
    if !inv.signed(solver) {
        unsigned(solver)
    } else if s.paused {
        refuse(Error::ContractPaused)
    } else if !s.intents.contains_key(id) {
        refuse(Error::IntentNotFound)
    } else if inv.now >= intent.deadline {
        refuse(Error::FillWindowExpired)
    } else if intent.state == IntentState::Filled {
        refuse(Error::IntentAlreadyFilled)
    } else if intent.state != IntentState::Accepted {
        refuse(Error::IntentNotAccepted)
    } else if intent.solver != Some(solver) {
        refuse(Error::Unauthorized)
    } else if amount <= 0 {
        refuse(Error::ZeroAmount)
    } else if amount * s.fee_bps(solver) > i128::MAX {
        refuse(Error::FeeOverflow)
    } else {
        Step::Done {
            next: State {
                intents: s.intents.insert(id, filled),
                solvers: s.solvers.insert(
                    solver,
                    filling_solver(s.solvers[solver], amount as int, settles),
                ),
                total_volume: s.total_volume + amount,
                open_intents: if settles {
                    s.open_intents
                } else {
                    s.open_intents + 1
                },
                accepted_by_token: s.one_fewer_accepted(intent.dst_token),
                ..s
            },
            effects: fill_effects(s, solver, id, amount),
        }
    }
}

/// A fill finds the records it needs, and its sums fit their types.
pub open spec fn fill_fits(
    s: State,
    inv: Invocation,
    solver: Address,
    id: Bytes32,
    amount: i128,
) -> bool {
    fill_step(s, inv, solver, id, amount) is Done ==> {
        let intent = s.intents[id];
        let record = s.solvers[solver];
        &&& s.solvers.contains_key(solver)
        &&& fill_fee(s, solver, amount as int) > 0 ==> s.fee_recipient is Some
        &&& intent.total_filled + amount <= i128::MAX
        &&& record.total_volume + amount <= i128::MAX
        &&& s.total_volume + amount <= i128::MAX
        &&& if intent.total_filled + amount >= intent.min_dst_amount {
            record.fills_completed < u32::MAX
        } else {
            inv.now + INTENT_EXPIRY <= u64::MAX && s.open_intents < u64::MAX
        }
    }
}

// ── Cancellation and expiry ─────────────────────────────────────────────────

/// A user takes back an intent that no solver holds.
pub open spec fn cancel_step(s: State, inv: Invocation, user: Address, id: Bytes32) -> Step {
    let intent = s.intents[id];
    if !inv.signed(user) {
        unsigned(user)
    } else if s.cancel_times.contains_key(user) && inv.now < s.cancel_times[user]
        + CANCEL_COOLDOWN {
        refuse(Error::CancelCooldownNotExpired)
    } else if !s.intents.contains_key(id) {
        refuse(Error::IntentNotFound)
    } else if intent.user != user {
        refuse(Error::Unauthorized)
    } else if intent.state == IntentState::Accepted {
        refuse(Error::CannotCancelAccepted)
    } else if !intent.is_open() {
        refuse(Error::IntentNotOpen)
    } else {
        Step::Done {
            next: State {
                intents: s.intents.insert(
                    id,
                    Intent { state: IntentState::Cancelled, ..intent },
                ),
                open_intents: one_fewer(s.open_intents),
                cancel_times: s.cancel_times.insert(user, inv.now),
                ..s
            },
            effects: seq![
                Effect::ExtendInstance,
                Effect::ExtendIntent { intent_id: id },
                emit(Event::IntentCancelled { user, intent_id: id }),
            ],
        }
    }
}

/// The end of the user's cooldown fits its type.
pub open spec fn cancel_fits(s: State, inv: Invocation, user: Address) -> bool {
    inv.signed(user) && s.cancel_times.contains_key(user) ==> s.cancel_times[user]
        + CANCEL_COOLDOWN <= u64::MAX
}

/// Anyone marks an open intent as expired once its deadline has passed.
pub open spec fn expire_step(s: State, inv: Invocation, id: Bytes32) -> Step {
    let intent = s.intents[id];
    if !s.intents.contains_key(id) {
        refuse(Error::IntentNotFound)
    } else if !intent.is_open() {
        refuse(Error::IntentNotOpen)
    } else if inv.now < intent.deadline {
        refuse(Error::DeadlineNotReached)
    } else {
        Step::Done {
            next: State {
                intents: s.intents.insert(id, Intent { state: IntentState::Expired, ..intent }),
                open_intents: one_fewer(s.open_intents),
                ..s
            },
            effects: seq![
                Effect::ExtendInstance,
                Effect::ExtendIntent { intent_id: id },
                emit(Event::IntentExpired { intent_id: id }),
            ],
        }
    }
}

// ── Slashing ────────────────────────────────────────────────────────────────

/// What a slash takes from a bond: a tenth, and at least one unit.
pub open spec fn slash_amount(bond: int) -> int {
    if bond / 10 > 1 {
        bond / 10
    } else {
        1
    }
}

/// An intent that its solver has lost: open again, for a full lifetime.
pub open spec fn reopened_intent(intent: Intent, deadline: u64) -> Intent {
    Intent {
        state: if intent.total_filled > 0 {
            IntentState::PartiallyFilled
        } else {
            IntentState::Open
        },
        solver: None,
        deadline,
        ..intent
    }
}

/// A slashed solver's record; below the minimum bond it is out of rotation.
pub open spec fn slashed_solver(record: Solver, now: u64, min_bond: int) -> Solver {
    let bond = record.bond_amount - slash_amount(record.bond_amount);
    Solver {
        bond_amount: bond,
        fills_failed: record.fills_failed + 1,
        last_slash_time: now,
        active_intents: one_fewer(record.active_intents),
        is_active: record.is_active && bond >= min_bond,
        ..record
    }
}

/// Anyone slashes a solver whose fill window has closed on an intent it holds.
pub open spec fn slash_step(s: State, inv: Invocation, id: Bytes32) -> Step {
    let intent = s.intents[id];
    let solver = intent.solver->0;
    let record = s.solvers[solver];
    let config = s.effective_config();
    let amount = slash_amount(record.bond_amount);
    if !s.intents.contains_key(id) {
        refuse(Error::IntentNotFound)
    } else if intent.state != IntentState::Accepted {
        refuse(Error::IntentNotAccepted)
    } else if inv.now < intent.deadline {
        refuse(Error::FillWindowExpired)
    } else if s.bond_token is None {
        refuse(Error::NotInitialized)
    } else {
        Step::Done {
            next: State {
                intents: s.intents.insert(
                    id,
                    reopened_intent(intent, (inv.now + config.intent_expiry) as u64),
                ),
                solvers: s.solvers.insert(
                    solver,
                    slashed_solver(record, inv.now, config.min_bond as int),
                ),
                open_intents: s.open_intents + 1,
                accepted_by_token: s.one_fewer_accepted(intent.dst_token),
                ..s
            },
            effects: seq![
                Effect::ExtendInstance,
                Effect::ExtendSolver { solver },
                Effect::ExtendIntent { intent_id: id },
                Effect::Transfer {
                    token: s.bond_token->0,
                    from: inv.contract,
                    to: s.fee_recipient->0,
                    amount: amount as i128,
                },
                emit(Event::SolverSlashed { solver, intent_id: id, amount: amount as i128 }),
            ],
        }
    }
}

/// A slash finds the records it needs, and its sums fit their types.
pub open spec fn slash_fits(s: State, inv: Invocation, id: Bytes32) -> bool {
    let intent = s.intents[id];
    let record = s.solvers[intent.solver->0];
    s.intents.contains_key(id) && intent.state == IntentState::Accepted && inv.now
        >= intent.deadline ==> {
        &&& intent.solver is Some
        &&& s.solvers.contains_key(intent.solver->0)
        &&& record.bond_amount > i128::MIN
        &&& record.fills_failed < u32::MAX
        &&& inv.now + s.effective_config().intent_expiry <= u64::MAX
        &&& s.open_intents < u64::MAX
        &&& s.bond_token is Some ==> s.fee_recipient is Some
    }
}

// ── Extension ───────────────────────────────────────────────────────────────

/// The deadline that an extension at `now` sets: the end of the longest
/// extension, or the deadline as it is where that is later.
pub open spec fn extended_deadline(deadline: u64, now: u64) -> u64 {
    if deadline >= now + MAX_EXTENSION_DURATION {
        deadline
    } else {
        (now + MAX_EXTENSION_DURATION) as u64
    }
}

/// The solver that holds an intent asks, while its fill window is open, for
/// more time; once per intent.
pub open spec fn extension_step(s: State, inv: Invocation, solver: Address, id: Bytes32) -> Step {
    let intent = s.intents[id];
    let deadline = extended_deadline(intent.deadline, inv.now);
    if !inv.signed(solver) {
        unsigned(solver)
    } else if !s.intents.contains_key(id) {
        refuse(Error::IntentNotFound)
    } else if intent.state != IntentState::Accepted {
        refuse(Error::IntentNotAccepted)
    } else if intent.solver != Some(solver) {
        refuse(Error::Unauthorized)
    } else if inv.now >= intent.deadline {
        refuse(Error::FillWindowExpired)
    } else if s.extensions_granted.contains(id) {
        refuse(Error::ZeroAmount)
    } else {
        Step::Done {
            next: State {
                intents: s.intents.insert(id, Intent { deadline, ..intent }),
                extensions_granted: s.extensions_granted.insert(id),
                ..s
            },
            effects: seq![
                Effect::ExtendInstance,
                Effect::ExtendIntent { intent_id: id },
                emit(Event::ExtensionGranted { solver, intent_id: id, deadline }),
            ],
        }
    }
}

/// The new deadline fits its type.
pub open spec fn extension_fits(s: State, inv: Invocation, solver: Address, id: Bytes32) -> bool {
    extension_step(s, inv, solver, id) is Done ==> inv.now + MAX_EXTENSION_DURATION <= u64::MAX
}

} // verus!
