//! How a call changes the record of an intent, and that of a solver.
use vstd::prelude::*;
use crate::context::Invocation;
use crate::settlement::calls::{fits, step, Call};
use crate::settlement::footprint::{lemma_footprint, on_intents};
use crate::settlement::intent_rules::Request;
use crate::settlement::laws::roles_set;
use crate::settlement::state::{refuse, State, Step};
use crate::settlement::types::{Error, IntentState};
use crate::types::{Address, Bytes32};

verus! {

// ── Intents ─────────────────────────────────────────────────────────────────

/// The intent that a call is about.
pub open spec fn names_intent(call: Call, id: Bytes32) -> bool {
    match call {
        Call::Submit { id: named, .. } => named == id,
        Call::Accept { id: named, .. } => named == id,
        Call::Fill { id: named, .. } => named == id,
        Call::Cancel { id: named, .. } => named == id,
        Call::Slash { id: named } => named == id,
        Call::Expire { id: named } => named == id,
        Call::Extend { id: named, .. } => named == id,
        _ => false,
    }
}

/// A call leaves every intent alone but the one that it is about.
pub proof fn lemma_other_intents_alone(s: State, inv: Invocation, call: Call, id: Bytes32)
    requires
        !names_intent(call, id),
    ensures
        step(s, inv, call) matches Step::Done { next, .. } ==> {
            &&& next.intents.contains_key(id) == s.intents.contains_key(id)
            &&& s.intents.contains_key(id) ==> next.intents[id] == s.intents[id]
            &&& next.extensions_granted.contains(id) == s.extensions_granted.contains(id)
        },
{
    match call {
        Call::Submit { .. } => {},
        Call::Accept { .. } => {},
        Call::Fill { .. } => {},
        Call::Cancel { .. } => {},
        Call::Slash { .. } => {},
        Call::Expire { .. } => {},
        Call::Extend { .. } => {},
        _ => lemma_footprint(s, inv, call),
    }
}

/// A submission puts on record what the user asked for: open, held by nobody,
/// with nothing delivered, until the deadline that the user named, however far
/// off, or for the configured lifetime where the user named none. It takes the
/// user's next nonce and stands last on the user's list.
pub proof fn lemma_submission_recorded(s: State, inv: Invocation, request: Request, id: Bytes32)
    requires
        fits(s, inv, Call::Submit { request, id }),
    ensures
        step(s, inv, Call::Submit { request, id }) matches Step::Done { next, .. } ==> {
            let intent = next.intents[id];
            let user = request.user;
            let listed = s.user_intents.contains_key(user);
            &&& next.intents.contains_key(id)
            &&& intent.intent_id == id
            &&& intent.user == user
            &&& intent.src_chain == request.src_chain
            &&& intent.src_token == request.src_token
            &&& intent.src_amount == request.src_amount
            &&& intent.dst_token == request.dst_token
            &&& intent.min_dst_amount == request.min_dst_amount
            &&& intent.state == IntentState::Open
            &&& intent.solver is None
            &&& intent.total_filled == 0
            &&& intent.fill_amount is None
            &&& intent.filled_at is None
            &&& intent.created_at == inv.now
            &&& request.deadline is Some ==> request.deadline == Some(intent.deadline)
            &&& request.deadline is None ==> intent.deadline - inv.now
                == s.effective_config().intent_expiry
            &&& next.user_intents.contains_key(user)
            &&& next.user_intents[user].last() == id
            &&& listed ==> next.user_intents[user].drop_last() == s.user_intents[user]
            &&& !listed ==> next.user_intents[user].len() == 1
            &&& next.user_nonces.contains_key(user)
            &&& next.user_nonces[user] - 1 == if s.user_nonces.contains_key(user) {
                s.user_nonces[user] as int
            } else {
                0
            }
            &&& forall|other: Address| #[trigger]
                next.user_intents.contains_key(other) && other != user
                    ==> s.user_intents.contains_key(other) && next.user_intents[other]
                    == s.user_intents[other]
        },
{
    let after = step(s, inv, Call::Submit { request, id });
    if after is Done {
        let user = request.user;
        let list = after->next.user_intents[user];
        if s.user_intents.contains_key(user) {
            assert(list.drop_last() =~= s.user_intents[user]);
        }
    }
}

/// A user's list and nonce are those on record for the user; a user who never
/// submitted has an empty list and nonce 0.
pub proof fn lemma_user_records(s: State, user: Address)
    ensures
        s.user_intents.contains_key(user) ==> s.intents_of(user) == s.user_intents[user],
        !s.user_intents.contains_key(user) ==> s.intents_of(user).len() == 0,
        s.user_nonces.contains_key(user) ==> s.nonce_of(user) == s.user_nonces[user],
        !s.user_nonces.contains_key(user) ==> s.nonce_of(user) == 0,
{
}

/// A submitted intent can be marked as expired from the deadline that the user
/// named on, and not a second earlier; where none was named, from the end of
/// the configured lifetime on.
pub proof fn lemma_submission_lasts(
    s: State,
    inv: Invocation,
    request: Request,
    id: Bytes32,
    later: Invocation,
)
    requires
        fits(s, inv, Call::Submit { request, id }),
    ensures
        step(s, inv, Call::Submit { request, id }) matches Step::Done { next, .. } ==> {
            let expired = step(next, later, Call::Expire { id });
            &&& request.deadline matches Some(deadline) ==> (expired is Done <==> later.now
                >= deadline)
            &&& request.deadline is None ==> (expired is Done <==> later.now - inv.now
                >= s.effective_config().intent_expiry)
        },
{
}

/// A solver that could accept an intent when it was submitted can accept it at
/// every later moment before the deadline that the user named, as far as the
/// intent is concerned: until then no acceptance is refused for its age.
pub proof fn lemma_submission_acceptable(
    s: State,
    inv: Invocation,
    request: Request,
    id: Bytes32,
    later: Invocation,
    solver: Address,
)
    requires
        fits(s, inv, Call::Submit { request, id }),
        request.deadline matches Some(deadline) && later.now < deadline,
    ensures
        step(s, inv, Call::Submit { request, id }) matches Step::Done { next, .. } ==> {
            let answer = step(next, later, Call::Accept { solver, id });
            &&& answer != refuse(Error::IntentExpired)
            &&& answer != refuse(Error::IntentNotOpen)
            &&& answer != refuse(Error::IntentNotFound)
        },
{
}

/// How a call changes what is on record of an intent: an acceptance hands it to
/// the solver for the length of the fill window; a fill adds what it delivers
/// and settles the intent exactly when the minimum is reached, and otherwise
/// opens it for half an hour more; a slash opens it again for the configured
/// lifetime; a cancellation and an expiry end it; an extension moves the
/// deadline; nothing else changes it.
pub proof fn lemma_intent_evolves(s: State, inv: Invocation, call: Call, id: Bytes32)
    requires
        fits(s, inv, call),
        s.intents.contains_key(id),
        s.intents[id].total_filled >= 0,
    ensures
        step(s, inv, call) matches Step::Done { next, .. } ==> {
            let (was, is) = (s.intents[id], next.intents[id]);
            match call {
                Call::Accept { solver, id: named } if named == id => {
                    &&& is.state == IntentState::Accepted
                    &&& is.solver == Some(solver)
                    &&& is.deadline - inv.now == s.effective_config().fill_window
                    &&& is.total_filled == was.total_filled
                    &&& is.fill_amount == was.fill_amount
                    &&& is.filled_at == was.filled_at
                },
                Call::Fill { solver, id: named, amount } if named == id => {
                    let settled = was.total_filled + amount >= was.min_dst_amount;
                    &&& is.total_filled - was.total_filled == amount
                    &&& is.fill_amount matches Some(told)
                    &&& told == is.total_filled
                    &&& settled ==> is.state == IntentState::Filled && is.filled_at == Some(inv.now)
                        && is.solver == Some(solver) && is.deadline == was.deadline
                    &&& !settled ==> is.state == IntentState::PartiallyFilled && is.solver is None
                        && is.filled_at == was.filled_at && is.deadline - inv.now == 1_800
                },
                Call::Slash { id: named } if named == id => {
                    &&& is.state == if was.total_filled == 0 {
                        IntentState::Open
                    } else {
                        IntentState::PartiallyFilled
                    }
                    &&& is.solver is None
                    &&& is.deadline - inv.now == s.effective_config().intent_expiry
                    &&& is.total_filled == was.total_filled
                    &&& is.fill_amount == was.fill_amount
                    &&& is.filled_at == was.filled_at
                },
                Call::Extend { id: named, .. } if named == id => {
                    &&& is.state == was.state
                    &&& is.solver == was.solver
                    &&& is.deadline >= was.deadline
                    &&& is.deadline >= inv.now + 300
                    &&& is.deadline == was.deadline || is.deadline == inv.now + 300
                    &&& is.total_filled == was.total_filled
                    &&& is.fill_amount == was.fill_amount
                    &&& is.filled_at == was.filled_at
                },
                Call::Cancel { id: named, .. } if named == id => {
                    &&& is.state == IntentState::Cancelled
                    &&& is.solver == was.solver
                    &&& is.deadline == was.deadline
                    &&& is.total_filled == was.total_filled
                    &&& is.fill_amount == was.fill_amount
                    &&& is.filled_at == was.filled_at
                },
                Call::Expire { id: named } if named == id => {
                    &&& is.state == IntentState::Expired
                    &&& is.solver == was.solver
                    &&& is.deadline == was.deadline
                    &&& is.total_filled == was.total_filled
                    &&& is.fill_amount == was.fill_amount
                    &&& is.filled_at == was.filled_at
                },
                _ => is == was,
            }
        },
{
    if !on_intents(call) {
        lemma_footprint(s, inv, call);
    }
}

/// An acceptance gives the solver the intent for exactly the fill window: it
/// can be filled until then, and from then on the solver can be slashed.
pub proof fn lemma_fill_window(
    s: State,
    inv: Invocation,
    solver: Address,
    id: Bytes32,
    later: Invocation,
    amount: i128,
)
    requires
        fits(s, inv, Call::Accept { solver, id }),
        s.bond_token is Some,
        later.now >= inv.now,
    ensures
        step(s, inv, Call::Accept { solver, id }) matches Step::Done { next, .. } ==> {
            let in_time = later.now - inv.now < s.effective_config().fill_window;
            &&& step(next, later, Call::Slash { id }) is Done <==> !in_time
            &&& !in_time ==> step(next, later, Call::Fill { solver, id, amount }) is Refused
            &&& in_time && later.signed(solver) && amount >= 1 && amount * next.fee_bps(solver)
                <= i128::MAX ==> step(next, later, Call::Fill { solver, id, amount }) is Done
        },
{
}

/// The mark of an extension is put on the intent that was extended.
pub proof fn lemma_extension_marked(s: State, inv: Invocation, solver: Address, id: Bytes32)
    ensures
        step(s, inv, Call::Extend { solver, id }) matches Step::Done { next, .. }
            ==> next.extensions_granted == s.extensions_granted.insert(id),
{
}

/// A cancellation puts the user's clock to the time of the call, and no other
/// user's.
pub proof fn lemma_cancellation_clocked(s: State, inv: Invocation, user: Address, id: Bytes32)
    ensures
        step(s, inv, Call::Cancel { user, id }) matches Step::Done { next, .. } ==> {
            &&& next.cancel_times.contains_key(user)
            &&& next.cancel_times[user] == inv.now
            &&& forall|other: Address| #[trigger]
                next.cancel_times.contains_key(other) && other != user
                    ==> s.cancel_times.contains_key(other) && next.cancel_times[other]
                    == s.cancel_times[other]
            &&& forall|other: Address| #[trigger]
                s.cancel_times.contains_key(other) ==> next.cancel_times.contains_key(other)
        },
{
}

/// After a cancellation the user can cancel another open intent an hour later,
/// and not before.
pub proof fn lemma_cancellations_spaced(
    s: State,
    inv: Invocation,
    user: Address,
    id: Bytes32,
    later: Invocation,
    other: Bytes32,
)
    requires
        later.signed(user),
        s.intents.contains_key(other),
        s.intents[other].user == user,
        s.intents[other].state == IntentState::Open,
        other != id,
    ensures
        step(s, inv, Call::Cancel { user, id }) matches Step::Done { next, .. } ==> (step(
            next,
            later,
            Call::Cancel { user, id: other },
        ) is Done <==> later.now >= inv.now + 3_600),
{
}

// ── Solvers ─────────────────────────────────────────────────────────────────

/// The call slashes this solver.
pub open spec fn slashes(s: State, call: Call, solver: Address) -> bool {
    call matches Call::Slash { id } && s.intents[id].solver == Some(solver)
}

/// A first deposit opens a record: the whole deposit as bond, in rotation, with
/// nothing to its name.
pub proof fn lemma_solver_starts(s: State, inv: Invocation, solver: Address, bond_amount: i128)
    requires
        !s.solvers.contains_key(solver),
    ensures
        step(s, inv, Call::Register { solver, bond_amount }) matches Step::Done { next, .. } ==> {
            let record = next.solvers[solver];
            &&& next.solvers.contains_key(solver)
            &&& record.address == solver
            &&& record.bond_amount == bond_amount
            &&& record.is_active
            &&& record.registered_at == inv.now
            &&& record.fills_completed == 0
            &&& record.fills_failed == 0
            &&& record.total_volume == 0
            &&& record.active_intents == 0
            &&& record.last_slash_time == 0
        },
{
}

/// Records of solvers come only from a solver's own deposit and go only by its
/// own exit.
pub proof fn lemma_solvers_come_and_go(s: State, inv: Invocation, call: Call, solver: Address)
    requires
        fits(s, inv, call),
    ensures
        step(s, inv, call) matches Step::Done { next, .. } ==> {
            &&& next.solvers.contains_key(solver) && !s.solvers.contains_key(solver) ==> (
            call matches Call::Register { solver: named, .. } && named == solver)
            &&& s.solvers.contains_key(solver) ==> (next.solvers.contains_key(solver) <==> call != (
            Call::Deregister { solver }))
        },
{
    match call {
        Call::Register { .. } => {},
        Call::Deregister { .. } => {},
        Call::Withdraw { .. } => {},
        Call::Accept { .. } => {},
        Call::Fill { .. } => {},
        Call::Slash { .. } => {},
        _ => lemma_footprint(s, inv, call),
    }
}

/// How a call changes what is on record of a solver. Its bond grows by what it
/// deposits, falls by what it withdraws and by a tenth, rounded down but not
/// below one unit, when it is slashed. A deposit of any size brings it into
/// rotation; a slash takes it out exactly when the rest of its bond is below the
/// configured minimum. Completed fills, failures, volume and the intents it
/// holds are counted one by one, and the time of its last slash is kept.
pub proof fn lemma_solver_evolves(s: State, inv: Invocation, call: Call, solver: Address)
    requires
        fits(s, inv, call),
        s.solvers.contains_key(solver),
    ensures
        step(s, inv, call) matches Step::Done { next, .. } ==> next.solvers.contains_key(solver)
            ==> {
            let (was, is) = (s.solvers[solver], next.solvers[solver]);
            let slashed = slashes(s, call, solver);
            let lost = was.bond_amount - is.bond_amount;
            &&& is.address == was.address
            &&& is.registered_at == was.registered_at
            &&& match call {
                Call::Register { solver: named, bond_amount } if named == solver => lost
                    == -bond_amount,
                Call::Withdraw { solver: named, amount } if named == solver => lost == amount,
                _ => slashed || lost == 0,
            }
            &&& slashed ==> lost >= 1
            &&& slashed && was.bond_amount < 20 ==> lost == 1
            &&& slashed && was.bond_amount >= 20 ==> 10 * lost <= was.bond_amount < 10 * lost + 10
            &&& is.is_active <==> match call {
                Call::Register { solver: named, .. } if named == solver => true,
                _ => was.is_active && (slashed ==> is.bond_amount
                    >= s.effective_config().min_bond),
            }
            &&& is.fills_failed == was.fills_failed + if slashed {
                1int
            } else {
                0
            }
            &&& is.last_slash_time == if slashed {
                inv.now
            } else {
                was.last_slash_time
            }
            &&& match call {
                Call::Fill { solver: named, id, amount } if named == solver => {
                    &&& is.total_volume - was.total_volume == amount
                    &&& is.fills_completed - was.fills_completed == if s.intents[id].total_filled
                        + amount >= s.intents[id].min_dst_amount {
                        1int
                    } else {
                        0
                    }
                    &&& was.active_intents >= 1 ==> is.active_intents == was.active_intents - 1
                },
                Call::Accept { solver: named, .. } if named == solver => {
                    &&& is.total_volume == was.total_volume
                    &&& is.fills_completed == was.fills_completed
                    &&& is.active_intents == was.active_intents + 1
                },
                _ => {
                    &&& is.total_volume == was.total_volume
                    &&& is.fills_completed == was.fills_completed
                    &&& if slashed {
                        was.active_intents >= 1 ==> is.active_intents == was.active_intents - 1
                    } else {
                        is.active_intents == was.active_intents
                    }
                },
            }
        },
{
    match call {
        Call::Register { .. } => {},
        Call::Deregister { .. } => {},
        Call::Withdraw { .. } => {},
        Call::Accept { .. } => {},
        Call::Fill { .. } => {},
        Call::Slash { .. } => {},
        _ => lemma_footprint(s, inv, call),
    }
}

/// Whoever deposits is in rotation from then on; with 50 USDC or more and no
/// slash in the last hour it counts as eligible at once, whatever it was before
/// and however small the deposit.
pub proof fn lemma_deposit_restores(
    s: State,
    inv: Invocation,
    solver: Address,
    bond_amount: i128,
    later: Invocation,
)
    ensures
        step(s, inv, Call::Register { solver, bond_amount }) matches Step::Done { next, .. } ==> {
            let record = next.solvers[solver];
            &&& next.solvers.contains_key(solver)
            &&& record.is_active
            &&& record.bond_amount >= s.effective_config().min_bond
            &&& record.bond_amount >= 500_000_000 && (record.last_slash_time == 0 || later.now
                >= record.last_slash_time + 3_600) ==> next.eligible(solver, later.now)
        },
{
}

/// A solver's own deposit is the only thing that brings it back into rotation.
pub proof fn lemma_only_a_deposit_restores(s: State, inv: Invocation, call: Call, solver: Address)
    requires
        fits(s, inv, call),
        s.solvers.contains_key(solver),
        !s.solvers[solver].is_active,
    ensures
        step(s, inv, call) matches Step::Done { next, .. } ==> next.solvers.contains_key(solver)
            && next.solvers[solver].is_active ==> (call matches Call::Register {
            solver: named,
            ..
        } && named == solver),
{
    lemma_solver_evolves(s, inv, call, solver);
}

/// Every solver in rotation covers the configured minimum.
pub open spec fn rotation_covered(s: State) -> bool {
    forall|a: Address| #[trigger]
        s.solvers.contains_key(a) && s.solvers[a].is_active ==> s.solvers[a].bond_amount
            >= s.effective_config().min_bond
}

/// As long as the configuration stays as it is, every solver in rotation keeps
/// covering the configured minimum, through slashes, deposits, withdrawals and
/// fills alike.
pub proof fn lemma_rotation_covered(s: State, inv: Invocation, call: Call)
    requires
        rotation_covered(s),
        roles_set(s),
        fits(s, inv, call),
        call !is SetConfig,
    ensures
        step(s, inv, call) matches Step::Done { next, .. } ==> rotation_covered(next),
{
    if step(s, inv, call) is Done {
        let next = step(s, inv, call)->next;
        assert forall|a: Address| #[trigger]
            next.solvers.contains_key(a) && next.solvers[a].is_active implies
            next.solvers[a].bond_amount >= next.effective_config().min_bond by {
            lemma_footprint(s, inv, call);
            lemma_solvers_come_and_go(s, inv, call, a);
            if s.solvers.contains_key(a) {
                lemma_solver_evolves(s, inv, call, a);
            }
        }
    }
}

/// A slash that leaves the solver below the configured minimum takes it out of
/// rotation: it is not eligible, and no acceptance of it is granted however long
/// it waits. One that leaves it at the minimum or above does not.
pub proof fn lemma_slash_and_rotation(
    s: State,
    inv: Invocation,
    id: Bytes32,
    later: Invocation,
    other: Bytes32,
)
    requires
        fits(s, inv, Call::Slash { id }),
    ensures
        step(s, inv, Call::Slash { id }) matches Step::Done { next, .. } ==> {
            let solver = s.intents[id].solver->0;
            let was = s.solvers[solver];
            let is = next.solvers[solver];
            let short = is.bond_amount < s.effective_config().min_bond;
            &&& is.is_active <==> was.is_active && !short
            &&& short ==> !next.eligible(solver, later.now)
            &&& short ==> step(next, later, Call::Accept { solver, id: other }) is Refused
            &&& short && later.signed(solver) && !s.paused ==> step(
                next,
                later,
                Call::Accept { solver, id: other },
            ) == refuse(Error::SolverInactive)
        },
{
}

/// Who counts as eligible: a registered solver in rotation, with 50 USDC or more
/// as bond, that was not slashed in the last hour.
pub proof fn lemma_eligibility(s: State, solver: Address, now: u64)
    ensures
        s.eligible(solver, now) <==> {
            let record = s.solvers[solver];
            &&& s.solvers.contains_key(solver)
            &&& record.is_active
            &&& record.bond_amount >= 500_000_000
            &&& record.last_slash_time == 0 || now >= record.last_slash_time + 3_600
        },
{
}

} // verus!
