//! What holds of the contract as a whole.
use vstd::prelude::*;
use crate::context::Invocation;
use crate::settlement::admin::awaits;
use crate::settlement::calls::{fits, step, Call};
use crate::settlement::fees::{discount_for, lemma_tiers_reached, tiers_reached};
use crate::settlement::footprint::{lemma_footprint, lemma_modest};
use crate::settlement::intent_rules::{fill_fee, slash_amount, submitted_intent};
use crate::settlement::state::{refuse, IntentSettlement, State, Step};
use crate::settlement::types::{Effect, Error, Intent, IntentState, ProtocolConfig, Solver,
    CANCEL_COOLDOWN, DEFAULT_BOND_MULTIPLIER, MAX_EXTENSION_DURATION, SLASH_COOLDOWN};
use crate::tally::{lemma_total_bounds, lemma_total_empty, lemma_total_insert, lemma_total_remove,
    lemma_total_zero, total};
use crate::types::{Address, Bytes32};

verus! {

// ── Books ───────────────────────────────────────────────────────────────────

/// One for an intent that awaits a solver.
pub open spec fn open_unit() -> spec_fn(Intent) -> int {
    |i: Intent|
        if i.is_open() {
            1
        } else {
            0
        }
}

/// One for an intent that `solver` holds.
pub open spec fn held_unit(solver: Address) -> spec_fn(Intent) -> int {
    |i: Intent|
        if i.state == IntentState::Accepted && i.solver == Some(solver) {
            1
        } else {
            0
        }
}

/// One for an accepted intent that awaits `token`.
pub open spec fn accepted_unit(token: Address) -> spec_fn(Intent) -> int {
    |i: Intent|
        if awaits(i, token) {
            1
        } else {
            0
        }
}

/// The length of a user's list.
pub open spec fn list_len() -> spec_fn(Seq<Bytes32>) -> int {
    |ids: Seq<Bytes32>| ids.len() as int
}

/// What an intent's user has received.
pub open spec fn delivered() -> spec_fn(Intent) -> int {
    |i: Intent| i.total_filled
}

/// A solver's bond.
pub open spec fn bond() -> spec_fn(Solver) -> int {
    |r: Solver| r.bond_amount
}

impl State {
    /// How many intents the record of a solver says it holds.
    pub open spec fn active_of(self, solver: Address) -> int {
        if self.solvers.contains_key(solver) {
            self.solvers[solver].active_intents
        } else {
            0
        }
    }

    /// The sum of all bonds.
    pub open spec fn bonds(self) -> int {
        total(self.solvers, bond())
    }
}

/// The record of accepted intents per token agrees with the intents.
pub open spec fn accepted_counted(s: State) -> bool {
    &&& s.intents.dom().finite()
    &&& forall|token: Address| #[trigger]
        s.accepted_for(token) == total(s.intents, accepted_unit(token))
}

/// The counters agree with the records they count: intents ever submitted,
/// which are also those on the users' lists, intents that await a solver,
/// registered solvers, the intents each solver holds, the accepted intents that
/// await each token, and the volume delivered.
pub open spec fn books_balance(s: State) -> bool {
    &&& s.intents.dom().finite()
    &&& s.solvers.dom().finite()
    &&& s.user_intents.dom().finite()
    &&& accepted_counted(s)
    &&& s.total_intents == s.intents.dom().len()
    &&& s.total_intents == total(s.user_intents, list_len())
    &&& s.open_intents == total(s.intents, open_unit())
    &&& s.total_solvers == s.solvers.dom().len()
    &&& s.total_volume == total(s.intents, delivered())
    &&& forall|solver: Address| #[trigger]
        s.active_of(solver) == total(s.intents, held_unit(solver))
}

/// An intent's fields agree with its state: a solver holds it exactly while it
/// is accepted or once it is filled, it is open with nothing, partially filled
/// with less than the minimum and filled with at least the minimum delivered,
/// and no intent is ever in the slashed state.
pub open spec fn well_shaped(id: Bytes32, i: Intent) -> bool {
    &&& i.intent_id == id
    &&& i.src_amount > 0
    &&& i.min_dst_amount > 0
    &&& i.total_filled >= 0
    &&& i.fill_amount == if i.total_filled > 0 {
        Some(i.total_filled as i128)
    } else {
        None
    }
    &&& i.filled_at is Some <==> i.state == IntentState::Filled
    &&& i.solver is Some <==> i.state == IntentState::Accepted || i.state == IntentState::Filled
    &&& match i.state {
        IntentState::Open => i.total_filled == 0,
        IntentState::PartiallyFilled => 0 < i.total_filled < i.min_dst_amount,
        IntentState::Filled => i.total_filled >= i.min_dst_amount,
        IntentState::Slashed => false,
        _ => i.total_filled < i.min_dst_amount,
    }
}

/// Every intent is well shaped, and every solver's record names the solver.
pub open spec fn records_well_shaped(s: State) -> bool {
    &&& forall|id: Bytes32| #[trigger]
        s.intents.contains_key(id) ==> well_shaped(id, s.intents[id])
    &&& forall|a: Address| #[trigger] s.solvers.contains_key(a) ==> s.solvers[a].address == a
}

/// The addresses that `initialize` records are recorded together, and before
/// that there is nothing to hand over and no bond, and the contract is neither
/// paused nor restricted to the tokens or chains of an allowlist.
pub open spec fn roles_set(s: State) -> bool {
    if s.admin is Some {
        s.fee_recipient is Some && s.bond_token is Some
    } else {
        &&& s.fee_recipient is None
        &&& s.bond_token is None
        &&& s.pending_admin is None
        &&& s.pending_fee_recipient is None
        &&& s.solvers =~= Map::empty()
        &&& !s.paused
        &&& !s.dst_allowlist_enabled
        &&& !s.src_chain_allowlist_enabled
    }
}

/// A contract that nothing has been stored on has its books in order.
pub proof fn lemma_books_start()
    ensures
        books_balance(State::undeployed()),
        records_well_shaped(State::undeployed()),
        roles_set(State::undeployed()),
{
    let s = State::undeployed();
    lemma_total_empty::<Bytes32, Intent>(open_unit());
    lemma_total_empty::<Bytes32, Intent>(delivered());
    lemma_total_empty::<Address, Seq<Bytes32>>(list_len());
    assert forall|t: Address| #[trigger]
        s.accepted_for(t) == total(s.intents, accepted_unit(t)) by {
        lemma_total_empty::<Bytes32, Intent>(accepted_unit(t));
    }
    assert forall|a: Address| #[trigger] s.active_of(a) == total(s.intents, held_unit(a)) by {
        lemma_total_empty::<Bytes32, Intent>(held_unit(a));
    }
}

/// A contract holds finitely many intents, solvers and users' lists.
pub proof fn lemma_finite_records(c: &IntentSettlement)
    ensures
        c@.intents.dom().finite(),
        c@.solvers.dom().finite(),
        c@.user_intents.dom().finite(),
{
    c.intents.lemma_finite_keys();
    c.user_intents.lemma_finite_keys();
    c.solvers.lemma_finite_keys();
}

/// One intent changes, and the sums over all intents with it.
proof fn lemma_intent_sums(s: State, id: Bytes32, i: Intent)
    requires
        s.intents.dom().finite(),
    ensures
        ({
            let after = s.intents.insert(id, i);
            let known = s.intents.contains_key(id);
            let was = s.intents[id];
            &&& after.dom().finite()
            &&& after.dom().len() == s.intents.dom().len() + if known {
                0int
            } else {
                1
            }
            &&& total(after, open_unit()) == total(s.intents, open_unit()) + open_unit()(i)
                - if known {
                open_unit()(was)
            } else {
                0
            }
            &&& total(after, delivered()) == total(s.intents, delivered()) + i.total_filled
                - if known {
                was.total_filled
            } else {
                0
            }
            &&& forall|a: Address| #[trigger]
                total(after, held_unit(a)) == total(s.intents, held_unit(a)) + held_unit(a)(i)
                    - if known {
                    held_unit(a)(was)
                } else {
                    0
                }
        }),
{
    let after = s.intents.insert(id, i);
    assert(after.dom() =~= s.intents.dom().insert(id));
    lemma_total_insert(s.intents, open_unit(), id, i);
    lemma_total_insert(s.intents, delivered(), id, i);
    assert forall|a: Address| #[trigger]
        total(after, held_unit(a)) == total(s.intents, held_unit(a)) + held_unit(a)(i)
            - if s.intents.contains_key(id) {
            held_unit(a)(s.intents[id])
        } else {
            0
        } by {
        lemma_total_insert(s.intents, held_unit(a), id, i);
    }
}

/// A counter that counts an open intent is not zero.
proof fn lemma_open_counted(s: State, id: Bytes32)
    requires
        s.intents.dom().finite(),
        s.intents.contains_key(id),
        s.intents[id].is_open(),
    ensures
        total(s.intents, open_unit()) >= 1,
{
    lemma_total_bounds(s.intents, open_unit());
}

/// Whatever a fill or a slash needs is on record: the solver that holds an
/// intent is registered and its counter is not zero, and there are a bond token
/// and a fee recipient.
pub proof fn lemma_holder_registered(s: State, id: Bytes32)
    requires
        books_balance(s),
        records_well_shaped(s),
        roles_set(s),
        s.intents.contains_key(id),
        s.intents[id].state == IntentState::Accepted,
    ensures
        s.intents[id].solver is Some,
        s.solvers.contains_key(s.intents[id].solver->0),
        s.solvers[s.intents[id].solver->0].active_intents >= 1,
        s.bond_token is Some,
        s.fee_recipient is Some,
{
    let holder = s.intents[id].solver->0;
    lemma_total_bounds(s.intents, held_unit(holder));
    assert(s.active_of(holder) == total(s.intents, held_unit(holder)));
}

/// Every call keeps the record of accepted intents in step with the intents.
pub proof fn lemma_accepted_counted(s: State, inv: Invocation, call: Call)
    requires
        accepted_counted(s),
        fits(s, inv, call),
    ensures
        step(s, inv, call) matches Step::Done { next, .. } ==> accepted_counted(next),
{
    if step(s, inv, call) is Done {
        let next = step(s, inv, call)->next;
        match call {
            Call::Submit { id, .. } => lemma_accepted_after(s, next, id),
            Call::Accept { id, .. } => lemma_accepted_after(s, next, id),
            Call::Fill { id, .. } => lemma_accepted_after(s, next, id),
            Call::Cancel { id, .. } => lemma_accepted_after(s, next, id),
            Call::Slash { id } => lemma_accepted_after(s, next, id),
            Call::Expire { id } => lemma_accepted_after(s, next, id),
            Call::Extend { id, .. } => lemma_accepted_after(s, next, id),
            _ => {
                lemma_footprint(s, inv, call);
                assert forall|t: Address| #[trigger]
                    next.accepted_for(t) == total(next.intents, accepted_unit(t)) by {
                    assert(s.accepted_for(t) == total(s.intents, accepted_unit(t)));
                }
            },
        }
    }
}

/// One intent changes, and the record of accepted intents with it.
proof fn lemma_accepted_after(s: State, next: State, id: Bytes32)
    requires
        accepted_counted(s),
        next.intents == s.intents.insert(id, next.intents[id]),
        ({
            let (was, is) = (s.intents[id], next.intents[id]);
            let held = s.intents.contains_key(id) && was.state == IntentState::Accepted;
            &&& s.intents.contains_key(id) ==> was.dst_token == is.dst_token
            &&& if held == (is.state == IntentState::Accepted) {
                next.accepted_by_token == s.accepted_by_token
            } else if held {
                next.accepted_by_token == s.one_fewer_accepted(is.dst_token)
            } else {
                &&& next.accepted_by_token == s.one_more_accepted(is.dst_token)
                &&& s.accepted_for(is.dst_token) < u64::MAX
            }
        }),
    ensures
        accepted_counted(next),
{
    let is = next.intents[id];
    assert(next.intents.dom() =~= s.intents.dom().insert(id));
    assert forall|t: Address| #[trigger]
        next.accepted_for(t) == total(next.intents, accepted_unit(t)) by {
        assert(s.accepted_for(t) == total(s.intents, accepted_unit(t)));
        lemma_total_insert(s.intents, accepted_unit(t), id, is);
        lemma_total_bounds(s.intents, accepted_unit(t));
    }
}

/// Every call keeps the books in order. The one exception is an `initialize`
/// that comes after intents were submitted: it resets the counters.
pub proof fn lemma_books_balance(s: State, inv: Invocation, call: Call)
    requires
        books_balance(s),
        records_well_shaped(s),
        roles_set(s),
        fits(s, inv, call),
        call is Initialize ==> s.intents =~= Map::empty(),
    ensures
        step(s, inv, call) matches Step::Done { next, .. } ==> books_balance(next),
{
    lemma_accepted_counted(s, inv, call);
    if step(s, inv, call) is Done {
        let next = step(s, inv, call)->next;
        match call {
            Call::Initialize { .. } => {
                assert(s.intents.dom() =~= Set::empty());
                assert(s.solvers.dom() =~= Set::empty());
            },
            Call::Register { solver, .. } => {
                assert(next.solvers.dom() =~= s.solvers.dom().insert(solver));
                assert forall|a: Address| #[trigger]
                    next.active_of(a) == total(next.intents, held_unit(a)) by {
                    assert(s.active_of(a) == total(s.intents, held_unit(a)));
                }
            },
            Call::Withdraw { solver, .. } => {
                assert(next.solvers.dom() =~= s.solvers.dom());
                assert forall|a: Address| #[trigger]
                    next.active_of(a) == total(next.intents, held_unit(a)) by {
                    assert(s.active_of(a) == total(s.intents, held_unit(a)));
                }
            },
            Call::Deregister { solver } => {
                assert(next.solvers.dom() =~= s.solvers.dom().remove(solver));
                assert(s.solvers.dom().contains(solver));
                assert(s.solvers.dom().len() >= 1);
                assert forall|a: Address| #[trigger]
                    next.active_of(a) == total(next.intents, held_unit(a)) by {
                    assert(s.active_of(a) == total(s.intents, held_unit(a)));
                    lemma_total_bounds(s.intents, held_unit(a));
                }
            },
            Call::Submit { request, id } => {
                let user = request.user;
                lemma_intent_sums(s, id, submitted_intent(s, inv, request, id));
                lemma_total_insert(s.user_intents, list_len(), user, next.user_intents[user]);
                assert(next.user_intents.dom() =~= s.user_intents.dom().insert(user));
                assert forall|a: Address| #[trigger]
                    next.active_of(a) == total(next.intents, held_unit(a)) by {
                    assert(s.active_of(a) == total(s.intents, held_unit(a)));
                }
            },
            Call::Accept { solver, id } => {
                lemma_intent_sums(s, id, next.intents[id]);
                lemma_open_counted(s, id);
                assert(next.solvers.dom() =~= s.solvers.dom());
                assert forall|a: Address| #[trigger]
                    next.active_of(a) == total(next.intents, held_unit(a)) by {
                    assert(s.active_of(a) == total(s.intents, held_unit(a)));
                }
            },
            Call::Fill { solver, id, .. } => {
                lemma_intent_sums(s, id, next.intents[id]);
                lemma_holder_registered(s, id);
                assert(next.solvers.dom() =~= s.solvers.dom());
                assert forall|a: Address| #[trigger]
                    next.active_of(a) == total(next.intents, held_unit(a)) by {
                    assert(s.active_of(a) == total(s.intents, held_unit(a)));
                }
            },
            Call::Slash { id } => {
                lemma_intent_sums(s, id, next.intents[id]);
                lemma_holder_registered(s, id);
                assert(next.solvers.dom() =~= s.solvers.dom());
                assert forall|a: Address| #[trigger]
                    next.active_of(a) == total(next.intents, held_unit(a)) by {
                    assert(s.active_of(a) == total(s.intents, held_unit(a)));
                }
            },
            Call::Cancel { id, .. } => {
                lemma_intent_sums(s, id, next.intents[id]);
                lemma_open_counted(s, id);
                assert forall|a: Address| #[trigger]
                    next.active_of(a) == total(next.intents, held_unit(a)) by {
                    assert(s.active_of(a) == total(s.intents, held_unit(a)));
                }
            },
            Call::Expire { id } => {
                lemma_intent_sums(s, id, next.intents[id]);
                lemma_open_counted(s, id);
                assert forall|a: Address| #[trigger]
                    next.active_of(a) == total(next.intents, held_unit(a)) by {
                    assert(s.active_of(a) == total(s.intents, held_unit(a)));
                }
            },
            Call::Extend { id, .. } => {
                lemma_intent_sums(s, id, next.intents[id]);
                assert forall|a: Address| #[trigger]
                    next.active_of(a) == total(next.intents, held_unit(a)) by {
                    assert(s.active_of(a) == total(s.intents, held_unit(a)));
                }
            },
            _ => {
                assert forall|a: Address| #[trigger]
                    next.active_of(a) == total(next.intents, held_unit(a)) by {
                    assert(s.active_of(a) == total(s.intents, held_unit(a)));
                }
            },
        }
    }
}

/// Every call keeps every record well shaped.
pub proof fn lemma_records_well_shaped(s: State, inv: Invocation, call: Call)
    requires
        records_well_shaped(s),
        fits(s, inv, call),
    ensures
        step(s, inv, call) matches Step::Done { next, .. } ==> records_well_shaped(next),
{
}

/// Without a bond token no solver registers.
proof fn lemma_no_solver_appears(s: State, inv: Invocation, call: Call)
    requires
        s.solvers =~= Map::empty(),
        s.bond_token is None,
        call matches Call::Fill { .. } ==> fits(s, inv, call),
    ensures
        step(s, inv, call) matches Step::Done { next, .. } ==> next.solvers =~= Map::empty(),
{
    assert(forall|a: Address| !s.solvers.contains_key(a));
}

/// Every call keeps the recorded addresses together.
pub proof fn lemma_roles_set(s: State, inv: Invocation, call: Call)
    requires
        roles_set(s),
        fits(s, inv, call),
    ensures
        step(s, inv, call) matches Step::Done { next, .. } ==> roles_set(next),
{
    match call {
        Call::Initialize { .. } => {},
        Call::ProposeAdmin { .. } => {},
        Call::AcceptAdmin { .. } => {},
        Call::ProposeFeeRecipient { .. } => {},
        Call::AcceptFeeRecipient { .. } => {},
        Call::Pause { .. } => {},
        Call::EnableTokenList { .. } => {},
        Call::EnableChainList { .. } => {},
        _ => {
            lemma_footprint(s, inv, call);
            if s.admin is None {
                lemma_no_solver_appears(s, inv, call);
            }
        },
    }
}

/// Initialization leaves the contract open for business: the given addresses
/// in their roles, the standard parameters, every counter at zero, no solver, no
/// pause and no allowlist in force.
pub proof fn lemma_initialize_opens(
    s: State,
    inv: Invocation,
    admin: Address,
    fee_recipient: Address,
    bond_token: Address,
)
    requires
        roles_set(s),
    ensures
        step(s, inv, Call::Initialize { admin, fee_recipient, bond_token }) matches Step::Done {
            next,
            ..
        } ==> {
            &&& next.admin == Some(admin)
            &&& next.fee_recipient == Some(fee_recipient)
            &&& next.bond_token == Some(bond_token)
            &&& next.effective_config() == ProtocolConfig::standard()
            &&& next.total_intents == 0
            &&& next.open_intents == 0
            &&& next.total_volume == 0
            &&& next.total_solvers == 0
            &&& next.solvers =~= Map::empty()
            &&& !next.paused
            &&& !next.dst_allowlist_enabled
            &&& !next.src_chain_allowlist_enabled
        },
{
}

/// After initialization the totals of intents and volume never fall: a
/// submission adds one intent, a fill adds what it delivers, and nothing else
/// changes them.
pub proof fn lemma_totals_grow(s: State, inv: Invocation, call: Call)
    requires
        call !is Initialize,
    ensures
        step(s, inv, call) matches Step::Done { next, .. } ==> totals_grow(s, next, call),
{
    lemma_footprint(s, inv, call);
}

/// How the totals differ after a call.
pub open spec fn totals_grow(s: State, next: State, call: Call) -> bool {
    &&& next.total_intents == s.total_intents + if call is Submit {
        1int
    } else {
        0
    }
    &&& next.total_volume == s.total_volume + match call {
        Call::Fill { amount, .. } => amount as int,
        _ => 0,
    }
    &&& next.total_volume >= s.total_volume
}

// ── The life of an intent ───────────────────────────────────────────────────

/// States that an intent never leaves.
pub open spec fn terminal(state: IntentState) -> bool {
    ||| state == IntentState::Filled
    ||| state == IntentState::Cancelled
    ||| state == IntentState::Expired
    ||| state == IntentState::Slashed
}

/// The states that one call can take an intent to.
pub open spec fn may_follow(from: IntentState, to: IntentState) -> bool {
    ||| from == to
    ||| (from == IntentState::Open || from == IntentState::PartiallyFilled) && (to
        == IntentState::Accepted || to == IntentState::Cancelled || to == IntentState::Expired)
    ||| from == IntentState::Accepted && (to == IntentState::Filled || to
        == IntentState::PartiallyFilled || to == IntentState::Open)
}

/// An intent is never lost, keeps what its user asked for, moves only along
/// the edges of its life, never loses what was delivered, and does not change
/// at all once it has come to an end.
pub proof fn lemma_intent_life(s: State, inv: Invocation, call: Call, id: Bytes32)
    requires
        s.intents.contains_key(id),
    ensures
        step(s, inv, call) matches Step::Done { next, .. } ==> {
            let (was, is) = (s.intents[id], next.intents[id]);
            &&& next.intents.contains_key(id)
            &&& may_follow(was.state, is.state)
            &&& terminal(was.state) ==> is == was
            &&& is.total_filled >= was.total_filled
            &&& is.intent_id == was.intent_id
            &&& is.user == was.user
            &&& is.src_chain == was.src_chain
            &&& is.src_token == was.src_token
            &&& is.src_amount == was.src_amount
            &&& is.dst_token == was.dst_token
            &&& is.min_dst_amount == was.min_dst_amount
            &&& is.created_at == was.created_at
        },
{
    match call {
        Call::Submit { .. } => {},
        Call::Accept { .. } => {},
        Call::Fill { .. } => {},
        Call::Cancel { .. } => {},
        Call::Slash { .. } => {},
        Call::Expire { .. } => {},
        Call::Extend { .. } => {},
        _ => lemma_footprint(s, inv, call),
    }
}

/// At no moment can an intent be both filled and taken from its solver: the
/// fill window ends where the time for slashing begins.
pub proof fn lemma_fill_excludes_slash(
    s: State,
    inv: Invocation,
    solver: Address,
    id: Bytes32,
    amount: i128,
)
    ensures
        !(step(s, inv, Call::Fill { solver, id, amount }) is Done && step(
            s,
            inv,
            Call::Slash { id },
        ) is Done),
{
}

/// At no moment can an intent be both accepted and marked as expired.
pub proof fn lemma_accept_excludes_expire(s: State, inv: Invocation, solver: Address, id: Bytes32)
    ensures
        !(step(s, inv, Call::Accept { solver, id }) is Done && step(
            s,
            inv,
            Call::Expire { id },
        ) is Done),
{
}

/// Between them, slashing and expiry reach every intent that is past its
/// deadline and has not come to an end.
pub proof fn lemma_overdue_is_resolvable(s: State, inv: Invocation, id: Bytes32)
    requires
        s.intents.contains_key(id),
        records_well_shaped(s),
        s.bond_token is Some,
        inv.now >= s.intents[id].deadline,
        !terminal(s.intents[id].state),
    ensures
        step(s, inv, Call::Slash { id }) is Done || step(s, inv, Call::Expire { id }) is Done,
{
}

/// An intent gets one extension: after the first, every further request for it
/// is refused, whatever has happened in between.
pub proof fn lemma_one_extension(s: State, inv: Invocation, solver: Address, id: Bytes32)
    ensures
        step(s, inv, Call::Extend { solver, id }) matches Step::Done { next, .. }
            ==> !s.extensions_granted.contains(id) && next.extensions_granted.contains(id),
        s.extensions_granted.contains(id) ==> step(s, inv, Call::Extend { solver, id }) is Refused,
{
}

/// An extension never brings the deadline forward, moves it by at most the
/// longest extension, and changes nothing else of the intent, no other intent,
/// no solver and none of the totals.
pub proof fn lemma_extension_only_extends(s: State, inv: Invocation, solver: Address, id: Bytes32)
    requires
        fits(s, inv, Call::Extend { solver, id }),
    ensures
        step(s, inv, Call::Extend { solver, id }) matches Step::Done { next, .. } ==> {
            let (was, is) = (s.intents[id], next.intents[id]);
            &&& was.deadline <= is.deadline <= was.deadline + MAX_EXTENSION_DURATION
            &&& is == (Intent { deadline: is.deadline, ..was })
            &&& next.intents == s.intents.insert(id, is)
            &&& next.solvers == s.solvers
            &&& next.total_intents == s.total_intents
            &&& next.total_volume == s.total_volume
            &&& next.open_intents == s.open_intents
        },
{
}

/// No extension is granted once the fill window has closed, so a slash that is
/// due stays due.
pub proof fn lemma_no_late_extension(s: State, inv: Invocation, solver: Address, id: Bytes32)
    ensures
        s.intents.contains_key(id) && inv.now >= s.intents[id].deadline ==> step(
            s,
            inv,
            Call::Extend { solver, id },
        ) is Refused,
        !(step(s, inv, Call::Extend { solver, id }) is Done && step(
            s,
            inv,
            Call::Slash { id },
        ) is Done),
        inv.signed(solver) && s.intents.contains_key(id) && s.intents[id].state
            == IntentState::Accepted && s.intents[id].solver == Some(solver) && inv.now
            >= s.intents[id].deadline ==> step(s, inv, Call::Extend { solver, id }) == refuse(
            Error::FillWindowExpired,
        ),
{
}

/// No call takes the mark of a granted extension away.
pub proof fn lemma_extensions_stay(s: State, inv: Invocation, call: Call)
    ensures
        step(s, inv, call) matches Step::Done { next, .. }
            ==> s.extensions_granted.subset_of(next.extensions_granted),
{
    match call {
        Call::Extend { .. } => {},
        _ => lemma_footprint(s, inv, call),
    }
}

/// After a cancellation the user cannot cancel again until the cooldown is over.
pub proof fn lemma_cancel_cooldown(
    s: State,
    inv: Invocation,
    user: Address,
    id: Bytes32,
    later: Invocation,
    other: Bytes32,
)
    requires
        inv.now <= later.now < inv.now + CANCEL_COOLDOWN,
    ensures
        step(s, inv, Call::Cancel { user, id }) matches Step::Done { next, .. } ==> step(
            next,
            later,
            Call::Cancel { user, id: other },
        ) is Refused,
{
}

/// After a slash the solver cannot accept until the cooldown is over.
pub proof fn lemma_slash_cooldown(
    s: State,
    inv: Invocation,
    id: Bytes32,
    later: Invocation,
    other: Bytes32,
)
    requires
        0 < inv.now <= later.now < inv.now + SLASH_COOLDOWN,
    ensures
        step(s, inv, Call::Slash { id }) matches Step::Done { next, .. } ==> step(
            next,
            later,
            Call::Accept { solver: s.intents[id].solver->0, id: other },
        ) is Refused,
{
}

/// A slash takes at least one unit, and never more than a bond that is there.
pub proof fn lemma_slash_bounds(bond: int)
    ensures
        slash_amount(bond) >= 1,
        bond >= 1 ==> slash_amount(bond) <= bond,
        bond >= 10 ==> slash_amount(bond) == bond / 10,
{
}

/// The fee rate is never negative and never above the configured one, so a
/// fill costs its solver at most a tenth of what it delivers, and nothing of
/// it is taken from the user.
pub proof fn lemma_fee_bounds(s: State, solver: Address, amount: int)
    requires
        s.valid(),
        amount >= 0,
    ensures
        0 <= s.fee_bps(solver) <= s.effective_config().protocol_fee_bps,
        0 <= fill_fee(s, solver, amount) <= amount / 10,
{
    let tiers = s.fee_discount_tiers;
    let volume = s.volume_of(solver);
    let base = s.effective_config().protocol_fee_bps as int;
    let discount = discount_for(tiers, volume);
    lemma_tiers_reached(tiers, volume);
    let reached = tiers_reached(tiers, volume);
    if reached > 0 {
        assert(tiers[reached - 1].1 <= 10_000);
    }
    assert(0 <= base * discount <= base * 10_000) by (nonlinear_arith)
        requires
            0 <= base,
            0 <= discount <= 10_000,
    ;
    let rate = s.fee_bps(solver);
    assert(0 <= amount * rate <= amount * 1_000) by (nonlinear_arith)
        requires
            0 <= amount,
            0 <= rate <= 1_000,
    ;
}

/// A fill pays the user exactly the amount filled, from the solver; the fee
/// comes on top.
pub proof fn lemma_user_paid_in_full(
    s: State,
    inv: Invocation,
    solver: Address,
    id: Bytes32,
    amount: i128,
)
    ensures
        step(s, inv, Call::Fill { solver, id, amount }) matches Step::Done { next, effects } ==> {
            &&& effects.contains(
                Effect::Transfer {
                    token: s.intents[id].dst_token,
                    from: solver,
                    to: s.intents[id].user,
                    amount,
                },
            )
            &&& next.intents[id].total_filled == s.intents[id].total_filled + amount
            &&& next.intents[id].state == IntentState::Filled <==> next.intents[id].total_filled
                >= s.intents[id].min_dst_amount
        },
{
    let after = step(s, inv, Call::Fill { solver, id, amount });
    if after is Done {
        assert(after->effects[3] == (Effect::Transfer {
            token: s.intents[id].dst_token,
            from: solver,
            to: s.intents[id].user,
            amount,
        }));
    }
}

/// Whoever accepts an intent is eligible, unless the intent's token has a bond
/// multiplier below 1.0x.
pub proof fn lemma_accept_needs_eligibility(
    s: State,
    inv: Invocation,
    solver: Address,
    id: Bytes32,
)
    requires
        s.multiplier_of(s.intents[id].dst_token) >= DEFAULT_BOND_MULTIPLIER,
    ensures
        step(s, inv, Call::Accept { solver, id }) is Done ==> s.eligible(solver, inv.now),
{
}

/// A solver that is eligible and signs accepts any open intent before its
/// deadline, on a contract that is not paused, unless the intent's token has a
/// bond multiplier above 1.0x.
pub proof fn lemma_eligible_accepts(s: State, inv: Invocation, solver: Address, id: Bytes32)
    requires
        s.eligible(solver, inv.now),
        inv.signed(solver),
        !s.paused,
        s.intents.contains_key(id),
        s.intents[id].is_open(),
        inv.now < s.intents[id].deadline,
        s.multiplier_of(s.intents[id].dst_token) <= DEFAULT_BOND_MULTIPLIER,
    ensures
        step(s, inv, Call::Accept { solver, id }) is Done,
{
}

/// Of a solver that would be turned down as inactive, the query says that it
/// is not eligible.
pub proof fn lemma_inactive_is_not_eligible(
    s: State,
    inv: Invocation,
    solver: Address,
    id: Bytes32,
)
    ensures
        step(s, inv, Call::Accept { solver, id }) == refuse(Error::SolverInactive) || step(
            s,
            inv,
            Call::Accept { solver, id },
        ) == refuse(Error::SolverNotRegistered) ==> !s.eligible(solver, inv.now),
{
}

// ── Bonds ───────────────────────────────────────────────────────────────────

/// What an effect brings `contract` of `token`.
pub open spec fn inflow_of(effect: Effect, token: Address, contract: Address) -> int {
    match effect {
        Effect::Transfer { token: moved, from, to, amount } => if moved == token {
            (if to == contract {
                amount as int
            } else {
                0
            }) - (if from == contract {
                amount as int
            } else {
                0
            })
        } else {
            0
        },
        _ => 0,
    }
}

/// What the first `n` effects bring `contract` of `token`.
pub open spec fn inflow(effects: Seq<Effect>, n: int, token: Address, contract: Address) -> int
    decreases n,
{
    if n <= 0 {
        0
    } else {
        inflow(effects, n - 1, token, contract) + inflow_of(effects[n - 1], token, contract)
    }
}

/// Every bond fits its type.
pub open spec fn bonds_in_range(s: State) -> bool {
    forall|a: Address| #[trigger]
        s.solvers.contains_key(a) ==> i128::MIN <= s.solvers[a].bond_amount <= i128::MAX
}

/// The bonds on record never grow by more than the bond token that the call
/// brings in: what the contract holds keeps covering them. They change by
/// exactly that amount where neither the fee recipient nor the user of the
/// intent is the contract itself. The contract's own address signs no call.
/// The one exception is the exit of a solver whose bond has been slashed below
/// zero.
pub proof fn lemma_bonds_covered(s: State, inv: Invocation, call: Call)
    requires
        roles_set(s),
        s.solvers.dom().finite(),
        bonds_in_range(s),
        fits(s, inv, call),
        s.valid(),
        s.bond_token is Some,
        !inv.signed(inv.contract),
        call matches Call::Deregister { solver } ==> s.bond_of(solver) >= 0,
    ensures
        step(s, inv, call) matches Step::Done { next, effects } ==> {
            let received = inflow(effects, effects.len() as int, s.bond_token->0, inv.contract);
            &&& next.bonds() - s.bonds() <= received
            &&& s.fee_recipient != Some(inv.contract) && (call matches Call::Fill { id, .. }
                ==> s.intents[id].user != inv.contract) ==> next.bonds() - s.bonds() == received
        },
{
    reveal_with_fuel(inflow, 8);
    if step(s, inv, call) is Done {
        let next = step(s, inv, call)->next;
        let effects = step(s, inv, call)->effects;
        match call {
            Call::Register { solver, .. } => {
                lemma_total_insert(s.solvers, bond(), solver, next.solvers[solver]);
            },
            Call::Withdraw { solver, .. } => {
                lemma_total_insert(s.solvers, bond(), solver, next.solvers[solver]);
            },
            Call::Deregister { solver } => {
                lemma_total_remove(s.solvers, bond(), solver);
                if s.solvers[solver].bond_amount > 0 {
                    assert(effects.len() == 3);
                } else {
                    assert(effects.len() == 2);
                }
            },
            Call::Accept { solver, .. } => {
                lemma_total_insert(s.solvers, bond(), solver, next.solvers[solver]);
            },
            Call::Fill { solver, id, amount } => {
                lemma_total_insert(s.solvers, bond(), solver, next.solvers[solver]);
                if fill_fee(s, solver, amount as int) > 0 {
                    assert(effects.len() == 6);
                } else {
                    assert(effects.len() == 5);
                }
            },
            Call::Slash { id } => {
                let solver = s.intents[id].solver->0;
                lemma_slash_bounds(s.solvers[solver].bond_amount);
                lemma_total_insert(s.solvers, bond(), solver, next.solvers[solver]);
            },
            Call::Rescue { .. } => {},
            _ => {
                lemma_footprint(s, inv, call);
                lemma_modest(s, inv, call);
                lemma_no_transfer_no_inflow(
                    effects,
                    effects.len() as int,
                    s.bond_token->0,
                    inv.contract,
                );
            },
        }
    }
}

/// Without transfers nothing flows.
proof fn lemma_no_transfer_no_inflow(
    effects: Seq<Effect>,
    n: int,
    token: Address,
    contract: Address,
)
    requires
        n <= effects.len(),
        forall|i: int| 0 <= i < effects.len() ==> !(#[trigger] effects[i] is Transfer),
    ensures
        inflow(effects, n, token, contract) == 0,
    decreases n,
{
    if n > 0 {
        lemma_no_transfer_no_inflow(effects, n - 1, token, contract);
        assert(!(effects[n - 1] is Transfer));
    }
}

/// With the record of accepted intents in order, a token is in flight exactly
/// where an accepted intent awaits it.
pub proof fn lemma_in_flight(s: State, token: Address)
    requires
        accepted_counted(s),
    ensures
        s.in_flight(token) <==> exists|id: Bytes32| #[trigger]
            s.intents.contains_key(id) && awaits(s.intents[id], token),
{
    assert(s.accepted_for(token) == total(s.intents, accepted_unit(token)));
    if !exists|id: Bytes32| #[trigger]
        s.intents.contains_key(id) && awaits(s.intents[id], token) {
        lemma_total_zero(s.intents, accepted_unit(token));
    }
}

/// A rescue never moves the bond token, nor a token that an accepted intent
/// awaits.
pub proof fn lemma_rescue_spares_bonds(
    s: State,
    inv: Invocation,
    token: Address,
    to: Address,
    amount: i128,
)
    ensures
        s.bond_token == Some(token) ==> step(s, inv, Call::Rescue { token, to, amount }) is Refused,
        forall|id: Bytes32| #[trigger]
            s.intents.contains_key(id) && awaits(s.intents[id], token) ==> step(
                s,
                inv,
                Call::Rescue { token, to, amount },
            ) is Refused,
        step(s, inv, Call::Rescue { token, to, amount }) matches Step::Done { next, effects }
            ==> next == s && effects[1] == (Effect::Transfer {
            token,
            from: inv.contract,
            to,
            amount,
        }) && s.bond_token != Some(token) && !s.in_flight(token),
{
}

/// A solver that registers and leaves again gets back what it deposited, and
/// the contract is as it was.
pub proof fn lemma_deregister_undoes_register(
    s: State,
    inv: Invocation,
    solver: Address,
    bond_amount: i128,
    later: Invocation,
)
    requires
        !s.solvers.contains_key(solver),
        s.total_solvers >= 0,
        later.signed(solver),
    ensures
        step(s, inv, Call::Register { solver, bond_amount }) matches Step::Done { next, .. } ==> (
        step(next, later, Call::Deregister { solver }) matches Step::Done { next: last, effects }
            && last == s && effects.contains(
            Effect::Transfer {
                token: s.bond_token->0,
                from: later.contract,
                to: solver,
                amount: bond_amount,
            },
        )),
{
    let first = step(s, inv, Call::Register { solver, bond_amount });
    if first is Done {
        let next = first->next;
        let second = step(next, later, Call::Deregister { solver });
        assert(next.solvers.remove(solver) =~= s.solvers);
        assert(second->next =~= s);
        assert(second->effects[1] == (Effect::Transfer {
            token: s.bond_token->0,
            from: later.contract,
            to: solver,
            amount: bond_amount,
        }));
    }
}

} // verus!
