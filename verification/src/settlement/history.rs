//! What holds in every state that calls can lead to.
use vstd::prelude::*;
use crate::context::Invocation;
use crate::settlement::calls::{fits, step, Call};
use crate::settlement::governance_laws::{allowlist_mirrors, lemma_allowlist_mirrors,
    lemma_settings_valid, lemma_users_listed, users_listed};
use crate::settlement::laws::{books_balance, lemma_books_balance, lemma_books_start,
    lemma_records_well_shaped, lemma_roles_set, records_well_shaped, roles_set};
use crate::settlement::state::{State, Step};
use crate::types::{Address, Bytes32};

verus! {

/// The state in which calls, made one after the other on a contract that
/// nothing has been stored on, leave it.
pub open spec fn run(calls: Seq<(Invocation, Call)>) -> State
    decreases calls.len(),
{
    if calls.len() == 0 {
        State::undeployed()
    } else {
        let before = run(calls.drop_last());
        match step(before, calls.last().0, calls.last().1) {
            Step::Refused { .. } => before,
            Step::Done { next, .. } => next,
        }
    }
}

/// Each call is within the machine's limits where it is made, and no intent is
/// submitted before initialization.
pub open spec fn orderly(calls: Seq<(Invocation, Call)>) -> bool
    decreases calls.len(),
{
    calls.len() > 0 ==> {
        let before = run(calls.drop_last());
        let (inv, call) = calls.last();
        &&& orderly(calls.drop_last())
        &&& fits(before, inv, call)
        &&& call is Initialize ==> before.intents =~= Map::empty()
    }
}

/// Whatever is called, in whatever order: the counters agree with the records,
/// the records are well shaped, the recorded addresses belong together, the
/// settings are within bounds, the enumerable allowlist mirrors the allowed
/// tokens, and every user's list holds exactly the user's intents.
pub proof fn lemma_history(calls: Seq<(Invocation, Call)>)
    requires
        orderly(calls),
    ensures
        books_balance(run(calls)),
        records_well_shaped(run(calls)),
        roles_set(run(calls)),
        run(calls).valid(),
        allowlist_mirrors(run(calls)),
        users_listed(run(calls)),
    decreases calls.len(),
{
    if calls.len() == 0 {
        let s = State::undeployed();
        lemma_books_start();
        assert(s.allowed_dst_token_list.no_duplicates());
        assert forall|user: Address, id: Bytes32| #[trigger]
            s.intents_of(user).contains(id) <==> s.intents.contains_key(id)
                && s.intents[id].user == user by {
        }
    } else {
        let before = run(calls.drop_last());
        let (inv, call) = calls.last();
        lemma_history(calls.drop_last());
        lemma_books_balance(before, inv, call);
        lemma_records_well_shaped(before, inv, call);
        lemma_roles_set(before, inv, call);
        lemma_settings_valid(before, inv, call);
        lemma_allowlist_mirrors(before, inv, call);
        lemma_users_listed(before, inv, call);
    }
}

} // verus!
