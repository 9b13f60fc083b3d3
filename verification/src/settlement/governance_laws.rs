//! What the admin's powers cannot do, and what holds of pauses, allowlists and
//! user lists.
use vstd::prelude::*;
use crate::context::Invocation;
use crate::settlement::admin::eta;
use crate::settlement::allowlist::without_item;
use crate::settlement::calls::{fits, step, Call};
use crate::settlement::footprint::{lemma_footprint, lemma_modest, on_intents};
use crate::settlement::intent_id::{intent_preimage, lemma_preimage_injective};
use crate::settlement::laws::lemma_intent_life;
use crate::settlement::state::{State, Step};
use crate::settlement::types::{Effect, ADMIN_TIMELOCK_DELAY};
use crate::types::{Address, Bytes32};

verus! {

// ── Timelocks ───────────────────────────────────────────────────────────────

/// The admin has authorized the call.
pub open spec fn by_admin(s: State, inv: Invocation) -> bool {
    s.admin matches Some(admin) && inv.signed(admin)
}

/// A proposal that may be executed now.
pub open spec fn ripe<T>(pending: Option<(T, u64)>, value: T, now: u64) -> bool {
    pending matches Some((proposed, ready)) && proposed == value && now >= ready
}

/// A proposal that may be executed from `time` on.
pub open spec fn ripens_at<T>(pending: Option<(T, u64)>, time: u64) -> bool {
    pending matches Some((_, ready)) && ready == time
}

/// How the roles may differ after a call: a role passes only to the address
/// that was proposed for it, with that address's consent, once the proposal is
/// ripe; and a proposal is made only by the admin, to ripen after the full
/// delay.
pub open spec fn roles_pass_in_time(s: State, inv: Invocation, next: State) -> bool {
    &&& next.admin != s.admin ==> (next.admin matches Some(new) && ripe(
        s.pending_admin,
        new,
        inv.now,
    ) && inv.signed(new))
    &&& next.fee_recipient != s.fee_recipient ==> (next.fee_recipient matches Some(new) && ripe(
        s.pending_fee_recipient,
        new,
        inv.now,
    ) && inv.signed(new))
    &&& next.pending_admin != s.pending_admin ==> next.pending_admin is None || by_admin(s, inv)
        && ripens_at(next.pending_admin, eta(inv))
    &&& next.pending_fee_recipient != s.pending_fee_recipient ==> next.pending_fee_recipient is None
        || by_admin(s, inv) && ripens_at(next.pending_fee_recipient, eta(inv))
    &&& next.pending_upgrade != s.pending_upgrade ==> by_admin(s, inv) && (
    next.pending_upgrade is None || ripens_at(next.pending_upgrade, eta(inv)))
    &&& next.bond_token == s.bond_token
}

/// After `initialize`, roles change hands only through the timelock.
pub proof fn lemma_roles_pass_in_time(s: State, inv: Invocation, call: Call)
    requires
        call !is Initialize,
    ensures
        step(s, inv, call) matches Step::Done { next, .. } ==> roles_pass_in_time(s, inv, next),
{
    match call {
        Call::AcceptAdmin { .. } => {},
        Call::AcceptFeeRecipient { .. } => {},
        Call::ProposeAdmin { .. } => {},
        Call::ProposeFeeRecipient { .. } => {},
        Call::ProposeUpgrade { .. } => {},
        Call::ExecuteUpgrade { .. } => {},
        _ => lemma_footprint(s, inv, call),
    }
}

/// Whether `effects` replace the contract's code by that with this hash.
pub open spec fn installs(effects: Seq<Effect>, wasm_hash: Bytes32) -> bool {
    exists|i: int|
        0 <= i < effects.len() && #[trigger] effects[i] == (Effect::UpdateWasm { wasm_hash })
}

/// The code is replaced only by the admin, and only by code whose proposal is
/// ripe.
pub proof fn lemma_upgrade_in_time(s: State, inv: Invocation, call: Call, wasm_hash: Bytes32)
    ensures
        step(s, inv, call) matches Step::Done { effects, .. } ==> installs(effects, wasm_hash)
            ==> by_admin(s, inv) && ripe(s.pending_upgrade, wasm_hash, inv.now),
{
    lemma_modest(s, inv, call);
    if step(s, inv, call) is Done && installs(step(s, inv, call)->effects, wasm_hash) {
        let effects = step(s, inv, call)->effects;
        let i = choose|i: int|
            0 <= i < effects.len() && #[trigger] effects[i] == (Effect::UpdateWasm { wasm_hash });
        assert(effects[i] is UpdateWasm);
        assert(i == 1);
    }
}

/// A token enters or leaves the destination allowlist only when a proposal for
/// it is ripe, and such proposals are made only by the admin, to ripen after
/// the full delay.
pub proof fn lemma_allowlist_in_time(s: State, inv: Invocation, call: Call, token: Address)
    ensures
        step(s, inv, call) matches Step::Done { next, .. } ==> token_listed_in_time(
            s,
            inv,
            next,
            token,
        ),
{
    match call {
        Call::ProposeAddToken { .. } => {},
        Call::ExecuteAddToken { .. } => {},
        Call::ProposeRemoveToken { .. } => {},
        Call::ExecuteRemoveToken { .. } => {},
        _ => lemma_footprint(s, inv, call),
    }
}

/// How the listing of a token may differ after a call.
pub open spec fn token_listed_in_time(
    s: State,
    inv: Invocation,
    next: State,
    token: Address,
) -> bool {
    let (adds, removes) = (s.pending_dst_token_adds, s.pending_dst_token_removes);
    let (next_adds, next_removes) = (next.pending_dst_token_adds, next.pending_dst_token_removes);
    &&& !s.allowed_dst_tokens.contains(token) && next.allowed_dst_tokens.contains(token)
        ==> adds.contains_key(token) && inv.now >= adds[token]
    &&& s.allowed_dst_tokens.contains(token) && !next.allowed_dst_tokens.contains(token)
        ==> removes.contains_key(token) && inv.now >= removes[token]
    &&& next_adds.contains_key(token) && !(adds.contains_key(token) && next_adds[token]
        == adds[token]) ==> by_admin(s, inv) && next_adds[token] == eta(inv)
    &&& next_removes.contains_key(token) && !(removes.contains_key(token) && next_removes[token]
        == removes[token]) ==> by_admin(s, inv) && next_removes[token] == eta(inv)
}

/// A proposed admin can take over once 48 hours have passed, and not before.
pub proof fn lemma_admin_delay(s: State, inv: Invocation, admin: Address, later: Invocation)
    requires
        fits(s, inv, Call::ProposeAdmin { admin }),
    ensures
        step(s, inv, Call::ProposeAdmin { admin }) matches Step::Done { next, .. } ==> (step(
            next,
            later,
            Call::AcceptAdmin { admin },
        ) is Done <==> later.now >= inv.now + ADMIN_TIMELOCK_DELAY && later.signed(admin)),
{
}

/// A proposed fee recipient can take over once 48 hours have passed, and not
/// before.
pub proof fn lemma_fee_recipient_delay(
    s: State,
    inv: Invocation,
    recipient: Address,
    later: Invocation,
)
    requires
        fits(s, inv, Call::ProposeFeeRecipient { recipient }),
    ensures
        step(s, inv, Call::ProposeFeeRecipient { recipient }) matches Step::Done { next, .. } ==> (
        step(next, later, Call::AcceptFeeRecipient { recipient }) is Done <==> later.now >= inv.now
            + ADMIN_TIMELOCK_DELAY && later.signed(recipient)),
{
}

/// A proposed destination token can be allowed once 48 hours have passed, and
/// not before.
pub proof fn lemma_token_delay(s: State, inv: Invocation, token: Address, later: Invocation)
    requires
        fits(s, inv, Call::ProposeAddToken { token, is_token: true }),
    ensures
        step(s, inv, Call::ProposeAddToken { token, is_token: true }) matches Step::Done {
            next,
            ..
        } ==> (step(next, later, Call::ExecuteAddToken { token }) is Done <==> later.now >= inv.now
            + ADMIN_TIMELOCK_DELAY),
{
}

/// Initialization happens once: it leaves an admin, no call takes the admin
/// away, and with an admin it is refused.
pub proof fn lemma_initialized_once(s: State, inv: Invocation, call: Call)
    ensures
        step(s, inv, call) matches Step::Done { next, .. } ==> (s.admin is Some
            || call is Initialize ==> next.admin is Some),
        s.admin is Some && call is Initialize ==> step(s, inv, call) is Refused,
{
    match call {
        Call::Initialize { .. } => {},
        Call::AcceptAdmin { .. } => {},
        _ => lemma_footprint(s, inv, call),
    }
}

/// The storage is migrated once.
pub proof fn lemma_migrated_once(s: State, inv: Invocation, later: Invocation)
    ensures
        step(s, inv, Call::Migrate) matches Step::Done { next, .. } ==> step(
            next,
            later,
            Call::Migrate,
        ) is Refused,
{
}

// ── Settings ────────────────────────────────────────────────────────────────

/// No call leaves the parameters, the discount schedule or a bond multiplier
/// out of bounds.
pub proof fn lemma_settings_valid(s: State, inv: Invocation, call: Call)
    requires
        s.valid(),
    ensures
        step(s, inv, call) matches Step::Done { next, .. } ==> next.valid(),
{
    match call {
        Call::Initialize { .. } => {
            lemma_footprint(s, inv, call);
        },
        Call::SetConfig { .. } => {},
        Call::SetTiers { .. } => {},
        Call::SetMultiplier { token, multiplier } => {
            if step(s, inv, call) is Done {
                let next = step(s, inv, call)->next;
                assert forall|t: Address| #[trigger]
                    next.min_bond_multipliers.contains_key(
                        t,
                    ) implies next.min_bond_multipliers[t] > 0 by {
                    if t != token {
                        assert(s.min_bond_multipliers.contains_key(t));
                    }
                }
            }
        },
        _ => lemma_footprint(s, inv, call),
    }
}

// ── Pause ───────────────────────────────────────────────────────────────────

/// While the contract is paused no intent is submitted, accepted or filled, and
/// no bond is deposited, withdrawn or returned.
pub proof fn lemma_pause_halts(s: State, inv: Invocation, call: Call)
    requires
        s.paused,
        call is Submit || call is Accept || call is Fill || call is Register || call is Deregister
            || call is Withdraw,
    ensures
        step(s, inv, call) is Refused,
{
}

/// A pause keeps no user from cancelling and no solver from being slashed:
/// these calls, and those that mark an intent as expired or extend it, do the
/// same whether the contract is paused or not.
pub proof fn lemma_pause_spares(s: State, inv: Invocation, call: Call, paused: bool)
    requires
        call is Cancel || call is Slash || call is Expire || call is Extend,
    ensures
        ({
            let other = State { paused, ..s };
            match step(s, inv, call) {
                Step::Refused { abort } => step(other, inv, call) == (Step::Refused { abort }),
                Step::Done { next, effects } => step(other, inv, call) == (Step::Done {
                    next: State { paused, ..next },
                    effects,
                }),
            }
        }),
{
}

/// Only the admin or the pauser pauses, and only the admin lifts a pause.
pub proof fn lemma_pause_authority(s: State, inv: Invocation, call: Call)
    ensures
        step(s, inv, call) matches Step::Done { next, .. } ==> pause_authorized(s, inv, next),
{
    match call {
        Call::Pause { .. } => {},
        Call::Unpause => {},
        _ => lemma_footprint(s, inv, call),
    }
}

/// How the pause may differ after a call.
pub open spec fn pause_authorized(s: State, inv: Invocation, next: State) -> bool {
    &&& s.paused && !next.paused ==> by_admin(s, inv)
    &&& !s.paused && next.paused ==> by_admin(s, inv) || (s.pauser matches Some(pauser)
        && inv.signed(pauser))
}

// ── Lists ───────────────────────────────────────────────────────────────────

/// The enumerable allowlist holds each allowed token once, and nothing else.
pub open spec fn allowlist_mirrors(s: State) -> bool {
    &&& s.allowed_dst_token_list.no_duplicates()
    &&& forall|t: Address| #[trigger]
        s.allowed_dst_token_list.contains(t) <==> s.allowed_dst_tokens.contains(t)
}

proof fn lemma_without_item(list: Seq<Address>, item: Address)
    ensures
        forall|t: Address| #[trigger]
            without_item(list, item).contains(t) <==> list.contains(t) && t != item,
        list.no_duplicates() ==> without_item(list, item).no_duplicates(),
    decreases list.len(),
{
    if list.len() > 0 {
        let rest = list.drop_last();
        let kept = without_item(rest, item);
        lemma_without_item(rest, item);
        assert(list =~= rest.push(list.last()));
        assert forall|t: Address| #[trigger]
            without_item(list, item).contains(t) <==> list.contains(t) && t != item by {
            lemma_push_contains(rest, list.last(), t);
            lemma_push_contains(kept, list.last(), t);
        }
        if list.no_duplicates() {
            assert(rest.no_duplicates());
            if list.last() != item {
                assert(!rest.contains(list.last())) by {
                    if rest.contains(list.last()) {
                        let i = choose|i: int| 0 <= i < rest.len() && rest[i] == list.last();
                        assert(list[i] == list[list.len() - 1]);
                    }
                }
                lemma_push_distinct(kept, list.last());
            }
        }
    }
}

proof fn lemma_push_contains<T>(list: Seq<T>, item: T, t: T)
    ensures
        list.push(item).contains(t) <==> list.contains(t) || t == item,
{
    let longer = list.push(item);
    if list.contains(t) {
        let i = choose|i: int| 0 <= i < list.len() && list[i] == t;
        assert(longer[i] == t);
    }
    if t == item {
        assert(longer[list.len() as int] == t);
    }
    if longer.contains(t) && t != item {
        let i = choose|i: int| 0 <= i < longer.len() && longer[i] == t;
        assert(list[i] == t);
    }
}

proof fn lemma_push_distinct<T>(list: Seq<T>, item: T)
    requires
        list.no_duplicates(),
        !list.contains(item),
    ensures
        list.push(item).no_duplicates(),
{
    let longer = list.push(item);
    assert forall|i: int, j: int| 0 <= i < longer.len() && 0 <= j < longer.len() && i
        != j implies longer[i] != longer[j] by {
        if i < list.len() && j < list.len() {
            assert(list[i] != list[j]);
        } else if i < list.len() {
            assert(list.contains(list[i]));
        } else if j < list.len() {
            assert(list.contains(list[j]));
        }
    }
}

/// Every call keeps the enumerable allowlist in step with the allowed tokens.
pub proof fn lemma_allowlist_mirrors(s: State, inv: Invocation, call: Call)
    requires
        allowlist_mirrors(s),
    ensures
        step(s, inv, call) matches Step::Done { next, .. } ==> allowlist_mirrors(next),
{
    let list = s.allowed_dst_token_list;
    match call {
        Call::ExecuteAddToken { token } => {
            if step(s, inv, call) is Done {
                let next = step(s, inv, call)->next;
                if !list.contains(token) {
                    lemma_push_distinct(list, token);
                }
                assert forall|t: Address| #[trigger]
                    next.allowed_dst_token_list.contains(
                        t,
                    ) <==> next.allowed_dst_tokens.contains(t) by {
                    lemma_push_contains(list, token, t);
                    assert(list.contains(t) <==> s.allowed_dst_tokens.contains(t));
                }
            }
        },
        Call::ExecuteRemoveToken { token } => {
            if step(s, inv, call) is Done {
                let next = step(s, inv, call)->next;
                lemma_without_item(list, token);
                assert forall|t: Address| #[trigger]
                    next.allowed_dst_token_list.contains(
                        t,
                    ) <==> next.allowed_dst_tokens.contains(t) by {
                    assert(list.contains(t) <==> s.allowed_dst_tokens.contains(t));
                }
            }
        },
        _ => lemma_footprint(s, inv, call),
    }
}

/// Each user's list holds the ids of exactly the user's intents, each once, and
/// the nonce is their number.
pub open spec fn users_listed(s: State) -> bool {
    &&& forall|user: Address| #[trigger] s.nonce_of(user) == s.intents_of(user).len()
    &&& forall|user: Address| #[trigger] s.intents_of(user).no_duplicates()
    &&& forall|user: Address, id: Bytes32| #[trigger]
        s.intents_of(user).contains(id) <==> s.intents.contains_key(id) && s.intents[id].user
            == user
}

/// Every call keeps the users' lists and nonces in step with the intents.
pub proof fn lemma_users_listed(s: State, inv: Invocation, call: Call)
    requires
        users_listed(s),
        fits(s, inv, call),
    ensures
        step(s, inv, call) matches Step::Done { next, .. } ==> users_listed(next),
{
    let after = step(s, inv, call);
    if after is Done {
        let next = after->next;
        match call {
            Call::Submit { request, id } => {
                let user = request.user;
                let list = s.intents_of(user);
                assert(!list.contains(id));
                assert forall|u: Address| #[trigger]
                    next.nonce_of(u) == next.intents_of(u).len() by {
                    assert(s.nonce_of(u) == s.intents_of(u).len());
                }
                assert forall|u: Address| #[trigger] next.intents_of(u).no_duplicates() by {
                    assert(s.intents_of(u).no_duplicates());
                    if u == user {
                        lemma_push_distinct(list, id);
                    }
                }
                assert forall|u: Address, k: Bytes32| #[trigger]
                    next.intents_of(u).contains(k) <==> next.intents.contains_key(k)
                        && next.intents[k].user == u by {
                    assert(s.intents_of(u).contains(k) <==> s.intents.contains_key(k)
                        && s.intents[k].user == u);
                    lemma_push_contains(list, id, k);
                }
            },
            _ => {
                lemma_lists_kept(s, inv, call);
                assert forall|u: Address| #[trigger]
                    next.nonce_of(u) == next.intents_of(u).len() by {
                    assert(s.nonce_of(u) == s.intents_of(u).len());
                }
                assert forall|u: Address| #[trigger] next.intents_of(u).no_duplicates() by {
                    assert(s.intents_of(u).no_duplicates());
                }
                assert forall|u: Address, k: Bytes32| #[trigger]
                    next.intents_of(u).contains(k) <==> next.intents.contains_key(k)
                        && next.intents[k].user == u by {
                    assert(s.intents_of(u).contains(k) <==> s.intents.contains_key(k)
                        && s.intents[k].user == u);
                    assert(next.intents.contains_key(k) == s.intents.contains_key(k));
                    if s.intents.contains_key(k) {
                        assert(next.intents[k].user == s.intents[k].user);
                    }
                }
            },
        }
    }
}

/// The lists and nonces are the same, and so are the intents and their users.
pub open spec fn lists_kept(s: State, next: State) -> bool {
    &&& next.user_nonces == s.user_nonces
    &&& next.user_intents == s.user_intents
    &&& forall|id: Bytes32| #[trigger] next.intents.contains_key(id) <==> s.intents.contains_key(id)
    &&& forall|id: Bytes32| #[trigger]
        next.intents.contains_key(id) ==> next.intents[id].user == s.intents[id].user
}

/// Only a submission changes the users' lists and nonces.
proof fn lemma_lists_kept(s: State, inv: Invocation, call: Call)
    requires
        call !is Submit,
    ensures
        step(s, inv, call) matches Step::Done { next, .. } ==> lists_kept(s, next),
{
    lemma_footprint(s, inv, call);
    if step(s, inv, call) is Done && on_intents(call) {
        let next = step(s, inv, call)->next;
        assert forall|id: Bytes32| #[trigger]
            next.intents.contains_key(id) implies next.intents[id].user == s.intents[id].user by {
            lemma_intent_life(s, inv, call, id);
        }
    }
}

/// Nonces never fall, and each submission of a user takes the next one.
pub proof fn lemma_nonce_advances(s: State, inv: Invocation, call: Call, user: Address)
    requires
        fits(s, inv, call),
    ensures
        step(s, inv, call) matches Step::Done { next, .. } ==> next.nonce_of(user) == s.nonce_of(
            user,
        ) + if call matches Call::Submit { request, .. } && request.user == user {
            1int
        } else {
            0
        },
{
    match call {
        Call::Submit { .. } => {},
        _ => lemma_lists_kept(s, inv, call),
    }
}

/// Two submissions of one user, however alike, have different preimages: their
/// ids differ unless the hash function collides.
pub proof fn lemma_submissions_distinct(
    user: Address,
    chain_a: Seq<u8>,
    amount_a: i128,
    time_a: u64,
    nonce_a: u64,
    chain_b: Seq<u8>,
    amount_b: i128,
    time_b: u64,
    nonce_b: u64,
)
    requires
        chain_a.len() <= u32::MAX,
        chain_b.len() <= u32::MAX,
        nonce_a != nonce_b,
    ensures
        intent_preimage(user, chain_a, amount_a, time_a, nonce_a) != intent_preimage(
            user,
            chain_b,
            amount_b,
            time_b,
            nonce_b,
        ),
{
    if intent_preimage(user, chain_a, amount_a, time_a, nonce_a) == intent_preimage(
        user,
        chain_b,
        amount_b,
        time_b,
        nonce_b,
    ) {
        lemma_preimage_injective(
            user,
            chain_a,
            amount_a,
            time_a,
            nonce_a,
            user,
            chain_b,
            amount_b,
            time_b,
            nonce_b,
        );
    }
}

} // verus!
