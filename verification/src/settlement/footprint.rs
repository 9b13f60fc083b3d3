//! Which parts of the state, and of the ledger, each call leaves alone, and
//! which lifetimes it extends.
use vstd::prelude::*;
use crate::context::Invocation;
use crate::settlement::calls::{step, Call};
use crate::settlement::state::{State, Step};
use crate::settlement::types::Effect;
use crate::types::{Address, Bytes32};

verus! {

/// Calls on intents.
pub open spec fn on_intents(call: Call) -> bool {
    ||| call is Submit
    ||| call is Accept
    ||| call is Fill
    ||| call is Cancel
    ||| call is Slash
    ||| call is Expire
    ||| call is Extend
}

/// Calls on solvers, or on the intents they hold.
pub open spec fn on_solvers(call: Call) -> bool {
    ||| call is Register
    ||| call is Deregister
    ||| call is Withdraw
    ||| call is Accept
    ||| call is Fill
    ||| call is Slash
}

/// Each part of the state is the same after a call, unless the call is one of
/// those that are meant to change it.
pub open spec fn within_footprint(s: State, next: State, call: Call) -> bool {
    &&& !on_intents(call) ==> next.intents == s.intents
    &&& !on_solvers(call) ==> next.solvers == s.solvers
    &&& call !is Initialize && call !is AcceptAdmin ==> next.admin == s.admin
    &&& call !is Initialize && call !is AcceptFeeRecipient ==> next.fee_recipient == s.fee_recipient
    &&& call !is Initialize ==> next.bond_token == s.bond_token
    &&& call !is ProposeAdmin && call !is AcceptAdmin ==> next.pending_admin == s.pending_admin
    &&& call !is ProposeFeeRecipient && call !is AcceptFeeRecipient
        ==> next.pending_fee_recipient == s.pending_fee_recipient
    &&& call !is ProposeUpgrade && call !is ExecuteUpgrade
        ==> next.pending_upgrade == s.pending_upgrade
    &&& call !is Initialize && call !is SetConfig ==> next.config == s.config
    &&& call !is SetTiers ==> next.fee_discount_tiers == s.fee_discount_tiers
    &&& call !is SetMultiplier ==> next.min_bond_multipliers == s.min_bond_multipliers
    &&& call !is SetPauser ==> next.pauser == s.pauser
    &&& call !is Pause && call !is Unpause ==> next.paused == s.paused
    &&& call !is ProposeAddToken && call !is ExecuteAddToken
        ==> next.pending_dst_token_adds == s.pending_dst_token_adds
    &&& call !is ProposeRemoveToken && call !is ExecuteRemoveToken
        ==> next.pending_dst_token_removes == s.pending_dst_token_removes
    &&& call !is ExecuteAddToken && call !is ExecuteRemoveToken ==> {
        &&& next.allowed_dst_tokens == s.allowed_dst_tokens
        &&& next.allowed_dst_token_list == s.allowed_dst_token_list
    }
    &&& call !is Submit ==> next.user_nonces == s.user_nonces && next.user_intents == s.user_intents
    &&& call !is Initialize && call !is Submit ==> next.total_intents == s.total_intents
    &&& call !is Initialize && call !is Fill ==> next.total_volume == s.total_volume
    &&& call !is Extend ==> next.extensions_granted == s.extensions_granted
    &&& call !is Accept && call !is Fill && call !is Slash
        ==> next.accepted_by_token == s.accepted_by_token
    &&& call !is AllowChain && call !is DisallowChain
        ==> next.allowed_src_chains == s.allowed_src_chains
    &&& call !is Cancel ==> next.cancel_times == s.cancel_times
    &&& call !is Initialize && call !is Migrate ==> next.migration_version == s.migration_version
    &&& call !is Initialize && (!on_intents(call) || call is Extend)
        ==> next.open_intents == s.open_intents
    &&& call !is Initialize && call !is Register && call !is Deregister
        ==> next.total_solvers == s.total_solvers
    &&& call !is EnableTokenList ==> next.dst_allowlist_enabled == s.dst_allowlist_enabled
    &&& call !is EnableChainList
        ==> next.src_chain_allowlist_enabled == s.src_chain_allowlist_enabled
}

/// Every call keeps to its footprint.
pub proof fn lemma_footprint(s: State, inv: Invocation, call: Call)
    ensures
        step(s, inv, call) matches Step::Done { next, .. } ==> within_footprint(s, next, call),
{
    let after = step(s, inv, call);
    if after is Done {
        match call {
            Call::Initialize { .. } => assert(within_footprint(s, after->next, call)),
            Call::ProposeFeeRecipient { .. } => assert(within_footprint(s, after->next, call)),
            Call::AcceptFeeRecipient { .. } => assert(within_footprint(s, after->next, call)),
            Call::ProposeAdmin { .. } => assert(within_footprint(s, after->next, call)),
            Call::AcceptAdmin { .. } => assert(within_footprint(s, after->next, call)),
            Call::ProposeUpgrade { .. } => assert(within_footprint(s, after->next, call)),
            Call::ExecuteUpgrade { .. } => assert(within_footprint(s, after->next, call)),
            Call::Migrate => assert(within_footprint(s, after->next, call)),
            Call::SetConfig { .. } => assert(within_footprint(s, after->next, call)),
            Call::SetPauser { .. } => assert(within_footprint(s, after->next, call)),
            Call::Pause { .. } => assert(within_footprint(s, after->next, call)),
            Call::Unpause => assert(within_footprint(s, after->next, call)),
            Call::Rescue { .. } => assert(within_footprint(s, after->next, call)),
            Call::SetTiers { .. } => assert(within_footprint(s, after->next, call)),
            Call::ProposeAddToken { .. } => assert(within_footprint(s, after->next, call)),
            Call::ExecuteAddToken { .. } => assert(within_footprint(s, after->next, call)),
            Call::ProposeRemoveToken { .. } => assert(within_footprint(s, after->next, call)),
            Call::ExecuteRemoveToken { .. } => assert(within_footprint(s, after->next, call)),
            Call::EnableTokenList { .. } => assert(within_footprint(s, after->next, call)),
            Call::SetMultiplier { .. } => assert(within_footprint(s, after->next, call)),
            Call::AllowChain { .. } => assert(within_footprint(s, after->next, call)),
            Call::DisallowChain { .. } => assert(within_footprint(s, after->next, call)),
            Call::EnableChainList { .. } => assert(within_footprint(s, after->next, call)),
            Call::Register { .. } => assert(within_footprint(s, after->next, call)),
            Call::Deregister { .. } => assert(within_footprint(s, after->next, call)),
            Call::Withdraw { .. } => assert(within_footprint(s, after->next, call)),
            Call::Submit { .. } => assert(within_footprint(s, after->next, call)),
            Call::Accept { .. } => assert(within_footprint(s, after->next, call)),
            Call::Fill { .. } => assert(within_footprint(s, after->next, call)),
            Call::Cancel { .. } => assert(within_footprint(s, after->next, call)),
            Call::Slash { .. } => assert(within_footprint(s, after->next, call)),
            Call::Expire { .. } => assert(within_footprint(s, after->next, call)),
            Call::Extend { .. } => assert(within_footprint(s, after->next, call)),
        }
    }
}

/// Tokens move only in calls on bonds, in fills and in rescues, and the code is
/// replaced only by the execution of an upgrade.
pub open spec fn modest(effects: Seq<Effect>, call: Call) -> bool {
    &&& forall|i: int|
        0 <= i < effects.len() && #[trigger] effects[i] is Transfer ==> call is Register
            || call is Deregister || call is Withdraw || call is Fill || call is Slash
            || call is Rescue
    &&& forall|i: int|
        0 <= i < effects.len() && #[trigger] effects[i] is UpdateWasm ==> call is ExecuteUpgrade
}

/// No call has effects beyond its purpose.
pub proof fn lemma_modest(s: State, inv: Invocation, call: Call)
    ensures
        step(s, inv, call) matches Step::Done { effects, .. } ==> modest(effects, call),
{
    let after = step(s, inv, call);
    if after is Done {
        match call {
            Call::Initialize { .. } => assert(modest(after->effects, call)),
            Call::ProposeFeeRecipient { .. } => assert(modest(after->effects, call)),
            Call::AcceptFeeRecipient { .. } => assert(modest(after->effects, call)),
            Call::ProposeAdmin { .. } => assert(modest(after->effects, call)),
            Call::AcceptAdmin { .. } => assert(modest(after->effects, call)),
            Call::ProposeUpgrade { .. } => assert(modest(after->effects, call)),
            Call::ExecuteUpgrade { .. } => assert(modest(after->effects, call)),
            Call::Migrate => assert(modest(after->effects, call)),
            Call::SetConfig { .. } => assert(modest(after->effects, call)),
            Call::SetPauser { .. } => assert(modest(after->effects, call)),
            Call::Pause { .. } => assert(modest(after->effects, call)),
            Call::Unpause => assert(modest(after->effects, call)),
            Call::Rescue { .. } => assert(modest(after->effects, call)),
            Call::SetTiers { .. } => assert(modest(after->effects, call)),
            Call::ProposeAddToken { .. } => assert(modest(after->effects, call)),
            Call::ExecuteAddToken { .. } => assert(modest(after->effects, call)),
            Call::ProposeRemoveToken { .. } => assert(modest(after->effects, call)),
            Call::ExecuteRemoveToken { .. } => assert(modest(after->effects, call)),
            Call::EnableTokenList { .. } => assert(modest(after->effects, call)),
            Call::SetMultiplier { .. } => assert(modest(after->effects, call)),
            Call::AllowChain { .. } => assert(modest(after->effects, call)),
            Call::DisallowChain { .. } => assert(modest(after->effects, call)),
            Call::EnableChainList { .. } => assert(modest(after->effects, call)),
            Call::Register { .. } => assert(modest(after->effects, call)),
            Call::Deregister { .. } => assert(modest(after->effects, call)),
            Call::Withdraw { .. } => assert(modest(after->effects, call)),
            Call::Submit { .. } => assert(modest(after->effects, call)),
            Call::Accept { .. } => assert(modest(after->effects, call)),
            Call::Fill { .. } => assert(modest(after->effects, call)),
            Call::Cancel { .. } => assert(modest(after->effects, call)),
            Call::Slash { .. } => assert(modest(after->effects, call)),
            Call::Expire { .. } => assert(modest(after->effects, call)),
            Call::Extend { .. } => assert(modest(after->effects, call)),
        }
    }
}

/// A call begins by extending the lifetime of the contract's instance, and it
/// extends the lifetime of every intent and every solver's record that it writes.
pub open spec fn lifetimes_extended(s: State, next: State, effects: Seq<Effect>) -> bool {
    &&& effects.len() > 0
    &&& effects[0] == Effect::ExtendInstance
    &&& forall|id: Bytes32| #[trigger]
        next.intents.contains_key(id) && !(s.intents.contains_key(id) && s.intents[id]
            == next.intents[id]) ==> effects.contains(Effect::ExtendIntent { intent_id: id })
    &&& forall|a: Address| #[trigger]
        next.solvers.contains_key(a) && !(s.solvers.contains_key(a) && s.solvers[a]
            == next.solvers[a]) ==> effects.contains(Effect::ExtendSolver { solver: a })
}

/// Every call extends the lifetimes of what it writes.
pub proof fn lemma_lifetimes_extended(s: State, inv: Invocation, call: Call)
    ensures
        step(s, inv, call) matches Step::Done { next, effects } ==> lifetimes_extended(
            s,
            next,
            effects,
        ),
{
    let after = step(s, inv, call);
    if after is Done {
        let effects = after->effects;
        lemma_footprint(s, inv, call);
        match call {
            Call::Register { solver, .. } => {
                assert(effects[1] == (Effect::ExtendSolver { solver }));
            },
            Call::Deregister { .. } => {
                assert(effects[0] == Effect::ExtendInstance);
            },
            Call::Withdraw { solver, .. } => {
                assert(effects[1] == (Effect::ExtendSolver { solver }));
            },
            Call::Submit { id, .. } => {
                assert(effects[1] == (Effect::ExtendIntent { intent_id: id }));
            },
            Call::Accept { solver, id } => {
                assert(effects[1] == (Effect::ExtendSolver { solver }));
                assert(effects[2] == (Effect::ExtendIntent { intent_id: id }));
            },
            Call::Fill { solver, id, .. } => {
                assert(effects[0] == Effect::ExtendInstance);
                assert(effects[1] == (Effect::ExtendSolver { solver }));
                assert(effects[2] == (Effect::ExtendIntent { intent_id: id }));
            },
            Call::Cancel { id, .. } => {
                assert(effects[1] == (Effect::ExtendIntent { intent_id: id }));
            },
            Call::Slash { id } => {
                assert(effects[1] == (Effect::ExtendSolver { solver: s.intents[id].solver->0 }));
                assert(effects[2] == (Effect::ExtendIntent { intent_id: id }));
            },
            Call::Expire { id } => {
                assert(effects[1] == (Effect::ExtendIntent { intent_id: id }));
            },
            Call::Extend { id, .. } => {
                assert(effects[1] == (Effect::ExtendIntent { intent_id: id }));
            },
            _ => lemma_instance_extended(s, inv, call),
        }
    }
}

/// Calls on neither intents nor solvers extend the instance first.
proof fn lemma_instance_extended(s: State, inv: Invocation, call: Call)
    requires
        !on_intents(call),
        !on_solvers(call),
    ensures
        step(s, inv, call) matches Step::Done { effects, .. } ==> effects.len() > 0 && effects[0]
            == Effect::ExtendInstance,
{
}

} // verus!
