//! All calls that change the contract's state, as one transition function.
use vstd::prelude::*;
use crate::context::Invocation;
use crate::settlement::admin::{accept_admin_step, accept_fee_recipient_step, eta_fits,
    execute_upgrade_step, initialize_step, migrate_step, pause_step, propose_admin_step,
    propose_fee_recipient_step, propose_upgrade_step, rescue_step, set_config_step,
    set_pauser_step, set_tiers_step, unpause_step};
use crate::settlement::allowlist::{allow_chain_step, disallow_chain_step, enable_chains_step,
    enable_dst_step, execute_add_step, execute_remove_step, propose_add_step, propose_remove_step,
    set_multiplier_step};
use crate::settlement::intent_rules::{accept_fits, accept_step, cancel_fits, cancel_step,
    expire_step, extension_fits, extension_step, fill_fits, fill_step, slash_fits, slash_step,
    submit_fits, submit_step, Request};
use crate::settlement::solvers::{deregister_step, register_fits, register_step, withdraw_step};
use crate::settlement::state::{State, Step};
use crate::settlement::types::ProtocolConfig;
use crate::types::{Address, Bytes32};

verus! {

/// A call of one of the contract's entry points.
pub enum Call {
    Initialize { admin: Address, fee_recipient: Address, bond_token: Address },
    ProposeFeeRecipient { recipient: Address },
    AcceptFeeRecipient { recipient: Address },
    ProposeAdmin { admin: Address },
    AcceptAdmin { admin: Address },
    ProposeUpgrade { wasm_hash: Bytes32 },
    ExecuteUpgrade { wasm_hash: Bytes32 },
    Migrate,
    SetConfig { config: ProtocolConfig },
    SetPauser { pauser: Address },
    Pause { caller: Address },
    Unpause,
    Rescue { token: Address, to: Address, amount: i128 },
    SetTiers { tiers: Seq<(i128, u32)> },
    ProposeAddToken { token: Address, is_token: bool },
    ExecuteAddToken { token: Address },
    ProposeRemoveToken { token: Address },
    ExecuteRemoveToken { token: Address },
    EnableTokenList { enabled: bool },
    SetMultiplier { token: Address, multiplier: i128 },
    AllowChain { chain: Vec<u8> },
    DisallowChain { chain: Vec<u8> },
    EnableChainList { enabled: bool },
    Register { solver: Address, bond_amount: i128 },
    Deregister { solver: Address },
    Withdraw { solver: Address, amount: i128 },
    Submit { request: Request, id: Bytes32 },
    Accept { solver: Address, id: Bytes32 },
    Fill { solver: Address, id: Bytes32, amount: i128 },
    Cancel { user: Address, id: Bytes32 },
    Slash { id: Bytes32 },
    Expire { id: Bytes32 },
    Extend { solver: Address, id: Bytes32 },
}

/// What a call does.
pub open spec fn step(s: State, inv: Invocation, call: Call) -> Step {
    match call {
        Call::Initialize { admin, fee_recipient, bond_token } => initialize_step(
            s,
            inv,
            admin,
            fee_recipient,
            bond_token,
        ),
        Call::ProposeFeeRecipient { recipient } => propose_fee_recipient_step(s, inv, recipient),
        Call::AcceptFeeRecipient { recipient } => accept_fee_recipient_step(s, inv, recipient),
        Call::ProposeAdmin { admin } => propose_admin_step(s, inv, admin),
        Call::AcceptAdmin { admin } => accept_admin_step(s, inv, admin),
        Call::ProposeUpgrade { wasm_hash } => propose_upgrade_step(s, inv, wasm_hash),
        Call::ExecuteUpgrade { wasm_hash } => execute_upgrade_step(s, inv, wasm_hash),
        Call::Migrate => migrate_step(s, inv),
        Call::SetConfig { config } => set_config_step(s, inv, config),
        Call::SetPauser { pauser } => set_pauser_step(s, inv, pauser),
        Call::Pause { caller } => pause_step(s, inv, caller),
        Call::Unpause => unpause_step(s, inv),
        Call::Rescue { token, to, amount } => rescue_step(s, inv, token, to, amount),
        Call::SetTiers { tiers } => set_tiers_step(s, inv, tiers),
        Call::ProposeAddToken { token, is_token } => propose_add_step(s, inv, token, is_token),
        Call::ExecuteAddToken { token } => execute_add_step(s, inv, token),
        Call::ProposeRemoveToken { token } => propose_remove_step(s, inv, token),
        Call::ExecuteRemoveToken { token } => execute_remove_step(s, inv, token),
        Call::EnableTokenList { enabled } => enable_dst_step(s, inv, enabled),
        Call::SetMultiplier { token, multiplier } => set_multiplier_step(s, inv, token, multiplier),
        Call::AllowChain { chain } => allow_chain_step(s, inv, chain),
        Call::DisallowChain { chain } => disallow_chain_step(s, inv, chain),
        Call::EnableChainList { enabled } => enable_chains_step(s, inv, enabled),
        Call::Register { solver, bond_amount } => register_step(s, inv, solver, bond_amount),
        Call::Deregister { solver } => deregister_step(s, inv, solver),
        Call::Withdraw { solver, amount } => withdraw_step(s, inv, solver, amount),
        Call::Submit { request, id } => submit_step(s, inv, request, id),
        Call::Accept { solver, id } => accept_step(s, inv, solver, id),
        Call::Fill { solver, id, amount } => fill_step(s, inv, solver, id, amount),
        Call::Cancel { user, id } => cancel_step(s, inv, user, id),
        Call::Slash { id } => slash_step(s, inv, id),
        Call::Expire { id } => expire_step(s, inv, id),
        Call::Extend { solver, id } => extension_step(s, inv, solver, id),
    }
}

/// A call is within the machine's limits and finds the records it needs.
pub open spec fn fits(s: State, inv: Invocation, call: Call) -> bool {
    match call {
        Call::ProposeFeeRecipient { .. } => eta_fits(s, inv),
        Call::ProposeAdmin { .. } => eta_fits(s, inv),
        Call::ProposeUpgrade { .. } => eta_fits(s, inv),
        Call::ProposeAddToken { is_token, .. } => is_token ==> eta_fits(s, inv),
        Call::ProposeRemoveToken { .. } => eta_fits(s, inv),
        Call::SetTiers { tiers } => tiers.len() <= u32::MAX,
        Call::Register { solver, bond_amount } => register_fits(s, inv, solver, bond_amount),
        Call::Submit { request, .. } => submit_fits(s, inv, request),
        Call::Accept { solver, id } => accept_fits(s, inv, solver, id),
        Call::Fill { solver, id, amount } => fill_fits(s, inv, solver, id, amount),
        Call::Cancel { user, .. } => cancel_fits(s, inv, user),
        Call::Slash { id } => slash_fits(s, inv, id),
        Call::Extend { solver, id } => extension_fits(s, inv, solver, id),
        _ => true,
    }
}

} // verus!
