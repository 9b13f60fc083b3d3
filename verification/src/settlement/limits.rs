//! Whether a call is within the machine's limits, for callers that have to ask
//! before they make it.
use vstd::prelude::*;
use crate::context::Invocation;
use crate::host::MAX_TEXT_LEN;
use crate::settlement::admin::eta_fits;
use crate::settlement::intent_rules::{accept_fits, cancel_fits, extension_fits, fill_fits, request,
    slash_fits, submission_abort, submit_fits};
use crate::settlement::solvers::register_fits;
use crate::settlement::state::IntentSettlement;
use crate::settlement::token_format::validate_src_token;
use crate::settlement::types::{IntentState, ADMIN_TIMELOCK_DELAY, CANCEL_COOLDOWN, INTENT_EXPIRY,
    MAX_EXTENSION_DURATION, MIN_BOND, SLASH_COOLDOWN};
use crate::types::{Address, Bytes32};

verus! {

impl IntentSettlement {
    /// Whether the end of a proposal's timelock fits its type.
    pub fn proposal_within_limits(&self, inv: &Invocation) -> (r: bool)
        ensures
            r == eta_fits(self@, *inv),
    {
        self.require_admin(inv).is_some() || inv.now <= u64::MAX - ADMIN_TIMELOCK_DELAY
    }

    /// Whether the sums of a registration fit their types.
    pub fn registration_within_limits(
        &self,
        inv: &Invocation,
        solver: Address,
        bond_amount: i128,
    ) -> (r: bool)
        requires
            self.wf(),
        ensures
            r == register_fits(self@, *inv, solver, bond_amount),
    {
        if !inv.has_signed(solver) || self.paused || bond_amount <= 0 {
            return true;
        }
        match self.solvers.get(solver) {
            Some(record) => record.bond_amount <= i128::MAX - bond_amount,
            None => bond_amount < self.load_config().min_bond || self.total_solvers < u32::MAX,
        }
    }

    /// Whether the sums of a submission fit their types, and the chain's name
    /// the encoding of the intent's id.
    pub fn submission_within_limits(
        &self,
        inv: &Invocation,
        user: Address,
        src_chain: &Vec<u8>,
        src_token: &Vec<u8>,
        src_amount: i128,
        dst_token: Address,
        min_dst_amount: i128,
        deadline: Option<u64>,
    ) -> (r: bool)
        requires
            self.wf(),
        ensures
            ({
                let q = request(
                    user,
                    src_chain@,
                    src_token@,
                    src_amount,
                    dst_token,
                    min_dst_amount,
                    deadline,
                );
                r == (submit_fits(self@, *inv, q) && (submission_abort(self@, *inv, q) is None
                    ==> src_chain@.len() <= MAX_TEXT_LEN))
            }),
    {
        let ghost q = request(
            user,
            src_chain@,
            src_token@,
            src_amount,
            dst_token,
            min_dst_amount,
            deadline,
        );
        let refused = self.check_request(
            inv,
            user,
            src_chain,
            src_amount,
            dst_token,
            min_dst_amount,
        );
        if refused.is_some() || !validate_src_token(src_chain, src_token) {
            assert(submission_abort(self@, *inv, q) is Some);
            return true;
        }
        if inv.now > u64::MAX - self.load_config().intent_expiry {
            return false;
        }
        let abort = self.check_submission(
            inv,
            user,
            src_chain,
            src_token,
            src_amount,
            dst_token,
            min_dst_amount,
            deadline,
        );
        abort.is_some() || self.user_nonce(user) < u64::MAX && self.total_intents < u64::MAX
            && self.open_intents < u64::MAX && src_chain.len() <= MAX_TEXT_LEN
    }

    /// Whether the sums of an acceptance fit their types.
    pub fn acceptance_within_limits(
        &self,
        inv: &Invocation,
        solver: Address,
        intent_id: Bytes32,
    ) -> (r: bool)
        requires
            self.wf(),
        ensures
            r == accept_fits(self@, *inv, solver, intent_id),
    {
        if !inv.has_signed(solver) || self.paused {
            return true;
        }
        let active_intents: u32 = match self.solvers.get(solver) {
            None => {
                return true;
            },
            Some(record) => {
                if !record.is_active {
                    return true;
                }
                if record.last_slash_time > 0 {
                    if record.last_slash_time > u64::MAX - SLASH_COOLDOWN {
                        return false;
                    }
                    if inv.now < record.last_slash_time + SLASH_COOLDOWN {
                        return true;
                    }
                }
                record.active_intents
            },
        };
        let dst_token: Address = match self.intents.get(intent_id) {
            None => {
                return true;
            },
            Some(intent) => intent.dst_token,
        };
        let multiplier: i128 = self.get_min_bond_multiplier(dst_token);
        if multiplier > i128::MAX / MIN_BOND {
            return false;
        }
        self.check_acceptance(inv, solver, intent_id).is_some() || inv.now <= u64::MAX
            - self.load_config().fill_window && active_intents < u32::MAX && self.accepted_count(
            dst_token,
        ) < u64::MAX
    }

    /// Whether a fill finds the records it needs, and its sums fit their types.
    pub fn fill_within_limits(
        &self,
        inv: &Invocation,
        solver: Address,
        intent_id: Bytes32,
        fill_amount: i128,
    ) -> (r: bool)
        requires
            self.wf(),
        ensures
            r == fill_fits(self@, *inv, solver, intent_id, fill_amount),
    {
        if self.check_fill(inv, solver, intent_id, fill_amount).is_some() {
            return true;
        }
        match (self.intents.get(intent_id), self.solvers.get(solver)) {
            (Some(intent), Some(record)) => {
                let room: i128 = i128::MAX - fill_amount;
                if intent.total_filled > room || record.total_volume > room || self.total_volume
                    > room {
                    return false;
                }
                if self.fee_recipient.is_none() && self.fee_on_fill(solver, fill_amount) > 0 {
                    return false;
                }
                if intent.total_filled + fill_amount >= intent.min_dst_amount {
                    record.fills_completed < u32::MAX
                } else {
                    inv.now <= u64::MAX - INTENT_EXPIRY && self.open_intents < u64::MAX
                }
            },
            _ => false,
        }
    }

    /// Whether the end of the user's cooldown fits its type.
    pub fn cancellation_within_limits(&self, inv: &Invocation, user: Address) -> (r: bool)
        requires
            self.wf(),
        ensures
            r == cancel_fits(self@, *inv, user),
    {
        if !inv.has_signed(user) {
            return true;
        }
        match self.cancel_times.get(user) {
            Some(last) => *last <= u64::MAX - CANCEL_COOLDOWN,
            None => true,
        }
    }

    /// Whether a slash finds the records it needs, and its sums fit their types.
    pub fn slash_within_limits(&self, inv: &Invocation, intent_id: Bytes32) -> (r: bool)
        requires
            self.wf(),
        ensures
            r == slash_fits(self@, *inv, intent_id),
    {
        let holder: Option<Address> = match self.intents.get(intent_id) {
            None => {
                return true;
            },
            Some(intent) => {
                if intent.state != IntentState::Accepted || inv.now < intent.deadline {
                    return true;
                }
                intent.solver
            },
        };
        let solver: Address = match holder {
            None => {
                return false;
            },
            Some(solver) => solver,
        };
        match self.solvers.get(solver) {
            None => false,
            Some(record) => record.bond_amount > i128::MIN && record.fills_failed < u32::MAX
                && inv.now <= u64::MAX - self.load_config().intent_expiry && self.open_intents
                < u64::MAX && (self.bond_token.is_none() || self.fee_recipient.is_some()),
        }
    }

    /// Whether the end of an extension fits its type.
    pub fn extension_within_limits(
        &self,
        inv: &Invocation,
        solver: Address,
        intent_id: Bytes32,
    ) -> (r: bool)
        requires
            self.wf(),
        ensures
            r == extension_fits(self@, *inv, solver, intent_id),
    {
        self.check_extension(inv, solver, intent_id).is_some() || inv.now <= u64::MAX
            - MAX_EXTENSION_DURATION
    }
}

} // verus!
