//! The life of an intent: submission, acceptance, filling and its other ends.
use vstd::prelude::*;
use crate::context::{Abort, Invocation};
use crate::host::MAX_TEXT_LEN;
use crate::settlement::intent_id::{compute_intent_id, intent_id};
use crate::settlement::intent_rules::{accept_fits, accept_guards_fit, accept_step, cancel_fits,
    cancel_step, expire_step, extension_fits, extension_step, fill_effects, fill_fee, fill_fits,
    fill_step, request, slash_fits, slash_step, submission_abort, submission_refusal, submit_fits,
    submit_step, Request};
use crate::settlement::state::{IntentSettlement, Step};
use crate::settlement::token_format::validate_src_token;
use crate::settlement::types::{Effect, Error, Event, IntentRecord, IntentState, BPS_DENOMINATOR,
    CANCEL_COOLDOWN, DEFAULT_BOND_MULTIPLIER, INTENT_EXPIRY, MAX_AMOUNT, MAX_EXTENSION_DURATION,
    MIN_BOND, SLASH_COOLDOWN};
use crate::types::{Address, Bytes32};

verus! {

impl IntentSettlement {
    /// The bond a solver needs to accept an intent for `token`: the default
    /// minimum times the token's multiplier.
    fn get_adjusted_min_bond(&self, token: Address) -> (r: i128)
        requires
            self.wf(),
            MIN_BOND * self@.multiplier_of(token) <= i128::MAX,
        ensures
            r == self@.adjusted_min_bond(token),
    {
        let multiplier: i128 = match self.min_bond_multipliers.get(token) {
            Some(multiplier) => *multiplier,
            None => DEFAULT_BOND_MULTIPLIER,
        };
        (MIN_BOND * multiplier) / 10
    }

    /// How many accepted intents are on record as awaiting `token`.
    pub(crate) fn accepted_count(&self, token: Address) -> (r: u64)
        requires
            self.wf(),
        ensures
            r == self@.accepted_for(token),
    {
        match self.accepted_by_token.get(token) {
            Some(count) => *count,
            None => 0,
        }
    }

    /// Why an acceptance is turned down, if it is.
    pub(crate) fn check_acceptance(
        &self,
        inv: &Invocation,
        solver: Address,
        intent_id: Bytes32,
    ) -> (r: Option<Abort<Error>>)
        requires
            self.wf(),
            accept_guards_fit(self@, *inv, solver, intent_id),
        ensures
            r == accept_step(self@, *inv, solver, intent_id).refusal(),
    {
        if !inv.has_signed(solver) {
            return Some(Abort::Auth(solver));
        }
        if self.paused {
            return Some(Abort::Error(Error::ContractPaused));
        }
        let now: u64 = inv.now;
        let bond: i128 = match self.solvers.get(solver) {
            None => {
                return Some(Abort::Error(Error::SolverNotRegistered));
            },
            Some(record) => {
                if !record.is_active {
                    return Some(Abort::Error(Error::SolverInactive));
                }
                if record.last_slash_time > 0 && now < record.last_slash_time + SLASH_COOLDOWN {
                    return Some(Abort::Error(Error::SolverInactive));
                }
                record.bond_amount
            },
        };
        match self.intents.get(intent_id) {
            None => Some(Abort::Error(Error::IntentNotFound)),
            Some(intent) => {
                if bond < self.get_adjusted_min_bond(intent.dst_token) {
                    Some(Abort::Error(Error::SolverBondTooLow))
                } else if now >= intent.deadline {
                    Some(Abort::Error(Error::IntentExpired))
                } else if intent.state != IntentState::Open && intent.state
                    != IntentState::PartiallyFilled {
                    Some(Abort::Error(Error::IntentNotOpen))
                } else {
                    None
                }
            },
        }
    }

    /// A solver claims an intent: an exclusive right to fill it until the fill
    /// window closes.
    pub fn accept_intent(
        &mut self,
        inv: &Invocation,
        solver: Address,
        intent_id: Bytes32,
    ) -> (r: Result<Vec<Effect>, Abort<Error>>)
        requires
            old(self).wf(),
            accept_fits(old(self)@, *inv, solver, intent_id),
        ensures
            final(self).wf(),
            accept_step(old(self)@, *inv, solver, intent_id).describes(
                old(self)@,
                final(self)@,
                r,
            ),
    {
        let ghost s = self@;
        if let Some(abort) = self.check_acceptance(inv, solver, intent_id) {
            return Err(abort);
        }
        let deadline: u64 = inv.now + self.load_config().fill_window;
        let intent = self.intents.entry_mut(intent_id);
        let dst_token: Address = intent.dst_token;
        intent.solver = Some(solver);
        intent.state = IntentState::Accepted;
        intent.deadline = deadline;
        let record = self.solvers.entry_mut(solver);
        record.active_intents = record.active_intents + 1;
        self.open_intents = self.open_intents.saturating_sub(1);
        let accepted: u64 = self.accepted_count(dst_token);
        self.accepted_by_token.set(dst_token, accepted + 1);
        let effects = vec![
            Effect::ExtendInstance,
            Effect::ExtendSolver { solver },
            Effect::ExtendIntent { intent_id },
            Effect::Emit { event: Event::IntentAccepted { solver, intent_id, deadline } },
        ];
        proof {
            let step = accept_step(s, *inv, solver, intent_id);
            assert(effects@ =~= step->effects);
            assert(self@ =~= step->next);
        }
        Ok(effects)
    }

    /// Why a fill is turned down, if it is.
    pub(crate) fn check_fill(
        &self,
        inv: &Invocation,
        solver: Address,
        intent_id: Bytes32,
        fill_amount: i128,
    ) -> (r: Option<Abort<Error>>)
        requires
            self.wf(),
        ensures
            r == fill_step(self@, *inv, solver, intent_id, fill_amount).refusal(),
    {
        if !inv.has_signed(solver) {
            return Some(Abort::Auth(solver));
        }
        if self.paused {
            return Some(Abort::Error(Error::ContractPaused));
        }
        match self.intents.get(intent_id) {
            None => {
                return Some(Abort::Error(Error::IntentNotFound));
            },
            Some(intent) => {
                if inv.now >= intent.deadline {
                    return Some(Abort::Error(Error::FillWindowExpired));
                }
                match intent.state {
                    IntentState::Accepted => {},
                    IntentState::Filled => {
                        return Some(Abort::Error(Error::IntentAlreadyFilled));
                    },
                    _ => {
                        return Some(Abort::Error(Error::IntentNotAccepted));
                    },
                }
                if intent.solver != Some(solver) {
                    return Some(Abort::Error(Error::Unauthorized));
                }
            },
        }
        if fill_amount <= 0 {
            return Some(Abort::Error(Error::ZeroAmount));
        }
        let fee_bps: i128 = self.get_tiered_fee_bps(solver);
        assert(0 <= fill_amount * fee_bps) by (nonlinear_arith)
            requires
                0 < fill_amount,
                0 <= fee_bps,
        ;
        match fill_amount.checked_mul(fee_bps) {
            Some(_) => None,
            None => Some(Abort::Error(Error::FeeOverflow)),
        }
    }

    /// The protocol fee on a fill whose product with the rate fits its type.
    pub(crate) fn fee_on_fill(&self, solver: Address, fill_amount: i128) -> (r: i128)
        requires
            self.wf(),
            fill_amount > 0,
            fill_amount * self@.fee_bps(solver) <= i128::MAX,
        ensures
            r == fill_fee(self@, solver, fill_amount as int),
    {
        let fee_bps: i128 = self.get_tiered_fee_bps(solver);
        assert(0 <= fill_amount * fee_bps) by (nonlinear_arith)
            requires
                0 < fill_amount,
                0 <= fee_bps,
        ;
        fill_amount * fee_bps / BPS_DENOMINATOR
    }

    /// The solver that holds an intent delivers `fill_amount` of its token to
    /// the user and pays the protocol fee on top. A fill may be partial: the
    /// intent is settled once the user has the minimum in all, and open again
    /// for the rest until then.
    pub fn fill_intent(
        &mut self,
        inv: &Invocation,
        solver: Address,
        intent_id: Bytes32,
        fill_amount: i128,
    ) -> (r: Result<Vec<Effect>, Abort<Error>>)
        requires
            old(self).wf(),
            fill_fits(old(self)@, *inv, solver, intent_id, fill_amount),
        ensures
            final(self).wf(),
            fill_step(old(self)@, *inv, solver, intent_id, fill_amount).describes(
                old(self)@,
                final(self)@,
                r,
            ),
    {
        let ghost s = self@;
        if let Some(abort) = self.check_fill(inv, solver, intent_id, fill_amount) {
            return Err(abort);
        }
        let now: u64 = inv.now;
        let fee: i128 = self.fee_on_fill(solver, fill_amount);
        let intent = self.intents.entry_mut(intent_id);
        let (user, dst_token): (Address, Address) = (intent.user, intent.dst_token);
        let delivered: i128 = intent.total_filled + fill_amount;
        let settles: bool = delivered >= intent.min_dst_amount;
        intent.total_filled = delivered;
        intent.fill_amount = Some(delivered);
        if settles {
            intent.state = IntentState::Filled;
            intent.filled_at = Some(now);
        } else {
            intent.state = IntentState::PartiallyFilled;
            intent.solver = None;
            intent.deadline = now + INTENT_EXPIRY;
        }
        let record = self.solvers.entry_mut(solver);
        record.total_volume = record.total_volume + fill_amount;
        record.active_intents = record.active_intents.saturating_sub(1);
        if settles {
            record.fills_completed = record.fills_completed + 1;
        } else {
            self.open_intents = self.open_intents + 1;
        }
        self.total_volume = self.total_volume + fill_amount;
        let accepted: u64 = self.accepted_count(dst_token);
        self.accepted_by_token.set(dst_token, accepted.saturating_sub(1));

        let mut effects = vec![
            Effect::ExtendInstance,
            Effect::ExtendSolver { solver },
            Effect::ExtendIntent { intent_id },
            Effect::Transfer { token: dst_token, from: solver, to: user, amount: fill_amount },
        ];
        if fee > 0 {
            if let Some(fee_recipient) = self.fee_recipient {
                effects.push(
                    Effect::Transfer {
                        token: dst_token,
                        from: solver,
                        to: fee_recipient,
                        amount: fee,
                    },
                );
            }
        }
        effects.push(
            Effect::Emit { event: Event::IntentFilled { solver, intent_id, fill_amount, fee } },
        );
        proof {
            let step = fill_step(s, *inv, solver, intent_id, fill_amount);
            assert(effects@ =~= fill_effects(s, solver, intent_id, fill_amount));
            assert(self@ =~= step->next);
        }
        Ok(effects)
    }

    /// A user takes back an intent that no solver holds. Open while the
    /// contract is paused, but only once in a cooldown.
    pub fn cancel_intent(
        &mut self,
        inv: &Invocation,
        user: Address,
        intent_id: Bytes32,
    ) -> (r: Result<Vec<Effect>, Abort<Error>>)
        requires
            old(self).wf(),
            cancel_fits(old(self)@, *inv, user),
        ensures
            final(self).wf(),
            cancel_step(old(self)@, *inv, user, intent_id).describes(old(self)@, final(self)@, r),
    {
        let ghost s = self@;
        if !inv.has_signed(user) {
            return Err(Abort::Auth(user));
        }
        let now: u64 = inv.now;
        if let Some(last) = self.cancel_times.get(user) {
            if now < *last + CANCEL_COOLDOWN {
                return Err(Abort::Error(Error::CancelCooldownNotExpired));
            }
        }
        match self.intents.get(intent_id) {
            None => {
                return Err(Abort::Error(Error::IntentNotFound));
            },
            Some(intent) => {
                if intent.user != user {
                    return Err(Abort::Error(Error::Unauthorized));
                }
                if intent.state == IntentState::Accepted {
                    return Err(Abort::Error(Error::CannotCancelAccepted));
                }
                if intent.state != IntentState::Open && intent.state
                    != IntentState::PartiallyFilled {
                    return Err(Abort::Error(Error::IntentNotOpen));
                }
            },
        }
        let intent = self.intents.entry_mut(intent_id);
        intent.state = IntentState::Cancelled;
        self.open_intents = self.open_intents.saturating_sub(1);
        self.cancel_times.set(user, now);
        let effects = vec![
            Effect::ExtendInstance,
            Effect::ExtendIntent { intent_id },
            Effect::Emit { event: Event::IntentCancelled { user, intent_id } },
        ];
        proof {
            let step = cancel_step(s, *inv, user, intent_id);
            assert(effects@ =~= step->effects);
            assert(self@ =~= step->next);
        }
        Ok(effects)
    }

    /// Anyone slashes a solver that accepted an intent and did not fill it in
    /// time: a tenth of the bond goes to the fee recipient, and the intent is
    /// open again with its partial fills kept.
    pub fn slash_solver(&mut self, inv: &Invocation, intent_id: Bytes32) -> (r: Result<
        Vec<Effect>,
        Abort<Error>,
    >)
        requires
            old(self).wf(),
            slash_fits(old(self)@, *inv, intent_id),
        ensures
            final(self).wf(),
            slash_step(old(self)@, *inv, intent_id).describes(old(self)@, final(self)@, r),
    {
        let ghost s = self@;
        let now: u64 = inv.now;
        let holder: Option<Address> = match self.intents.get(intent_id) {
            None => {
                return Err(Abort::Error(Error::IntentNotFound));
            },
            Some(intent) => {
                if intent.state != IntentState::Accepted {
                    return Err(Abort::Error(Error::IntentNotAccepted));
                }
                if now < intent.deadline {
                    return Err(Abort::Error(Error::FillWindowExpired));
                }
                intent.solver
            },
        };
        let bond_token: Address = match self.bond_token {
            Some(bond_token) => bond_token,
            None => {
                return Err(Abort::Error(Error::NotInitialized));
            },
        };
        let solver: Address = holder.unwrap();
        let fee_recipient: Address = self.fee_recipient.unwrap();
        let config = self.load_config();

        let record = self.solvers.entry_mut(solver);
        let bond: i128 = record.bond_amount;
        let amount: i128 = if bond >= 20 {
            bond / 10
        } else {
            1
        };
        record.bond_amount = bond - amount;
        record.fills_failed = record.fills_failed + 1;
        record.last_slash_time = now;
        record.active_intents = record.active_intents.saturating_sub(1);
        if record.bond_amount < config.min_bond {
            record.is_active = false;
        }
        let intent = self.intents.entry_mut(intent_id);
        let dst_token: Address = intent.dst_token;
        intent.state = if intent.total_filled > 0 {
            IntentState::PartiallyFilled
        } else {
            IntentState::Open
        };
        intent.solver = None;
        intent.deadline = now + config.intent_expiry;
        self.open_intents = self.open_intents + 1;
        let accepted: u64 = self.accepted_count(dst_token);
        self.accepted_by_token.set(dst_token, accepted.saturating_sub(1));

        let effects = vec![
            Effect::ExtendInstance,
            Effect::ExtendSolver { solver },
            Effect::ExtendIntent { intent_id },
            Effect::Transfer {
                token: bond_token,
                from: inv.contract,
                to: fee_recipient,
                amount,
            },
            Effect::Emit { event: Event::SolverSlashed { solver, intent_id, amount } },
        ];
        proof {
            let step = slash_step(s, *inv, intent_id);
            assert(effects@ =~= step->effects);
            assert(self@ =~= step->next);
        }
        Ok(effects)
    }

    /// Anyone marks an open intent as expired once its deadline has passed.
    pub fn expire_intent(&mut self, inv: &Invocation, intent_id: Bytes32) -> (r: Result<
        Vec<Effect>,
        Abort<Error>,
    >)
        requires
            old(self).wf(),
        ensures
            final(self).wf(),
            expire_step(old(self)@, *inv, intent_id).describes(old(self)@, final(self)@, r),
    {
        let ghost s = self@;
        match self.intents.get(intent_id) {
            None => {
                return Err(Abort::Error(Error::IntentNotFound));
            },
            Some(intent) => {
                if intent.state != IntentState::Open && intent.state
                    != IntentState::PartiallyFilled {
                    return Err(Abort::Error(Error::IntentNotOpen));
                }
                if inv.now < intent.deadline {
                    return Err(Abort::Error(Error::DeadlineNotReached));
                }
            },
        }
        let intent = self.intents.entry_mut(intent_id);
        intent.state = IntentState::Expired;
        self.open_intents = self.open_intents.saturating_sub(1);
        let effects = vec![
            Effect::ExtendInstance,
            Effect::ExtendIntent { intent_id },
            Effect::Emit { event: Event::IntentExpired { intent_id } },
        ];
        proof {
            let step = expire_step(s, *inv, intent_id);
            assert(effects@ =~= step->effects);
            assert(self@ =~= step->next);
        }
        Ok(effects)
    }

    /// Why a request for an extension is turned down, if it is.
    pub(crate) fn check_extension(
        &self,
        inv: &Invocation,
        solver: Address,
        intent_id: Bytes32,
    ) -> (r: Option<Abort<Error>>)
        requires
            self.wf(),
        ensures
            r == extension_step(self@, *inv, solver, intent_id).refusal(),
    {
        if !inv.has_signed(solver) {
            return Some(Abort::Auth(solver));
        }
        match self.intents.get(intent_id) {
            None => {
                return Some(Abort::Error(Error::IntentNotFound));
            },
            Some(intent) => {
                if intent.state != IntentState::Accepted {
                    return Some(Abort::Error(Error::IntentNotAccepted));
                }
                if intent.solver != Some(solver) {
                    return Some(Abort::Error(Error::Unauthorized));
                }
                if inv.now >= intent.deadline {
                    return Some(Abort::Error(Error::FillWindowExpired));
                }
            },
        }
        if self.extensions_granted.has(intent_id) {
            return Some(Abort::Error(Error::ZeroAmount));
        }
        None
    }

    /// The solver that holds an intent gets more time to fill it, once per
    /// intent, if it asks before its fill window closes. A second request is
    /// answered with `ZeroAmount`.
    pub fn request_extension(
        &mut self,
        inv: &Invocation,
        solver: Address,
        intent_id: Bytes32,
    ) -> (r: Result<Vec<Effect>, Abort<Error>>)
        requires
            old(self).wf(),
            extension_fits(old(self)@, *inv, solver, intent_id),
        ensures
            final(self).wf(),
            extension_step(old(self)@, *inv, solver, intent_id).describes(
                old(self)@,
                final(self)@,
                r,
            ),
    {
        let ghost s = self@;
        if let Some(abort) = self.check_extension(inv, solver, intent_id) {
            return Err(abort);
        }
        let longest: u64 = inv.now + MAX_EXTENSION_DURATION;
        let intent = self.intents.entry_mut(intent_id);
        let deadline: u64 = if intent.deadline >= longest {
            intent.deadline
        } else {
            longest
        };
        intent.deadline = deadline;
        self.extensions_granted.set(intent_id, ());
        let effects = vec![
            Effect::ExtendInstance,
            Effect::ExtendIntent { intent_id },
            Effect::Emit { event: Event::ExtensionGranted { solver, intent_id, deadline } },
        ];
        proof {
            let step = extension_step(s, *inv, solver, intent_id);
            assert(effects@ =~= step->effects);
            assert(self@ =~= step->next);
        }
        Ok(effects)
    }

    /// Why a submission is turned down before its deadline is looked at.
    pub(crate) fn check_request(
        &self,
        inv: &Invocation,
        user: Address,
        src_chain: &Vec<u8>,
        src_amount: i128,
        dst_token: Address,
        min_dst_amount: i128,
    ) -> (r: Option<Abort<Error>>)
        requires
            self.wf(),
        ensures
            forall|q: Request|
                q.user == user && q.src_chain == src_chain@ && q.src_amount == src_amount
                    && q.dst_token == dst_token && q.min_dst_amount == min_dst_amount ==> r
                    == #[trigger] submission_refusal(self@, *inv, q),
    {
        if !inv.has_signed(user) {
            return Some(Abort::Auth(user));
        }
        if self.paused {
            return Some(Abort::Error(Error::ContractPaused));
        }
        if src_amount <= 0 || min_dst_amount <= 0 {
            return Some(Abort::Error(Error::ZeroAmount));
        }
        if src_amount > MAX_AMOUNT || min_dst_amount > MAX_AMOUNT {
            return Some(Abort::Error(Error::AmountTooLarge));
        }
        if self.dst_allowlist_enabled && !self.allowed_dst_tokens.has(dst_token) {
            return Some(Abort::Error(Error::DstTokenNotAllowed));
        }
        if self.src_chain_allowlist_enabled && !self.allowed_src_chains.has(src_chain) {
            return Some(Abort::Error(Error::SrcChainNotAllowed));
        }
        None
    }

    /// Why a submission is turned down, whatever its id will be.
    pub(crate) fn check_submission(
        &self,
        inv: &Invocation,
        user: Address,
        src_chain: &Vec<u8>,
        src_token: &Vec<u8>,
        src_amount: i128,
        dst_token: Address,
        min_dst_amount: i128,
        deadline: Option<u64>,
    ) -> (r: Option<Abort<Error>>)
        requires
            self.wf(),
        ensures
            r == submission_abort(
                self@,
                *inv,
                request(
                    user,
                    src_chain@,
                    src_token@,
                    src_amount,
                    dst_token,
                    min_dst_amount,
                    deadline,
                ),
            ),
    {
        let refused = self.check_request(
            inv,
            user,
            src_chain,
            src_amount,
            dst_token,
            min_dst_amount,
        );
        if refused.is_some() {
            return refused;
        }
        if let Some(deadline) = deadline {
            if deadline <= inv.now {
                return Some(Abort::Error(Error::InvalidDeadline));
            }
        }
        if !validate_src_token(src_chain, src_token) {
            return Some(Abort::Error(Error::InvalidSrcToken));
        }
        None
    }

    /// The number of intents that `user` has submitted.
    pub(crate) fn user_nonce(&self, user: Address) -> (r: u64)
        requires
            self.wf(),
        ensures
            r == self@.nonce_of(user),
    {
        match self.user_nonces.get(user) {
            Some(nonce) => *nonce,
            None => 0,
        }
    }

    /// A user submits a swap intent that is to be known as `intent_id`. No
    /// funds are locked.
    pub fn submit_intent_with_id(
        &mut self,
        inv: &Invocation,
        user: Address,
        src_chain: Vec<u8>,
        src_token: Vec<u8>,
        src_amount: i128,
        dst_token: Address,
        min_dst_amount: i128,
        deadline: Option<u64>,
        intent_id: Bytes32,
    ) -> (r: Result<Vec<Effect>, Abort<Error>>)
        requires
            old(self).wf(),
            submit_fits(
                old(self)@,
                *inv,
                request(
                    user,
                    src_chain@,
                    src_token@,
                    src_amount,
                    dst_token,
                    min_dst_amount,
                    deadline,
                ),
            ),
        ensures
            final(self).wf(),
            submit_step(
                old(self)@,
                *inv,
                request(
                    user,
                    src_chain@,
                    src_token@,
                    src_amount,
                    dst_token,
                    min_dst_amount,
                    deadline,
                ),
                intent_id,
            ).describes(old(self)@, final(self)@, r),
    {
        let ghost s = self@;
        let ghost q = request(
            user,
            src_chain@,
            src_token@,
            src_amount,
            dst_token,
            min_dst_amount,
            deadline,
        );
        if let Some(abort) = self.check_submission(
            inv,
            user,
            &src_chain,
            &src_token,
            src_amount,
            dst_token,
            min_dst_amount,
            deadline,
        ) {
            return Err(abort);
        }
        if self.intents.has(intent_id) {
            return Err(Abort::Error(Error::IntentAlreadyExists));
        }
        let expiry: u64 = match deadline {
            Some(deadline) => deadline,
            None => inv.now + self.load_config().intent_expiry,
        };
        let nonce: u64 = self.user_nonce(user);
        self.user_nonces.set(user, nonce + 1);
        self.intents.set(
            intent_id,
            IntentRecord {
                intent_id,
                user,
                src_chain,
                src_token,
                src_amount,
                dst_token,
                min_dst_amount,
                solver: None,
                state: IntentState::Open,
                created_at: inv.now,
                deadline: expiry,
                filled_at: None,
                fill_amount: None,
                total_filled: 0,
            },
        );
        if self.user_intents.has(user) {
            let ids = self.user_intents.entry_mut(user);
            ids.push(intent_id);
        } else {
            let mut ids: Vec<Bytes32> = Vec::new();
            ids.push(intent_id);
            self.user_intents.set(user, ids);
        }
        self.total_intents = self.total_intents + 1;
        self.open_intents = self.open_intents + 1;
        let effects = vec![
            Effect::ExtendInstance,
            Effect::ExtendIntent { intent_id },
            Effect::Emit {
                event: Event::IntentSubmitted {
                    user,
                    intent_id,
                    min_dst_amount,
                    deadline: expiry,
                },
            },
        ];
        proof {
            let step = submit_step(s, *inv, q, intent_id);
            assert(effects@ =~= step->effects);
            assert(self@.intents =~= step->next.intents);
            assert(self@.user_intents =~= step->next.user_intents);
            assert(self@ =~= step->next);
        }
        Ok(effects)
    }

    /// A user submits a swap intent and learns its id. No funds are locked: the
    /// user starts the source-chain transaction separately.
    pub fn submit_intent(
        &mut self,
        env: &soroban_sdk::Env,
        inv: &Invocation,
        user: Address,
        src_chain: Vec<u8>,
        src_token: Vec<u8>,
        src_amount: i128,
        dst_token: Address,
        min_dst_amount: i128,
        deadline: Option<u64>,
    ) -> (r: Result<(Bytes32, Vec<Effect>), Abort<Error>>)
        requires
            old(self).wf(),
            submit_fits(
                old(self)@,
                *inv,
                request(
                    user,
                    src_chain@,
                    src_token@,
                    src_amount,
                    dst_token,
                    min_dst_amount,
                    deadline,
                ),
            ),
            submission_abort(
                old(self)@,
                *inv,
                request(
                    user,
                    src_chain@,
                    src_token@,
                    src_amount,
                    dst_token,
                    min_dst_amount,
                    deadline,
                ),
            ) is None ==> src_chain@.len() <= MAX_TEXT_LEN,
        ensures
            final(self).wf(),
            ({
                let s = old(self)@;
                let q = request(
                    user,
                    src_chain@,
                    src_token@,
                    src_amount,
                    dst_token,
                    min_dst_amount,
                    deadline,
                );
                let id = intent_id(user, src_chain@, src_amount, inv.now, s.nonce_of(user));
                match submit_step(s, *inv, q, id) {
                    Step::Refused { abort } => r == Err::<(Bytes32, Vec<Effect>), Abort<Error>>(
                        abort,
                    ) && final(self)@ == s,
                    Step::Done { next, effects } => {
                        &&& r is Ok
                        &&& r->Ok_0.0 == id
                        &&& r->Ok_0.1@ == effects
                        &&& final(self)@ == next
                    },
                }
            }),
    {
        if let Some(abort) = self.check_submission(
            inv,
            user,
            &src_chain,
            &src_token,
            src_amount,
            dst_token,
            min_dst_amount,
            deadline,
        ) {
            return Err(abort);
        }
        let nonce: u64 = self.user_nonce(user);
        let intent_id = compute_intent_id(env, &user, &src_chain, src_amount, inv.now, nonce);
        match self.submit_intent_with_id(
            inv,
            user,
            src_chain,
            src_token,
            src_amount,
            dst_token,
            min_dst_amount,
            deadline,
            intent_id,
        ) {
            Ok(effects) => Ok((intent_id, effects)),
            Err(abort) => Err(abort),
        }
    }
}

} // verus!
