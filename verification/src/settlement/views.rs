//! Read-only queries.
use vstd::prelude::*;
use crate::context::Invocation;
use crate::settlement::fees::reputation;
use crate::settlement::intent_rules::in_slash_cooldown;
use crate::settlement::state::{IntentSettlement, State};
use crate::settlement::types::{IntentRecord, ProtocolConfig, SolverRecord,
    DEFAULT_BOND_MULTIPLIER, MIN_BOND, SLASH_COOLDOWN};
use crate::types::{Address, Bytes32};

verus! {

impl State {
    /// Whether a solver is registered, active, out of its slash cooldown and
    /// bonded with what an intent asks for whose token has no bond multiplier.
    pub open spec fn eligible(self, solver: Address, now: u64) -> bool {
        &&& self.solvers.contains_key(solver)
        &&& self.solvers[solver].is_active
        &&& !in_slash_cooldown(self.solvers[solver], now)
        &&& self.solvers[solver].bond_amount >= MIN_BOND
    }
}

impl IntentSettlement {
    /// The parameters in force.
    pub fn get_config(&self) -> (r: ProtocolConfig)
        ensures
            r == self@.effective_config(),
    {
        self.load_config()
    }

    /// The proposed code and when it may be installed, if any is proposed.
    pub fn get_pending_upgrade(&self) -> (r: Option<(Bytes32, u64)>)
        ensures
            r == self@.pending_upgrade,
    {
        self.pending_upgrade
    }

    /// Whether `token` is on the destination allowlist, enforced or not.
    pub fn is_dst_token_allowed(&self, token: Address) -> (r: bool)
        requires
            self.wf(),
        ensures
            r == self@.allowed_dst_tokens.contains(token),
    {
        self.allowed_dst_tokens.has(token)
    }

    /// Whether the destination allowlist is enforced.
    pub fn is_dst_allowlist_enabled(&self) -> (r: bool)
        ensures
            r == self@.dst_allowlist_enabled,
    {
        self.dst_allowlist_enabled
    }

    /// The destination allowlist, in the order in which tokens entered it.
    pub fn list_allowed_dst_tokens(&self) -> (r: Vec<Address>)
        ensures
            r@ == self@.allowed_dst_token_list,
    {
        let list = self.allowed_dst_token_list.clone();
        assert(list@ =~= self.allowed_dst_token_list@);
        list
    }

    /// The bond multiplier of a token, in tenths.
    pub fn get_min_bond_multiplier(&self, token: Address) -> (r: i128)
        requires
            self.wf(),
        ensures
            r == self@.multiplier_of(token),
    {
        match self.min_bond_multipliers.get(token) {
            Some(multiplier) => *multiplier,
            None => DEFAULT_BOND_MULTIPLIER,
        }
    }

    /// Whether `chain` is on the source-chain allowlist, enforced or not.
    pub fn is_src_chain_allowed(&self, chain: &Vec<u8>) -> (r: bool)
        ensures
            r == self@.allowed_src_chains.contains(chain@),
    {
        self.allowed_src_chains.has(chain)
    }

    /// Whether the source-chain allowlist is enforced.
    pub fn is_src_chain_allowlist_enabled(&self) -> (r: bool)
        ensures
            r == self@.src_chain_allowlist_enabled,
    {
        self.src_chain_allowlist_enabled
    }

    /// The address that may pause beside the admin, if one is set.
    pub fn get_pauser(&self) -> (r: Option<Address>)
        ensures
            r == self@.pauser,
    {
        self.pauser
    }

    /// Whether the contract is halted.
    pub fn is_paused(&self) -> (r: bool)
        ensures
            r == self@.paused,
    {
        self.paused
    }

    /// The intent known as `intent_id`, if there is one.
    pub fn get_intent(&self, intent_id: Bytes32) -> (r: Option<&IntentRecord>)
        requires
            self.wf(),
        ensures
            match r {
                Some(intent) => self@.intents.contains_key(intent_id) && intent@
                    == self@.intents[intent_id],
                None => !self@.intents.contains_key(intent_id),
            },
    {
        self.intents.get(intent_id)
    }

    /// The record of `solver`, if it is registered.
    pub fn get_solver(&self, solver: Address) -> (r: Option<SolverRecord>)
        requires
            self.wf(),
        ensures
            match r {
                Some(record) => self@.solvers.contains_key(solver) && record@
                    == self@.solvers[solver],
                None => !self@.solvers.contains_key(solver),
            },
    {
        match self.solvers.get(solver) {
            Some(record) => Some(*record),
            None => None,
        }
    }

    /// The reputation of `solver` in basis points, if it is registered.
    pub fn get_reputation_score(&self, solver: Address) -> (r: Option<u32>)
        requires
            self.wf(),
        ensures
            match r {
                Some(score) => self@.solvers.contains_key(solver) && score == reputation(
                    self@.solvers[solver],
                ),
                None => !self@.solvers.contains_key(solver),
            },
    {
        match self.solvers.get(solver) {
            Some(record) => Some(Self::compute_reputation_score(*record)),
            None => None,
        }
    }

    /// Whether `solver` is registered, active, out of its slash cooldown and
    /// bonded with what `accept_intent` asks for on a token without a bond
    /// multiplier, whatever minimum is configured for registration. An intent whose
    /// token has a multiplier above 1.0x asks for more.
    pub fn is_solver_eligible(&self, inv: &Invocation, solver: Address) -> (r: bool)
        requires
            self.wf(),
        ensures
            r == self@.eligible(solver, inv.now),
    {
        match self.solvers.get(solver) {
            Some(record) => {
                let slashed: u64 = record.last_slash_time;
                let cooling: bool = slashed > 0 && (inv.now < slashed || inv.now - slashed
                    < SLASH_COOLDOWN);
                record.is_active && !cooling && record.bond_amount >= MIN_BOND
            },
            None => false,
        }
    }

    /// The address that receives fees and slashed bonds.
    pub fn get_fee_recipient(&self) -> (r: Option<Address>)
        ensures
            r == self@.fee_recipient,
    {
        self.fee_recipient
    }

    /// The proposed fee recipient and when it may take over, if any.
    pub fn get_pending_fee_recipient(&self) -> (r: Option<(Address, u64)>)
        ensures
            r == self@.pending_fee_recipient,
    {
        self.pending_fee_recipient
    }

    /// The proposed admin and when it may take over, if any.
    pub fn get_pending_admin(&self) -> (r: Option<(Address, u64)>)
        ensures
            r == self@.pending_admin,
    {
        self.pending_admin
    }

    /// The token in which bonds are held.
    pub fn get_bond_token(&self) -> (r: Option<Address>)
        ensures
            r == self@.bond_token,
    {
        self.bond_token
    }

    /// The admin.
    pub fn get_admin(&self) -> (r: Option<Address>)
        ensures
            r == self@.admin,
    {
        self.admin
    }

    /// How many intents were ever submitted, how much was ever delivered, and
    /// how many intents await a solver.
    pub fn get_stats(&self) -> (r: (u64, i128, u64))
        ensures
            r.0 == self@.total_intents,
            r.1 == self@.total_volume,
            r.2 == self@.open_intents,
    {
        (self.total_intents, self.total_volume, self.open_intents)
    }

    /// The ids of the intents of `user`, oldest first.
    pub fn list_intents_by_user(&self, user: Address) -> (r: Vec<Bytes32>)
        requires
            self.wf(),
        ensures
            r@ == self@.intents_of(user),
    {
        match self.user_intents.get(user) {
            Some(ids) => {
                let list = ids.clone();
                assert(list@ =~= ids@);
                list
            },
            None => Vec::new(),
        }
    }

    /// How many solvers are registered.
    pub fn get_solver_count(&self) -> (r: u32)
        ensures
            r == self@.total_solvers,
    {
        self.total_solvers
    }

    /// The fee-discount schedule, and the fee in basis points that `solver`
    /// would pay on a fill now.
    pub fn get_fee_schedule(&self, solver: Address) -> (r: (Vec<(i128, u32)>, i128))
        requires
            self.wf(),
        ensures
            r.0@ == self@.fee_discount_tiers,
            r.1 == self@.fee_bps(solver),
    {
        let mut tiers: Vec<(i128, u32)> = Vec::new();
        let mut i: usize = 0;
        while i < self.fee_discount_tiers.len()
            invariant
                i <= self.fee_discount_tiers@.len(),
                tiers@ == self.fee_discount_tiers@.take(i as int),
            decreases self.fee_discount_tiers@.len() - i,
        {
            tiers.push(self.fee_discount_tiers[i]);
            i += 1;
            assert(tiers@ =~= self.fee_discount_tiers@.take(i as int));
        }
        assert(tiers@ =~= self.fee_discount_tiers@);
        (tiers, self.get_tiered_fee_bps(solver))
    }
}

} // verus!
