//! The state of the settlement contract, and what a call does to it.
use vstd::prelude::*;
use crate::context::Abort;
use crate::settlement::admin::tiers_ascend;
use crate::settlement::types::{Effect, Error, Intent, IntentRecord, ProtocolConfig, Solver,
    SolverRecord, FILL_WINDOW, INTENT_EXPIRY, MIN_BOND, PROTOCOL_FEE_BPS};
use crate::table::{distinct_keys, lemma_entry, position, Table, TextSet};
use crate::types::{Address, Bytes32};

verus! {

/// The settlement contract: everything it keeps on the ledger.
pub struct IntentSettlement {
    pub admin: Option<Address>,
    pub fee_recipient: Option<Address>,
    pub bond_token: Option<Address>,
    /// Proposed fee recipient, and when it may take over.
    pub pending_fee_recipient: Option<(Address, u64)>,
    /// Proposed admin, and when it may take over.
    pub pending_admin: Option<(Address, u64)>,
    /// Proposed code, and when it may be installed.
    pub pending_upgrade: Option<(Bytes32, u64)>,
    /// Storage schema the contract is at; 0 where none was ever recorded.
    pub migration_version: u32,
    /// Parameters, where `initialize` or `set_config` has stored any.
    pub config: Option<ProtocolConfig>,
    pub paused: bool,
    /// Address that may pause, beside the admin.
    pub pauser: Option<Address>,
    pub total_intents: u64,
    pub open_intents: u64,
    pub total_volume: i128,
    pub total_solvers: u32,
    pub dst_allowlist_enabled: bool,
    pub src_chain_allowlist_enabled: bool,
    pub allowed_dst_tokens: Table<Address, ()>,
    /// The same tokens, in the order in which they were allowed.
    pub allowed_dst_token_list: Vec<Address>,
    /// Tokens proposed for the allowlist, and when each may enter it.
    pub pending_dst_token_adds: Table<Address, u64>,
    /// Tokens proposed for removal, and when each may leave.
    pub pending_dst_token_removes: Table<Address, u64>,
    pub allowed_src_chains: TextSet,
    /// Bond multipliers in tenths.
    pub min_bond_multipliers: Table<Address, i128>,
    pub intents: Table<Bytes32, IntentRecord>,
    pub solvers: Table<Address, SolverRecord>,
    /// How many intents each user has submitted.
    pub user_nonces: Table<Address, u64>,
    /// The ids of each user's intents, oldest first.
    pub user_intents: Table<Address, Vec<Bytes32>>,
    /// When each user last cancelled an intent.
    pub cancel_times: Table<Address, u64>,
    /// Intents that have used their one extension.
    pub extensions_granted: Table<Bytes32, ()>,
    /// For each destination token, how many accepted intents await it.
    pub accepted_by_token: Table<Address, u64>,
    /// Volume thresholds, ascending, with the discount each earns.
    pub fee_discount_tiers: Vec<(i128, u32)>,
}

/// The contract's state, as its operations are stated over it.
#[verifier::ext_equal]
pub struct State {
    pub admin: Option<Address>,
    pub fee_recipient: Option<Address>,
    pub bond_token: Option<Address>,
    pub pending_fee_recipient: Option<(Address, u64)>,
    pub pending_admin: Option<(Address, u64)>,
    pub pending_upgrade: Option<(Bytes32, u64)>,
    pub migration_version: u32,
    pub config: Option<ProtocolConfig>,
    pub paused: bool,
    pub pauser: Option<Address>,
    pub total_intents: int,
    pub open_intents: int,
    pub total_volume: int,
    pub total_solvers: int,
    pub dst_allowlist_enabled: bool,
    pub src_chain_allowlist_enabled: bool,
    pub allowed_dst_tokens: Set<Address>,
    pub allowed_dst_token_list: Seq<Address>,
    pub pending_dst_token_adds: Map<Address, u64>,
    pub pending_dst_token_removes: Map<Address, u64>,
    pub allowed_src_chains: Set<Seq<u8>>,
    pub min_bond_multipliers: Map<Address, i128>,
    pub intents: Map<Bytes32, Intent>,
    pub solvers: Map<Address, Solver>,
    pub user_nonces: Map<Address, u64>,
    pub user_intents: Map<Address, Seq<Bytes32>>,
    pub cancel_times: Map<Address, u64>,
    pub extensions_granted: Set<Bytes32>,
    pub accepted_by_token: Map<Address, u64>,
    pub fee_discount_tiers: Seq<(i128, u32)>,
}

/// What a call comes to: a refusal that leaves everything as it was, or a new
/// state together with the effects that the ledger is to carry out, in order.
#[verifier::ext_equal]
pub enum Step {
    Refused { abort: Abort<Error> },
    Done { next: State, effects: Seq<Effect> },
}

/// The contract refuses with `error`.
pub open spec fn refuse(error: Error) -> Step {
    Step::Refused { abort: Abort::Error(error) }
}

/// The call lacks the authorization of `who`.
pub open spec fn unsigned(who: Address) -> Step {
    Step::Refused { abort: Abort::Auth(who) }
}

impl Step {
    /// Why the call is turned down, if it is.
    pub open spec fn refusal(self) -> Option<Abort<Error>> {
        match self {
            Step::Refused { abort } => Some(abort),
            Step::Done { .. } => None,
        }
    }

    /// Whether a call that began in `before` and ended in `after` with
    /// `result` did what this step says.
    pub open spec fn describes(
        self,
        before: State,
        after: State,
        result: Result<Vec<Effect>, Abort<Error>>,
    ) -> bool {
        match self {
            Step::Refused { abort } => result == Err::<Vec<Effect>, Abort<Error>>(abort) && after
                == before,
            Step::Done { next, effects } => {
                &&& result is Ok
                &&& result->Ok_0@ == effects
                &&& after == next
            },
        }
    }
}

impl State {
    /// The parameters in force.
    pub open spec fn effective_config(self) -> ProtocolConfig {
        match self.config {
            Some(config) => config,
            None => ProtocolConfig::standard(),
        }
    }

    /// What every operation keeps of the admin's settings: the configuration
    /// and the discount schedule are within bounds, and no bond multiplier is
    /// zero or negative.
    pub open spec fn valid(self) -> bool {
        &&& self.effective_config().allowed()
        &&& ascending_tiers(self.fee_discount_tiers)
        &&& forall|token: Address| #[trigger]
            self.min_bond_multipliers.contains_key(token) ==> self.min_bond_multipliers[token] > 0
    }
}

/// A discount schedule the contract accepts: thresholds are non-negative and
/// strictly ascending, and no discount exceeds the whole fee.
pub open spec fn ascending_tiers(tiers: Seq<(i128, u32)>) -> bool {
    &&& forall|i: int|
        0 <= i < tiers.len() ==> (#[trigger] tiers[i]).0 >= 0 && tiers[i].1 <= 10_000
    &&& forall|i: int, j: int|
        0 <= i < j < tiers.len() ==> (#[trigger] tiers[i]).0 < (#[trigger] tiers[j]).0
}

impl View for IntentSettlement {
    type V = State;

    open spec fn view(&self) -> State {
        State {
            admin: self.admin,
            fee_recipient: self.fee_recipient,
            bond_token: self.bond_token,
            pending_fee_recipient: self.pending_fee_recipient,
            pending_admin: self.pending_admin,
            pending_upgrade: self.pending_upgrade,
            migration_version: self.migration_version,
            config: self.config,
            paused: self.paused,
            pauser: self.pauser,
            total_intents: self.total_intents as int,
            open_intents: self.open_intents as int,
            total_volume: self.total_volume as int,
            total_solvers: self.total_solvers as int,
            dst_allowlist_enabled: self.dst_allowlist_enabled,
            src_chain_allowlist_enabled: self.src_chain_allowlist_enabled,
            allowed_dst_tokens: self.allowed_dst_tokens@.dom(),
            allowed_dst_token_list: self.allowed_dst_token_list@,
            pending_dst_token_adds: self.pending_dst_token_adds@,
            pending_dst_token_removes: self.pending_dst_token_removes@,
            allowed_src_chains: self.allowed_src_chains@,
            min_bond_multipliers: self.min_bond_multipliers@,
            intents: self.intents@,
            solvers: self.solvers@,
            user_nonces: self.user_nonces@,
            user_intents: self.user_intents@,
            cancel_times: self.cancel_times@,
            extensions_granted: self.extensions_granted@.dom(),
            accepted_by_token: self.accepted_by_token@,
            fee_discount_tiers: self.fee_discount_tiers@,
        }
    }
}

impl IntentSettlement {
    /// Every table is well-formed and the admin's settings are within bounds.
    pub open spec fn wf(&self) -> bool {
        &&& self.allowed_dst_tokens.wf()
        &&& self.pending_dst_token_adds.wf()
        &&& self.pending_dst_token_removes.wf()
        &&& self.min_bond_multipliers.wf()
        &&& self.intents.wf()
        &&& self.solvers.wf()
        &&& self.user_nonces.wf()
        &&& self.user_intents.wf()
        &&& self.cancel_times.wf()
        &&& self.extensions_granted.wf()
        &&& self.accepted_by_token.wf()
        &&& self@.valid()
    }

    /// A contract that has been deployed and not yet initialized.
    pub fn new() -> (r: Self)
        ensures
            r.wf(),
            r@ == State::undeployed(),
    {
        let r = IntentSettlement {
            admin: None,
            fee_recipient: None,
            bond_token: None,
            pending_fee_recipient: None,
            pending_admin: None,
            pending_upgrade: None,
            migration_version: 0,
            config: None,
            paused: false,
            pauser: None,
            total_intents: 0,
            open_intents: 0,
            total_volume: 0,
            total_solvers: 0,
            dst_allowlist_enabled: false,
            src_chain_allowlist_enabled: false,
            allowed_dst_tokens: Table::new(),
            allowed_dst_token_list: Vec::new(),
            pending_dst_token_adds: Table::new(),
            pending_dst_token_removes: Table::new(),
            allowed_src_chains: TextSet::new(),
            min_bond_multipliers: Table::new(),
            intents: Table::new(),
            solvers: Table::new(),
            user_nonces: Table::new(),
            user_intents: Table::new(),
            cancel_times: Table::new(),
            extensions_granted: Table::new(),
            accepted_by_token: Table::new(),
            fee_discount_tiers: Vec::new(),
        };
        assert(r@ =~= State::undeployed());
        r
    }

    /// Whether the admin's settings are within bounds, for callers that fill the
    /// contract with what they have stored.
    pub fn settings_valid(&self) -> (r: bool)
        requires
            self.min_bond_multipliers.wf(),
        ensures
            r == self@.valid(),
    {
        if !self.load_config().is_allowed() || !tiers_ascend(&self.fee_discount_tiers) {
            return false;
        }
        let ghost entries = self.min_bond_multipliers.entries@;
        let mut i: usize = 0;
        while i < self.min_bond_multipliers.entries.len()
            invariant
                entries == self.min_bond_multipliers.entries@,
                distinct_keys(entries),
                i <= entries.len(),
                forall|j: int| 0 <= j < i ==> (#[trigger] entries[j]).1 > 0,
            decreases entries.len() - i,
        {
            if self.min_bond_multipliers.entries[i].1 <= 0 {
                proof {
                    lemma_entry(entries, i as int);
                    assert(self@.min_bond_multipliers.contains_key(entries[i as int].0));
                }
                return false;
            }
            i += 1;
        }
        proof {
            assert forall|token: Address| #[trigger]
                self@.min_bond_multipliers.contains_key(
                    token,
                ) implies self@.min_bond_multipliers[token] > 0 by {
                assert(entries[position(entries, token)].1 > 0);
            }
        }
        true
    }

    /// The parameters in force: the stored ones, or the defaults.
    pub fn load_config(&self) -> (r: ProtocolConfig)
        ensures
            r == self@.effective_config(),
    {
        match self.config {
            Some(config) => config,
            None => {
                ProtocolConfig {
                    min_bond: MIN_BOND,
                    fill_window: FILL_WINDOW,
                    intent_expiry: INTENT_EXPIRY,
                    protocol_fee_bps: PROTOCOL_FEE_BPS,
                }
            },
        }
    }
}

impl State {
    /// The state of a contract on which nothing has been stored.
    pub open spec fn undeployed() -> State {
        State {
            admin: None,
            fee_recipient: None,
            bond_token: None,
            pending_fee_recipient: None,
            pending_admin: None,
            pending_upgrade: None,
            migration_version: 0,
            config: None,
            paused: false,
            pauser: None,
            total_intents: 0,
            open_intents: 0,
            total_volume: 0,
            total_solvers: 0,
            dst_allowlist_enabled: false,
            src_chain_allowlist_enabled: false,
            allowed_dst_tokens: Set::empty(),
            allowed_dst_token_list: Seq::empty(),
            pending_dst_token_adds: Map::empty(),
            pending_dst_token_removes: Map::empty(),
            allowed_src_chains: Set::empty(),
            min_bond_multipliers: Map::empty(),
            intents: Map::empty(),
            solvers: Map::empty(),
            user_nonces: Map::empty(),
            user_intents: Map::empty(),
            cancel_times: Map::empty(),
            extensions_granted: Set::empty(),
            accepted_by_token: Map::empty(),
            fee_discount_tiers: Seq::empty(),
        }
    }
}

} // verus!
