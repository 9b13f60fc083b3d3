//! The admin's powers: initialization, handovers, upgrades, parameters, pause
//! and token rescue.
use vstd::prelude::*;
use crate::context::{Abort, Invocation};
use crate::settlement::intent_rules::emit;
use crate::settlement::state::{ascending_tiers, refuse, unsigned, IntentSettlement, State, Step};
use crate::settlement::types::{Effect, Error, Event, Intent, IntentState, ProtocolConfig,
    ADMIN_TIMELOCK_DELAY, FILL_WINDOW, INTENT_EXPIRY, MIGRATION_VERSION, MIN_BOND,
    PROTOCOL_FEE_BPS};
use crate::table::{lemma_entry, position};
use crate::types::{Address, Bytes32};

verus! {

/// Why a call that only the admin may make is turned down.
pub open spec fn admin_refusal(s: State, inv: Invocation) -> Option<Abort<Error>> {
    match s.admin {
        None => Some(Abort::Error(Error::NotInitialized)),
        Some(admin) => if inv.signed(admin) {
            None
        } else {
            Some(Abort::Auth(admin))
        },
    }
}

/// A call that only the admin may make, which then does what `step` says.
pub open spec fn as_admin(s: State, inv: Invocation, step: Step) -> Step {
    match admin_refusal(s, inv) {
        Some(abort) => Step::Refused { abort },
        None => step,
    }
}

/// When a proposal made now may be executed.
pub open spec fn eta(inv: Invocation) -> u64 {
    (inv.now + ADMIN_TIMELOCK_DELAY) as u64
}

/// The end of the timelock fits its type, where the admin makes the call.
pub open spec fn eta_fits(s: State, inv: Invocation) -> bool {
    admin_refusal(s, inv) is None ==> inv.now + ADMIN_TIMELOCK_DELAY <= u64::MAX
}

/// The one-time setup.
pub open spec fn initialize_step(
    s: State,
    inv: Invocation,
    admin: Address,
    fee_recipient: Address,
    bond_token: Address,
) -> Step {
    if s.admin is Some {
        refuse(Error::AlreadyInitialized)
    } else if !inv.signed(admin) {
        unsigned(admin)
    } else {
        Step::Done {
            next: State {
                admin: Some(admin),
                fee_recipient: Some(fee_recipient),
                bond_token: Some(bond_token),
                total_intents: 0,
                total_volume: 0,
                total_solvers: 0,
                open_intents: 0,
                config: Some(ProtocolConfig::standard()),
                migration_version: MIGRATION_VERSION,
                ..s
            },
            effects: seq![Effect::ExtendInstance],
        }
    }
}

/// The admin proposes a new fee recipient, in place of any earlier proposal.
pub open spec fn propose_fee_recipient_step(s: State, inv: Invocation, recipient: Address) -> Step {
    as_admin(
        s,
        inv,
        Step::Done {
            next: State { pending_fee_recipient: Some((recipient, eta(inv))), ..s },
            effects: seq![
                Effect::ExtendInstance,
                emit(Event::FeeRecipientProposed { recipient, eta: eta(inv) }),
            ],
        },
    )
}

/// The proposed fee recipient takes over after the timelock.
pub open spec fn accept_fee_recipient_step(s: State, inv: Invocation, recipient: Address) -> Step {
    match s.pending_fee_recipient {
        None => refuse(Error::NoPendingFeeRecipient),
        Some((proposed, ready)) => if proposed != recipient {
            refuse(Error::Unauthorized)
        } else if inv.now < ready {
            refuse(Error::TimelockNotElapsed)
        } else if !inv.signed(recipient) {
            unsigned(recipient)
        } else {
            Step::Done {
                next: State {
                    fee_recipient: Some(recipient),
                    pending_fee_recipient: None,
                    ..s
                },
                effects: seq![
                    Effect::ExtendInstance,
                    emit(Event::FeeRecipientUpdated { recipient }),
                ],
            }
        },
    }
}

/// The admin proposes a successor, in place of any earlier proposal.
pub open spec fn propose_admin_step(s: State, inv: Invocation, admin: Address) -> Step {
    as_admin(
        s,
        inv,
        Step::Done {
            next: State { pending_admin: Some((admin, eta(inv))), ..s },
            effects: seq![
                Effect::ExtendInstance,
                emit(Event::AdminTransferProposed { admin, eta: eta(inv) }),
            ],
        },
    )
}

/// The proposed admin takes over after the timelock.
pub open spec fn accept_admin_step(s: State, inv: Invocation, admin: Address) -> Step {
    match s.pending_admin {
        None => refuse(Error::NoPendingAdminTransfer),
        Some((proposed, ready)) => if proposed != admin {
            refuse(Error::Unauthorized)
        } else if inv.now < ready {
            refuse(Error::TimelockNotElapsed)
        } else if !inv.signed(admin) {
            unsigned(admin)
        } else {
            Step::Done {
                next: State { admin: Some(admin), pending_admin: None, ..s },
                effects: seq![Effect::ExtendInstance, emit(Event::AdminTransferred { admin })],
            }
        },
    }
}

/// The admin proposes new code, in place of any earlier proposal.
pub open spec fn propose_upgrade_step(s: State, inv: Invocation, wasm_hash: Bytes32) -> Step {
    as_admin(
        s,
        inv,
        Step::Done {
            next: State { pending_upgrade: Some((wasm_hash, eta(inv))), ..s },
            effects: seq![
                Effect::ExtendInstance,
                emit(Event::UpgradeProposed { wasm_hash, eta: eta(inv) }),
            ],
        },
    )
}

/// The admin installs the proposed code after the timelock.
pub open spec fn execute_upgrade_step(s: State, inv: Invocation, wasm_hash: Bytes32) -> Step {
    as_admin(
        s,
        inv,
        match s.pending_upgrade {
            None => refuse(Error::NoPendingUpgrade),
            Some((proposed, ready)) => if proposed != wasm_hash {
                refuse(Error::Unauthorized)
            } else if inv.now < ready {
                refuse(Error::TimelockNotElapsed)
            } else {
                Step::Done {
                    next: State { pending_upgrade: None, ..s },
                    effects: seq![
                        Effect::ExtendInstance,
                        Effect::UpdateWasm { wasm_hash },
                        emit(Event::Upgraded { wasm_hash }),
                    ],
                }
            },
        },
    )
}

/// The admin brings the storage to the schema of this release, once.
pub open spec fn migrate_step(s: State, inv: Invocation) -> Step {
    as_admin(
        s,
        inv,
        if s.migration_version >= MIGRATION_VERSION {
            refuse(Error::AlreadyMigrated)
        } else {
            Step::Done {
                next: State { migration_version: MIGRATION_VERSION, ..s },
                effects: seq![
                    Effect::ExtendInstance,
                    emit(
                        Event::Migrated {
                            from_version: s.migration_version,
                            to_version: MIGRATION_VERSION,
                        },
                    ),
                ],
            }
        },
    )
}

/// The admin replaces the parameters, all at once.
pub open spec fn set_config_step(s: State, inv: Invocation, config: ProtocolConfig) -> Step {
    as_admin(
        s,
        inv,
        if !config.allowed() {
            refuse(Error::InvalidConfig)
        } else {
            Step::Done {
                next: State { config: Some(config), ..s },
                effects: seq![Effect::ExtendInstance, emit(Event::ConfigUpdated { config })],
            }
        },
    )
}

/// The admin names the address that may pause beside it.
pub open spec fn set_pauser_step(s: State, inv: Invocation, pauser: Address) -> Step {
    as_admin(
        s,
        inv,
        Step::Done {
            next: State { pauser: Some(pauser), ..s },
            effects: seq![Effect::ExtendInstance, emit(Event::PauserUpdated { pauser })],
        },
    )
}

/// The admin or the pauser halts the contract.
pub open spec fn pause_step(s: State, inv: Invocation, caller: Address) -> Step {
    if s.admin is None {
        refuse(Error::NotInitialized)
    } else if s.admin != Some(caller) && s.pauser != Some(caller) {
        refuse(Error::Unauthorized)
    } else if !inv.signed(caller) {
        unsigned(caller)
    } else {
        Step::Done {
            next: State { paused: true, ..s },
            effects: seq![Effect::ExtendInstance, emit(Event::Paused { paused: true })],
        }
    }
}

/// The admin lifts a pause.
pub open spec fn unpause_step(s: State, inv: Invocation) -> Step {
    as_admin(
        s,
        inv,
        Step::Done {
            next: State { paused: false, ..s },
            effects: seq![Effect::ExtendInstance, emit(Event::Paused { paused: false })],
        },
    )
}

impl State {
    /// Whether an accepted intent awaits `token`, by the record of how many do
    /// or by the intents themselves.
    pub open spec fn in_flight(self, token: Address) -> bool {
        ||| self.accepted_for(token) > 0
        ||| exists|id: Bytes32| #[trigger]
            self.intents.contains_key(id) && awaits(self.intents[id], token)
    }
}

/// Whether an intent is accepted and to be filled in `token`.
pub open spec fn awaits(intent: Intent, token: Address) -> bool {
    intent.state == IntentState::Accepted && intent.dst_token == token
}

/// The admin moves tokens that were sent to the contract by mistake. The bond
/// token is out of reach, and so is every token that an accepted intent awaits.
pub open spec fn rescue_step(
    s: State,
    inv: Invocation,
    token: Address,
    to: Address,
    amount: i128,
) -> Step {
    as_admin(
        s,
        inv,
        if amount <= 0 {
            refuse(Error::ZeroAmount)
        } else if s.bond_token is None {
            refuse(Error::NotInitialized)
        } else if s.bond_token == Some(token) || s.in_flight(token) {
            refuse(Error::RescueProtectedToken)
        } else {
            Step::Done {
                next: s,
                effects: seq![
                    Effect::ExtendInstance,
                    Effect::Transfer { token, from: inv.contract, to, amount },
                    emit(Event::TokensRescued { to, token, amount }),
                ],
            }
        },
    )
}

/// The admin replaces the fee-discount schedule.
pub open spec fn set_tiers_step(s: State, inv: Invocation, tiers: Seq<(i128, u32)>) -> Step {
    as_admin(
        s,
        inv,
        if !ascending_tiers(tiers) {
            refuse(Error::InvalidFeeTiers)
        } else {
            Step::Done {
                next: State { fee_discount_tiers: tiers, ..s },
                effects: seq![
                    Effect::ExtendInstance,
                    emit(Event::FeeDiscountTiersSet { tiers: tiers.len() as u32 }),
                ],
            }
        },
    )
}

impl IntentSettlement {
    /// Why a call that only the admin may make is turned down.
    pub(crate) fn require_admin(&self, inv: &Invocation) -> (r: Option<Abort<Error>>)
        ensures
            r == admin_refusal(self@, *inv),
    {
        match self.admin {
            None => Some(Abort::Error(Error::NotInitialized)),
            Some(admin) => {
                if inv.has_signed(admin) {
                    None
                } else {
                    Some(Abort::Auth(admin))
                }
            },
        }
    }

    /// One-time setup: records the admin, the fee recipient and the bond token, and
    /// seeds the counters and the default parameters.
    pub fn initialize(
        &mut self,
        inv: &Invocation,
        admin: Address,
        fee_recipient: Address,
        bond_token: Address,
    ) -> (r: Result<Vec<Effect>, Abort<Error>>)
        requires
            old(self).wf(),
        ensures
            final(self).wf(),
            initialize_step(old(self)@, *inv, admin, fee_recipient, bond_token).describes(
                old(self)@,
                final(self)@,
                r,
            ),
    {
        let ghost s = self@;
        if self.admin.is_some() {
            return Err(Abort::Error(Error::AlreadyInitialized));
        }
        if !inv.has_signed(admin) {
            return Err(Abort::Auth(admin));
        }
        self.admin = Some(admin);
        self.fee_recipient = Some(fee_recipient);
        self.bond_token = Some(bond_token);
        self.total_intents = 0;
        self.total_volume = 0;
        self.total_solvers = 0;
        self.open_intents = 0;
        self.config = Some(
            ProtocolConfig {
                min_bond: MIN_BOND,
                fill_window: FILL_WINDOW,
                intent_expiry: INTENT_EXPIRY,
                protocol_fee_bps: PROTOCOL_FEE_BPS,
            },
        );
        self.migration_version = MIGRATION_VERSION;
        let effects = vec![Effect::ExtendInstance];
        proof {
            let step = initialize_step(s, *inv, admin, fee_recipient, bond_token);
            assert(effects@ =~= step->effects);
            assert(self@ =~= step->next);
        }
        Ok(effects)
    }

    /// Admin-only: proposes a new fee recipient, who may take over after the
    /// timelock. A new proposal replaces an earlier one and restarts the delay.
    pub fn propose_fee_recipient(
        &mut self,
        inv: &Invocation,
        new_fee_recipient: Address,
    ) -> (r: Result<Vec<Effect>, Abort<Error>>)
        requires
            old(self).wf(),
            eta_fits(old(self)@, *inv),
        ensures
            final(self).wf(),
            propose_fee_recipient_step(old(self)@, *inv, new_fee_recipient).describes(
                old(self)@,
                final(self)@,
                r,
            ),
    {
        let ghost s = self@;
        if let Some(abort) = self.require_admin(inv) {
            return Err(abort);
        }
        let eta: u64 = inv.now + ADMIN_TIMELOCK_DELAY;
        self.pending_fee_recipient = Some((new_fee_recipient, eta));
        let effects = vec![
            Effect::ExtendInstance,
            Effect::Emit {
                event: Event::FeeRecipientProposed { recipient: new_fee_recipient, eta },
            },
        ];
        proof {
            let step = propose_fee_recipient_step(s, *inv, new_fee_recipient);
            assert(effects@ =~= step->effects);
            assert(self@ =~= step->next);
        }
        Ok(effects)
    }

    /// The proposed fee recipient confirms the handover once the timelock has run
    /// out.
    pub fn accept_fee_recipient(
        &mut self,
        inv: &Invocation,
        new_fee_recipient: Address,
    ) -> (r: Result<Vec<Effect>, Abort<Error>>)
        requires
            old(self).wf(),
        ensures
            final(self).wf(),
            accept_fee_recipient_step(old(self)@, *inv, new_fee_recipient).describes(
                old(self)@,
                final(self)@,
                r,
            ),
    {
        let ghost s = self@;
        match self.pending_fee_recipient {
            None => {
                return Err(Abort::Error(Error::NoPendingFeeRecipient));
            },
            Some((proposed, ready)) => {
                if proposed != new_fee_recipient {
                    return Err(Abort::Error(Error::Unauthorized));
                }
                if inv.now < ready {
                    return Err(Abort::Error(Error::TimelockNotElapsed));
                }
            },
        }
        if !inv.has_signed(new_fee_recipient) {
            return Err(Abort::Auth(new_fee_recipient));
        }
        self.fee_recipient = Some(new_fee_recipient);
        self.pending_fee_recipient = None;
        let effects = vec![
            Effect::ExtendInstance,
            Effect::Emit { event: Event::FeeRecipientUpdated { recipient: new_fee_recipient } },
        ];
        proof {
            let step = accept_fee_recipient_step(s, *inv, new_fee_recipient);
            assert(effects@ =~= step->effects);
            assert(self@ =~= step->next);
        }
        Ok(effects)
    }

    /// Admin-only: proposes handing the admin role to a new address, which may take
    /// over after the timelock. A new proposal replaces an earlier one.
    pub fn propose_admin_transfer(
        &mut self,
        inv: &Invocation,
        new_admin: Address,
    ) -> (r: Result<Vec<Effect>, Abort<Error>>)
        requires
            old(self).wf(),
            eta_fits(old(self)@, *inv),
        ensures
            final(self).wf(),
            propose_admin_step(old(self)@, *inv, new_admin).describes(old(self)@, final(self)@, r),
    {
        let ghost s = self@;
        if let Some(abort) = self.require_admin(inv) {
            return Err(abort);
        }
        let eta: u64 = inv.now + ADMIN_TIMELOCK_DELAY;
        self.pending_admin = Some((new_admin, eta));
        let effects = vec![
            Effect::ExtendInstance,
            Effect::Emit { event: Event::AdminTransferProposed { admin: new_admin, eta } },
        ];
        proof {
            let step = propose_admin_step(s, *inv, new_admin);
            assert(effects@ =~= step->effects);
            assert(self@ =~= step->next);
        }
        Ok(effects)
    }

    /// The proposed admin confirms the handover once the timelock has run out.
    pub fn accept_admin_transfer(
        &mut self,
        inv: &Invocation,
        new_admin: Address,
    ) -> (r: Result<Vec<Effect>, Abort<Error>>)
        requires
            old(self).wf(),
        ensures
            final(self).wf(),
            accept_admin_step(old(self)@, *inv, new_admin).describes(old(self)@, final(self)@, r),
    {
        let ghost s = self@;
        match self.pending_admin {
            None => {
                return Err(Abort::Error(Error::NoPendingAdminTransfer));
            },
            Some((proposed, ready)) => {
                if proposed != new_admin {
                    return Err(Abort::Error(Error::Unauthorized));
                }
                if inv.now < ready {
                    return Err(Abort::Error(Error::TimelockNotElapsed));
                }
            },
        }
        if !inv.has_signed(new_admin) {
            return Err(Abort::Auth(new_admin));
        }
        self.admin = Some(new_admin);
        self.pending_admin = None;
        let effects = vec![
            Effect::ExtendInstance,
            Effect::Emit { event: Event::AdminTransferred { admin: new_admin } },
        ];
        proof {
            let step = accept_admin_step(s, *inv, new_admin);
            assert(effects@ =~= step->effects);
            assert(self@ =~= step->next);
        }
        Ok(effects)
    }

    /// Admin-only: proposes replacing the contract code, after the timelock. A new
    /// proposal replaces an earlier one.
    pub fn propose_upgrade(
        &mut self,
        inv: &Invocation,
        new_wasm_hash: Bytes32,
    ) -> (r: Result<Vec<Effect>, Abort<Error>>)
        requires
            old(self).wf(),
            eta_fits(old(self)@, *inv),
        ensures
            final(self).wf(),
            propose_upgrade_step(old(self)@, *inv, new_wasm_hash).describes(
                old(self)@,
                final(self)@,
                r,
            ),
    {
        let ghost s = self@;
        if let Some(abort) = self.require_admin(inv) {
            return Err(abort);
        }
        let eta: u64 = inv.now + ADMIN_TIMELOCK_DELAY;
        self.pending_upgrade = Some((new_wasm_hash, eta));
        let effects = vec![
            Effect::ExtendInstance,
            Effect::Emit { event: Event::UpgradeProposed { wasm_hash: new_wasm_hash, eta } },
        ];
        proof {
            let step = propose_upgrade_step(s, *inv, new_wasm_hash);
            assert(effects@ =~= step->effects);
            assert(self@ =~= step->next);
        }
        Ok(effects)
    }

    /// Admin-only: installs the proposed code once the timelock has run out.
    pub fn execute_upgrade(
        &mut self,
        inv: &Invocation,
        new_wasm_hash: Bytes32,
    ) -> (r: Result<Vec<Effect>, Abort<Error>>)
        requires
            old(self).wf(),
        ensures
            final(self).wf(),
            execute_upgrade_step(old(self)@, *inv, new_wasm_hash).describes(
                old(self)@,
                final(self)@,
                r,
            ),
    {
        let ghost s = self@;
        if let Some(abort) = self.require_admin(inv) {
            return Err(abort);
        }
        match self.pending_upgrade {
            None => {
                return Err(Abort::Error(Error::NoPendingUpgrade));
            },
            Some((proposed, ready)) => {
                if proposed != new_wasm_hash {
                    return Err(Abort::Error(Error::Unauthorized));
                }
                if inv.now < ready {
                    return Err(Abort::Error(Error::TimelockNotElapsed));
                }
            },
        }
        self.pending_upgrade = None;
        let effects = vec![
            Effect::ExtendInstance,
            Effect::UpdateWasm { wasm_hash: new_wasm_hash },
            Effect::Emit { event: Event::Upgraded { wasm_hash: new_wasm_hash } },
        ];
        proof {
            let step = execute_upgrade_step(s, *inv, new_wasm_hash);
            assert(effects@ =~= step->effects);
            assert(self@ =~= step->next);
        }
        Ok(effects)
    }

    /// Admin-only: brings the storage to the schema of this release. Refused once it
    /// is there, so that no migration runs twice.
    pub fn migrate(&mut self, inv: &Invocation) -> (r: Result<Vec<Effect>, Abort<Error>>)
        requires
            old(self).wf(),
        ensures
            final(self).wf(),
            migrate_step(old(self)@, *inv).describes(old(self)@, final(self)@, r),
    {
        let ghost s = self@;
        if let Some(abort) = self.require_admin(inv) {
            return Err(abort);
        }
        let from_version: u32 = self.migration_version;
        if from_version >= MIGRATION_VERSION {
            return Err(Abort::Error(Error::AlreadyMigrated));
        }
        self.migration_version = MIGRATION_VERSION;
        let effects = vec![
            Effect::ExtendInstance,
            Effect::Emit { event: Event::Migrated { from_version, to_version: MIGRATION_VERSION } },
        ];
        proof {
            let step = migrate_step(s, *inv);
            assert(effects@ =~= step->effects);
            assert(self@ =~= step->next);
        }
        Ok(effects)
    }

    /// Admin-only: replaces the four parameters at once. The fee is at most 10%, the
    /// fill window at least a minute, the intent lifetime at least five minutes and
    /// longer than the fill window, and the minimum bond at least one token.
    pub fn set_config(
        &mut self,
        inv: &Invocation,
        min_bond: i128,
        fill_window: u64,
        intent_expiry: u64,
        protocol_fee_bps: i128,
    ) -> (r: Result<Vec<Effect>, Abort<Error>>)
        requires
            old(self).wf(),
        ensures
            final(self).wf(),
            set_config_step(
                old(self)@,
                *inv,
                (ProtocolConfig { min_bond, fill_window, intent_expiry, protocol_fee_bps }),
            ).describes(
                old(self)@,
                final(self)@,
                r,
            ),
    {
        let ghost s = self@;
        if let Some(abort) = self.require_admin(inv) {
            return Err(abort);
        }
        let config = ProtocolConfig { min_bond, fill_window, intent_expiry, protocol_fee_bps };
        if !config.is_allowed() {
            return Err(Abort::Error(Error::InvalidConfig));
        }
        self.config = Some(config);
        let effects = vec![
            Effect::ExtendInstance,
            Effect::Emit { event: Event::ConfigUpdated { config } },
        ];
        proof {
            let step = set_config_step(s, *inv, config);
            assert(effects@ =~= step->effects);
            assert(self@ =~= step->next);
        }
        Ok(effects)
    }

    /// Admin-only: names the address that may pause the contract beside the admin,
    /// in place of an earlier one.
    pub fn set_pauser(
        &mut self,
        inv: &Invocation,
        pauser: Address,
    ) -> (r: Result<Vec<Effect>, Abort<Error>>)
        requires
            old(self).wf(),
        ensures
            final(self).wf(),
            set_pauser_step(old(self)@, *inv, pauser).describes(old(self)@, final(self)@, r),
    {
        let ghost s = self@;
        if let Some(abort) = self.require_admin(inv) {
            return Err(abort);
        }
        self.pauser = Some(pauser);
        let effects = vec![
            Effect::ExtendInstance,
            Effect::Emit { event: Event::PauserUpdated { pauser } },
        ];
        proof {
            let step = set_pauser_step(s, *inv, pauser);
            assert(effects@ =~= step->effects);
            assert(self@ =~= step->next);
        }
        Ok(effects)
    }

    /// Halts submissions, acceptances, fills and bond changes. `caller` must be the
    /// admin or the pauser.
    pub fn pause(
        &mut self,
        inv: &Invocation,
        caller: Address,
    ) -> (r: Result<Vec<Effect>, Abort<Error>>)
        requires
            old(self).wf(),
        ensures
            final(self).wf(),
            pause_step(old(self)@, *inv, caller).describes(old(self)@, final(self)@, r),
    {
        let ghost s = self@;
        let admin: Address = match self.admin {
            Some(admin) => admin,
            None => {
                return Err(Abort::Error(Error::NotInitialized));
            },
        };
        if caller != admin && self.pauser != Some(caller) {
            return Err(Abort::Error(Error::Unauthorized));
        }
        if !inv.has_signed(caller) {
            return Err(Abort::Auth(caller));
        }
        self.paused = true;
        let effects = vec![
            Effect::ExtendInstance,
            Effect::Emit { event: Event::Paused { paused: true } },
        ];
        proof {
            let step = pause_step(s, *inv, caller);
            assert(effects@ =~= step->effects);
            assert(self@ =~= step->next);
        }
        Ok(effects)
    }

    /// Admin-only: lifts a pause. The pauser cannot.
    pub fn unpause(&mut self, inv: &Invocation) -> (r: Result<Vec<Effect>, Abort<Error>>)
        requires
            old(self).wf(),
        ensures
            final(self).wf(),
            unpause_step(old(self)@, *inv).describes(old(self)@, final(self)@, r),
    {
        let ghost s = self@;
        if let Some(abort) = self.require_admin(inv) {
            return Err(abort);
        }
        self.paused = false;
        let effects = vec![
            Effect::ExtendInstance,
            Effect::Emit { event: Event::Paused { paused: false } },
        ];
        proof {
            let step = unpause_step(s, *inv);
            assert(effects@ =~= step->effects);
            assert(self@ =~= step->next);
        }
        Ok(effects)
    }

    /// Whether an accepted intent awaits `token`.
    fn is_in_flight(&self, token: Address) -> (r: bool)
        requires
            self.wf(),
        ensures
            r == self@.in_flight(token),
    {
        if self.accepted_count(token) > 0 {
            return true;
        }
        let mut i: usize = 0;
        while i < self.intents.entries.len()
            invariant
                self.wf(),
                i <= self.intents.entries@.len(),
                forall|j: int|
                    0 <= j < i ==> !awaits((#[trigger] self.intents.entries@[j]).1@, token),
            decreases self.intents.entries@.len() - i,
        {
            let intent = &self.intents.entries[i].1;
            if intent.state == IntentState::Accepted && intent.dst_token == token {
                proof {
                    lemma_entry(self.intents.entries@, i as int);
                    let id = self.intents.entries@[i as int].0;
                    assert(self@.intents.contains_key(id) && awaits(self@.intents[id], token));
                }
                return true;
            }
            i += 1;
        }
        proof {
            let entries = self.intents.entries@;
            assert forall|id: Bytes32| #[trigger] self@.intents.contains_key(id) implies !awaits(
                self@.intents[id],
                token,
            ) by {
                assert(!awaits(entries[position(entries, id)].1@, token));
            }
        }
        false
    }

    /// Admin-only: moves tokens that were sent to the contract by mistake. The bond
    /// token, which backs the solvers, cannot be moved, nor can a token that an
    /// accepted intent awaits.
    pub fn rescue_tokens(
        &mut self,
        inv: &Invocation,
        token: Address,
        to: Address,
        amount: i128,
    ) -> (r: Result<Vec<Effect>, Abort<Error>>)
        requires
            old(self).wf(),
        ensures
            final(self).wf(),
            rescue_step(old(self)@, *inv, token, to, amount).describes(old(self)@, final(self)@, r),
    {
        let ghost s = self@;
        if let Some(abort) = self.require_admin(inv) {
            return Err(abort);
        }
        if amount <= 0 {
            return Err(Abort::Error(Error::ZeroAmount));
        }
        match self.bond_token {
            None => {
                return Err(Abort::Error(Error::NotInitialized));
            },
            Some(bond_token) => {
                if token == bond_token || self.is_in_flight(token) {
                    return Err(Abort::Error(Error::RescueProtectedToken));
                }
            },
        }
        let effects = vec![
            Effect::ExtendInstance,
            Effect::Transfer { token, from: inv.contract, to, amount },
            Effect::Emit { event: Event::TokensRescued { to, token, amount } },
        ];
        proof {
            let step = rescue_step(s, *inv, token, to, amount);
            assert(effects@ =~= step->effects);
            assert(self@ =~= step->next);
        }
        Ok(effects)
    }

    /// Admin-only: replaces the fee-discount schedule by pairs of a volume and the
    /// discount it earns, in basis points of the fee. Volumes are strictly ascending
    /// and discounts at most the whole fee; an empty schedule removes all discounts.
    pub fn set_fee_discount_tiers(
        &mut self,
        inv: &Invocation,
        tiers: Vec<(i128, u32)>,
    ) -> (r: Result<Vec<Effect>, Abort<Error>>)
        requires
            old(self).wf(),
            tiers@.len() <= u32::MAX,
        ensures
            final(self).wf(),
            set_tiers_step(old(self)@, *inv, tiers@).describes(old(self)@, final(self)@, r),
    {
        let ghost s = self@;
        if let Some(abort) = self.require_admin(inv) {
            return Err(abort);
        }
        if !tiers_ascend(&tiers) {
            return Err(Abort::Error(Error::InvalidFeeTiers));
        }
        let count: u32 = tiers.len() as u32;
        self.fee_discount_tiers = tiers;
        let effects = vec![
            Effect::ExtendInstance,
            Effect::Emit { event: Event::FeeDiscountTiersSet { tiers: count } },
        ];
        proof {
            let step = set_tiers_step(s, *inv, tiers@);
            assert(effects@ =~= step->effects);
            assert(self@ =~= step->next);
        }
        Ok(effects)
    }
}

/// Whether a discount schedule is one that the contract accepts.
pub(crate) fn tiers_ascend(tiers: &Vec<(i128, u32)>) -> (r: bool)
    ensures
        r == ascending_tiers(tiers@),
{
    let mut i: usize = 0;
    while i < tiers.len()
        invariant
            i <= tiers@.len(),
            ascending_tiers(tiers@.take(i as int)),
        decreases tiers@.len() - i,
    {
        let ghost before = tiers@.take(i as int);
        let ghost after = tiers@.take(i + 1);
        let (min_volume, discount_bps): (i128, u32) = tiers[i];
        if min_volume < 0 || discount_bps > 10_000 {
            assert(tiers@[i as int] == (min_volume, discount_bps));
            return false;
        }
        if i > 0 && min_volume <= tiers[i - 1].0 {
            assert(tiers@[i - 1].0 >= tiers@[i as int].0);
            return false;
        }
        proof {
            assert forall|a: int, b: int| 0 <= a < b < after.len() implies (#[trigger] after[a]).0
                < (#[trigger] after[b]).0 by {
                assert(after[a] == before[a]);
                if b < i {
                    assert(after[b] == before[b]);
                } else if a < i - 1 {
                    assert(before[a].0 < before[i - 1].0);
                }
            }
            assert forall|a: int| 0 <= a < after.len() implies (#[trigger] after[a]).0 >= 0
                && after[a].1 <= 10_000 by {
                if a < i {
                    assert(after[a] == before[a]);
                }
            }
        }
        i += 1;
    }
    assert(tiers@.take(i as int) =~= tiers@);
    true
}

} // verus!
