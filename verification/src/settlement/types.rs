//! Records, errors, events and effects of the intent-settlement contract.
use vstd::prelude::*;
use crate::types::{Address, Bytes32};

verus! {

/// Default lifetime of an intent, in seconds.
pub const INTENT_EXPIRY: u64 = 1800;

/// Default time a solver has to fill an intent after accepting it, in seconds.
pub const FILL_WINDOW: u64 = 300;

/// Default minimum solver bond: 50 USDC.
pub const MIN_BOND: i128 = 500_000_000;

/// Default protocol fee: 0.05%.
pub const PROTOCOL_FEE_BPS: i128 = 5;

/// Delay between proposing and executing a sensitive admin change: 48 hours.
pub const ADMIN_TIMELOCK_DELAY: u64 = 172_800;

/// Highest protocol fee that can be configured: 10%.
pub const MAX_PROTOCOL_FEE_BPS: i128 = 1_000;

/// Shortest fill window that can be configured, in seconds.
pub const MIN_FILL_WINDOW_SECS: u64 = 60;

/// Shortest intent lifetime that can be configured, in seconds.
pub const MIN_INTENT_EXPIRY_SECS: u64 = 300;

/// Lowest minimum bond that can be configured: 1 USDC.
pub const MIN_BOND_FLOOR: i128 = 10_000_000;

/// How long a slashed solver waits before accepting again, in seconds.
pub const SLASH_COOLDOWN: u64 = 3600;

/// How long a user waits between two cancellations, in seconds.
pub const CANCEL_COOLDOWN: u64 = 3600;

/// The extra fill window that an extension grants, in seconds.
pub const MAX_EXTENSION_DURATION: u64 = 300;

/// Storage schema of this release.
pub const MIGRATION_VERSION: u32 = 1;

/// Basis points in the whole.
pub const BPS_DENOMINATOR: i128 = 10_000;

/// Bond multiplier of a token that has none set: 1.0x, in tenths.
pub const DEFAULT_BOND_MULTIPLIER: i128 = 10;

/// Upper bound on the amounts of an intent: 10^30.
pub const MAX_AMOUNT: i128 = 1_000_000_000_000_000_000_000_000_000_000;

/// Ledgers closed in a day, at five seconds each.
pub const DAY_IN_LEDGERS: u32 = 17280;

/// An intent or solver entry is extended when it has less than this to live.
pub const PERSISTENT_TTL_THRESHOLD: u32 = DAY_IN_LEDGERS * 14;

/// What an intent or solver entry is extended to.
pub const PERSISTENT_TTL_EXTEND_TO: u32 = DAY_IN_LEDGERS * 30;

/// The instance entry is extended when it has less than this to live.
pub const INSTANCE_TTL_THRESHOLD: u32 = DAY_IN_LEDGERS * 30;

/// What the instance entry is extended to.
pub const INSTANCE_TTL_EXTEND_TO: u32 = DAY_IN_LEDGERS * 60;

/// Admin-configurable protocol parameters.
#[derive(Clone, Copy, Debug, PartialEq, Eq, Structural)]
pub struct ProtocolConfig {
    /// Minimum solver bond in the bond token's smallest unit.
    pub min_bond: i128,
    /// Seconds a solver has to fill after accepting an intent.
    pub fill_window: u64,
    /// Intent lifetime in seconds when the user names no deadline.
    pub intent_expiry: u64,
    /// Protocol fee on each fill, in basis points.
    pub protocol_fee_bps: i128,
}

impl ProtocolConfig {
    /// The bounds that every stored configuration meets.
    pub open spec fn allowed(self) -> bool {
        &&& 0 <= self.protocol_fee_bps <= MAX_PROTOCOL_FEE_BPS
        &&& MIN_FILL_WINDOW_SECS <= self.fill_window < self.intent_expiry
        &&& MIN_INTENT_EXPIRY_SECS <= self.intent_expiry
        &&& MIN_BOND_FLOOR <= self.min_bond
    }

    /// Whether the configuration is within the bounds.
    pub fn is_allowed(&self) -> (r: bool)
        ensures
            r == self.allowed(),
    {
        0 <= self.protocol_fee_bps && self.protocol_fee_bps <= MAX_PROTOCOL_FEE_BPS
            && MIN_FILL_WINDOW_SECS <= self.fill_window && self.fill_window < self.intent_expiry
            && MIN_INTENT_EXPIRY_SECS <= self.intent_expiry && MIN_BOND_FLOOR <= self.min_bond
    }

    /// The configuration in force until an admin sets another.
    pub open spec fn standard() -> Self {
        ProtocolConfig {
            min_bond: MIN_BOND,
            fill_window: FILL_WINDOW,
            intent_expiry: INTENT_EXPIRY,
            protocol_fee_bps: PROTOCOL_FEE_BPS,
        }
    }
}

/// Where an intent stands in its life.
#[derive(Clone, Copy, Debug, PartialEq, Eq, Structural)]
pub enum IntentState {
    /// Awaiting a solver.
    Open,
    /// Claimed by a solver.
    Accepted,
    /// One or more partial fills delivered; awaiting a solver for the rest.
    PartiallyFilled,
    /// The user has received at least the minimum.
    Filled,
    /// Cancelled by the user before a fill.
    Cancelled,
    /// The deadline passed without a fill.
    Expired,
    /// The solver failed to fill after accepting.
    Slashed,
}

/// A user's cross-chain swap intent.
#[derive(Clone, Debug)]
pub struct IntentRecord {
    pub intent_id: Bytes32,
    pub user: Address,
    /// Name of the source chain.
    pub src_chain: Vec<u8>,
    /// Token address on the source chain.
    pub src_token: Vec<u8>,
    /// Amount in the source token's smallest unit.
    pub src_amount: i128,
    /// Token to be delivered on Stellar.
    pub dst_token: Address,
    /// What the user must receive in all.
    pub min_dst_amount: i128,
    /// The solver that holds the intent.
    pub solver: Option<Address>,
    pub state: IntentState,
    pub created_at: u64,
    pub deadline: u64,
    pub filled_at: Option<u64>,
    /// What has been delivered so far, once anything has.
    pub fill_amount: Option<i128>,
    /// What has been delivered so far.
    pub total_filled: i128,
}

/// An intent, as the contracts of this library speak of it.
#[verifier::ext_equal]
pub struct Intent {
    pub intent_id: Bytes32,
    pub user: Address,
    pub src_chain: Seq<u8>,
    pub src_token: Seq<u8>,
    pub src_amount: int,
    pub dst_token: Address,
    pub min_dst_amount: int,
    pub solver: Option<Address>,
    pub state: IntentState,
    pub created_at: u64,
    pub deadline: u64,
    pub filled_at: Option<u64>,
    pub fill_amount: Option<i128>,
    pub total_filled: int,
}

impl View for IntentRecord {
    type V = Intent;

    open spec fn view(&self) -> Intent {
        Intent {
            intent_id: self.intent_id,
            user: self.user,
            src_chain: self.src_chain@,
            src_token: self.src_token@,
            src_amount: self.src_amount as int,
            dst_token: self.dst_token,
            min_dst_amount: self.min_dst_amount as int,
            solver: self.solver,
            state: self.state,
            created_at: self.created_at,
            deadline: self.deadline,
            filled_at: self.filled_at,
            fill_amount: self.fill_amount,
            total_filled: self.total_filled as int,
        }
    }
}

impl Intent {
    /// Whether a solver may claim the intent.
    pub open spec fn is_open(self) -> bool {
        self.state == IntentState::Open || self.state == IntentState::PartiallyFilled
    }
}

/// A registered solver.
#[derive(Clone, Copy, Debug)]
pub struct SolverRecord {
    pub address: Address,
    /// Bond token locked as collateral.
    pub bond_amount: i128,
    pub fills_completed: u32,
    pub fills_failed: u32,
    pub total_volume: i128,
    pub is_active: bool,
    pub registered_at: u64,
    /// Intents that the solver has accepted and neither filled nor lost.
    pub active_intents: u32,
    /// When the solver was last slashed; 0 if never.
    pub last_slash_time: u64,
}

/// A solver, as the contracts of this library speak of it.
#[verifier::ext_equal]
pub struct Solver {
    pub address: Address,
    pub bond_amount: int,
    pub fills_completed: int,
    pub fills_failed: int,
    pub total_volume: int,
    pub is_active: bool,
    pub registered_at: u64,
    pub active_intents: int,
    pub last_slash_time: u64,
}

impl View for SolverRecord {
    type V = Solver;

    open spec fn view(&self) -> Solver {
        Solver {
            address: self.address,
            bond_amount: self.bond_amount as int,
            fills_completed: self.fills_completed as int,
            fills_failed: self.fills_failed as int,
            total_volume: self.total_volume as int,
            is_active: self.is_active,
            registered_at: self.registered_at,
            active_intents: self.active_intents as int,
            last_slash_time: self.last_slash_time,
        }
    }
}

/// Why the contract refuses a call.
#[derive(Clone, Copy, Debug, PartialEq, Eq, Structural)]
pub enum Error {
    /// `initialize` on a contract that has an admin.
    AlreadyInitialized,
    /// The caller is not the required authority.
    Unauthorized,
    /// No intent has this id.
    IntentNotFound,
    /// The intent is not open.
    IntentNotOpen,
    /// The intent's deadline has passed.
    IntentExpired,
    /// The intent is not held by a solver.
    IntentNotAccepted,
    /// No solver is registered under this address.
    SolverNotRegistered,
    /// The bond is, or would be, below the minimum.
    SolverBondTooLow,
    /// A fill below the minimum output.
    InsufficientOutput,
    /// The fill window has closed; for a slash, that it has not closed yet.
    FillWindowExpired,
    /// An accepted intent cannot be cancelled.
    CannotCancelAccepted,
    /// The solver is inactive or in its cooldown after a slash.
    SolverInactive,
    /// An amount that must be positive is not; also a second extension.
    ZeroAmount,
    /// The deadline is not in the future.
    InvalidDeadline,
    /// The intent is already filled.
    IntentAlreadyFilled,
    /// The contract is not initialized.
    NotInitialized,
    /// The solver still holds accepted intents.
    SolverHasActiveIntents,
    /// The contract is paused.
    ContractPaused,
    /// The intent's deadline has not been reached.
    DeadlineNotReached,
    /// A withdrawal above the bond.
    InsufficientBond,
    /// The destination token is not on the enforced allowlist.
    DstTokenNotAllowed,
    /// The intent id is taken.
    IntentAlreadyExists,
    /// The fee does not fit its type.
    FeeOverflow,
    /// The address does not implement the token interface.
    InvalidTokenInterface,
    /// No fee-recipient proposal is pending.
    NoPendingFeeRecipient,
    /// The source chain is not on the enforced allowlist.
    SrcChainNotAllowed,
    /// The bond token cannot be rescued.
    RescueProtectedToken,
    /// The source token does not have the format of its chain.
    InvalidSrcToken,
    /// The timelock of a proposal is still running.
    TimelockNotElapsed,
    /// No admin transfer is pending.
    NoPendingAdminTransfer,
    /// A configuration parameter is out of bounds.
    InvalidConfig,
    /// No allowlist change is pending for this token.
    NoPendingDstTokenChange,
    /// An amount is above the sanity bound.
    AmountTooLarge,
    /// The user cancelled an intent too recently.
    CancelCooldownNotExpired,
    /// No upgrade is pending.
    NoPendingUpgrade,
    /// The storage is already at the schema of this release.
    AlreadyMigrated,
    /// The fee-discount schedule is not ascending or out of bounds.
    InvalidFeeTiers,
}

impl Error {
    /// The number under which clients see an error.
    pub open spec fn number(self) -> u32 {
        match self {
            Error::AlreadyInitialized => 1,
            Error::Unauthorized => 2,
            Error::IntentNotFound => 3,
            Error::IntentNotOpen => 4,
            Error::IntentExpired => 5,
            Error::IntentNotAccepted => 6,
            Error::SolverNotRegistered => 7,
            Error::SolverBondTooLow => 8,
            Error::InsufficientOutput => 9,
            Error::FillWindowExpired => 10,
            Error::CannotCancelAccepted => 11,
            Error::SolverInactive => 12,
            Error::ZeroAmount => 13,
            Error::InvalidDeadline => 14,
            Error::IntentAlreadyFilled => 15,
            Error::NotInitialized => 16,
            Error::SolverHasActiveIntents => 17,
            Error::ContractPaused => 18,
            Error::DeadlineNotReached => 19,
            Error::InsufficientBond => 20,
            Error::DstTokenNotAllowed => 21,
            Error::IntentAlreadyExists => 22,
            Error::FeeOverflow => 23,
            Error::InvalidTokenInterface => 24,
            Error::NoPendingFeeRecipient => 25,
            Error::SrcChainNotAllowed => 26,
            Error::RescueProtectedToken => 27,
            Error::InvalidSrcToken => 28,
            Error::TimelockNotElapsed => 29,
            Error::NoPendingAdminTransfer => 30,
            Error::InvalidConfig => 31,
            Error::NoPendingDstTokenChange => 32,
            Error::AmountTooLarge => 33,
            Error::CancelCooldownNotExpired => 34,
            Error::NoPendingUpgrade => 35,
            Error::AlreadyMigrated => 36,
            Error::InvalidFeeTiers => 37,
        }
    }

    /// The number under which clients see the error.
    pub fn code(self) -> (r: u32)
        ensures
            r == self.number(),
    {
        match self {
            Error::AlreadyInitialized => 1,
            Error::Unauthorized => 2,
            Error::IntentNotFound => 3,
            Error::IntentNotOpen => 4,
            Error::IntentExpired => 5,
            Error::IntentNotAccepted => 6,
            Error::SolverNotRegistered => 7,
            Error::SolverBondTooLow => 8,
            Error::InsufficientOutput => 9,
            Error::FillWindowExpired => 10,
            Error::CannotCancelAccepted => 11,
            Error::SolverInactive => 12,
            Error::ZeroAmount => 13,
            Error::InvalidDeadline => 14,
            Error::IntentAlreadyFilled => 15,
            Error::NotInitialized => 16,
            Error::SolverHasActiveIntents => 17,
            Error::ContractPaused => 18,
            Error::DeadlineNotReached => 19,
            Error::InsufficientBond => 20,
            Error::DstTokenNotAllowed => 21,
            Error::IntentAlreadyExists => 22,
            Error::FeeOverflow => 23,
            Error::InvalidTokenInterface => 24,
            Error::NoPendingFeeRecipient => 25,
            Error::SrcChainNotAllowed => 26,
            Error::RescueProtectedToken => 27,
            Error::InvalidSrcToken => 28,
            Error::TimelockNotElapsed => 29,
            Error::NoPendingAdminTransfer => 30,
            Error::InvalidConfig => 31,
            Error::NoPendingDstTokenChange => 32,
            Error::AmountTooLarge => 33,
            Error::CancelCooldownNotExpired => 34,
            Error::NoPendingUpgrade => 35,
            Error::AlreadyMigrated => 36,
            Error::InvalidFeeTiers => 37,
        }
    }
}

/// What the contract announces to off-chain observers.
#[derive(Clone, Debug, PartialEq, Eq)]
pub enum Event {
    FeeRecipientProposed { recipient: Address, eta: u64 },
    FeeRecipientUpdated { recipient: Address },
    AdminTransferProposed { admin: Address, eta: u64 },
    AdminTransferred { admin: Address },
    UpgradeProposed { wasm_hash: Bytes32, eta: u64 },
    Upgraded { wasm_hash: Bytes32 },
    Migrated { from_version: u32, to_version: u32 },
    ConfigUpdated { config: ProtocolConfig },
    DstTokenAddProposed { token: Address, eta: u64 },
    DstTokenAllowed { token: Address },
    DstTokenRemoveProposed { token: Address, eta: u64 },
    DstTokenDisallowed { token: Address },
    DstAllowlistEnabled { enabled: bool },
    BondMultiplierSet { token: Address, multiplier: i128 },
    SrcChainAllowed { chain: Vec<u8> },
    SrcChainDisallowed { chain: Vec<u8> },
    PauserUpdated { pauser: Address },
    Paused { paused: bool },
    TokensRescued { to: Address, token: Address, amount: i128 },
    SolverRegistered { solver: Address, bond_amount: i128 },
    SolverDeregistered { solver: Address, bond_amount: i128 },
    BondWithdrawn { solver: Address, amount: i128, remaining: i128 },
    IntentSubmitted { user: Address, intent_id: Bytes32, min_dst_amount: i128, deadline: u64 },
    IntentAccepted { solver: Address, intent_id: Bytes32, deadline: u64 },
    IntentFilled { solver: Address, intent_id: Bytes32, fill_amount: i128, fee: i128 },
    IntentCancelled { user: Address, intent_id: Bytes32 },
    SolverSlashed { solver: Address, intent_id: Bytes32, amount: i128 },
    IntentExpired { intent_id: Bytes32 },
    ExtensionGranted { solver: Address, intent_id: Bytes32, deadline: u64 },
    FeeDiscountTiersSet { tiers: u32 },
}

/// What a successful call asks of the ledger, beside the new contract state.
#[derive(Clone, Debug, PartialEq, Eq)]
pub enum Effect {
    /// Extend the life of the instance entry.
    ExtendInstance,
    /// Extend the life of an intent's entry.
    ExtendIntent { intent_id: Bytes32 },
    /// Extend the life of a solver's entry.
    ExtendSolver { solver: Address },
    /// Move `amount` of `token`.
    Transfer { token: Address, from: Address, to: Address, amount: i128 },
    /// Replace the contract's code.
    UpdateWasm { wasm_hash: Bytes32 },
    /// Publish an event.
    Emit { event: Event },
}

} // verus!
