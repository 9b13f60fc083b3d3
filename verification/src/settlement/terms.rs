//! The terms of business: standard values, what governance puts in force, and
//! what a fill costs.
use vstd::prelude::*;
use crate::context::Invocation;
use crate::reputation::{lemma_score_characterized, score, weighs};
use crate::settlement::allowlist::without_item;
use crate::settlement::calls::{fits, step, Call};
use crate::settlement::fees::{lemma_tiers_reached, reputation, tiers_reached};
use crate::settlement::governance_laws::allowlist_mirrors;
use crate::settlement::state::{ascending_tiers, State, Step};
use crate::settlement::types::{ProtocolConfig, Solver, ADMIN_TIMELOCK_DELAY, BPS_DENOMINATOR,
    CANCEL_COOLDOWN, DAY_IN_LEDGERS, DEFAULT_BOND_MULTIPLIER, FILL_WINDOW, INSTANCE_TTL_EXTEND_TO,
    INSTANCE_TTL_THRESHOLD, INTENT_EXPIRY, MAX_AMOUNT, MAX_EXTENSION_DURATION,
    MAX_PROTOCOL_FEE_BPS, MIGRATION_VERSION, MIN_BOND, MIN_BOND_FLOOR, MIN_FILL_WINDOW_SECS,
    MIN_INTENT_EXPIRY_SECS, PERSISTENT_TTL_EXTEND_TO, PERSISTENT_TTL_THRESHOLD, PROTOCOL_FEE_BPS,
    SLASH_COOLDOWN};
use crate::types::{Address, Bytes32};

verus! {

// ── Standard values ─────────────────────────────────────────────────────────

/// The standard terms: intents live half an hour and are filled within five
/// minutes, bonds start at 50 USDC, fees at 0.05%; changes wait for two days,
/// cooldowns last an hour, an extension five minutes.
pub proof fn lemma_standard_terms()
    ensures
        INTENT_EXPIRY == 30 * 60,
        FILL_WINDOW == 5 * 60,
        MIN_BOND == 50 * 10_000_000,
        PROTOCOL_FEE_BPS == 5,
        ADMIN_TIMELOCK_DELAY == 48 * 60 * 60,
        MAX_PROTOCOL_FEE_BPS == 1_000,
        MIN_FILL_WINDOW_SECS == 60,
        MIN_INTENT_EXPIRY_SECS == 5 * 60,
        MIN_BOND_FLOOR == 10_000_000,
        SLASH_COOLDOWN == 60 * 60,
        CANCEL_COOLDOWN == 60 * 60,
        MAX_EXTENSION_DURATION == 5 * 60,
        MIGRATION_VERSION == 1,
        BPS_DENOMINATOR == 10_000,
        DEFAULT_BOND_MULTIPLIER == 10,
        MAX_AMOUNT == 1_000_000_000_000_000 * 1_000_000_000_000_000,
        DAY_IN_LEDGERS == 24 * 60 * 60 / 5,
        PERSISTENT_TTL_THRESHOLD == 14 * 17_280,
        PERSISTENT_TTL_EXTEND_TO == 30 * 17_280,
        INSTANCE_TTL_THRESHOLD == 30 * 17_280,
        INSTANCE_TTL_EXTEND_TO == 60 * 17_280,
{
}

/// The parameters in force are the stored ones, and the standard ones where
/// none are stored.
pub proof fn lemma_config_in_force(s: State)
    ensures
        s.config matches Some(config) ==> s.effective_config() == config,
        s.config is None ==> {
            let config = s.effective_config();
            &&& config.min_bond == 500_000_000
            &&& config.fill_window == 300
            &&& config.intent_expiry == 1_800
            &&& config.protocol_fee_bps == 5
        },
{
}

/// Settings are valid if the parameters in force are within their bounds, the
/// discount schedule ascends, and every bond multiplier is positive.
pub proof fn lemma_valid_settings(s: State)
    ensures
        s.valid() <==> {
            let config = s.effective_config();
            let tiers = s.fee_discount_tiers;
            &&& 0 <= config.protocol_fee_bps <= 1_000
            &&& 60 <= config.fill_window
            &&& 300 <= config.intent_expiry
            &&& config.fill_window < config.intent_expiry
            &&& 10_000_000 <= config.min_bond
            &&& forall|i: int|
                0 <= i < tiers.len() ==> (#[trigger] tiers[i]).0 >= 0 && tiers[i].1 <= 10_000
            &&& forall|i: int, j: int|
                0 <= i < j < tiers.len() ==> (#[trigger] tiers[i]).0 < (#[trigger] tiers[j]).0
            &&& forall|token: Address| #[trigger]
                s.min_bond_multipliers.contains_key(token) ==> s.min_bond_multipliers[token] >= 1
        },
{
}

/// What `initialize` puts in force, and what it leaves alone.
pub proof fn lemma_initialization_records(
    s: State,
    inv: Invocation,
    admin: Address,
    fee_recipient: Address,
    bond_token: Address,
)
    ensures
        step(s, inv, Call::Initialize { admin, fee_recipient, bond_token }) matches Step::Done {
            next,
            ..
        } ==> {
            &&& next.admin == Some(admin)
            &&& next.fee_recipient == Some(fee_recipient)
            &&& next.bond_token == Some(bond_token)
            &&& next.config == Some(
                ProtocolConfig {
                    min_bond: 500_000_000,
                    fill_window: 300,
                    intent_expiry: 1_800,
                    protocol_fee_bps: 5,
                },
            )
            &&& next.migration_version == 1
            &&& next.total_intents == 0
            &&& next.open_intents == 0
            &&& next.total_volume == 0
            &&& next.total_solvers == 0
        },
{
}

/// Nothing is stored on a contract that has only been deployed.
pub proof fn lemma_nothing_stored()
    ensures
        ({
            let s = State::undeployed();
            &&& s.admin is None && s.fee_recipient is None && s.bond_token is None
            &&& s.pending_admin is None && s.pending_fee_recipient is None
            &&& s.pending_upgrade is None && s.config is None && s.pauser is None
            &&& s.migration_version == 0 && !s.paused
            &&& s.total_intents == 0 && s.open_intents == 0 && s.total_volume == 0
            &&& s.total_solvers == 0
            &&& !s.dst_allowlist_enabled && !s.src_chain_allowlist_enabled
            &&& s.allowed_dst_tokens =~= Set::empty() && s.allowed_dst_token_list =~= Seq::empty()
            &&& s.allowed_src_chains =~= Set::empty() && s.fee_discount_tiers =~= Seq::empty()
            &&& s.pending_dst_token_adds =~= Map::empty()
            &&& s.pending_dst_token_removes =~= Map::empty()
            &&& s.min_bond_multipliers =~= Map::empty() && s.intents =~= Map::empty()
            &&& s.solvers =~= Map::empty() && s.user_nonces =~= Map::empty()
            &&& s.user_intents =~= Map::empty() && s.cancel_times =~= Map::empty()
            &&& s.extensions_granted =~= Set::empty() && s.accepted_by_token =~= Map::empty()
        }),
{
}

// ── Governance ──────────────────────────────────────────────────────────────

/// A proposal waits for its two days: what is proposed, and when it is ready.
pub proof fn lemma_proposals_recorded(
    s: State,
    inv: Invocation,
    who: Address,
    wasm_hash: Bytes32,
)
    requires
        inv.now + 172_800 <= u64::MAX,
    ensures
        step(s, inv, Call::ProposeAdmin { admin: who }) matches Step::Done { next, .. } ==> (
        next.pending_admin matches Some((proposed, ready)) && proposed == who && ready - inv.now
            == 172_800),
        step(s, inv, Call::ProposeFeeRecipient { recipient: who }) matches Step::Done { next, .. }
            ==> (next.pending_fee_recipient matches Some((proposed, ready)) && proposed == who
            && ready - inv.now == 172_800),
        step(s, inv, Call::ProposeUpgrade { wasm_hash }) matches Step::Done { next, .. } ==> (
        next.pending_upgrade matches Some((proposed, ready)) && proposed == wasm_hash && ready
            - inv.now == 172_800),
{
}

/// What was proposed takes effect when it is executed, and is then no longer
/// pending.
pub proof fn lemma_handovers_take_effect(
    s: State,
    inv: Invocation,
    who: Address,
    wasm_hash: Bytes32,
)
    ensures
        step(s, inv, Call::AcceptAdmin { admin: who }) matches Step::Done { next, .. }
            ==> next.admin == Some(who) && next.pending_admin is None,
        step(s, inv, Call::AcceptFeeRecipient { recipient: who }) matches Step::Done { next, .. }
            ==> next.fee_recipient == Some(who) && next.pending_fee_recipient is None,
        step(s, inv, Call::ExecuteUpgrade { wasm_hash }) matches Step::Done { next, .. }
            ==> next.pending_upgrade is None,
{
}

/// Proposed code can be installed by the admin once 48 hours have passed, and
/// not before.
pub proof fn lemma_upgrade_delay(
    s: State,
    inv: Invocation,
    wasm_hash: Bytes32,
    later: Invocation,
)
    requires
        fits(s, inv, Call::ProposeUpgrade { wasm_hash }),
    ensures
        step(s, inv, Call::ProposeUpgrade { wasm_hash }) matches Step::Done { next, .. } ==> (step(
            next,
            later,
            Call::ExecuteUpgrade { wasm_hash },
        ) is Done <==> later.now >= inv.now + 172_800 && (s.admin matches Some(admin)
            && later.signed(admin))),
{
}

/// A token proposed for removal can be removed once 48 hours have passed, and
/// not before; neither proposal touches those for other tokens.
pub proof fn lemma_removal_delay(s: State, inv: Invocation, token: Address, later: Invocation)
    requires
        fits(s, inv, Call::ProposeRemoveToken { token }),
    ensures
        step(s, inv, Call::ProposeRemoveToken { token }) matches Step::Done { next, .. } ==> {
            &&& step(next, later, Call::ExecuteRemoveToken { token }) is Done <==> later.now
                >= inv.now + 172_800
            &&& forall|other: Address|
                other != token ==> next.pending_dst_token_removes.contains_key(other)
                    == #[trigger] s.pending_dst_token_removes.contains_key(other) && (
                s.pending_dst_token_removes.contains_key(other)
                    ==> next.pending_dst_token_removes[other]
                    == s.pending_dst_token_removes[other])
        },
        step(s, inv, Call::ProposeAddToken { token, is_token: true }) matches Step::Done {
            next,
            ..
        } ==> forall|other: Address|
            other != token ==> next.pending_dst_token_adds.contains_key(other)
                == #[trigger] s.pending_dst_token_adds.contains_key(other) && (
            s.pending_dst_token_adds.contains_key(other) ==> next.pending_dst_token_adds[other]
                == s.pending_dst_token_adds[other]),
{
}

/// A token that enters the allowlist is admitted, stands last on the list
/// unless it was there, and is no longer pending.
pub proof fn lemma_token_enters(s: State, inv: Invocation, token: Address)
    ensures
        step(s, inv, Call::ExecuteAddToken { token }) matches Step::Done { next, .. } ==> {
            &&& next.allowed_dst_tokens == s.allowed_dst_tokens.insert(token)
            &&& s.allowed_dst_token_list.contains(token) ==> next.allowed_dst_token_list
                == s.allowed_dst_token_list
            &&& !s.allowed_dst_token_list.contains(token) ==> next.allowed_dst_token_list
                == s.allowed_dst_token_list + seq![token]
            &&& next.pending_dst_token_adds == s.pending_dst_token_adds.remove(token)
        },
{
    let after = step(s, inv, Call::ExecuteAddToken { token });
    if after is Done && !s.allowed_dst_token_list.contains(token) {
        assert(after->next.allowed_dst_token_list =~= s.allowed_dst_token_list + seq![token]);
    }
}

/// Without what is not in it a list is as it was.
proof fn lemma_without_absent(list: Seq<Address>, item: Address)
    requires
        !list.contains(item),
    ensures
        without_item(list, item) == list,
    decreases list.len(),
{
    if list.len() > 0 {
        let rest = list.drop_last();
        assert(list[list.len() - 1] == list.last());
        assert(!rest.contains(item)) by {
            if rest.contains(item) {
                let i = choose|i: int| 0 <= i < rest.len() && rest[i] == item;
                assert(list[i] == item);
            }
        }
        lemma_without_absent(rest, item);
        assert(rest.push(list.last()) =~= list);
    }
}

proof fn lemma_without_middle(front: Seq<Address>, item: Address, back: Seq<Address>)
    requires
        !front.contains(item),
        !back.contains(item),
    ensures
        without_item(front + seq![item] + back, item) == front + back,
    decreases back.len(),
{
    let list = front + seq![item] + back;
    if back.len() == 0 {
        assert(list.drop_last() =~= front);
        assert(list.last() == item);
        lemma_without_absent(front, item);
        assert(front + back =~= front);
    } else {
        let rest = back.drop_last();
        assert(back[back.len() - 1] == back.last());
        assert(!rest.contains(item)) by {
            if rest.contains(item) {
                let i = choose|i: int| 0 <= i < rest.len() && rest[i] == item;
                assert(back[i] == item);
            }
        }
        assert(list.drop_last() =~= front + seq![item] + rest);
        lemma_without_middle(front, item, rest);
        assert((front + rest).push(back.last()) =~= front + back);
    }
}

/// A token that leaves the allowlist is no longer admitted or pending; the
/// others stay on the list in their order.
pub proof fn lemma_token_leaves(
    s: State,
    inv: Invocation,
    token: Address,
    front: Seq<Address>,
    back: Seq<Address>,
)
    requires
        allowlist_mirrors(s),
    ensures
        step(s, inv, Call::ExecuteRemoveToken { token }) matches Step::Done { next, .. } ==> {
            &&& next.allowed_dst_tokens == s.allowed_dst_tokens.remove(token)
            &&& next.pending_dst_token_removes == s.pending_dst_token_removes.remove(token)
            &&& s.allowed_dst_token_list == front + seq![token] + back
                ==> next.allowed_dst_token_list == front + back
            &&& !s.allowed_dst_token_list.contains(token) ==> next.allowed_dst_token_list
                == s.allowed_dst_token_list
        },
{
    let list = s.allowed_dst_token_list;
    if list == front + seq![token] + back {
        let n = front.len() as int;
        assert(list[n] == token);
        assert(!front.contains(token)) by {
            if front.contains(token) {
                let i = choose|i: int| 0 <= i < front.len() && front[i] == token;
                assert(list[i] == list[n]);
            }
        }
        assert(!back.contains(token)) by {
            if back.contains(token) {
                let i = choose|i: int| 0 <= i < back.len() && back[i] == token;
                assert(list[n + 1 + i] == list[n]);
            }
        }
        lemma_without_middle(front, token, back);
    }
    if !list.contains(token) {
        lemma_without_absent(list, token);
    }
}

/// What the admin sets is in force from then on.
pub proof fn lemma_settings_take_effect(
    s: State,
    inv: Invocation,
    config: ProtocolConfig,
    pauser: Address,
    tiers: Seq<(i128, u32)>,
    enabled: bool,
    chain: Vec<u8>,
)
    ensures
        step(s, inv, Call::SetConfig { config }) matches Step::Done { next, .. }
            ==> next.effective_config() == config,
        step(s, inv, Call::SetPauser { pauser }) matches Step::Done { next, .. } ==> next.pauser
            == Some(pauser),
        step(s, inv, Call::Pause { caller: pauser }) matches Step::Done { next, .. }
            ==> next.paused,
        step(s, inv, Call::Unpause) matches Step::Done { next, .. } ==> !next.paused,
        step(s, inv, Call::SetTiers { tiers }) matches Step::Done { next, .. }
            ==> next.fee_discount_tiers == tiers,
        step(s, inv, Call::EnableTokenList { enabled }) matches Step::Done { next, .. }
            ==> next.dst_allowlist_enabled == enabled,
        step(s, inv, Call::EnableChainList { enabled }) matches Step::Done { next, .. }
            ==> next.src_chain_allowlist_enabled == enabled,
        step(s, inv, Call::AllowChain { chain }) matches Step::Done { next, .. } ==> forall|
            name: Seq<u8>,
        | #[trigger]
            next.allowed_src_chains.contains(name) <==> s.allowed_src_chains.contains(name) || name
                == chain@,
        step(s, inv, Call::DisallowChain { chain }) matches Step::Done { next, .. } ==> forall|
            name: Seq<u8>,
        | #[trigger]
            next.allowed_src_chains.contains(name) <==> s.allowed_src_chains.contains(name) && name
                != chain@,
        step(s, inv, Call::Migrate) matches Step::Done { next, .. } ==> next.migration_version == 1,
{
}

/// A bond multiplier is set for the token that is named and for no other, and
/// an intent for that token then asks for exactly that many tenths of 50 USDC.
pub proof fn lemma_multiplier_takes_effect(
    s: State,
    inv: Invocation,
    token: Address,
    multiplier: i128,
    other: Address,
)
    ensures
        step(s, inv, Call::SetMultiplier { token, multiplier }) matches Step::Done { next, .. }
            ==> {
            &&& next.adjusted_min_bond(token) == 50_000_000 * multiplier
            &&& next.multiplier_of(token) == multiplier
            &&& other != token ==> next.multiplier_of(other) == s.multiplier_of(other)
            &&& other != token ==> next.adjusted_min_bond(other) == s.adjusted_min_bond(other)
        },
        !s.min_bond_multipliers.contains_key(other) ==> s.multiplier_of(other) == 10
            && s.adjusted_min_bond(other) == 500_000_000,
        s.min_bond_multipliers.contains_key(other) ==> s.multiplier_of(other)
            == s.min_bond_multipliers[other],
{
}

// ── Fees ────────────────────────────────────────────────────────────────────

/// The volume that counts for a solver's fee.
pub open spec fn volume_on_record(s: State, solver: Address) -> int {
    if s.solvers.contains_key(solver) {
        s.solvers[solver].total_volume
    } else {
        0
    }
}

/// Without a tier that its volume has reached a solver pays the configured fee.
pub proof fn lemma_full_fee(s: State, solver: Address)
    requires
        ascending_tiers(s.fee_discount_tiers),
        forall|i: int|
            0 <= i < s.fee_discount_tiers.len() ==> volume_on_record(s, solver) < (
            #[trigger] s.fee_discount_tiers[i]).0,
    ensures
        s.fee_bps(solver) == s.effective_config().protocol_fee_bps,
{
    let tiers = s.fee_discount_tiers;
    let volume = volume_on_record(s, solver);
    lemma_tiers_reached(tiers, volume);
    let reached = tiers_reached(tiers, volume);
    if reached > 0 {
        assert(tiers[reached - 1].0 > volume);
    }
}

/// A solver whose volume has reached a tier, and no higher one, pays the
/// configured fee less that tier's share of it, rounded down.
pub proof fn lemma_discounted_fee(s: State, solver: Address, tier: int)
    requires
        s.valid(),
        0 <= tier < s.fee_discount_tiers.len(),
        s.fee_discount_tiers[tier].0 <= volume_on_record(s, solver),
        tier + 1 < s.fee_discount_tiers.len() ==> volume_on_record(s, solver)
            < s.fee_discount_tiers[tier + 1].0,
    ensures
        ({
            let base = s.effective_config().protocol_fee_bps;
            let saved = base - s.fee_bps(solver);
            saved * 10_000 <= base * s.fee_discount_tiers[tier].1 < (saved + 1) * 10_000
        }),
{
    let tiers = s.fee_discount_tiers;
    let volume = volume_on_record(s, solver);
    lemma_tiers_reached(tiers, volume);
    let reached = tiers_reached(tiers, volume);
    assert(tier < reached);
    if tier + 1 < tiers.len() {
        assert(!(tier + 1 < reached));
    }
    assert(reached == tier + 1);
    let product = s.effective_config().protocol_fee_bps * tiers[tier].1;
    assert(product == s.effective_config().protocol_fee_bps as int * (tiers[tier].1 as int));
}

/// A solver's reputation is its share of completed fills, of which a tenth has
/// to be earned by volume.
pub proof fn lemma_reputation(record: Solver)
    requires
        record.fills_completed >= 0,
        record.fills_failed >= 0,
    ensures
        record.fills_completed + record.fills_failed == 0 ==> reputation(record) == 0,
        record.fills_completed + record.fills_failed > 0 ==> exists|rate: int, decay: int|
            #[trigger]
            weighs(
                record.fills_completed,
                record.fills_failed,
                record.total_volume,
                0,
                rate,
                decay,
                reputation(record),
            ),
{
    let (done, failed, volume) = (
        record.fills_completed,
        record.fills_failed,
        record.total_volume,
    );
    let result = reputation(record);
    lemma_score_characterized(done, failed, volume, 0);
    if done + failed > 0 {
        let (rate, decay) = choose|rate: int, decay: int| #[trigger]
            weighs(done, failed, volume, 0, rate, decay, score(done, failed, volume, 0));
        assert(weighs(done, failed, volume, 0, rate, decay, result));
    }
}

} // verus!
