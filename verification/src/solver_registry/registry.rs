//! The registry and its entry points.
use vstd::prelude::*;
use crate::context::{Abort, Invocation};
use crate::reputation::compute_score;
use crate::solver_registry::rules::{as_admin, as_solver, as_writer, deregister_step,
    initialize_step, record_failure_fits, record_failure_step, record_fill_fits, record_fill_step,
    register_fits, register_step, reputation, set_threshold_step, set_tier_step, set_writer_step,
    slash_amount, slash_fits, slash_step, stake_fits, stake_step, unstake_step, State, Step};
use crate::solver_registry::tiers::{bonus_pct, default_thresholds, earned_tier, fill_window_bonus,
    lemma_default_thresholds, lookup_tier, perk, rows_well_ordered, seed_thresholds, slash_rate,
    slash_share, tier_info};
use crate::solver_registry::types::{Effect, Error, SolverRecord, Threshold, TierInfo,
    MAX_MIN_BOND, MAX_MIN_SCORE_BPS, MAX_TIER};
use crate::table::{distinct_keys, lemma_entry, position, Table};
use crate::types::Address;

verus! {

/// The registry: everything it keeps on the ledger.
pub struct SolverRegistry {
    pub admin: Option<Address>,
    /// Token in which bonds are staked.
    pub bond_token: Option<Address>,
    /// Address that receives slashed bonds.
    pub fee_recipient: Option<Address>,
    /// Address that may report fills and failures beside the admin.
    pub writer: Option<Address>,
    /// What each tier needs, lowest tier first.
    pub thresholds: Vec<Threshold>,
    pub solvers: Table<Address, SolverRecord>,
    pub solver_count: u32,
    /// Tiers that the admin has assigned.
    pub assigned_tiers: Table<Address, u32>,
}

impl View for SolverRegistry {
    type V = State;

    open spec fn view(&self) -> State {
        State {
            admin: self.admin,
            bond_token: self.bond_token,
            fee_recipient: self.fee_recipient,
            writer: self.writer,
            thresholds: self.thresholds@,
            solvers: self.solvers@,
            solver_count: self.solver_count as int,
            assigned_tiers: self.assigned_tiers@,
        }
    }
}

/// What a slash takes from a bond in a tier.
pub(crate) fn amount_to_slash(bond: i128, tier: u32) -> (r: i128)
    requires
        bond * slash_rate(tier as int) <= i128::MAX,
    ensures
        r == slash_amount(bond as int, tier as int),
        1 <= r,
        bond > 0 ==> r <= bond,
{
    let rate: i128 = slash_share(tier) as i128;
    if bond > 0 {
        assert(0 <= bond * rate <= bond * 1_000) by (nonlinear_arith)
            requires
                0 < bond,
                0 <= rate <= 1_000,
        ;
        let share: i128 = bond * rate / 10_000;
        if share > 1 {
            return share;
        }
    } else {
        assert(bond * rate <= 0) by (nonlinear_arith)
            requires
                bond <= 0,
                0 <= rate,
        ;
    }
    1
}

impl SolverRegistry {
    /// Both tables are well-formed, and the state is one that the registry can
    /// be in.
    pub open spec fn wf(&self) -> bool {
        self.solvers.wf() && self.assigned_tiers.wf() && self@.valid()
    }

    /// A registry that has been deployed and not yet initialized.
    pub fn new() -> (r: Self)
        ensures
            r.wf(),
            r@ == (State {
                admin: None,
                bond_token: None,
                fee_recipient: None,
                writer: None,
                thresholds: default_thresholds(),
                solvers: Map::empty(),
                solver_count: 0,
                assigned_tiers: Map::empty(),
            }),
    {
        proof {
            lemma_default_thresholds();
        }
        SolverRegistry {
            admin: None,
            bond_token: None,
            fee_recipient: None,
            writer: None,
            thresholds: seed_thresholds(),
            solvers: Table::new(),
            solver_count: 0,
            assigned_tiers: Table::new(),
        }
    }

    /// Whether the registry is in a state that it can be in, for callers that
    /// fill it with what they have stored.
    pub fn settings_valid(&self) -> (r: bool)
        requires
            self.assigned_tiers.wf(),
        ensures
            r == self@.valid(),
    {
        if self.admin.is_some() != self.bond_token.is_some() || self.admin.is_some()
            != self.fee_recipient.is_some() || !rows_well_ordered(&self.thresholds) {
            return false;
        }
        let ghost entries = self.assigned_tiers.entries@;
        let mut i: usize = 0;
        while i < self.assigned_tiers.entries.len()
            invariant
                entries == self.assigned_tiers.entries@,
                distinct_keys(entries),
                i <= entries.len(),
                forall|j: int| 0 <= j < i ==> 1 <= (#[trigger] entries[j]).1 <= MAX_TIER,
            decreases entries.len() - i,
        {
            let tier: u32 = self.assigned_tiers.entries[i].1;
            if tier == 0 || tier > MAX_TIER {
                proof {
                    lemma_entry(entries, i as int);
                    assert(self@.assigned_tiers.contains_key(entries[i as int].0));
                }
                return false;
            }
            i += 1;
        }
        proof {
            assert forall|a: Address| #[trigger] self@.assigned_tiers.contains_key(a) implies 1
                <= self@.assigned_tiers[a] <= MAX_TIER by {
                assert(1 <= entries[position(entries, a)].1 <= MAX_TIER);
            }
        }
        true
    }

    // ── Admin ───────────────────────────────────────────────────────────────

    /// Why a call that only the admin may make is turned down.
    fn require_admin(&self, inv: &Invocation) -> (r: Option<Abort<Error>>)
        ensures
            forall|step: Step|
                match r {
                    None => #[trigger] as_admin(self@, *inv, step) == step,
                    Some(abort) => as_admin(self@, *inv, step) == (Step::Refused { abort }),
                },
    {
        match self.admin {
            None => Some(Abort::Error(Error::NotInitialized)),
            Some(admin) => {
                if inv.has_signed(admin) {
                    None
                } else {
                    Some(Abort::Auth(admin))
                }
            },
        }
    }

    /// One-time setup: records the admin, the bond token and the fee recipient,
    /// and seeds the tier table.
    pub fn initialize(
        &mut self,
        inv: &Invocation,
        admin: Address,
        bond_token: Address,
        fee_recipient: Address,
    ) -> (r: Result<Vec<Effect>, Abort<Error>>)
        requires
            old(self).wf(),
        ensures
            final(self).wf(),
            initialize_step(old(self)@, *inv, admin, bond_token, fee_recipient).describes(
                old(self)@,
                final(self)@,
                r,
            ),
    {
        if self.admin.is_some() {
            return Err(Abort::Error(Error::AlreadyInitialized));
        }
        if !inv.has_signed(admin) {
            return Err(Abort::Auth(admin));
        }
        proof {
            lemma_default_thresholds();
        }
        self.admin = Some(admin);
        self.bond_token = Some(bond_token);
        self.fee_recipient = Some(fee_recipient);
        self.thresholds = seed_thresholds();
        Ok(Vec::new())
    }

    /// Admin-only: names the address that may report fills and failures.
    pub fn set_writer(&mut self, inv: &Invocation, writer: Address) -> (r: Result<
        Vec<Effect>,
        Abort<Error>,
    >)
        requires
            old(self).wf(),
        ensures
            final(self).wf(),
            set_writer_step(old(self)@, *inv, writer).describes(old(self)@, final(self)@, r),
    {
        if let Some(abort) = self.require_admin(inv) {
            return Err(abort);
        }
        self.writer = Some(writer);
        Ok(Vec::new())
    }

    /// Admin-only: tunes what a tier needs. The lowest tier is fixed, and the
    /// row stays strictly between its neighbours on both axes.
    pub fn set_tier_threshold(
        &mut self,
        inv: &Invocation,
        tier: u32,
        min_bond: i128,
        min_score_bps: u32,
    ) -> (r: Result<Vec<Effect>, Abort<Error>>)
        requires
            old(self).wf(),
        ensures
            final(self).wf(),
            set_threshold_step(
                old(self)@,
                *inv,
                tier,
                (Threshold { min_bond, min_score_bps }),
            ).describes(old(self)@, final(self)@, r),
    {
        if let Some(abort) = self.require_admin(inv) {
            return Err(abort);
        }
        if tier == 0 || tier > MAX_TIER {
            return Err(Abort::Error(Error::InvalidTier));
        }
        if min_bond < 1 || min_bond > MAX_MIN_BOND || min_score_bps > MAX_MIN_SCORE_BPS {
            return Err(Abort::Error(Error::ThresholdOutOfBounds));
        }
        let i: usize = tier as usize;
        let lower = self.thresholds[i - 1];
        if min_bond <= lower.min_bond || min_score_bps <= lower.min_score_bps {
            return Err(Abort::Error(Error::ThresholdsNotMonotonic));
        }
        if tier < MAX_TIER {
            let upper = self.thresholds[i + 1];
            if min_bond >= upper.min_bond || min_score_bps >= upper.min_score_bps {
                return Err(Abort::Error(Error::ThresholdsNotMonotonic));
            }
        }
        self.thresholds.set(i, Threshold { min_bond, min_score_bps });
        Ok(Vec::new())
    }

    /// Admin-only: assigns a tier to a solver. Assigning the lowest takes an
    /// assignment back.
    pub fn set_tier(&mut self, inv: &Invocation, solver: Address, tier: u32) -> (r: Result<
        Vec<Effect>,
        Abort<Error>,
    >)
        requires
            old(self).wf(),
        ensures
            final(self).wf(),
            set_tier_step(old(self)@, *inv, solver, tier).describes(old(self)@, final(self)@, r),
    {
        if let Some(abort) = self.require_admin(inv) {
            return Err(abort);
        }
        if tier > MAX_TIER {
            return Err(Abort::Error(Error::InvalidTier));
        }
        if tier == 0 {
            self.assigned_tiers.remove(solver);
        } else {
            self.assigned_tiers.set(solver, tier);
        }
        let effects = vec![Effect::TierSet { solver, tier }];
        assert(effects@ =~= seq![Effect::TierSet { solver, tier }]);
        Ok(effects)
    }

    /// Admin-only: takes the assignment of a tier back.
    pub fn clear_tier(&mut self, inv: &Invocation, solver: Address) -> (r: Result<
        Vec<Effect>,
        Abort<Error>,
    >)
        requires
            old(self).wf(),
        ensures
            final(self).wf(),
            set_tier_step(old(self)@, *inv, solver, 0).describes(old(self)@, final(self)@, r),
    {
        self.set_tier(inv, solver, 0)
    }

    // ── Solvers ─────────────────────────────────────────────────────────────

    /// Why a call that a solver makes with an amount is turned down; otherwise
    /// the bond token.
    pub(crate) fn require_solver(&self, inv: &Invocation, solver: Address, amount: i128) -> (r: Result<
        Address,
        Abort<Error>,
    >)
        requires
            self.wf(),
        ensures
            forall|step: Step|
                match r {
                    Ok(_) => #[trigger] as_solver(self@, *inv, solver, amount, step) == step,
                    Err(abort) => as_solver(self@, *inv, solver, amount, step) == (Step::Refused {
                        abort,
                    }),
                },
            r is Ok ==> self@.bond_token == Some(r->Ok_0),
    {
        if !inv.has_signed(solver) {
            return Err(Abort::Auth(solver));
        }
        match self.bond_token {
            None => Err(Abort::Error(Error::NotInitialized)),
            Some(bond_token) => {
                if amount <= 0 {
                    Err(Abort::Error(Error::ZeroAmount))
                } else {
                    Ok(bond_token)
                }
            },
        }
    }

    /// A solver registers with a bond that clears the floor of the lowest tier.
    pub fn register_solver(&mut self, inv: &Invocation, solver: Address, bond_amount: i128) -> (r:
        Result<Vec<Effect>, Abort<Error>>)
        requires
            old(self).wf(),
            register_fits(old(self)@, *inv, solver, bond_amount),
        ensures
            final(self).wf(),
            register_step(old(self)@, *inv, solver, bond_amount).describes(
                old(self)@,
                final(self)@,
                r,
            ),
    {
        let ghost s = self@;
        let bond_token = match self.require_solver(inv, solver, bond_amount) {
            Ok(bond_token) => bond_token,
            Err(abort) => {
                return Err(abort);
            },
        };
        if self.solvers.has(solver) {
            return Err(Abort::Error(Error::SolverAlreadyRegistered));
        }
        if bond_amount < self.thresholds[0].min_bond {
            return Err(Abort::Error(Error::BondBelowFloor));
        }
        self.solvers.set(
            solver,
            SolverRecord {
                address: solver,
                bond_amount,
                fills_completed: 0,
                fills_failed: 0,
                total_volume: 0,
                registered_at: inv.now,
                last_slash_time: 0,
                slashed_total: 0,
            },
        );
        self.solver_count = self.solver_count + 1;
        let effects = vec![
            Effect::Transfer {
                token: bond_token,
                from: solver,
                to: inv.contract,
                amount: bond_amount,
            },
        ];
        proof {
            let step = register_step(s, *inv, solver, bond_amount);
            assert(effects@ =~= step->effects);
            assert(self@ =~= step->next);
        }
        Ok(effects)
    }

    /// A solver adds to its bond.
    pub fn stake(&mut self, inv: &Invocation, solver: Address, amount: i128) -> (r: Result<
        Vec<Effect>,
        Abort<Error>,
    >)
        requires
            old(self).wf(),
            stake_fits(old(self)@, *inv, solver, amount),
        ensures
            final(self).wf(),
            stake_step(old(self)@, *inv, solver, amount).describes(old(self)@, final(self)@, r),
    {
        let ghost s = self@;
        let bond_token = match self.require_solver(inv, solver, amount) {
            Ok(bond_token) => bond_token,
            Err(abort) => {
                return Err(abort);
            },
        };
        if !self.solvers.has(solver) {
            return Err(Abort::Error(Error::SolverNotRegistered));
        }
        let record = self.solvers.entry_mut(solver);
        record.bond_amount = record.bond_amount + amount;
        let effects = vec![
            Effect::Transfer { token: bond_token, from: solver, to: inv.contract, amount },
        ];
        proof {
            let step = stake_step(s, *inv, solver, amount);
            assert(effects@ =~= step->effects);
            assert(self@ =~= step->next);
        }
        Ok(effects)
    }

    /// A solver takes back part of its bond. What remains must clear the floor
    /// of the lowest tier.
    pub fn unstake(&mut self, inv: &Invocation, solver: Address, amount: i128) -> (r: Result<
        Vec<Effect>,
        Abort<Error>,
    >)
        requires
            old(self).wf(),
        ensures
            final(self).wf(),
            unstake_step(old(self)@, *inv, solver, amount).describes(old(self)@, final(self)@, r),
    {
        let ghost s = self@;
        let bond_token = match self.require_solver(inv, solver, amount) {
            Ok(bond_token) => bond_token,
            Err(abort) => {
                return Err(abort);
            },
        };
        let bond: i128 = match self.solvers.get(solver) {
            None => {
                return Err(Abort::Error(Error::SolverNotRegistered));
            },
            Some(record) => record.bond_amount,
        };
        if amount > bond {
            return Err(Abort::Error(Error::InsufficientBond));
        }
        if bond - amount < self.thresholds[0].min_bond {
            return Err(Abort::Error(Error::BondBelowFloor));
        }
        let record = self.solvers.entry_mut(solver);
        record.bond_amount = bond - amount;
        let effects = vec![
            Effect::Transfer { token: bond_token, from: inv.contract, to: solver, amount },
        ];
        proof {
            let step = unstake_step(s, *inv, solver, amount);
            assert(effects@ =~= step->effects);
            assert(self@ =~= step->next);
        }
        Ok(effects)
    }

    /// A solver leaves and gets its full bond back.
    pub fn deregister_solver(&mut self, inv: &Invocation, solver: Address) -> (r: Result<
        Vec<Effect>,
        Abort<Error>,
    >)
        requires
            old(self).wf(),
        ensures
            final(self).wf(),
            deregister_step(old(self)@, *inv, solver).describes(old(self)@, final(self)@, r),
    {
        let ghost s = self@;
        if !inv.has_signed(solver) {
            return Err(Abort::Auth(solver));
        }
        let bond_token: Address = match self.bond_token {
            None => {
                return Err(Abort::Error(Error::NotInitialized));
            },
            Some(bond_token) => bond_token,
        };
        let bond: i128 = match self.solvers.get(solver) {
            None => {
                return Err(Abort::Error(Error::SolverNotRegistered));
            },
            Some(record) => record.bond_amount,
        };
        self.solvers.remove(solver);
        self.solver_count = self.solver_count.saturating_sub(1);
        let mut effects: Vec<Effect> = Vec::new();
        if bond > 0 {
            effects.push(
                Effect::Transfer {
                    token: bond_token,
                    from: inv.contract,
                    to: solver,
                    amount: bond,
                },
            );
        }
        proof {
            let step = deregister_step(s, *inv, solver);
            assert(effects@ =~= step->effects);
            assert(self@ =~= step->next);
        }
        Ok(effects)
    }

    // ── Settlement ──────────────────────────────────────────────────────────

    /// Why a report on a solver is turned down.
    pub(crate) fn require_writer(&self, inv: &Invocation, caller: Address, solver: Address) -> (r: Option<
        Abort<Error>,
    >)
        requires
            self.wf(),
        ensures
            forall|step: Step|
                match r {
                    None => #[trigger] as_writer(self@, *inv, caller, solver, step) == step,
                    Some(abort) => as_writer(self@, *inv, caller, solver, step)
                        == (Step::Refused { abort }),
                },
            r is None ==> self@.solvers.contains_key(solver) && self@.admin is Some,
    {
        let admin: Address = match self.admin {
            None => {
                return Some(Abort::Error(Error::NotInitialized));
            },
            Some(admin) => admin,
        };
        if caller != admin {
            match self.writer {
                None => {
                    return Some(Abort::Error(Error::WriterNotSet));
                },
                Some(writer) => {
                    if caller != writer {
                        return Some(Abort::Error(Error::Unauthorized));
                    }
                },
            }
        }
        if !inv.has_signed(caller) {
            return Some(Abort::Auth(caller));
        }
        if !self.solvers.has(solver) {
            return Some(Abort::Error(Error::SolverNotRegistered));
        }
        None
    }

    /// The writer or the admin reports a fill of `amount` by `solver`.
    pub fn record_fill(
        &mut self,
        inv: &Invocation,
        caller: Address,
        solver: Address,
        amount: i128,
    ) -> (r: Result<Vec<Effect>, Abort<Error>>)
        requires
            old(self).wf(),
            record_fill_fits(old(self)@, *inv, caller, solver, amount),
        ensures
            final(self).wf(),
            record_fill_step(old(self)@, *inv, caller, solver, amount).describes(
                old(self)@,
                final(self)@,
                r,
            ),
    {
        let ghost s = self@;
        if let Some(abort) = self.require_writer(inv, caller, solver) {
            return Err(abort);
        }
        let record = self.solvers.entry_mut(solver);
        record.fills_completed = record.fills_completed + 1;
        record.total_volume = record.total_volume + amount;
        proof {
            let step = record_fill_step(s, *inv, caller, solver, amount);
            assert(self@ =~= step->next);
        }
        Ok(Vec::new())
    }

    /// The writer or the admin reports that `solver` failed to fill.
    pub fn record_failure(&mut self, inv: &Invocation, caller: Address, solver: Address) -> (r:
        Result<Vec<Effect>, Abort<Error>>)
        requires
            old(self).wf(),
            record_failure_fits(old(self)@, *inv, caller, solver),
        ensures
            final(self).wf(),
            record_failure_step(old(self)@, *inv, caller, solver).describes(
                old(self)@,
                final(self)@,
                r,
            ),
    {
        let ghost s = self@;
        if let Some(abort) = self.require_writer(inv, caller, solver) {
            return Err(abort);
        }
        let record = self.solvers.entry_mut(solver);
        record.fills_failed = record.fills_failed + 1;
        proof {
            let step = record_failure_step(s, *inv, caller, solver);
            assert(self@ =~= step->next);
        }
        Ok(Vec::new())
    }

    /// The writer or the admin slashes `solver` at the rate of its tier. Gives
    /// what was taken and the tier that the solver is left with.
    pub fn slash(&mut self, inv: &Invocation, caller: Address, solver: Address) -> (r: Result<
        (i128, u32, Vec<Effect>),
        Abort<Error>,
    >)
        requires
            old(self).wf(),
            slash_fits(old(self)@, *inv, caller, solver),
        ensures
            final(self).wf(),
            ({
                let s = old(self)@;
                match slash_step(s, *inv, caller, solver) {
                    Step::Refused { abort } => r == Err::<
                        (i128, u32, Vec<Effect>),
                        Abort<Error>,
                    >(abort) && final(self)@ == s,
                    Step::Done { next, effects } => {
                        &&& r is Ok
                        &&& r->Ok_0.0 == slash_amount(
                            s.solvers[solver].bond_amount,
                            s.tier_of(solver) as int,
                        )
                        &&& r->Ok_0.1 == next.tier_of(solver)
                        &&& r->Ok_0.2@ == effects
                        &&& final(self)@ == next
                    },
                }
            }),
    {
        let ghost s = self@;
        if let Some(abort) = self.require_writer(inv, caller, solver) {
            return Err(abort);
        }
        let bond_token: Address = self.bond_token.unwrap();
        let fee_recipient: Address = self.fee_recipient.unwrap();
        let tier: u32 = self.get_tier(solver);
        let record = self.solvers.entry_mut(solver);
        let bond: i128 = record.bond_amount;
        let amount: i128 = amount_to_slash(bond, tier);
        record.bond_amount = bond - amount;
        record.fills_failed = record.fills_failed + 1;
        record.last_slash_time = inv.now;
        record.slashed_total = record.slashed_total + amount;
        let effects = vec![
            Effect::Transfer {
                token: bond_token,
                from: inv.contract,
                to: fee_recipient,
                amount,
            },
        ];
        proof {
            let step = slash_step(s, *inv, caller, solver);
            assert(effects@ =~= step->effects);
            assert(self@ =~= step->next);
        }
        let tier: u32 = self.get_tier(solver);
        Ok((amount, tier, effects))
    }

    // ── Views ───────────────────────────────────────────────────────────────

    /// The tier of `solver`: the one assigned to it, or else the one that its
    /// reputation and bond earn; the lowest for a solver that is not known.
    pub fn get_tier(&self, solver: Address) -> (r: u32)
        requires
            self.wf(),
        ensures
            r == self@.tier_of(solver),
    {
        match self.assigned_tiers.get(solver) {
            Some(tier) => *tier,
            None => {
                match self.solvers.get(solver) {
                    Some(record) => lookup_tier(
                        &self.thresholds,
                        Self::compute_reputation_score(*record),
                        record.bond_amount,
                    ),
                    None => 0,
                }
            },
        }
    }

    /// The tier that a score and a bond earn.
    pub fn tier_for(&self, score_bps: u32, bond_amount: i128) -> (r: u32)
        requires
            self.wf(),
        ensures
            r == earned_tier(self@.thresholds, score_bps as int, bond_amount as int),
    {
        lookup_tier(&self.thresholds, score_bps, bond_amount)
    }

    /// The tier table: thresholds in force and perks, lowest tier first.
    pub fn get_tier_table(&self) -> (r: Vec<TierInfo>)
        requires
            self.wf(),
        ensures
            r@ == self@.thresholds.map(|i: int, row: Threshold| tier_info(row, i)),
    {
        let mut table: Vec<TierInfo> = Vec::new();
        let mut tier: u32 = 0;
        while tier <= MAX_TIER
            invariant
                self.wf(),
                tier <= MAX_TIER + 1,
                table@.len() == tier,
                forall|i: int| 0 <= i < tier ==> table@[i] == tier_info(self.thresholds@[i], i),
            decreases MAX_TIER + 1 - tier,
        {
            let row = self.thresholds[tier as usize];
            table.push(
                TierInfo {
                    min_bond: row.min_bond,
                    min_score_bps: row.min_score_bps,
                    fill_window_bonus_pct: fill_window_bonus(tier),
                    slash_bps: slash_share(tier),
                    fee_rebate_bps: 0,
                },
            );
            tier = tier + 1;
        }
        assert(table@ =~= self@.thresholds.map(|i: int, row: Threshold| tier_info(row, i)));
        table
    }

    /// Extra fill window of a tier, in percent.
    pub fn get_fill_window_bonus_pct(tier: u32) -> (r: Result<u32, Error>)
        ensures
            r == perk(tier, bonus_pct(tier as int)),
    {
        if tier > MAX_TIER {
            Err(Error::InvalidTier)
        } else {
            Ok(fill_window_bonus(tier))
        }
    }

    /// Extra fill window of a tier, in basis points; nothing where there is no
    /// such tier.
    pub fn get_fill_window_bonus_bps(tier: u32) -> (r: u32)
        ensures
            r == 100 * bonus_pct(tier as int),
    {
        100 * fill_window_bonus(tier)
    }

    /// Part of the bond that a slash takes in a tier, in basis points.
    pub fn get_slash_bps(tier: u32) -> (r: Result<u32, Error>)
        ensures
            r == perk(tier, slash_rate(tier as int)),
    {
        if tier > MAX_TIER {
            Err(Error::InvalidTier)
        } else {
            Ok(slash_share(tier))
        }
    }

    /// Fee rebate of a tier, in basis points: reserved, and 0 in every tier.
    pub fn get_fee_rebate_bps(tier: u32) -> (r: Result<u32, Error>)
        ensures
            r == perk(tier, 0),
    {
        if tier > MAX_TIER {
            Err(Error::InvalidTier)
        } else {
            Ok(0)
        }
    }

    /// The reputation of `solver` in basis points, if it is registered.
    pub fn get_reputation_score(&self, solver: Address) -> (r: Option<u32>)
        requires
            self.wf(),
        ensures
            match r {
                Some(score) => self@.solvers.contains_key(solver) && score == reputation(
                    self@.solvers[solver],
                ),
                None => !self@.solvers.contains_key(solver),
            },
    {
        match self.solvers.get(solver) {
            Some(record) => Some(Self::compute_reputation_score(*record)),
            None => None,
        }
    }

    /// The reputation of a solver with this record, in basis points.
    pub fn compute_reputation_score(record: SolverRecord) -> (r: u32)
        ensures
            r == reputation(record@),
    {
        compute_score(record.fills_completed, record.fills_failed, record.total_volume, 1)
    }

    /// The record of `solver`, if it is registered.
    pub fn get_solver(&self, solver: Address) -> (r: Option<SolverRecord>)
        requires
            self.wf(),
        ensures
            match r {
                Some(record) => self@.solvers.contains_key(solver) && record@
                    == self@.solvers[solver],
                None => !self@.solvers.contains_key(solver),
            },
    {
        match self.solvers.get(solver) {
            Some(record) => Some(*record),
            None => None,
        }
    }

    /// How many solvers are registered.
    pub fn get_solver_count(&self) -> (r: u32)
        ensures
            r == self@.solver_count,
    {
        self.solver_count
    }

    /// The address that may report fills and failures, if one is set.
    pub fn get_writer(&self) -> (r: Option<Address>)
        ensures
            r == self@.writer,
    {
        self.writer
    }

    /// The admin.
    pub fn get_admin(&self) -> (r: Option<Address>)
        ensures
            r == self@.admin,
    {
        self.admin
    }

    /// The admin.
    pub fn admin(&self) -> (r: Option<Address>)
        ensures
            r == self@.admin,
    {
        self.admin
    }

    /// The token in which bonds are staked.
    pub fn get_bond_token(&self) -> (r: Option<Address>)
        ensures
            r == self@.bond_token,
    {
        self.bond_token
    }
}

} // verus!
