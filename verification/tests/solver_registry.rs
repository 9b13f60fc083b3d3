//! Tier table, staking, the settlement write path and threshold tuning.
use vortex::context::{Abort, Invocation};
use vortex::solver_registry::{
    Effect, Error, SolverRecord, SolverRegistry, Threshold, MAX_TIER, USDC,
};
use vortex::types::{Address, Bytes32};

const FLOOR: i128 = 50 * USDC; // tier-0 (Unranked) bond floor

/// A ledger with one registry, on which every address authorizes whatever it
/// is asked to.
struct Ctx {
    c: SolverRegistry,
    now: u64,
    admin: Address,
    fee_recipient: Address,
    solver: Address,
    bond_token: Address,
    contract_id: Address,
    generated: u8,
    balances: Vec<(Address, Address, i128)>,
}

impl Ctx {
    fn generate(&mut self) -> Address {
        self.generated += 1;
        Address::Account(Bytes32([self.generated; 32]))
    }
    fn balance(&self, who: Address) -> i128 {
        self.balances
            .iter()
            .filter(|(t, a, _)| *t == self.bond_token && *a == who)
            .map(|(_, _, amount)| *amount)
            .sum()
    }
    fn mint(&mut self, to: Address, amount: i128) {
        self.balances.push((self.bond_token, to, amount));
    }
    fn apply(&mut self, effects: &Vec<Effect>) {
        for effect in effects.iter() {
            if let Effect::Transfer { token, from, to, amount } = effect {
                assert!(self.balance(*from) >= *amount, "insufficient balance");
                self.balances.push((*token, *from, -*amount));
                self.balances.push((*token, *to, *amount));
            }
        }
    }
    fn attempt<T>(
        &mut self,
        f: impl Fn(&mut SolverRegistry, &Invocation) -> Result<T, Abort<Error>>,
    ) -> Result<T, Error> {
        let mut signers: Vec<Address> = Vec::new();
        loop {
            let inv = Invocation {
                now: self.now,
                contract: self.contract_id,
                signers: signers.clone(),
            };
            match f(&mut self.c, &inv) {
                Ok(v) => return Ok(v),
                Err(Abort::Error(error)) => return Err(error),
                Err(Abort::Auth(who)) => signers.push(who),
            }
        }
    }
    fn call(
        &mut self,
        f: impl Fn(&mut SolverRegistry, &Invocation) -> Result<Vec<Effect>, Abort<Error>>,
    ) -> Result<(), Error> {
        let effects = self.attempt(f)?;
        self.apply(&effects);
        Ok(())
    }
    fn try_register_solver(&mut self, solver: Address, bond: i128) -> Result<(), Error> {
        self.call(|c, inv| c.register_solver(inv, solver, bond))
    }
    fn try_unstake(&mut self, solver: Address, amount: i128) -> Result<(), Error> {
        self.call(|c, inv| c.unstake(inv, solver, amount))
    }
    fn try_record_fill(
        &mut self,
        caller: Address,
        solver: Address,
        amount: i128,
    ) -> Result<(), Error> {
        self.call(|c, inv| c.record_fill(inv, caller, solver, amount))
    }
    fn try_set_tier_threshold(&mut self, tier: u32, bond: i128, score: u32) -> Result<(), Error> {
        self.call(|c, inv| c.set_tier_threshold(inv, tier, bond, score))
    }
    fn slash(&mut self, caller: Address, solver: Address) -> (i128, u32) {
        let (amount, tier, effects) = self.attempt(|c, inv| c.slash(inv, caller, solver)).unwrap();
        self.apply(&effects);
        (amount, tier)
    }
    /// Mint `bond` to the default solver and register them.
    fn register(&mut self, bond: i128) {
        self.mint(self.solver, bond);
        self.try_register_solver(self.solver, bond).unwrap();
    }
}

fn setup() -> Ctx {
    let mut ctx = Ctx {
        c: SolverRegistry::new(),
        now: 100,
        admin: Address::Account(Bytes32([0; 32])),
        fee_recipient: Address::Account(Bytes32([0; 32])),
        solver: Address::Account(Bytes32([0; 32])),
        bond_token: Address::Contract(Bytes32([202; 32])),
        contract_id: Address::Contract(Bytes32([201; 32])),
        generated: 0,
        balances: Vec::new(),
    };
    ctx.admin = ctx.generate();
    ctx.fee_recipient = ctx.generate();
    ctx.solver = ctx.generate();
    let (admin, bond_token, fee_recipient) = (ctx.admin, ctx.bond_token, ctx.fee_recipient);
    ctx.call(|c, inv| c.initialize(inv, admin, bond_token, fee_recipient)).unwrap();
    ctx
}

// ─── Initialization ─────────────────────────────────────────────────────────

#[test]
fn initialize_seeds_the_design_doc_tier_table() {
    let ctx = setup();
    let table = ctx.c.get_tier_table();
    assert_eq!(table.len(), 5);

    let r0 = table[0];
    assert_eq!(r0.min_bond, 50 * USDC);
    assert_eq!(r0.min_score_bps, 0);
    assert_eq!(r0.fill_window_bonus_pct, 0);
    assert_eq!(r0.slash_bps, 1_000);

    let r4 = table[4];
    assert_eq!(r4.min_bond, 50_000 * USDC);
    assert_eq!(r4.min_score_bps, 9_000);
    assert_eq!(r4.fill_window_bonus_pct, 50);
    assert_eq!(r4.slash_bps, 500);
    assert_eq!(r4.fee_rebate_bps, 0); // reserved slot

    assert_eq!(ctx.c.get_admin(), Some(ctx.admin));
    assert_eq!(ctx.c.get_bond_token(), Some(ctx.bond_token));
}

#[test]
fn test_cannot_initialize_twice() {
    let mut ctx = setup();
    let (admin, bond_token, fee_recipient) = (ctx.admin, ctx.bond_token, ctx.fee_recipient);
    let res = ctx.call(|c, inv| c.initialize(inv, admin, bond_token, fee_recipient));
    assert_eq!(res, Err(Error::AlreadyInitialized));
}

// ─── Registration / staking ────────────────────────────────────────────────

#[test]
fn register_rejects_bond_below_floor() {
    let mut ctx = setup();
    ctx.mint(ctx.solver, FLOOR);
    let res = ctx.try_register_solver(ctx.solver, FLOOR - 1);
    assert_eq!(res, Err(Error::BondBelowFloor));
}

#[test]
fn register_rejects_zero() {
    let mut ctx = setup();
    let res = ctx.try_register_solver(ctx.solver, 0);
    assert_eq!(res, Err(Error::ZeroAmount));
}

#[test]
fn register_locks_bond_and_counts_solver() {
    let mut ctx = setup();
    ctx.register(FLOOR);
    assert_eq!(ctx.c.get_solver_count(), 1);
    assert_eq!(ctx.balance(ctx.contract_id), FLOOR);
    assert_eq!(ctx.balance(ctx.solver), 0);
    // No fills yet → score 0 → Unranked.
    assert_eq!(ctx.c.get_tier(ctx.solver), 0);
}

#[test]
fn register_twice_rejected() {
    let mut ctx = setup();
    ctx.register(FLOOR);
    ctx.mint(ctx.solver, FLOOR);
    let res = ctx.try_register_solver(ctx.solver, FLOOR);
    assert_eq!(res, Err(Error::SolverAlreadyRegistered));
}

#[test]
fn stake_then_unstake_back_to_floor() {
    let mut ctx = setup();
    ctx.register(FLOOR);
    ctx.mint(ctx.solver, 1_000 * USDC);
    let solver = ctx.solver;
    ctx.call(|c, inv| c.stake(inv, solver, 1_000 * USDC)).unwrap();
    assert_eq!(
        ctx.c.get_solver(solver).unwrap().bond_amount,
        FLOOR + 1_000 * USDC
    );

    ctx.try_unstake(solver, 1_000 * USDC).unwrap();
    assert_eq!(ctx.c.get_solver(solver).unwrap().bond_amount, FLOOR);

    // One more unit would drop below the floor.
    let res = ctx.try_unstake(solver, 1);
    assert_eq!(res, Err(Error::BondBelowFloor));
}

#[test]
fn unstake_more_than_bond_rejected() {
    let mut ctx = setup();
    ctx.register(FLOOR);
    let res = ctx.try_unstake(ctx.solver, FLOOR + 1);
    assert_eq!(res, Err(Error::InsufficientBond));
}

#[test]
fn deregister_returns_full_bond() {
    let mut ctx = setup();
    ctx.register(100 * USDC);
    let solver = ctx.solver;
    ctx.call(|c, inv| c.deregister_solver(inv, solver)).unwrap();
    assert_eq!(ctx.balance(solver), 100 * USDC);
    assert!(ctx.c.get_solver(solver).is_none());
    assert_eq!(ctx.c.get_solver_count(), 0);
}

// ─── Reputation formula ────────────────────────────────────────────────────

fn rec(completed: u32, failed: u32, vol: i128) -> SolverRecord {
    SolverRecord {
        address: Address::Account(Bytes32([5; 32])),
        bond_amount: 0,
        fills_completed: completed,
        fills_failed: failed,
        total_volume: vol,
        registered_at: 0,
        last_slash_time: 0,
        slashed_total: 0,
    }
}

#[test]
fn score_test_vector() {
    // no activity → 0
    assert_eq!(SolverRegistry::compute_reputation_score(rec(0, 0, 0)), 0);
    // all failures → 0
    assert_eq!(SolverRegistry::compute_reputation_score(rec(0, 5, 0)), 0);
    // perfect record, no volume → 9_001 (90% floor + integer rounding)
    assert_eq!(SolverRegistry::compute_reputation_score(rec(1, 0, 0)), 9_001);
    // 8/10 success, no volume → 7_200 (0.8 * 9_001, truncated)
    assert_eq!(SolverRegistry::compute_reputation_score(rec(8, 2, 0)), 7_200);
    // 8/10 success, very high volume → decay ≈ 0, multiplier ≈ 10_000 → 8_000
    assert_eq!(
        SolverRegistry::compute_reputation_score(rec(8, 2, 100_000_000 * USDC)),
        8_000
    );
}

#[test]
fn get_reputation_score_none_for_unknown() {
    let ctx = setup();
    assert_eq!(ctx.c.get_reputation_score(ctx.solver), None);
}

// ─── Tier boundaries (pure lookup) ─────────────────────────────────────────

#[test]
fn tier_for_hits_each_threshold_exactly() {
    let ctx = setup();
    let c = &ctx.c;

    // Unranked
    assert_eq!(c.tier_for(0, FLOOR), 0);
    assert_eq!(c.tier_for(0, FLOOR - 1), 0);

    // Bronze: score 1_000 bps AND bond 500 USDC
    assert_eq!(c.tier_for(1_000, 500 * USDC), 1);
    assert_eq!(c.tier_for(999, 500 * USDC), 0); // score one bp short
    assert_eq!(c.tier_for(1_000, 500 * USDC - 1), 0); // bond one unit short

    // Silver / Gold
    assert_eq!(c.tier_for(3_500, 2_000 * USDC), 2);
    assert_eq!(c.tier_for(3_499, 2_000 * USDC), 1);
    assert_eq!(c.tier_for(7_000, 10_000 * USDC), 3);

    // Platinum
    assert_eq!(c.tier_for(9_000, 50_000 * USDC), 4);
    assert_eq!(c.tier_for(8_999, 50_000 * USDC), 3);
    // Score above the (unreachable) 10_000 ceiling still resolves fine.
    assert_eq!(c.tier_for(10_000, 60_000 * USDC), 4);
}

// ─── Zero-fills edge case ──────────────────────────────────────────────────

#[test]
fn zero_fills_pins_tier_to_unranked_regardless_of_bond() {
    let mut ctx = setup();
    // Bond large enough for Platinum, but no fills → score 0 → tier 0.
    ctx.register(60_000 * USDC);
    assert_eq!(ctx.c.get_reputation_score(ctx.solver), Some(0));
    assert_eq!(ctx.c.get_tier(ctx.solver), 0);
}

// ─── Settlement write path ─────────────────────────────────────────────────

#[test]
fn record_fill_updates_volume_and_score() {
    let mut ctx = setup();
    ctx.register(FLOOR);
    // No writer configured yet → admin drives the write path.
    ctx.try_record_fill(ctx.admin, ctx.solver, 100 * USDC).unwrap();

    let rec = ctx.c.get_solver(ctx.solver).unwrap();
    assert_eq!(rec.fills_completed, 1);
    assert_eq!(rec.total_volume, 100 * USDC);
    assert!(ctx.c.get_reputation_score(ctx.solver).unwrap() > 0);
}

#[test]
fn record_failure_lowers_score() {
    let mut ctx = setup();
    ctx.register(FLOOR);
    let (admin, solver) = (ctx.admin, ctx.solver);
    ctx.try_record_fill(admin, solver, 0).unwrap();
    let before = ctx.c.get_reputation_score(solver).unwrap();
    ctx.call(|c, inv| c.record_failure(inv, admin, solver)).unwrap();
    let after = ctx.c.get_reputation_score(solver).unwrap();
    assert!(after < before, "{after} !< {before}");
}

#[test]
fn writer_can_drive_write_path_and_strangers_cannot() {
    let mut ctx = setup();
    ctx.register(FLOOR);
    let writer = ctx.generate();
    let stranger = ctx.generate();

    // Before a writer is set, a stranger is rejected with WriterNotSet.
    assert_eq!(
        ctx.try_record_fill(stranger, ctx.solver, 0),
        Err(Error::WriterNotSet)
    );

    ctx.call(|c, inv| c.set_writer(inv, writer)).unwrap();
    assert_eq!(ctx.c.get_writer(), Some(writer));

    // Writer works…
    ctx.try_record_fill(writer, ctx.solver, 10 * USDC).unwrap();
    assert_eq!(ctx.c.get_solver(ctx.solver).unwrap().fills_completed, 1);

    // …a stranger still does not.
    assert_eq!(
        ctx.try_record_fill(stranger, ctx.solver, 0),
        Err(Error::Unauthorized)
    );
}

// ─── Tier demotion on slash ────────────────────────────────────────────────

#[test]
fn slash_demotes_tier_and_pays_fee_recipient() {
    let mut ctx = setup();
    // Bond exactly at the Bronze floor.
    ctx.register(500 * USDC);
    // One clean fill → score ~9_001 → qualifies for Bronze (needs >= 1_000).
    ctx.try_record_fill(ctx.admin, ctx.solver, 100 * USDC).unwrap();
    assert_eq!(ctx.c.get_tier(ctx.solver), 1);

    let (slashed, new_tier) = ctx.slash(ctx.admin, ctx.solver);

    // Bronze slash is the full 10% → 50 USDC, dropping bond to 450 USDC,
    // below the 500 USDC Bronze floor → demoted to Unranked.
    assert_eq!(slashed, 50 * USDC);
    assert_eq!(new_tier, 0);
    assert_eq!(ctx.c.get_tier(ctx.solver), 0);
    assert_eq!(ctx.balance(ctx.fee_recipient), 50 * USDC);

    let rec = ctx.c.get_solver(ctx.solver).unwrap();
    assert_eq!(rec.bond_amount, 450 * USDC);
    assert_eq!(rec.fills_failed, 1);
    assert_eq!(rec.slashed_total, 50 * USDC);
    assert!(rec.last_slash_time >= rec.registered_at);
}

#[test]
fn slash_uses_the_tier_specific_bps() {
    let mut ctx = setup();
    // Platinum: bond 50_000 USDC + a clean fill → score ~9_001 ≥ 9_000.
    ctx.register(50_000 * USDC);
    ctx.try_record_fill(ctx.admin, ctx.solver, 100 * USDC).unwrap();
    assert_eq!(ctx.c.get_tier(ctx.solver), 4);

    // Platinum slash bps = 500 → 5% of 50_000 = 2_500 USDC.
    let (slashed, _new_tier) = ctx.slash(ctx.admin, ctx.solver);
    assert_eq!(slashed, 2_500 * USDC);
}

// ─── Threshold tuning ──────────────────────────────────────────────────────

#[test]
fn set_tier_threshold_changes_gating() {
    let mut ctx = setup();

    // Raise Bronze to (600 USDC, 1_200 bps).
    ctx.try_set_tier_threshold(1, 600 * USDC, 1_200).unwrap();
    let row = ctx.c.get_tier_table()[1];
    assert_eq!(row.min_bond, 600 * USDC);
    assert_eq!(row.min_score_bps, 1_200);

    assert_eq!(ctx.c.tier_for(1_200, 600 * USDC), 1);
    assert_eq!(ctx.c.tier_for(1_100, 600 * USDC), 0); // below the raised score bar
    assert_eq!(ctx.c.tier_for(1_200, 599 * USDC), 0); // below the raised bond bar
}

#[test]
fn set_tier_threshold_rejects_tier_zero() {
    let mut ctx = setup();
    let res = ctx.try_set_tier_threshold(0, 10 * USDC, 0);
    assert_eq!(res, Err(Error::InvalidTier));
}

#[test]
fn set_tier_threshold_rejects_out_of_bounds() {
    let mut ctx = setup();
    assert_eq!(
        ctx.try_set_tier_threshold(1, 600 * USDC, 10_000),
        Err(Error::ThresholdOutOfBounds)
    );
    assert_eq!(
        ctx.try_set_tier_threshold(1, 0, 1_200),
        Err(Error::ThresholdOutOfBounds)
    );
    assert_eq!(
        ctx.try_set_tier_threshold(1, 2_000_000 * USDC, 1_200),
        Err(Error::ThresholdOutOfBounds)
    );
}

#[test]
fn set_tier_threshold_rejects_non_monotonic() {
    let mut ctx = setup();
    // Tier 2 dropping below tier 1's bond.
    assert_eq!(
        ctx.try_set_tier_threshold(2, 100 * USDC, 3_500),
        Err(Error::ThresholdsNotMonotonic)
    );
    // Tier 1 rising to/above tier 2's score.
    assert_eq!(
        ctx.try_set_tier_threshold(1, 600 * USDC, 3_500),
        Err(Error::ThresholdsNotMonotonic)
    );
}

// ─── Perk getters ─────────────────────────────────────────────────────────

#[test]
fn perk_getters_match_table() {
    assert_eq!(SolverRegistry::get_slash_bps(0), Ok(1_000));
    assert_eq!(SolverRegistry::get_slash_bps(2), Ok(800));
    assert_eq!(SolverRegistry::get_slash_bps(4), Ok(500));
    assert_eq!(SolverRegistry::get_fill_window_bonus_pct(3), Ok(30));
    assert_eq!(SolverRegistry::get_fee_rebate_bps(4), Ok(0));
    assert_eq!(SolverRegistry::get_slash_bps(5), Err(Error::InvalidTier));
}

#[test]
fn every_row_of_the_tier_table() {
    let ctx = setup();
    let expected = [
        (50, 0, 0, 1_000),
        (500, 1_000, 10, 1_000),
        (2_000, 3_500, 20, 800),
        (10_000, 7_000, 30, 600),
        (50_000, 9_000, 50, 500),
    ];
    let table = ctx.c.get_tier_table();
    for (tier, (bond, score, bonus, slash)) in expected.into_iter().enumerate() {
        assert_eq!(table[tier].min_bond, bond * USDC);
        assert_eq!(table[tier].min_score_bps, score);
        assert_eq!(table[tier].fill_window_bonus_pct, bonus);
        assert_eq!(table[tier].slash_bps, slash);
        assert_eq!(table[tier].fee_rebate_bps, 0);
        assert_eq!(
            ctx.c.thresholds[tier],
            Threshold { min_bond: bond * USDC, min_score_bps: score }
        );
        let tier = tier as u32;
        assert_eq!(SolverRegistry::get_fill_window_bonus_pct(tier), Ok(bonus));
        assert_eq!(SolverRegistry::get_fill_window_bonus_bps(tier), bonus * 100);
        assert_eq!(SolverRegistry::get_slash_bps(tier), Ok(slash));
        assert_eq!(SolverRegistry::get_fee_rebate_bps(tier), Ok(0));
    }
    assert_eq!(SolverRegistry::get_fill_window_bonus_bps(5), 0);
    assert_eq!(SolverRegistry::get_fill_window_bonus_pct(5), Err(Error::InvalidTier));
    assert_eq!(SolverRegistry::get_fee_rebate_bps(5), Err(Error::InvalidTier));
}

// ─── Assigned tiers ───────────────────────────────────────────────────────

#[test]
fn an_assigned_tier_overrides_the_earned_one() {
    let mut ctx = setup();
    let solver = ctx.solver;
    assert_eq!(
        ctx.attempt(|c, inv| c.set_tier(inv, solver, 3)),
        Ok(vec![Effect::TierSet { solver, tier: 3 }])
    );
    assert_eq!(ctx.c.get_tier(solver), 3);
    assert_eq!(
        ctx.attempt(|c, inv| c.clear_tier(inv, solver)),
        Ok(vec![Effect::TierSet { solver, tier: 0 }])
    );
    assert_eq!(ctx.c.get_tier(solver), 0);
    ctx.call(|c, inv| c.set_tier(inv, solver, MAX_TIER)).unwrap();
    ctx.call(|c, inv| c.set_tier(inv, solver, 0)).unwrap();
    assert_eq!(ctx.c.get_tier(solver), 0);
    assert_eq!(
        ctx.call(|c, inv| c.set_tier(inv, solver, MAX_TIER + 1)),
        Err(Error::InvalidTier)
    );
    assert_eq!(ctx.c.admin(), Some(ctx.admin));
}

// ─── Guards ───────────────────────────────────────────────────────────────

#[test]
fn calls_before_initialization_are_refused() {
    let mut c = SolverRegistry::new();
    let who = Address::Account(Bytes32([1; 32]));
    let inv = Invocation {
        now: 0,
        contract: Address::Contract(Bytes32([2; 32])),
        signers: vec![who],
    };
    let refused = Err(Abort::Error(Error::NotInitialized));
    assert_eq!(c.register_solver(&inv, who, FLOOR), refused);
    assert_eq!(c.stake(&inv, who, 1), refused);
    assert_eq!(c.unstake(&inv, who, 1), refused);
    assert_eq!(c.deregister_solver(&inv, who), refused);
    assert_eq!(c.set_writer(&inv, who), refused);
    assert_eq!(c.set_tier(&inv, who, 1), refused);
    assert_eq!(c.set_tier_threshold(&inv, 1, 600 * USDC, 1_200), refused);
    assert_eq!(c.record_fill(&inv, who, who, 1), refused);
    assert_eq!(c.record_failure(&inv, who, who), refused);
    assert_eq!(c.slash(&inv, who, who), Err(Abort::Error(Error::NotInitialized)));
}

#[test]
fn each_call_asks_for_its_own_authorization() {
    let mut ctx = setup();
    ctx.register(FLOOR);
    let inv = Invocation { now: 0, contract: ctx.contract_id, signers: vec![] };
    let (admin, solver) = (ctx.admin, ctx.solver);
    assert_eq!(ctx.c.stake(&inv, solver, 1), Err(Abort::Auth(solver)));
    assert_eq!(ctx.c.unstake(&inv, solver, 1), Err(Abort::Auth(solver)));
    assert_eq!(ctx.c.deregister_solver(&inv, solver), Err(Abort::Auth(solver)));
    assert_eq!(ctx.c.set_writer(&inv, solver), Err(Abort::Auth(admin)));
    assert_eq!(ctx.c.record_fill(&inv, admin, solver, 1), Err(Abort::Auth(admin)));
    assert_eq!(ctx.c.slash(&inv, admin, solver), Err(Abort::Auth(admin)));
}

#[test]
fn mutating_calls_on_an_unknown_solver_are_refused() {
    let mut ctx = setup();
    let (admin, stranger) = (ctx.admin, ctx.solver);
    let refused = Err(Error::SolverNotRegistered);
    assert_eq!(ctx.call(|c, inv| c.stake(inv, stranger, 1)), refused);
    assert_eq!(ctx.try_unstake(stranger, 1), refused);
    assert_eq!(ctx.call(|c, inv| c.deregister_solver(inv, stranger)), refused);
    assert_eq!(ctx.try_record_fill(admin, stranger, 1), refused);
    assert_eq!(ctx.call(|c, inv| c.record_failure(inv, admin, stranger)), refused);
    assert_eq!(
        ctx.attempt(|c, inv| c.slash(inv, admin, stranger)),
        Err(Error::SolverNotRegistered)
    );
}

#[test]
fn a_slash_takes_at_least_one_unit() {
    let mut ctx = setup();
    ctx.register(FLOOR);
    let mut record = ctx.c.get_solver(ctx.solver).unwrap();
    record.bond_amount = 3;
    ctx.c.solvers.set(ctx.solver, record);
    assert_eq!(ctx.slash(ctx.admin, ctx.solver), (1, 0));
    assert_eq!(ctx.c.get_solver(ctx.solver).unwrap().bond_amount, 2);
}

#[test]
fn bonds_on_record_match_what_the_registry_holds() {
    let mut ctx = setup();
    let other = ctx.generate();
    ctx.register(500 * USDC);
    ctx.mint(other, 90 * USDC);
    ctx.try_register_solver(other, 90 * USDC).unwrap();
    ctx.slash(ctx.admin, ctx.solver);
    ctx.try_unstake(other, 40 * USDC).unwrap();
    let bonds = ctx.c.get_solver(ctx.solver).unwrap().bond_amount
        + ctx.c.get_solver(other).unwrap().bond_amount;
    assert_eq!(ctx.balance(ctx.contract_id), bonds);
    assert_eq!(bonds, 500 * USDC);
}

#[test]
fn registry_error_codes() {
    let codes = [
        (Error::AlreadyInitialized, 1),
        (Error::NotInitialized, 2),
        (Error::Unauthorized, 3),
        (Error::SolverNotRegistered, 4),
        (Error::SolverAlreadyRegistered, 5),
        (Error::BondBelowFloor, 6),
        (Error::ZeroAmount, 7),
        (Error::InsufficientBond, 8),
        (Error::InvalidTier, 9),
        (Error::ThresholdOutOfBounds, 10),
        (Error::ThresholdsNotMonotonic, 11),
        (Error::WriterNotSet, 12),
    ];
    for (error, code) in codes {
        assert_eq!(error.code(), code);
    }
}

#[test]
fn registry_limits_are_told_before_the_call() {
    let mut ctx = setup();
    ctx.mint(ctx.solver, FLOOR);
    let (admin, solver) = (ctx.admin, ctx.solver);
    let inv = Invocation { now: 0, contract: ctx.contract_id, signers: vec![admin, solver] };
    assert!(ctx.c.registration_within_limits(&inv, solver, FLOOR));
    ctx.c.solver_count = u32::MAX;
    assert!(!ctx.c.registration_within_limits(&inv, solver, FLOOR));
    assert!(ctx.c.registration_within_limits(&inv, solver, FLOOR - 1));
    ctx.c.solver_count = 0;
    ctx.c.register_solver(&inv, solver, FLOOR).unwrap();
    assert!(ctx.c.stake_within_limits(&inv, solver, i128::MAX - FLOOR));
    assert!(!ctx.c.stake_within_limits(&inv, solver, i128::MAX - FLOOR + 1));
    assert!(ctx.c.fill_report_within_limits(&inv, admin, solver, i128::MAX));
    assert!(ctx.c.failure_report_within_limits(&inv, admin, solver));
    assert!(ctx.c.slash_within_limits(&inv, admin, solver));
    let mut record = ctx.c.get_solver(solver).unwrap();
    record.fills_failed = u32::MAX;
    record.total_volume = 1;
    ctx.c.solvers.set(solver, record);
    assert!(!ctx.c.fill_report_within_limits(&inv, admin, solver, i128::MAX));
    assert!(!ctx.c.failure_report_within_limits(&inv, admin, solver));
    assert!(!ctx.c.slash_within_limits(&inv, admin, solver));
    // A report that is refused anyway is within limits.
    assert!(ctx.c.failure_report_within_limits(&inv, solver, solver));
}

#[test]
fn stored_registry_settings_are_held_to_their_bounds() {
    let mut ctx = setup();
    let solver = ctx.solver;
    assert!(ctx.c.settings_valid());
    ctx.c.assigned_tiers.set(solver, MAX_TIER);
    assert!(ctx.c.settings_valid());
    ctx.c.assigned_tiers.set(solver, 0);
    assert!(!ctx.c.settings_valid());
    ctx.c.assigned_tiers.set(solver, MAX_TIER + 1);
    assert!(!ctx.c.settings_valid());
    ctx.c.assigned_tiers.remove(solver);
    let lowest = ctx.c.thresholds[0];
    ctx.c.thresholds[0] = Threshold { min_bond: 0, ..lowest };
    assert!(!ctx.c.settings_valid());
    ctx.c.thresholds[0] = ctx.c.thresholds[1];
    assert!(!ctx.c.settings_valid());
    ctx.c.thresholds[0] = lowest;
    assert!(ctx.c.settings_valid());
    ctx.c.bond_token = None;
    assert!(!ctx.c.settings_valid());
    ctx.c.bond_token = Some(ctx.bond_token);
    ctx.c.thresholds.pop();
    assert!(!ctx.c.settings_valid());
}
