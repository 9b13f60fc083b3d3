//! The tier table: thresholds, perks and lookup.
use vstd::prelude::*;
use crate::solver_registry::types::{Error, Threshold, TierInfo, MAX_MIN_BOND, MAX_MIN_SCORE_BPS,
    MAX_TIER, USDC};

verus! {

/// The thresholds of a new registry.
pub open spec fn default_thresholds() -> Seq<Threshold> {
    seq![
        Threshold { min_bond: 500_000_000, min_score_bps: 0 },
        Threshold { min_bond: 5_000_000_000, min_score_bps: 1_000 },
        Threshold { min_bond: 20_000_000_000, min_score_bps: 3_500 },
        Threshold { min_bond: 100_000_000_000, min_score_bps: 7_000 },
        Threshold { min_bond: 500_000_000_000, min_score_bps: 9_000 },
    ]
}

/// Values that a threshold may have.
pub open spec fn in_bounds(t: Threshold) -> bool {
    1 <= t.min_bond <= MAX_MIN_BOND && t.min_score_bps <= MAX_MIN_SCORE_BPS
}

/// A threshold is below another on both axes.
pub open spec fn below(low: Threshold, high: Threshold) -> bool {
    low.min_bond < high.min_bond && low.min_score_bps < high.min_score_bps
}

/// A table that the registry can be in: one row per tier, within bounds, each
/// row above the one before it on both axes.
pub open spec fn well_ordered(rows: Seq<Threshold>) -> bool {
    &&& rows.len() == MAX_TIER + 1
    &&& forall|i: int| 0 <= i < rows.len() ==> in_bounds(#[trigger] rows[i])
    &&& forall|i: int, j: int|
        0 <= i < j < rows.len() ==> below(#[trigger] rows[i], #[trigger] rows[j])
}

/// Whether a table is one that the registry can be in.
pub(crate) fn rows_well_ordered(rows: &Vec<Threshold>) -> (r: bool)
    ensures
        r == well_ordered(rows@),
{
    if rows.len() != MAX_TIER as usize + 1 {
        return false;
    }
    let mut i: usize = 0;
    while i < rows.len()
        invariant
            i <= rows@.len(),
            rows@.len() == MAX_TIER + 1,
            forall|a: int| 0 <= a < i ==> in_bounds(#[trigger] rows@[a]),
            forall|a: int, b: int|
                0 <= a < b < i ==> below(#[trigger] rows@[a], #[trigger] rows@[b]),
        decreases rows@.len() - i,
    {
        let row = rows[i];
        if row.min_bond < 1 || row.min_bond > MAX_MIN_BOND || row.min_score_bps
            > MAX_MIN_SCORE_BPS {
            assert(!in_bounds(rows@[i as int]));
            return false;
        }
        if i > 0 {
            let lower = rows[i - 1];
            if row.min_bond <= lower.min_bond || row.min_score_bps <= lower.min_score_bps {
                assert(!below(rows@[i - 1], rows@[i as int]));
                return false;
            }
            assert forall|a: int| 0 <= a < i implies below(
                #[trigger] rows@[a],
                rows@[i as int],
            ) by {
                if a < i - 1 {
                    assert(below(rows@[a], rows@[i - 1]));
                }
            }
        }
        i += 1;
    }
    true
}

/// Whether a score and a bond clear both gates of a row.
pub open spec fn clears(row: Threshold, score_bps: int, bond: int) -> bool {
    bond >= row.min_bond && score_bps >= row.min_score_bps
}

/// The highest tier, up to `top`, whose gates a score and a bond clear; the
/// lowest tier is open to all.
pub open spec fn highest_cleared(
    rows: Seq<Threshold>,
    top: nat,
    score_bps: int,
    bond: int,
) -> nat
    decreases top,
{
    if top == 0 || clears(rows[top as int], score_bps, bond) {
        top
    } else {
        highest_cleared(rows, (top - 1) as nat, score_bps, bond)
    }
}

/// The tier that a score and a bond earn.
pub open spec fn earned_tier(rows: Seq<Threshold>, score_bps: int, bond: int) -> nat {
    highest_cleared(rows, MAX_TIER as nat, score_bps, bond)
}

/// Extra fill window of a tier, in percent.
pub open spec fn bonus_pct(tier: int) -> u32 {
    if tier == 1 {
        10
    } else if tier == 2 {
        20
    } else if tier == 3 {
        30
    } else if tier == 4 {
        50
    } else {
        0
    }
}

/// Part of the bond that a slash takes in a tier, in basis points.
pub open spec fn slash_rate(tier: int) -> u32 {
    if tier == 2 {
        800
    } else if tier == 3 {
        600
    } else if tier == 4 {
        500
    } else {
        1_000
    }
}

/// A row of the tier table.
pub open spec fn tier_info(row: Threshold, tier: int) -> TierInfo {
    TierInfo {
        min_bond: row.min_bond,
        min_score_bps: row.min_score_bps,
        fill_window_bonus_pct: bonus_pct(tier),
        slash_bps: slash_rate(tier),
        fee_rebate_bps: 0,
    }
}

/// A perk of a tier, where there is such a tier.
pub open spec fn perk(tier: u32, value: u32) -> Result<u32, Error> {
    if tier > MAX_TIER {
        Err(Error::InvalidTier)
    } else {
        Ok(value)
    }
}

/// A new registry's table is well ordered.
pub proof fn lemma_default_thresholds()
    ensures
        well_ordered(default_thresholds()),
{
}

/// In a well-ordered table a tier's gates are cleared exactly by those who
/// have earned that tier or a higher one; so the earned tier is the highest
/// whose gates are cleared.
pub proof fn lemma_earned_tier(rows: Seq<Threshold>, score_bps: int, bond: int, tier: nat)
    requires
        well_ordered(rows),
        1 <= tier <= MAX_TIER,
    ensures
        earned_tier(rows, score_bps, bond) <= MAX_TIER,
        clears(rows[tier as int], score_bps, bond) <==> tier <= earned_tier(rows, score_bps, bond),
{
    reveal_with_fuel(highest_cleared, 6);
    assert(forall|i: int, j: int|
        0 <= i < j < rows.len() && clears(#[trigger] rows[j], score_bps, bond) ==> clears(
            #[trigger] rows[i],
            score_bps,
            bond,
        )) by {
        assert forall|i: int, j: int|
            0 <= i < j < rows.len() && clears(#[trigger] rows[j], score_bps, bond) implies clears(
            #[trigger] rows[i],
            score_bps,
            bond,
        ) by {
            assert(below(rows[i], rows[j]));
        }
    }
}

/// A better score or a larger bond never earns a lower tier.
pub proof fn lemma_earned_tier_monotone(
    rows: Seq<Threshold>,
    score_a: int,
    bond_a: int,
    score_b: int,
    bond_b: int,
)
    requires
        well_ordered(rows),
        score_a <= score_b,
        bond_a <= bond_b,
    ensures
        earned_tier(rows, score_a, bond_a) <= earned_tier(rows, score_b, bond_b),
{
    let a = earned_tier(rows, score_a, bond_a);
    lemma_earned_tier(rows, score_a, bond_a, 1);
    if a > 0 {
        lemma_earned_tier(rows, score_a, bond_a, a);
        lemma_earned_tier(rows, score_b, bond_b, a);
    }
}

/// Higher tiers are slashed no harder and get no shorter fill window.
pub proof fn lemma_perks_improve(low: int, high: int)
    requires
        0 <= low <= high <= MAX_TIER,
    ensures
        slash_rate(high) <= slash_rate(low),
        bonus_pct(low) <= bonus_pct(high),
{
}

/// The thresholds of a new registry.
pub fn seed_thresholds() -> (r: Vec<Threshold>)
    ensures
        r@ == default_thresholds(),
{
    let rows = vec![
        Threshold { min_bond: 50 * USDC, min_score_bps: 0 },
        Threshold { min_bond: 500 * USDC, min_score_bps: 1_000 },
        Threshold { min_bond: 2_000 * USDC, min_score_bps: 3_500 },
        Threshold { min_bond: 10_000 * USDC, min_score_bps: 7_000 },
        Threshold { min_bond: 50_000 * USDC, min_score_bps: 9_000 },
    ];
    assert(rows@ =~= default_thresholds());
    rows
}

/// The tier that a score and a bond earn in a table.
pub fn lookup_tier(rows: &Vec<Threshold>, score_bps: u32, bond_amount: i128) -> (r: u32)
    requires
        well_ordered(rows@),
    ensures
        r == earned_tier(rows@, score_bps as int, bond_amount as int),
{
    let mut tier: u32 = MAX_TIER;
    while tier > 0 && !(bond_amount >= rows[tier as usize].min_bond && score_bps
        >= rows[tier as usize].min_score_bps)
        invariant
            well_ordered(rows@),
            tier <= MAX_TIER,
            earned_tier(rows@, score_bps as int, bond_amount as int) == highest_cleared(
                rows@,
                tier as nat,
                score_bps as int,
                bond_amount as int,
            ),
        decreases tier,
    {
        tier = tier - 1;
    }
    tier
}

/// Extra fill window of a tier, in percent; nothing where there is no such
/// tier.
pub fn fill_window_bonus(tier: u32) -> (r: u32)
    ensures
        r == bonus_pct(tier as int),
{
    if tier == 1 {
        10
    } else if tier == 2 {
        20
    } else if tier == 3 {
        30
    } else if tier == 4 {
        50
    } else {
        0
    }
}

/// Part of the bond that a slash takes, in basis points; the harshest rate
/// where there is no such tier.
pub fn slash_share(tier: u32) -> (r: u32)
    ensures
        r == slash_rate(tier as int),
{
    if tier == 2 {
        800
    } else if tier == 3 {
        600
    } else if tier == 4 {
        500
    } else {
        1_000
    }
}

} // verus!
