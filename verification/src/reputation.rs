//! Solver reputation: a success rate weighed by volume.
use vstd::prelude::*;

verus! {

/// The volume at which a solver has earned half of the volume bonus.
pub const VOLUME_SCALE: u128 = 1_000_000_000_000;

/// Success rate of a solver in basis points.
pub open spec fn success_bps(completed: int, failed: int) -> int {
    completed * 10_000 / (completed + failed)
}

/// A volume, as far as it counts.
pub open spec fn counted(volume: int) -> int {
    if volume > 0 {
        volume
    } else {
        0
    }
}

/// What a success rate is weighed with, in basis points: about 9 000 for a
/// solver without volume, approaching 10 000 as volume grows. `offset` is a
/// volume that every solver is credited with.
pub open spec fn volume_weight_bps(volume: int, offset: int) -> int {
    10_000 - VOLUME_SCALE * 10_000 / (VOLUME_SCALE + counted(volume) + offset) / 10
}

/// A reputation in basis points: the success rate, of which a tenth has to be
/// earned by volume. Without fills there is none.
pub open spec fn score(completed: int, failed: int, volume: int, offset: int) -> int {
    if completed + failed == 0 {
        0
    } else {
        success_bps(completed, failed) * volume_weight_bps(volume, offset) / 10_000
    }
}

proof fn lemma_success_bounds(completed: int, failed: int)
    requires
        0 <= completed,
        0 <= failed,
        0 < completed + failed,
    ensures
        0 <= success_bps(completed, failed) <= 10_000,
{
    let all = completed + failed;
    assert(0 <= completed * 10_000 / all <= 10_000) by (nonlinear_arith)
        requires
            0 <= completed <= all,
            0 < all,
    ;
}

proof fn lemma_weight_bounds(volume: int, offset: int)
    requires
        0 <= offset,
    ensures
        9_000 <= volume_weight_bps(volume, offset) <= 10_000,
{
    let whole = VOLUME_SCALE + counted(volume) + offset;
    assert(0 <= 10_000_000_000_000_000int / whole <= 10_000) by (nonlinear_arith)
        requires
            whole >= 1_000_000_000_000,
    ;
}

/// Reputation is a number of basis points.
pub proof fn lemma_score_bounds(completed: int, failed: int, volume: int, offset: int)
    requires
        0 <= completed,
        0 <= failed,
        0 <= offset,
    ensures
        0 <= score(completed, failed, volume, offset) <= 10_000,
{
    if completed + failed > 0 {
        let base = success_bps(completed, failed);
        let weight = volume_weight_bps(volume, offset);
        lemma_success_bounds(completed, failed);
        lemma_weight_bounds(volume, offset);
        assert(0 <= base * weight <= 10_000 * 10_000) by (nonlinear_arith)
            requires
                0 <= base <= 10_000,
                0 <= weight <= 10_000,
        ;
    }
}

/// The edges of the scale: nothing for a solver that never completed a fill;
/// for one that never failed, at least 9 000, and exactly 9 000 without any
/// volume.
pub proof fn lemma_score_edges(completed: int, failed: int, volume: int, offset: int)
    requires
        0 <= offset,
    ensures
        completed == 0 ==> score(completed, failed, volume, offset) == 0,
        completed > 0 && failed == 0 ==> score(completed, failed, volume, offset) >= 9_000,
        completed > 0 && failed == 0 && volume <= 0 && offset == 0 ==> score(
            completed,
            failed,
            volume,
            offset,
        ) == 9_000,
{
    if completed == 0 && failed != 0 {
        assert(0int * 10_000 / failed == 0) by (nonlinear_arith)
            requires
                failed != 0,
        ;
        assert(success_bps(completed, failed) == 0);
        assert(0 * volume_weight_bps(volume, offset) == 0);
    }
    if completed > 0 && failed == 0 {
        assert(completed * 10_000 / completed == 10_000) by (nonlinear_arith)
            requires
                completed > 0,
        ;
        assert(success_bps(completed, failed) == 10_000);
        lemma_weight_bounds(volume, offset);
        if volume <= 0 && offset == 0 {
            let whole = VOLUME_SCALE + counted(volume) + offset;
            assert(VOLUME_SCALE * 10_000 / whole == 10_000) by (nonlinear_arith)
                requires
                    whole == VOLUME_SCALE,
                    VOLUME_SCALE > 0,
            ;
            assert(volume_weight_bps(volume, offset) == 9_000);
        }
    }
}

/// What it means that `score` weighs a solver's completed fills with its volume:
/// `rate` is the share of completed fills in basis points, `decay` the part of
/// the volume bonus that is still to be earned, in basis points as well, and a
/// tenth of it is taken off the rate. Each is rounded down. Half of the bonus is
/// earned at a volume of 100 000 USDC; only a positive volume counts, with
/// `offset` on top.
pub open spec fn weighs(
    completed: int,
    failed: int,
    volume: int,
    offset: int,
    rate: int,
    decay: int,
    score: int,
) -> bool {
    let all = completed + failed;
    let scale = 1_000_000_000_000 + offset + if volume > 0 {
        volume
    } else {
        0
    };
    &&& rate * all <= completed * 10_000 < (rate + 1) * all
    &&& decay * scale <= 10_000_000_000_000_000 < (decay + 1) * scale
    &&& score * 10_000 <= rate * (10_000 - decay / 10) < (score + 1) * 10_000
}

/// A solver without fills has no reputation; that of any other weighs its
/// completed fills with its volume, of which only what is positive counts, and
/// the volume that every solver is credited with.
pub proof fn lemma_score_characterized(completed: int, failed: int, volume: int, offset: int)
    requires
        0 <= completed,
        0 <= failed,
        0 <= offset,
    ensures
        completed + failed == 0 ==> score(completed, failed, volume, offset) == 0,
        completed + failed > 0 ==> exists|rate: int, decay: int| #[trigger]
            weighs(
                completed,
                failed,
                volume,
                offset,
                rate,
                decay,
                score(completed, failed, volume, offset),
            ),
{
    if completed + failed > 0 {
        let all = completed + failed;
        let scale = 1_000_000_000_000 + offset + if volume > 0 {
            volume
        } else {
            0
        };
        let rate = success_bps(completed, failed);
        let decay = 10_000_000_000_000_000int / scale;
        assert(rate * all <= completed * 10_000 < (rate + 1) * all) by (nonlinear_arith)
            requires
                rate == completed * 10_000 / all,
                all > 0,
        ;
        assert(decay * scale <= 10_000_000_000_000_000 < (decay + 1) * scale) by (nonlinear_arith)
            requires
                decay == 10_000_000_000_000_000int / scale,
                scale > 0,
        ;
        assert(scale == VOLUME_SCALE + counted(volume) + offset);
        assert(VOLUME_SCALE * 10_000 == 10_000_000_000_000_000);
        assert(volume_weight_bps(volume, offset) == 10_000 - decay / 10);
        let result = score(completed, failed, volume, offset);
        assert(weighs(completed, failed, volume, offset, rate, decay, result));
    }
}

/// Reputation never falls by more volume or more completed fills, and never
/// rises by more failed ones.
pub proof fn lemma_score_monotone(
    c1: int,
    f1: int,
    v1: int,
    c2: int,
    f2: int,
    v2: int,
    offset: int,
)
    requires
        0 <= c1 <= c2,
        0 <= f2 <= f1,
        v1 <= v2,
        0 <= offset,
    ensures
        score(c1, f1, v1, offset) <= score(c2, f2, v2, offset),
{
    lemma_score_bounds(c1, f1, v1, offset);
    lemma_score_bounds(c2, f2, v2, offset);
    if c1 + f1 > 0 && c2 + f2 > 0 {
        lemma_success_bounds(c1, f1);
        lemma_success_bounds(c2, f2);
        lemma_weight_bounds(v1, offset);
        lemma_weight_bounds(v2, offset);
        let (b1, b2) = (success_bps(c1, f1), success_bps(c2, f2));
        let (t1, t2) = (c1 + f1, c2 + f2);
        assert(b1 <= b2) by {
            assert(c1 * f2 <= c2 * f1) by (nonlinear_arith)
                requires
                    0 <= c1 <= c2,
                    0 <= f2 <= f1,
            ;
            assert(c1 * t2 <= c2 * t1) by (nonlinear_arith)
                requires
                    c1 * f2 <= c2 * f1,
                    t1 == c1 + f1,
                    t2 == c2 + f2,
            ;
            assert(b1 * t1 <= c1 * 10_000) by (nonlinear_arith)
                requires
                    b1 == c1 * 10_000 / t1,
                    t1 > 0,
            ;
            assert(c2 * 10_000 < (b2 + 1) * t2) by (nonlinear_arith)
                requires
                    b2 == c2 * 10_000 / t2,
                    t2 > 0,
            ;
            if b1 >= b2 + 1 {
                assert(false) by (nonlinear_arith)
                    requires
                        b1 >= b2 + 1,
                        b1 * t1 <= c1 * 10_000,
                        c2 * 10_000 < (b2 + 1) * t2,
                        c1 * t2 <= c2 * t1,
                        t1 > 0,
                        t2 > 0,
                ;
            }
        }
        let (w1, w2) = (volume_weight_bps(v1, offset), volume_weight_bps(v2, offset));
        assert(w1 <= w2) by {
            let (d1, d2) = (
                VOLUME_SCALE + counted(v1) + offset,
                VOLUME_SCALE + counted(v2) + offset,
            );
            assert(10_000_000_000_000_000int / d2 <= 10_000_000_000_000_000int / d1)
                by (nonlinear_arith)
                requires
                    0 < d1 <= d2,
            ;
        }
        assert(b1 * w1 <= b2 * w2) by (nonlinear_arith)
            requires
                0 <= b1 <= b2,
                0 <= w1 <= w2,
        ;
    } else if c1 + f1 > 0 {
        lemma_score_edges(c1, f1, v1, offset);
    }
}

/// A reputation in basis points; `offset` is a volume that every solver is
/// credited with.
pub fn compute_score(completed: u32, failed: u32, volume: i128, offset: u8) -> (r: u32)
    ensures
        r == score(completed as int, failed as int, volume as int, offset as int),
{
    let all: u64 = completed as u64 + failed as u64;
    if all == 0 {
        return 0;
    }
    proof {
        lemma_success_bounds(completed as int, failed as int);
        lemma_weight_bounds(volume as int, offset as int);
        lemma_score_bounds(completed as int, failed as int, volume as int, offset as int);
    }
    let base: u64 = completed as u64 * 10_000 / all;
    let positive: u128 = if volume > 0 {
        volume as u128
    } else {
        0
    };
    let decay: u128 = VOLUME_SCALE * 10_000 / (VOLUME_SCALE + positive + offset as u128);
    let weight: u64 = 10_000 - (decay / 10) as u64;
    assert(weight == volume_weight_bps(volume as int, offset as int));
    assert(0 <= base * weight <= 100_000_000) by (nonlinear_arith)
        requires
            0 <= base <= 10_000,
            0 <= weight <= 10_000,
    ;
    (base * weight / 10_000) as u32
}

} // verus!
