//! Volume-tiered protocol fees and solver reputation.
use vstd::prelude::*;
use crate::reputation::{compute_score, score};
use crate::settlement::state::{ascending_tiers, IntentSettlement, State};
use crate::settlement::types::{Solver, SolverRecord, BPS_DENOMINATOR};
use crate::types::Address;

verus! {

/// How many leading tiers a volume has reached.
pub open spec fn tiers_reached(tiers: Seq<(i128, u32)>, volume: int) -> nat
    decreases tiers.len(),
{
    if tiers.len() == 0 {
        0
    } else if volume >= tiers.last().0 {
        tiers.len()
    } else {
        tiers_reached(tiers.drop_last(), volume)
    }
}

/// The discount that a volume earns: that of the highest tier it has reached,
/// in basis points of the fee.
pub open spec fn discount_for(tiers: Seq<(i128, u32)>, volume: int) -> int {
    let reached = tiers_reached(tiers, volume);
    if reached == 0 {
        0
    } else {
        tiers[reached - 1].1 as int
    }
}

/// A fee rate after a discount.
pub open spec fn discounted(base: int, discount_bps: int) -> int {
    base - base * discount_bps / 10_000
}

impl State {
    /// The volume a solver has filled; nothing for one that is not registered.
    pub open spec fn volume_of(self, solver: Address) -> int {
        if self.solvers.contains_key(solver) {
            self.solvers[solver].total_volume
        } else {
            0
        }
    }

    /// The fee rate that `solver` pays on a fill.
    pub open spec fn fee_bps(self, solver: Address) -> int {
        discounted(
            self.effective_config().protocol_fee_bps as int,
            discount_for(self.fee_discount_tiers, self.volume_of(solver)),
        )
    }
}

/// In an ascending schedule the tiers a volume has reached are the first ones.
pub proof fn lemma_tiers_reached(tiers: Seq<(i128, u32)>, volume: int)
    requires
        ascending_tiers(tiers),
    ensures
        tiers_reached(tiers, volume) <= tiers.len(),
        forall|i: int|
            0 <= i < tiers.len() ==> (volume >= (#[trigger] tiers[i]).0 <==> i < tiers_reached(
                tiers,
                volume,
            )),
    decreases tiers.len(),
{
    if tiers.len() > 0 && volume < tiers.last().0 {
        let rest = tiers.drop_last();
        assert(ascending_tiers(rest)) by {
            assert(forall|i: int| 0 <= i < rest.len() ==> rest[i] == tiers[i]);
        }
        lemma_tiers_reached(rest, volume);
        assert forall|i: int| 0 <= i < tiers.len() implies (volume >= (#[trigger] tiers[i]).0 <==> i
            < tiers_reached(tiers, volume)) by {
            if i < rest.len() {
                assert(rest[i] == tiers[i]);
            }
        }
    }
}

impl IntentSettlement {
    /// The effective protocol fee in basis points for `solver`: the configured
    /// rate, reduced by the discount of the highest volume tier that the
    /// solver has reached.
    pub fn get_tiered_fee_bps(&self, solver: Address) -> (r: i128)
        requires
            self.wf(),
        ensures
            r == self@.fee_bps(solver),
            0 <= r <= self@.effective_config().protocol_fee_bps,
    {
        let base: i128 = self.load_config().protocol_fee_bps;
        let volume: i128 = match self.solvers.get(solver) {
            Some(record) => record.total_volume,
            None => 0,
        };
        assert(volume == self@.volume_of(solver));
        let ghost tiers = self.fee_discount_tiers@;
        proof {
            lemma_tiers_reached(tiers, volume as int);
        }
        let mut discount: i128 = 0;
        let mut i: usize = 0;
        while i < self.fee_discount_tiers.len() && volume >= self.fee_discount_tiers[i].0
            invariant
                self.wf(),
                tiers == self.fee_discount_tiers@,
                i <= tiers.len(),
                i <= tiers_reached(tiers, volume as int) <= tiers.len(),
                forall|k: int|
                    0 <= k < tiers.len() ==> (volume >= (#[trigger] tiers[k]).0 <==> k
                        < tiers_reached(tiers, volume as int)),
                discount == if i == 0 {
                    0
                } else {
                    tiers[i - 1].1 as int
                },
            decreases tiers.len() - i,
        {
            assert(tiers[i as int].1 <= 10_000);
            discount = self.fee_discount_tiers[i].1 as i128;
            i += 1;
        }
        assert(i == tiers_reached(tiers, volume as int));
        assert(0 <= discount <= 10_000) by {
            if i > 0 {
                assert(tiers[i - 1].1 <= 10_000);
            }
        }
        assert(0 <= base * discount <= base * 10_000) by (nonlinear_arith)
            requires
                0 <= base,
                0 <= discount <= 10_000,
        ;
        let reduction: i128 = base * discount / BPS_DENOMINATOR;
        base - reduction
    }
}

/// A solver's reputation in basis points.
pub open spec fn reputation(record: Solver) -> int {
    score(record.fills_completed, record.fills_failed, record.total_volume, 0)
}

impl IntentSettlement {
    /// The reputation of a solver with this record, from 0 to 10 000 basis
    /// points: its success rate, of which a solver without volume gets nine
    /// tenths and one with high volume close to all.
    pub fn compute_reputation_score(record: SolverRecord) -> (r: u32)
        ensures
            r == reputation(record@),
    {
        compute_score(record.fills_completed, record.fills_failed, record.total_volume, 0)
    }
}

} // verus!
