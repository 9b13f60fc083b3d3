//! What a contract call sees of the ledger, and how a call can end early.
use vstd::prelude::*;
use crate::types::Address;

verus! {

/// The ledger context of one contract call.
pub struct Invocation {
    /// Ledger timestamp, in seconds.
    pub now: u64,
    /// Address of the contract itself.
    pub contract: Address,
    /// Addresses that have authorized this call.
    pub signers: Vec<Address>,
}

/// Why a call changed nothing.
#[derive(Clone, Copy, Debug, PartialEq, Eq)]
pub enum Abort<E> {
    /// The contract refused the request.
    Error(E),
    /// The call needs the authorization of this address and does not have it.
    Auth(Address),
}

/// The contract's own refusal.
pub open spec fn because<E>(error: E) -> Abort<E> {
    Abort::Error(error)
}

/// The answer to the first of these faults, from the `i`-th on, that a request
/// has.
pub open spec fn first_fault<E>(faults: Seq<(bool, Abort<E>)>, i: int) -> Option<Abort<E>>
    decreases faults.len() - i,
{
    if i < 0 || i >= faults.len() {
        None
    } else if faults[i].0 {
        Some(faults[i].1)
    } else {
        first_fault(faults, i + 1)
    }
}

/// An address that is recorded has not signed.
pub open spec fn lacks(role: Option<Address>, inv: Invocation) -> bool {
    role matches Some(who) && !inv.signed(who)
}

/// An address has authorized a call if it is among those that signed it, in
/// whatever place, and only then.
pub proof fn lemma_signed(inv: Invocation, who: Address)
    ensures
        inv.signed(who) <==> exists|i: int|
            0 <= i < inv.signers@.len() && #[trigger] inv.signers@[i] == who,
{
}

impl Invocation {
    /// Whether `who` has authorized the call.
    pub open spec fn signed(self, who: Address) -> bool {
        self.signers@.contains(who)
    }

    /// Whether `who` has authorized the call.
    pub fn has_signed(&self, who: Address) -> (r: bool)
        ensures
            r == self.signed(who),
    {
        let mut i: usize = 0;
        while i < self.signers.len()
            invariant
                i <= self.signers@.len(),
                forall|j: int| 0 <= j < i ==> self.signers@[j] != who,
            decreases self.signers@.len() - i,
        {
            if self.signers[i] == who {
                return true;
            }
            i += 1;
        }
        false
    }
}

} // verus!
