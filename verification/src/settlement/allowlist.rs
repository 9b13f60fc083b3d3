//! Allowlists of destination tokens and source chains, and per-token bond
//! multipliers.
use vstd::prelude::*;
use crate::context::{Abort, Invocation};
use crate::settlement::admin::{as_admin, eta, eta_fits};
use crate::settlement::intent_rules::emit;
use crate::settlement::state::{refuse, IntentSettlement, State, Step};
use crate::settlement::types::{Effect, Error, Event, ADMIN_TIMELOCK_DELAY};
use crate::types::{copy_bytes, Address};

verus! {

/// `list` with `item` at its end, unless it is there already.
pub open spec fn with_item(list: Seq<Address>, item: Address) -> Seq<Address> {
    if list.contains(item) {
        list
    } else {
        list.push(item)
    }
}

/// `list` without `item`.
pub open spec fn without_item(list: Seq<Address>, item: Address) -> Seq<Address>
    decreases list.len(),
{
    if list.len() == 0 {
        list
    } else if list.last() == item {
        without_item(list.drop_last(), item)
    } else {
        without_item(list.drop_last(), item).push(list.last())
    }
}

/// The admin proposes a destination token. `is_token` tells whether the address
/// answered as a token.
pub open spec fn propose_add_step(
    s: State,
    inv: Invocation,
    token: Address,
    is_token: bool,
) -> Step {
    as_admin(
        s,
        inv,
        if !is_token {
            refuse(Error::InvalidTokenInterface)
        } else {
            Step::Done {
                next: State {
                    pending_dst_token_adds: s.pending_dst_token_adds.insert(token, eta(inv)),
                    ..s
                },
                effects: seq![
                    Effect::ExtendInstance,
                    emit(Event::DstTokenAddProposed { token, eta: eta(inv) }),
                ],
            }
        },
    )
}

/// Anyone applies a proposed addition after the timelock.
pub open spec fn execute_add_step(s: State, inv: Invocation, token: Address) -> Step {
    if !s.pending_dst_token_adds.contains_key(token) {
        refuse(Error::NoPendingDstTokenChange)
    } else if inv.now < s.pending_dst_token_adds[token] {
        refuse(Error::TimelockNotElapsed)
    } else {
        Step::Done {
            next: State {
                pending_dst_token_adds: s.pending_dst_token_adds.remove(token),
                allowed_dst_tokens: s.allowed_dst_tokens.insert(token),
                allowed_dst_token_list: with_item(s.allowed_dst_token_list, token),
                ..s
            },
            effects: seq![Effect::ExtendInstance, emit(Event::DstTokenAllowed { token })],
        }
    }
}

/// The admin proposes the removal of a destination token.
pub open spec fn propose_remove_step(s: State, inv: Invocation, token: Address) -> Step {
    as_admin(
        s,
        inv,
        Step::Done {
            next: State {
                pending_dst_token_removes: s.pending_dst_token_removes.insert(token, eta(inv)),
                ..s
            },
            effects: seq![
                Effect::ExtendInstance,
                emit(Event::DstTokenRemoveProposed { token, eta: eta(inv) }),
            ],
        },
    )
}

/// Anyone applies a proposed removal after the timelock.
pub open spec fn execute_remove_step(s: State, inv: Invocation, token: Address) -> Step {
    if !s.pending_dst_token_removes.contains_key(token) {
        refuse(Error::NoPendingDstTokenChange)
    } else if inv.now < s.pending_dst_token_removes[token] {
        refuse(Error::TimelockNotElapsed)
    } else {
        Step::Done {
            next: State {
                pending_dst_token_removes: s.pending_dst_token_removes.remove(token),
                allowed_dst_tokens: s.allowed_dst_tokens.remove(token),
                allowed_dst_token_list: without_item(s.allowed_dst_token_list, token),
                ..s
            },
            effects: seq![Effect::ExtendInstance, emit(Event::DstTokenDisallowed { token })],
        }
    }
}

/// The admin turns the destination allowlist on or off.
pub open spec fn enable_dst_step(s: State, inv: Invocation, enabled: bool) -> Step {
    as_admin(
        s,
        inv,
        Step::Done {
            next: State { dst_allowlist_enabled: enabled, ..s },
            effects: seq![Effect::ExtendInstance, emit(Event::DstAllowlistEnabled { enabled })],
        },
    )
}

/// The admin sets the bond multiplier of a token, in tenths.
pub open spec fn set_multiplier_step(
    s: State,
    inv: Invocation,
    token: Address,
    multiplier: i128,
) -> Step {
    as_admin(
        s,
        inv,
        if multiplier <= 0 {
            refuse(Error::ZeroAmount)
        } else {
            Step::Done {
                next: State {
                    min_bond_multipliers: s.min_bond_multipliers.insert(token, multiplier),
                    ..s
                },
                effects: seq![
                    Effect::ExtendInstance,
                    emit(Event::BondMultiplierSet { token, multiplier }),
                ],
            }
        },
    )
}

/// The admin allows a source chain.
pub open spec fn allow_chain_step(s: State, inv: Invocation, chain: Vec<u8>) -> Step {
    as_admin(
        s,
        inv,
        Step::Done {
            next: State { allowed_src_chains: s.allowed_src_chains.insert(chain@), ..s },
            effects: seq![Effect::ExtendInstance, emit(Event::SrcChainAllowed { chain })],
        },
    )
}

/// The admin disallows a source chain.
pub open spec fn disallow_chain_step(s: State, inv: Invocation, chain: Vec<u8>) -> Step {
    as_admin(
        s,
        inv,
        Step::Done {
            next: State { allowed_src_chains: s.allowed_src_chains.remove(chain@), ..s },
            effects: seq![Effect::ExtendInstance, emit(Event::SrcChainDisallowed { chain })],
        },
    )
}

/// The admin turns the source-chain allowlist on or off.
pub open spec fn enable_chains_step(s: State, inv: Invocation, enabled: bool) -> Step {
    as_admin(
        s,
        inv,
        Step::Done {
            next: State { src_chain_allowlist_enabled: enabled, ..s },
            effects: seq![Effect::ExtendInstance],
        },
    )
}

/// Puts `item` at the end of `list`, unless it is there already.
fn add_to_list(list: &mut Vec<Address>, item: Address)
    ensures
        final(list)@ == with_item(old(list)@, item),
{
    let mut i: usize = 0;
    while i < list.len()
        invariant
            i <= list@.len(),
            list@ == old(list)@,
            forall|j: int| 0 <= j < i ==> list@[j] != item,
        decreases list@.len() - i,
    {
        if list[i] == item {
            return;
        }
        i += 1;
    }
    list.push(item);
}

/// The list without `item`.
fn remove_from_list(list: &Vec<Address>, item: Address) -> (r: Vec<Address>)
    ensures
        r@ == without_item(list@, item),
{
    let mut kept: Vec<Address> = Vec::new();
    let mut i: usize = 0;
    assert(list@.take(0) =~= Seq::<Address>::empty());
    while i < list.len()
        invariant
            i <= list@.len(),
            kept@ == without_item(list@.take(i as int), item),
        decreases list@.len() - i,
    {
        assert(list@.take(i + 1).drop_last() =~= list@.take(i as int));
        if list[i] != item {
            kept.push(list[i]);
        }
        i += 1;
    }
    assert(list@.take(i as int) =~= list@);
    kept
}

impl IntentSettlement {
    /// Admin-only: proposes a destination token, which may enter the allowlist after
    /// the timelock. `is_token` tells whether the address answered a query of its
    /// decimals, as a token does.
    pub fn propose_add_dst_token(
        &mut self,
        inv: &Invocation,
        token: Address,
        is_token: bool,
    ) -> (r: Result<Vec<Effect>, Abort<Error>>)
        requires
            old(self).wf(),
            is_token ==> eta_fits(old(self)@, *inv),
        ensures
            final(self).wf(),
            propose_add_step(old(self)@, *inv, token, is_token).describes(
                old(self)@,
                final(self)@,
                r,
            ),
    {
        let ghost s = self@;
        if let Some(abort) = self.require_admin(inv) {
            return Err(abort);
        }
        if !is_token {
            return Err(Abort::Error(Error::InvalidTokenInterface));
        }
        let eta: u64 = inv.now + ADMIN_TIMELOCK_DELAY;
        self.pending_dst_token_adds.set(token, eta);
        let effects = vec![
            Effect::ExtendInstance,
            Effect::Emit { event: Event::DstTokenAddProposed { token, eta } },
        ];
        proof {
            let step = propose_add_step(s, *inv, token, is_token);
            assert(effects@ =~= step->effects);
            assert(self@ =~= step->next);
        }
        Ok(effects)
    }

    /// Anyone applies a proposed addition once its timelock has run out.
    pub fn execute_add_dst_token(
        &mut self,
        inv: &Invocation,
        token: Address,
    ) -> (r: Result<Vec<Effect>, Abort<Error>>)
        requires
            old(self).wf(),
        ensures
            final(self).wf(),
            execute_add_step(old(self)@, *inv, token).describes(old(self)@, final(self)@, r),
    {
        let ghost s = self@;
        match self.pending_dst_token_adds.get(token) {
            None => {
                return Err(Abort::Error(Error::NoPendingDstTokenChange));
            },
            Some(ready) => {
                if inv.now < *ready {
                    return Err(Abort::Error(Error::TimelockNotElapsed));
                }
            },
        }
        self.pending_dst_token_adds.remove(token);
        self.allowed_dst_tokens.set(token, ());
        add_to_list(&mut self.allowed_dst_token_list, token);
        let effects = vec![
            Effect::ExtendInstance,
            Effect::Emit { event: Event::DstTokenAllowed { token } },
        ];
        proof {
            let step = execute_add_step(s, *inv, token);
            assert(effects@ =~= step->effects);
            assert(self@ =~= step->next);
        }
        Ok(effects)
    }

    /// Admin-only: proposes the removal of a destination token, which may leave the
    /// allowlist after the timelock.
    pub fn propose_remove_dst_token(
        &mut self,
        inv: &Invocation,
        token: Address,
    ) -> (r: Result<Vec<Effect>, Abort<Error>>)
        requires
            old(self).wf(),
            eta_fits(old(self)@, *inv),
        ensures
            final(self).wf(),
            propose_remove_step(old(self)@, *inv, token).describes(old(self)@, final(self)@, r),
    {
        let ghost s = self@;
        if let Some(abort) = self.require_admin(inv) {
            return Err(abort);
        }
        let eta: u64 = inv.now + ADMIN_TIMELOCK_DELAY;
        self.pending_dst_token_removes.set(token, eta);
        let effects = vec![
            Effect::ExtendInstance,
            Effect::Emit { event: Event::DstTokenRemoveProposed { token, eta } },
        ];
        proof {
            let step = propose_remove_step(s, *inv, token);
            assert(effects@ =~= step->effects);
            assert(self@ =~= step->next);
        }
        Ok(effects)
    }

    /// Anyone applies a proposed removal once its timelock has run out.
    pub fn execute_remove_dst_token(
        &mut self,
        inv: &Invocation,
        token: Address,
    ) -> (r: Result<Vec<Effect>, Abort<Error>>)
        requires
            old(self).wf(),
        ensures
            final(self).wf(),
            execute_remove_step(old(self)@, *inv, token).describes(old(self)@, final(self)@, r),
    {
        let ghost s = self@;
        match self.pending_dst_token_removes.get(token) {
            None => {
                return Err(Abort::Error(Error::NoPendingDstTokenChange));
            },
            Some(ready) => {
                if inv.now < *ready {
                    return Err(Abort::Error(Error::TimelockNotElapsed));
                }
            },
        }
        self.pending_dst_token_removes.remove(token);
        self.allowed_dst_tokens.remove(token);
        self.allowed_dst_token_list = remove_from_list(&self.allowed_dst_token_list, token);
        let effects = vec![
            Effect::ExtendInstance,
            Effect::Emit { event: Event::DstTokenDisallowed { token } },
        ];
        proof {
            let step = execute_remove_step(s, *inv, token);
            assert(effects@ =~= step->effects);
            assert(self@ =~= step->next);
        }
        Ok(effects)
    }

    /// Admin-only: turns the enforcement of the destination allowlist on or off.
    pub fn set_dst_allowlist_enabled(
        &mut self,
        inv: &Invocation,
        enabled: bool,
    ) -> (r: Result<Vec<Effect>, Abort<Error>>)
        requires
            old(self).wf(),
        ensures
            final(self).wf(),
            enable_dst_step(old(self)@, *inv, enabled).describes(old(self)@, final(self)@, r),
    {
        let ghost s = self@;
        if let Some(abort) = self.require_admin(inv) {
            return Err(abort);
        }
        self.dst_allowlist_enabled = enabled;
        let effects = vec![
            Effect::ExtendInstance,
            Effect::Emit { event: Event::DstAllowlistEnabled { enabled } },
        ];
        proof {
            let step = enable_dst_step(s, *inv, enabled);
            assert(effects@ =~= step->effects);
            assert(self@ =~= step->next);
        }
        Ok(effects)
    }

    /// Admin-only: sets the bond multiplier of a destination token, in tenths: 10 is
    /// 1.0x, 15 is 1.5x.
    pub fn set_min_bond_multiplier(
        &mut self,
        inv: &Invocation,
        token: Address,
        multiplier: i128,
    ) -> (r: Result<Vec<Effect>, Abort<Error>>)
        requires
            old(self).wf(),
        ensures
            final(self).wf(),
            set_multiplier_step(old(self)@, *inv, token, multiplier).describes(
                old(self)@,
                final(self)@,
                r,
            ),
    {
        let ghost s = self@;
        if let Some(abort) = self.require_admin(inv) {
            return Err(abort);
        }
        if multiplier <= 0 {
            return Err(Abort::Error(Error::ZeroAmount));
        }
        self.min_bond_multipliers.set(token, multiplier);
        let effects = vec![
            Effect::ExtendInstance,
            Effect::Emit { event: Event::BondMultiplierSet { token, multiplier } },
        ];
        proof {
            let step = set_multiplier_step(s, *inv, token, multiplier);
            assert(effects@ =~= step->effects);
            assert(self@ =~= step->next);
        }
        Ok(effects)
    }

    /// Admin-only: puts a chain name on the source-chain allowlist.
    pub fn add_allowed_src_chain(
        &mut self,
        inv: &Invocation,
        chain: Vec<u8>,
    ) -> (r: Result<Vec<Effect>, Abort<Error>>)
        requires
            old(self).wf(),
        ensures
            final(self).wf(),
            allow_chain_step(old(self)@, *inv, chain).describes(old(self)@, final(self)@, r),
    {
        let ghost s = self@;
        if let Some(abort) = self.require_admin(inv) {
            return Err(abort);
        }
        self.allowed_src_chains.add(copy_bytes(&chain));
        let effects = vec![
            Effect::ExtendInstance,
            Effect::Emit { event: Event::SrcChainAllowed { chain } },
        ];
        proof {
            let step = allow_chain_step(s, *inv, chain);
            assert(effects@ =~= step->effects);
            assert(self@ =~= step->next);
        }
        Ok(effects)
    }

    /// Admin-only: takes a chain name off the source-chain allowlist.
    pub fn remove_allowed_src_chain(
        &mut self,
        inv: &Invocation,
        chain: Vec<u8>,
    ) -> (r: Result<Vec<Effect>, Abort<Error>>)
        requires
            old(self).wf(),
        ensures
            final(self).wf(),
            disallow_chain_step(old(self)@, *inv, chain).describes(old(self)@, final(self)@, r),
    {
        let ghost s = self@;
        if let Some(abort) = self.require_admin(inv) {
            return Err(abort);
        }
        self.allowed_src_chains.remove(&chain);
        let effects = vec![
            Effect::ExtendInstance,
            Effect::Emit { event: Event::SrcChainDisallowed { chain } },
        ];
        proof {
            let step = disallow_chain_step(s, *inv, chain);
            assert(effects@ =~= step->effects);
            assert(self@ =~= step->next);
        }
        Ok(effects)
    }

    /// Admin-only: turns the enforcement of the source-chain allowlist on or off.
    pub fn set_src_chain_allowlist_enabled(
        &mut self,
        inv: &Invocation,
        enabled: bool,
    ) -> (r: Result<Vec<Effect>, Abort<Error>>)
        requires
            old(self).wf(),
        ensures
            final(self).wf(),
            enable_chains_step(old(self)@, *inv, enabled).describes(old(self)@, final(self)@, r),
    {
        let ghost s = self@;
        if let Some(abort) = self.require_admin(inv) {
            return Err(abort);
        }
        self.src_chain_allowlist_enabled = enabled;
        let effects = vec![Effect::ExtendInstance];
        proof {
            let step = enable_chains_step(s, *inv, enabled);
            assert(effects@ =~= step->effects);
            assert(self@ =~= step->next);
        }
        Ok(effects)
    }
}

} // verus!
