//! What the proof registry answers, records and hands out.
use vstd::prelude::*;
use crate::context::{because, first_fault, lacks, Abort, Invocation};
use crate::encoding::hex_text;
use crate::proof_registry::{encode, fresh_proof, lemma_decode_encode, mock_set_step, step, Call,
    Error, Event, Proof, State, Step, PAYLOAD_LEN, PROOF_VALIDITY_WINDOW};
use crate::types::{bytes32, Address, Bytes32};

verus! {

/// The request is granted if it has none of these faults, and is otherwise
/// turned down for the first that it has.
pub open spec fn judged(answer: Step, faults: Seq<(bool, Abort<Error>)>) -> bool {
    match first_fault(faults, 0) {
        Some(abort) => answer == (Step::Refused { abort }),
        None => answer is Done,
    }
}

/// A call that is turned down changes nothing and says why; one that is granted
/// leaves the new state and hands out all that it calls for, in order.
pub proof fn lemma_calls_end(
    answer: Step,
    before: State,
    after: State,
    result: Result<Vec<Event>, Abort<Error>>,
)
    requires
        answer.describes(before, after, result),
    ensures
        answer matches Step::Refused { abort } ==> after == before && (result matches Err(why)
            && why == abort),
        answer matches Step::Done { next, events } ==> after == next && (result matches Ok(out)
            && out@ == events),
{
}

/// Proofs gate fills for an hour, and messages have 102 bytes.
pub proof fn lemma_registry_terms()
    ensures
        PROOF_VALIDITY_WINDOW == 60 * 60,
        PAYLOAD_LEN == 32 + 20 + 2 + 32 + 16,
{
}

// ── Governance ──────────────────────────────────────────────────────────────

/// A registry is initialized once, with the consent of the admin that it gets.
pub proof fn lemma_initialization_judged(
    s: State,
    inv: Invocation,
    admin: Address,
    wormhole_core: Address,
)
    ensures
        ({
            let answer = step(s, inv, Call::Initialize { admin, wormhole_core });
            &&& judged(
                answer,
                seq![
                    (s.admin is Some, because(Error::AlreadyInitialized)),
                    (!inv.signed(admin), Abort::Auth(admin)),
                ],
            )
            &&& answer matches Step::Done { next, events } ==> {
                &&& next.admin == Some(admin)
                &&& next.wormhole_core == Some(wormhole_core)
                &&& next.emitters == s.emitters
                &&& next.proofs == s.proofs
                &&& next.paused == s.paused
                &&& events.len() == 0
            }
        }),
{
    reveal_with_fuel(first_fault, 4);
}

/// Emitters and the pause are the admin's to set, and nobody else's.
pub proof fn lemma_admin_calls_judged(s: State, inv: Invocation, call: Call)
    requires
        call is Authorize || call is RemoveEmitter || call is SetPaused,
    ensures
        judged(
            step(s, inv, call),
            seq![
                (s.admin is None, because(Error::NotInitialized)),
                (lacks(s.admin, inv), Abort::Auth(s.admin->0)),
            ],
        ),
{
    reveal_with_fuel(first_fault, 4);
}

/// An emitter is trusted for the chain that it was named for, until another is
/// named or it is removed; no other chain is touched. Each change is announced.
pub proof fn lemma_emitters_take_effect(
    s: State,
    inv: Invocation,
    chain_id: u32,
    emitter: Bytes32,
    other: u32,
)
    ensures
        step(s, inv, Call::Authorize { chain_id, emitter }) matches Step::Done { next, events }
            ==> {
            &&& next.emitters.contains_key(chain_id)
            &&& next.emitters[chain_id] == emitter
            &&& other != chain_id ==> next.emitters.contains_key(other)
                == s.emitters.contains_key(other)
            &&& other != chain_id && s.emitters.contains_key(other) ==> next.emitters[other]
                == s.emitters[other]
            &&& next == (State { emitters: next.emitters, ..s })
            &&& events == seq![Event::EmitterAuthorized { chain_id, emitter }]
        },
        step(s, inv, Call::RemoveEmitter { chain_id }) matches Step::Done { next, events } ==> {
            &&& !next.emitters.contains_key(chain_id)
            &&& other != chain_id ==> next.emitters.contains_key(other)
                == s.emitters.contains_key(other)
            &&& other != chain_id && s.emitters.contains_key(other) ==> next.emitters[other]
                == s.emitters[other]
            &&& next == (State { emitters: next.emitters, ..s })
            &&& events == seq![Event::EmitterRemoved { chain_id }]
        },
{
}

/// The pause is what the admin sets it to, and changes nothing else.
pub proof fn lemma_pause_takes_effect(s: State, inv: Invocation, paused: bool)
    ensures
        step(s, inv, Call::SetPaused { paused }) matches Step::Done { next, events } ==> {
            &&& next.paused == paused
            &&& next == (State { paused: next.paused, ..s })
            &&& events == seq![Event::Paused { paused }]
        },
{
}

// ── Messages ────────────────────────────────────────────────────────────────

/// A message that is not 102 bytes long is turned down.
pub proof fn lemma_malformed_refused(s: State, inv: Invocation, payload: Seq<u8>)
    requires
        payload.len() != 102,
    ensures
        judged(
            step(s, inv, Call::Receive { payload }),
            seq![
                (s.paused, because(Error::ContractPaused)),
                (true, because(Error::InvalidPayload)),
            ],
        ),
{
    reveal_with_fuel(first_fault, 4);
}

/// Whoever relays it, a message that spells a deposit is taken unless the
/// registry is paused or has a proof for the intent. What it spells goes on
/// record under the intent, with the time of the call, and is announced; every
/// other proof stays.
pub proof fn lemma_deposit_received(
    s: State,
    inv: Invocation,
    intent_id: Bytes32,
    src_user: Seq<u8>,
    src_chain_id: u16,
    src_token: Seq<u8>,
    src_amount: i128,
)
    requires
        src_user.len() == 20,
        src_token.len() == 32,
    ensures
        ({
            let payload = encode(intent_id, src_user, src_chain_id, src_token, src_amount);
            let answer = step(s, inv, Call::Receive { payload });
            &&& judged(
                answer,
                seq![
                    (s.paused, because(Error::ContractPaused)),
                    (s.proofs.contains_key(intent_id), because(Error::ProofAlreadyExists)),
                ],
            )
            &&& answer matches Step::Done { next, events } ==> {
                let proof = next.proofs[intent_id];
                &&& next.proofs.contains_key(intent_id)
                &&& proof.intent_id == intent_id
                &&& proof.src_user == hex_text(src_user)
                &&& proof.src_chain_id == src_chain_id
                &&& proof.src_token == hex_text(src_token)
                &&& proof.src_amount == src_amount
                &&& proof.vaa_sequence == 0
                &&& proof.received_at == inv.now
                &&& next.proofs.remove(intent_id) =~= s.proofs
                &&& next == (State { proofs: next.proofs, ..s })
                &&& events == seq![
                    Event::ProofReceived {
                        intent_id,
                        src_chain_id: src_chain_id as u32,
                        src_amount,
                    },
                ]
            }
        }),
{
    reveal_with_fuel(first_fault, 4);
    lemma_decode_encode(intent_id, src_user, src_chain_id, src_token, src_amount, inv.now);
}

// ── Freshness ───────────────────────────────────────────────────────────────

/// A proof is handed out from the moment at which its message was received, for
/// an hour, and is stale from then on, whatever the clock shows.
pub proof fn lemma_proof_lifetime(s: State, inv: Invocation, payload: Seq<u8>, later: Invocation)
    requires
        later.now >= inv.now,
    ensures
        step(s, inv, Call::Receive { payload }) matches Step::Done { next, .. } ==> {
            let id = bytes32(payload.subrange(0, 32));
            let answer = fresh_proof(next, later.now, id);
            &&& later.now - inv.now <= 3_600 ==> answer == Ok::<Proof, Error>(next.proofs[id])
            &&& later.now - inv.now > 3_600 ==> answer == Err::<Proof, Error>(Error::ProofStale)
        },
{
}

/// A proof keeps being handed out for its hour, whatever the registry is asked
/// to do in between.
pub proof fn lemma_proof_outlasts_calls(
    s: State,
    inv: Invocation,
    call: Call,
    intent_id: Bytes32,
    now: u64,
)
    requires
        s.proofs.contains_key(intent_id),
    ensures
        step(s, inv, call) matches Step::Done { next, .. } ==> fresh_proof(next, now, intent_id)
            == fresh_proof(s, now, intent_id),
{
}

/// Only the age of a proof decides: the answer is the same for two proofs that
/// differ by when they were received, asked for as long after, and a proof that
/// has just been received is fresh.
pub proof fn lemma_only_age_counts(
    s: State,
    t: State,
    intent_id: Bytes32,
    now: u64,
    then: u64,
)
    requires
        s.proofs.contains_key(intent_id),
        t.proofs.contains_key(intent_id),
        now - s.proofs[intent_id].received_at == then - t.proofs[intent_id].received_at,
    ensures
        fresh_proof(s, now, intent_id) is Ok <==> fresh_proof(t, then, intent_id) is Ok,
        now == s.proofs[intent_id].received_at ==> fresh_proof(s, now, intent_id) is Ok,
        fresh_proof(s, now, intent_id) is Ok <==> now - s.proofs[intent_id].received_at <= 3_600,
{
}

/// A query hands out the proof that is on record for the intent it names, and
/// fails for want of one exactly where there is none.
pub proof fn lemma_query_answers(s: State, now: u64, intent_id: Bytes32)
    ensures
        fresh_proof(s, now, intent_id) == Err::<Proof, Error>(Error::ProofNotFound)
            <==> !s.proofs.contains_key(intent_id),
        fresh_proof(s, now, intent_id) matches Ok(proof) ==> proof == s.proofs[intent_id],
        fresh_proof(s, now, intent_id) matches Err(error) ==> error == Error::ProofNotFound || error
            == Error::ProofStale,
{
}

/// A proof that a test puts on record is on record as it is, unless there is one
/// for its intent.
pub proof fn lemma_planted_proof(s: State, proof: Proof)
    ensures
        s.proofs.contains_key(proof.intent_id) ==> mock_set_step(s, proof) == (Step::Refused {
            abort: because(Error::ProofAlreadyExists),
        }),
        !s.proofs.contains_key(proof.intent_id) ==> (mock_set_step(s, proof) matches Step::Done {
            next,
            events,
        } && events.len() == 0 && next.proofs.contains_key(proof.intent_id)
            && next.proofs[proof.intent_id] == proof && next.proofs.remove(proof.intent_id)
            =~= s.proofs && next == (State { proofs: next.proofs, ..s })),
{
}

} // verus!
