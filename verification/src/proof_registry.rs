//! The cross-chain proof registry: records that a source-chain deposit was
//! made for an intent, decoded from a relayed message.
use vstd::prelude::*;
use crate::context::{Abort, Invocation};
use crate::encoding::{be_bytes, be_value, bytes_to_hex_string, hex_text, lemma_be_bytes_len,
    lemma_be_read_write, lemma_be_round_trip, lemma_be_value_bound, lemma_hex_injective,
    lemma_pow256_values, lemma_signed_round_trip, read_be, read_i128, to_signed, to_unsigned};
use crate::table::Table;
use crate::types::{bytes32, lemma_bytes32, read_bytes32, Address, Bytes32};

verus! {

/// How long a proof can gate a fill after it was received, in seconds.
pub const PROOF_VALIDITY_WINDOW: u64 = 3600;

/// Length of a message payload.
pub const PAYLOAD_LEN: usize = 102;

/// A record that a source-chain deposit was made for an intent.
#[derive(Clone, Debug)]
pub struct ProofRecord {
    /// The intent the deposit is for.
    pub intent_id: Bytes32,
    /// The user's address on the source chain.
    pub src_user: Vec<u8>,
    /// Wormhole id of the source chain.
    pub src_chain_id: u32,
    /// Token address on the source chain.
    pub src_token: Vec<u8>,
    /// Amount deposited, in the token's smallest unit.
    pub src_amount: i128,
    /// Sequence number of the message.
    pub vaa_sequence: u64,
    /// Ledger time at which the proof was registered.
    pub received_at: u64,
}

/// A proof, as the contracts of this library speak of it.
#[verifier::ext_equal]
pub struct Proof {
    pub intent_id: Bytes32,
    pub src_user: Seq<u8>,
    pub src_chain_id: int,
    pub src_token: Seq<u8>,
    pub src_amount: int,
    pub vaa_sequence: u64,
    pub received_at: u64,
}

impl View for ProofRecord {
    type V = Proof;

    open spec fn view(&self) -> Proof {
        Proof {
            intent_id: self.intent_id,
            src_user: self.src_user@,
            src_chain_id: self.src_chain_id as int,
            src_token: self.src_token@,
            src_amount: self.src_amount as int,
            vaa_sequence: self.vaa_sequence,
            received_at: self.received_at,
        }
    }
}

/// Why the registry refuses a call.
#[derive(Clone, Copy, Debug, PartialEq, Eq, Structural)]
pub enum Error {
    /// `initialize` on a registry that has an admin.
    AlreadyInitialized,
    /// The caller is not the admin.
    Unauthorized,
    /// The message comes from an emitter that is not authorized.
    EmitterNotAuthorized,
    /// A proof for this intent is on record.
    ProofAlreadyExists,
    /// No proof for this intent is on record.
    ProofNotFound,
    /// The payload cannot be decoded.
    InvalidPayload,
    /// The registry is not initialized.
    NotInitialized,
    /// The registry is paused.
    ContractPaused,
    /// The proof on record is too old to gate a fill.
    ProofStale,
}

impl Error {
    /// The number under which clients see an error.
    pub open spec fn number(self) -> u32 {
        match self {
            Error::AlreadyInitialized => 1,
            Error::Unauthorized => 2,
            Error::EmitterNotAuthorized => 3,
            Error::ProofAlreadyExists => 4,
            Error::ProofNotFound => 5,
            Error::InvalidPayload => 6,
            Error::NotInitialized => 7,
            Error::ContractPaused => 8,
            Error::ProofStale => 9,
        }
    }

    /// The number under which clients see the error.
    pub fn code(self) -> (r: u32)
        ensures
            r == self.number(),
    {
        match self {
            Error::AlreadyInitialized => 1,
            Error::Unauthorized => 2,
            Error::EmitterNotAuthorized => 3,
            Error::ProofAlreadyExists => 4,
            Error::ProofNotFound => 5,
            Error::InvalidPayload => 6,
            Error::NotInitialized => 7,
            Error::ContractPaused => 8,
            Error::ProofStale => 9,
        }
    }
}

/// What the registry announces to off-chain observers.
#[derive(Clone, Copy, Debug, PartialEq, Eq)]
pub enum Event {
    EmitterAuthorized { chain_id: u32, emitter: Bytes32 },
    EmitterRemoved { chain_id: u32 },
    Paused { paused: bool },
    ProofReceived { intent_id: Bytes32, src_chain_id: u32, src_amount: i128 },
}

/// The registry: everything it keeps on the ledger.
pub struct ProofRegistry {
    pub admin: Option<Address>,
    /// The contract that is to verify messages.
    pub wormhole_core: Option<Address>,
    /// The trusted emitter of each source chain.
    pub emitters: Table<u32, Bytes32>,
    pub proofs: Table<Bytes32, ProofRecord>,
    pub paused: bool,
}

/// The registry's state, as its operations are stated over it.
#[verifier::ext_equal]
pub struct State {
    pub admin: Option<Address>,
    pub wormhole_core: Option<Address>,
    pub emitters: Map<u32, Bytes32>,
    pub proofs: Map<Bytes32, Proof>,
    pub paused: bool,
}

/// What a call comes to: a refusal that leaves everything as it was, or a new
/// state together with the events to publish.
#[verifier::ext_equal]
pub enum Step {
    Refused { abort: Abort<Error> },
    Done { next: State, events: Seq<Event> },
}

impl Step {
    /// Whether a call that began in `before` and ended in `after` with
    /// `result` did what this step says.
    pub open spec fn describes(
        self,
        before: State,
        after: State,
        result: Result<Vec<Event>, Abort<Error>>,
    ) -> bool {
        match self {
            Step::Refused { abort } => result == Err::<Vec<Event>, Abort<Error>>(abort) && after
                == before,
            Step::Done { next, events } => {
                &&& result is Ok
                &&& result->Ok_0@ == events
                &&& after == next
            },
        }
    }
}

/// The registry refuses with `error`.
pub open spec fn refuse(error: Error) -> Step {
    Step::Refused { abort: Abort::Error(error) }
}

/// A call that only the admin may make, which then does what `step` says.
pub open spec fn as_admin(s: State, inv: Invocation, step: Step) -> Step {
    match s.admin {
        None => refuse(Error::NotInitialized),
        Some(admin) => if inv.signed(admin) {
            step
        } else {
            Step::Refused { abort: Abort::Auth(admin) }
        },
    }
}

// ── Payloads ────────────────────────────────────────────────────────────────

/// The proof that a payload of 102 bytes spells: the intent's id in 32 bytes,
/// the user in 20, the chain in 2, the token in 32 and the amount in 16.
pub open spec fn decode(payload: Seq<u8>, now: u64) -> Proof {
    Proof {
        intent_id: bytes32(payload.subrange(0, 32)),
        src_user: hex_text(payload.subrange(32, 52)),
        src_chain_id: be_value(payload.subrange(52, 54)) as int,
        src_token: hex_text(payload.subrange(54, 86)),
        src_amount: to_signed(be_value(payload.subrange(86, 102))),
        vaa_sequence: 0,
        received_at: now,
    }
}

/// The payload that spells a deposit.
pub open spec fn encode(
    intent_id: Bytes32,
    src_user: Seq<u8>,
    src_chain_id: u16,
    src_token: Seq<u8>,
    src_amount: i128,
) -> Seq<u8> {
    intent_id.0@ + src_user + be_bytes(src_chain_id as nat, 2) + src_token + be_bytes(
        to_unsigned(src_amount as int),
        16,
    )
}

/// Decoding a payload gives back the deposit it was made from.
pub proof fn lemma_decode_encode(
    intent_id: Bytes32,
    src_user: Seq<u8>,
    src_chain_id: u16,
    src_token: Seq<u8>,
    src_amount: i128,
    now: u64,
)
    requires
        src_user.len() == 20,
        src_token.len() == 32,
    ensures
        encode(intent_id, src_user, src_chain_id, src_token, src_amount).len() == PAYLOAD_LEN,
        decode(encode(intent_id, src_user, src_chain_id, src_token, src_amount), now) == (Proof {
            intent_id,
            src_user: hex_text(src_user),
            src_chain_id: src_chain_id as int,
            src_token: hex_text(src_token),
            src_amount: src_amount as int,
            vaa_sequence: 0,
            received_at: now,
        }),
{
    let payload = encode(intent_id, src_user, src_chain_id, src_token, src_amount);
    let chain = be_bytes(src_chain_id as nat, 2);
    let amount = be_bytes(to_unsigned(src_amount as int), 16);
    lemma_be_bytes_len(src_chain_id as nat, 2);
    lemma_be_bytes_len(to_unsigned(src_amount as int), 16);
    assert(payload.subrange(0, 32) =~= intent_id.0@);
    assert(payload.subrange(32, 52) =~= src_user);
    assert(payload.subrange(52, 54) =~= chain);
    assert(payload.subrange(54, 86) =~= src_token);
    assert(payload.subrange(86, 102) =~= amount);
    lemma_bytes32(intent_id);
    lemma_pow256_values();
    lemma_be_round_trip(src_chain_id as nat, 2);
    lemma_signed_round_trip(src_amount as int);
    lemma_be_round_trip(to_unsigned(src_amount as int), 16);
}

/// Nothing of a payload is lost: two payloads for one intent that decode alike
/// are the same.
pub proof fn lemma_decode_injective(a: Seq<u8>, b: Seq<u8>, now: u64)
    requires
        a.len() == PAYLOAD_LEN,
        b.len() == PAYLOAD_LEN,
        a.subrange(0, 32) == b.subrange(0, 32),
        decode(a, now) == decode(b, now),
    ensures
        a == b,
{
    lemma_hex_injective(a.subrange(32, 52), b.subrange(32, 52));
    lemma_hex_injective(a.subrange(54, 86), b.subrange(54, 86));
    lemma_be_read_write(a.subrange(52, 54));
    lemma_be_read_write(b.subrange(52, 54));
    let (x, y) = (be_value(a.subrange(86, 102)), be_value(b.subrange(86, 102)));
    lemma_be_value_bound(a.subrange(86, 102));
    lemma_be_value_bound(b.subrange(86, 102));
    lemma_pow256_values();
    assert(x == y);
    lemma_be_read_write(a.subrange(86, 102));
    lemma_be_read_write(b.subrange(86, 102));
    assert(a =~= a.subrange(0, 32) + a.subrange(32, 52) + a.subrange(52, 54) + a.subrange(54, 86)
        + a.subrange(86, 102));
    assert(b =~= b.subrange(0, 32) + b.subrange(32, 52) + b.subrange(52, 54) + b.subrange(54, 86)
        + b.subrange(86, 102));
}

// ── What each call does ─────────────────────────────────────────────────────

/// The one-time setup.
pub open spec fn initialize_step(
    s: State,
    inv: Invocation,
    admin: Address,
    wormhole_core: Address,
) -> Step {
    if s.admin is Some {
        refuse(Error::AlreadyInitialized)
    } else if !inv.signed(admin) {
        Step::Refused { abort: Abort::Auth(admin) }
    } else {
        Step::Done {
            next: State { admin: Some(admin), wormhole_core: Some(wormhole_core), ..s },
            events: Seq::empty(),
        }
    }
}

/// The admin names the trusted emitter of a chain.
pub open spec fn authorize_step(
    s: State,
    inv: Invocation,
    chain_id: u32,
    emitter: Bytes32,
) -> Step {
    as_admin(
        s,
        inv,
        Step::Done {
            next: State { emitters: s.emitters.insert(chain_id, emitter), ..s },
            events: seq![Event::EmitterAuthorized { chain_id, emitter }],
        },
    )
}

/// The admin removes the trusted emitter of a chain.
pub open spec fn remove_emitter_step(s: State, inv: Invocation, chain_id: u32) -> Step {
    as_admin(
        s,
        inv,
        Step::Done {
            next: State { emitters: s.emitters.remove(chain_id), ..s },
            events: seq![Event::EmitterRemoved { chain_id }],
        },
    )
}

/// The admin pauses the registry or lifts the pause.
pub open spec fn set_paused_step(s: State, inv: Invocation, paused: bool) -> Step {
    as_admin(
        s,
        inv,
        Step::Done { next: State { paused, ..s }, events: seq![Event::Paused { paused }] },
    )
}

/// Anyone relays a message; the proof it spells goes on record.
pub open spec fn receive_step(s: State, inv: Invocation, payload: Seq<u8>) -> Step {
    let proof = decode(payload, inv.now);
    if s.paused {
        refuse(Error::ContractPaused)
    } else if payload.len() != PAYLOAD_LEN {
        refuse(Error::InvalidPayload)
    } else if s.proofs.contains_key(proof.intent_id) {
        refuse(Error::ProofAlreadyExists)
    } else {
        Step::Done {
            next: State { proofs: s.proofs.insert(proof.intent_id, proof), ..s },
            events: seq![
                Event::ProofReceived {
                    intent_id: proof.intent_id,
                    src_chain_id: proof.src_chain_id as u32,
                    src_amount: proof.src_amount as i128,
                },
            ],
        }
    }
}

/// A test puts a proof on record directly.
pub open spec fn mock_set_step(s: State, proof: Proof) -> Step {
    if s.proofs.contains_key(proof.intent_id) {
        refuse(Error::ProofAlreadyExists)
    } else {
        Step::Done {
            next: State { proofs: s.proofs.insert(proof.intent_id, proof), ..s },
            events: Seq::empty(),
        }
    }
}

/// Whether a proof received at `received_at` can gate a fill at `now`.
pub open spec fn fresh(received_at: u64, now: u64) -> bool {
    now - received_at <= PROOF_VALIDITY_WINDOW
}

/// What a query for a proof that can gate a fill at `now` comes to.
pub open spec fn fresh_proof(s: State, now: u64, intent_id: Bytes32) -> Result<Proof, Error> {
    if !s.proofs.contains_key(intent_id) {
        Err(Error::ProofNotFound)
    } else if fresh(s.proofs[intent_id].received_at, now) {
        Ok(s.proofs[intent_id])
    } else {
        Err(Error::ProofStale)
    }
}

impl View for ProofRegistry {
    type V = State;

    open spec fn view(&self) -> State {
        State {
            admin: self.admin,
            wormhole_core: self.wormhole_core,
            emitters: self.emitters@,
            proofs: self.proofs@,
            paused: self.paused,
        }
    }
}

impl ProofRegistry {
    /// Both tables are well-formed.
    pub open spec fn wf(&self) -> bool {
        self.emitters.wf() && self.proofs.wf()
    }

    /// A registry that has been deployed and not yet initialized.
    pub fn new() -> (r: Self)
        ensures
            r.wf(),
            r@ == (State {
                admin: None,
                wormhole_core: None,
                emitters: Map::empty(),
                proofs: Map::empty(),
                paused: false,
            }),
    {
        ProofRegistry {
            admin: None,
            wormhole_core: None,
            emitters: Table::new(),
            proofs: Table::new(),
            paused: false,
        }
    }

    /// Why a call that only the admin may make is turned down.
    fn require_admin(&self, inv: &Invocation) -> (r: Option<Abort<Error>>)
        ensures
            match self@.admin {
                None => r == Some(Abort::<Error>::Error(Error::NotInitialized)),
                Some(admin) => r == if inv.signed(admin) {
                    None
                } else {
                    Some(Abort::<Error>::Auth(admin))
                },
            },
    {
        match self.admin {
            None => Some(Abort::Error(Error::NotInitialized)),
            Some(admin) => {
                if inv.has_signed(admin) {
                    None
                } else {
                    Some(Abort::Auth(admin))
                }
            },
        }
    }

    /// One-time setup: records the admin and the contract that is to verify
    /// messages.
    pub fn initialize(&mut self, inv: &Invocation, admin: Address, wormhole_core: Address) -> (r:
        Result<Vec<Event>, Abort<Error>>)
        requires
            old(self).wf(),
        ensures
            final(self).wf(),
            initialize_step(old(self)@, *inv, admin, wormhole_core).describes(
                old(self)@,
                final(self)@,
                r,
            ),
    {
        if self.admin.is_some() {
            return Err(Abort::Error(Error::AlreadyInitialized));
        }
        if !inv.has_signed(admin) {
            return Err(Abort::Auth(admin));
        }
        self.admin = Some(admin);
        self.wormhole_core = Some(wormhole_core);
        Ok(Vec::new())
    }

    /// Admin-only: names the trusted emitter of a source chain.
    pub fn set_authorized_emitter(
        &mut self,
        inv: &Invocation,
        chain_id: u32,
        emitter: Bytes32,
    ) -> (r: Result<Vec<Event>, Abort<Error>>)
        requires
            old(self).wf(),
        ensures
            final(self).wf(),
            authorize_step(old(self)@, *inv, chain_id, emitter).describes(
                old(self)@,
                final(self)@,
                r,
            ),
    {
        if let Some(abort) = self.require_admin(inv) {
            return Err(abort);
        }
        self.emitters.set(chain_id, emitter);
        let events = vec![Event::EmitterAuthorized { chain_id, emitter }];
        assert(events@ =~= seq![Event::EmitterAuthorized { chain_id, emitter }]);
        Ok(events)
    }

    /// Admin-only: removes the trusted emitter of a source chain.
    pub fn remove_authorized_emitter(&mut self, inv: &Invocation, chain_id: u32) -> (r: Result<
        Vec<Event>,
        Abort<Error>,
    >)
        requires
            old(self).wf(),
        ensures
            final(self).wf(),
            remove_emitter_step(old(self)@, *inv, chain_id).describes(old(self)@, final(self)@, r),
    {
        if let Some(abort) = self.require_admin(inv) {
            return Err(abort);
        }
        self.emitters.remove(chain_id);
        let events = vec![Event::EmitterRemoved { chain_id }];
        assert(events@ =~= seq![Event::EmitterRemoved { chain_id }]);
        Ok(events)
    }

    /// The trusted emitter of a source chain, if one is set.
    pub fn get_authorized_emitter(&self, chain_id: u32) -> (r: Option<Bytes32>)
        requires
            self.wf(),
        ensures
            match r {
                Some(emitter) => self@.emitters.contains_key(chain_id) && emitter
                    == self@.emitters[chain_id],
                None => !self@.emitters.contains_key(chain_id),
            },
    {
        match self.emitters.get(chain_id) {
            Some(emitter) => Some(*emitter),
            None => None,
        }
    }

    /// Admin-only: halts the receipt of messages. Proofs can still be read.
    pub fn pause(&mut self, inv: &Invocation) -> (r: Result<Vec<Event>, Abort<Error>>)
        requires
            old(self).wf(),
        ensures
            final(self).wf(),
            set_paused_step(old(self)@, *inv, true).describes(old(self)@, final(self)@, r),
    {
        if let Some(abort) = self.require_admin(inv) {
            return Err(abort);
        }
        self.paused = true;
        let events = vec![Event::Paused { paused: true }];
        assert(events@ =~= seq![Event::Paused { paused: true }]);
        Ok(events)
    }

    /// Admin-only: resumes the receipt of messages.
    pub fn unpause(&mut self, inv: &Invocation) -> (r: Result<Vec<Event>, Abort<Error>>)
        requires
            old(self).wf(),
        ensures
            final(self).wf(),
            set_paused_step(old(self)@, *inv, false).describes(old(self)@, final(self)@, r),
    {
        if let Some(abort) = self.require_admin(inv) {
            return Err(abort);
        }
        self.paused = false;
        let events = vec![Event::Paused { paused: false }];
        assert(events@ =~= seq![Event::Paused { paused: false }]);
        Ok(events)
    }

    /// Whether the receipt of messages is halted.
    pub fn is_paused(&self) -> (r: bool)
        ensures
            r == self@.paused,
    {
        self.paused
    }

    /// Decodes a message of 102 bytes and puts the proof that it spells on
    /// record. Guardian signatures and emitters are not checked.
    pub fn receive_message(&mut self, inv: &Invocation, vaa: &Vec<u8>) -> (r: Result<
        Vec<Event>,
        Abort<Error>,
    >)
        requires
            old(self).wf(),
        ensures
            final(self).wf(),
            receive_step(old(self)@, *inv, vaa@).describes(old(self)@, final(self)@, r),
    {
        if self.paused {
            return Err(Abort::Error(Error::ContractPaused));
        }
        if vaa.len() != PAYLOAD_LEN {
            return Err(Abort::Error(Error::InvalidPayload));
        }
        let intent_id = read_bytes32(vaa, 0);
        if self.proofs.has(intent_id) {
            return Err(Abort::Error(Error::ProofAlreadyExists));
        }
        proof {
            lemma_be_value_bound(vaa@.subrange(52, 54));
            lemma_pow256_values();
        }
        let src_chain_id: u32 = read_be(vaa, 52, 2) as u32;
        let src_amount: i128 = read_i128(vaa, 86);
        let record = ProofRecord {
            intent_id,
            src_user: bytes_to_hex_string(vaa, 32, 52),
            src_chain_id,
            src_token: bytes_to_hex_string(vaa, 54, 86),
            src_amount,
            vaa_sequence: 0,
            received_at: inv.now,
        };
        assert(record@ =~= decode(vaa@, inv.now));
        self.proofs.set(intent_id, record);
        let events = vec![Event::ProofReceived { intent_id, src_chain_id, src_amount }];
        assert(events@ =~= seq![Event::ProofReceived { intent_id, src_chain_id, src_amount }]);
        Ok(events)
    }

    /// The proof on record for an intent, if there is one.
    pub fn get_proof(&self, intent_id: Bytes32) -> (r: Option<&ProofRecord>)
        requires
            self.wf(),
        ensures
            match r {
                Some(record) => self@.proofs.contains_key(intent_id) && record@
                    == self@.proofs[intent_id],
                None => !self@.proofs.contains_key(intent_id),
            },
    {
        self.proofs.get(intent_id)
    }

    /// Whether a proof is on record for an intent.
    pub fn has_proof(&self, intent_id: Bytes32) -> (r: bool)
        requires
            self.wf(),
        ensures
            r == self@.proofs.contains_key(intent_id),
    {
        self.proofs.has(intent_id)
    }

    /// The proof on record for an intent, if it is recent enough to gate a fill.
    pub fn get_fresh_proof(&self, inv: &Invocation, intent_id: Bytes32) -> (r: Result<
        &ProofRecord,
        Error,
    >)
        requires
            self.wf(),
            self@.proofs.contains_key(intent_id) ==> self@.proofs[intent_id].received_at
                <= inv.now,
        ensures
            match r {
                Ok(record) => {
                    &&& self@.proofs.contains_key(intent_id)
                    &&& record@ == self@.proofs[intent_id]
                    &&& fresh(record.received_at, inv.now)
                },
                Err(Error::ProofNotFound) => !self@.proofs.contains_key(intent_id),
                Err(Error::ProofStale) => self@.proofs.contains_key(intent_id) && !fresh(
                    self@.proofs[intent_id].received_at,
                    inv.now,
                ),
                Err(_) => false,
            },
            match r {
                Ok(record) => fresh_proof(self@, inv.now, intent_id) == Ok::<Proof, Error>(record@),
                Err(error) => fresh_proof(self@, inv.now, intent_id) == Err::<Proof, Error>(error),
            },
            r is Ok <==> self@.proofs.contains_key(intent_id) && inv.now
                - self@.proofs[intent_id].received_at <= 3_600,
    {
        match self.proofs.get(intent_id) {
            None => Err(Error::ProofNotFound),
            Some(record) => {
                if inv.now - record.received_at > PROOF_VALIDITY_WINDOW {
                    Err(Error::ProofStale)
                } else {
                    Ok(record)
                }
            },
        }
    }

    /// For tests: puts a proof on record without decoding a message. Works
    /// while the registry is paused, and refuses replays like any receipt.
    pub fn mock_set_proof(&mut self, record: ProofRecord) -> (r: Result<Vec<Event>, Abort<Error>>)
        requires
            old(self).wf(),
        ensures
            final(self).wf(),
            mock_set_step(old(self)@, record@).describes(old(self)@, final(self)@, r),
    {
        if self.proofs.has(record.intent_id) {
            return Err(Abort::Error(Error::ProofAlreadyExists));
        }
        self.proofs.set(record.intent_id, record);
        Ok(Vec::new())
    }

    /// For tests: takes a proof off record.
    pub fn mock_remove_proof(&mut self, intent_id: Bytes32)
        requires
            old(self).wf(),
        ensures
            final(self).wf(),
            final(self)@ == (State {
                proofs: old(self)@.proofs.remove(intent_id),
                ..old(self)@
            }),
    {
        self.proofs.remove(intent_id);
    }
}

// ── Laws ────────────────────────────────────────────────────────────────────

/// A call that a deployed registry offers.
pub enum Call {
    Initialize { admin: Address, wormhole_core: Address },
    Authorize { chain_id: u32, emitter: Bytes32 },
    RemoveEmitter { chain_id: u32 },
    SetPaused { paused: bool },
    Receive { payload: Seq<u8> },
}

/// What a call does.
pub open spec fn step(s: State, inv: Invocation, call: Call) -> Step {
    match call {
        Call::Initialize { admin, wormhole_core } => initialize_step(s, inv, admin, wormhole_core),
        Call::Authorize { chain_id, emitter } => authorize_step(s, inv, chain_id, emitter),
        Call::RemoveEmitter { chain_id } => remove_emitter_step(s, inv, chain_id),
        Call::SetPaused { paused } => set_paused_step(s, inv, paused),
        Call::Receive { payload } => receive_step(s, inv, payload),
    }
}

/// A proof on record stays there as it is, whatever is called.
pub proof fn lemma_proofs_stay(s: State, inv: Invocation, call: Call, intent_id: Bytes32)
    requires
        s.proofs.contains_key(intent_id),
    ensures
        step(s, inv, call) matches Step::Done { next, .. } ==> next.proofs.contains_key(intent_id)
            && next.proofs[intent_id] == s.proofs[intent_id],
{
}

/// A message is taken once: a second receipt for the same intent is refused,
/// whatever else it says.
pub proof fn lemma_no_replay(
    s: State,
    inv: Invocation,
    payload: Seq<u8>,
    later: Invocation,
    other: Seq<u8>,
)
    requires
        other.subrange(0, 32) == payload.subrange(0, 32),
    ensures
        step(s, inv, Call::Receive { payload }) matches Step::Done { next, .. } ==> step(
            next,
            later,
            Call::Receive { payload: other },
        ) is Refused,
{
}

/// Every proof on record is filed under its own intent and was not received in
/// the future.
pub open spec fn proofs_filed(s: State, now: u64) -> bool {
    forall|id: Bytes32| #[trigger]
        s.proofs.contains_key(id) ==> s.proofs[id].intent_id == id && s.proofs[id].received_at
            <= now
}

/// Calls keep the proofs filed.
pub proof fn lemma_proofs_filed(s: State, inv: Invocation, call: Call)
    requires
        proofs_filed(s, inv.now),
    ensures
        step(s, inv, call) matches Step::Done { next, .. } ==> proofs_filed(next, inv.now),
{
}

/// Only the admin changes the trusted emitters or the pause, and while the
/// registry is paused no proof comes in.
pub proof fn lemma_registry_authority(s: State, inv: Invocation, call: Call)
    ensures
        step(s, inv, call) matches Step::Done { next, .. } ==> {
            &&& next.emitters != s.emitters || next.paused != s.paused ==> (s.admin matches Some(
                admin,
            ) && inv.signed(admin))
            &&& s.paused ==> next.proofs == s.proofs
            &&& s.admin is Some ==> next.admin == s.admin
        },
{
}

} // verus!
