//! Message receipt, replay protection, freshness and emitter management.
use vortex::context::{Abort, Invocation};
use vortex::proof_registry::{Error, Event, ProofRecord, ProofRegistry, PROOF_VALIDITY_WINDOW};
use vortex::types::{Address, Bytes32};

/// A registry on a ledger where the admin authorizes whatever it is asked to.
struct Ctx {
    c: ProofRegistry,
    now: u64,
    admin: Address,
    wormhole_core: Address,
}

impl Ctx {
    fn inv(&self) -> Invocation {
        Invocation {
            now: self.now,
            contract: Address::Contract(Bytes32([9; 32])),
            signers: vec![self.admin],
        }
    }
    fn try_receive_message(&mut self, payload: &Vec<u8>) -> Result<Vec<Event>, Error> {
        let inv = self.inv();
        refused(self.c.receive_message(&inv, payload))
    }
    fn receive_message(&mut self, payload: &Vec<u8>) {
        self.try_receive_message(payload).unwrap();
    }
    fn try_get_fresh_proof(&self, id: Bytes32) -> Result<&ProofRecord, Error> {
        self.c.get_fresh_proof(&self.inv(), id)
    }
    fn pause(&mut self) {
        let inv = self.inv();
        self.c.pause(&inv).unwrap();
    }
    fn unpause(&mut self) {
        let inv = self.inv();
        self.c.unpause(&inv).unwrap();
    }
}

fn refused<T>(r: Result<T, Abort<Error>>) -> Result<T, Error> {
    match r {
        Ok(v) => Ok(v),
        Err(Abort::Error(error)) => Err(error),
        Err(Abort::Auth(who)) => panic!("unexpected authorization: {:?}", who),
    }
}

fn setup() -> Ctx {
    let mut ctx = Ctx {
        c: ProofRegistry::new(),
        now: 0,
        admin: Address::Account(Bytes32([1; 32])),
        wormhole_core: Address::Contract(Bytes32([2; 32])),
    };
    let inv = ctx.inv();
    ctx.c.initialize(&inv, ctx.admin, ctx.wormhole_core).unwrap();
    ctx
}

/// Build a deterministic intent ID for use in tests.
fn make_intent_id(seed: u8) -> Bytes32 {
    let mut bytes = [0u8; 32];
    bytes[0] = seed;
    bytes[31] = seed;
    Bytes32(bytes)
}

/// Build a minimal valid 102-byte payload for `receive_message`.
fn make_payload(intent_id: Bytes32, src_chain_id: u16, src_amount: i128) -> Vec<u8> {
    let mut payload = [0u8; 102];
    payload[0..32].copy_from_slice(&intent_id.0);
    payload[52] = (src_chain_id >> 8) as u8;
    payload[53] = (src_chain_id & 0xff) as u8;
    payload[86..102].copy_from_slice(&src_amount.to_be_bytes());
    payload.to_vec()
}

// ─── Initialization ───────────────────────────────────────────────────────────

#[test]
fn initialize_succeeds_once() {
    let mut ctx = setup();
    // Double-initialize must fail.
    let inv = ctx.inv();
    let res = refused(ctx.c.initialize(&inv, ctx.admin, ctx.wormhole_core));
    assert_eq!(res, Err(Error::AlreadyInitialized));
}

// ─── Authorized emitter management ───────────────────────────────────────────

#[test]
fn set_and_get_authorized_emitter() {
    let mut ctx = setup();
    let emitter = Bytes32([0xde; 32]);
    let chain_id: u32 = 2; // Wormhole Ethereum chain ID

    let inv = ctx.inv();
    ctx.c.set_authorized_emitter(&inv, chain_id, emitter).unwrap();
    let stored = ctx.c.get_authorized_emitter(chain_id);
    assert_eq!(stored, Some(emitter));
}

#[test]
fn get_authorized_emitter_returns_none_if_unset() {
    let ctx = setup();
    assert_eq!(ctx.c.get_authorized_emitter(2), None);
}

#[test]
fn remove_authorized_emitter_clears_entry() {
    let mut ctx = setup();
    let emitter = Bytes32([0xab; 32]);
    let inv = ctx.inv();

    ctx.c.set_authorized_emitter(&inv, 2, emitter).unwrap();
    assert!(ctx.c.get_authorized_emitter(2).is_some());

    ctx.c.remove_authorized_emitter(&inv, 2).unwrap();
    assert_eq!(ctx.c.get_authorized_emitter(2), None);
}

// ─── receive_message ─────────────────────────────────────────────────────────

#[test]
fn receive_message_stores_proof() {
    let mut ctx = setup();

    let intent_id = make_intent_id(1);
    let payload = make_payload(intent_id, 2 /* Ethereum */, 1_000_000_000);

    ctx.receive_message(&payload);

    assert!(ctx.c.has_proof(intent_id));

    let record = ctx.c.get_proof(intent_id).expect("proof should exist");
    assert_eq!(record.intent_id, intent_id);
    assert_eq!(record.src_chain_id, 2);
    assert_eq!(record.src_amount, 1_000_000_000);
}

#[test]
fn get_fresh_proof_returns_record_when_fresh() {
    let mut ctx = setup();

    let intent_id = make_intent_id(95);
    let payload = make_payload(intent_id, 2, 1_000_000_000);
    ctx.receive_message(&payload);

    let record = ctx.try_get_fresh_proof(intent_id).unwrap();
    assert_eq!(record.intent_id, intent_id);
}

#[test]
fn get_fresh_proof_rejects_stale_proof() {
    let mut ctx = setup();

    let intent_id = make_intent_id(96);
    let payload = make_payload(intent_id, 2, 1_000_000_000);
    ctx.receive_message(&payload);

    ctx.now += PROOF_VALIDITY_WINDOW + 1;

    let res = ctx.try_get_fresh_proof(intent_id);
    assert_eq!(res.err(), Some(Error::ProofStale));
}

#[test]
fn get_fresh_proof_accepts_exact_boundary() {
    let mut ctx = setup();

    let intent_id = make_intent_id(97);
    let payload = make_payload(intent_id, 2, 1_000_000_000);
    ctx.receive_message(&payload);

    // Exactly at the validity window boundary: still fresh (inclusive).
    ctx.now += PROOF_VALIDITY_WINDOW;
    let record = ctx.try_get_fresh_proof(intent_id).unwrap();
    assert_eq!(record.intent_id, intent_id);
}

#[test]
fn get_fresh_proof_rejects_missing_proof() {
    let ctx = setup();

    let intent_id = make_intent_id(98);
    let res = ctx.try_get_fresh_proof(intent_id);
    assert_eq!(res.err(), Some(Error::ProofNotFound));
}

#[test]
fn receive_message_rejects_duplicate_intent_id() {
    let mut ctx = setup();

    let intent_id = make_intent_id(2);
    let payload = make_payload(intent_id, 2, 500_000_000);

    ctx.receive_message(&payload);

    // Second call with the same intent_id must fail.
    let res = ctx.try_receive_message(&payload);
    assert_eq!(res, Err(Error::ProofAlreadyExists));
}

#[test]
fn receive_message_rejects_wrong_payload_length() {
    let mut ctx = setup();

    // 50 bytes — too short.
    let short = vec![0u8; 50];
    let res = ctx.try_receive_message(&short);
    assert_eq!(res, Err(Error::InvalidPayload));

    // 200 bytes — too long.
    let long = vec![0u8; 200];
    let res = ctx.try_receive_message(&long);
    assert_eq!(res, Err(Error::InvalidPayload));
}

#[test]
fn receive_message_succeeds_while_unpaused() {
    let mut ctx = setup();
    assert!(!ctx.c.is_paused());

    let intent_id = make_intent_id(90);
    let payload = make_payload(intent_id, 2, 1_000_000_000);
    ctx.receive_message(&payload);
    assert!(ctx.c.has_proof(intent_id));
}

#[test]
fn receive_message_rejects_while_paused() {
    let mut ctx = setup();

    ctx.pause();
    assert!(ctx.c.is_paused());

    let intent_id = make_intent_id(91);
    let payload = make_payload(intent_id, 2, 1_000_000_000);
    let res = ctx.try_receive_message(&payload);
    assert_eq!(res, Err(Error::ContractPaused));
}

#[test]
fn reads_remain_available_while_paused() {
    let mut ctx = setup();

    let intent_id = make_intent_id(92);
    let payload = make_payload(intent_id, 2, 1_000_000_000);
    ctx.receive_message(&payload);

    ctx.pause();
    assert!(ctx.c.has_proof(intent_id));
    assert!(ctx.c.get_proof(intent_id).is_some());

    ctx.unpause();
    assert!(!ctx.c.is_paused());
    let intent_id2 = make_intent_id(93);
    let payload2 = make_payload(intent_id2, 2, 1);
    ctx.receive_message(&payload2);
    assert!(ctx.c.has_proof(intent_id2));
}

#[test]
fn receive_message_decodes_src_amount_correctly() {
    let mut ctx = setup();

    let intent_id = make_intent_id(3);
    // Use a distinctive amount: 1 ETH in wei (18-decimal units).
    let eth_amount: i128 = 1_000_000_000_000_000_000;
    let payload = make_payload(intent_id, 2, eth_amount);

    ctx.receive_message(&payload);

    let record = ctx.c.get_proof(intent_id).unwrap();
    assert_eq!(record.src_amount, eth_amount);
}

// ─── has_proof / get_proof ────────────────────────────────────────────────────

#[test]
fn has_proof_returns_false_for_unknown_intent() {
    let ctx = setup();
    let id = make_intent_id(99);
    assert!(!ctx.c.has_proof(id));
}

#[test]
fn get_proof_returns_none_for_unknown_intent() {
    let ctx = setup();
    let id = make_intent_id(99);
    assert!(ctx.c.get_proof(id).is_none());
}

// ─── mock_set_proof ──────────────────────────────────────────────────────────

/// `mock_set_proof` lets tests inject a fully controlled `ProofRecord` without
/// constructing a payload.
#[test]
fn mock_set_proof_injects_controllable_record() {
    let mut ctx = setup();

    let intent_id = make_intent_id(10);

    let record = ProofRecord {
        intent_id,
        src_user: b"0xd8dA6BF26964aF9D7eEd9e03E53415D37aA96045".to_vec(),
        src_chain_id: 2, // Ethereum
        src_token: b"0xA0b86991c6218b36c1d19D4a2e9Eb0cE3606eB48".to_vec(),
        src_amount: 5_000 * 1_000_000, // 5 000 USDC (6 decimals)
        vaa_sequence: 42,
        received_at: ctx.now,
    };

    ctx.c.mock_set_proof(record).unwrap();

    assert!(ctx.c.has_proof(intent_id));
    let stored = ctx.c.get_proof(intent_id).unwrap();
    assert_eq!(stored.src_amount, 5_000 * 1_000_000);
    assert_eq!(stored.src_chain_id, 2);
    assert_eq!(stored.vaa_sequence, 42);
}

/// Calling `mock_set_proof` twice for the same intent_id is rejected, matching
/// the replay protection in `receive_message`.
#[test]
fn mock_set_proof_rejects_duplicate() {
    let mut ctx = setup();

    let intent_id = make_intent_id(11);
    let record = ProofRecord {
        intent_id,
        src_user: b"0xabc".to_vec(),
        src_chain_id: 30, // Base
        src_token: b"0xdef".to_vec(),
        src_amount: 100,
        vaa_sequence: 1,
        received_at: 0,
    };

    ctx.c.mock_set_proof(record.clone()).unwrap();

    let res = refused(ctx.c.mock_set_proof(record));
    assert_eq!(res, Err(Error::ProofAlreadyExists));
}

/// `mock_remove_proof` clears a previously set proof, making `has_proof`
/// return false again.
#[test]
fn mock_remove_proof_clears_stored_record() {
    let mut ctx = setup();

    let intent_id = make_intent_id(12);
    let record = ProofRecord {
        intent_id,
        src_user: b"0x1234".to_vec(),
        src_chain_id: 5, // Polygon
        src_token: b"0x5678".to_vec(),
        src_amount: 999,
        vaa_sequence: 7,
        received_at: 0,
    };

    ctx.c.mock_set_proof(record).unwrap();
    assert!(ctx.c.has_proof(intent_id));

    ctx.c.mock_remove_proof(intent_id);
    assert!(!ctx.c.has_proof(intent_id));
    assert!(ctx.c.get_proof(intent_id).is_none());
}

// ─── Scenario: proof-gated fill simulation ───────────────────────────────────

#[test]
fn proof_gated_fill_simulation_positive_case() {
    let mut ctx = setup();

    let intent_id = make_intent_id(20);
    let expected_amount: i128 = 1_000_000_000_000_000_000; // 1 ETH in wei
    let expected_chain: u32 = 2; // Wormhole Ethereum

    let record = ProofRecord {
        intent_id,
        src_user: b"0xd8dA6BF26964aF9D7eEd9e03E53415D37aA96045".to_vec(),
        src_chain_id: expected_chain,
        src_token: b"0xC02aaA39b223FE8D0A0e5C4F27eAD9083C756Cc2".to_vec(), // WETH
        src_amount: expected_amount,
        vaa_sequence: 100,
        received_at: ctx.now,
    };

    ctx.c.mock_set_proof(record).unwrap();

    // The checks that gate a fill:
    let proof = ctx.c.get_proof(intent_id).expect("proof must exist for fill");
    assert_eq!(proof.src_chain_id, expected_chain, "chain ID must match intent");
    assert!(
        proof.src_amount >= expected_amount,
        "proof amount must meet or exceed intent src_amount"
    );
}

#[test]
fn proof_gated_fill_simulation_amount_insufficient() {
    let mut ctx = setup();

    let intent_id = make_intent_id(21);
    let intent_src_amount: i128 = 2_000_000_000; // intent requires 2 000 USDC

    let record = ProofRecord {
        intent_id,
        src_user: b"0xabc".to_vec(),
        src_chain_id: 2,
        src_token: b"0xusd".to_vec(),
        // Proof shows only 1 000 USDC deposited — less than the intent requires.
        src_amount: 1_000_000_000,
        vaa_sequence: 5,
        received_at: 0,
    };

    ctx.c.mock_set_proof(record).unwrap();

    let proof = ctx.c.get_proof(intent_id).unwrap();
    assert!(
        proof.src_amount < intent_src_amount,
        "proof amount is insufficient — fill should be rejected"
    );
}

#[test]
fn proof_gated_fill_simulation_no_proof() {
    let ctx = setup();
    let intent_id = make_intent_id(22);

    // No proof was set.
    let proof = ctx.c.get_proof(intent_id);
    assert!(proof.is_none(), "no proof should exist for this intent");
}

// ─── Payload layout ──────────────────────────────────────────────────────────

#[test]
fn receive_message_decodes_every_field() {
    let mut ctx = setup();
    ctx.now = 1_234;
    let intent_id = make_intent_id(30);
    let mut payload = make_payload(intent_id, 0x1234, -5);
    for i in 0..20 {
        payload[32 + i] = 0xa0 + i as u8;
    }
    for i in 0..32 {
        payload[54 + i] = i as u8;
    }

    let events = ctx.try_receive_message(&payload).unwrap();
    assert_eq!(
        events,
        vec![Event::ProofReceived { intent_id, src_chain_id: 0x1234, src_amount: -5 }]
    );

    let record = ctx.c.get_proof(intent_id).unwrap();
    assert_eq!(
        record.src_user,
        b"0xa0a1a2a3a4a5a6a7a8a9aaabacadaeafb0b1b2b3".to_vec()
    );
    assert_eq!(
        record.src_token,
        b"0x000102030405060708090a0b0c0d0e0f101112131415161718191a1b1c1d1e1f".to_vec()
    );
    assert_eq!(record.src_chain_id, 0x1234);
    assert_eq!(record.src_amount, -5);
    assert_eq!(record.vaa_sequence, 0);
    assert_eq!(record.received_at, 1_234);
}

#[test]
fn receive_message_decodes_the_extremes_of_the_amount() {
    let mut ctx = setup();
    for (seed, amount) in [(40u8, i128::MAX), (41, i128::MIN), (42, -1), (43, 0)] {
        let id = make_intent_id(seed);
        ctx.receive_message(&make_payload(id, u16::MAX, amount));
        assert_eq!(ctx.c.get_proof(id).unwrap().src_amount, amount);
        assert_eq!(ctx.c.get_proof(id).unwrap().src_chain_id, 65_535);
    }
}

#[test]
fn a_replay_with_other_contents_keeps_the_first_proof() {
    let mut ctx = setup();
    let id = make_intent_id(50);
    ctx.receive_message(&make_payload(id, 2, 10));
    let res = ctx.try_receive_message(&make_payload(id, 3, 99));
    assert_eq!(res, Err(Error::ProofAlreadyExists));
    assert_eq!(ctx.c.get_proof(id).unwrap().src_amount, 10);
    assert_eq!(ctx.c.get_proof(id).unwrap().src_chain_id, 2);
}

// ─── Authority ───────────────────────────────────────────────────────────────

#[test]
fn admin_calls_need_the_admin() {
    let mut ctx = setup();
    let inv = Invocation { now: 0, contract: Address::Contract(Bytes32([9; 32])), signers: vec![] };
    let auth = Err(Abort::Auth(ctx.admin));
    assert_eq!(ctx.c.pause(&inv), auth);
    assert_eq!(ctx.c.unpause(&inv), auth);
    assert_eq!(ctx.c.set_authorized_emitter(&inv, 1, Bytes32([0; 32])), auth);
    assert_eq!(ctx.c.remove_authorized_emitter(&inv, 1), auth);
    assert!(!ctx.c.is_paused());
}

#[test]
fn admin_calls_need_initialization() {
    let mut c = ProofRegistry::new();
    let inv = Invocation { now: 0, contract: Address::Contract(Bytes32([9; 32])), signers: vec![] };
    assert_eq!(c.pause(&inv), Err(Abort::Error(Error::NotInitialized)));
    let admin = Address::Account(Bytes32([1; 32]));
    assert_eq!(c.initialize(&inv, admin, admin), Err(Abort::Auth(admin)));
}

#[test]
fn mock_set_proof_ignores_the_pause() {
    let mut ctx = setup();
    ctx.pause();
    let record = ProofRecord {
        intent_id: make_intent_id(60),
        src_user: vec![],
        src_chain_id: 2,
        src_token: vec![],
        src_amount: 1,
        vaa_sequence: 0,
        received_at: 0,
    };
    ctx.c.mock_set_proof(record).unwrap();
    assert!(ctx.c.has_proof(make_intent_id(60)));
}

#[test]
fn emitter_and_pause_calls_announce_themselves() {
    let mut ctx = setup();
    let inv = ctx.inv();
    let emitter = Bytes32([7; 32]);
    assert_eq!(
        ctx.c.set_authorized_emitter(&inv, 30, emitter),
        Ok(vec![Event::EmitterAuthorized { chain_id: 30, emitter }])
    );
    assert_eq!(
        ctx.c.remove_authorized_emitter(&inv, 30),
        Ok(vec![Event::EmitterRemoved { chain_id: 30 }])
    );
    assert_eq!(ctx.c.pause(&inv), Ok(vec![Event::Paused { paused: true }]));
    assert_eq!(ctx.c.unpause(&inv), Ok(vec![Event::Paused { paused: false }]));
}

#[test]
fn proof_error_codes() {
    let codes = [
        (Error::AlreadyInitialized, 1),
        (Error::Unauthorized, 2),
        (Error::EmitterNotAuthorized, 3),
        (Error::ProofAlreadyExists, 4),
        (Error::ProofNotFound, 5),
        (Error::InvalidPayload, 6),
        (Error::NotInitialized, 7),
        (Error::ContractPaused, 8),
        (Error::ProofStale, 9),
    ];
    for (error, code) in codes {
        assert_eq!(error.code(), code);
    }
}
