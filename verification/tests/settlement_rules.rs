//! Boundaries, errors, events and the laws of the settlement contract on
//! concrete values.
use soroban_sdk::address_payload::AddressPayload;
use soroban_sdk::xdr::ToXdr;
use soroban_sdk::{Bytes, BytesN, Env, String as HostString};
use vortex::context::{Abort, Invocation};
use vortex::encoding::{bytes_to_hex_string, push_i128, push_u64, read_be, read_i128};
use vortex::settlement::intent_id::{compute_intent_id, encode_intent_preimage};
use vortex::settlement::token_format::validate_src_token;
use vortex::settlement::types::{
    CANCEL_COOLDOWN, FILL_WINDOW, INTENT_EXPIRY, MAX_AMOUNT, MIN_BOND, SLASH_COOLDOWN,
};
use vortex::settlement::{
    Effect, Error, Event, IntentRecord, IntentSettlement, IntentState, ProtocolConfig,
    SolverRecord,
};
use vortex::table::{Table, TextSet};
use vortex::types::{Address, Bytes32};

const BOND: i128 = 1_000 * 10_000_000;
const SRC_AMT: i128 = 500_000_000;
const MIN_DST: i128 = 100 * 10_000_000;
const FILL: i128 = 105 * 10_000_000;
const DELAY: u64 = 172_800;
const EVM_TOKEN: &str = "0xA0b86991c6218b36c1d19D4a2e9Eb0cE3606eB48";

/// A ledger with one settlement contract, on which every address authorizes
/// whatever it is asked to.
struct Ctx {
    env: Env,
    c: IntentSettlement,
    now: u64,
    contract_id: Address,
    admin: Address,
    fee_recipient: Address,
    user: Address,
    solver: Address,
    bond_token: Address,
    dst_token: Address,
    generated: u8,
    balances: Vec<(Address, Address, i128)>,
    authorized: Vec<Address>,
    effects: Vec<Effect>,
}

impl Ctx {
    fn generate(&mut self) -> Address {
        self.generated += 1;
        Address::Account(Bytes32([self.generated; 32]))
    }

    fn balance(&self, token: Address, who: Address) -> i128 {
        self.balances
            .iter()
            .filter(|(t, a, _)| *t == token && *a == who)
            .map(|(_, _, amount)| *amount)
            .sum()
    }

    fn mint(&mut self, token: Address, to: Address, amount: i128) {
        self.balances.push((token, to, amount));
    }

    /// Calls the contract, asking each address for the authorization that the
    /// call turns out to need, and carries out the effects.
    fn call(
        &mut self,
        f: impl Fn(&mut IntentSettlement, &Invocation) -> Result<Vec<Effect>, Abort<Error>>,
    ) -> Result<(), Error> {
        let mut signers: Vec<Address> = Vec::new();
        loop {
            let inv = Invocation {
                now: self.now,
                contract: self.contract_id,
                signers: signers.clone(),
            };
            match f(&mut self.c, &inv) {
                Ok(effects) => {
                    for effect in effects.iter() {
                        if let Effect::Transfer { token, from, to, amount } = effect {
                            assert!(self.balance(*token, *from) >= *amount, "insufficient balance");
                            self.balances.push((*token, *from, -*amount));
                            self.balances.push((*token, *to, *amount));
                        }
                    }
                    self.effects = effects;
                    self.authorized = signers;
                    return Ok(());
                }
                Err(Abort::Error(error)) => return Err(error),
                Err(Abort::Auth(who)) => signers.push(who),
            }
        }
    }

    fn try_register_solver(&mut self, solver: Address, bond: i128) -> Result<(), Error> {
        self.call(|c, inv| c.register_solver(inv, solver, bond))
    }
    fn try_deregister_solver(&mut self, solver: Address) -> Result<(), Error> {
        self.call(|c, inv| c.deregister_solver(inv, solver))
    }
    fn try_withdraw_bond(&mut self, solver: Address, amount: i128) -> Result<(), Error> {
        self.call(|c, inv| c.withdraw_bond(inv, solver, amount))
    }
    fn try_accept_intent(&mut self, solver: Address, id: Bytes32) -> Result<(), Error> {
        self.call(|c, inv| c.accept_intent(inv, solver, id))
    }
    fn try_fill_intent(&mut self, solver: Address, id: Bytes32, amount: i128) -> Result<(), Error> {
        self.call(|c, inv| c.fill_intent(inv, solver, id, amount))
    }
    fn try_cancel_intent(&mut self, user: Address, id: Bytes32) -> Result<(), Error> {
        self.call(|c, inv| c.cancel_intent(inv, user, id))
    }
    fn try_slash_solver(&mut self, id: Bytes32) -> Result<(), Error> {
        self.call(|c, inv| c.slash_solver(inv, id))
    }
    fn try_expire_intent(&mut self, id: Bytes32) -> Result<(), Error> {
        self.call(|c, inv| c.expire_intent(inv, id))
    }
    fn try_rescue_tokens(
        &mut self,
        token: Address,
        to: Address,
        amount: i128,
    ) -> Result<(), Error> {
        self.call(|c, inv| c.rescue_tokens(inv, token, to, amount))
    }

    fn register_solver(&mut self, solver: Address, bond: i128) {
        self.try_register_solver(solver, bond).unwrap();
    }
    fn deregister_solver(&mut self, solver: Address) {
        self.try_deregister_solver(solver).unwrap();
    }
    fn withdraw_bond(&mut self, solver: Address, amount: i128) {
        self.try_withdraw_bond(solver, amount).unwrap();
    }
    fn accept_intent(&mut self, solver: Address, id: Bytes32) {
        self.try_accept_intent(solver, id).unwrap();
    }
    fn fill_intent(&mut self, solver: Address, id: Bytes32, amount: i128) {
        self.try_fill_intent(solver, id, amount).unwrap();
    }
    fn cancel_intent(&mut self, user: Address, id: Bytes32) {
        self.try_cancel_intent(user, id).unwrap();
    }
    fn slash_solver(&mut self, id: Bytes32) {
        self.try_slash_solver(id).unwrap();
    }
    fn expire_intent(&mut self, id: Bytes32) {
        self.try_expire_intent(id).unwrap();
    }
    fn pause(&mut self) {
        let admin = self.admin;
        self.call(|c, inv| c.pause(inv, admin)).unwrap();
    }
    fn unpause(&mut self) {
        self.call(|c, inv| c.unpause(inv)).unwrap();
    }
    fn allow_dst_token(&mut self, token: Address) {
        self.call(|c, inv| c.propose_add_dst_token(inv, token, true)).unwrap();
        self.pass_time(DELAY);
        self.call(|c, inv| c.execute_add_dst_token(inv, token)).unwrap();
    }
    fn enable_dst_allowlist(&mut self, enabled: bool) {
        self.call(|c, inv| c.set_dst_allowlist_enabled(inv, enabled)).unwrap();
    }
    fn enable_src_chain_allowlist(&mut self, enabled: bool) {
        self.call(|c, inv| c.set_src_chain_allowlist_enabled(inv, enabled)).unwrap();
    }

    fn is_solver_eligible(&self, solver: Address) -> bool {
        let inv = Invocation { now: self.now, contract: self.contract_id, signers: vec![] };
        self.c.is_solver_eligible(&inv, solver)
    }
    fn get_solver(&self, solver: Address) -> Option<SolverRecord> {
        self.c.get_solver(solver)
    }
    fn get_intent(&self, id: Bytes32) -> Option<&IntentRecord> {
        self.c.get_intent(id)
    }

    /// Mint a bond to the solver and register them.
    fn register(&mut self) {
        self.mint(self.bond_token, self.solver, BOND);
        self.register_solver(self.solver, BOND);
    }

    fn try_submit_intent(
        &mut self,
        chain: &str,
        token: &str,
        amount: i128,
        min: i128,
        deadline: Option<u64>,
    ) -> Result<Bytes32, Error> {
        let inv = Invocation {
            now: self.now,
            contract: self.contract_id,
            signers: vec![self.user],
        };
        match self.c.submit_intent(
            &self.env,
            &inv,
            self.user,
            chain.as_bytes().to_vec(),
            token.as_bytes().to_vec(),
            amount,
            self.dst_token,
            min,
            deadline,
        ) {
            Ok((id, effects)) => {
                self.effects = effects;
                Ok(id)
            }
            Err(Abort::Error(error)) => Err(error),
            Err(Abort::Auth(who)) => panic!("unexpected authorization: {:?}", who),
        }
    }

    /// Submit a standard open intent and return its id.
    fn submit(&mut self) -> Bytes32 {
        self.try_submit_intent("ethereum", EVM_TOKEN, SRC_AMT, MIN_DST, None).unwrap()
    }

    /// Advance ledger time by `secs` seconds.
    fn pass_time(&mut self, secs: u64) {
        self.now += secs;
    }
}

fn setup() -> Ctx {
    let mut ctx = Ctx {
        env: Env::default(),
        c: IntentSettlement::new(),
        now: 0,
        contract_id: Address::Contract(Bytes32([201; 32])),
        admin: Address::Account(Bytes32([0; 32])),
        fee_recipient: Address::Account(Bytes32([0; 32])),
        user: Address::Account(Bytes32([0; 32])),
        solver: Address::Account(Bytes32([0; 32])),
        bond_token: Address::Contract(Bytes32([202; 32])),
        dst_token: Address::Contract(Bytes32([203; 32])),
        generated: 0,
        balances: Vec::new(),
        authorized: Vec::new(),
        effects: Vec::new(),
    };
    ctx.admin = ctx.generate();
    ctx.fee_recipient = ctx.generate();
    ctx.user = ctx.generate();
    ctx.solver = ctx.generate();
    let (admin, fee_recipient, bond_token) = (ctx.admin, ctx.fee_recipient, ctx.bond_token);
    ctx.call(|c, inv| c.initialize(inv, admin, fee_recipient, bond_token)).unwrap();
    ctx
}

impl Ctx {
    /// Delivers `amount`, funded together with its fee at `bps`.
    fn deliver(&mut self, id: Bytes32, amount: i128, bps: i128) {
        self.mint(self.dst_token, self.solver, amount + amount * bps / 10_000);
        self.fill_intent(self.solver, id, amount);
    }

    fn accepted(&mut self) -> Bytes32 {
        let id = self.submit();
        self.accept_intent(self.solver, id);
        id
    }

    fn events(&self) -> Vec<Event> {
        self.effects
            .iter()
            .filter_map(|e| match e {
                Effect::Emit { event } => Some(event.clone()),
                _ => None,
            })
            .collect()
    }

    /// The counters agree with the records.
    fn assert_books_balance(&self) {
        let (intents, volume, open) = self.c.get_stats();
        let records: Vec<&IntentRecord> = self.c.intents.entries.iter().map(|(_, i)| i).collect();
        let is_open = |i: &IntentRecord| {
            i.state == IntentState::Open || i.state == IntentState::PartiallyFilled
        };
        assert_eq!(intents as usize, records.len());
        assert_eq!(open as usize, records.iter().filter(|i| is_open(i)).count());
        assert_eq!(volume, records.iter().map(|i| i.total_filled).sum::<i128>());
        assert_eq!(self.c.get_solver_count() as usize, self.c.solvers.entries.len());
        let mut bonds: i128 = 0;
        for (a, r) in self.c.solvers.entries.iter() {
            let held = records
                .iter()
                .filter(|i| i.state == IntentState::Accepted && i.solver == Some(*a))
                .count();
            assert_eq!(r.active_intents as usize, held);
            bonds += r.bond_amount;
        }
        assert_eq!(self.balance(self.bond_token, self.contract_id), bonds);
        let listed: usize = self.c.user_intents.entries.iter().map(|(_, ids)| ids.len()).sum();
        assert_eq!(intents as usize, listed);
        let awaiting = records
            .iter()
            .filter(|i| i.state == IntentState::Accepted && i.dst_token == self.dst_token)
            .count();
        let counted = self.c.accepted_by_token.get(self.dst_token).copied().unwrap_or(0);
        assert_eq!(counted as usize, awaiting);
    }

    /// The call began by extending the instance.
    fn assert_instance_extended(&self) {
        assert_eq!(self.effects[0], Effect::ExtendInstance);
    }
}

// ─── Ids ────────────────────────────────────────────────────────────────────────

/// What the SDK itself makes of the parts of an id.
fn sdk_preimage(
    env: &Env,
    user: &Address,
    chain: &str,
    amount: i128,
    timestamp: u64,
    nonce: u64,
) -> Bytes {
    let payload = match user {
        Address::Account(key) => {
            AddressPayload::AccountIdPublicKeyEd25519(BytesN::from_array(env, &key.0))
        }
        Address::Contract(hash) => AddressPayload::ContractIdHash(BytesN::from_array(env, &hash.0)),
    };
    let mut preimage = Bytes::new(env);
    preimage.append(&payload.to_address(env).to_xdr(env));
    preimage.append(&HostString::from_str(env, chain).to_xdr(env));
    preimage.extend_from_array(&amount.to_be_bytes());
    preimage.extend_from_array(&timestamp.to_be_bytes());
    preimage.extend_from_array(&nonce.to_be_bytes());
    preimage
}

#[test]
fn preimage_of_an_account_is_laid_out_in_full() {
    let env = Env::default();
    let user = Address::Account(Bytes32([7; 32]));
    let preimage =
        encode_intent_preimage(&env, &user, &b"base".to_vec(), 258, 0x0102, 3);
    let mut expected: Vec<u8> = vec![0, 0, 0, 18, 0, 0, 0, 0, 0, 0, 0, 0];
    expected.extend_from_slice(&[7; 32]);
    expected.extend_from_slice(&[0, 0, 0, 14, 0, 0, 0, 4]);
    expected.extend_from_slice(b"base");
    expected.extend_from_slice(&[0, 0, 0, 0, 0, 0, 0, 0, 0, 0, 0, 0, 0, 0, 1, 2]);
    expected.extend_from_slice(&[0, 0, 0, 0, 0, 0, 1, 2]);
    expected.extend_from_slice(&[0, 0, 0, 0, 0, 0, 0, 3]);
    assert_eq!(preimage, expected);
}

#[test]
fn preimage_of_a_contract_pads_the_chain() {
    let env = Env::default();
    let user = Address::Contract(Bytes32([9; 32]));
    let preimage = encode_intent_preimage(&env, &user, &b"polygon".to_vec(), 1, 0, 0);
    let mut expected: Vec<u8> = vec![0, 0, 0, 18, 0, 0, 0, 1];
    expected.extend_from_slice(&[9; 32]);
    expected.extend_from_slice(&[0, 0, 0, 14, 0, 0, 0, 7]);
    expected.extend_from_slice(b"polygon");
    expected.push(0);
    expected.extend_from_slice(&1i128.to_be_bytes());
    expected.extend_from_slice(&[0; 16]);
    assert_eq!(preimage, expected);
}

#[test]
fn ids_are_the_digests_that_the_host_computes() {
    let env = Env::default();
    for user in [Address::Account(Bytes32([7; 32])), Address::Contract(Bytes32([8; 32]))] {
        for chain in ["", "base", "polygon", "ethereum", "arbitrum-one"] {
            let preimage = sdk_preimage(&env, &user, chain, SRC_AMT, 1_700_000_000, 5);
            let digest = env.crypto().sha256(&preimage).to_array();
            let chain = chain.as_bytes().to_vec();
            let id = compute_intent_id(&env, &user, &chain, SRC_AMT, 1_700_000_000, 5);
            assert_eq!(id, Bytes32(digest));
        }
    }
}

#[test]
fn identical_submissions_get_different_ids() {
    let mut ctx = setup();
    let first = ctx.submit();
    let second = ctx.submit();
    assert_ne!(first, second);
    assert_eq!(ctx.c.list_intents_by_user(ctx.user), vec![first, second]);
    assert_eq!(ctx.c.list_intents_by_user(ctx.solver), vec![]);
    assert_eq!(
        first,
        compute_intent_id(&ctx.env, &ctx.user, &b"ethereum".to_vec(), SRC_AMT, 0, 0)
    );
    assert_eq!(
        second,
        compute_intent_id(&ctx.env, &ctx.user, &b"ethereum".to_vec(), SRC_AMT, 0, 1)
    );
}

#[test]
fn a_taken_id_is_refused() {
    let mut ctx = setup();
    let id = ctx.submit();
    let (user, dst_token) = (ctx.user, ctx.dst_token);
    let res = ctx.call(|c, inv| {
        c.submit_intent_with_id(
            inv,
            user,
            b"base".to_vec(),
            EVM_TOKEN.as_bytes().to_vec(),
            1,
            dst_token,
            1,
            None,
            id,
        )
    });
    assert_eq!(res, Err(Error::IntentAlreadyExists));
    assert_eq!(ctx.get_intent(id).unwrap().src_amount, SRC_AMT);
}

// ─── Submission ─────────────────────────────────────────────────────────────────

#[test]
fn a_submission_records_everything() {
    let mut ctx = setup();
    ctx.pass_time(50);
    let id = ctx.try_submit_intent("ethereum", EVM_TOKEN, SRC_AMT, MIN_DST, Some(99)).unwrap();
    let intent = ctx.get_intent(id).unwrap();
    assert_eq!(intent.intent_id, id);
    assert_eq!(intent.src_chain, b"ethereum".to_vec());
    assert_eq!(intent.src_token, EVM_TOKEN.as_bytes().to_vec());
    assert_eq!(intent.src_amount, SRC_AMT);
    assert_eq!(intent.dst_token, ctx.dst_token);
    assert_eq!(intent.created_at, 50);
    assert_eq!(intent.deadline, 99);
    assert_eq!(intent.filled_at, None);
    assert_eq!(intent.fill_amount, None);
    assert_eq!(intent.total_filled, 0);
    assert_eq!(
        ctx.effects,
        vec![
            Effect::ExtendInstance,
            Effect::ExtendIntent { intent_id: id },
            Effect::Emit {
                event: Event::IntentSubmitted {
                    user: ctx.user,
                    intent_id: id,
                    min_dst_amount: MIN_DST,
                    deadline: 99,
                }
            },
        ]
    );
    let id = ctx.submit();
    assert_eq!(ctx.get_intent(id).unwrap().deadline, 50 + INTENT_EXPIRY);
}

#[test]
fn submission_bounds() {
    let mut ctx = setup();
    ctx.pass_time(10);
    let mut submit = |amount: i128, min: i128, deadline: Option<u64>| {
        ctx.try_submit_intent("ethereum", EVM_TOKEN, amount, min, deadline).map(|_| ())
    };
    assert_eq!(submit(1, 0, None), Err(Error::ZeroAmount));
    assert_eq!(submit(-1, 1, None), Err(Error::ZeroAmount));
    assert_eq!(submit(MAX_AMOUNT, MAX_AMOUNT, None), Ok(()));
    assert_eq!(submit(MAX_AMOUNT + 1, 1, None), Err(Error::AmountTooLarge));
    assert_eq!(submit(1, MAX_AMOUNT + 1, None), Err(Error::AmountTooLarge));
    assert_eq!(submit(1, 1, Some(10)), Err(Error::InvalidDeadline));
    assert_eq!(submit(1, 1, Some(11)), Ok(()));
}

#[test]
fn a_malformed_source_token_is_refused() {
    let mut ctx = setup();
    let res = ctx.try_submit_intent("ethereum", "0xabc", SRC_AMT, MIN_DST, None);
    assert_eq!(res, Err(Error::InvalidSrcToken));
    assert_eq!(ctx.c.get_stats().0, 0);
    ctx.try_submit_intent("some-new-chain", "0xabc", SRC_AMT, MIN_DST, None).unwrap();
}

#[test]
fn token_formats() {
    let check = |chain: &str, token: &str| {
        validate_src_token(&chain.as_bytes().to_vec(), &token.as_bytes().to_vec())
    };
    let digits = "0123456789abcdefABCDEF0123456789abcdefAB";
    assert_eq!(digits.len(), 40);
    let good = format!("0x{digits}");
    for chain in ["ethereum", "base", "polygon", "arbitrum", "optimism"] {
        assert!(check(chain, &good));
        assert!(!check(chain, &format!("0x{}", &digits[1..])));
        assert!(!check(chain, &format!("0x{digits}0")));
        assert!(!check(chain, &format!("0X{digits}")));
        assert!(!check(chain, &format!("1x{digits}")));
        assert!(!check(chain, &format!("0x{}g", &digits[1..])));
        assert!(!check(chain, &format!("0x{}/", &digits[1..])));
        assert!(!check(chain, &format!("0x{}@", &digits[1..])));
        assert!(!check(chain, &format!("0x{}`", &digits[1..])));
        assert!(!check(chain, ""));
        assert!(!check(chain, &"0".repeat(65)));
    }
    let alphabet = "123456789ABCDEFGHJKLMNPQRSTUVWXYZabcdefghijkmnopqrstuvwxyz";
    assert!(check("solana", &alphabet[..32]));
    assert!(check("solana", &alphabet[..44]));
    assert!(check("solana", &alphabet[14..58]));
    assert!(!check("solana", &alphabet[..31]));
    assert!(!check("solana", &alphabet[..45]));
    assert!(!check("solana", &alphabet.repeat(2)));
    assert!(!check("solana", &good));
    for bad in ["0", "I", "O", "l", "_", " ", "{"] {
        assert!(!check("solana", &format!("{}{bad}", &alphabet[..40])));
    }
    for unknown in ["", "Ethereum", "ethereum2", "avalanche", "bsc", "a-very-long-chain-name"] {
        assert!(check(unknown, ""));
        assert!(check(unknown, "anything"));
    }
}

// ─── Deadlines ──────────────────────────────────────────────────────────────────

#[test]
fn the_deadline_second_belongs_to_expiry_and_slashing() {
    let mut ctx = setup();
    ctx.register();
    let id = ctx.submit();
    ctx.pass_time(INTENT_EXPIRY - 1);
    assert_eq!(ctx.try_expire_intent(id), Err(Error::DeadlineNotReached));
    ctx.pass_time(1);
    assert_eq!(ctx.try_accept_intent(ctx.solver, id), Err(Error::IntentExpired));
    ctx.expire_intent(id);

    let id = ctx.accepted();
    ctx.pass_time(FILL_WINDOW - 1);
    assert_eq!(ctx.try_slash_solver(id), Err(Error::FillWindowExpired));
    ctx.pass_time(1);
    assert_eq!(ctx.try_fill_intent(ctx.solver, id, FILL), Err(Error::FillWindowExpired));
    ctx.slash_solver(id);
    ctx.assert_books_balance();
}

#[test]
fn an_ended_intent_stays_as_it_is() {
    let mut ctx = setup();
    ctx.register();
    let id = ctx.accepted();
    ctx.deliver(id, FILL, 5);
    let solver = ctx.solver;
    assert_eq!(ctx.try_fill_intent(solver, id, FILL), Err(Error::IntentAlreadyFilled));
    assert_eq!(ctx.try_accept_intent(solver, id), Err(Error::IntentNotOpen));
    assert_eq!(ctx.try_cancel_intent(ctx.user, id), Err(Error::IntentNotOpen));
    assert_eq!(ctx.try_expire_intent(id), Err(Error::IntentNotOpen));
    assert_eq!(ctx.try_slash_solver(id), Err(Error::IntentNotAccepted));
    assert_eq!(
        ctx.call(|c, inv| c.request_extension(inv, solver, id)),
        Err(Error::IntentNotAccepted)
    );
    assert_eq!(ctx.get_intent(id).unwrap().filled_at, Some(0));
}

#[test]
fn filling_an_open_intent_is_refused() {
    let mut ctx = setup();
    ctx.register();
    let id = ctx.submit();
    assert_eq!(ctx.try_fill_intent(ctx.solver, id, FILL), Err(Error::IntentNotAccepted));
    assert_eq!(
        ctx.try_fill_intent(ctx.solver, Bytes32([0; 32]), FILL),
        Err(Error::IntentNotFound)
    );
    ctx.accept_intent(ctx.solver, id);
    assert_eq!(ctx.try_fill_intent(ctx.solver, id, 0), Err(Error::ZeroAmount));
}

// ─── Partial fills ──────────────────────────────────────────────────────────────

#[test]
fn partial_fills_reopen_the_intent_until_the_minimum_is_met() {
    let mut ctx = setup();
    ctx.register();
    let id = ctx.accepted();
    ctx.pass_time(7);
    ctx.deliver(id, MIN_DST - 1, 5);

    let intent = ctx.get_intent(id).unwrap();
    assert!(intent.state == IntentState::PartiallyFilled);
    assert_eq!(intent.solver, None);
    assert_eq!(intent.total_filled, MIN_DST - 1);
    assert_eq!(intent.fill_amount, Some(MIN_DST - 1));
    assert_eq!(intent.deadline, 7 + INTENT_EXPIRY);
    assert_eq!(ctx.c.get_stats(), (1, MIN_DST - 1, 1));
    assert_eq!(ctx.get_solver(ctx.solver).unwrap().fills_completed, 0);
    ctx.assert_books_balance();

    // A slash keeps the progress.
    ctx.accept_intent(ctx.solver, id);
    ctx.pass_time(FILL_WINDOW);
    ctx.slash_solver(id);
    assert!(ctx.get_intent(id).unwrap().state == IntentState::PartiallyFilled);
    assert_eq!(ctx.get_intent(id).unwrap().total_filled, MIN_DST - 1);

    ctx.pass_time(SLASH_COOLDOWN);
    assert_eq!(ctx.try_accept_intent(ctx.solver, id), Err(Error::IntentExpired));
    ctx.expire_intent(id);
    assert!(ctx.get_intent(id).unwrap().state == IntentState::Expired);
    ctx.assert_books_balance();

    let id = ctx.accepted();
    ctx.deliver(id, 1, 5);
    ctx.accept_intent(ctx.solver, id);
    ctx.deliver(id, MIN_DST - 1, 5);
    assert!(ctx.get_intent(id).unwrap().state == IntentState::Filled);
    assert_eq!(ctx.get_intent(id).unwrap().fill_amount, Some(MIN_DST));
    assert_eq!(ctx.balance(ctx.dst_token, ctx.user), 2 * MIN_DST - 1);
    ctx.assert_books_balance();
}

#[test]
fn a_partially_filled_intent_can_be_cancelled() {
    let mut ctx = setup();
    ctx.register();
    let id = ctx.accepted();
    ctx.deliver(id, 1, 5);
    ctx.cancel_intent(ctx.user, id);
    assert!(ctx.get_intent(id).unwrap().state == IntentState::Cancelled);
    ctx.assert_books_balance();
}

#[test]
fn the_effects_of_a_fill_in_order() {
    let mut ctx = setup();
    ctx.register();
    let id = ctx.accepted();
    ctx.deliver(id, FILL, 5);
    assert_eq!(
        ctx.effects,
        vec![
            Effect::ExtendInstance,
            Effect::ExtendSolver { solver: ctx.solver },
            Effect::ExtendIntent { intent_id: id },
            Effect::Transfer {
                token: ctx.dst_token,
                from: ctx.solver,
                to: ctx.user,
                amount: FILL,
            },
            Effect::Transfer {
                token: ctx.dst_token,
                from: ctx.solver,
                to: ctx.fee_recipient,
                amount: 525_000,
            },
            Effect::Emit {
                event: Event::IntentFilled {
                    solver: ctx.solver,
                    intent_id: id,
                    fill_amount: FILL,
                    fee: 525_000,
                }
            },
        ]
    );
}

#[test]
fn a_fill_too_small_for_a_fee_pays_none() {
    let mut ctx = setup();
    ctx.register();
    let id = ctx.accepted();
    ctx.deliver(id, 1_999, 5);
    assert_eq!(ctx.effects.len(), 5);
    assert_eq!(ctx.balance(ctx.dst_token, ctx.fee_recipient), 0);
    ctx.accept_intent(ctx.solver, id);
    ctx.deliver(id, 2_000, 5);
    assert_eq!(ctx.balance(ctx.dst_token, ctx.fee_recipient), 1);
}

// ─── Fee discounts ──────────────────────────────────────────────────────────────

#[test]
fn discounts_follow_the_highest_tier_reached() {
    let mut ctx = setup();
    ctx.call(|c, inv| c.set_config(inv, MIN_BOND, 300, 1_800, 1_000)).unwrap();
    let tiers = vec![(100, 1_000), (200, 2_555), (300, 10_000)];
    ctx.call(|c, inv| c.set_fee_discount_tiers(inv, tiers.clone())).unwrap();
    assert_eq!(ctx.events(), vec![Event::FeeDiscountTiersSet { tiers: 3 }]);
    ctx.register();
    let expected =
        [(0, 1_000), (99, 1_000), (100, 900), (199, 900), (200, 745), (299, 745), (300, 0)];
    for (volume, rate) in expected {
        let mut record = ctx.get_solver(ctx.solver).unwrap();
        record.total_volume = volume;
        ctx.c.solvers.set(ctx.solver, record);
        assert_eq!(ctx.c.get_fee_schedule(ctx.solver), (tiers.clone(), rate));
        assert_eq!(ctx.c.get_tiered_fee_bps(ctx.solver), rate);
    }
    // A solver that is not registered has no volume.
    let stranger = ctx.generate();
    assert_eq!(ctx.c.get_tiered_fee_bps(stranger), 1_000);
}

#[test]
fn discount_schedules_that_are_refused() {
    let mut ctx = setup();
    let bad = [
        vec![(-1, 0)],
        vec![(0, 10_001)],
        vec![(5, 1), (5, 2)],
        vec![(5, 1), (4, 2)],
        vec![(1, 1), (2, 2), (2, 3)],
    ];
    for tiers in bad {
        let res = ctx.call(|c, inv| c.set_fee_discount_tiers(inv, tiers.clone()));
        assert_eq!(res, Err(Error::InvalidFeeTiers));
    }
    ctx.call(|c, inv| c.set_fee_discount_tiers(inv, vec![(0, 10_000)])).unwrap();
    ctx.call(|c, inv| c.set_fee_discount_tiers(inv, vec![])).unwrap();
    assert_eq!(ctx.c.get_fee_schedule(ctx.solver), (vec![], 5));
}

// ─── Reputation ─────────────────────────────────────────────────────────────────

#[test]
fn settlement_reputation_values() {
    let score = |completed: u32, failed: u32, volume: i128| {
        IntentSettlement::compute_reputation_score(SolverRecord {
            address: Address::Account(Bytes32([1; 32])),
            bond_amount: 0,
            fills_completed: completed,
            fills_failed: failed,
            total_volume: volume,
            is_active: true,
            registered_at: 0,
            active_intents: 0,
            last_slash_time: 0,
        })
    };
    assert_eq!(score(0, 0, 0), 0);
    assert_eq!(score(0, 5, i128::MAX), 0);
    assert_eq!(score(1, 0, 0), 9_000);
    assert_eq!(score(1, 0, -5), 9_000);
    assert_eq!(score(8, 2, 0), 7_200);
    assert_eq!(score(1, 0, 1_000_000_000_000), 9_500);
    assert_eq!(score(1, 0, i128::MAX), 10_000);
    assert_eq!(score(u32::MAX, u32::MAX, i128::MAX), 5_000);
    assert_eq!(score(1, 2, 0), 2_999);
}

#[test]
fn reputation_of_a_registered_solver() {
    let mut ctx = setup();
    assert_eq!(ctx.c.get_reputation_score(ctx.solver), None);
    ctx.register();
    assert_eq!(ctx.c.get_reputation_score(ctx.solver), Some(0));
    let id = ctx.accepted();
    ctx.deliver(id, FILL, 5);
    assert_eq!(ctx.c.get_reputation_score(ctx.solver), Some(9_002));
}

// ─── Bonds ──────────────────────────────────────────────────────────────────────

#[test]
fn a_bond_multiplier_raises_what_accepting_takes() {
    let mut ctx = setup();
    let token = ctx.dst_token;
    assert_eq!(ctx.c.get_min_bond_multiplier(token), 10);
    assert_eq!(
        ctx.call(|c, inv| c.set_min_bond_multiplier(inv, token, 0)),
        Err(Error::ZeroAmount)
    );
    ctx.call(|c, inv| c.set_min_bond_multiplier(inv, token, 15)).unwrap();
    assert_eq!(ctx.c.get_min_bond_multiplier(token), 15);

    ctx.mint(ctx.bond_token, ctx.solver, BOND);
    ctx.register_solver(ctx.solver, MIN_BOND * 15 / 10 - 1);
    let id = ctx.submit();
    assert_eq!(ctx.try_accept_intent(ctx.solver, id), Err(Error::SolverBondTooLow));
    ctx.register_solver(ctx.solver, 1);
    ctx.accept_intent(ctx.solver, id);
}

#[test]
fn a_slashed_solver_waits_before_accepting_again() {
    let mut ctx = setup();
    ctx.register();
    let id = ctx.accepted();
    ctx.pass_time(FILL_WINDOW);
    ctx.slash_solver(id);
    assert!(ctx.get_solver(ctx.solver).unwrap().is_active);
    assert_eq!(ctx.try_accept_intent(ctx.solver, id), Err(Error::SolverInactive));
    ctx.pass_time(SLASH_COOLDOWN - 1);
    assert_eq!(ctx.try_accept_intent(ctx.solver, id), Err(Error::SolverInactive));
    ctx.pass_time(1);
    let id = ctx.submit();
    ctx.accept_intent(ctx.solver, id);
}

#[test]
fn slash_amounts() {
    for (bond, taken) in [(BOND, BOND / 10), (19, 1), (20, 2), (10, 1), (9, 1), (1, 1)] {
        let mut ctx = setup();
        ctx.register();
        let id = ctx.accepted();
        let mut record = ctx.get_solver(ctx.solver).unwrap();
        record.bond_amount = bond;
        ctx.c.solvers.set(ctx.solver, record);
        ctx.pass_time(FILL_WINDOW);
        ctx.slash_solver(id);
        assert_eq!(ctx.get_solver(ctx.solver).unwrap().bond_amount, bond - taken);
        assert_eq!(
            ctx.effects,
            vec![
                Effect::ExtendInstance,
                Effect::ExtendSolver { solver: ctx.solver },
                Effect::ExtendIntent { intent_id: id },
                Effect::Transfer {
                    token: ctx.bond_token,
                    from: ctx.contract_id,
                    to: ctx.fee_recipient,
                    amount: taken,
                },
                Effect::Emit {
                    event: Event::SolverSlashed {
                        solver: ctx.solver,
                        intent_id: id,
                        amount: taken,
                    }
                },
            ]
        );
    }
}

#[test]
fn a_long_history_keeps_the_books_balanced() {
    let mut ctx = setup();
    ctx.register();
    let other = ctx.generate();
    ctx.mint(ctx.bond_token, other, 2 * BOND);
    ctx.register_solver(other, BOND);
    ctx.assert_books_balance();

    let a = ctx.submit();
    let b = ctx.submit();
    let c = ctx.submit();
    ctx.accept_intent(ctx.solver, a);
    ctx.accept_intent(other, b);
    ctx.assert_books_balance();

    ctx.deliver(a, 5, 5);
    ctx.cancel_intent(ctx.user, c);
    ctx.assert_books_balance();

    ctx.pass_time(FILL_WINDOW);
    ctx.slash_solver(b);
    ctx.register_solver(other, BOND);
    ctx.withdraw_bond(ctx.solver, 17);
    ctx.assert_books_balance();

    ctx.accept_intent(ctx.solver, a);
    ctx.accept_intent(ctx.solver, b);
    ctx.deliver(a, FILL, 5);
    ctx.deliver(b, FILL, 5);
    ctx.assert_books_balance();

    ctx.deregister_solver(other);
    ctx.deregister_solver(ctx.solver);
    ctx.assert_books_balance();
    assert_eq!(ctx.balance(ctx.bond_token, ctx.contract_id), 0);
    assert_eq!(ctx.c.get_stats(), (3, 5 + 2 * FILL, 0));
}

#[test]
fn bond_calls_without_a_bond_token_are_refused() {
    let mut c = IntentSettlement::new();
    let who = Address::Account(Bytes32([1; 32]));
    let inv = Invocation { now: 0, contract: who, signers: vec![who] };
    assert_eq!(
        c.register_solver(&inv, who, MIN_BOND),
        Err(Abort::Error(Error::NotInitialized))
    );
    assert_eq!(
        c.rescue_tokens(&inv, who, who, 1),
        Err(Abort::Error(Error::NotInitialized))
    );
}

// ─── Cancellation ───────────────────────────────────────────────────────────────

#[test]
fn cancellations_are_spaced_by_the_cooldown() {
    let mut ctx = setup();
    ctx.pass_time(5);
    let first = ctx.submit();
    let second = ctx.submit();
    ctx.cancel_intent(ctx.user, first);
    assert_eq!(
        ctx.events(),
        vec![Event::IntentCancelled { user: ctx.user, intent_id: first }]
    );
    assert_eq!(ctx.try_cancel_intent(ctx.user, second), Err(Error::CancelCooldownNotExpired));
    ctx.pass_time(CANCEL_COOLDOWN - 1);
    assert_eq!(ctx.try_cancel_intent(ctx.user, second), Err(Error::CancelCooldownNotExpired));
    ctx.pass_time(1);
    ctx.cancel_intent(ctx.user, second);
    assert_eq!(
        ctx.try_cancel_intent(ctx.solver, Bytes32([0; 32])),
        Err(Error::IntentNotFound)
    );
}

// ─── Extensions ─────────────────────────────────────────────────────────────────

#[test]
fn an_intent_gets_one_extension() {
    let mut ctx = setup();
    ctx.register();
    let id = ctx.accepted();
    let (solver, other) = (ctx.solver, ctx.generate());
    ctx.pass_time(250);
    assert_eq!(
        ctx.call(|c, inv| c.request_extension(inv, other, id)),
        Err(Error::Unauthorized)
    );
    ctx.pause();
    ctx.call(|c, inv| c.request_extension(inv, solver, id)).unwrap();
    ctx.unpause();
    assert_eq!(ctx.get_intent(id).unwrap().deadline, 550);
    assert_eq!(
        ctx.call(|c, inv| c.request_extension(inv, solver, id)),
        Err(Error::ZeroAmount)
    );
    // Not even after the intent has been lost and claimed again.
    ctx.pass_time(300);
    ctx.slash_solver(id);
    ctx.mint(ctx.bond_token, other, BOND);
    ctx.register_solver(other, BOND);
    ctx.accept_intent(other, id);
    assert_eq!(
        ctx.call(|c, inv| c.request_extension(inv, other, id)),
        Err(Error::ZeroAmount)
    );
    assert_eq!(
        ctx.call(|c, inv| c.request_extension(inv, other, Bytes32([0; 32]))),
        Err(Error::IntentNotFound)
    );
}

#[test]
fn an_extension_never_brings_the_deadline_forward() {
    let mut ctx = setup();
    ctx.register();
    ctx.call(|c, inv| c.set_config(inv, MIN_BOND, 600, INTENT_EXPIRY, 5)).unwrap();
    let solver = ctx.solver;
    let id = ctx.accepted();
    let stats = ctx.c.get_stats();
    ctx.call(|c, inv| c.request_extension(inv, solver, id)).unwrap();
    assert_eq!(ctx.get_intent(id).unwrap().deadline, 600);
    assert_eq!(
        ctx.events(),
        vec![Event::ExtensionGranted { solver, intent_id: id, deadline: 600 }]
    );
    assert_eq!(ctx.get_intent(id).unwrap().state, IntentState::Accepted);
    assert_eq!(ctx.c.get_stats(), stats);
    let later = ctx.accepted();
    ctx.pass_time(599);
    ctx.call(|c, inv| c.request_extension(inv, solver, later)).unwrap();
    assert_eq!(ctx.get_intent(later).unwrap().deadline, 899);
}

#[test]
fn an_extension_after_the_deadline_is_refused() {
    let mut ctx = setup();
    ctx.register();
    let id = ctx.accepted();
    let solver = ctx.solver;
    ctx.pass_time(FILL_WINDOW);
    assert_eq!(
        ctx.call(|c, inv| c.request_extension(inv, solver, id)),
        Err(Error::FillWindowExpired)
    );
    assert_eq!(ctx.get_intent(id).unwrap().deadline, FILL_WINDOW);
    ctx.slash_solver(id);
    assert_eq!(ctx.get_solver(solver).unwrap().fills_failed, 1);
}

// ─── Tokens in flight ───────────────────────────────────────────────────────────

#[test]
fn a_token_that_an_accepted_intent_awaits_is_not_rescued() {
    let mut ctx = setup();
    ctx.register();
    let (token, to) = (ctx.dst_token, ctx.generate());
    ctx.mint(token, ctx.contract_id, 10);
    let first = ctx.submit();
    ctx.try_rescue_tokens(token, to, 1).unwrap();
    assert_eq!(
        ctx.effects,
        vec![
            Effect::ExtendInstance,
            Effect::Transfer { token, from: ctx.contract_id, to, amount: 1 },
            Effect::Emit { event: Event::TokensRescued { to, token, amount: 1 } },
        ]
    );
    ctx.accept_intent(ctx.solver, first);
    let second = ctx.accepted();
    ctx.assert_books_balance();
    assert_eq!(ctx.try_rescue_tokens(token, to, 1), Err(Error::RescueProtectedToken));
    ctx.deliver(first, FILL, 5);
    assert_eq!(ctx.try_rescue_tokens(token, to, 1), Err(Error::RescueProtectedToken));
    ctx.pass_time(FILL_WINDOW);
    ctx.slash_solver(second);
    ctx.assert_books_balance();
    ctx.try_rescue_tokens(token, to, 1).unwrap();
    assert_eq!(ctx.balance(token, to), 2);
    assert_eq!(ctx.balance(token, ctx.contract_id), 8);
}

#[test]
fn either_record_of_a_token_in_flight_protects_it() {
    let mut ctx = setup();
    ctx.register();
    let (token, to) = (ctx.dst_token, ctx.generate());
    ctx.mint(token, ctx.contract_id, 10);
    ctx.accepted();
    ctx.c.accepted_by_token = Table::new();
    assert_eq!(ctx.try_rescue_tokens(token, to, 1), Err(Error::RescueProtectedToken));
    ctx.c.intents = Table::new();
    ctx.try_rescue_tokens(token, to, 1).unwrap();
    ctx.c.accepted_by_token.set(token, 1);
    assert_eq!(ctx.try_rescue_tokens(token, to, 1), Err(Error::RescueProtectedToken));
}

// ─── Eligibility ────────────────────────────────────────────────────────────────

#[test]
fn a_solver_in_its_slash_cooldown_is_not_eligible() {
    let mut ctx = setup();
    ctx.register();
    let solver = ctx.solver;
    let id = ctx.accepted();
    ctx.pass_time(FILL_WINDOW);
    ctx.slash_solver(id);
    assert!(ctx.get_solver(solver).unwrap().is_active);
    assert!(!ctx.is_solver_eligible(solver));
    assert_eq!(ctx.try_accept_intent(solver, id), Err(Error::SolverInactive));
    ctx.pass_time(SLASH_COOLDOWN - 1);
    assert!(!ctx.is_solver_eligible(solver));
    ctx.pass_time(1);
    assert!(ctx.is_solver_eligible(solver));
    let next = ctx.submit();
    ctx.accept_intent(solver, next);
}

#[test]
fn eligibility_goes_by_the_bond_that_an_acceptance_needs() {
    let mut ctx = setup();
    let (thin, full) = (ctx.generate(), ctx.generate());
    ctx.call(|c, inv| c.set_config(inv, 10_000_000, 300, 1_800, 5)).unwrap();
    ctx.mint(ctx.bond_token, thin, 100_000_000);
    ctx.register_solver(thin, 100_000_000);
    ctx.mint(ctx.bond_token, full, MIN_BOND);
    ctx.register_solver(full, MIN_BOND);
    let id = ctx.submit();
    assert!(!ctx.is_solver_eligible(thin));
    assert_eq!(ctx.try_accept_intent(thin, id), Err(Error::SolverBondTooLow));
    // A minimum raised after registration keeps nobody from accepting.
    ctx.call(|c, inv| c.set_config(inv, 2 * MIN_BOND, 300, 1_800, 5)).unwrap();
    assert!(ctx.is_solver_eligible(full));
    ctx.accept_intent(full, id);
}

#[test]
fn eligible_with_a_multiplier_below_one_still_accepts() {
    let mut ctx = setup();
    let (token, thin) = (ctx.dst_token, ctx.generate());
    ctx.call(|c, inv| c.set_config(inv, 10_000_000, 300, 1_800, 5)).unwrap();
    ctx.call(|c, inv| c.set_min_bond_multiplier(inv, token, 5)).unwrap();
    ctx.register();
    ctx.mint(ctx.bond_token, thin, MIN_BOND / 2);
    ctx.register_solver(thin, MIN_BOND / 2);
    assert!(ctx.is_solver_eligible(ctx.solver));
    ctx.accepted();
    // With less than the standard bond a cheap token can be accepted all the same.
    assert!(!ctx.is_solver_eligible(thin));
    let id = ctx.submit();
    ctx.accept_intent(thin, id);
}

// ─── Stored settings ────────────────────────────────────────────────────────────

#[test]
fn stored_settings_are_held_to_their_bounds() {
    let mut c = IntentSettlement::new();
    assert!(c.settings_valid());
    let good = ProtocolConfig {
        min_bond: 10_000_000,
        fill_window: 60,
        intent_expiry: 300,
        protocol_fee_bps: 1_000,
    };
    c.config = Some(good);
    assert!(c.settings_valid());
    for bad in [
        ProtocolConfig { min_bond: 9_999_999, ..good },
        ProtocolConfig { fill_window: 59, ..good },
        ProtocolConfig { fill_window: 300, ..good },
        ProtocolConfig { intent_expiry: 299, ..good },
        ProtocolConfig { protocol_fee_bps: 1_001, ..good },
        ProtocolConfig { protocol_fee_bps: -1, ..good },
    ] {
        c.config = Some(bad);
        assert!(!c.settings_valid());
    }
    c.config = None;
    c.fee_discount_tiers = vec![(1, 10), (1, 20)];
    assert!(!c.settings_valid());
    c.fee_discount_tiers = vec![(1, 10), (2, 20)];
    c.min_bond_multipliers.set(Address::Account(Bytes32([1; 32])), 1);
    assert!(c.settings_valid());
    c.min_bond_multipliers.set(Address::Account(Bytes32([2; 32])), 0);
    assert!(!c.settings_valid());
}

// ─── Lifetimes ──────────────────────────────────────────────────────────────────

#[test]
fn an_acceptance_extends_what_it_writes() {
    let mut ctx = setup();
    ctx.register();
    let id = ctx.accepted();
    assert_eq!(
        ctx.effects,
        vec![
            Effect::ExtendInstance,
            Effect::ExtendSolver { solver: ctx.solver },
            Effect::ExtendIntent { intent_id: id },
            Effect::Emit {
                event: Event::IntentAccepted {
                    solver: ctx.solver,
                    intent_id: id,
                    deadline: FILL_WINDOW,
                }
            },
        ]
    );
}

#[test]
fn governance_extends_the_instance() {
    let mut ctx = setup();
    ctx.assert_instance_extended();
    let (admin, new) = (ctx.admin, ctx.generate());
    let token = ctx.dst_token;
    ctx.call(|c, inv| c.propose_fee_recipient(inv, new)).unwrap();
    ctx.assert_instance_extended();
    ctx.call(|c, inv| c.propose_admin_transfer(inv, admin)).unwrap();
    ctx.assert_instance_extended();
    ctx.call(|c, inv| c.propose_add_dst_token(inv, token, true)).unwrap();
    ctx.assert_instance_extended();
    ctx.call(|c, inv| c.propose_remove_dst_token(inv, token)).unwrap();
    ctx.assert_instance_extended();
    ctx.pass_time(DELAY);
    ctx.call(|c, inv| c.accept_fee_recipient(inv, new)).unwrap();
    ctx.assert_instance_extended();
    ctx.call(|c, inv| c.accept_admin_transfer(inv, admin)).unwrap();
    ctx.assert_instance_extended();
    ctx.call(|c, inv| c.execute_add_dst_token(inv, token)).unwrap();
    ctx.assert_instance_extended();
    ctx.call(|c, inv| c.execute_remove_dst_token(inv, token)).unwrap();
    ctx.assert_instance_extended();
    ctx.enable_dst_allowlist(true);
    ctx.assert_instance_extended();
    ctx.call(|c, inv| c.set_min_bond_multiplier(inv, token, 12)).unwrap();
    ctx.assert_instance_extended();
    ctx.call(|c, inv| c.add_allowed_src_chain(inv, b"base".to_vec())).unwrap();
    ctx.assert_instance_extended();
    ctx.call(|c, inv| c.remove_allowed_src_chain(inv, b"base".to_vec())).unwrap();
    ctx.assert_instance_extended();
    ctx.call(|c, inv| c.set_pauser(inv, new)).unwrap();
    ctx.assert_instance_extended();
    ctx.pause();
    ctx.assert_instance_extended();
    ctx.unpause();
    ctx.assert_instance_extended();
}

// ─── Limits ─────────────────────────────────────────────────────────────────────

#[test]
fn limits_are_told_before_the_call() {
    let mut ctx = setup();
    ctx.register();
    let id = ctx.submit();
    let (user, solver, token) = (ctx.user, ctx.solver, ctx.dst_token);
    let inv = Invocation {
        now: 0,
        contract: ctx.contract_id,
        signers: vec![ctx.admin, user, solver],
    };
    let late = Invocation { now: u64::MAX, contract: ctx.contract_id, signers: vec![ctx.admin] };
    assert!(ctx.c.proposal_within_limits(&inv));
    assert!(!ctx.c.proposal_within_limits(&late));
    assert!(ctx.c.registration_within_limits(&inv, solver, i128::MAX - BOND));
    assert!(!ctx.c.registration_within_limits(&inv, solver, i128::MAX - BOND + 1));
    assert!(ctx.c.registration_within_limits(&late, solver, i128::MAX));
    assert!(ctx.c.acceptance_within_limits(&inv, solver, id));
    ctx.call(|c, inv| c.set_min_bond_multiplier(inv, token, i128::MAX)).unwrap();
    assert!(!ctx.c.acceptance_within_limits(&inv, solver, id));
    // A multiplier that is too large can be set back.
    ctx.call(|c, inv| c.set_min_bond_multiplier(inv, token, 10)).unwrap();
    assert!(ctx.c.acceptance_within_limits(&inv, solver, id));
    ctx.accept_intent(solver, id);
    assert!(ctx.c.extension_within_limits(&inv, solver, id));
    assert!(ctx.c.slash_within_limits(&inv, id));
    assert!(!ctx.c.slash_within_limits(&late, id));
    assert!(ctx.c.cancellation_within_limits(&inv, user));
    ctx.c.cancel_times.set(user, u64::MAX);
    assert!(!ctx.c.cancellation_within_limits(&inv, user));
    // A fill too large for its fee is within limits, and refused.
    ctx.c.total_volume = 1;
    assert!(ctx.c.fill_within_limits(&inv, solver, id, i128::MAX));
    assert_eq!(ctx.try_fill_intent(solver, id, i128::MAX), Err(Error::FeeOverflow));
    assert!(ctx.c.fill_within_limits(&inv, solver, id, FILL));
    ctx.c.total_volume = i128::MAX - FILL + 1;
    assert!(!ctx.c.fill_within_limits(&inv, solver, id, FILL));
}

#[test]
fn limits_of_a_submission() {
    let mut ctx = setup();
    let fits = |c: &IntentSettlement, now: u64, user: Address| {
        let inv = Invocation { now, contract: user, signers: vec![user] };
        let (chain, token) = (b"ethereum".to_vec(), EVM_TOKEN.as_bytes().to_vec());
        c.submission_within_limits(&inv, user, &chain, &token, SRC_AMT, user, MIN_DST, None)
    };
    assert!(fits(&ctx.c, 0, ctx.user));
    assert!(fits(&ctx.c, u64::MAX - INTENT_EXPIRY, ctx.user));
    assert!(!fits(&ctx.c, u64::MAX - INTENT_EXPIRY + 1, ctx.user));
    ctx.c.user_nonces.set(ctx.user, u64::MAX);
    assert!(!fits(&ctx.c, 0, ctx.user));
    ctx.pause();
    assert!(fits(&ctx.c, u64::MAX, ctx.user));
}

// ─── Timelocks ──────────────────────────────────────────────────────────────────

#[test]
fn handovers_wait_for_the_last_second_of_the_delay() {
    let mut ctx = setup();
    let new = ctx.generate();
    assert_eq!(
        ctx.call(|c, inv| c.accept_admin_transfer(inv, new)),
        Err(Error::NoPendingAdminTransfer)
    );
    ctx.call(|c, inv| c.propose_admin_transfer(inv, new)).unwrap();
    assert_eq!(ctx.events(), vec![Event::AdminTransferProposed { admin: new, eta: DELAY }]);
    assert_eq!(ctx.c.get_pending_admin(), Some((new, DELAY)));
    ctx.call(|c, inv| c.propose_fee_recipient(inv, new)).unwrap();
    ctx.pass_time(DELAY - 1);
    assert_eq!(
        ctx.call(|c, inv| c.accept_admin_transfer(inv, new)),
        Err(Error::TimelockNotElapsed)
    );
    assert_eq!(
        ctx.call(|c, inv| c.accept_fee_recipient(inv, new)),
        Err(Error::TimelockNotElapsed)
    );
    ctx.pass_time(1);
    let admin = ctx.admin;
    assert_eq!(
        ctx.call(|c, inv| c.accept_admin_transfer(inv, admin)),
        Err(Error::Unauthorized)
    );
    ctx.call(|c, inv| c.accept_admin_transfer(inv, new)).unwrap();
    assert_eq!(ctx.authorized, vec![new]);
    assert_eq!(ctx.events(), vec![Event::AdminTransferred { admin: new }]);
    assert_eq!(ctx.c.get_pending_admin(), None);
    ctx.call(|c, inv| c.accept_fee_recipient(inv, new)).unwrap();
    assert_eq!(ctx.events(), vec![Event::FeeRecipientUpdated { recipient: new }]);
}

#[test]
fn a_new_proposal_restarts_the_delay() {
    let mut ctx = setup();
    let (first, second) = (ctx.generate(), ctx.generate());
    ctx.call(|c, inv| c.propose_admin_transfer(inv, first)).unwrap();
    ctx.pass_time(DELAY);
    ctx.call(|c, inv| c.propose_admin_transfer(inv, second)).unwrap();
    assert_eq!(
        ctx.call(|c, inv| c.accept_admin_transfer(inv, first)),
        Err(Error::Unauthorized)
    );
    assert_eq!(
        ctx.call(|c, inv| c.accept_admin_transfer(inv, second)),
        Err(Error::TimelockNotElapsed)
    );
}

#[test]
fn upgrades_are_proposed_and_executed_by_the_admin() {
    let mut ctx = setup();
    let wasm_hash = Bytes32([3; 32]);
    assert_eq!(
        ctx.call(|c, inv| c.execute_upgrade(inv, wasm_hash)),
        Err(Error::NoPendingUpgrade)
    );
    ctx.call(|c, inv| c.propose_upgrade(inv, wasm_hash)).unwrap();
    assert_eq!(ctx.authorized, vec![ctx.admin]);
    assert_eq!(ctx.c.get_pending_upgrade(), Some((wasm_hash, DELAY)));
    assert_eq!(
        ctx.effects,
        vec![
            Effect::ExtendInstance,
            Effect::Emit { event: Event::UpgradeProposed { wasm_hash, eta: DELAY } },
        ]
    );
    assert_eq!(
        ctx.call(|c, inv| c.execute_upgrade(inv, Bytes32([4; 32]))),
        Err(Error::Unauthorized)
    );
    assert_eq!(
        ctx.call(|c, inv| c.execute_upgrade(inv, wasm_hash)),
        Err(Error::TimelockNotElapsed)
    );
    ctx.pass_time(DELAY);
    ctx.call(|c, inv| c.execute_upgrade(inv, wasm_hash)).unwrap();
    assert_eq!(ctx.authorized, vec![ctx.admin]);
    assert_eq!(
        ctx.effects,
        vec![
            Effect::ExtendInstance,
            Effect::UpdateWasm { wasm_hash },
            Effect::Emit { event: Event::Upgraded { wasm_hash } },
        ]
    );
    assert_eq!(ctx.c.get_pending_upgrade(), None);
}

#[test]
fn migration_runs_once() {
    let mut ctx = setup();
    assert_eq!(ctx.call(|c, inv| c.migrate(inv)), Err(Error::AlreadyMigrated));
    ctx.c.migration_version = 0;
    ctx.call(|c, inv| c.migrate(inv)).unwrap();
    assert_eq!(ctx.events(), vec![Event::Migrated { from_version: 0, to_version: 1 }]);
    assert_eq!(ctx.call(|c, inv| c.migrate(inv)), Err(Error::AlreadyMigrated));
}

#[test]
fn allowlist_changes_wait_and_keep_their_order() {
    let mut ctx = setup();
    let (a, b) = (ctx.generate(), ctx.generate());
    ctx.call(|c, inv| c.propose_add_dst_token(inv, a, true)).unwrap();
    assert_eq!(ctx.events(), vec![Event::DstTokenAddProposed { token: a, eta: DELAY }]);
    ctx.pass_time(DELAY - 1);
    assert_eq!(
        ctx.call(|c, inv| c.execute_add_dst_token(inv, a)),
        Err(Error::TimelockNotElapsed)
    );
    ctx.pass_time(1);
    ctx.call(|c, inv| c.execute_add_dst_token(inv, a)).unwrap();
    assert_eq!(ctx.authorized, vec![]);
    assert_eq!(ctx.events(), vec![Event::DstTokenAllowed { token: a }]);
    ctx.allow_dst_token(b);
    ctx.allow_dst_token(a);
    assert_eq!(ctx.c.list_allowed_dst_tokens(), vec![a, b]);
    assert_eq!(
        ctx.call(|c, inv| c.execute_remove_dst_token(inv, a)),
        Err(Error::NoPendingDstTokenChange)
    );
    ctx.call(|c, inv| c.propose_remove_dst_token(inv, a)).unwrap();
    assert_eq!(
        ctx.call(|c, inv| c.execute_remove_dst_token(inv, a)),
        Err(Error::TimelockNotElapsed)
    );
    assert!(ctx.c.is_dst_token_allowed(a));
    ctx.pass_time(DELAY);
    ctx.call(|c, inv| c.execute_remove_dst_token(inv, a)).unwrap();
    assert_eq!(ctx.events(), vec![Event::DstTokenDisallowed { token: a }]);
    assert_eq!(ctx.c.list_allowed_dst_tokens(), vec![b]);
    assert!(!ctx.c.is_dst_token_allowed(a));
}

// ─── Settings and pause ─────────────────────────────────────────────────────────

#[test]
fn configuration_bounds() {
    let mut ctx = setup();
    let standard = ProtocolConfig {
        min_bond: 500_000_000,
        fill_window: 300,
        intent_expiry: 1_800,
        protocol_fee_bps: 5,
    };
    assert_eq!(ctx.c.get_config(), standard);
    assert_eq!(IntentSettlement::new().get_config(), standard);
    let mut set = |bond: i128, window: u64, expiry: u64, fee: i128| {
        ctx.call(|c, inv| c.set_config(inv, bond, window, expiry, fee))
    };
    assert_eq!(set(10_000_000, 60, 300, 0), Ok(()));
    assert_eq!(set(10_000_000, 299, 300, 1_000), Ok(()));
    assert_eq!(set(9_999_999, 60, 300, 0), Err(Error::InvalidConfig));
    assert_eq!(set(10_000_000, 59, 300, 0), Err(Error::InvalidConfig));
    assert_eq!(set(10_000_000, 60, 299, 0), Err(Error::InvalidConfig));
    assert_eq!(set(10_000_000, 300, 300, 0), Err(Error::InvalidConfig));
    assert_eq!(set(10_000_000, 60, 300, -1), Err(Error::InvalidConfig));
    assert_eq!(set(10_000_000, 60, 300, 1_001), Err(Error::InvalidConfig));
    assert_eq!(ctx.c.get_config().fill_window, 299);
    assert_eq!(ctx.events(), vec![Event::ConfigUpdated { config: ctx.c.get_config() }]);
}

#[test]
fn configured_windows_and_bonds_take_effect() {
    let mut ctx = setup();
    ctx.call(|c, inv| c.set_config(inv, 10_000_000, 60, 400, 100)).unwrap();
    ctx.mint(ctx.bond_token, ctx.solver, BOND);
    ctx.register_solver(ctx.solver, 10_000_000);
    let id = ctx.submit();
    assert_eq!(ctx.get_intent(id).unwrap().deadline, 400);
    // Accepting still takes the default minimum.
    assert_eq!(ctx.try_accept_intent(ctx.solver, id), Err(Error::SolverBondTooLow));
    ctx.register_solver(ctx.solver, MIN_BOND);
    ctx.accept_intent(ctx.solver, id);
    assert_eq!(ctx.get_intent(id).unwrap().deadline, 60);
    ctx.pass_time(60);
    ctx.slash_solver(id);
    assert_eq!(ctx.get_intent(id).unwrap().deadline, 460);
}

#[test]
fn the_pauser_pauses_and_cannot_unpause() {
    let mut ctx = setup();
    let (pauser, stranger, admin) = (ctx.generate(), ctx.generate(), ctx.admin);
    assert_eq!(ctx.c.get_pauser(), None);
    assert_eq!(ctx.call(|c, inv| c.pause(inv, pauser)), Err(Error::Unauthorized));
    ctx.call(|c, inv| c.set_pauser(inv, pauser)).unwrap();
    assert_eq!(ctx.events(), vec![Event::PauserUpdated { pauser }]);
    assert_eq!(ctx.c.get_pauser(), Some(pauser));
    assert_eq!(ctx.call(|c, inv| c.pause(inv, stranger)), Err(Error::Unauthorized));
    ctx.call(|c, inv| c.pause(inv, pauser)).unwrap();
    assert_eq!(ctx.authorized, vec![pauser]);
    assert_eq!(ctx.events(), vec![Event::Paused { paused: true }]);
    let inv = Invocation { now: 0, contract: ctx.contract_id, signers: vec![pauser] };
    assert_eq!(ctx.c.unpause(&inv), Err(Abort::Auth(admin)));
    assert!(ctx.c.is_paused());
    ctx.unpause();
    assert_eq!(ctx.events(), vec![Event::Paused { paused: false }]);
}

#[test]
fn admin_calls_before_initialization_are_refused() {
    let mut c = IntentSettlement::new();
    let who = Address::Account(Bytes32([1; 32]));
    let inv = Invocation { now: 0, contract: who, signers: vec![who] };
    let refused = Err(Abort::Error(Error::NotInitialized));
    assert_eq!(c.propose_fee_recipient(&inv, who), refused);
    assert_eq!(c.propose_admin_transfer(&inv, who), refused);
    assert_eq!(c.propose_upgrade(&inv, Bytes32([0; 32])), refused);
    assert_eq!(c.execute_upgrade(&inv, Bytes32([0; 32])), refused);
    assert_eq!(c.migrate(&inv), refused);
    assert_eq!(c.set_config(&inv, MIN_BOND, 300, 1_800, 5), refused);
    assert_eq!(c.set_pauser(&inv, who), refused);
    assert_eq!(c.pause(&inv, who), refused);
    assert_eq!(c.unpause(&inv), refused);
    assert_eq!(c.propose_add_dst_token(&inv, who, true), refused);
    assert_eq!(c.propose_remove_dst_token(&inv, who), refused);
    assert_eq!(c.set_dst_allowlist_enabled(&inv, true), refused);
    assert_eq!(c.set_min_bond_multiplier(&inv, who, 1), refused);
    assert_eq!(c.add_allowed_src_chain(&inv, vec![]), refused);
    assert_eq!(c.remove_allowed_src_chain(&inv, vec![]), refused);
    assert_eq!(c.set_src_chain_allowlist_enabled(&inv, true), refused);
    assert_eq!(c.set_fee_discount_tiers(&inv, vec![]), refused);
    assert_eq!(c.get_admin(), None);
    assert_eq!(c.get_fee_recipient(), None);
    assert_eq!(c.get_bond_token(), None);
}

#[test]
fn every_call_asks_for_the_right_authorization() {
    let mut ctx = setup();
    ctx.register();
    let id = ctx.accepted();
    let (admin, user, solver) = (ctx.admin, ctx.user, ctx.solver);
    let inv = Invocation { now: ctx.now, contract: ctx.contract_id, signers: vec![] };
    let c = &mut ctx.c;
    assert_eq!(c.register_solver(&inv, solver, BOND), Err(Abort::Auth(solver)));
    assert_eq!(c.deregister_solver(&inv, solver), Err(Abort::Auth(solver)));
    assert_eq!(c.withdraw_bond(&inv, solver, 1), Err(Abort::Auth(solver)));
    assert_eq!(c.accept_intent(&inv, solver, id), Err(Abort::Auth(solver)));
    assert_eq!(c.fill_intent(&inv, solver, id, FILL), Err(Abort::Auth(solver)));
    assert_eq!(c.request_extension(&inv, solver, id), Err(Abort::Auth(solver)));
    assert_eq!(c.cancel_intent(&inv, user, id), Err(Abort::Auth(user)));
    assert_eq!(c.unpause(&inv), Err(Abort::Auth(admin)));
    assert_eq!(c.pause(&inv, admin), Err(Abort::Auth(admin)));
    assert_eq!(c.set_pauser(&inv, user), Err(Abort::Auth(admin)));
    assert_eq!(c.rescue_tokens(&inv, user, user, 1), Err(Abort::Auth(admin)));
    let mut fresh = IntentSettlement::new();
    assert_eq!(fresh.initialize(&inv, admin, user, solver), Err(Abort::Auth(admin)));
}

#[test]
fn announcements_of_the_remaining_calls() {
    let mut ctx = setup();
    let token = ctx.dst_token;
    ctx.enable_dst_allowlist(true);
    assert_eq!(ctx.events(), vec![Event::DstAllowlistEnabled { enabled: true }]);
    ctx.call(|c, inv| c.set_min_bond_multiplier(inv, token, 12)).unwrap();
    assert_eq!(ctx.events(), vec![Event::BondMultiplierSet { token, multiplier: 12 }]);
    ctx.call(|c, inv| c.add_allowed_src_chain(inv, b"base".to_vec())).unwrap();
    assert_eq!(ctx.events(), vec![Event::SrcChainAllowed { chain: b"base".to_vec() }]);
    ctx.call(|c, inv| c.remove_allowed_src_chain(inv, b"base".to_vec())).unwrap();
    assert_eq!(ctx.events(), vec![Event::SrcChainDisallowed { chain: b"base".to_vec() }]);
    ctx.enable_src_chain_allowlist(true);
    assert_eq!(ctx.effects, vec![Effect::ExtendInstance]);
    ctx.enable_src_chain_allowlist(false);
    ctx.enable_dst_allowlist(false);
    ctx.call(|c, inv| c.propose_remove_dst_token(inv, token)).unwrap();
    assert_eq!(ctx.events(), vec![Event::DstTokenRemoveProposed { token, eta: DELAY }]);
    ctx.register();
    let solver = ctx.solver;
    assert_eq!(ctx.events(), vec![Event::SolverRegistered { solver, bond_amount: BOND }]);
    ctx.withdraw_bond(solver, 7);
    assert_eq!(
        ctx.events(),
        vec![Event::BondWithdrawn { solver, amount: 7, remaining: BOND - 7 }]
    );
    let id = ctx.submit();
    ctx.accept_intent(solver, id);
    assert_eq!(
        ctx.events(),
        vec![Event::IntentAccepted { solver, intent_id: id, deadline: FILL_WINDOW }]
    );
    ctx.call(|c, inv| c.request_extension(inv, solver, id)).unwrap();
    assert_eq!(
        ctx.events(),
        vec![Event::ExtensionGranted { solver, intent_id: id, deadline: 300 }]
    );
    ctx.deliver(id, FILL, 5);
    ctx.deregister_solver(solver);
    assert_eq!(
        ctx.events(),
        vec![Event::SolverDeregistered { solver, bond_amount: BOND - 7 }]
    );
    let id = ctx.submit();
    ctx.pass_time(INTENT_EXPIRY);
    ctx.expire_intent(id);
    assert_eq!(ctx.events(), vec![Event::IntentExpired { intent_id: id }]);
    let (lost, to) = (ctx.generate(), ctx.generate());
    ctx.mint(lost, ctx.contract_id, 3);
    ctx.try_rescue_tokens(lost, to, 3).unwrap();
    assert_eq!(ctx.events(), vec![Event::TokensRescued { to, token: lost, amount: 3 }]);
}

#[test]
fn a_refused_call_changes_nothing() {
    let mut ctx = setup();
    ctx.register();
    let id = ctx.accepted();
    let before = (ctx.c.get_stats(), ctx.get_solver(ctx.solver).unwrap().active_intents);
    assert!(ctx.try_accept_intent(ctx.solver, id).is_err());
    assert!(ctx.try_fill_intent(ctx.solver, id, -1).is_err());
    assert!(ctx.try_slash_solver(id).is_err());
    assert!(ctx.try_expire_intent(id).is_err());
    assert!(ctx.try_submit_intent("ethereum", "0xabc", SRC_AMT, MIN_DST, None).is_err());
    let after = (ctx.c.get_stats(), ctx.get_solver(ctx.solver).unwrap().active_intents);
    assert_eq!(before, after);
    ctx.assert_books_balance();
}

// ─── Error codes ────────────────────────────────────────────────────────────────

#[test]
fn settlement_error_codes() {
    let codes = [
        Error::AlreadyInitialized,
        Error::Unauthorized,
        Error::IntentNotFound,
        Error::IntentNotOpen,
        Error::IntentExpired,
        Error::IntentNotAccepted,
        Error::SolverNotRegistered,
        Error::SolverBondTooLow,
        Error::InsufficientOutput,
        Error::FillWindowExpired,
        Error::CannotCancelAccepted,
        Error::SolverInactive,
        Error::ZeroAmount,
        Error::InvalidDeadline,
        Error::IntentAlreadyFilled,
        Error::NotInitialized,
        Error::SolverHasActiveIntents,
        Error::ContractPaused,
        Error::DeadlineNotReached,
        Error::InsufficientBond,
        Error::DstTokenNotAllowed,
        Error::IntentAlreadyExists,
        Error::FeeOverflow,
        Error::InvalidTokenInterface,
        Error::NoPendingFeeRecipient,
        Error::SrcChainNotAllowed,
        Error::RescueProtectedToken,
        Error::InvalidSrcToken,
        Error::TimelockNotElapsed,
        Error::NoPendingAdminTransfer,
        Error::InvalidConfig,
        Error::NoPendingDstTokenChange,
        Error::AmountTooLarge,
        Error::CancelCooldownNotExpired,
        Error::NoPendingUpgrade,
        Error::AlreadyMigrated,
        Error::InvalidFeeTiers,
    ];
    for (i, error) in codes.into_iter().enumerate() {
        assert_eq!(error.code() as usize, i + 1);
    }
}

// ─── Tables and encodings ───────────────────────────────────────────────────────

#[test]
fn tables_keep_one_value_per_key() {
    let mut table: Table<u32, i128> = Table::new();
    table.set(1, 10);
    table.set(2, 20);
    table.set(1, 11);
    assert_eq!(table.get(1), Some(&11));
    assert_eq!(table.entries.len(), 2);
    *table.entry_mut(2) += 5;
    assert_eq!(table.get(2), Some(&25));
    table.remove(1);
    assert!(!table.has(1));
    assert_eq!(table.get(1), None);
    table.remove(1);
    assert!(table.has(2));

    let mut set = TextSet::new();
    set.add(b"a".to_vec());
    set.add(b"a".to_vec());
    assert!(set.has(&b"a".to_vec()));
    set.remove(&b"a".to_vec());
    assert!(!set.has(&b"a".to_vec()));
}

#[test]
fn integers_round_trip_through_their_bytes() {
    for value in [0, 1, -1, 255, -256, i128::MAX, i128::MIN, 1 << 100] {
        let mut bytes = vec![9];
        push_i128(&mut bytes, value);
        assert_eq!(bytes[1..], value.to_be_bytes());
        assert_eq!(read_i128(&bytes, 1), value);
    }
    for value in [0, 1, 256, u64::MAX] {
        let mut bytes = vec![];
        push_u64(&mut bytes, value);
        assert_eq!(bytes, value.to_be_bytes().to_vec());
        assert_eq!(read_be(&bytes, 0, 8), value as u128);
    }
    assert_eq!(bytes_to_hex_string(&vec![0x00, 0x9f, 0xa0, 0xff], 1, 4), b"0x9fa0ff".to_vec());
    assert_eq!(bytes_to_hex_string(&vec![1], 1, 1), b"0x".to_vec());
}
