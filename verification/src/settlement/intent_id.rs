//! How intents get their ids.
use vstd::prelude::*;
use crate::encoding::{be_bytes, be_value, lemma_be_bytes_len, lemma_be_round_trip,
    lemma_pow256_values, lemma_signed_round_trip, pow256, push_i128, push_u64, to_signed,
    to_unsigned};
use crate::host::{address_to_xdr, address_xdr, padding, sha256, sha256_digest, text_to_xdr,
    text_xdr, MAX_TEXT_LEN};
use crate::types::{Address, Bytes32};

verus! {

/// What an intent's id is the digest of.
pub open spec fn intent_preimage(
    user: Address,
    src_chain: Seq<u8>,
    amount: i128,
    timestamp: u64,
    nonce: u64,
) -> Seq<u8> {
    address_xdr(user) + text_xdr(src_chain) + be_bytes(to_unsigned(amount as int), 16) + be_bytes(
        timestamp as nat,
        8,
    ) + be_bytes(nonce as nat, 8)
}

/// The id of an intent: the digest of its user, source chain, source amount,
/// time of submission and place among the user's intents.
pub open spec fn intent_id(
    user: Address,
    src_chain: Seq<u8>,
    amount: i128,
    timestamp: u64,
    nonce: u64,
) -> Bytes32 {
    sha256_digest(intent_preimage(user, src_chain, amount, timestamp, nonce))
}

/// The bytes that an intent's id is the digest of.
pub fn encode_intent_preimage(
    env: &soroban_sdk::Env,
    user: &Address,
    src_chain: &Vec<u8>,
    amount: i128,
    timestamp: u64,
    nonce: u64,
) -> (r: Vec<u8>)
    requires
        src_chain@.len() <= MAX_TEXT_LEN,
    ensures
        r@ == intent_preimage(*user, src_chain@, amount, timestamp, nonce),
{
    let mut preimage = address_to_xdr(env, user);
    let mut chain = text_to_xdr(env, src_chain);
    preimage.append(&mut chain);
    push_i128(&mut preimage, amount);
    push_u64(&mut preimage, timestamp);
    push_u64(&mut preimage, nonce);
    preimage
}

/// The id of an intent: the digest of its user, source chain, source amount,
/// time of submission and place among the user's intents.
pub fn compute_intent_id(
    env: &soroban_sdk::Env,
    user: &Address,
    src_chain: &Vec<u8>,
    amount: i128,
    timestamp: u64,
    nonce: u64,
) -> (r: Bytes32)
    requires
        src_chain@.len() <= MAX_TEXT_LEN,
    ensures
        r == intent_id(*user, src_chain@, amount, timestamp, nonce),
{
    let preimage = encode_intent_preimage(env, user, src_chain, amount, timestamp, nonce);
    proof {
        lemma_be_bytes_len(src_chain@.len(), 4);
        lemma_be_bytes_len(to_unsigned(amount as int), 16);
        lemma_be_bytes_len(timestamp as nat, 8);
        lemma_be_bytes_len(nonce as nat, 8);
    }
    sha256(env, &preimage)
}

/// Equal bytes are the form of equal addresses, whatever follows them.
proof fn lemma_address_prefix(a: Address, rest_a: Seq<u8>, b: Address, rest_b: Seq<u8>)
    requires
        address_xdr(a) + rest_a == address_xdr(b) + rest_b,
    ensures
        a == b,
        rest_a == rest_b,
{
    let whole = address_xdr(a) + rest_a;
    assert(whole[7] == address_xdr(a)[7]);
    assert(whole[7] == address_xdr(b)[7]);
    match (a, b) {
        (Address::Account(x), Address::Account(y)) => {
            assert(whole.subrange(12, 44) =~= x.0@);
            assert(whole.subrange(12, 44) =~= y.0@);
            assert(x.0 =~= y.0);
            assert(rest_a =~= whole.skip(44));
            assert(rest_b =~= whole.skip(44));
        },
        (Address::Contract(x), Address::Contract(y)) => {
            assert(whole.subrange(8, 40) =~= x.0@);
            assert(whole.subrange(8, 40) =~= y.0@);
            assert(x.0 =~= y.0);
            assert(rest_a =~= whole.skip(40));
            assert(rest_b =~= whole.skip(40));
        },
        _ => {},
    }
}

/// Equal bytes are the form of equal texts, whatever follows them.
proof fn lemma_text_prefix(a: Seq<u8>, rest_a: Seq<u8>, b: Seq<u8>, rest_b: Seq<u8>)
    requires
        a.len() <= u32::MAX,
        b.len() <= u32::MAX,
        text_xdr(a) + rest_a == text_xdr(b) + rest_b,
    ensures
        a == b,
        rest_a == rest_b,
{
    let whole = text_xdr(a) + rest_a;
    lemma_be_bytes_len(a.len(), 4);
    lemma_be_bytes_len(b.len(), 4);
    assert(whole.subrange(4, 8) =~= be_bytes(a.len(), 4));
    assert(whole.subrange(4, 8) =~= be_bytes(b.len(), 4));
    reveal_with_fuel(pow256, 5);
    lemma_be_round_trip(a.len(), 4);
    lemma_be_round_trip(b.len(), 4);
    let n = a.len() as int;
    assert(whole.subrange(8, 8 + n) =~= a);
    assert(whole.subrange(8, 8 + n) =~= b);
    let end = 8 + n + padding(a.len());
    assert(rest_a =~= whole.skip(end));
    assert(rest_b =~= whole.skip(end));
}

/// Different intents have different preimages: two submissions that differ in
/// their user, source chain, amount, time or nonce can share an id only if the
/// hash function collides.
pub proof fn lemma_preimage_injective(
    user_a: Address,
    chain_a: Seq<u8>,
    amount_a: i128,
    time_a: u64,
    nonce_a: u64,
    user_b: Address,
    chain_b: Seq<u8>,
    amount_b: i128,
    time_b: u64,
    nonce_b: u64,
)
    requires
        chain_a.len() <= u32::MAX,
        chain_b.len() <= u32::MAX,
        intent_preimage(user_a, chain_a, amount_a, time_a, nonce_a) == intent_preimage(
            user_b,
            chain_b,
            amount_b,
            time_b,
            nonce_b,
        ),
    ensures
        user_a == user_b,
        chain_a == chain_b,
        amount_a == amount_b,
        time_a == time_b,
        nonce_a == nonce_b,
{
    let (xa, xb) = (
        be_bytes(to_unsigned(amount_a as int), 16),
        be_bytes(to_unsigned(amount_b as int), 16),
    );
    let (ta, tb) = (be_bytes(time_a as nat, 8), be_bytes(time_b as nat, 8));
    let (na, nb) = (be_bytes(nonce_a as nat, 8), be_bytes(nonce_b as nat, 8));
    let (tail_a, tail_b) = (xa + ta + na, xb + tb + nb);
    let whole = intent_preimage(user_a, chain_a, amount_a, time_a, nonce_a);
    assert(whole =~= address_xdr(user_a) + (text_xdr(chain_a) + tail_a));
    assert(whole =~= address_xdr(user_b) + (text_xdr(chain_b) + tail_b));
    lemma_address_prefix(user_a, text_xdr(chain_a) + tail_a, user_b, text_xdr(chain_b) + tail_b);
    lemma_text_prefix(chain_a, tail_a, chain_b, tail_b);
    lemma_signed_round_trip(amount_a as int);
    lemma_signed_round_trip(amount_b as int);
    lemma_be_bytes_len(to_unsigned(amount_a as int), 16);
    lemma_be_bytes_len(to_unsigned(amount_b as int), 16);
    lemma_be_bytes_len(time_a as nat, 8);
    lemma_be_bytes_len(time_b as nat, 8);
    lemma_be_bytes_len(nonce_a as nat, 8);
    lemma_be_bytes_len(nonce_b as nat, 8);
    assert(tail_a.subrange(0, 16) =~= xa && tail_b.subrange(0, 16) =~= xb);
    assert(tail_a.subrange(16, 24) =~= ta && tail_b.subrange(16, 24) =~= tb);
    assert(tail_a.subrange(24, 32) =~= na && tail_b.subrange(24, 32) =~= nb);
    lemma_pow256_values();
    lemma_be_round_trip(to_unsigned(amount_a as int), 16);
    lemma_be_round_trip(to_unsigned(amount_b as int), 16);
    lemma_be_round_trip(time_a as nat, 8);
    lemma_be_round_trip(time_b as nat, 8);
    lemma_be_round_trip(nonce_a as nat, 8);
    lemma_be_round_trip(nonce_b as nat, 8);
}

/// What an id is the digest of, from its end: the nonce in eight bytes, the time
/// in eight before it, the amount in sixteen before that; what comes first is
/// the user's address and the chain's name.
pub proof fn lemma_preimage_layout(
    user: Address,
    src_chain: Seq<u8>,
    amount: i128,
    timestamp: u64,
    nonce: u64,
)
    ensures
        ({
            let whole = intent_preimage(user, src_chain, amount, timestamp, nonce);
            let n = whole.len() as int;
            &&& n >= 32
            &&& be_value(whole.subrange(n - 8, n)) == nonce
            &&& be_value(whole.subrange(n - 16, n - 8)) == timestamp
            &&& to_signed(be_value(whole.subrange(n - 32, n - 16))) == amount
            &&& whole.subrange(0, n - 32) == address_xdr(user) + text_xdr(src_chain)
        }),
{
    let whole = intent_preimage(user, src_chain, amount, timestamp, nonce);
    let n = whole.len() as int;
    let head = address_xdr(user) + text_xdr(src_chain);
    lemma_be_bytes_len(to_unsigned(amount as int), 16);
    lemma_be_bytes_len(timestamp as nat, 8);
    lemma_be_bytes_len(nonce as nat, 8);
    assert(n == head.len() + 32);
    assert(whole.subrange(n - 8, n) =~= be_bytes(nonce as nat, 8));
    assert(whole.subrange(n - 16, n - 8) =~= be_bytes(timestamp as nat, 8));
    assert(whole.subrange(n - 32, n - 16) =~= be_bytes(to_unsigned(amount as int), 16));
    assert(whole.subrange(0, n - 32) =~= head);
    lemma_pow256_values();
    lemma_signed_round_trip(amount as int);
    lemma_be_round_trip(to_unsigned(amount as int), 16);
    lemma_be_round_trip(timestamp as nat, 8);
    lemma_be_round_trip(nonce as nat, 8);
}

} // verus!
