//! Calls into the contract host, through the Soroban SDK.
//!
//! The host meters what a transaction spends and ends one that exhausts its
//! budget. The contracts below speak of the calls that return.
use vstd::prelude::*;
use soroban_sdk::address_payload::AddressPayload;
use soroban_sdk::xdr::ToXdr;
use crate::encoding::be_bytes;
use crate::types::{Address, Bytes32};

verus! {

/// The Soroban SDK's handle on the contract host, carried to the calls below.
#[verifier::external_type_specification]
#[verifier::external_body]
pub struct ExEnv(soroban_sdk::Env);

/// The largest text that the host serializes: the XDR of a value is limited
/// to 32 MiB, of which a text needs eight bytes for its tag and length.
pub const MAX_TEXT_LEN: usize = 33_554_424;

/// The SHA-256 digest of `data`.
pub uninterp spec fn sha256_digest(data: Seq<u8>) -> Bytes32;

/// The XDR form of an address as a contract value: the tag of an address (18),
/// the tag of its kind, and its 32 bytes. That of an account carries the tag of
/// its key type as well.
pub open spec fn address_xdr(address: Address) -> Seq<u8> {
    match address {
        Address::Account(key) => seq![0u8, 0, 0, 18, 0, 0, 0, 0, 0, 0, 0, 0] + key.0@,
        Address::Contract(hash) => seq![0u8, 0, 0, 18, 0, 0, 0, 1] + hash.0@,
    }
}

/// How many zero bytes bring a length to a multiple of four.
pub open spec fn padding(len: nat) -> nat {
    ((4 - len % 4) % 4) as nat
}

/// The XDR form of a text as a contract value: the tag of a string (14), its
/// length, its bytes, and zero bytes up to a multiple of four.
pub open spec fn text_xdr(text: Seq<u8>) -> Seq<u8> {
    seq![0u8, 0, 0, 14] + be_bytes(text.len(), 4) + text + Seq::new(
        padding(text.len()),
        |i: int| 0u8,
    )
}

/// `soroban_sdk::crypto::Crypto::sha256`: the digest is the SHA-256 of the
/// data, a function of the data alone, which is named and not written out.
#[verifier::external_body]
pub(crate) fn sha256(env: &soroban_sdk::Env, data: &Vec<u8>) -> (digest: Bytes32)
    requires
        data@.len() <= u32::MAX,
    ensures
        digest == sha256_digest(data@),
{
    let bytes = soroban_sdk::Bytes::from_slice(env, data.as_slice());
    Bytes32(env.crypto().sha256(&bytes).to_array())
}

/// `soroban_sdk::xdr::ToXdr::to_xdr` on an address, which
/// `soroban_sdk::address_payload::AddressPayload::to_address` makes from its
/// 32 bytes: the bytes are the XDR form of the address as a contract value.
#[verifier::external_body]
pub(crate) fn address_to_xdr(env: &soroban_sdk::Env, address: &Address) -> (r: Vec<u8>)
    ensures
        r@ == address_xdr(*address),
{
    let payload = match address {
        Address::Account(key) => AddressPayload::AccountIdPublicKeyEd25519(
            soroban_sdk::BytesN::from_array(env, &key.0),
        ),
        Address::Contract(hash) => AddressPayload::ContractIdHash(
            soroban_sdk::BytesN::from_array(env, &hash.0),
        ),
    };
    payload.to_address(env).to_xdr(env).iter().collect()
}

/// `soroban_sdk::xdr::ToXdr::to_xdr` on a string of these bytes: the bytes
/// that come back are the XDR form of the string as a contract value.
#[verifier::external_body]
pub(crate) fn text_to_xdr(env: &soroban_sdk::Env, text: &Vec<u8>) -> (r: Vec<u8>)
    requires
        text@.len() <= MAX_TEXT_LEN,
    ensures
        r@ == text_xdr(text@),
{
    soroban_sdk::String::from_bytes(env, text.as_slice()).to_xdr(env).iter().collect()
}

} // verus!
