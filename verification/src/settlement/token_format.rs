//! Token address formats of the source chains.
use vstd::prelude::*;
use vstd::string::*;

verus! {

/// The bytes of an ASCII text.
pub open spec fn ascii(text: Seq<char>) -> Seq<u8> {
    Seq::new(text.len(), |i: int| text[i] as u8)
}

/// Source chains whose tokens are Ethereum-style addresses.
pub open spec fn is_evm_chain(chain: Seq<u8>) -> bool {
    ||| chain == ascii("ethereum"@)
    ||| chain == ascii("base"@)
    ||| chain == ascii("polygon"@)
    ||| chain == ascii("arbitrum"@)
    ||| chain == ascii("optimism"@)
}

/// The source chain whose tokens are base58 public keys.
pub open spec fn is_solana(chain: Seq<u8>) -> bool {
    chain == ascii("solana"@)
}

/// A hexadecimal digit, in either case.
pub open spec fn is_hex_digit(byte: u8) -> bool {
    ||| '0' <= byte as char <= '9'
    ||| 'a' <= byte as char <= 'f'
    ||| 'A' <= byte as char <= 'F'
}

/// A letter of the base58 alphabet: a digit or a letter other than
/// `0`, `I`, `O` and `l`.
pub open spec fn is_base58(byte: u8) -> bool {
    let letter = byte as char;
    &&& '0' < letter <= '9' || 'A' <= letter <= 'Z' || 'a' <= letter <= 'z'
    &&& letter != 'I' && letter != 'O' && letter != 'l'
}

/// `0x` and forty hexadecimal digits.
pub open spec fn is_evm_address(token: Seq<u8>) -> bool {
    &&& token.len() == 42
    &&& token.subrange(0, 2) == ascii("0x"@)
    &&& forall|i: int| 2 <= i < 42 ==> is_hex_digit(#[trigger] token[i])
}

/// 32 to 44 letters of the base58 alphabet.
pub open spec fn is_base58_key(token: Seq<u8>) -> bool {
    &&& 32 <= token.len() <= 44
    &&& forall|i: int| 0 <= i < token.len() ==> is_base58(#[trigger] token[i])
}

/// Whether a token has the format of its chain. Chains that are not known
/// accept every token.
pub open spec fn token_matches_chain(chain: Seq<u8>, token: Seq<u8>) -> bool {
    &&& is_evm_chain(chain) ==> is_evm_address(token)
    &&& is_solana(chain) ==> is_base58_key(token)
}

/// Whether `bytes` spell `text`.
fn spells(bytes: &Vec<u8>, text: &str) -> (r: bool)
    requires
        is_ascii(text),
    ensures
        r == (bytes@ == ascii(text@)),
{
    broadcast use vstd::string::is_ascii_spec_bytes;

    let letters = text.as_bytes();
    assert(letters@ =~= ascii(text@));
    if bytes.len() != letters.len() {
        return false;
    }
    let mut i: usize = 0;
    while i < bytes.len()
        invariant
            i <= bytes@.len(),
            bytes@.len() == letters@.len(),
            letters@ == ascii(text@),
            forall|j: int| 0 <= j < i ==> bytes@[j] == letters@[j],
        decreases bytes@.len() - i,
    {
        if bytes[i] != letters[i] {
            assert(bytes@ != letters@);
            return false;
        }
        i += 1;
    }
    assert(bytes@ =~= letters@);
    true
}

/// Whether `src_token` has the format that `src_chain` gives its tokens:
/// `0x` and 40 hexadecimal digits on the EVM chains, 32 to 44 base58 letters
/// on Solana, anything elsewhere.
pub fn validate_src_token(src_chain: &Vec<u8>, src_token: &Vec<u8>) -> (r: bool)
    ensures
        r == token_matches_chain(src_chain@, src_token@),
{
    proof {
        reveal_strlit("ethereum");
        reveal_strlit("base");
        reveal_strlit("polygon");
        reveal_strlit("arbitrum");
        reveal_strlit("optimism");
        reveal_strlit("solana");
        reveal_strlit("0x");
    }
    let evm = spells(src_chain, "ethereum") || spells(src_chain, "base") || spells(
        src_chain,
        "polygon",
    ) || spells(src_chain, "arbitrum") || spells(src_chain, "optimism");
    let solana = spells(src_chain, "solana");
    let ghost token = src_token@;
    if evm {
        proof {
            assert(!solana) by {
                if solana {
                    assert(src_chain@.len() == 6);
                    assert(src_chain@ == ascii("ethereum"@) || src_chain@ == ascii("base"@)
                        || src_chain@ == ascii("polygon"@) || src_chain@ == ascii("arbitrum"@)
                        || src_chain@ == ascii("optimism"@));
                }
            }
        }
        if src_token.len() != 42 {
            return false;
        }
        if src_token[0] != 48 || src_token[1] != 120 {
            assert(token.subrange(0, 2)[0] == token[0] && token.subrange(0, 2)[1] == token[1]);
            assert(ascii("0x"@)[0] == 48 && ascii("0x"@)[1] == 120);
            return false;
        }
        assert(token.subrange(0, 2) =~= ascii("0x"@));
        let mut i: usize = 2;
        while i < 42
            invariant
                2 <= i <= 42,
                is_evm_chain(src_chain@),
                src_token@ == token,
                token.len() == 42,
                forall|j: int| 2 <= j < i ==> is_hex_digit(#[trigger] token[j]),
            decreases 42 - i,
        {
            let byte: u8 = src_token[i];
            let hex = (48 <= byte && byte <= 57) || (97 <= byte && byte <= 102) || (65 <= byte
                && byte <= 70);
            if !hex {
                assert(!is_hex_digit(token[i as int]));
                return false;
            }
            i += 1;
        }
        return true;
    }
    if solana {
        if src_token.len() < 32 || 44 < src_token.len() {
            return false;
        }
        let mut i: usize = 0;
        while i < src_token.len()
            invariant
                i <= token.len(),
                is_solana(src_chain@),
                src_token@ == token,
                forall|j: int| 0 <= j < i ==> is_base58(#[trigger] token[j]),
            decreases token.len() - i,
        {
            let byte: u8 = src_token[i];
            let base58 = (49 <= byte && byte <= 57) || (65 <= byte && byte <= 72) || (74 <= byte
                && byte <= 78) || (80 <= byte && byte <= 90) || (97 <= byte && byte <= 107) || (109
                <= byte && byte <= 122);
            if !base58 {
                assert(!is_base58(token[i as int]));
                return false;
            }
            i += 1;
        }
        return true;
    }
    true
}

// ── What the formats come to ────────────────────────────────────────────────

/// The chains with Ethereum-style addresses, letter by letter: ethereum, base,
/// polygon, arbitrum, optimism.
pub open spec fn spelled_evm(chain: Seq<u8>) -> bool {
    ||| chain == seq![101u8, 116, 104, 101, 114, 101, 117, 109]
    ||| chain == seq![98u8, 97, 115, 101]
    ||| chain == seq![112u8, 111, 108, 121, 103, 111, 110]
    ||| chain == seq![97u8, 114, 98, 105, 116, 114, 117, 109]
    ||| chain == seq![111u8, 112, 116, 105, 109, 105, 115, 109]
}

/// solana, letter by letter.
pub open spec fn spelled_solana(chain: Seq<u8>) -> bool {
    chain == seq![115u8, 111, 108, 97, 110, 97]
}

proof fn lemma_spelled(chain: Seq<u8>)
    ensures
        is_evm_chain(chain) <==> spelled_evm(chain),
        is_solana(chain) <==> spelled_solana(chain),
        !(spelled_evm(chain) && spelled_solana(chain)),
{
    reveal_strlit("ethereum");
    reveal_strlit("base");
    reveal_strlit("polygon");
    reveal_strlit("arbitrum");
    reveal_strlit("optimism");
    reveal_strlit("solana");
    assert(ascii("ethereum"@) =~= seq![101u8, 116, 104, 101, 114, 101, 117, 109]);
    assert(ascii("base"@) =~= seq![98u8, 97, 115, 101]);
    assert(ascii("polygon"@) =~= seq![112u8, 111, 108, 121, 103, 111, 110]);
    assert(ascii("arbitrum"@) =~= seq![97u8, 114, 98, 105, 116, 114, 117, 109]);
    assert(ascii("optimism"@) =~= seq![111u8, 112, 116, 105, 109, 105, 115, 109]);
    assert(ascii("solana"@) =~= seq![115u8, 111, 108, 97, 110, 97]);
    if spelled_solana(chain) {
        assert(chain.len() == 6);
    }
}

/// On the chains with Ethereum-style addresses a token is 42 letters: `0`, `x`,
/// and digits or letters from a to f in either case.
pub proof fn lemma_evm_tokens(chain: Seq<u8>, token: Seq<u8>)
    requires
        spelled_evm(chain),
    ensures
        token_matches_chain(chain, token) <==> token.len() == 42 && token[0] == 48 && token[1]
            == 120 && forall|i: int|
            2 <= i < 42 ==> 48 <= #[trigger] token[i] <= 57 || 65 <= token[i] <= 70 || 97
                <= token[i] <= 102,
{
    lemma_spelled(chain);
    reveal_strlit("0x");
    assert(ascii("0x"@) =~= seq![48u8, 120]);
    if token.len() == 42 {
        let head = token.subrange(0, 2);
        assert(head[0] == token[0] && head[1] == token[1]);
        if token[0] == 48 && token[1] == 120 {
            assert(head =~= seq![48u8, 120]);
        }
        assert forall|i: int| 2 <= i < 42 implies (is_hex_digit(#[trigger] token[i]) <==> 48
            <= token[i] <= 57 || 65 <= token[i] <= 70 || 97 <= token[i] <= 102) by {
        }
    }
}

/// On Solana a token is 32 to 44 letters: digits and letters in either case, but
/// for the digit 0, the capitals I and O and the small l.
pub proof fn lemma_solana_tokens(chain: Seq<u8>, token: Seq<u8>)
    requires
        spelled_solana(chain),
    ensures
        token_matches_chain(chain, token) <==> 32 <= token.len() <= 44 && forall|i: int|
            0 <= i < token.len() ==> {
                let letter = #[trigger] token[i];
                &&& 49 <= letter <= 57 || 65 <= letter <= 90 || 97 <= letter <= 122
                &&& letter != 73 && letter != 79 && letter != 108
            },
{
    lemma_spelled(chain);
    assert forall|i: int| 0 <= i < token.len() implies (is_base58(#[trigger] token[i]) <==> ((49
        <= token[i] <= 57 || 65 <= token[i] <= 90 || 97 <= token[i] <= 122) && token[i] != 73
        && token[i] != 79 && token[i] != 108)) by {
    }
}

/// On every other chain any token will do.
pub proof fn lemma_other_tokens(chain: Seq<u8>, token: Seq<u8>)
    requires
        !spelled_evm(chain),
        !spelled_solana(chain),
    ensures
        token_matches_chain(chain, token),
{
    lemma_spelled(chain);
}

} // verus!
