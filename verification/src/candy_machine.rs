//! Values of the on-chain program that the upload works for: account keys,
//! their short identifiers and token prices.

use vstd::arithmetic::power::{lemma_pow0, lemma_pow1, lemma_pow_adds, lemma_pow_increases, pow};
use vstd::prelude::*;

verus! {

/// Where a configuration line stands: its index, and whether it has been
/// written on chain.
#[derive(Debug)]
pub struct ConfigStatus {
    pub index: u32,
    pub on_chain: bool,
}

/// The key of an account: 32 bytes.
#[derive(Clone, Copy, Debug, PartialEq, Eq)]
pub struct Pubkey {
    pub bytes: [u8; 32],
}

/// The number of characters of an account's short identifier.
pub const UUID_LENGTH: usize = 6;

/// The Base58 text of a sequence of bytes, in the Bitcoin alphabet.
pub uninterp spec fn base58_text(bytes: Seq<u8>) -> Seq<char>;

/// Calls `bs58::encode(..).into_string()`. The contract only names the
/// result: the same bytes always give the same text, and nothing else is
/// claimed of it.
#[verifier::external_body]
fn base58_encode(bytes: &[u8]) -> (text: String)
    ensures
        text@ == base58_text(bytes@),
{
    bs58::encode(bytes).into_string()
}

/// The Base58 text of `bytes`, as a signer reads a secret key.
pub fn signer_key(bytes: &[u8]) -> (text: String)
    ensures
        text@ == base58_text(bytes@),
{
    base58_encode(bytes)
}

impl Pubkey {
    /// The key as text: the Base58 text of its bytes.
    pub fn to_base58(&self) -> (text: String)
        ensures
            text@ == base58_text(self.bytes@),
    {
        base58_encode(self.bytes.as_slice())
    }
}

/// The short identifier that the text of a key gives: its first
/// `UUID_LENGTH` characters. A shorter text gives none.
pub fn uuid_of(text: &str) -> (r: Option<String>)
    ensures
        match r {
            Some(uuid) => text@.len() >= UUID_LENGTH && uuid@ == text@.take(UUID_LENGTH as int),
            None => text@.len() < UUID_LENGTH,
        },
{
    if text.unicode_len() >= UUID_LENGTH {
        Some(text.substring_char(0, UUID_LENGTH).to_owned())
    } else {
        None
    }
}

/// The short identifier of an account: the first `UUID_LENGTH` characters of
/// the key's text.
pub fn uuid_from_pubkey(pubkey: &Pubkey) -> (uuid: String)
    requires
        base58_text(pubkey.bytes@).len() >= UUID_LENGTH,
    ensures
        uuid@ == base58_text(pubkey.bytes@).take(UUID_LENGTH as int),
{
    let text = pubkey.to_base58();
    text.as_str().substring_char(0, UUID_LENGTH).to_owned()
}

/// The short identifier of an account, if the key's text is long enough to
/// have one.
pub fn checked_uuid_from_pubkey(pubkey: &Pubkey) -> (r: Option<String>)
    ensures
        match r {
            Some(uuid) => base58_text(pubkey.bytes@).len() >= UUID_LENGTH && uuid@ == base58_text(
                pubkey.bytes@,
            ).take(UUID_LENGTH as int),
            None => base58_text(pubkey.bytes@).len() < UUID_LENGTH,
        },
{
    let text = pubkey.to_base58();
    if text.as_str().unicode_len() >= UUID_LENGTH {
        Some(uuid_from_pubkey(pubkey))
    } else {
        None
    }
}

/// The price of `price` whole tokens in the smallest unit of a token with
/// `decimals` decimal places: `price` times ten to the power of `decimals`.
/// Returns `None` exactly if that does not fit in 64 bits.
pub fn parse_config_price(price: u64, decimals: u8) -> (r: Option<u64>)
    ensures
        match r {
            Some(value) => value == price * pow(10, decimals as nat),
            None => price * pow(10, decimals as nat) > u64::MAX,
        },
{
    if price == 0 {
        return Some(0);
    }
    let mut value: u64 = price;
    let mut i: u8 = 0;
    proof {
        lemma_pow0(10);
    }
    while i < decimals
        invariant
            i <= decimals,
            price > 0,
            value == price * pow(10, i as nat),
        decreases decimals - i,
    {
        proof {
            lemma_pow_adds(10, i as nat, 1);
            lemma_pow1(10);
            assert(price * (pow(10, i as nat) * 10) == (price * pow(10, i as nat)) * 10)
                by (nonlinear_arith);
        }
        value = match value.checked_mul(10) {
            Some(next) => next,
            None => {
                proof {
                    let reached = pow(10, (i + 1) as nat);
                    let full = pow(10, decimals as nat);
                    lemma_pow_increases(10, (i + 1) as nat, decimals as nat);
                    assert(price * reached <= price * full) by (nonlinear_arith)
                        requires
                            reached <= full,
                            price > 0,
                    ;
                }
                return None;
            },
        };
        i += 1;
    }
    Some(value)
}

} // verus!
