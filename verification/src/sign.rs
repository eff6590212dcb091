//! Request signatures.
//!
//! A signature is the base64 text of an HMAC-SHA256 tag. The key of the tag is
//! the text made of the timestamp in decimal, a line feed and the secret; the
//! message under the tag is empty.

use vstd::prelude::*;
use vstd::string::StringExecFns;
use vstd::utf8::encode_utf8;
use base64::Engine;
use base64::engine::general_purpose::STANDARD;
use hmac::{Hmac, Mac};
use sha2::Sha256;
use crate::decimal::{
    decimal_digits, decimal_string, is_digit, lemma_decimal_digits_are_digits,
    lemma_decimal_digits_injective,
};

verus! {

/// The HMAC-SHA256 tag that the key `key` gives to the empty message.
pub uninterp spec fn hmac_sha256_of_nothing(key: Seq<u8>) -> Seq<u8>;

/// The base64 text of `bytes` in the standard alphabet, padded with `=`.
pub uninterp spec fn base64_standard(bytes: Seq<u8>) -> Seq<char>;

/// The text that keys the tag: the timestamp in decimal, a line feed, the secret.
pub open spec fn signing_key(timestamp: u64, secret: Seq<char>) -> Seq<char> {
    decimal_digits(timestamp as nat) + seq!['\n'] + secret
}

/// The signature of a request made at `timestamp` under `secret`.
pub open spec fn signature(timestamp: u64, secret: Seq<char>) -> Seq<char> {
    base64_standard(hmac_sha256_of_nothing(encode_utf8(signing_key(timestamp, secret))))
}

/// Equal timestamps and secrets give equal signatures.
pub proof fn lemma_signature_deterministic(
    first_timestamp: u64,
    first_secret: Seq<char>,
    second_timestamp: u64,
    second_secret: Seq<char>,
)
    requires
        first_timestamp == second_timestamp,
        first_secret == second_secret,
    ensures
        signature(first_timestamp, first_secret) == signature(second_timestamp, second_secret),
{
}

/// The key text tells timestamp and secret apart: two requests have the same
/// key text only where both their timestamps and their secrets are equal.
pub proof fn lemma_signing_key_injective(
    first_timestamp: u64,
    first_secret: Seq<char>,
    second_timestamp: u64,
    second_secret: Seq<char>,
)
    requires
        signing_key(first_timestamp, first_secret) == signing_key(second_timestamp, second_secret),
    ensures
        first_timestamp == second_timestamp,
        first_secret == second_secret,
{
    let first_digits = decimal_digits(first_timestamp as nat);
    let second_digits = decimal_digits(second_timestamp as nat);
    let first_key = signing_key(first_timestamp, first_secret);
    let second_key = signing_key(second_timestamp, second_secret);
    lemma_decimal_digits_are_digits(first_timestamp as nat);
    lemma_decimal_digits_are_digits(second_timestamp as nat);
    assert(!is_digit('\n'));
    assert(first_key[first_digits.len() as int] == '\n');
    assert(second_key[second_digits.len() as int] == '\n');
    if first_digits.len() < second_digits.len() {
        assert(second_key[first_digits.len() as int] == second_digits[first_digits.len() as int]);
        assert(false);
    }
    if second_digits.len() < first_digits.len() {
        assert(first_key[second_digits.len() as int] == first_digits[second_digits.len() as int]);
        assert(false);
    }
    assert(first_digits =~= second_digits) by {
        assert forall|i: int| 0 <= i < first_digits.len() implies first_digits[i]
            == second_digits[i] by {
            assert(first_key[i] == first_digits[i]);
            assert(second_key[i] == second_digits[i]);
        }
    }
    lemma_decimal_digits_injective(first_timestamp as nat, second_timestamp as nat);
    assert(first_secret =~= second_secret) by {
        let offset = first_digits.len() + 1;
        assert(first_secret.len() == first_key.len() - offset);
        assert(second_secret.len() == second_key.len() - offset);
        assert forall|i: int| 0 <= i < first_secret.len() implies first_secret[i]
            == second_secret[i] by {
            assert(first_key[offset + i] == first_secret[i]);
            assert(second_key[offset + i] == second_secret[i]);
        }
    }
}

/// Calls `Hmac::<Sha256>::new_from_slice` of the crate hmac with `key`, then
/// `finalize` and `into_bytes` on the state that it gives, with no `update`
/// between them. The contract claims that the bytes that come back are a
/// function of `key` alone, and that there are 32 of them, the output size
/// of SHA-256. For this hash the key set-up accepts a key of every length.
#[verifier::external_body]
fn mac_of_nothing(key: &[u8]) -> (tag: Vec<u8>)
    ensures
        tag@ == hmac_sha256_of_nothing(key@),
        tag@.len() == 32,
{
    let state = Hmac::<Sha256>::new_from_slice(key).expect("HMAC can take key of any size");
    state.finalize().into_bytes().to_vec()
}

/// Calls `Engine::encode` of the crate base64 on its engine `STANDARD`. The
/// contract claims that the text that comes back is a function of `bytes`
/// alone. The call fails where the length of the text does not fit in memory,
/// which the precondition rules out.
#[verifier::external_body]
fn encode_base64(bytes: &[u8]) -> (text: String)
    requires
        bytes@.len() / 3 * 4 + 4 <= isize::MAX,
    ensures
        text@ == base64_standard(bytes@),
{
    STANDARD.encode(bytes)
}

/// The key text for a request made at `timestamp` under `secret`.
pub fn signing_key_text(timestamp: u64, secret: &str) -> (key: String)
    ensures
        key@ == signing_key(timestamp, secret@),
{
    proof {
        reveal_strlit("\n");
    }
    let mut key = decimal_string(timestamp);
    key.append("\n");
    key.append(secret);
    assert("\n"@ =~= seq!['\n']);
    key
}

/// Signs a request made at `timestamp`, in seconds since the epoch, under
/// `secret`: the base64 text of the HMAC-SHA256 tag of the empty message, keyed
/// with the timestamp in decimal, a line feed and the secret.
pub fn generate_sign(timestamp: u64, secret: &str) -> (sign: String)
    ensures
        sign@ == signature(timestamp, secret@),
{
    let key = signing_key_text(timestamp, secret);
    let tag = mac_of_nothing(key.as_str().as_bytes());
    encode_base64(tag.as_slice())
}

} // verus!
