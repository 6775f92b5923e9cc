//! OpenPGP side of the library: the key's fingerprint, the framing of the
//! armored challenge, and what the outcome of decrypting a message means for
//! the caller.
//!
//! Parsing packets and decrypting stay with the `pgp` crate, called by the
//! application: on malformed input pgp 0.9 panics in places (its armor reader,
//! its session-key handling) that no check made before the call can exclude.

use vstd::prelude::*;
use crate::codec::{
    decode_transport, lemma_transport_round_trip_mixed, no_backslash, percent_decoded,
    transport_escaped_mixed, transport_unescaped,
};
use crate::error::PassboltError;
use crate::fingerprint::upper_hex;
use crate::text::{chars_of, count_occurrences, occurs_exactly_once};
use pgp::types::KeyTrait;
use pgp::SignedSecretKey;

verus! {

/// `pgp::SignedSecretKey`, carried through opaquely.
#[verifier::external_type_specification]
#[verifier::external_body]
pub struct ExSignedSecretKey(SignedSecretKey);

/// The fingerprint of a key's primary key.
pub uninterp spec fn fingerprint_bytes(key: SignedSecretKey) -> Seq<u8>;

/// Relies on `KeyTrait::fingerprint` of `SignedSecretKey`: the fingerprint of
/// the primary key, which is also that of its public key.
#[verifier::external_body]
fn key_fingerprint(key: &SignedSecretKey) -> (r: Vec<u8>)
    ensures
        r@ == fingerprint_bytes(*key),
{
    key.fingerprint()
}

/// The uppercase hexadecimal fingerprint of the key, as the server names it.
pub fn fingerprint_of(key: &SignedSecretKey) -> (r: String)
    ensures
        r@ == upper_hex(fingerprint_bytes(*key)),
{
    let bytes = key_fingerprint(key);
    crate::fingerprint::fingerprint_hex(bytes.as_slice())
}

/// The line that opens an armor block.
pub open spec fn armor_begin() -> Seq<char> {
    "-----BEGIN "@
}

/// The line that closes an armor block.
pub open spec fn armor_end() -> Seq<char> {
    "-----END "@
}

/// The armored text that a transport-encoded challenge stands for: `None`
/// where percent-decoding fails, or the text does not hold exactly one
/// `-----BEGIN ` and exactly one `-----END ` line opener.
pub open spec fn decoded_armor(encoded: Seq<char>) -> Option<Seq<char>> {
    match percent_decoded(encoded) {
        None => None,
        Some(d) => {
            let text = transport_unescaped(d);
            if count_occurrences(text, armor_begin()) == 1 && count_occurrences(text, armor_end()) == 1 {
                Some(text)
            } else {
                None
            }
        },
    }
}

/// A challenge that percent-decodes to a block of one armor frame, escaped
/// with `\+` for spaces and `\n` or `\r\n` for each line break, decodes to
/// that block character for character.
pub proof fn lemma_decode_escaped_block(encoded: Seq<char>, block: Seq<char>, crlf: Seq<bool>)
    requires
        no_backslash(block),
        crlf.len() == block.len(),
        count_occurrences(block, armor_begin()) == 1,
        count_occurrences(block, armor_end()) == 1,
        percent_decoded(encoded) == Some(transport_escaped_mixed(block, crlf)),
    ensures
        decoded_armor(encoded) == Some(block),
{
    lemma_transport_round_trip_mixed(block, crlf);
}

/// Decodes a transport-encoded challenge into the text of its single armor
/// block; every failure is a `DecodeError`.
pub fn decode_url_armor(encoded_armor: &str) -> (r: Result<String, PassboltError>)
    ensures
        r is Ok <==> decoded_armor(encoded_armor@) is Some,
        r is Ok ==> r->Ok_0@ == decoded_armor(encoded_armor@)->0,
        r is Err ==> r == Err::<String, PassboltError>(PassboltError::DecodeError),
{
    let decoded = match decode_transport(encoded_armor) {
        Ok(text) => text,
        Err(e) => return Err(e),
    };
    let chars = chars_of(decoded.as_str());
    let begin = chars_of("-----BEGIN ");
    let end = chars_of("-----END ");
    if !occurs_exactly_once(&chars, &begin) || !occurs_exactly_once(&chars, &end) {
        return Err(PassboltError::DecodeError);
    }
    Ok(decoded)
}

/// The plaintext of a decryption, given its outcome: `Err` where decryption or
/// reading the decrypted messages failed; `Ok(None)` where it gave no message;
/// `Ok(Some(content))` with the literal content of the first message, the only
/// one read (`None` where it carries no literal data).
pub open spec fn plaintext_of(outcome: Result<Option<Option<Seq<u8>>>, PassboltError>) -> Result<Seq<u8>, PassboltError> {
    match outcome {
        Err(e) => Err(e),
        Ok(None) => Ok(Seq::empty()),
        Ok(Some(None)) => Ok(Seq::empty()),
        Ok(Some(Some(b))) => Ok(b),
    }
}

/// The view of a decryption outcome.
pub open spec fn outcome_view(outcome: Result<Option<Option<Vec<u8>>>, PassboltError>) -> Result<Option<Option<Seq<u8>>>, PassboltError> {
    match outcome {
        Err(e) => Err(e),
        Ok(None) => Ok(None),
        Ok(Some(None)) => Ok(Some(None)),
        Ok(Some(Some(b))) => Ok(Some(Some(b@))),
    }
}

/// The view of a byte result.
pub open spec fn bytes_result(r: Result<Vec<u8>, PassboltError>) -> Result<Seq<u8>, PassboltError> {
    match r {
        Ok(b) => Ok(b@),
        Err(e) => Err(e),
    }
}

/// The plaintext of a decrypted message's literal content: empty where there is
/// none.
pub fn plaintext_of_content(content: Option<Vec<u8>>) -> (r: Vec<u8>)
    ensures
        content is None ==> r@ == Seq::<u8>::empty(),
        content is Some ==> r@ == content->0@,
{
    match content {
        None => {
            let v: Vec<u8> = Vec::new();
            assert(v@ =~= Seq::<u8>::empty());
            v
        },
        Some(bytes) => bytes,
    }
}

/// The plaintext of a decryption, from its outcome (see `plaintext_of`). With
/// no decrypted message at all the plaintext is empty: that is no error.
pub fn first_plaintext(outcome: Result<Option<Option<Vec<u8>>>, PassboltError>) -> (r: Result<Vec<u8>, PassboltError>)
    ensures
        bytes_result(r) == plaintext_of(outcome_view(outcome)),
{
    match outcome {
        Err(e) => Err(e),
        Ok(None) => {
            let v: Vec<u8> = Vec::new();
            assert(v@ =~= Seq::<u8>::empty());
            Ok(v)
        },
        Ok(Some(content)) => Ok(plaintext_of_content(content)),
    }
}

} // verus!
