//! Secrets: the encrypted record that the server stores per resource, and the
//! payload that decrypting it gives.

use vstd::prelude::*;
use crate::error::PassboltError;
use crate::json::{json_member, json_str, member_of, parse_json_text, parsed_json, str_of};
use secstr::SecUtf8;

verus! {

/// `secstr::SecUtf8`, text wiped from memory on drop.
#[verifier::external_type_specification]
#[verifier::external_body]
pub struct ExSecUtf8(SecUtf8);

/// An instant, as seconds and nanoseconds since the Unix epoch (UTC).
#[derive(Debug, Clone, Copy, PartialEq, Eq, Structural)]
pub struct Timestamp {
    pub unix_seconds: i64,
    pub nanos: u32,
}

/// The text that a `SecUtf8` holds.
pub uninterp spec fn secured_text(s: SecUtf8) -> Seq<char>;

/// Relies on `From<String>` for `SecUtf8`: moves the text, unchanged, into
/// storage that is wiped when dropped.
#[verifier::external_body]
fn secure(text: String) -> (r: SecUtf8)
    ensures
        secured_text(r) == text@,
{
    SecUtf8::from(text)
}

/// A secret as the server stores it; `data` is an armored OpenPGP message,
/// which the application decrypts before `parse_secret_payload` reads it.
pub struct Secret {
    pub id: String,
    pub user_id: String,
    pub data: String,
    pub created_at: Timestamp,
    pub modified_at: Timestamp,
}

/// The decrypted payload of a secret, held in storage that is wiped on drop.
pub struct SecretData {
    pub password: SecUtf8,
    pub description: SecUtf8,
}

/// The two fields of a payload: both must be strings, else a `SchemaError`.
pub fn payload_fields(password: Option<String>, description: Option<String>) -> (r: Result<(String, String), PassboltError>)
    ensures
        password is Some && description is Some ==> (r is Ok && r->Ok_0.0@ == password->0@
            && r->Ok_0.1@ == description->0@),
        password is None || description is None ==> r == Err::<(String, String), PassboltError>(
            PassboltError::SchemaError,
        ),
{
    match (password, description) {
        (Some(p), Some(d)) => Ok((p, d)),
        _ => Err(PassboltError::SchemaError),
    }
}

/// The string at `key` of the JSON object that `text` holds, if there is one.
pub open spec fn str_member(text: Seq<u8>, key: Seq<char>) -> Option<Seq<char>> {
    match parsed_json(text) {
        None => None,
        Some(v) => match member_of(v, key) {
            None => None,
            Some(m) => str_of(m),
        },
    }
}

/// Whether `text` is a JSON object with string fields `password` and `description`.
pub open spec fn payload_parses(text: Seq<u8>) -> bool {
    str_member(text, "password"@) is Some && str_member(text, "description"@) is Some
}

/// Whether `data` holds exactly the two fields of the payload that `text` holds.
pub open spec fn holds_payload(data: SecretData, text: Seq<u8>) -> bool {
    secured_text(data.password) == str_member(text, "password"@)->0 && secured_text(
        data.description,
    ) == str_member(text, "description"@)->0
}

/// Parses decrypted plaintext as the JSON object
/// `{"password": string, "description": string}`. Bytes that are no JSON, or
/// lack either string, are a `SchemaError`.
pub fn parse_secret_payload(plaintext: &[u8]) -> (r: Result<SecretData, PassboltError>)
    ensures
        r is Ok <==> payload_parses(plaintext@),
        r is Ok ==> holds_payload(r->Ok_0, plaintext@),
        r is Err ==> r == Err::<SecretData, PassboltError>(PassboltError::SchemaError),
{
    let json = match parse_json_text(plaintext) {
        Ok(v) => v,
        Err(_) => return Err(PassboltError::SchemaError),
    };
    let password = match json_member(&json, "password") {
        Some(v) => json_str(v),
        None => None,
    };
    let description = match json_member(&json, "description") {
        Some(v) => json_str(v),
        None => None,
    };
    match payload_fields(password, description) {
        Ok((p, d)) => Ok(SecretData { password: secure(p), description: secure(d) }),
        Err(e) => Err(e),
    }
}

impl Secret {
    /// Creates a new instance of the Secret struct.
    pub fn new(
        id: String,
        user_id: String,
        data: String,
        created_at: Timestamp,
        modified_at: Timestamp,
    ) -> (r: Secret)
        ensures
            r.id == id,
            r.user_id == user_id,
            r.data == data,
            r.created_at == created_at,
            r.modified_at == modified_at,
    {
        Secret { id, user_id, data, created_at, modified_at }
    }
}

} // verus!
