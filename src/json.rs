//! Reading and building JSON values through `serde_json`.

use vstd::prelude::*;
use crate::error::PassboltError;
use crate::secret::Timestamp;
use serde_json::Value;

verus! {

/// `serde_json::Value`, carried through opaquely.
#[verifier::external_type_specification]
#[verifier::external_body]
pub struct ExJsonValue(Value);

/// `serde_json::Error`, mapped to the library's own errors.
#[verifier::external_type_specification]
#[verifier::external_body]
pub struct ExJsonError(serde_json::Error);

/// The JSON document that `text` holds, if it is one.
pub uninterp spec fn parsed_json(text: Seq<u8>) -> Option<Value>;

/// The member of an object at `key`; `None` where the value is no object or
/// lacks the key.
pub uninterp spec fn member_of(value: Value, key: Seq<char>) -> Option<Value>;

/// The string that a value holds, if it is a string.
pub uninterp spec fn str_of(value: Value) -> Option<Seq<char>>;

/// The boolean that a value holds, if it is a boolean.
pub uninterp spec fn bool_of(value: Value) -> Option<bool>;

/// The JSON string value of `s`.
pub uninterp spec fn string_value(s: Seq<char>) -> Value;

/// The JSON object of the given entries: its keys sorted, the last value kept
/// where a key repeats.
pub uninterp spec fn object_value(entries: Seq<(Seq<char>, Value)>) -> Value;

/// The compact JSON text of a value.
pub uninterp spec fn json_text(value: Value) -> Seq<char>;

/// Relies on `serde_json::from_slice` into a `Value`: the document, or the
/// syntax error; the result depends on the bytes alone.
#[verifier::external_body]
pub(crate) fn parse_json_text(text: &[u8]) -> (r: Result<Value, serde_json::Error>)
    ensures
        r is Ok <==> parsed_json(text@) is Some,
        r is Ok ==> r->Ok_0 == parsed_json(text@)->0,
{
    serde_json::from_slice(text)
}

/// Relies on `Value::get` with a string key: the member of an object, `None`
/// where the value is no object or lacks the key.
#[verifier::external_body]
pub(crate) fn json_member<'a>(value: &'a Value, key: &str) -> (r: Option<&'a Value>)
    ensures
        r is Some <==> member_of(*value, key@) is Some,
        r is Some ==> *r->0 == member_of(*value, key@)->0,
{
    value.get(key)
}

/// Relies on `Value::as_str`: the string that the value holds, `None` where it
/// is no string.
#[verifier::external_body]
pub(crate) fn json_str(value: &Value) -> (r: Option<String>)
    ensures
        r is Some <==> str_of(*value) is Some,
        r is Some ==> r->0@ == str_of(*value)->0,
{
    match value.as_str() {
        Some(s) => Some(s.to_string()),
        None => None,
    }
}

/// Relies on `Value::as_bool`: the boolean that the value holds, `None` where
/// it is no boolean.
#[verifier::external_body]
fn json_bool(value: &Value) -> (r: Option<bool>)
    ensures
        r == bool_of(*value),
{
    value.as_bool()
}

/// Relies on `From<&str>` for `Value`: the JSON string value.
#[verifier::external_body]
pub(crate) fn json_from_str(s: &str) -> (r: Value)
    ensures
        r == string_value(s@),
{
    Value::from(s)
}

/// The views of an object's entries.
pub open spec fn entries_view(entries: Seq<(String, Value)>) -> Seq<(Seq<char>, Value)> {
    entries.map_values(|e: (String, Value)| (e.0@, e.1))
}

/// Relies on `Value::Object` of a `serde_json::Map` collected from the entries.
#[verifier::external_body]
pub(crate) fn json_object(entries: Vec<(String, Value)>) -> (r: Value)
    ensures
        r == object_value(entries_view(entries@)),
{
    Value::Object(entries.into_iter().collect())
}

/// Relies on `Display` for `Value`: the compact JSON text.
#[verifier::external_body]
pub(crate) fn json_to_string(value: &Value) -> (r: String)
    ensures
        r@ == json_text(*value),
{
    value.to_string()
}

/// The instant that an RFC 3339 date-time names, as seconds since the Unix
/// epoch and nanoseconds; `None` where the text is no such date-time.
pub uninterp spec fn rfc3339_instant(text: Seq<char>) -> Option<(i64, u32)>;

/// Relies on `chrono::DateTime::parse_from_rfc3339`, read back through
/// `timestamp` and `timestamp_subsec_nanos`: the instant the text names.
#[verifier::external_body]
fn parse_rfc3339(text: &str) -> (r: Option<(i64, u32)>)
    ensures
        r == rfc3339_instant(text@),
{
    match chrono::DateTime::parse_from_rfc3339(text) {
        Ok(t) => Some((t.timestamp(), t.timestamp_subsec_nanos())),
        Err(_) => None,
    }
}

/// What `parse_json_datetime` gives for a value.
pub open spec fn datetime_of(value: Value) -> Result<Timestamp, PassboltError> {
    match str_of(value) {
        None => Err(PassboltError::SchemaError),
        Some(text) => match rfc3339_instant(text) {
            None => Err(PassboltError::SchemaError),
            Some(instant) => Ok(Timestamp { unix_seconds: instant.0, nanos: instant.1 }),
        },
    }
}

/// Parses an RFC 3339 date-time from the given JSON value; anything else is a
/// `SchemaError`.
pub fn parse_json_datetime(value: &Value) -> (r: Result<Timestamp, PassboltError>)
    ensures
        r == datetime_of(*value),
{
    let text = match parse_json_string(value) {
        Ok(t) => t,
        Err(e) => return Err(e),
    };
    match parse_rfc3339(text.as_str()) {
        Some((unix_seconds, nanos)) => Ok(Timestamp { unix_seconds, nanos }),
        None => Err(PassboltError::SchemaError),
    }
}

/// A field that must be present: its value, or a `SchemaError`.
pub fn required<T>(field: Option<T>) -> (r: Result<T, PassboltError>)
    ensures
        field is Some ==> r == Ok::<T, PassboltError>(field->0),
        field is None ==> r == Err::<T, PassboltError>(PassboltError::SchemaError),
{
    match field {
        Some(v) => Ok(v),
        None => Err(PassboltError::SchemaError),
    }
}

/// Parses a string from the given JSON value; anything else is a `SchemaError`.
pub fn parse_json_string(value: &Value) -> (r: Result<String, PassboltError>)
    ensures
        r is Ok <==> str_of(*value) is Some,
        r is Ok ==> r->Ok_0@ == str_of(*value)->0,
        r is Err ==> r == Err::<String, PassboltError>(PassboltError::SchemaError),
{
    required(json_str(value))
}

/// Parses a boolean from the given JSON value; anything else is a `SchemaError`.
pub fn parse_json_bool(value: &Value) -> (r: Result<bool, PassboltError>)
    ensures
        bool_of(*value) is Some ==> r == Ok::<bool, PassboltError>(bool_of(*value)->0),
        bool_of(*value) is None ==> r == Err::<bool, PassboltError>(PassboltError::SchemaError),
{
    required(json_bool(value))
}

} // verus!
