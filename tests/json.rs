use passbolt::error::PassboltError;
use passbolt::json::{parse_json_bool, parse_json_string, required};
use serde_json::Value;

#[test]
fn string_value_parses() {
    assert_eq!(parse_json_string(&Value::String("abc".to_string())), Ok("abc".to_string()));
}

#[test]
fn non_string_value_is_schema_error() {
    assert_eq!(parse_json_string(&Value::Bool(true)), Err(PassboltError::SchemaError));
    assert_eq!(parse_json_string(&Value::Null), Err(PassboltError::SchemaError));
}

#[test]
fn bool_value_parses() {
    assert_eq!(parse_json_bool(&Value::Bool(false)), Ok(false));
    assert_eq!(parse_json_bool(&Value::String("true".to_string())), Err(PassboltError::SchemaError));
}

#[test]
fn required_field() {
    assert_eq!(required(Some(3u8)), Ok(3u8));
    assert_eq!(required::<u8>(None), Err(PassboltError::SchemaError));
}

#[test]
fn rfc3339_datetime_parses_to_instant() {
    let v = Value::String("2021-12-01T10:20:30.5+01:00".to_string());
    let t = passbolt::json::parse_json_datetime(&v).unwrap();
    assert_eq!(t.unix_seconds, 1638350430);
    assert_eq!(t.nanos, 500_000_000);
}

#[test]
fn malformed_datetime_is_schema_error() {
    let v = Value::String("yesterday".to_string());
    assert_eq!(passbolt::json::parse_json_datetime(&v), Err(PassboltError::SchemaError));
    assert_eq!(passbolt::json::parse_json_datetime(&Value::Null), Err(PassboltError::SchemaError));
}
