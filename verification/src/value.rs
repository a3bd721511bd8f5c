//! JSON values and their serialization, both the work of `serde_json`.

use vstd::prelude::*;
use serde_json::Value;
use crate::fields::{Field, FieldSeq, fields_view};

verus! {

/// `serde_json::Value`: a JSON value, carried through without a look inside.
#[verifier::external_type_specification]
#[verifier::external_body]
pub struct ExValue(serde_json::Value);

/// `serde_json::Error`: why the serializer gave up, carried through
/// without a look inside.
#[verifier::external_type_specification]
#[verifier::external_body]
pub struct ExJsonError(serde_json::Error);

/// The JSON string that holds a text.
pub uninterp spec fn json_string(s: Seq<char>) -> Value;

/// The JSON string that holds a text, or JSON's null where there is none.
pub uninterp spec fn json_optional_string(s: Option<Seq<char>>) -> Value;

/// The JSON value of a truth value.
pub uninterp spec fn json_bool(b: bool) -> Value;

/// The JSON number of an unsigned integer.
pub uninterp spec fn json_unsigned(n: u64) -> Value;

/// The JSON number of an unsigned integer, or JSON's null where there is none.
pub uninterp spec fn json_optional_unsigned(n: Option<u32>) -> Value;

/// The JSON number of a signed integer.
pub uninterp spec fn json_signed(n: i64) -> Value;

/// The JSON object built from a list of fields.
pub uninterp spec fn json_object(fields: FieldSeq) -> Value;

/// The bytes of a list of fields written as one JSON object on one line,
/// or `None` where the serializer gives up.
pub uninterp spec fn compact_json(fields: FieldSeq) -> Option<Seq<u8>>;

/// The bytes of a list of fields written as one indented JSON object, or
/// `None` where the serializer gives up.
pub uninterp spec fn pretty_json(fields: FieldSeq) -> Option<Seq<u8>>;

/// `Value::from(&str)`: the result is a function of the text alone.
#[verifier::external_body]
pub(crate) fn value_from_str(s: &str) -> (value: Value)
    ensures
        value == json_string(s@),
{
    Value::from(s)
}

/// `Value::from(Option<&str>)`: the result is a function of the argument alone.
#[verifier::external_body]
pub(crate) fn value_from_optional_str(s: Option<&str>) -> (value: Value)
    ensures
        value == json_optional_string(
            match s {
                Some(t) => Some(t@),
                None => None,
            },
        ),
{
    Value::from(s)
}

/// `Value::from(bool)`: the result is a function of the argument alone.
#[verifier::external_body]
pub(crate) fn value_from_bool(b: bool) -> (value: Value)
    ensures
        value == json_bool(b),
{
    Value::from(b)
}

/// `Value::from(u64)`: the result is a function of the number alone.
#[verifier::external_body]
pub(crate) fn value_from_u64(n: u64) -> (value: Value)
    ensures
        value == json_unsigned(n),
{
    Value::from(n)
}

/// `Value::from(Option<u32>)`: the result is a function of the argument alone.
#[verifier::external_body]
pub(crate) fn value_from_optional_u32(n: Option<u32>) -> (value: Value)
    ensures
        value == json_optional_unsigned(n),
{
    Value::from(n)
}

/// `Value::from(i64)`: the result is a function of the number alone.
#[verifier::external_body]
pub(crate) fn value_from_i64(n: i64) -> (value: Value)
    ensures
        value == json_signed(n),
{
    Value::from(n)
}

/// `serde_json::to_value` on a `u128`: a number that fits in 64 bits becomes
/// the JSON number that `Value::from(u64)` gives, a larger one is refused.
#[verifier::external_body]
pub(crate) fn value_from_u128(n: u128) -> (result: Result<Value, serde_json::Error>)
    ensures
        match result {
            Ok(value) => n <= u64::MAX && value == json_unsigned(n as u64),
            Err(_) => n > u64::MAX,
        },
{
    serde_json::to_value(n)
}

/// `Value::clone`: the copy equals the value it was made from.
pub assume_specification[ <serde_json::Value as Clone>::clone ](value: &serde_json::Value) -> (copy:
    serde_json::Value)
    ensures
        copy == *value,
;

/// Collects the fields into a `serde_json::Map` and wraps it as
/// `Value::Object`: the result is a function of the list of fields. (The
/// map keeps one value for each key, the last one given.)
#[verifier::external_body]
pub(crate) fn object_value(fields: &Vec<Field>) -> (value: Value)
    ensures
        value == json_object(fields_view(fields@)),
{
    Value::Object(fields.iter().map(|f| (f.key.clone(), f.value.clone())).collect())
}

/// `Serializer::collect_map` on `serde_json`'s compact serializer writing
/// into a fresh buffer: whether it succeeds and the bytes it leaves are a
/// function of the list of fields.
#[verifier::external_body]
pub(crate) fn serialize_compact(fields: &Vec<Field>) -> (result: Result<Vec<u8>, serde_json::Error>)
    ensures
        match result {
            Ok(bytes) => compact_json(fields_view(fields@)) == Some(bytes@),
            Err(_) => compact_json(fields_view(fields@)) is None,
        },
{
    let mut buffer = Vec::new();
    let mut serializer = serde_json::Serializer::new(&mut buffer);
    serde::Serializer::collect_map(&mut serializer, fields.iter().map(|f| (&f.key, &f.value)))?;
    Ok(buffer)
}

/// `Serializer::collect_map` on `serde_json`'s pretty serializer writing
/// into a fresh buffer: whether it succeeds and the bytes it leaves are a
/// function of the list of fields.
#[verifier::external_body]
pub(crate) fn serialize_pretty(fields: &Vec<Field>) -> (result: Result<Vec<u8>, serde_json::Error>)
    ensures
        match result {
            Ok(bytes) => pretty_json(fields_view(fields@)) == Some(bytes@),
            Err(_) => pretty_json(fields_view(fields@)) is None,
        },
{
    let mut buffer = Vec::new();
    let mut serializer = serde_json::Serializer::pretty(&mut buffer);
    serde::Serializer::collect_map(&mut serializer, fields.iter().map(|f| (&f.key, &f.value)))?;
    Ok(buffer)
}

} // verus!
