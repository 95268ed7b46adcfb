//! What the library reads of a decoded JSON document.

use vstd::prelude::*;
use serde_json::Value;

verus! {

/// A decoded JSON document, as `serde_json` holds it.
#[verifier::external_type_specification]
#[verifier::external_body]
pub struct ExValue(serde_json::Value);

/// The member that a JSON object holds under a key; none where the value is
/// no object or the object has no such key.
pub uninterp spec fn json_member(value: Value, key: Seq<char>) -> Option<Value>;

/// The number that a JSON value holds, where it is an integer from zero to
/// the largest `u64`.
pub uninterp spec fn json_u64(value: Value) -> Option<u64>;

/// The elements of a JSON array, in order; none where the value is no array.
pub uninterp spec fn json_elements(value: Value) -> Option<Seq<Value>>;

/// The bit pattern of the IEEE 754 double that a JSON number is read as; none
/// where the value is no number.
pub uninterp spec fn json_double_bits(value: Value) -> Option<u64>;

/// `serde_json::Value::get` with a string key: the member under that key, as
/// `json_member` names it.
#[verifier::external_body]
pub(crate) fn member<'a>(value: &'a Value, key: &str) -> (m: Option<&'a Value>)
    ensures
        m matches Some(found) ==> json_member(*value, key@) == Some(*found),
        m is None ==> json_member(*value, key@) is None,
{
    value.get(key)
}

/// `serde_json::Value::as_u64`: the unsigned integer that the value holds, as
/// `json_u64` names it.
#[verifier::external_body]
pub(crate) fn as_count(value: &Value) -> (n: Option<u64>)
    ensures
        n == json_u64(*value),
{
    value.as_u64()
}

/// `serde_json::Value::as_array`: the vector of an array's elements, as
/// `json_elements` names them.
#[verifier::external_body]
pub(crate) fn elements<'a>(value: &'a Value) -> (a: Option<&'a Vec<Value>>)
    ensures
        a matches Some(found) ==> json_elements(*value) == Some(found@),
        a is None ==> json_elements(*value) is None,
{
    value.as_array()
}

/// `serde_json::Value::as_f64`, with the double handed out as its bit
/// pattern, as `json_double_bits` names it.
#[verifier::external_body]
pub(crate) fn double_bits(value: &Value) -> (b: Option<u64>)
    ensures
        b == json_double_bits(*value),
{
    match value.as_f64() {
        Some(x) => Some(x.to_bits()),
        None => None,
    }
}

} // verus!
