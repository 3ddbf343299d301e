//! The JSON values carried by tool calls, and the few operations on them that
//! the agent needs.
use vstd::prelude::*;

verus! {

#[verifier::external_type_specification]
#[verifier::external_body]
pub struct ExJsonValue(serde_json::Value);

/// Whether a JSON value is an object (`serde_json::Value::is_object`).
pub uninterp spec fn json_is_object(v: serde_json::Value) -> bool;

/// What `serde_json::from_str::<serde_json::Value>` gives for `text`: the
/// parsed value, or the message of the parse error.
pub uninterp spec fn json_parse_outcome(text: Seq<char>) -> Result<serde_json::Value, Seq<char>>;

/// Calls `serde_json::Value::clone`, which is derived and so yields a value
/// equal to its argument.
#[verifier::external_body]
pub fn json_clone(v: &serde_json::Value) -> (r: serde_json::Value)
    ensures
        r == *v,
{
    v.clone()
}

/// What `serde_json::Value::eq` (the derived equality of JSON values) gives
/// for `a` and `b`. Numbers compare as numbers, so values that differ can
/// still be equal (`0.0` and `-0.0`).
pub uninterp spec fn json_equal(a: serde_json::Value, b: serde_json::Value) -> bool;

/// Calls `serde_json::Value::eq`. Its result is named; the derived equality
/// holds of a value and itself. Which distinct values it also relates is not
/// stated.
#[verifier::external_body]
pub fn json_eq(a: &serde_json::Value, b: &serde_json::Value) -> (r: bool)
    ensures
        r == json_equal(*a, *b),
        *a == *b ==> r,
{
    a == b
}

/// Calls `serde_json::Value::is_object`.
#[verifier::external_body]
pub fn json_value_is_object(v: &serde_json::Value) -> (r: bool)
    ensures
        r == json_is_object(*v),
{
    v.is_object()
}

/// The value that a JSON literal text stands for.
pub open spec fn json_literal(text: Seq<char>) -> serde_json::Value {
    match json_parse_outcome(text) {
        Ok(v) => v,
        Err(_) => arbitrary(),
    }
}

/// Builds `serde_json::Value::Object` around a new empty `serde_json::Map`:
/// the value that `serde_json::from_str` reads from `{}`, of which
/// `is_object` holds.
#[verifier::external_body]
pub fn json_empty_object() -> (r: serde_json::Value)
    ensures
        json_is_object(r),
        r == json_literal("{}"@),
{
    serde_json::Value::Object(serde_json::Map::new())
}

/// Builds `serde_json::Value::Null`: the value that `serde_json::from_str`
/// reads from `null`, which is not an object.
#[verifier::external_body]
pub fn json_null() -> (r: serde_json::Value)
    ensures
        !json_is_object(r),
        r == json_literal("null"@),
{
    serde_json::Value::Null
}

/// Calls `serde_json::from_str::<serde_json::Value>`, turning the error into
/// its message. The outcome is named: it depends on the text alone.
#[verifier::external_body]
pub fn json_parse(text: &str) -> (r: Result<serde_json::Value, String>)
    ensures
        match r {
            Ok(v) => json_parse_outcome(text@) == Ok::<serde_json::Value, Seq<char>>(v),
            Err(e) => json_parse_outcome(text@) == Err::<serde_json::Value, Seq<char>>(e@),
        },
{
    serde_json::from_str::<serde_json::Value>(text).map_err(|e| e.to_string())
}

} // verus!
