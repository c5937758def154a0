//! The JSON payload of a response, decoded by serde_json.
use vstd::prelude::*;

verus! {

#[verifier::external_type_specification]
#[verifier::external_body]
pub struct ExJsonValue(serde_json::Value);

#[verifier::external_type_specification]
#[verifier::external_body]
pub struct ExJsonError(serde_json::Error);

/// Whether serde_json accepts `text` as a JSON document.
pub uninterp spec fn json_valid(text: Seq<char>) -> bool;

/// The string that the JSON object in `text` holds under `key`, if `text`
/// is a JSON object with a string member of that name.
pub uninterp spec fn json_string_field(text: Seq<char>, key: Seq<char>) -> Option<Seq<char>>;

/// Relies on `serde_json::from_str`: it succeeds exactly on well-formed JSON,
/// and the empty object `{}` is well-formed.
#[verifier::external_body]
pub(crate) fn decode_json(text: &str) -> (r: Result<serde_json::Value, serde_json::Error>)
    ensures
        r is Ok <==> json_valid(text@),
        text@ == "{}"@ ==> r is Ok,
{
    serde_json::from_str::<serde_json::Value>(text)
}

/// Relies on `serde_json::from_str`, `Value::get` and `Value::as_str`: the
/// string member `key` of the JSON object in `text`, if there is one.
#[verifier::external_body]
pub(crate) fn string_field(text: &str, key: &str) -> (r: Option<String>)
    ensures
        match r {
            Some(s) => json_string_field(text@, key@) == Some(s@),
            None => json_string_field(text@, key@) is None,
        },
{
    let value = serde_json::from_str::<serde_json::Value>(text).ok()?;
    value.get(key)?.as_str().map(|s| s.to_string())
}

} // verus!
