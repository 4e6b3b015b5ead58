//! Trusted boundary to serde_json: parsing argument text, rendering a value
//! back to canonical JSON text, and reading a string-typed value.
//!
//! JSON values are opaque here; the contracts speak of the canonical text
//! a value renders to and of whether a text parses.

use vstd::prelude::*;

verus! {

#[verifier::external_type_specification]
#[verifier::external_body]
pub struct ExJsonValue(serde_json::Value);

#[verifier::external_type_specification]
#[verifier::external_body]
pub struct ExJsonError(serde_json::Error);

/// Whether `serde_json::from_str::<Value>` accepts this text.
pub uninterp spec fn json_parse_ok(s: Seq<char>) -> bool;

/// The canonical JSON text of a value: what serde_json renders for it.
pub uninterp spec fn json_text_of(v: serde_json::Value) -> Seq<char>;

/// The characters of a string-typed value, or nothing for other values.
pub uninterp spec fn json_as_str_of(v: serde_json::Value) -> Option<Seq<char>>;

/// Relies on `serde_json::from_str::<Value>`: acceptance depends on the text
/// alone, and parsing the canonical text of some value yields a value with
/// that same canonical text (serde_json's print/parse round trip).
#[verifier::external_body]
pub fn parse_json(s: &str) -> (r: Result<serde_json::Value, serde_json::Error>)
    ensures
        r is Ok <==> json_parse_ok(s@),
        r matches Ok(v) ==> ((exists|v0: serde_json::Value| s@ == json_text_of(v0))
            ==> json_text_of(v) == s@),
{
    serde_json::from_str(s)
}

/// Relies on `serde_json::Value`'s `Display`: the canonical JSON text.
#[verifier::external_body]
pub fn json_to_string(v: &serde_json::Value) -> (r: String)
    ensures
        r@ == json_text_of(*v),
{
    v.to_string()
}

/// Relies on `serde_json::Value::as_str`: the contents of a string value,
/// nothing for any other value.
#[verifier::external_body]
pub fn json_value_as_str(v: &serde_json::Value) -> (r: Option<&str>)
    ensures
        r matches Some(s) ==> json_as_str_of(*v) == Some(s@),
        r is None ==> json_as_str_of(*v) is None,
{
    v.as_str()
}

/// Relies on `serde_json::Error`'s `Display` for the diagnostic text.
#[verifier::external_body]
pub fn json_error_message(e: &serde_json::Error) -> (r: String) {
    e.to_string()
}

/// What argument normalization yields for a wire value: a string value's
/// characters verbatim, any other value's canonical JSON text.
pub open spec fn normalized_arguments(v: serde_json::Value) -> Seq<char> {
    match json_as_str_of(v) {
        Some(s) => s,
        None => json_text_of(v),
    }
}

/// Normalize a tool call's wire arguments to a string: providers may send
/// them as a JSON string or as a JSON object; an object is re-serialized.
pub fn normalize_wire_arguments(v: &serde_json::Value) -> (r: String)
    ensures
        r@ == normalized_arguments(*v),
{
    match json_value_as_str(v) {
        Some(s) => s.to_owned(),
        None => json_to_string(v),
    }
}

/// Re-serializing a value and parsing the result yields a value with the
/// same canonical text — the two are the same JSON object. Parsing can
/// refuse only what serde_json itself cannot read back (nesting past its
/// recursion limit).
pub fn reparse_json_value(v: &serde_json::Value) -> (r: Option<serde_json::Value>)
    ensures
        r matches Some(w) ==> json_text_of(w) == json_text_of(*v),
{
    let s = json_to_string(v);
    match parse_json(s.as_str()) {
        Ok(w) => {
            proof {
                assert(exists|v0: serde_json::Value| s@ == json_text_of(v0));
            }
            Some(w)
        },
        Err(_) => None,
    }
}

} // verus!
