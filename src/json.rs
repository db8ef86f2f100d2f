//! The JSON parser and serializers that the library relies on.

use vstd::prelude::*;

verus! {

#[verifier::external_type_specification]
#[verifier::external_body]
pub struct ExJsonValue(serde_json::Value);

#[verifier::external_type_specification]
#[verifier::external_body]
pub struct ExJsonError(serde_json::Error);

/// What `serde_json::from_str::<serde_json::Value>` gives for `text`: the
/// value, or `None` where it fails.
pub uninterp spec fn json_parse_of(text: Seq<char>) -> Option<serde_json::Value>;

/// What `serde_json::to_string` gives for `value`: its compact text, or
/// `None` where it fails.
pub uninterp spec fn compact_json_of(value: serde_json::Value) -> Option<Seq<char>>;

/// What `serde_json::to_string_pretty` gives for `value`: its indented text,
/// or `None` where it fails.
pub uninterp spec fn pretty_json_of(value: serde_json::Value) -> Option<Seq<char>>;

/// Whether serde_json accepts `text`, as a whole, as one JSON value.
pub open spec fn is_json_text(text: Seq<char>) -> bool {
    json_parse_of(text) is Some
}

/// Whether a serializer's result is the text `expected`, or an error where
/// `expected` is `None`.
pub open spec fn serialized_as(r: Result<String, serde_json::Error>, expected: Option<Seq<char>>) -> bool {
    match r {
        Ok(s) => expected == Some(s@),
        Err(_) => expected is None,
    }
}

/// Relies on `serde_json::from_str::<serde_json::Value>`: it parses the whole
/// text as a single JSON value, surrounding whitespace allowed, and what it
/// gives depends on the text alone.
#[verifier::external_body]
pub(crate) fn parse_json(text: &str) -> (r: Option<serde_json::Value>)
    ensures
        r == json_parse_of(text@),
{
    serde_json::from_str::<serde_json::Value>(text).ok()
}

/// Relies on `serde_json::to_string`: the value as compact JSON text, which
/// depends on the value alone.
#[verifier::external_body]
pub(crate) fn to_compact_json(value: &serde_json::Value) -> (r: Result<String, serde_json::Error>)
    ensures
        serialized_as(r, compact_json_of(*value)),
{
    serde_json::to_string(value)
}

/// Relies on `serde_json::to_string_pretty`: the value as indented JSON text,
/// which depends on the value alone.
#[verifier::external_body]
pub(crate) fn to_pretty_json(value: &serde_json::Value) -> (r: Result<String, serde_json::Error>)
    ensures
        serialized_as(r, pretty_json_of(*value)),
{
    serde_json::to_string_pretty(value)
}

} // verus!
