//! The trusted boundary around serde_json. A decoded line is an opaque
//! `serde_json::Value`; everything the reconstruction reads from one goes
//! through the small wrappers here, and all decisions on what was read are
//! made by verified code in `decode`. Each wrapper's result is named: the
//! parse and the accessors are functions of their arguments alone, so the
//! names fix every result by its input, and the decode layer's contracts
//! are stated over them.

use vstd::prelude::*;

verus! {

#[verifier::external_type_specification]
#[verifier::external_body]
pub struct ExValue(serde_json::Value);

/// What serde_json::from_str::<Value> decodes one line of text to: a
/// function of the line alone; None for blank or malformed text.
pub uninterp spec fn parsed_json(line: Seq<char>) -> Option<serde_json::Value>;

/// What serde_json::Value::get finds under a key: the named field of a JSON
/// object that has it, None otherwise.
pub uninterp spec fn field_of(v: serde_json::Value, key: Seq<char>) -> Option<serde_json::Value>;

/// What serde_json::Value::as_str returns: the contained text when the
/// value is a JSON string, None otherwise.
pub uninterp spec fn str_val(v: serde_json::Value) -> Option<Seq<char>>;

/// What serde_json::Value::as_u64 returns: the contained number when the
/// value is a JSON integer that fits in a u64, None otherwise.
pub uninterp spec fn u64_val(v: serde_json::Value) -> Option<u64>;

/// What serde_json::Value::as_array returns: the contained elements when
/// the value is a JSON array, None otherwise.
pub uninterp spec fn arr_val(v: serde_json::Value) -> Option<Seq<serde_json::Value>>;

/// Relies on serde_json::from_str::<Value>: decodes one line of text as a
/// JSON value; a blank or malformed line gives None. Deterministic in the
/// line, which `parsed_json` names.
#[verifier::external_body]
pub(crate) fn parse_json_line(line: &str) -> (r: Option<serde_json::Value>)
    ensures
        r == parsed_json(line@),
{
    serde_json::from_str(line).ok()
}

/// Relies on serde_json::Value::get: the named field when the value is a
/// JSON object that has it.
#[verifier::external_body]
pub(crate) fn json_get<'a>(v: &'a serde_json::Value, key: &str) -> (r: Option<
    &'a serde_json::Value,
>)
    ensures
        match r {
            Some(f) => field_of(*v, key@) == Some(*f),
            None => field_of(*v, key@) is None,
        },
{
    v.get(key)
}

/// Relies on serde_json::Value::as_str: the contained text when the value
/// is a JSON string.
#[verifier::external_body]
pub(crate) fn json_as_string(v: &serde_json::Value) -> (r: Option<String>)
    ensures
        r.deep_view() == str_val(*v),
{
    v.as_str().map(|s| s.to_string())
}

/// Relies on serde_json::Value::as_u64: the contained number when the value
/// is a JSON integer that fits in a u64.
#[verifier::external_body]
pub(crate) fn json_as_u64(v: &serde_json::Value) -> (r: Option<u64>)
    ensures
        r == u64_val(*v),
{
    v.as_u64()
}

/// Relies on serde_json::Value::is_string, whose source answers exactly
/// "as_str returns Some".
#[verifier::external_body]
pub(crate) fn json_is_string(v: &serde_json::Value) -> (r: bool)
    ensures
        r == (str_val(*v) is Some),
{
    v.is_string()
}

/// Relies on serde_json::Value::as_array: the contained elements when the
/// value is a JSON array.
#[verifier::external_body]
pub(crate) fn json_as_array<'a>(v: &'a serde_json::Value) -> (r: Option<&'a Vec<serde_json::Value>>)
    ensures
        match r {
            Some(a) => arr_val(*v) == Some(a@),
            None => arr_val(*v) is None,
        },
{
    v.as_array()
}

} // verus!
