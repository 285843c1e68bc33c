//! The boundary to `serde_json`: a mathematical model of a JSON value and the
//! contracts under which the parser and the accessors of `serde_json::Value`
//! are called. Nothing in this file is proved; the rest of the crate is proved
//! against it.

use vstd::prelude::*;

verus! {

/// A JSON value as contracts see it.
///
/// Numbers carry no payload: nothing in this crate reads one.
pub enum Json {
    Null,
    Bool(bool),
    Number,
    Text(Seq<char>),
    Array(Seq<Json>),
    Object(Map<Seq<char>, Json>),
}

/// `serde_json::Value`, carried through as it comes from the parser; contracts
/// see it only through [`value_model`].
#[verifier::external_type_specification]
#[verifier::external_body]
pub struct ExValue(serde_json::Value);

/// The JSON value that a parsed `serde_json::Value` stands for.
pub uninterp spec fn value_model(value: serde_json::Value) -> Json;

/// What `serde_json::from_str` makes of `text` when asked for a
/// `serde_json::Value`: the document's value, or `None` where the parser
/// reports an error (malformed or incomplete JSON, or anything but white
/// space after the first value).
pub uninterp spec fn parsed(text: Seq<char>) -> Option<Json>;

/// Calls `serde_json::from_str::<serde_json::Value>` and drops the error's
/// detail. Claims that the outcome depends on the text alone: it is the value
/// named [`parsed`].
#[verifier::external_body]
pub(crate) fn parse(text: &str) -> (r: Option<serde_json::Value>)
    ensures
        match r {
            Some(value) => parsed(text@) == Some(value_model(value)),
            None => parsed(text@) is None,
        },
{
    serde_json::from_str::<serde_json::Value>(text).ok()
}

/// Calls `serde_json::Value::get` with a string index. Claims what its source
/// shows: the member stored under `key` where `value` is an object that has
/// one, and `None` for every other value.
#[verifier::external_body]
pub(crate) fn member<'a>(value: &'a serde_json::Value, key: &str) -> (r: Option<&'a serde_json::Value>)
    ensures
        match r {
            Some(found) => value_model(*value) matches Json::Object(members)
                && members.contains_key(key@) && value_model(*found) == members[key@],
            None => !(value_model(*value) matches Json::Object(members) && members.contains_key(
                key@,
            )),
        },
{
    value.get(key)
}

/// Calls `serde_json::Value::as_str`. Claims what its source shows: the text
/// of a JSON string, and `None` for every other value.
#[verifier::external_body]
pub(crate) fn as_text<'a>(value: &'a serde_json::Value) -> (r: Option<&'a str>)
    ensures
        match r {
            Some(text) => value_model(*value) == Json::Text(text@),
            None => !(value_model(*value) is Text),
        },
{
    value.as_str()
}

} // verus!
