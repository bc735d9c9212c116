//! Reading JSON text.
use vstd::prelude::*;

use crate::text;

verus! {

/// The JSON text of the member of a JSON object with a given key; nothing where the text is not a
/// JSON object or the object has no such member.
pub uninterp spec fn json_member_of(raw: Seq<char>, key: Seq<char>) -> Option<Seq<char>>;

/// The text that a JSON string stands for; nothing where the text is not a JSON string.
pub uninterp spec fn json_string_of(raw: Seq<char>) -> Option<Seq<char>>;

/// The truth value that the JSON text `true` or `false` stands for; nothing for any other text.
pub uninterp spec fn json_bool_of(raw: Seq<char>) -> Option<bool>;

/// `serde_json::from_str` into a `Value`, `Value::get` with a key and `Value::to_string`, in that
/// order. What the three return together depends on the two texts alone.
#[verifier::external_body]
pub(crate) fn json_member(raw: &str, key: &str) -> (member: Option<String>)
    ensures
        text::opt_view(member) == json_member_of(raw@, key@),
{
    let value = serde_json::from_str::<serde_json::Value>(raw).ok()?;
    let member = value.get(key)?;
    Some(member.to_string())
}

/// `serde_json::from_str` into a `Value` and `Value::as_str`, in that order. What the two return
/// together depends on the text alone.
#[verifier::external_body]
pub(crate) fn json_string(raw: &str) -> (found: Option<String>)
    ensures
        text::opt_view(found) == json_string_of(raw@),
{
    let value = serde_json::from_str::<serde_json::Value>(raw).ok()?;
    let found = value.as_str()?;
    Some(found.to_owned())
}

/// `serde_json::from_str` into a `Value` and `Value::as_bool`, in that order. What the two return
/// together depends on the text alone.
#[verifier::external_body]
pub(crate) fn json_bool(raw: &str) -> (found: Option<bool>)
    ensures
        found == json_bool_of(raw@),
{
    serde_json::from_str::<serde_json::Value>(raw).ok()?.as_bool()
}

/// A JSON text laid out over lines with two spaces of indent; nothing where the text is not JSON.
pub uninterp spec fn pretty_json_of(raw: Seq<char>) -> Option<Seq<char>>;

/// `serde_json::from_str` into a `Value` and `serde_json::to_string_pretty` of it, in that order.
/// What the two return together depends on the text alone.
#[verifier::external_body]
pub(crate) fn pretty_json(raw: &str) -> (pretty: Option<String>)
    ensures
        text::opt_view(pretty) == pretty_json_of(raw@),
{
    let value = serde_json::from_str::<serde_json::Value>(raw).ok()?;
    serde_json::to_string_pretty(&value).ok()
}

/// The text of a member that is a JSON string.
pub open spec fn member_text_of(raw: Seq<char>, key: Seq<char>) -> Option<Seq<char>> {
    match json_member_of(raw, key) {
        Some(member) => json_string_of(member),
        None => None,
    }
}

/// The truth value of a member that is a JSON boolean.
pub open spec fn member_bool_of(raw: Seq<char>, key: Seq<char>) -> Option<bool> {
    match json_member_of(raw, key) {
        Some(member) => json_bool_of(member),
        None => None,
    }
}

/// The text of a member that is a JSON string.
pub fn member_text(raw: &str, key: &str) -> (found: Option<String>)
    ensures
        text::opt_view(found) == member_text_of(raw@, key@),
{
    match json_member(raw, key) {
        Some(member) => json_string(member.as_str()),
        None => None,
    }
}

/// The truth value of a member that is a JSON boolean.
pub fn member_bool(raw: &str, key: &str) -> (found: Option<bool>)
    ensures
        found == member_bool_of(raw@, key@),
{
    match json_member(raw, key) {
        Some(member) => json_bool(member.as_str()),
        None => None,
    }
}

/// The text of a string member of an object that is itself a member.
pub open spec fn nested_text_of(raw: Seq<char>, outer: Seq<char>, inner: Seq<char>) -> Option<
    Seq<char>,
> {
    match json_member_of(raw, outer) {
        Some(member) => member_text_of(member, inner),
        None => None,
    }
}

/// The text of a string member of an object that is itself a member.
pub fn nested_text(raw: &str, outer: &str, inner: &str) -> (found: Option<String>)
    ensures
        text::opt_view(found) == nested_text_of(raw@, outer@, inner@),
{
    match json_member(raw, outer) {
        Some(member) => member_text(member.as_str(), inner),
        None => None,
    }
}

} // verus!
