//! Reading JSON documents, through serde_json.

use vstd::prelude::*;

verus! {

/// The JSON text of member `key` of the object that `doc` writes, in the
/// compact form serde_json writes a value in; `None` where `doc` is no JSON
/// object or has no member `key`.
pub uninterp spec fn json_member(doc: Seq<char>, key: Seq<char>) -> Option<Seq<char>>;

/// The string that the JSON text `text` writes; `None` where it writes no string.
pub uninterp spec fn json_string(text: Seq<char>) -> Option<Seq<char>>;

/// The unsigned 64-bit integer that the JSON text `text` writes; `None` where
/// it writes no such integer.
pub uninterp spec fn json_unsigned(text: Seq<char>) -> Option<u64>;

/// The view of an optional string.
pub open spec fn opt_text(o: Option<String>) -> Option<Seq<char>> {
    match o {
        Some(t) => Some(t@),
        None => None,
    }
}

/// Relies on serde_json::from_str, reading `doc` as a map from member names to
/// serde_json::Value, and on Value's Display, which writes a value back out as
/// compact JSON text.
#[verifier::external_body]
pub(crate) fn member_text(doc: &str, key: &str) -> (r: Option<String>)
    ensures
        opt_text(r) == json_member(doc@, key@),
{
    let members: std::collections::HashMap<String, serde_json::Value> =
        serde_json::from_str(doc).ok()?;
    members.get(key).map(|v| v.to_string())
}

/// Relies on serde_json::from_str, reading `text` as a `String`.
#[verifier::external_body]
pub(crate) fn string_text(text: &str) -> (r: Option<String>)
    ensures
        opt_text(r) == json_string(text@),
{
    serde_json::from_str::<String>(text).ok()
}

/// Relies on serde_json::from_str, reading `text` as a `u64`.
#[verifier::external_body]
pub(crate) fn unsigned_text(text: &str) -> (r: Option<u64>)
    ensures
        r == json_unsigned(text@),
{
    serde_json::from_str::<u64>(text).ok()
}

} // verus!
