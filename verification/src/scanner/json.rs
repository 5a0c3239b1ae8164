//! Reading one member of a JSON manifest.

use vstd::prelude::*;

verus! {
/// What a JSON document holds under a key of its top-level object: the
/// member's text when the document is an object whose member `key` is a
/// string, nothing when it has no such member or the member is no string,
/// and the parser's message when the document is not valid JSON.
pub uninterp spec fn json_text_member(document: Seq<char>, key: Seq<char>) -> Result<
    Option<Seq<char>>,
    Seq<char>,
>;

/// The view of the result of a member lookup.
pub open spec fn lookup_view(r: Result<Option<String>, String>) -> Result<
    Option<Seq<char>>,
    Seq<char>,
> {
    match r {
        Ok(Some(s)) => Ok(Some(s@)),
        Ok(None) => Ok(None),
        Err(e) => Err(e@),
    }
}

/// Parses `document` with `serde_json::from_str` into a `serde_json::Value`
/// and reads the member with `Value::get`. Parsing fails with an error for
/// malformed input and never panics; the outcome is determined by the two
/// texts.
#[verifier::external_body]
pub(crate) fn json_string_member(document: &str, key: &str) -> (r: Result<Option<String>, String>)
    ensures
        lookup_view(r) == json_text_member(document@, key@),
{
    match serde_json::from_str::<serde_json::Value>(document) {
        Ok(value) => match value.get(key) {
            Some(serde_json::Value::String(text)) => Ok(Some(text.clone())),
            _ => Ok(None),
        },
        Err(error) => Err(error.to_string()),
    }
}

} // verus!
