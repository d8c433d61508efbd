//! The JSON reader that decodes the service's answers. Nothing in this file
//! is proved: each contract records what `serde_json` is taken to do.

use vstd::prelude::*;

verus! {

/// `serde_json::Value`, a parsed JSON document. Opaque: what the library
/// reads of one goes through `json_members`.
#[verifier::external_type_specification]
#[verifier::external_body]
pub struct ExJsonValue(serde_json::Value);

/// `serde_json::Error`, the reason a text was not accepted as JSON. Opaque.
#[verifier::external_type_specification]
#[verifier::external_body]
pub struct ExJsonError(serde_json::Error);

/// The members of a JSON object by name, each with the boolean it holds, or
/// with `None` where it holds anything else. A document that is not an
/// object has no members.
pub uninterp spec fn json_members(doc: serde_json::Value) -> Map<Seq<char>, Option<bool>>;

/// The members of the document that a text spells, or `None` where the
/// text is not one complete JSON document.
pub uninterp spec fn json_text_members(text: Seq<u8>) -> Option<Map<Seq<char>, Option<bool>>>;

/// `serde_json::from_slice`, read into a `serde_json::Value`. The result
/// depends on the bytes alone: the same text is accepted or refused every
/// time, and when accepted spells the same members. Nesting deeper than the
/// reader's limit is refused like any other malformed text.
#[verifier::external_body]
pub(crate) fn parse_json(text: &[u8]) -> (parsed: Result<serde_json::Value, serde_json::Error>)
    ensures
        match parsed {
            Ok(doc) => json_text_members(text@) == Some(json_members(doc)),
            Err(_) => json_text_members(text@) is None,
        },
{
    serde_json::from_slice::<serde_json::Value>(text)
}

/// `serde_json::Value::get` with a member's name. It finds nothing in a
/// document that is not an object or that has no member of that name. Of
/// the member found, the wrapper hands out the boolean where it is a
/// `Value::Bool`, and `None` for any other kind of value.
#[verifier::external_body]
pub(crate) fn boolean_member(doc: &serde_json::Value, name: &str) -> (member: Option<Option<bool>>)
    ensures
        member == json_members(*doc).get(name@),
{
    match doc.get(name) {
        Some(serde_json::Value::Bool(flag)) => Some(Some(*flag)),
        Some(_) => Some(None),
        None => None,
    }
}

} // verus!
